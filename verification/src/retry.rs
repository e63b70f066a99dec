//! The verification retry contract: with several candidate keys, each is
//! tried in order; only a signature-invalid failure moves on to the next
//! candidate, any other failure aborts at once, and exhausting every
//! candidate yields an aggregate signature error.

use vstd::prelude::*;

use crate::errors::{AppError, ErrorKind};

verus! {

/// The outcome of verifying one candidate: success, or the failure it gave.
pub open spec fn is_sig_fail(o: Option<AppError>) -> bool {
    match o {
        Option::Some(e) => e.kind == ErrorKind::InvalidSignature,
        Option::None => false,
    }
}

/// Every attempt before `i` failed with an invalid signature.
pub open spec fn all_sig_failures_upto(atts: Seq<Option<AppError>>, i: int) -> bool {
    forall|j: int| 0 <= j < i ==> is_sig_fail(#[trigger] atts[j])
}

/// Whether a failed attempt should move on to the next candidate: only a
/// signature-invalid failure does.
pub fn verify_should_continue(kind: ErrorKind) -> (r: bool)
    ensures
        r == (kind == ErrorKind::InvalidSignature),
{
    match kind {
        ErrorKind::InvalidSignature => true,
        _ => false,
    }
}

/// Copy a command-layer error.
pub fn clone_app_error(e: &AppError) -> (r: AppError)
    ensures
        r.kind == e.kind,
        r.message@ == e.message@,
{
    AppError { kind: e.kind, message: e.message.clone() }
}

/// Fold the per-candidate outcomes (`None` a success, `Some` its failure)
/// into the overall verification outcome: the first success reached over
/// nothing but signature failures wins; the first other failure aborts
/// as-is; exhausting the candidates on nothing but signature failures — or
/// having none at all — yields the single aggregate signature error.
pub fn select_verify_outcome(attempts: &Vec<Option<AppError>>) -> (r: Result<usize, AppError>)
    ensures
        match r {
            Ok(i) => 0 <= i < attempts@.len() && attempts@[i as int] is None
                && all_sig_failures_upto(attempts@, i as int),
            Err(e) => {
                ||| (exists|i: int|
                    0 <= i < attempts@.len() && all_sig_failures_upto(attempts@, i)
                        && ((#[trigger] attempts@[i]) matches Option::Some(f) && f.kind
                        != ErrorKind::InvalidSignature && e.kind == f.kind && e.message@
                        == f.message@))
                ||| (all_sig_failures_upto(attempts@, attempts@.len() as int) && e.kind
                    == ErrorKind::InvalidSignature && e.message@
                    == "signature invalid for all candidate keys"@)
            },
        },
{
    let mut i: usize = 0;
    while i < attempts.len()
        invariant
            0 <= i <= attempts@.len(),
            all_sig_failures_upto(attempts@, i as int),
        decreases attempts@.len() - i,
    {
        match &attempts[i] {
            Option::None => {
                return Ok(i);
            },
            Option::Some(f) => {
                if !verify_should_continue(f.kind) {
                    return Err(clone_app_error(f));
                }
            },
        }
        i = i + 1;
    }
    Err(AppError::invalid_signature("signature invalid for all candidate keys".to_owned()))
}

} // verus!
