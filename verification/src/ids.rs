//! Trusted sources of fresh identifiers and of the current time.

use vstd::prelude::*;

verus! {

/// Relies on uuid::Uuid::new_v4 and its Display form: a random version-4
/// UUID rendered in the 36-character hyphenated form. Freshness is
/// probabilistic, so nothing is promised beyond the length; callers check
/// for collisions themselves.
#[verifier::external_body]
pub fn new_uuid() -> (r: String)
    ensures
        r@.len() == 36,
{
    uuid::Uuid::new_v4().to_string()
}

/// Relies on std::time::SystemTime::now, Duration::as_secs and
/// SystemTime::duration_since: the wall clock as whole seconds since the
/// Unix epoch, with a clock before the epoch reported as zero. The clock is
/// outside the program, so nothing is promised about the value.
#[verifier::external_body]
pub fn now_unix() -> (r: i64)
{
    std::time::SystemTime::now()
        .duration_since(std::time::UNIX_EPOCH)
        .unwrap_or_default()
        .as_secs() as i64
}

/// The current time in whole seconds since the Unix epoch.
pub fn now_epoch() -> i64 {
    now_unix()
}

} // verus!
