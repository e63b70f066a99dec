//! The keychain capability: storing, retrieving and deleting one named
//! secret. The OS-backed store delegates to the platform credential
//! service; the in-memory store is a verified test double.

use vstd::prelude::*;
use vstd::string::StringExecFns;

use crate::errors::{VaultError, VaultErrorKind};
use crate::vault::{
    by_secret_id, keep_secret_not, lemma_first_where_skip, lookup_secret, secrets_view,
    SecretEntry, SecretV,
};

verus! {

broadcast use vstd::seq_lib::group_filter_ensures, vstd::seq::Seq::lemma_filter_push,
    vstd::seq::Seq::filter_distributes_over_add;

/// Dropping only the entries of one name leaves every other name's lookup
/// as it was.
proof fn lemma_lookup_filter_other(ms: Seq<SecretV>, k: Seq<char>, other: Seq<char>)
    requires
        other != k,
    ensures
        lookup_secret(ms.filter(keep_secret_not(k)), other) == lookup_secret(ms, other),
    decreases ms.len(),
{
    reveal(Seq::filter);
    if ms.len() > 0 {
        let hd = ms[0];
        let tl = ms.drop_first();
        assert(ms =~= seq![hd] + tl);
        lemma_lookup_filter_other(tl, k, other);
        if hd.id != k {
            assert(seq![hd].filter(keep_secret_not(k)) =~= seq![hd]);
            assert(ms.filter(keep_secret_not(k)) =~= seq![hd] + tl.filter(keep_secret_not(k)));
            if hd.id == other {
                assert((seq![hd] + tl.filter(keep_secret_not(k)))[0] == hd);
            } else {
                assert((seq![hd] + tl.filter(keep_secret_not(k))).drop_first() =~= tl.filter(
                    keep_secret_not(k),
                ));
            }
        } else {
            assert(seq![hd].filter(keep_secret_not(k)) =~= Seq::<SecretV>::empty());
            assert(ms.filter(keep_secret_not(k)) =~= tl.filter(keep_secret_not(k)));
        }
    }
}

/// A store of named secrets, one entry per `(service, account)` pair.
pub trait KeychainStore {
    /// Store a secret under a name, replacing any previous value.
    fn set_password(&mut self, service: &str, account: &str, secret: &str) -> Result<
        (),
        VaultError,
    >;

    /// Retrieve the secret stored under a name.
    fn get_password(&self, service: &str, account: &str) -> Result<String, VaultError>;

    /// Delete the secret stored under a name; deleting an absent entry is
    /// not an error.
    fn delete_password(&mut self, service: &str, account: &str) -> Result<(), VaultError>;
}

/// The platform credential store.
pub struct OsKeychain;

impl OsKeychain {
    pub fn new() -> OsKeychain {
        OsKeychain
    }
}

/// Relies on keyring::Entry::new and Entry::set_password: stores the secret
/// in the operating system's credential service. The outcome depends on the
/// environment, so nothing is promised of it.
#[verifier::external_body]
fn os_set_password(service: &str, account: &str, secret: &str) -> (r: Result<(), VaultError>)
{
    let entry = match keyring::Entry::new(service, account) {
        Ok(e) => e,
        Err(e) => {
            return Err(VaultError {
                kind: VaultErrorKind::StorageFailure,
                message: e.to_string(),
            });
        },
    };
    match entry.set_password(secret) {
        Ok(()) => Ok(()),
        Err(e) => Err(VaultError { kind: VaultErrorKind::StorageFailure, message: e.to_string() }),
    }
}

/// Relies on keyring::Entry::new and Entry::get_password: retrieves the
/// secret from the operating system's credential service. The outcome
/// depends on the environment, so nothing is promised of it; an absent
/// entry is reported as not found, any other fault as a storage failure.
#[verifier::external_body]
fn os_get_password(service: &str, account: &str) -> (r: Result<String, VaultError>)
{
    match keyring::Entry::new(service, account).and_then(|e| e.get_password()) {
        Ok(s) => Ok(s),
        Err(keyring::Error::NoEntry) => Err(VaultError {
            kind: VaultErrorKind::NotFound,
            message: "keychain entry not found".to_string(),
        }),
        Err(e) => Err(VaultError { kind: VaultErrorKind::StorageFailure, message: e.to_string() }),
    }
}

/// Relies on keyring::Entry::new and Entry::delete_credential: removes the
/// entry from the operating system's credential service, best effort.
#[verifier::external_body]
fn os_delete_password(service: &str, account: &str) -> (r: Result<(), VaultError>)
{
    if let Ok(entry) = keyring::Entry::new(service, account) {
        let _ = entry.delete_credential();
    }
    Ok(())
}

impl KeychainStore for OsKeychain {
    fn set_password(&mut self, service: &str, account: &str, secret: &str) -> Result<
        (),
        VaultError,
    > {
        os_set_password(service, account, secret)
    }

    fn get_password(&self, service: &str, account: &str) -> Result<String, VaultError> {
        os_get_password(service, account)
    }

    fn delete_password(&mut self, service: &str, account: &str) -> Result<(), VaultError> {
        os_delete_password(service, account)
    }
}

/// An in-memory keychain: a verified test double keyed by
/// `service:account`.
pub struct MemoryKeychain {
    pub entries: Vec<SecretEntry>,
}

/// The name under which a secret is filed: service, a colon, account.
pub open spec fn entry_key(service: Seq<char>, account: Seq<char>) -> Seq<char> {
    service + ":"@ + account
}

impl MemoryKeychain {
    /// An empty in-memory keychain.
    pub fn new() -> (r: MemoryKeychain)
        ensures
            secrets_view(r.entries@).len() == 0,
    {
        MemoryKeychain { entries: Vec::new() }
    }

    /// How many entries are held.
    pub fn len(&self) -> (r: usize)
        ensures
            r == self.entries@.len(),
    {
        self.entries.len()
    }

    /// The name under which a secret is filed.
    pub fn key(service: &str, account: &str) -> (r: String)
        ensures
            r@ == entry_key(service@, account@),
    {
        service.to_owned().concat(":").concat(account)
    }

    /// Store a secret, replacing any previous entry of the same name and
    /// leaving every other entry as it was.
    pub fn set_entry(&mut self, service: &str, account: &str, secret: &str) -> (r: Result<
        (),
        VaultError,
    >)
        ensures
            r is Ok,
            secrets_view(final(self).entries@) == seq![
                (SecretV { id: entry_key(service@, account@), value: secret@ }),
            ] + secrets_view(old(self).entries@).filter(
                keep_secret_not(entry_key(service@, account@)),
            ),
            lookup_secret(secrets_view(final(self).entries@), entry_key(service@, account@))
                == Option::Some(secret@),
            forall|other: Seq<char>|
                other != entry_key(service@, account@) ==> #[trigger] lookup_secret(
                    secrets_view(final(self).entries@),
                    other,
                ) == lookup_secret(secrets_view(old(self).entries@), other),
    {
        let k = MemoryKeychain::key(service, account);
        let ghost kv = entry_key(service@, account@);
        let ghost pred = keep_secret_not(kv);
        let ghost oldv = secrets_view(self.entries@);
        let mut out: Vec<SecretEntry> = Vec::new();
        out.push(SecretEntry { id: k.clone(), value: secret.to_owned() });
        let ghost newv = SecretV { id: kv, value: secret@ };
        assert(secrets_view(out@) =~= seq![newv] + oldv.subrange(0, 0).filter(pred));
        let mut i: usize = 0;
        while i < self.entries.len()
            invariant
                0 <= i <= self.entries@.len(),
                k@ == kv,
                kv == entry_key(service@, account@),
                pred == keep_secret_not(kv),
                newv == (SecretV { id: kv, value: secret@ }),
                oldv == secrets_view(self.entries@),
                secrets_view(out@) == seq![newv] + oldv.subrange(0, i as int).filter(pred),
            decreases self.entries@.len() - i,
        {
            let ghost pre = oldv.subrange(0, i as int);
            let ghost cur = self.entries@[i as int]@;
            assert(oldv.subrange(0, i + 1) =~= pre.push(cur));
            if !self.entries[i].id.eq(&k) {
                let e = SecretEntry {
                    id: self.entries[i].id.clone(),
                    value: self.entries[i].value.clone(),
                };
                out.push(e);
                assert(secrets_view(out@) =~= (seq![newv] + pre.filter(pred)).push(cur));
                assert((seq![newv] + pre.filter(pred)).push(cur) =~= seq![newv] + pre.filter(
                    pred,
                ).push(cur));
                assert(pred(cur));
            } else {
                assert(!pred(cur));
            }
            assert(secrets_view(out@) == seq![newv] + oldv.subrange(0, i + 1).filter(pred));
            i = i + 1;
        }
        proof {
            assert(oldv.subrange(0, oldv.len() as int) =~= oldv);
            let outv = seq![newv] + oldv.filter(pred);
            assert(outv[0] == newv);
            lemma_first_where_skip(outv, by_secret_id(kv), 0);
            assert forall|other: Seq<char>|
                other != kv implies #[trigger] lookup_secret(outv, other) == lookup_secret(
                oldv,
                other,
            ) by {
                assert(!by_secret_id(other)(outv[0]));
                assert(outv.drop_first() =~= oldv.filter(pred));
                lemma_lookup_filter_other(oldv, kv, other);
            }
        }
        self.entries = out;
        Ok(())
    }

    /// Retrieve the secret stored under a name.
    pub fn get_entry(&self, service: &str, account: &str) -> (r: Result<String, VaultError>)
        ensures
            match r {
                Ok(m) => lookup_secret(secrets_view(self.entries@), entry_key(service@, account@))
                    == Option::Some(m@),
                Err(e) => lookup_secret(
                    secrets_view(self.entries@),
                    entry_key(service@, account@),
                ) is None && e.kind == VaultErrorKind::NotFound,
            },
    {
        let k = MemoryKeychain::key(service, account);
        let ghost pred = by_secret_id(entry_key(service@, account@));
        let mut i: usize = 0;
        while i < self.entries.len()
            invariant
                0 <= i <= self.entries@.len(),
                k@ == entry_key(service@, account@),
                pred == by_secret_id(entry_key(service@, account@)),
                forall|j: int| 0 <= j < i ==> !pred(secrets_view(self.entries@)[j]),
            decreases self.entries@.len() - i,
        {
            assert(secrets_view(self.entries@)[i as int] == self.entries@[i as int]@);
            if self.entries[i].id.eq(&k) {
                proof {
                    lemma_first_where_skip(secrets_view(self.entries@), pred, i as int);
                }
                return Ok(self.entries[i].value.clone());
            }
            i = i + 1;
        }
        proof {
            lemma_first_where_skip(
                secrets_view(self.entries@),
                pred,
                self.entries@.len() as int,
            );
        }
        Err(VaultError::not_found("keychain entry not found"))
    }

    /// Delete the secret stored under a name, leaving every other entry as
    /// it was; absent entries are ignored.
    pub fn delete_entry(&mut self, service: &str, account: &str) -> (r: Result<(), VaultError>)
        ensures
            r is Ok,
            secrets_view(final(self).entries@) == secrets_view(old(self).entries@).filter(
                keep_secret_not(entry_key(service@, account@)),
            ),
            lookup_secret(secrets_view(final(self).entries@), entry_key(service@, account@))
                is None,
            forall|other: Seq<char>|
                other != entry_key(service@, account@) ==> #[trigger] lookup_secret(
                    secrets_view(final(self).entries@),
                    other,
                ) == lookup_secret(secrets_view(old(self).entries@), other),
    {
        let k = MemoryKeychain::key(service, account);
        let ghost kv = entry_key(service@, account@);
        let ghost pred = keep_secret_not(kv);
        let ghost oldv = secrets_view(self.entries@);
        let mut out: Vec<SecretEntry> = Vec::new();
        let mut i: usize = 0;
        while i < self.entries.len()
            invariant
                0 <= i <= self.entries@.len(),
                k@ == kv,
                kv == entry_key(service@, account@),
                pred == keep_secret_not(kv),
                oldv == secrets_view(self.entries@),
                secrets_view(out@) == oldv.subrange(0, i as int).filter(pred),
            decreases self.entries@.len() - i,
        {
            let ghost pre = oldv.subrange(0, i as int);
            let ghost cur = self.entries@[i as int]@;
            assert(oldv.subrange(0, i + 1) =~= pre.push(cur));
            if !self.entries[i].id.eq(&k) {
                let e = SecretEntry {
                    id: self.entries[i].id.clone(),
                    value: self.entries[i].value.clone(),
                };
                out.push(e);
                assert(secrets_view(out@) =~= pre.filter(pred).push(cur));
                assert(pred(cur));
            } else {
                assert(!pred(cur));
            }
            assert(secrets_view(out@) == oldv.subrange(0, i + 1).filter(pred));
            i = i + 1;
        }
        proof {
            assert(oldv.subrange(0, oldv.len() as int) =~= oldv);
            let outv = oldv.filter(pred);
            assert forall|j: int| 0 <= j < outv.len() implies !by_secret_id(kv)(outv[j]) by {
                assert(pred(outv[j]));
            }
            lemma_first_where_skip(outv, by_secret_id(kv), outv.len() as int);
            assert forall|other: Seq<char>|
                other != kv implies #[trigger] lookup_secret(outv, other) == lookup_secret(
                oldv,
                other,
            ) by {
                lemma_lookup_filter_other(oldv, kv, other);
            }
        }
        self.entries = out;
        Ok(())
    }
}

impl KeychainStore for MemoryKeychain {
    fn set_password(&mut self, service: &str, account: &str, secret: &str) -> Result<
        (),
        VaultError,
    > {
        self.set_entry(service, account, secret)
    }

    fn get_password(&self, service: &str, account: &str) -> Result<String, VaultError> {
        self.get_entry(service, account)
    }

    fn delete_password(&mut self, service: &str, account: &str) -> Result<(), VaultError> {
        self.delete_entry(service, account)
    }
}

} // verus!
