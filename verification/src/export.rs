//! Whole-vault export and import: a snapshot of every project, key and
//! token with their secret material, encrypted into a portable bundle, and
//! the inverse with referential-integrity validation and all-or-nothing
//! writes.

use vstd::prelude::*;

use crate::envelope::{
    bundle_error_kind, bundle_opens_to_snapshot, encrypt_snapshot, decrypt_snapshot, ExportBundle,
};
use crate::errors::{VaultError, VaultErrorKind};
use crate::ids::now_unix;
use crate::snapshot::{
    key_exports_view, snapshot_valid, token_exports_view, validate_snapshot, KeyExport,
    KeyExportV, SnapshotV, TokenExport, TokenExportV, VaultSnapshot, EXPORT_VERSION,
};
use crate::text::is_blank;
use crate::types::{
    clone_key, clone_token, projects_view, KeyV, ProjectEntry, TokenV,
};
use crate::vault::{
    has_secret, lemma_has_secret_lookup, lookup_secret, secrets_view, vault_wf, SecretEntry,
    SecretV, Vault, VaultV,
};
use crate::codec::{enc_snapshot, lemma_snapshot_round_trip, snapshot_enc_wf};
use vstd::utf8::encode_utf8;

verus! {

/// The secret held for an owner, or the empty string when none is.
pub open spec fn lookup_value(ms: Seq<SecretV>, id: Seq<char>) -> Seq<char> {
    match lookup_secret(ms, id) {
        Option::Some(v) => v,
        Option::None => Seq::empty(),
    }
}

/// The exported keys of a vault: each key record paired with its material.
pub open spec fn export_keys_of(v: VaultV) -> Seq<KeyExportV> {
    Seq::new(
        v.keys.len(),
        |i: int| KeyExportV { entry: v.keys[i], material: lookup_value(v.key_material, v.keys[i].id) },
    )
}

/// The exported tokens of a vault: each token record paired with its text.
pub open spec fn export_tokens_of(v: VaultV) -> Seq<TokenExportV> {
    Seq::new(
        v.tokens.len(),
        |i: int| TokenExportV {
            entry: v.tokens[i],
            token: lookup_value(v.token_material, v.tokens[i].id),
        },
    )
}

/// The snapshot a vault exports at a given moment.
pub open spec fn snapshot_of_vault(v: VaultV, ts: int) -> SnapshotV {
    SnapshotV {
        version: 1,
        exported_at: ts,
        projects: v.projects,
        keys: export_keys_of(v),
        tokens: export_tokens_of(v),
    }
}

/// The key records of a snapshot.
pub open spec fn snap_keys_entries(ks: Seq<KeyExportV>) -> Seq<KeyV> {
    ks.map_values(|k: KeyExportV| k.entry)
}

/// The key material of a snapshot, as stored secrets.
pub open spec fn snap_key_secrets(ks: Seq<KeyExportV>) -> Seq<SecretV> {
    ks.map_values(|k: KeyExportV| SecretV { id: k.entry.id, value: k.material })
}

/// The token records of a snapshot.
pub open spec fn snap_tokens_entries(ts: Seq<TokenExportV>) -> Seq<TokenV> {
    ts.map_values(|t: TokenExportV| t.entry)
}

/// The token text of a snapshot, as stored secrets.
pub open spec fn snap_token_secrets(ts: Seq<TokenExportV>) -> Seq<SecretV> {
    ts.map_values(|t: TokenExportV| SecretV { id: t.entry.id, value: t.token })
}

/// A vault whose whole content is exactly a snapshot's content.
pub open spec fn vault_content_is_snapshot(v: VaultV, s: SnapshotV) -> bool {
    &&& v.projects == s.projects
    &&& v.keys == snap_keys_entries(s.keys)
    &&& v.tokens == snap_tokens_entries(s.tokens)
    &&& v.key_material == snap_key_secrets(s.keys)
    &&& v.token_material == snap_token_secrets(s.tokens)
}

/// A vault with no projects, keys or tokens, as `is_empty` reports it.
pub open spec fn vault_lists_empty(v: VaultV) -> bool {
    v.projects.len() == 0 && v.keys.len() == 0 && v.tokens.len() == 0
}

/// The inputs on which an export is owed to succeed: a non-blank passphrase
/// that fits the key derivation, and a vault whose encoded snapshot fits the
/// cipher. The export moment does not matter to the length, so the bound is
/// stated at instant zero.
pub open spec fn export_fits(v: VaultV, pass: Seq<char>) -> bool {
    &&& !is_blank(pass)
    &&& encode_utf8(pass).len() <= 0xFFFF_FFFF
    &&& enc_snapshot(snapshot_of_vault(v, 0)).len() < 0xFFFF_FFFF * 64
}

/// The encoded snapshot's length does not depend on the export moment: the
/// timestamp always takes eight bytes.
proof fn lemma_wire_len_time_independent(v: VaultV, a: int, b: int)
    ensures
        enc_snapshot(snapshot_of_vault(v, a)).len() == enc_snapshot(snapshot_of_vault(v, b)).len(),
{
    vstd::bytes::lemma_auto_spec_u64_to_from_le_bytes();
    let sa = snapshot_of_vault(v, a);
    let sb = snapshot_of_vault(v, b);
    assert(sa.projects == sb.projects);
    assert(sa.keys == sb.keys);
    assert(sa.tokens == sb.tokens);
    assert(crate::codec::enc_time(a).len() == 8);
    assert(crate::codec::enc_time(b).len() == 8);
}

/// Assemble a snapshot from already-enumerated content, stamped with the
/// current version tag and time.
pub fn build_snapshot(
    projects: Vec<ProjectEntry>,
    keys: Vec<KeyExport>,
    tokens: Vec<TokenExport>,
) -> (r: VaultSnapshot)
    ensures
        r@.version == EXPORT_VERSION as int,
        r@.projects == projects_view(projects@),
        r@.keys == key_exports_view(keys@),
        r@.tokens == token_exports_view(tokens@),
{
    VaultSnapshot { version: EXPORT_VERSION, exported_at: now_unix(), projects, keys, tokens }
}

impl Vault {
    /// Enumerate everything in the vault, assemble a snapshot, and encrypt
    /// it under the passphrase with a fresh salt and nonce. Fails exactly
    /// when the passphrase is blank, beside the crypto edge cases the
    /// envelope names.
    pub fn export_bundle(&self, passphrase: &str) -> (r: Result<ExportBundle, VaultError>)
        requires
            vault_wf(self@),
        ensures
            match r {
                Ok(b) => !is_blank(passphrase@) && exists|ts: int|
                    bundle_opens_to_snapshot(b@, passphrase@) == Option::Some(
                        #[trigger] snapshot_of_vault(self@, ts),
                    ),
                Err(e) => {
                    &&& (e.kind == VaultErrorKind::InvalidInput <==> is_blank(passphrase@))
                    &&& (e.kind == VaultErrorKind::InvalidInput || e.kind
                        == VaultErrorKind::CryptoFailure)
                },
            },
            export_fits(self@, passphrase@) ==> r is Ok,
    {
        let projects = match self.list_projects() {
            Ok(v) => v,
            Err(e) => {
                return Err(VaultError::crypto_failure("enumerate projects"));
            },
        };
        let keys = match self.list_keys(Option::None) {
            Ok(v) => v,
            Err(e) => {
                return Err(VaultError::crypto_failure("enumerate keys"));
            },
        };
        let tokens = match self.list_tokens(Option::None) {
            Ok(v) => v,
            Err(e) => {
                return Err(VaultError::crypto_failure("enumerate tokens"));
            },
        };

        let mut key_exports: Vec<KeyExport> = Vec::new();
        let mut i: usize = 0;
        while i < keys.len()
            invariant
                vault_wf(self@),
                0 <= i <= keys@.len(),
                crate::types::keys_view(keys@) == self@.keys,
                key_exports@.len() == i,
                key_exports_view(key_exports@) == export_keys_of(self@).subrange(0, i as int),
            decreases keys@.len() - i,
        {
            assert(self@.keys[i as int] == keys@[i as int]@);
            let material = match self.get_key_material(keys[i].id.as_str()) {
                Ok(m) => m,
                Err(e) => {
                    proof {
                        lemma_has_secret_lookup(self@.key_material, self@.keys[i as int].id);
                    }
                    return Err(VaultError::crypto_failure("missing key material"));
                },
            };
            let ghost mv = material@;
            proof {
                assert(lookup_secret(self@.key_material, self@.keys[i as int].id)
                    == Option::Some(mv));
            }
            key_exports.push(KeyExport { entry: clone_key(&keys[i]), material });
            proof {
                assert(export_keys_of(self@)[i as int] == (KeyExportV {
                    entry: self@.keys[i as int],
                    material: lookup_value(self@.key_material, self@.keys[i as int].id),
                }));
                assert(key_exports@[i as int]@.entry == self@.keys[i as int]);
                assert(key_exports@[i as int]@.material == mv);
                assert(lookup_value(self@.key_material, self@.keys[i as int].id) == mv);
                assert(key_exports@[i as int]@ == export_keys_of(self@)[i as int]);
                assert(key_exports_view(key_exports@) =~= export_keys_of(self@).subrange(
                    0,
                    i + 1,
                ));
            }
            i = i + 1;
        }
        proof {
            assert(export_keys_of(self@).subrange(0, export_keys_of(self@).len() as int)
                =~= export_keys_of(self@));
        }

        let mut token_exports: Vec<TokenExport> = Vec::new();
        let mut i: usize = 0;
        while i < tokens.len()
            invariant
                vault_wf(self@),
                0 <= i <= tokens@.len(),
                crate::types::tokens_view(tokens@) == self@.tokens,
                token_exports@.len() == i,
                token_exports_view(token_exports@) == export_tokens_of(self@).subrange(
                    0,
                    i as int,
                ),
            decreases tokens@.len() - i,
        {
            assert(self@.tokens[i as int] == tokens@[i as int]@);
            let material = match self.get_token_material(tokens[i].id.as_str()) {
                Ok(m) => m,
                Err(e) => {
                    proof {
                        lemma_has_secret_lookup(self@.token_material, self@.tokens[i as int].id);
                    }
                    return Err(VaultError::crypto_failure("missing token material"));
                },
            };
            let ghost mv = material@;
            proof {
                assert(lookup_secret(self@.token_material, self@.tokens[i as int].id)
                    == Option::Some(mv));
            }
            token_exports.push(TokenExport { entry: clone_token(&tokens[i]), token: material });
            proof {
                assert(token_exports@[i as int]@ == export_tokens_of(self@)[i as int]);
                assert(token_exports_view(token_exports@) =~= export_tokens_of(self@).subrange(
                    0,
                    i + 1,
                ));
            }
            i = i + 1;
        }
        proof {
            assert(export_tokens_of(self@).subrange(0, export_tokens_of(self@).len() as int)
                =~= export_tokens_of(self@));
        }

        let snapshot = build_snapshot(projects, key_exports, token_exports);
        let ghost ts = snapshot@.exported_at;
        proof {
            assert(snapshot@ == snapshot_of_vault(self@, ts));
            lemma_wire_len_time_independent(self@, ts, 0);
        }
        match encrypt_snapshot(&snapshot, passphrase) {
            Ok(b) => {
                proof {
                    lemma_snapshot_round_trip(snapshot@);
                }
                Ok(b)
            },
            Err(e) => Err(e),
        }
    }

    /// Decrypt a bundle, validate the snapshot's referential integrity, and
    /// — into an empty vault, or over everything when replacing — write
    /// every project, key and token with their material. Any failure leaves
    /// the vault untouched.
    pub fn import_bundle(&mut self, bundle: &ExportBundle, passphrase: &str, replace: bool) -> (r:
        Result<(), VaultError>)
        requires
            vault_wf(old(self)@),
        ensures
            vault_wf(final(self)@),
            match r {
                Ok(_) => {
                    &&& match bundle_opens_to_snapshot(bundle@, passphrase@) {
                        Option::Some(s) => snapshot_valid(s) && vault_content_is_snapshot(
                            final(self)@,
                            s,
                        ),
                        Option::None => false,
                    }
                    &&& (replace || vault_lists_empty(old(self)@))
                },
                Err(e) => {
                    &&& final(self)@ == old(self)@
                    &&& match bundle_opens_to_snapshot(bundle@, passphrase@) {
                        Option::None => e.kind == bundle_error_kind(bundle@, passphrase@),
                        Option::Some(s) => if !snapshot_valid(s) {
                            e.kind == VaultErrorKind::InvalidInput
                        } else {
                            !replace && !vault_lists_empty(old(self)@) && e.kind
                                == VaultErrorKind::Conflict
                        },
                    }
                },
            },
    {
        let snap = match decrypt_snapshot(bundle, passphrase) {
            Ok(s) => s,
            Err(e) => {
                return Err(e);
            },
        };
        match validate_snapshot(&snap) {
            Ok(_) => {},
            Err(e) => {
                return Err(e);
            },
        }
        if replace {
            match self.clear_all() {
                Ok(_) => {},
                Err(e) => {
                    return Err(e);
                },
            }
        } else {
            let empty = match self.is_empty() {
                Ok(b) => b,
                Err(e) => {
                    return Err(VaultError::conflict("vault state unavailable"));
                },
            };
            if !empty {
                return Err(VaultError::conflict("vault is not empty; use --replace to overwrite"));
            }
        }
        let ghost sv = snap@;

        let mut new_keys: Vec<crate::types::KeyEntry> = Vec::new();
        let mut new_key_mat: Vec<SecretEntry> = Vec::new();
        let mut i: usize = 0;
        while i < snap.keys.len()
            invariant
                sv == snap@,
                0 <= i <= snap.keys@.len(),
                new_keys@.len() == i,
                new_key_mat@.len() == i,
                forall|j: int| 0 <= j < i ==> new_keys@[j]@ == sv.keys[j].entry,
                forall|j: int|
                    0 <= j < i ==> (#[trigger] new_key_mat@[j]@) == (SecretV {
                        id: sv.keys[j].entry.id,
                        value: sv.keys[j].material,
                    }),
            decreases snap.keys@.len() - i,
        {
            assert(sv.keys[i as int] == snap.keys@[i as int]@);
            let entry = clone_key(&snap.keys[i].entry);
            let sec = SecretEntry {
                id: snap.keys[i].entry.id.clone(),
                value: snap.keys[i].material.clone(),
            };
            new_keys.push(entry);
            new_key_mat.push(sec);
            i = i + 1;
        }

        let mut new_tokens: Vec<crate::types::TokenEntry> = Vec::new();
        let mut new_tok_mat: Vec<SecretEntry> = Vec::new();
        let mut i: usize = 0;
        while i < snap.tokens.len()
            invariant
                sv == snap@,
                0 <= i <= snap.tokens@.len(),
                new_tokens@.len() == i,
                new_tok_mat@.len() == i,
                forall|j: int| 0 <= j < i ==> new_tokens@[j]@ == sv.tokens[j].entry,
                forall|j: int|
                    0 <= j < i ==> (#[trigger] new_tok_mat@[j]@) == (SecretV {
                        id: sv.tokens[j].entry.id,
                        value: sv.tokens[j].token,
                    }),
            decreases snap.tokens@.len() - i,
        {
            assert(sv.tokens[i as int] == snap.tokens@[i as int]@);
            let entry = clone_token(&snap.tokens[i].entry);
            let sec = SecretEntry {
                id: snap.tokens[i].entry.id.clone(),
                value: snap.tokens[i].token.clone(),
            };
            new_tokens.push(entry);
            new_tok_mat.push(sec);
            i = i + 1;
        }

        self.projects = snap.projects;
        self.keys = new_keys;
        self.key_material = new_key_mat;
        self.tokens = new_tokens;
        self.token_material = new_tok_mat;

        proof {
            assert(final(self)@.projects =~= sv.projects);
            assert(final(self)@.keys =~= snap_keys_entries(sv.keys));
            assert(final(self)@.key_material =~= snap_key_secrets(sv.keys));
            assert(final(self)@.tokens =~= snap_tokens_entries(sv.tokens));
            assert(final(self)@.token_material =~= snap_token_secrets(sv.tokens));
            lemma_snapshot_content_wf(final(self)@, sv);
        }
        Ok(())
    }
}

/// A vault filled from a valid snapshot is well formed.
proof fn lemma_snapshot_content_wf(v: VaultV, s: SnapshotV)
    requires
        snapshot_valid(s),
        vault_content_is_snapshot(v, s),
    ensures
        vault_wf(v),
{
    assert forall|a: int, b: int| 0 <= a < b < v.keys.len() implies v.keys[a].id != v.keys[b].id by {
        assert(s.keys[a].entry.id != s.keys[b].entry.id);
        assert(v.keys[a] == s.keys[a].entry);
        assert(v.keys[b] == s.keys[b].entry);
    }
    assert forall|a: int, b: int|
        0 <= a < b < v.tokens.len() implies v.tokens[a].id != v.tokens[b].id by {
        assert(s.tokens[a].entry.id != s.tokens[b].entry.id);
        assert(v.tokens[a] == s.tokens[a].entry);
        assert(v.tokens[b] == s.tokens[b].entry);
    }
    assert forall|a: int, b: int|
        0 <= a < b < v.key_material.len() implies v.key_material[a].id != v.key_material[b].id by {
        assert(s.keys[a].entry.id != s.keys[b].entry.id);
        assert(v.key_material[a].id == s.keys[a].entry.id);
        assert(v.key_material[b].id == s.keys[b].entry.id);
    }
    assert forall|a: int, b: int|
        0 <= a < b < v.token_material.len() implies v.token_material[a].id
        != v.token_material[b].id by {
        assert(s.tokens[a].entry.id != s.tokens[b].entry.id);
        assert(v.token_material[a].id == s.tokens[a].entry.id);
        assert(v.token_material[b].id == s.tokens[b].entry.id);
    }
    assert forall|a: int| 0 <= a < v.keys.len() implies has_secret(
        v.key_material,
        (v.keys[a]).id,
    ) by {
        assert(v.key_material[a].id == s.keys[a].entry.id);
        assert(v.keys[a].id == s.keys[a].entry.id);
    }
    assert forall|a: int| 0 <= a < v.key_material.len() implies crate::vault::has_key_id(
        v.keys,
        (v.key_material[a]).id,
    ) by {
        assert(v.keys[a].id == s.keys[a].entry.id);
        assert(v.key_material[a].id == s.keys[a].entry.id);
    }
    assert forall|a: int| 0 <= a < v.tokens.len() implies has_secret(
        v.token_material,
        (v.tokens[a]).id,
    ) by {
        assert(v.token_material[a].id == s.tokens[a].entry.id);
        assert(v.tokens[a].id == s.tokens[a].entry.id);
    }
    assert forall|a: int| 0 <= a < v.token_material.len() implies crate::vault::has_token_id(
        v.tokens,
        (v.token_material[a]).id,
    ) by {
        assert(v.tokens[a].id == s.tokens[a].entry.id);
        assert(v.token_material[a].id == s.tokens[a].entry.id);
    }
}

} // verus!
