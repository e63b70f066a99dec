//! The library's headline guarantees, stated and proved over the same
//! models its contracts use: the export/import round trip, the fail-closed
//! classification of import failures, the kind filter's exclusion, and the
//! envelope round trip behind the file keychain.

use vstd::prelude::*;
use vstd::utf8::{encode_utf8, encode_utf8_decode_utf8};

use crate::alg::JwtAlg;
use crate::envelope::{envelope_error_kind, envelope_headers_ok, envelope_opens_to, EnvelopeV};
use crate::errors::VaultErrorKind;
use crate::export::{
    lookup_value, snap_key_secrets, snap_token_secrets, snapshot_of_vault,
    vault_content_is_snapshot,
};
use crate::resolver::kind_matches_alg;
use crate::snapshot::{snap_has_project_id, snap_key_in_project, snapshot_valid};
use crate::text::str_ieq;
use crate::types::KeyV;
use crate::vault::{
    by_secret_id, has_project_id, has_secret, key_of_project_with_id, lemma_first_where_skip,
    lemma_has_secret_lookup, lookup_secret, vault_wf, VaultV,
};

verus! {

broadcast use vstd::seq_lib::group_filter_ensures;

/// Referential integrity of a live vault: every key and token owned by a
/// stored project, and every default-key pointer naming a key of that same
/// project.
pub open spec fn vault_ref_integrity(v: VaultV) -> bool {
    &&& forall|i: int|
        0 <= i < v.keys.len() ==> has_project_id(v.projects, (#[trigger] v.keys[i]).project_id)
    &&& forall|i: int|
        0 <= i < v.tokens.len() ==> has_project_id(v.projects, (#[trigger] v.tokens[i]).project_id)
    &&& forall|i: int|
        0 <= i < v.projects.len() ==> match (#[trigger] v.projects[i]).default_key_id {
            Option::Some(d) => key_of_project_with_id(v.keys, v.projects[i].id, d),
            Option::None => true,
        }
}

/// What a well-formed, referentially intact vault exports always passes
/// import validation.
pub proof fn lemma_export_snapshot_valid(v: VaultV, ts: int)
    requires
        vault_wf(v),
        vault_ref_integrity(v),
    ensures
        snapshot_valid(snapshot_of_vault(v, ts)),
{
    let s = snapshot_of_vault(v, ts);
    assert forall|i: int, j: int|
        0 <= i < j < s.keys.len() implies s.keys[i].entry.id != s.keys[j].entry.id by {
        assert(s.keys[i].entry == v.keys[i]);
        assert(s.keys[j].entry == v.keys[j]);
    }
    assert forall|i: int, j: int|
        0 <= i < j < s.tokens.len() implies s.tokens[i].entry.id != s.tokens[j].entry.id by {
        assert(s.tokens[i].entry == v.tokens[i]);
        assert(s.tokens[j].entry == v.tokens[j]);
    }
    assert forall|i: int|
        0 <= i < s.keys.len() implies snap_has_project_id(
        s.projects,
        (#[trigger] s.keys[i].entry).project_id,
    ) by {
        assert(s.keys[i].entry == v.keys[i]);
        assert(has_project_id(v.projects, v.keys[i].project_id));
        let j = choose|j: int|
            0 <= j < v.projects.len() && (#[trigger] v.projects[j].id) == v.keys[i].project_id;
        assert(s.projects[j].id == v.keys[i].project_id);
    }
    assert forall|i: int|
        0 <= i < s.tokens.len() implies snap_has_project_id(
        s.projects,
        (#[trigger] s.tokens[i].entry).project_id,
    ) by {
        assert(s.tokens[i].entry == v.tokens[i]);
        assert(has_project_id(v.projects, v.tokens[i].project_id));
        let j = choose|j: int|
            0 <= j < v.projects.len() && (#[trigger] v.projects[j].id) == v.tokens[i].project_id;
        assert(s.projects[j].id == v.tokens[i].project_id);
    }
    assert forall|i: int|
        0 <= i < s.projects.len() implies match (#[trigger] s.projects[i]).default_key_id {
        Option::Some(d) => snap_key_in_project(s.keys, d, s.projects[i].id),
        Option::None => true,
    } by {
        assert(s.projects[i] == v.projects[i]);
        match v.projects[i].default_key_id {
            Option::Some(d) => {
                assert(key_of_project_with_id(v.keys, v.projects[i].id, d));
                let j = choose|j: int|
                    0 <= j < v.keys.len() && (#[trigger] v.keys[j]).project_id
                        == v.projects[i].id && v.keys[j].id == d;
                assert(s.keys[j].entry == v.keys[j]);
            },
            Option::None => {},
        }
    }
}

/// The export/import round trip: a vault filled from the snapshot a vault
/// exported holds the identical projects, keys and tokens, and every key's
/// and token's secret material reads back identically.
pub proof fn lemma_export_import_round_trip(src: VaultV, ts: int, dst: VaultV)
    requires
        vault_wf(src),
        vault_content_is_snapshot(dst, snapshot_of_vault(src, ts)),
    ensures
        dst.projects == src.projects,
        dst.keys == src.keys,
        dst.tokens == src.tokens,
        forall|i: int|
            0 <= i < src.keys.len() ==> lookup_secret(
                dst.key_material,
                (#[trigger] src.keys[i]).id,
            ) == lookup_secret(src.key_material, src.keys[i].id),
        forall|i: int|
            0 <= i < src.tokens.len() ==> lookup_secret(
                dst.token_material,
                (#[trigger] src.tokens[i]).id,
            ) == lookup_secret(src.token_material, src.tokens[i].id),
{
    let s = snapshot_of_vault(src, ts);
    assert(dst.keys =~= src.keys);
    assert(dst.tokens =~= src.tokens);
    assert forall|i: int|
        0 <= i < src.keys.len() implies lookup_secret(dst.key_material, (#[trigger] src.keys[i]).id)
        == lookup_secret(src.key_material, src.keys[i].id) by {
        assert(dst.key_material.len() == src.keys.len());
        assert forall|j: int| 0 <= j < i implies !by_secret_id(src.keys[i].id)(
            dst.key_material[j],
        ) by {
            assert(dst.key_material[j] == snap_key_secrets(s.keys)[j]);
            assert(dst.key_material[j].id == src.keys[j].id);
        }
        assert(dst.key_material[i] == snap_key_secrets(s.keys)[i]);
        assert(dst.key_material[i].id == src.keys[i].id);
        lemma_first_where_skip(dst.key_material, by_secret_id(src.keys[i].id), i);
        assert(has_secret(src.key_material, src.keys[i].id));
        lemma_has_secret_lookup(src.key_material, src.keys[i].id);
        assert(dst.key_material[i].value == lookup_value(src.key_material, src.keys[i].id));
    }
    assert forall|i: int|
        0 <= i < src.tokens.len() implies lookup_secret(
        dst.token_material,
        (#[trigger] src.tokens[i]).id,
    ) == lookup_secret(src.token_material, src.tokens[i].id) by {
        assert(dst.token_material.len() == src.tokens.len());
        assert forall|j: int| 0 <= j < i implies !by_secret_id(src.tokens[i].id)(
            dst.token_material[j],
        ) by {
            assert(dst.token_material[j] == snap_token_secrets(s.tokens)[j]);
            assert(dst.token_material[j].id == src.tokens[j].id);
        }
        assert(dst.token_material[i] == snap_token_secrets(s.tokens)[i]);
        assert(dst.token_material[i].id == src.tokens[i].id);
        lemma_first_where_skip(dst.token_material, by_secret_id(src.tokens[i].id), i);
        assert(has_secret(src.token_material, src.tokens[i].id));
        lemma_has_secret_lookup(src.token_material, src.tokens[i].id);
        assert(dst.token_material[i].value == lookup_value(src.token_material, src.tokens[i].id));
    }
}

/// An import whose bundle does not decrypt — a wrong passphrase among the
/// causes — is classified as a crypto failure whenever the bundle's headers
/// are in order; with `import_bundle`'s own contract, such an import leaves
/// the target vault untouched.
pub proof fn lemma_failed_decrypt_is_crypto_failure(b: EnvelopeV, pass: Seq<char>)
    requires
        envelope_headers_ok(b, pass),
        envelope_opens_to(b, pass) is None,
    ensures
        envelope_error_kind(b, pass) == VaultErrorKind::CryptoFailure,
{
}

/// A key stored with the `rsa` kind is never among the candidates the kind
/// filter keeps for an HMAC algorithm.
pub proof fn lemma_rsa_key_never_hmac_candidate(ks: Seq<KeyV>, k: KeyV)
    requires
        k.kind == "rsa"@,
    ensures
        !ks.filter(kind_matches_alg(JwtAlg::HS256)).contains(k),
{
    let kept = ks.filter(kind_matches_alg(JwtAlg::HS256));
    if kept.contains(k) {
        let i = choose|i: int| 0 <= i < kept.len() && kept[i] == k;
        assert(kind_matches_alg(JwtAlg::HS256)(kept[i]));
        assert(str_ieq(k.kind, "hmac"@));
        reveal_strlit("rsa");
        reveal_strlit("hmac");
        assert(k.kind.len() == 3);
        assert(false);
    }
}

/// The envelope round trip behind the file keychain: an entry that opens to
/// a secret's text under a passphrase determines that secret exactly, so
/// retrieving what was stored gives the original back.
pub proof fn lemma_secret_round_trip(e: EnvelopeV, pass: Seq<char>, secret: Seq<char>, out: Seq<char>)
    requires
        envelope_opens_to(e, pass) == Option::Some(encode_utf8(secret)),
        envelope_opens_to(e, pass) == Option::Some(encode_utf8(out)),
    ensures
        out == secret,
{
    encode_utf8_decode_utf8(secret);
    encode_utf8_decode_utf8(out);
}

} // verus!
