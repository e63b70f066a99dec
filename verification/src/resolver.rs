//! The key resolver: the decision procedure that picks the stored key or
//! keys eligible for a signing or verification request, in strict priority
//! order, and the kind filter that keeps only keys matching the requested
//! algorithm's family.

use vstd::prelude::*;
use vstd::string::StringExecFns;

use crate::alg::{expected_kind, expected_kind_spec, JwtAlg};
use crate::errors::{AppError, ErrorKind};
use crate::text::{eq_ignore_ascii, opt_view, str_ieq, strings_view, trim_spec};
use crate::types::{clone_key, keys_view, KeyEntry, KeyV, ProjectEntry, ProjectV};
use crate::vault::{
    by_key_id, by_pname, first_where, keep_key_not, key_of_project, lemma_first_where_skip,
    lookup_secret, SecretV, Vault, VaultV,
};

verus! {

broadcast use vstd::seq_lib::group_filter_ensures, vstd::seq::Seq::lemma_filter_push,
    vstd::seq::Seq::lemma_filter_contains_rev;

/// Key selected by name (raw comparison).
pub open spec fn by_key_name(nm: Seq<char>) -> spec_fn(KeyV) -> bool {
    |k: KeyV| k.name == nm
}

/// Key whose stored kid hint equals the token's kid.
pub open spec fn key_kid_is(kid: Seq<char>) -> spec_fn(KeyV) -> bool {
    |k: KeyV| k.kid == Option::Some(kid)
}

/// Key whose kind matches the algorithm's family, ignoring ASCII case.
pub open spec fn kind_matches_alg(alg: JwtAlg) -> spec_fn(KeyV) -> bool {
    |k: KeyV| str_ieq(k.kind, expected_kind_spec(alg))
}

/// The candidate list built from a selected key: the key alone, or, when
/// every key may be tried, the key first and all other keys after it in
/// stored order.
pub open spec fn expand_candidates(ks: Seq<KeyV>, sel: KeyV, try_all: bool) -> Seq<KeyV> {
    if try_all {
        seq![sel] + ks.filter(keep_key_not(sel.id))
    } else {
        seq![sel]
    }
}

/// The selection procedure over a project's keys, in strict priority order:
/// an explicit key id, an explicit key name, the token's kid hint (matching
/// exactly one stored kid), the project's default key, and finally a sole
/// stored key; anything else fails. `None` is any failure: no keys, a
/// selector that names no key, an ambiguous or unmatched kid, a dangling
/// default pointer, or several keys with nothing to choose by.
pub open spec fn resolve_ok_spec(
    ks: Seq<KeyV>,
    key_id: Option<Seq<char>>,
    key_name: Option<Seq<char>>,
    token_kid: Option<Seq<char>>,
    default_key_id: Option<Seq<char>>,
    try_all: bool,
) -> Option<Seq<KeyV>> {
    if ks.len() == 0 {
        Option::None
    } else if key_id is Some {
        match first_where(ks, by_key_id(key_id->0)) {
            Option::Some(k) => Option::Some(seq![k]),
            Option::None => Option::None,
        }
    } else if key_name is Some {
        match first_where(ks, by_key_name(key_name->0)) {
            Option::Some(k) => Option::Some(seq![k]),
            Option::None => Option::None,
        }
    } else if token_kid is Some {
        let matches = ks.filter(key_kid_is(token_kid->0));
        if matches.len() == 1 {
            Option::Some(expand_candidates(ks, matches[0], try_all))
        } else {
            Option::None
        }
    } else if default_key_id is Some {
        match first_where(ks, by_key_id(default_key_id->0)) {
            Option::Some(k) => Option::Some(expand_candidates(ks, k, try_all)),
            Option::None => Option::None,
        }
    } else if ks.len() == 1 {
        Option::Some(seq![ks[0]])
    } else {
        Option::None
    }
}

/// Select the candidate keys among a project's keys, in the priority order
/// of `resolve_ok_spec`; every failure is an invalid-key error.
pub fn resolve_candidates(
    project: &ProjectEntry,
    keys: &Vec<KeyEntry>,
    key_id: &Option<String>,
    key_name: &Option<String>,
    token_kid: &Option<String>,
    try_all: bool,
) -> (r: Result<Vec<KeyEntry>, AppError>)
    ensures
        ({
            let res = resolve_ok_spec(
                keys_view(keys@),
                opt_view(*key_id),
                opt_view(*key_name),
                opt_view(*token_kid),
                project@.default_key_id,
                try_all,
            );
            match r {
                Ok(cs) => res == Option::Some(keys_view(cs@)),
                Err(e) => e.kind == ErrorKind::InvalidKey && res is None,
            }
        }),
{
    let ghost ks = keys_view(keys@);
    if keys.len() == 0 {
        return Err(AppError::invalid_key("project has no keys".to_owned()));
    }
    if let Option::Some(id) = key_id {
        let ghost pred = by_key_id(id@);
        let mut i: usize = 0;
        while i < keys.len()
            invariant
                0 <= i <= keys@.len(),
                ks == keys_view(keys@),
                pred == by_key_id(id@),
                opt_view(*key_id) == Option::Some(id@),
                forall|j: int| 0 <= j < i ==> !pred(ks[j]),
            decreases keys@.len() - i,
        {
            assert(ks[i as int] == keys@[i as int]@);
            if keys[i].id.eq(id) {
                proof {
                    assert(pred(ks[i as int]));
                    lemma_first_where_skip(ks, pred, i as int);
                }
                let mut out: Vec<KeyEntry> = Vec::new();
                out.push(clone_key(&keys[i]));
                proof {
                    assert(keys_view(out@) =~= seq![ks[i as int]]);
                }
                return Ok(out);
            }
            i = i + 1;
        }
        proof {
            lemma_first_where_skip(ks, pred, ks.len() as int);
        }
        return Err(AppError::invalid_key("key id not found in project".to_owned()));
    }
    if let Option::Some(nm) = key_name {
        let ghost pred = by_key_name(nm@);
        let mut i: usize = 0;
        while i < keys.len()
            invariant
                0 <= i <= keys@.len(),
                ks == keys_view(keys@),
                pred == by_key_name(nm@),
                opt_view(*key_id) is None,
                opt_view(*key_name) == Option::Some(nm@),
                forall|j: int| 0 <= j < i ==> !pred(ks[j]),
            decreases keys@.len() - i,
        {
            assert(ks[i as int] == keys@[i as int]@);
            if keys[i].name.eq(nm) {
                proof {
                    assert(pred(ks[i as int]));
                    lemma_first_where_skip(ks, pred, i as int);
                }
                let mut out: Vec<KeyEntry> = Vec::new();
                out.push(clone_key(&keys[i]));
                proof {
                    assert(keys_view(out@) =~= seq![ks[i as int]]);
                }
                return Ok(out);
            }
            i = i + 1;
        }
        proof {
            lemma_first_where_skip(ks, pred, ks.len() as int);
        }
        return Err(AppError::invalid_key("key name not found in project".to_owned()));
    }
    if let Option::Some(kid) = token_kid {
        let ghost pred = key_kid_is(kid@);
        let mut matches: Vec<KeyEntry> = Vec::new();
        let mut i: usize = 0;
        while i < keys.len()
            invariant
                0 <= i <= keys@.len(),
                ks == keys_view(keys@),
                pred == key_kid_is(kid@),
                keys_view(matches@) == ks.subrange(0, i as int).filter(pred),
            decreases keys@.len() - i,
        {
            let ghost pre = ks.subrange(0, i as int);
            let ghost cur = keys@[i as int]@;
            assert(ks.subrange(0, i + 1) =~= pre.push(cur));
            let hit = match &keys[i].kid {
                Option::Some(v) => v.eq(kid),
                Option::None => false,
            };
            if hit {
                matches.push(clone_key(&keys[i]));
                assert(keys_view(matches@) =~= pre.filter(pred).push(cur));
                assert(pred(cur));
            } else {
                assert(!pred(cur));
            }
            assert(keys_view(matches@) == ks.subrange(0, i + 1).filter(pred));
            i = i + 1;
        }
        assert(ks.subrange(0, ks.len() as int) =~= ks);
        if matches.len() == 1 {
            let sel = clone_key(&matches[0]);
            assert(sel@ == ks.filter(pred)[0]);
            return Ok(expand_exec(keys, sel, try_all));
        }
        if matches.len() > 1 {
            let msg = "multiple keys match kid '".to_owned().concat(kid.as_str()).concat("'");
            return Err(AppError::invalid_key(msg));
        }
        let msg = "no key with kid '".to_owned().concat(kid.as_str()).concat(
            "' found in project",
        );
        return Err(AppError::invalid_key(msg));
    }
    if let Option::Some(d) = &project.default_key_id {
        let ghost pred = by_key_id(d@);
        let mut i: usize = 0;
        while i < keys.len()
            invariant
                0 <= i <= keys@.len(),
                ks == keys_view(keys@),
                pred == by_key_id(d@),
                opt_view(*key_id) is None,
                opt_view(*key_name) is None,
                opt_view(*token_kid) is None,
                project@.default_key_id == Option::Some(d@),
                forall|j: int| 0 <= j < i ==> !pred(ks[j]),
            decreases keys@.len() - i,
        {
            assert(ks[i as int] == keys@[i as int]@);
            if keys[i].id.eq(d) {
                proof {
                    assert(pred(ks[i as int]));
                    lemma_first_where_skip(ks, pred, i as int);
                }
                let sel = clone_key(&keys[i]);
                return Ok(expand_exec(keys, sel, try_all));
            }
            i = i + 1;
        }
        proof {
            lemma_first_where_skip(ks, pred, ks.len() as int);
        }
        return Err(AppError::invalid_key(
            "project default_key_id points to missing key".to_owned(),
        ));
    }
    if keys.len() == 1 {
        let mut out: Vec<KeyEntry> = Vec::new();
        out.push(clone_key(&keys[0]));
        proof {
            assert(keys_view(out@) =~= seq![ks[0]]);
        }
        return Ok(out);
    }
    Err(AppError::invalid_key(
        "project has multiple keys and no default; specify --key-id/--key-name or set a default key".to_owned(),
    ))
}

/// Build the candidate list from a selected key: the key alone, or the key
/// followed by every other key when all may be tried.
fn expand_exec(keys: &Vec<KeyEntry>, sel: KeyEntry, try_all: bool) -> (r: Vec<KeyEntry>)
    ensures
        keys_view(r@) == expand_candidates(keys_view(keys@), sel@, try_all),
{
    let ghost ks = keys_view(keys@);
    let ghost selv = sel@;
    let ghost pred = keep_key_not(selv.id);
    let sel_id = sel.id.clone();
    let mut out: Vec<KeyEntry> = Vec::new();
    out.push(sel);
    if !try_all {
        proof {
            assert(keys_view(out@) =~= seq![selv]);
        }
        return out;
    }
    let mut i: usize = 0;
    while i < keys.len()
        invariant
            0 <= i <= keys@.len(),
            ks == keys_view(keys@),
            pred == keep_key_not(selv.id),
            sel_id@ == selv.id,
            keys_view(out@) == seq![selv] + ks.subrange(0, i as int).filter(pred),
        decreases keys@.len() - i,
    {
        let ghost pre = ks.subrange(0, i as int);
        let ghost cur = keys@[i as int]@;
        assert(ks.subrange(0, i + 1) =~= pre.push(cur));
        if !keys[i].id.eq(&sel_id) {
            out.push(clone_key(&keys[i]));
            assert(keys_view(out@) =~= (seq![selv] + pre.filter(pred)).push(cur));
            assert((seq![selv] + pre.filter(pred)).push(cur) =~= seq![selv] + pre.filter(
                pred,
            ).push(cur));
            assert(pred(cur));
        } else {
            assert(!pred(cur));
        }
        assert(keys_view(out@) == seq![selv] + ks.subrange(0, i + 1).filter(pred));
        i = i + 1;
    }
    proof {
        assert(ks.subrange(0, ks.len() as int) =~= ks);
    }
    out
}

/// Keep only the keys whose kind matches the algorithm's family, ignoring
/// ASCII case and preserving order.
pub fn filter_keys_by_kind(keys: &Vec<KeyEntry>, alg: JwtAlg) -> (r: Vec<KeyEntry>)
    ensures
        keys_view(r@) == keys_view(keys@).filter(kind_matches_alg(alg)),
{
    let ghost ks = keys_view(keys@);
    let ghost pred = kind_matches_alg(alg);
    let expected = expected_kind(alg);
    let mut out: Vec<KeyEntry> = Vec::new();
    let mut i: usize = 0;
    while i < keys.len()
        invariant
            0 <= i <= keys@.len(),
            ks == keys_view(keys@),
            pred == kind_matches_alg(alg),
            expected@ == expected_kind_spec(alg),
            keys_view(out@) == ks.subrange(0, i as int).filter(pred),
        decreases keys@.len() - i,
    {
        let ghost pre = ks.subrange(0, i as int);
        let ghost cur = keys@[i as int]@;
        assert(ks.subrange(0, i + 1) =~= pre.push(cur));
        if eq_ignore_ascii(keys[i].kind.as_str(), expected.as_str()) {
            out.push(clone_key(&keys[i]));
            assert(keys_view(out@) =~= pre.filter(pred).push(cur));
            assert(pred(cur));
        } else {
            assert(!pred(cur));
        }
        assert(keys_view(out@) == ks.subrange(0, i + 1).filter(pred));
        i = i + 1;
    }
    proof {
        assert(ks.subrange(0, ks.len() as int) =~= ks);
    }
    out
}


/// The secret material of each key in order, or nothing when any key's
/// material is absent.
pub open spec fn materials_of_opt(ks: Seq<KeyV>, ms: Seq<SecretV>) -> Option<Seq<Seq<char>>>
    decreases ks.len(),
{
    if ks.len() == 0 {
        Option::Some(Seq::empty())
    } else {
        match materials_of_opt(ks.drop_last(), ms) {
            Option::None => Option::None,
            Option::Some(pre) => match lookup_secret(ms, ks.last().id) {
                Option::None => Option::None,
                Option::Some(v) => Option::Some(pre.push(v)),
            },
        }
    }
}

/// One key without material makes the whole list absent.
proof fn lemma_materials_none(ks: Seq<KeyV>, ms: Seq<SecretV>, i: int)
    requires
        0 <= i < ks.len(),
        lookup_secret(ms, ks[i].id) is None,
    ensures
        materials_of_opt(ks, ms) is None,
    decreases ks.len(),
{
    if i < ks.len() - 1 {
        lemma_materials_none(ks.drop_last(), ms, i);
    }
}

/// The project selected for a request: the first with the trimmed name, and
/// none at all when the selector is blank.
pub open spec fn project_for(v: VaultV, project_name: Seq<char>) -> Option<ProjectV> {
    if trim_spec(project_name).len() == 0 {
        Option::None
    } else {
        first_where(v.projects, by_pname(trim_spec(project_name)))
    }
}

/// The whole verification pipeline: find the project by name, select the
/// candidate keys in priority order, keep those whose kind matches the
/// algorithm, and hand out their secret material in candidate order. `None`
/// is any failure along the way.
pub open spec fn verification_materials_spec(
    v: VaultV,
    project_name: Seq<char>,
    key_id: Option<Seq<char>>,
    key_name: Option<Seq<char>>,
    token_kid: Option<Seq<char>>,
    try_all: bool,
    alg: JwtAlg,
) -> Option<Seq<Seq<char>>> {
    match project_for(v, project_name) {
        Option::None => Option::None,
        Option::Some(p) => match resolve_ok_spec(
            v.keys.filter(key_of_project(p.id)),
            key_id,
            key_name,
            token_kid,
            p.default_key_id,
            try_all,
        ) {
            Option::None => Option::None,
            Option::Some(cands) => {
                let kept = cands.filter(kind_matches_alg(alg));
                if kept.len() == 0 {
                    Option::None
                } else {
                    materials_of_opt(kept, v.key_material)
                }
            },
        },
    }
}

/// The whole signing pipeline: find the project, select exactly one key,
/// check its kind against the algorithm, and hand out its material.
pub open spec fn encoding_material_spec(
    v: VaultV,
    project_name: Seq<char>,
    key_id: Option<Seq<char>>,
    key_name: Option<Seq<char>>,
    alg: JwtAlg,
) -> Option<(KeyV, Seq<char>)> {
    match project_for(v, project_name) {
        Option::None => Option::None,
        Option::Some(p) => match resolve_ok_spec(
            v.keys.filter(key_of_project(p.id)),
            key_id,
            key_name,
            Option::None,
            p.default_key_id,
            false,
        ) {
            Option::None => Option::None,
            Option::Some(cands) => {
                let k = cands[0];
                if !str_ieq(k.kind, expected_kind_spec(alg)) {
                    Option::None
                } else {
                    match lookup_secret(v.key_material, k.id) {
                        Option::None => Option::None,
                        Option::Some(m) => Option::Some((k, m)),
                    }
                }
            },
        },
    }
}

/// Find the project named by the selector and select the candidate keys
/// among its keys, in the priority order of `resolve_ok_spec`.
pub fn resolve_project_keys(
    vault: &Vault,
    project_name: &str,
    key_id: &Option<String>,
    key_name: &Option<String>,
    token_kid: Option<String>,
    try_all: bool,
) -> (r: Result<(ProjectEntry, Vec<KeyEntry>), AppError>)
    ensures
        match r {
            Ok(pc) => {
                &&& project_for(vault@, project_name@) == Option::Some(pc.0@)
                &&& resolve_ok_spec(
                    vault@.keys.filter(key_of_project(pc.0@.id)),
                    opt_view(*key_id),
                    opt_view(*key_name),
                    opt_view(token_kid),
                    pc.0@.default_key_id,
                    try_all,
                ) == Option::Some(keys_view(pc.1@))
            },
            Err(e) => {
                &&& e.kind == ErrorKind::InvalidKey
                &&& match project_for(vault@, project_name@) {
                    Option::None => true,
                    Option::Some(pv) => resolve_ok_spec(
                        vault@.keys.filter(key_of_project(pv.id)),
                        opt_view(*key_id),
                        opt_view(*key_name),
                        opt_view(token_kid),
                        pv.default_key_id,
                        try_all,
                    ) is None,
                }
            },
        },
{
    let found = match vault.find_project_by_name(project_name) {
        Ok(o) => o,
        Err(e) => {
            return Err(AppError::invalid_key(e.message));
        },
    };
    let project = match found {
        Option::Some(p) => p,
        Option::None => {
            let msg = "project not found: ".to_owned().concat(project_name);
            return Err(AppError::invalid_key(msg));
        },
    };
    let keys = match vault.list_keys(Option::Some(project.id.as_str())) {
        Ok(v) => v,
        Err(e) => {
            return Err(AppError::invalid_key(e.message));
        },
    };
    let cands = match resolve_candidates(&project, &keys, key_id, key_name, &token_kid, try_all) {
        Ok(cs) => cs,
        Err(e) => {
            return Err(e);
        },
    };
    Ok((project, cands))
}

/// Resolve exactly one key for a signing request: the same priority order,
/// with no kid step and no fallback expansion.
pub fn resolve_project_key_single(
    vault: &Vault,
    project_name: &str,
    key_id: &Option<String>,
    key_name: &Option<String>,
) -> (r: Result<(ProjectEntry, KeyEntry), AppError>)
    ensures
        match r {
            Ok(pk) => {
                &&& project_for(vault@, project_name@) == Option::Some(pk.0@)
                &&& resolve_ok_spec(
                    vault@.keys.filter(key_of_project(pk.0@.id)),
                    opt_view(*key_id),
                    opt_view(*key_name),
                    Option::None,
                    pk.0@.default_key_id,
                    false,
                ) == Option::Some(seq![pk.1@])
            },
            Err(e) => {
                &&& e.kind == ErrorKind::InvalidKey
                &&& match project_for(vault@, project_name@) {
                    Option::None => true,
                    Option::Some(pv) => resolve_ok_spec(
                        vault@.keys.filter(key_of_project(pv.id)),
                        opt_view(*key_id),
                        opt_view(*key_name),
                        Option::None,
                        pv.default_key_id,
                        false,
                    ) is None,
                }
            },
        },
{
    match resolve_project_keys(vault, project_name, key_id, key_name, Option::None, false) {
        Err(e) => Err(e),
        Ok((project, cands)) => {
            assert(keys_view(cands@).len() == 1);
            let k = clone_key(&cands[0]);
            proof {
                assert(keys_view(cands@)[0] == cands@[0]@);
                assert(seq![k@] =~= keys_view(cands@));
            }
            Ok((project, k))
        },
    }
}

/// Resolve the verification candidates for a project, keep those whose kind
/// matches the algorithm's family, and return their secret material in
/// candidate order.
pub fn resolve_verification_materials(
    vault: &Vault,
    project_name: &str,
    key_id: &Option<String>,
    key_name: &Option<String>,
    token_kid: Option<String>,
    try_all: bool,
    alg: JwtAlg,
) -> (r: Result<Vec<String>, AppError>)
    ensures
        ({
            let vms = verification_materials_spec(
                vault@,
                project_name@,
                opt_view(*key_id),
                opt_view(*key_name),
                opt_view(token_kid),
                try_all,
                alg,
            );
            match r {
                Ok(ms) => vms == Option::Some(strings_view(ms@)),
                Err(e) => {
                    &&& e.kind == ErrorKind::InvalidKey
                    &&& vms is None
                    &&& match project_for(vault@, project_name@) {
                        Option::Some(p) => match resolve_ok_spec(
                            vault@.keys.filter(key_of_project(p.id)),
                            opt_view(*key_id),
                            opt_view(*key_name),
                            opt_view(token_kid),
                            p.default_key_id,
                            try_all,
                        ) {
                            Option::Some(cands) => cands.filter(kind_matches_alg(alg)).len() == 0
                                ==> e.message@ == "no keys of kind '"@ + expected_kind_spec(alg)
                                + "' found in project "@ + p.name,
                            Option::None => true,
                        },
                        Option::None => true,
                    }
                },
            }
        }),
{
    let (project, cands) = match resolve_project_keys(
        vault,
        project_name,
        key_id,
        key_name,
        token_kid,
        try_all,
    ) {
        Ok(x) => x,
        Err(e) => {
            return Err(e);
        },
    };
    let kept = filter_keys_by_kind(&cands, alg);
    if kept.len() == 0 {
        let expected = expected_kind(alg);
        let msg = "no keys of kind '".to_owned().concat(expected.as_str()).concat(
            "' found in project ",
        ).concat(project.name.as_str());
        return Err(AppError::invalid_key(msg));
    }
    let ghost keptv = keys_view(kept@);
    let mut out: Vec<String> = Vec::new();
    let mut i: usize = 0;
    while i < kept.len()
        invariant
            0 <= i <= kept@.len(),
            keptv == keys_view(kept@),
            keptv.len() > 0,
            project_for(vault@, project_name@) == Option::Some(project@),
            resolve_ok_spec(
                vault@.keys.filter(key_of_project(project@.id)),
                opt_view(*key_id),
                opt_view(*key_name),
                opt_view(token_kid),
                project@.default_key_id,
                try_all,
            ) == Option::Some(keys_view(cands@)),
            keptv == keys_view(cands@).filter(kind_matches_alg(alg)),
            materials_of_opt(keptv.subrange(0, i as int), vault@.key_material) == Option::Some(
                strings_view(out@),
            ),
        decreases kept@.len() - i,
    {
        let ghost pre = keptv.subrange(0, i as int);
        let ghost cur = kept@[i as int]@;
        assert(keptv.subrange(0, i + 1) =~= pre.push(cur));
        assert(keptv.subrange(0, i + 1).drop_last() =~= pre);
        match vault.get_key_material(kept[i].id.as_str()) {
            Ok(m) => {
                out.push(m);
                assert(strings_view(out@) =~= (match materials_of_opt(pre, vault@.key_material) {
                    Option::Some(x) => x,
                    Option::None => Seq::empty(),
                }).push(m@));
            },
            Err(_) => {
                proof {
                    lemma_materials_none(keptv, vault@.key_material, i as int);
                }
                return Err(AppError::invalid_key(
                    "key material not found for a candidate key".to_owned(),
                ));
            },
        }
        i = i + 1;
    }
    proof {
        assert(keptv.subrange(0, keptv.len() as int) =~= keptv);
    }
    Ok(out)
}

/// Resolve the one signing key for a project, check its kind against the
/// algorithm's family, and return the key with its secret material.
pub fn resolve_encoding_material(
    vault: &Vault,
    project_name: &str,
    key_id: &Option<String>,
    key_name: &Option<String>,
    alg: JwtAlg,
) -> (r: Result<(KeyEntry, String), AppError>)
    ensures
        ({
            let ems = encoding_material_spec(
                vault@,
                project_name@,
                opt_view(*key_id),
                opt_view(*key_name),
                alg,
            );
            match r {
                Ok(km) => ems == Option::Some((km.0@, km.1@)),
                Err(e) => e.kind == ErrorKind::InvalidKey && ems is None,
            }
        }),
{
    let (_project, key) = match resolve_project_key_single(vault, project_name, key_id, key_name) {
        Ok(x) => x,
        Err(e) => {
            return Err(e);
        },
    };
    let expected = expected_kind(alg);
    if !eq_ignore_ascii(key.kind.as_str(), expected.as_str()) {
        let msg = "key kind '".to_owned().concat(key.kind.as_str()).concat(
            "' does not match the requested algorithm",
        );
        return Err(AppError::invalid_key(msg));
    }
    match vault.get_key_material(key.id.as_str()) {
        Ok(m) => Ok((key, m)),
        Err(e) => Err(AppError::invalid_key(e.message)),
    }
}

} // verus!
