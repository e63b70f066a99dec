//! The vault snapshot: a fully materialized copy of every project, key and
//! token with their secret material, and the referential-integrity
//! validation an import performs before touching the target vault.

use vstd::prelude::*;

use crate::errors::{VaultError, VaultErrorKind};
use crate::types::{projects_view, KeyEntry, KeyV, ProjectEntry, ProjectV, TokenEntry, TokenV};

verus! {

/// The version tag written into snapshots and bundles.
pub const EXPORT_VERSION: u8 = 1;

/// A stored key together with its secret material.
#[derive(Debug)]
pub struct KeyExport {
    pub entry: KeyEntry,
    pub material: String,
}

/// A stored token together with its secret text.
#[derive(Debug)]
pub struct TokenExport {
    pub entry: TokenEntry,
    pub token: String,
}

/// A complete, versioned copy of a vault's content.
#[derive(Debug)]
pub struct VaultSnapshot {
    pub version: u8,
    pub exported_at: i64,
    pub projects: Vec<ProjectEntry>,
    pub keys: Vec<KeyExport>,
    pub tokens: Vec<TokenExport>,
}

/// The mathematical view of an exported key.
pub ghost struct KeyExportV {
    pub entry: KeyV,
    pub material: Seq<char>,
}

/// The mathematical view of an exported token.
pub ghost struct TokenExportV {
    pub entry: TokenV,
    pub token: Seq<char>,
}

/// The mathematical view of a snapshot.
pub ghost struct SnapshotV {
    pub version: int,
    pub exported_at: int,
    pub projects: Seq<ProjectV>,
    pub keys: Seq<KeyExportV>,
    pub tokens: Seq<TokenExportV>,
}

impl View for KeyExport {
    type V = KeyExportV;

    open spec fn view(&self) -> KeyExportV {
        KeyExportV { entry: self.entry@, material: self.material@ }
    }
}

impl View for TokenExport {
    type V = TokenExportV;

    open spec fn view(&self) -> TokenExportV {
        TokenExportV { entry: self.entry@, token: self.token@ }
    }
}

/// The views of a vector of exported keys.
pub open spec fn key_exports_view(v: Seq<KeyExport>) -> Seq<KeyExportV> {
    v.map_values(|k: KeyExport| k@)
}

/// The views of a vector of exported tokens.
pub open spec fn token_exports_view(v: Seq<TokenExport>) -> Seq<TokenExportV> {
    v.map_values(|t: TokenExport| t@)
}

impl View for VaultSnapshot {
    type V = SnapshotV;

    open spec fn view(&self) -> SnapshotV {
        SnapshotV {
            version: self.version as int,
            exported_at: self.exported_at as int,
            projects: projects_view(self.projects@),
            keys: key_exports_view(self.keys@),
            tokens: token_exports_view(self.tokens@),
        }
    }
}

/// Whether a snapshot project carries this id.
pub open spec fn snap_has_project_id(ps: Seq<ProjectV>, id: Seq<char>) -> bool {
    exists|j: int| 0 <= j < ps.len() && (#[trigger] ps[j].id) == id
}

/// Whether a snapshot key with this id exists and belongs to this project.
pub open spec fn snap_key_in_project(ks: Seq<KeyExportV>, id: Seq<char>, pid: Seq<char>) -> bool {
    exists|j: int|
        0 <= j < ks.len() && (#[trigger] ks[j].entry).id == id && ks[j].entry.project_id == pid
}

/// Referential integrity of a snapshot: the expected version; distinct
/// project ids and names; distinct key and token ids; every key and token
/// owned by a snapshot project; and every default-key pointer naming a key
/// that exists and belongs to that same project.
pub open spec fn snapshot_valid(s: SnapshotV) -> bool {
    &&& s.version == EXPORT_VERSION as int
    &&& forall|i: int, j: int|
        0 <= i < j < s.projects.len() ==> (#[trigger] s.projects[i].id) != (
        #[trigger] s.projects[j].id)
    &&& forall|i: int, j: int|
        0 <= i < j < s.projects.len() ==> (#[trigger] s.projects[i].name) != (
        #[trigger] s.projects[j].name)
    &&& forall|i: int, j: int|
        0 <= i < j < s.keys.len() ==> (#[trigger] s.keys[i].entry.id) != (
        #[trigger] s.keys[j].entry.id)
    &&& forall|i: int|
        0 <= i < s.keys.len() ==> snap_has_project_id(
            s.projects,
            (#[trigger] s.keys[i].entry).project_id,
        )
    &&& forall|i: int, j: int|
        0 <= i < j < s.tokens.len() ==> (#[trigger] s.tokens[i].entry.id) != (
        #[trigger] s.tokens[j].entry.id)
    &&& forall|i: int|
        0 <= i < s.tokens.len() ==> snap_has_project_id(
            s.projects,
            (#[trigger] s.tokens[i].entry).project_id,
        )
    &&& forall|i: int|
        0 <= i < s.projects.len() ==> match (#[trigger] s.projects[i]).default_key_id {
            Option::Some(d) => snap_key_in_project(s.keys, d, s.projects[i].id),
            Option::None => true,
        }
}

/// Check a snapshot's referential integrity before an import writes
/// anything: success exactly when `snapshot_valid` holds of it.
pub fn validate_snapshot(s: &VaultSnapshot) -> (r: Result<(), VaultError>)
    ensures
        match r {
            Ok(_) => snapshot_valid(s@),
            Err(e) => !snapshot_valid(s@) && e.kind == VaultErrorKind::InvalidInput,
        },
{
    if s.version != EXPORT_VERSION {
        return Err(VaultError::invalid_input("unsupported snapshot version"));
    }
    let ghost sv = s@;

    let mut i: usize = 0;
    while i < s.projects.len()
        invariant
            sv == s@,
            0 <= i <= s.projects@.len(),
            forall|a: int, b: int|
                0 <= a < b < i ==> (#[trigger] sv.projects[a].id) != (#[trigger] sv.projects[b].id),
            forall|a: int, b: int|
                0 <= a < b < i ==> (#[trigger] sv.projects[a].name) != (
                #[trigger] sv.projects[b].name),
        decreases s.projects@.len() - i,
    {
        let mut j: usize = 0;
        while j < i
            invariant
                sv == s@,
                0 <= j <= i < s.projects@.len(),
                forall|a: int|
                    0 <= a < j ==> (#[trigger] sv.projects[a].id) != sv.projects[i as int].id,
                forall|a: int|
                    0 <= a < j ==> (#[trigger] sv.projects[a].name) != sv.projects[i as int].name,
            decreases i - j,
        {
            assert(sv.projects[j as int] == s.projects@[j as int]@);
            assert(sv.projects[i as int] == s.projects@[i as int]@);
            if s.projects[j].id.eq(&s.projects[i].id) {
                assert(sv.projects[j as int].id == sv.projects[i as int].id);
                return Err(VaultError::invalid_input("duplicate project id"));
            }
            if s.projects[j].name.eq(&s.projects[i].name) {
                assert(sv.projects[j as int].name == sv.projects[i as int].name);
                return Err(VaultError::invalid_input("duplicate project name"));
            }
            j = j + 1;
        }
        i = i + 1;
    }

    let mut i: usize = 0;
    while i < s.keys.len()
        invariant
            sv == s@,
            0 <= i <= s.keys@.len(),
            forall|a: int, b: int|
                0 <= a < b < i ==> (#[trigger] sv.keys[a].entry.id) != (
                #[trigger] sv.keys[b].entry.id),
            forall|a: int|
                0 <= a < i ==> snap_has_project_id(
                    sv.projects,
                    (#[trigger] sv.keys[a].entry).project_id,
                ),
        decreases s.keys@.len() - i,
    {
        assert(sv.keys[i as int] == s.keys@[i as int]@);
        let mut j: usize = 0;
        while j < i
            invariant
                sv == s@,
                0 <= j <= i < s.keys@.len(),
                forall|a: int|
                    0 <= a < j ==> (#[trigger] sv.keys[a].entry.id) != sv.keys[i as int].entry.id,
            decreases i - j,
        {
            assert(sv.keys[j as int] == s.keys@[j as int]@);
            assert(sv.keys[i as int] == s.keys@[i as int]@);
            if s.keys[j].entry.id.eq(&s.keys[i].entry.id) {
                assert(sv.keys[j as int].entry.id == sv.keys[i as int].entry.id);
                return Err(VaultError::invalid_input("duplicate key id"));
            }
            j = j + 1;
        }
        if !project_id_listed(&s.projects, &s.keys[i].entry.project_id) {
            assert(!snap_has_project_id(sv.projects, sv.keys[i as int].entry.project_id));
            return Err(VaultError::invalid_input("key references unknown project"));
        }
        i = i + 1;
    }

    let mut i: usize = 0;
    while i < s.tokens.len()
        invariant
            sv == s@,
            0 <= i <= s.tokens@.len(),
            forall|a: int, b: int|
                0 <= a < b < i ==> (#[trigger] sv.tokens[a].entry.id) != (
                #[trigger] sv.tokens[b].entry.id),
            forall|a: int|
                0 <= a < i ==> snap_has_project_id(
                    sv.projects,
                    (#[trigger] sv.tokens[a].entry).project_id,
                ),
        decreases s.tokens@.len() - i,
    {
        assert(sv.tokens[i as int] == s.tokens@[i as int]@);
        let mut j: usize = 0;
        while j < i
            invariant
                sv == s@,
                0 <= j <= i < s.tokens@.len(),
                forall|a: int|
                    0 <= a < j ==> (#[trigger] sv.tokens[a].entry.id) != sv.tokens[i as int].entry.id,
            decreases i - j,
        {
            assert(sv.tokens[j as int] == s.tokens@[j as int]@);
            assert(sv.tokens[i as int] == s.tokens@[i as int]@);
            if s.tokens[j].entry.id.eq(&s.tokens[i].entry.id) {
                assert(sv.tokens[j as int].entry.id == sv.tokens[i as int].entry.id);
                return Err(VaultError::invalid_input("duplicate token id"));
            }
            j = j + 1;
        }
        if !project_id_listed(&s.projects, &s.tokens[i].entry.project_id) {
            assert(!snap_has_project_id(sv.projects, sv.tokens[i as int].entry.project_id));
            return Err(VaultError::invalid_input("token references unknown project"));
        }
        i = i + 1;
    }

    let mut i: usize = 0;
    while i < s.projects.len()
        invariant
            sv == s@,
            0 <= i <= s.projects@.len(),
            forall|a: int|
                0 <= a < i ==> match (#[trigger] sv.projects[a]).default_key_id {
                    Option::Some(d) => snap_key_in_project(sv.keys, d, sv.projects[a].id),
                    Option::None => true,
                },
        decreases s.projects@.len() - i,
    {
        assert(sv.projects[i as int] == s.projects@[i as int]@);
        match &s.projects[i].default_key_id {
            Option::Some(d) => {
                if !key_listed_by_id(&s.keys, d) {
                    assert(sv.projects[i as int].default_key_id == Option::Some(d@));
                    assert(!snap_key_in_project(sv.keys, d@, sv.projects[i as int].id));
                    return Err(VaultError::invalid_input("project default_key_id not found"));
                }
                if !key_in_project_listed(&s.keys, d, &s.projects[i].id) {
                    assert(sv.projects[i as int].default_key_id == Option::Some(d@));
                    assert(!snap_key_in_project(sv.keys, d@, sv.projects[i as int].id));
                    return Err(VaultError::invalid_input(
                        "project default_key_id belongs to a different project",
                    ));
                }
            },
            Option::None => {},
        }
        i = i + 1;
    }

    Ok(())
}

/// Whether the projects list holds this id.
fn project_id_listed(ps: &Vec<ProjectEntry>, id: &String) -> (r: bool)
    ensures
        r == snap_has_project_id(projects_view(ps@), id@),
{
    let ghost pv = projects_view(ps@);
    let mut i: usize = 0;
    while i < ps.len()
        invariant
            pv == projects_view(ps@),
            0 <= i <= ps@.len(),
            forall|j: int| 0 <= j < i ==> (#[trigger] pv[j].id) != id@,
        decreases ps@.len() - i,
    {
        assert(pv[i as int] == ps@[i as int]@);
        if ps[i].id.eq(id) {
            assert(pv[i as int].id == id@);
            return true;
        }
        i = i + 1;
    }
    false
}

/// Whether the keys list holds this key id under any project.
fn key_listed_by_id(ks: &Vec<KeyExport>, id: &String) -> (r: bool)
    ensures
        r == exists|j: int|
            0 <= j < key_exports_view(ks@).len() && (#[trigger] key_exports_view(ks@)[j].entry).id
                == id@,
{
    let ghost kv = key_exports_view(ks@);
    let mut i: usize = 0;
    while i < ks.len()
        invariant
            kv == key_exports_view(ks@),
            0 <= i <= ks@.len(),
            forall|j: int| 0 <= j < i ==> (#[trigger] kv[j].entry).id != id@,
        decreases ks@.len() - i,
    {
        assert(kv[i as int] == ks@[i as int]@);
        if ks[i].entry.id.eq(id) {
            assert((kv[i as int].entry).id == id@);
            return true;
        }
        i = i + 1;
    }
    false
}

/// Whether the keys list holds this key id under this owning project.
fn key_in_project_listed(ks: &Vec<KeyExport>, id: &String, pid: &String) -> (r: bool)
    ensures
        r == snap_key_in_project(key_exports_view(ks@), id@, pid@),
{
    let ghost kv = key_exports_view(ks@);
    let mut i: usize = 0;
    while i < ks.len()
        invariant
            kv == key_exports_view(ks@),
            0 <= i <= ks@.len(),
            forall|j: int|
                0 <= j < i ==> !((#[trigger] kv[j].entry).id == id@ && kv[j].entry.project_id
                    == pid@),
        decreases ks@.len() - i,
    {
        assert(kv[i as int] == ks@[i as int]@);
        if ks[i].entry.id.eq(id) && ks[i].entry.project_id.eq(pid) {
            assert(kv[i as int].entry.id == id@ && kv[i as int].entry.project_id == pid@);
            return true;
        }
        i = i + 1;
    }
    false
}

} // verus!
