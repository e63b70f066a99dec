//! The vault's data model: projects, keys and tokens, their input forms,
//! and the mathematical views the contracts speak about.

use vstd::prelude::*;

use crate::text::{opt_view, strings_view};

verus! {

/// A named grouping of keys and tokens.
#[derive(Debug)]
pub struct ProjectEntry {
    pub id: String,
    pub name: String,
    pub created_at: i64,
    pub default_key_id: Option<String>,
    pub description: Option<String>,
    pub tags: Vec<String>,
}

/// Metadata of a stored key; the secret material is held out of the record.
#[derive(Debug)]
pub struct KeyEntry {
    pub id: String,
    pub project_id: String,
    pub name: String,
    pub kind: String,
    pub created_at: i64,
    pub kid: Option<String>,
    pub description: Option<String>,
    pub tags: Vec<String>,
}

/// Metadata of a stored bearer token; the token text is held out of the record.
#[derive(Debug)]
pub struct TokenEntry {
    pub id: String,
    pub project_id: String,
    pub name: String,
    pub created_at: i64,
}

/// What a caller supplies to create a project.
#[derive(Debug)]
pub struct ProjectInput {
    pub name: String,
    pub description: Option<String>,
    pub tags: Vec<String>,
}

/// What a caller supplies to create a key.
#[derive(Debug)]
pub struct KeyEntryInput {
    pub project_id: String,
    pub name: String,
    pub kind: String,
    pub secret: String,
    pub kid: Option<String>,
    pub description: Option<String>,
    pub tags: Vec<String>,
}

/// What a caller supplies to create a token.
#[derive(Debug)]
pub struct TokenEntryInput {
    pub project_id: String,
    pub name: String,
    pub token: String,
}

/// The mathematical view of a project.
pub ghost struct ProjectV {
    pub id: Seq<char>,
    pub name: Seq<char>,
    pub created_at: int,
    pub default_key_id: Option<Seq<char>>,
    pub description: Option<Seq<char>>,
    pub tags: Seq<Seq<char>>,
}

/// The mathematical view of a key record.
pub ghost struct KeyV {
    pub id: Seq<char>,
    pub project_id: Seq<char>,
    pub name: Seq<char>,
    pub kind: Seq<char>,
    pub created_at: int,
    pub kid: Option<Seq<char>>,
    pub description: Option<Seq<char>>,
    pub tags: Seq<Seq<char>>,
}

/// The mathematical view of a token record.
pub ghost struct TokenV {
    pub id: Seq<char>,
    pub project_id: Seq<char>,
    pub name: Seq<char>,
    pub created_at: int,
}

impl View for ProjectEntry {
    type V = ProjectV;

    open spec fn view(&self) -> ProjectV {
        ProjectV {
            id: self.id@,
            name: self.name@,
            created_at: self.created_at as int,
            default_key_id: opt_view(self.default_key_id),
            description: opt_view(self.description),
            tags: strings_view(self.tags@),
        }
    }
}

impl View for KeyEntry {
    type V = KeyV;

    open spec fn view(&self) -> KeyV {
        KeyV {
            id: self.id@,
            project_id: self.project_id@,
            name: self.name@,
            kind: self.kind@,
            created_at: self.created_at as int,
            kid: opt_view(self.kid),
            description: opt_view(self.description),
            tags: strings_view(self.tags@),
        }
    }
}

impl View for TokenEntry {
    type V = TokenV;

    open spec fn view(&self) -> TokenV {
        TokenV {
            id: self.id@,
            project_id: self.project_id@,
            name: self.name@,
            created_at: self.created_at as int,
        }
    }
}

/// The views of a vector of projects.
pub open spec fn projects_view(v: Seq<ProjectEntry>) -> Seq<ProjectV> {
    v.map_values(|p: ProjectEntry| p@)
}

/// The views of a vector of keys.
pub open spec fn keys_view(v: Seq<KeyEntry>) -> Seq<KeyV> {
    v.map_values(|k: KeyEntry| k@)
}

/// The views of a vector of tokens.
pub open spec fn tokens_view(v: Seq<TokenEntry>) -> Seq<TokenV> {
    v.map_values(|t: TokenEntry| t@)
}

/// Clone an optional string, preserving the view.
pub fn clone_opt_string(o: &Option<String>) -> (r: Option<String>)
    ensures
        opt_view(r) == opt_view(*o),
{
    match o {
        Option::Some(s) => Option::Some(s.clone()),
        Option::None => Option::None,
    }
}

/// Clone a list of strings, preserving the views.
pub fn clone_strings(v: &Vec<String>) -> (r: Vec<String>)
    ensures
        strings_view(r@) == strings_view(v@),
        r@.len() == v@.len(),
{
    let mut out: Vec<String> = Vec::new();
    let mut i: usize = 0;
    while i < v.len()
        invariant
            0 <= i <= v@.len(),
            out@.len() == i,
            forall|j: int| 0 <= j < i ==> out@[j]@ == v@[j]@,
        decreases v@.len() - i,
    {
        out.push(v[i].clone());
        i = i + 1;
    }
    proof {
        assert(strings_view(out@) =~= strings_view(v@));
    }
    out
}

/// Clone a project record, preserving the view.
pub fn clone_project(p: &ProjectEntry) -> (r: ProjectEntry)
    ensures
        r@ == p@,
{
    ProjectEntry {
        id: p.id.clone(),
        name: p.name.clone(),
        created_at: p.created_at,
        default_key_id: clone_opt_string(&p.default_key_id),
        description: clone_opt_string(&p.description),
        tags: clone_strings(&p.tags),
    }
}

/// Clone a key record, preserving the view.
pub fn clone_key(k: &KeyEntry) -> (r: KeyEntry)
    ensures
        r@ == k@,
{
    KeyEntry {
        id: k.id.clone(),
        project_id: k.project_id.clone(),
        name: k.name.clone(),
        kind: k.kind.clone(),
        created_at: k.created_at,
        kid: clone_opt_string(&k.kid),
        description: clone_opt_string(&k.description),
        tags: clone_strings(&k.tags),
    }
}

/// Clone a token record, preserving the view.
pub fn clone_token(t: &TokenEntry) -> (r: TokenEntry)
    ensures
        r@ == t@,
{
    TokenEntry {
        id: t.id.clone(),
        project_id: t.project_id.clone(),
        name: t.name.clone(),
        created_at: t.created_at,
    }
}

} // verus!
