//! The in-memory storage engine: projects, keys and tokens with their
//! secret material, under a well-formedness invariant (distinct identifiers,
//! and material held for exactly the stored keys and tokens).

use vstd::prelude::*;
use vstd::string::StringExecFns;

use crate::errors::{VaultError, VaultErrorKind};
use crate::ids::{new_uuid, now_unix};
use crate::text::{
    is_blank, norm_opt_spec, norm_tags_spec, normalize_opt_string, normalize_tags, opt_view,
    str_eq, strings_view, trim_spec, trim_str, trim_string,
};
use crate::types::{
    clone_key, clone_opt_string, clone_project, clone_strings, clone_token, keys_view,
    projects_view, tokens_view,
    KeyEntry, KeyEntryInput, KeyV, ProjectEntry, ProjectInput, ProjectV, TokenEntry,
    TokenEntryInput, TokenV,
};

verus! {

broadcast use vstd::seq_lib::group_filter_ensures, vstd::seq::Seq::lemma_filter_push;

/// One secret held out of the metadata records, addressed by owner id.
#[derive(Debug)]
pub struct SecretEntry {
    pub id: String,
    pub value: String,
}

/// The mathematical view of a stored secret.
pub ghost struct SecretV {
    pub id: Seq<char>,
    pub value: Seq<char>,
}

impl View for SecretEntry {
    type V = SecretV;

    open spec fn view(&self) -> SecretV {
        SecretV { id: self.id@, value: self.value@ }
    }
}

/// The views of a vector of secrets.
pub open spec fn secrets_view(v: Seq<SecretEntry>) -> Seq<SecretV> {
    v.map_values(|m: SecretEntry| m@)
}

/// The first element satisfying a predicate, if any.
pub open spec fn first_where<T>(s: Seq<T>, pred: spec_fn(T) -> bool) -> Option<T>
    decreases s.len(),
{
    if s.len() == 0 {
        Option::None
    } else if pred(s[0]) {
        Option::Some(s[0])
    } else {
        first_where(s.drop_first(), pred)
    }
}

/// What a forward scan that saw no match up to `i` says about `first_where`.
pub proof fn lemma_first_where_skip<T>(s: Seq<T>, pred: spec_fn(T) -> bool, i: int)
    requires
        0 <= i <= s.len(),
        forall|j: int| 0 <= j < i ==> !pred(s[j]),
    ensures
        i == s.len() ==> first_where(s, pred) is None,
        i < s.len() && pred(s[i]) ==> first_where(s, pred) == Option::Some(s[i]),
    decreases i,
{
    if i > 0 {
        let t = s.drop_first();
        lemma_first_where_skip(t, pred, i - 1);
    }
}

/// Project selected by name.
pub open spec fn by_pname(nm: Seq<char>) -> spec_fn(ProjectV) -> bool {
    |p: ProjectV| p.name == nm
}

/// Project selected by id.
pub open spec fn by_pid(id: Seq<char>) -> spec_fn(ProjectV) -> bool {
    |p: ProjectV| p.id == id
}

/// Key selected by id.
pub open spec fn by_key_id(id: Seq<char>) -> spec_fn(KeyV) -> bool {
    |k: KeyV| k.id == id
}

/// Key selected by owning project and name.
pub open spec fn by_key_in_project(pid: Seq<char>, nm: Seq<char>) -> spec_fn(KeyV) -> bool {
    |k: KeyV| k.project_id == pid && k.name == nm
}

/// Secret selected by owner id.
pub open spec fn by_secret_id(id: Seq<char>) -> spec_fn(SecretV) -> bool {
    |m: SecretV| m.id == id
}

/// Keys kept when a key is deleted.
pub open spec fn keep_key_not(id: Seq<char>) -> spec_fn(KeyV) -> bool {
    |k: KeyV| k.id != id
}

/// Keys kept when a project is deleted.
pub open spec fn keep_key_not_project(pid: Seq<char>) -> spec_fn(KeyV) -> bool {
    |k: KeyV| k.project_id != pid
}

/// Keys of one project, for listing.
pub open spec fn key_of_project(pid: Seq<char>) -> spec_fn(KeyV) -> bool {
    |k: KeyV| k.project_id == pid
}

/// Tokens kept when a token is deleted.
pub open spec fn keep_token_not(id: Seq<char>) -> spec_fn(TokenV) -> bool {
    |t: TokenV| t.id != id
}

/// Tokens kept when a project is deleted.
pub open spec fn keep_token_not_project(pid: Seq<char>) -> spec_fn(TokenV) -> bool {
    |t: TokenV| t.project_id != pid
}

/// Tokens of one project, for listing.
pub open spec fn token_of_project(pid: Seq<char>) -> spec_fn(TokenV) -> bool {
    |t: TokenV| t.project_id == pid
}

/// Secrets kept when one owner is deleted.
pub open spec fn keep_secret_not(id: Seq<char>) -> spec_fn(SecretV) -> bool {
    |m: SecretV| m.id != id
}

/// The secret held for an owner id, if any.
pub open spec fn lookup_secret(ms: Seq<SecretV>, id: Seq<char>) -> Option<Seq<char>> {
    match first_where(ms, by_secret_id(id)) {
        Option::Some(m) => Option::Some(m.value),
        Option::None => Option::None,
    }
}

/// Whether a secret is held for an owner id.
pub open spec fn has_secret(ms: Seq<SecretV>, id: Seq<char>) -> bool {
    exists|j: int| 0 <= j < ms.len() && (#[trigger] ms[j].id) == id
}

/// Whether a key with this id is stored.
pub open spec fn has_key_id(ks: Seq<KeyV>, id: Seq<char>) -> bool {
    exists|j: int| 0 <= j < ks.len() && (#[trigger] ks[j].id) == id
}

/// Whether a token with this id is stored.
pub open spec fn has_token_id(ts: Seq<TokenV>, id: Seq<char>) -> bool {
    exists|j: int| 0 <= j < ts.len() && (#[trigger] ts[j].id) == id
}

/// Whether a project with this id is stored.
pub open spec fn has_project_id(ps: Seq<ProjectV>, id: Seq<char>) -> bool {
    exists|j: int| 0 <= j < ps.len() && (#[trigger] ps[j].id) == id
}

/// Whether a project with this name is stored.
pub open spec fn has_project_name(ps: Seq<ProjectV>, nm: Seq<char>) -> bool {
    exists|j: int| 0 <= j < ps.len() && (#[trigger] ps[j].name) == nm
}

/// No two projects share an id.
pub open spec fn distinct_pids(ps: Seq<ProjectV>) -> bool {
    forall|i: int, j: int|
        0 <= i < j < ps.len() ==> #[trigger] ps[i].id != #[trigger] ps[j].id
}

/// No two projects share a name.
pub open spec fn distinct_pnames(ps: Seq<ProjectV>) -> bool {
    forall|i: int, j: int|
        0 <= i < j < ps.len() ==> #[trigger] ps[i].name != #[trigger] ps[j].name
}

/// No two keys share an id.
pub open spec fn distinct_key_ids(ks: Seq<KeyV>) -> bool {
    forall|i: int, j: int|
        0 <= i < j < ks.len() ==> #[trigger] ks[i].id != #[trigger] ks[j].id
}

/// No two tokens share an id.
pub open spec fn distinct_token_ids(ts: Seq<TokenV>) -> bool {
    forall|i: int, j: int|
        0 <= i < j < ts.len() ==> #[trigger] ts[i].id != #[trigger] ts[j].id
}

/// No two secrets share an owner id.
pub open spec fn distinct_secret_ids(ms: Seq<SecretV>) -> bool {
    forall|i: int, j: int|
        0 <= i < j < ms.len() ==> #[trigger] ms[i].id != #[trigger] ms[j].id
}

/// Filtering keeps keys distinct by id, and keeps only keys of the source.
pub proof fn lemma_filter_keys(s: Seq<KeyV>, pred: spec_fn(KeyV) -> bool)
    requires
        distinct_key_ids(s),
    ensures
        distinct_key_ids(s.filter(pred)),
        forall|i: int| 0 <= i < s.filter(pred).len() ==> s.contains(#[trigger] s.filter(pred)[i]),
    decreases s.len(),
{
    reveal(Seq::filter);
    if s.len() > 0 {
        let d = s.drop_last();
        assert(forall|i: int| 0 <= i < d.len() ==> d[i] == s[i]);
        lemma_filter_keys(d, pred);
        let df = d.filter(pred);
        assert forall|i: int| 0 <= i < df.len() implies s.contains(df[i]) by {
            assert(d.contains(df[i]));
            let j = choose|j: int| 0 <= j < d.len() && d[j] == df[i];
            assert(s[j] == df[i]);
        }
        if pred(s.last()) {
            let out = s.filter(pred);
            assert(out == df.push(s.last()));
            assert forall|i: int, j: int| 0 <= i < j < out.len() implies out[i].id != out[j].id by {
                if j == out.len() - 1 {
                    assert(d.contains(df[i]));
                    let m = choose|m: int| 0 <= m < d.len() && d[m] == df[i];
                    assert(s[m].id != s[s.len() - 1].id);
                }
            }
        }
    }
}

/// Filtering keeps tokens distinct by id, and keeps only tokens of the source.
pub proof fn lemma_filter_tokens(s: Seq<TokenV>, pred: spec_fn(TokenV) -> bool)
    requires
        distinct_token_ids(s),
    ensures
        distinct_token_ids(s.filter(pred)),
        forall|i: int| 0 <= i < s.filter(pred).len() ==> s.contains(#[trigger] s.filter(pred)[i]),
    decreases s.len(),
{
    reveal(Seq::filter);
    if s.len() > 0 {
        let d = s.drop_last();
        assert(forall|i: int| 0 <= i < d.len() ==> d[i] == s[i]);
        lemma_filter_tokens(d, pred);
        let df = d.filter(pred);
        assert forall|i: int| 0 <= i < df.len() implies s.contains(df[i]) by {
            assert(d.contains(df[i]));
            let j = choose|j: int| 0 <= j < d.len() && d[j] == df[i];
            assert(s[j] == df[i]);
        }
        if pred(s.last()) {
            let out = s.filter(pred);
            assert(out == df.push(s.last()));
            assert forall|i: int, j: int| 0 <= i < j < out.len() implies out[i].id != out[j].id by {
                if j == out.len() - 1 {
                    assert(d.contains(df[i]));
                    let m = choose|m: int| 0 <= m < d.len() && d[m] == df[i];
                    assert(s[m].id != s[s.len() - 1].id);
                }
            }
        }
    }
}

/// Filtering keeps secrets distinct by id, and keeps only secrets of the source.
pub proof fn lemma_filter_secrets(s: Seq<SecretV>, pred: spec_fn(SecretV) -> bool)
    requires
        distinct_secret_ids(s),
    ensures
        distinct_secret_ids(s.filter(pred)),
        forall|i: int| 0 <= i < s.filter(pred).len() ==> s.contains(#[trigger] s.filter(pred)[i]),
    decreases s.len(),
{
    reveal(Seq::filter);
    if s.len() > 0 {
        let d = s.drop_last();
        assert(forall|i: int| 0 <= i < d.len() ==> d[i] == s[i]);
        lemma_filter_secrets(d, pred);
        let df = d.filter(pred);
        assert forall|i: int| 0 <= i < df.len() implies s.contains(df[i]) by {
            assert(d.contains(df[i]));
            let j = choose|j: int| 0 <= j < d.len() && d[j] == df[i];
            assert(s[j] == df[i]);
        }
        if pred(s.last()) {
            let out = s.filter(pred);
            assert(out == df.push(s.last()));
            assert forall|i: int, j: int| 0 <= i < j < out.len() implies out[i].id != out[j].id by {
                if j == out.len() - 1 {
                    assert(d.contains(df[i]));
                    let m = choose|m: int| 0 <= m < d.len() && d[m] == df[i];
                    assert(s[m].id != s[s.len() - 1].id);
                }
            }
        }
    }
}

/// Filtering keeps projects distinct by id and by name, and keeps only
/// projects of the source.
pub proof fn lemma_filter_projects(s: Seq<ProjectV>, pred: spec_fn(ProjectV) -> bool)
    requires
        distinct_pids(s),
        distinct_pnames(s),
    ensures
        distinct_pids(s.filter(pred)),
        distinct_pnames(s.filter(pred)),
        forall|i: int| 0 <= i < s.filter(pred).len() ==> s.contains(#[trigger] s.filter(pred)[i]),
    decreases s.len(),
{
    reveal(Seq::filter);
    if s.len() > 0 {
        let d = s.drop_last();
        assert(forall|i: int| 0 <= i < d.len() ==> d[i] == s[i]);
        lemma_filter_projects(d, pred);
        let df = d.filter(pred);
        assert forall|i: int| 0 <= i < df.len() implies s.contains(df[i]) by {
            assert(d.contains(df[i]));
            let j = choose|j: int| 0 <= j < d.len() && d[j] == df[i];
            assert(s[j] == df[i]);
        }
        if pred(s.last()) {
            let out = s.filter(pred);
            assert(out == df.push(s.last()));
            assert forall|i: int, j: int|
                0 <= i < j < out.len() implies out[i].id != out[j].id && out[i].name
                != out[j].name by {
                if j == out.len() - 1 {
                    assert(d.contains(df[i]));
                    let m = choose|m: int| 0 <= m < d.len() && d[m] == df[i];
                    assert(s[m].id != s[s.len() - 1].id);
                    assert(s[m].name != s[s.len() - 1].name);
                }
            }
        }
    }
}

/// A held secret is found by lookup.
pub proof fn lemma_has_secret_lookup(ms: Seq<SecretV>, id: Seq<char>)
    requires
        has_secret(ms, id),
    ensures
        lookup_secret(ms, id) is Some,
    decreases ms.len(),
{
    if ms.len() > 0 && ms[0].id != id {
        let j = choose|j: int| 0 <= j < ms.len() && (#[trigger] ms[j].id) == id;
        assert(ms.drop_first()[j - 1].id == id);
        lemma_has_secret_lookup(ms.drop_first(), id);
    }
}

/// The mathematical view of the whole vault state.
pub ghost struct VaultV {
    pub projects: Seq<ProjectV>,
    pub keys: Seq<KeyV>,
    pub tokens: Seq<TokenV>,
    pub key_material: Seq<SecretV>,
    pub token_material: Seq<SecretV>,
}

/// Well-formedness of a vault: distinct identifiers and names, and secret
/// material held for exactly the stored keys and tokens.
pub open spec fn vault_wf(v: VaultV) -> bool {
    &&& distinct_pids(v.projects)
    &&& distinct_pnames(v.projects)
    &&& distinct_key_ids(v.keys)
    &&& distinct_token_ids(v.tokens)
    &&& distinct_secret_ids(v.key_material)
    &&& distinct_secret_ids(v.token_material)
    &&& forall|i: int| 0 <= i < v.keys.len() ==> has_secret(v.key_material, (#[trigger] v.keys[i]).id)
    &&& forall|i: int|
        0 <= i < v.key_material.len() ==> has_key_id(v.keys, (#[trigger] v.key_material[i]).id)
    &&& forall|i: int|
        0 <= i < v.tokens.len() ==> has_secret(v.token_material, (#[trigger] v.tokens[i]).id)
    &&& forall|i: int|
        0 <= i < v.token_material.len() ==> has_token_id(v.tokens, (#[trigger] v.token_material[i]).id)
}

/// A vault with nothing in it.
pub open spec fn vault_empty(v: VaultV) -> bool {
    v.projects.len() == 0 && v.keys.len() == 0 && v.tokens.len() == 0
        && v.key_material.len() == 0 && v.token_material.len() == 0
}

/// The in-memory vault.
pub struct Vault {
    pub projects: Vec<ProjectEntry>,
    pub keys: Vec<KeyEntry>,
    pub tokens: Vec<TokenEntry>,
    pub key_material: Vec<SecretEntry>,
    pub token_material: Vec<SecretEntry>,
}

impl View for Vault {
    type V = VaultV;

    open spec fn view(&self) -> VaultV {
        VaultV {
            projects: projects_view(self.projects@),
            keys: keys_view(self.keys@),
            tokens: tokens_view(self.tokens@),
            key_material: secrets_view(self.key_material@),
            token_material: secrets_view(self.token_material@),
        }
    }
}

impl Vault {
    /// Open a fresh, empty in-memory vault.
    pub fn new() -> (v: Vault)
        ensures
            vault_empty(v@),
            vault_wf(v@),
    {
        Vault {
            projects: Vec::new(),
            keys: Vec::new(),
            tokens: Vec::new(),
            key_material: Vec::new(),
            token_material: Vec::new(),
        }
    }

    /// All projects, in insertion order.
    pub fn list_projects(&self) -> (r: Result<Vec<ProjectEntry>, VaultError>)
        ensures
            r matches Ok(v) && projects_view(v@) == self@.projects,
    {
        let mut out: Vec<ProjectEntry> = Vec::new();
        let mut i: usize = 0;
        while i < self.projects.len()
            invariant
                0 <= i <= self.projects@.len(),
                out@.len() == i,
                forall|j: int| 0 <= j < i ==> out@[j]@ == self.projects@[j]@,
            decreases self.projects@.len() - i,
        {
            out.push(clone_project(&self.projects[i]));
            i = i + 1;
        }
        proof {
            assert(projects_view(out@) =~= self@.projects);
        }
        Ok(out)
    }

    /// Whether no project, key or token is stored.
    pub fn is_empty(&self) -> (r: Result<bool, VaultError>)
        ensures
            r matches Ok(b) && b == (self@.projects.len() == 0 && self@.keys.len() == 0
                && self@.tokens.len() == 0),
    {
        Ok(self.projects.len() == 0 && self.keys.len() == 0 && self.tokens.len() == 0)
    }

    /// The project with this name, after trimming the selector; a blank
    /// selector finds nothing.
    pub fn find_project(&self, name: &str) -> (r: Result<Option<ProjectEntry>, VaultError>)
        ensures
            r matches Ok(o) && match o {
                Option::Some(p) => !is_blank(name@) && Option::Some(p@) == first_where(
                    self@.projects,
                    by_pname(trim_spec(name@)),
                ),
                Option::None => is_blank(name@) || first_where(
                    self@.projects,
                    by_pname(trim_spec(name@)),
                ) is None,
            },
    {
        let t = trim_str(name);
        if t.as_str().unicode_len() == 0 {
            return Ok(Option::None);
        }
        let mut i: usize = 0;
        while i < self.projects.len()
            invariant
                0 <= i <= self.projects@.len(),
                t@ == trim_spec(name@),
                t@.len() > 0,
                forall|j: int| 0 <= j < i ==> !by_pname(t@)(self@.projects[j]),
            decreases self.projects@.len() - i,
        {
            assert(self@.projects[i as int] == self.projects@[i as int]@);
            if self.projects[i].name.eq(&t) {
                proof {
                    assert(by_pname(t@)(self@.projects[i as int]));
                    lemma_first_where_skip(self@.projects, by_pname(t@), i as int);
                    assert(!is_blank(name@));
                }
                return Ok(Option::Some(clone_project(&self.projects[i])));
            }
            i = i + 1;
        }
        proof {
            lemma_first_where_skip(self@.projects, by_pname(t@), self@.projects.len() as int);
        }
        Ok(Option::None)
    }

    /// The project with this name (alias kept for callers).
    pub fn find_project_by_name(&self, name: &str) -> (r: Result<Option<ProjectEntry>, VaultError>)
        ensures
            r matches Ok(o) && match o {
                Option::Some(p) => !is_blank(name@) && Option::Some(p@) == first_where(
                    self@.projects,
                    by_pname(trim_spec(name@)),
                ),
                Option::None => is_blank(name@) || first_where(
                    self@.projects,
                    by_pname(trim_spec(name@)),
                ) is None,
            },
    {
        self.find_project(name)
    }

    /// The project with this id, after trimming the selector; a blank
    /// selector finds nothing.
    pub fn find_project_by_id(&self, id: &str) -> (r: Result<Option<ProjectEntry>, VaultError>)
        ensures
            r matches Ok(o) && match o {
                Option::Some(p) => !is_blank(id@) && Option::Some(p@) == first_where(
                    self@.projects,
                    by_pid(trim_spec(id@)),
                ),
                Option::None => is_blank(id@) || first_where(
                    self@.projects,
                    by_pid(trim_spec(id@)),
                ) is None,
            },
    {
        let t = trim_str(id);
        if t.as_str().unicode_len() == 0 {
            return Ok(Option::None);
        }
        let mut i: usize = 0;
        while i < self.projects.len()
            invariant
                0 <= i <= self.projects@.len(),
                t@ == trim_spec(id@),
                t@.len() > 0,
                forall|j: int| 0 <= j < i ==> !by_pid(t@)(self@.projects[j]),
            decreases self.projects@.len() - i,
        {
            assert(self@.projects[i as int] == self.projects@[i as int]@);
            if self.projects[i].id.eq(&t) {
                proof {
                    assert(by_pid(t@)(self@.projects[i as int]));
                    lemma_first_where_skip(self@.projects, by_pid(t@), i as int);
                    assert(!is_blank(id@));
                }
                return Ok(Option::Some(clone_project(&self.projects[i])));
            }
            i = i + 1;
        }
        proof {
            lemma_first_where_skip(self@.projects, by_pid(t@), self@.projects.len() as int);
        }
        Ok(Option::None)
    }

    /// The keys of one project (raw id comparison), or all keys.
    pub fn list_keys(&self, project_id: Option<&str>) -> (r: Result<Vec<KeyEntry>, VaultError>)
        ensures
            r matches Ok(v) && keys_view(v@) == match project_id {
                Option::Some(pid) => self@.keys.filter(key_of_project(pid@)),
                Option::None => self@.keys,
            },
    {
        let mut out: Vec<KeyEntry> = Vec::new();
        let mut i: usize = 0;
        match project_id {
            Option::Some(pid) => {
                while i < self.keys.len()
                    invariant
                        0 <= i <= self.keys@.len(),
                        keys_view(out@) == self@.keys.subrange(0, i as int).filter(
                            key_of_project(pid@),
                        ),
                    decreases self.keys@.len() - i,
                {
                    let ghost pre = self@.keys.subrange(0, i as int);
                    let ghost cur = self.keys@[i as int]@;
                    assert(self@.keys.subrange(0, i + 1) =~= pre.push(cur));
                    if str_eq(self.keys[i].project_id.as_str(), pid) {
                        out.push(clone_key(&self.keys[i]));
                        assert(keys_view(out@) =~= pre.filter(key_of_project(pid@)).push(cur));
                        assert(key_of_project(pid@)(cur));
                    } else {
                        assert(!key_of_project(pid@)(cur));
                    }
                    assert(keys_view(out@) == self@.keys.subrange(0, i + 1).filter(
                        key_of_project(pid@),
                    ));
                    i = i + 1;
                }
                proof {
                    assert(self@.keys.subrange(0, self@.keys.len() as int) =~= self@.keys);
                }
                Ok(out)
            },
            Option::None => {
                while i < self.keys.len()
                    invariant
                        0 <= i <= self.keys@.len(),
                        out@.len() == i,
                        forall|j: int| 0 <= j < i ==> out@[j]@ == self.keys@[j]@,
                    decreases self.keys@.len() - i,
                {
                    out.push(clone_key(&self.keys[i]));
                    i = i + 1;
                }
                proof {
                    assert(keys_view(out@) =~= self@.keys);
                }
                Ok(out)
            },
        }
    }

    /// The tokens of one project (raw id comparison), or all tokens.
    pub fn list_tokens(&self, project_id: Option<&str>) -> (r: Result<Vec<TokenEntry>, VaultError>)
        ensures
            r matches Ok(v) && tokens_view(v@) == match project_id {
                Option::Some(pid) => self@.tokens.filter(token_of_project(pid@)),
                Option::None => self@.tokens,
            },
    {
        let mut out: Vec<TokenEntry> = Vec::new();
        let mut i: usize = 0;
        match project_id {
            Option::Some(pid) => {
                while i < self.tokens.len()
                    invariant
                        0 <= i <= self.tokens@.len(),
                        tokens_view(out@) == self@.tokens.subrange(0, i as int).filter(
                            token_of_project(pid@),
                        ),
                    decreases self.tokens@.len() - i,
                {
                    let ghost pre = self@.tokens.subrange(0, i as int);
                    let ghost cur = self.tokens@[i as int]@;
                    assert(self@.tokens.subrange(0, i + 1) =~= pre.push(cur));
                    if str_eq(self.tokens[i].project_id.as_str(), pid) {
                        out.push(clone_token(&self.tokens[i]));
                        assert(tokens_view(out@) =~= pre.filter(token_of_project(pid@)).push(cur));
                        assert(token_of_project(pid@)(cur));
                    } else {
                        assert(!token_of_project(pid@)(cur));
                    }
                    assert(tokens_view(out@) == self@.tokens.subrange(0, i + 1).filter(
                        token_of_project(pid@),
                    ));
                    i = i + 1;
                }
                proof {
                    assert(self@.tokens.subrange(0, self@.tokens.len() as int) =~= self@.tokens);
                }
                Ok(out)
            },
            Option::None => {
                while i < self.tokens.len()
                    invariant
                        0 <= i <= self.tokens@.len(),
                        out@.len() == i,
                        forall|j: int| 0 <= j < i ==> out@[j]@ == self.tokens@[j]@,
                    decreases self.tokens@.len() - i,
                {
                    out.push(clone_token(&self.tokens[i]));
                    i = i + 1;
                }
                proof {
                    assert(tokens_view(out@) =~= self@.tokens);
                }
                Ok(out)
            },
        }
    }

    /// The first key of the project with this name, after trimming the name
    /// selector; a blank name finds nothing. The project id is compared raw.
    pub fn find_key_in_project(&self, project_id: &str, key_name: &str) -> (r: Result<
        Option<KeyEntry>,
        VaultError,
    >)
        ensures
            r matches Ok(o) && match o {
                Option::Some(k) => !is_blank(key_name@) && Option::Some(k@) == first_where(
                    self@.keys,
                    by_key_in_project(project_id@, trim_spec(key_name@)),
                ),
                Option::None => is_blank(key_name@) || first_where(
                    self@.keys,
                    by_key_in_project(project_id@, trim_spec(key_name@)),
                ) is None,
            },
    {
        let t = trim_str(key_name);
        if t.as_str().unicode_len() == 0 {
            return Ok(Option::None);
        }
        let ghost pred = by_key_in_project(project_id@, t@);
        let mut i: usize = 0;
        while i < self.keys.len()
            invariant
                0 <= i <= self.keys@.len(),
                t@ == trim_spec(key_name@),
                t@.len() > 0,
                pred == by_key_in_project(project_id@, t@),
                forall|j: int| 0 <= j < i ==> !pred(self@.keys[j]),
            decreases self.keys@.len() - i,
        {
            assert(self@.keys[i as int] == self.keys@[i as int]@);
            if str_eq(self.keys[i].project_id.as_str(), project_id) && self.keys[i].name.eq(&t) {
                proof {
                    assert(pred(self@.keys[i as int]));
                    lemma_first_where_skip(self@.keys, pred, i as int);
                    assert(!is_blank(key_name@));
                }
                return Ok(Option::Some(clone_key(&self.keys[i])));
            }
            i = i + 1;
        }
        proof {
            lemma_first_where_skip(self@.keys, pred, self@.keys.len() as int);
        }
        Ok(Option::None)
    }

    /// The secret material of a key (raw id comparison).
    pub fn get_key_material(&self, key_id: &str) -> (r: Result<String, VaultError>)
        ensures
            match r {
                Ok(m) => lookup_secret(self@.key_material, key_id@) == Option::Some(m@),
                Err(e) => lookup_secret(self@.key_material, key_id@) is None && e.kind
                    == VaultErrorKind::NotFound,
            },
    {
        let mut i: usize = 0;
        while i < self.key_material.len()
            invariant
                0 <= i <= self.key_material@.len(),
                forall|j: int| 0 <= j < i ==> !by_secret_id(key_id@)(self@.key_material[j]),
            decreases self.key_material@.len() - i,
        {
            assert(self@.key_material[i as int] == self.key_material@[i as int]@);
            if str_eq(self.key_material[i].id.as_str(), key_id) {
                proof {
                    lemma_first_where_skip(self@.key_material, by_secret_id(key_id@), i as int);
                }
                return Ok(self.key_material[i].value.clone());
            }
            i = i + 1;
        }
        proof {
            lemma_first_where_skip(
                self@.key_material,
                by_secret_id(key_id@),
                self@.key_material.len() as int,
            );
        }
        Err(VaultError::not_found("key material not found"))
    }

    /// The secret text of a token (raw id comparison).
    pub fn get_token_material(&self, token_id: &str) -> (r: Result<String, VaultError>)
        ensures
            match r {
                Ok(m) => lookup_secret(self@.token_material, token_id@) == Option::Some(m@),
                Err(e) => lookup_secret(self@.token_material, token_id@) is None && e.kind
                    == VaultErrorKind::NotFound,
            },
    {
        let mut i: usize = 0;
        while i < self.token_material.len()
            invariant
                0 <= i <= self.token_material@.len(),
                forall|j: int| 0 <= j < i ==> !by_secret_id(token_id@)(self@.token_material[j]),
            decreases self.token_material@.len() - i,
        {
            assert(self@.token_material[i as int] == self.token_material@[i as int]@);
            if str_eq(self.token_material[i].id.as_str(), token_id) {
                proof {
                    lemma_first_where_skip(
                        self@.token_material,
                        by_secret_id(token_id@),
                        i as int,
                    );
                }
                return Ok(self.token_material[i].value.clone());
            }
            i = i + 1;
        }
        proof {
            lemma_first_where_skip(
                self@.token_material,
                by_secret_id(token_id@),
                self@.token_material.len() as int,
            );
        }
        Err(VaultError::not_found("token material not found"))
    }
}

/// The view of an optional borrowed string selector.
pub open spec fn opt_sv(o: Option<&str>) -> Option<Seq<char>> {
    match o {
        Option::Some(s) => Option::Some(s@),
        Option::None => Option::None,
    }
}

/// The generated name of a key added with a blank name: `key-` followed by
/// the first eight characters of its id.
pub open spec fn default_key_name(id: Seq<char>) -> Seq<char> {
    if id.len() <= 8 {
        "key-"@ + id
    } else {
        "key-"@ + id.subrange(0, 8)
    }
}

/// The project map applied by `set_default_key`.
pub open spec fn with_default(pid: Seq<char>, kid: Option<Seq<char>>) -> spec_fn(ProjectV) -> ProjectV {
    |p: ProjectV|
        if p.id == pid {
            ProjectV { default_key_id: kid, ..p }
        } else {
            p
        }
}

/// The project map applied when the key with this id is deleted: a default
/// pointer at that key is cleared.
pub open spec fn clear_default_at(kid: Seq<char>) -> spec_fn(ProjectV) -> ProjectV {
    |p: ProjectV|
        if p.default_key_id == Option::Some(kid) {
            ProjectV { default_key_id: Option::None, ..p }
        } else {
            p
        }
}

impl Vault {
    /// Whether some project carries this (trimmed) name.
    fn name_taken(&self, name: &String) -> (r: bool)
        ensures
            r == has_project_name(self@.projects, name@),
    {
        let mut i: usize = 0;
        while i < self.projects.len()
            invariant
                0 <= i <= self.projects@.len(),
                forall|j: int| 0 <= j < i ==> (#[trigger] self@.projects[j].name) != name@,
            decreases self.projects@.len() - i,
        {
            assert(self@.projects[i as int] == self.projects@[i as int]@);
            if self.projects[i].name.eq(name) {
                assert(self@.projects[i as int].name == name@);
                return true;
            }
            i = i + 1;
        }
        false
    }

    /// Whether some project carries this id.
    fn project_id_taken(&self, id: &String) -> (r: bool)
        ensures
            r == has_project_id(self@.projects, id@),
    {
        let mut i: usize = 0;
        while i < self.projects.len()
            invariant
                0 <= i <= self.projects@.len(),
                forall|j: int| 0 <= j < i ==> (#[trigger] self@.projects[j].id) != id@,
            decreases self.projects@.len() - i,
        {
            assert(self@.projects[i as int] == self.projects@[i as int]@);
            if self.projects[i].id.eq(id) {
                assert(self@.projects[i as int].id == id@);
                return true;
            }
            i = i + 1;
        }
        false
    }

    /// Whether some key carries this id.
    fn key_id_taken(&self, id: &String) -> (r: bool)
        ensures
            r == has_key_id(self@.keys, id@),
    {
        let mut i: usize = 0;
        while i < self.keys.len()
            invariant
                0 <= i <= self.keys@.len(),
                forall|j: int| 0 <= j < i ==> (#[trigger] self@.keys[j].id) != id@,
            decreases self.keys@.len() - i,
        {
            assert(self@.keys[i as int] == self.keys@[i as int]@);
            if self.keys[i].id.eq(id) {
                assert(self@.keys[i as int].id == id@);
                return true;
            }
            i = i + 1;
        }
        false
    }

    /// Whether some token carries this id.
    fn token_id_taken(&self, id: &String) -> (r: bool)
        ensures
            r == has_token_id(self@.tokens, id@),
    {
        let mut i: usize = 0;
        while i < self.tokens.len()
            invariant
                0 <= i <= self.tokens@.len(),
                forall|j: int| 0 <= j < i ==> (#[trigger] self@.tokens[j].id) != id@,
            decreases self.tokens@.len() - i,
        {
            assert(self@.tokens[i as int] == self.tokens@[i as int]@);
            if self.tokens[i].id.eq(id) {
                assert(self@.tokens[i as int].id == id@);
                return true;
            }
            i = i + 1;
        }
        false
    }

    /// Create a project under a caller-chosen id and creation time.
    ///
    /// The name is trimmed and must be non-empty and unused; the description
    /// is trimmed and dropped when blank; the tags are trimmed, blank ones
    /// dropped, duplicates removed keeping input order.
    pub fn add_project_at(&mut self, id: String, created_at: i64, input: ProjectInput) -> (r:
        Result<ProjectEntry, VaultError>)
        requires
            vault_wf(old(self)@),
        ensures
            vault_wf(final(self)@),
            ({
                let nm = trim_spec(input.name@);
                match r {
                    Ok(p) => {
                        &&& nm.len() > 0
                        &&& !has_project_name(old(self)@.projects, nm)
                        &&& !has_project_id(old(self)@.projects, id@)
                        &&& p@ == (ProjectV {
                            id: id@,
                            name: nm,
                            created_at: created_at as int,
                            default_key_id: Option::None,
                            description: norm_opt_spec(opt_view(input.description)),
                            tags: norm_tags_spec(strings_view(input.tags@)),
                        })
                        &&& final(self)@ == (VaultV {
                            projects: old(self)@.projects.push(p@),
                            ..old(self)@
                        })
                    },
                    Err(e) => {
                        &&& final(self)@ == old(self)@
                        &&& (e.kind == VaultErrorKind::InvalidInput <==> nm.len() == 0)
                        &&& (e.kind == VaultErrorKind::Conflict <==> nm.len() > 0
                            && has_project_name(old(self)@.projects, nm))
                        &&& (e.kind == VaultErrorKind::InvalidInput
                            || e.kind == VaultErrorKind::Conflict
                            || e.kind == VaultErrorKind::StorageFailure)
                    },
                }
            }),
    {
        let name = trim_string(&input.name);
        if name.as_str().unicode_len() == 0 {
            return Err(VaultError::invalid_input("project name is required"));
        }
        if self.name_taken(&name) {
            return Err(VaultError::conflict("project already exists"));
        }
        if self.project_id_taken(&id) {
            return Err(VaultError::storage_failure("project id already in use"));
        }
        let row = ProjectEntry {
            id,
            name,
            created_at,
            default_key_id: Option::None,
            description: normalize_opt_string(input.description),
            tags: normalize_tags(input.tags),
        };
        let out = clone_project(&row);
        let ghost ps = self@.projects.push(row@);
        proof {
            assert forall|a: int, b: int| 0 <= a < b < ps.len() implies ps[a].id != ps[b].id by {
                if b == ps.len() - 1 {
                    assert(self@.projects[a].id != row@.id);
                }
            }
            assert forall|a: int, b: int| 0 <= a < b < ps.len() implies ps[a].name != ps[b].name by {
                if b == ps.len() - 1 {
                    assert(self@.projects[a].name != row@.name);
                }
            }
        }
        self.projects.push(row);
        proof {
            assert(final(self)@.projects =~= old(self)@.projects.push(out@));
            assert(final(self)@ == (VaultV {
                projects: old(self)@.projects.push(out@),
                ..old(self)@
            }));
        }
        Ok(out)
    }

    /// Create a project with a fresh random id, stamped with the current
    /// time. Apart from the choice of id and time this behaves exactly like
    /// `add_project_at`; an id collision is reported as a storage failure.
    pub fn add_project(&mut self, input: ProjectInput) -> (r: Result<ProjectEntry, VaultError>)
        requires
            vault_wf(old(self)@),
        ensures
            vault_wf(final(self)@),
            ({
                let nm = trim_spec(input.name@);
                match r {
                    Ok(p) => {
                        &&& nm.len() > 0
                        &&& !has_project_name(old(self)@.projects, nm)
                        &&& p@.name == nm
                        &&& p@.default_key_id is None
                        &&& p@.description == norm_opt_spec(opt_view(input.description))
                        &&& p@.tags == norm_tags_spec(strings_view(input.tags@))
                        &&& !has_project_id(old(self)@.projects, p@.id)
                        &&& final(self)@ == (VaultV {
                            projects: old(self)@.projects.push(p@),
                            ..old(self)@
                        })
                    },
                    Err(e) => {
                        &&& final(self)@ == old(self)@
                        &&& (e.kind == VaultErrorKind::InvalidInput <==> nm.len() == 0)
                        &&& (e.kind == VaultErrorKind::Conflict <==> nm.len() > 0
                            && has_project_name(old(self)@.projects, nm))
                        &&& (e.kind == VaultErrorKind::InvalidInput
                            || e.kind == VaultErrorKind::Conflict
                            || e.kind == VaultErrorKind::StorageFailure)
                    },
                }
            }),
    {
        let id = new_uuid();
        let created_at = now_unix();
        self.add_project_at(id, created_at, input)
    }

    /// Overwrite a project's default-key pointer, without checking that the
    /// key exists or belongs to the project; that validation is the caller's.
    /// Fails with `NotFound` when no project carries this id.
    pub fn set_default_key(&mut self, project_id: &str, key_id: Option<&str>) -> (r: Result<
        (),
        VaultError,
    >)
        requires
            vault_wf(old(self)@),
        ensures
            vault_wf(final(self)@),
            match r {
                Ok(_) => {
                    &&& has_project_id(old(self)@.projects, project_id@)
                    &&& final(self)@ == (VaultV {
                        projects: old(self)@.projects.map_values(
                            with_default(project_id@, opt_sv(key_id)),
                        ),
                        ..old(self)@
                    })
                },
                Err(e) => {
                    &&& final(self)@ == old(self)@
                    &&& e.kind == VaultErrorKind::NotFound
                    &&& !has_project_id(old(self)@.projects, project_id@)
                },
            },
    {
        if !self.project_id_taken_str(project_id) {
            return Err(VaultError::not_found("project not found"));
        }
        let ghost f = with_default(project_id@, opt_sv(key_id));
        let mut out: Vec<ProjectEntry> = Vec::new();
        let mut i: usize = 0;
        while i < self.projects.len()
            invariant
                0 <= i <= self.projects@.len(),
                f == with_default(project_id@, opt_sv(key_id)),
                out@.len() == i,
                forall|j: int| 0 <= j < i ==> out@[j]@ == f(self@.projects[j]),
            decreases self.projects@.len() - i,
        {
            assert(self@.projects[i as int] == self.projects@[i as int]@);
            let p = &self.projects[i];
            if str_eq(p.id.as_str(), project_id) {
                let nk = match key_id {
                    Option::Some(k) => Option::Some(k.to_owned()),
                    Option::None => Option::None,
                };
                out.push(ProjectEntry {
                    id: p.id.clone(),
                    name: p.name.clone(),
                    created_at: p.created_at,
                    default_key_id: nk,
                    description: clone_opt_string(&p.description),
                    tags: clone_strings(&p.tags),
                });
            } else {
                out.push(clone_project(p));
            }
            i = i + 1;
        }
        proof {
            assert(projects_view(out@) =~= old(self)@.projects.map_values(f));
            let ps = old(self)@.projects.map_values(f);
            assert forall|a: int, b: int| 0 <= a < b < ps.len() implies ps[a].id != ps[b].id
                && ps[a].name != ps[b].name by {
                assert(old(self)@.projects[a].id != old(self)@.projects[b].id);
                assert(old(self)@.projects[a].name != old(self)@.projects[b].name);
                assert(ps[a] == f(old(self)@.projects[a]));
                assert(ps[b] == f(old(self)@.projects[b]));
            }
        }
        self.projects = out;
        Ok(())
    }

    /// Whether some project carries this borrowed id.
    fn project_id_taken_str(&self, id: &str) -> (r: bool)
        ensures
            r == has_project_id(self@.projects, id@),
    {
        let mut i: usize = 0;
        while i < self.projects.len()
            invariant
                0 <= i <= self.projects@.len(),
                forall|j: int| 0 <= j < i ==> (#[trigger] self@.projects[j].id) != id@,
            decreases self.projects@.len() - i,
        {
            assert(self@.projects[i as int] == self.projects@[i as int]@);
            if str_eq(self.projects[i].id.as_str(), id) {
                assert(self@.projects[i as int].id == id@);
                return true;
            }
            i = i + 1;
        }
        false
    }

    /// Remove every project, key, token and all secret material.
    pub fn clear_all(&mut self) -> (r: Result<(), VaultError>)
        ensures
            r is Ok,
            vault_empty(final(self)@),
            vault_wf(final(self)@),
    {
        self.projects = Vec::new();
        self.keys = Vec::new();
        self.tokens = Vec::new();
        self.key_material = Vec::new();
        self.token_material = Vec::new();
        Ok(())
    }
}


/// Whether some key of this project carries this id.
pub open spec fn key_of_project_with_id(ks: Seq<KeyV>, pid: Seq<char>, id: Seq<char>) -> bool {
    exists|j: int|
        0 <= j < ks.len() && (#[trigger] ks[j]).project_id == pid && ks[j].id == id
}

/// Whether some token of this project carries this id.
pub open spec fn token_of_project_with_id(ts: Seq<TokenV>, pid: Seq<char>, id: Seq<char>) -> bool {
    exists|j: int|
        0 <= j < ts.len() && (#[trigger] ts[j]).project_id == pid && ts[j].id == id
}

/// Secrets kept when a project is deleted: those whose owner is not one of
/// the project's keys.
pub open spec fn keep_secret_no_deleted_key(ks: Seq<KeyV>, pid: Seq<char>) -> spec_fn(SecretV) -> bool {
    |m: SecretV| !key_of_project_with_id(ks, pid, m.id)
}

/// Secrets kept when a project is deleted: those whose owner is not one of
/// the project's tokens.
pub open spec fn keep_secret_no_deleted_token(ts: Seq<TokenV>, pid: Seq<char>) -> spec_fn(SecretV) -> bool {
    |m: SecretV| !token_of_project_with_id(ts, pid, m.id)
}

/// Projects kept when a project is deleted.
pub open spec fn keep_project_not(pid: Seq<char>) -> spec_fn(ProjectV) -> bool {
    |p: ProjectV| p.id != pid
}

/// The project map applied when a project is deleted: a default pointer at
/// one of the deleted project's keys is cleared.
pub open spec fn clear_default_deleted(ks: Seq<KeyV>, pid: Seq<char>) -> spec_fn(ProjectV) -> ProjectV {
    |p: ProjectV|
        match p.default_key_id {
            Option::Some(d) => if key_of_project_with_id(ks, pid, d) {
                ProjectV { default_key_id: Option::None, ..p }
            } else {
                p
            },
            Option::None => p,
        }
}

/// A secret kept by the filter is still found.
proof fn lemma_has_secret_filter(ms: Seq<SecretV>, pred: spec_fn(SecretV) -> bool, id: Seq<char>, j: int)
    requires
        0 <= j < ms.len(),
        ms[j].id == id,
        pred(ms[j]),
    ensures
        has_secret(ms.filter(pred), id),
{
    ms.lemma_filter_contains(pred, j);
    let k = choose|k: int| 0 <= k < ms.filter(pred).len() && ms.filter(pred)[k] == ms[j];
    assert(ms.filter(pred)[k].id == id);
}

/// A key kept by the filter is still found.
proof fn lemma_has_key_filter(ks: Seq<KeyV>, pred: spec_fn(KeyV) -> bool, id: Seq<char>, j: int)
    requires
        0 <= j < ks.len(),
        ks[j].id == id,
        pred(ks[j]),
    ensures
        has_key_id(ks.filter(pred), id),
{
    ks.lemma_filter_contains(pred, j);
    let k = choose|k: int| 0 <= k < ks.filter(pred).len() && ks.filter(pred)[k] == ks[j];
    assert(ks.filter(pred)[k].id == id);
}

/// A token kept by the filter is still found.
proof fn lemma_has_token_filter(ts: Seq<TokenV>, pred: spec_fn(TokenV) -> bool, id: Seq<char>, j: int)
    requires
        0 <= j < ts.len(),
        ts[j].id == id,
        pred(ts[j]),
    ensures
        has_token_id(ts.filter(pred), id),
{
    ts.lemma_filter_contains(pred, j);
    let k = choose|k: int| 0 <= k < ts.filter(pred).len() && ts.filter(pred)[k] == ts[j];
    assert(ts.filter(pred)[k].id == id);
}

impl Vault {
    /// Whether some key of the project carries this id (both compared raw).
    fn key_of_project_with_id_exec(&self, pid: &str, id: &String) -> (r: bool)
        ensures
            r == key_of_project_with_id(self@.keys, pid@, id@),
    {
        let mut i: usize = 0;
        while i < self.keys.len()
            invariant
                0 <= i <= self.keys@.len(),
                forall|j: int|
                    0 <= j < i ==> !((#[trigger] self@.keys[j]).project_id == pid@
                        && self@.keys[j].id == id@),
            decreases self.keys@.len() - i,
        {
            assert(self@.keys[i as int] == self.keys@[i as int]@);
            if str_eq(self.keys[i].project_id.as_str(), pid) && self.keys[i].id.eq(id) {
                assert(self@.keys[i as int].project_id == pid@ && self@.keys[i as int].id == id@);
                return true;
            }
            i = i + 1;
        }
        false
    }

    /// Whether some token of the project carries this id (both compared raw).
    fn token_of_project_with_id_exec(&self, pid: &str, id: &String) -> (r: bool)
        ensures
            r == token_of_project_with_id(self@.tokens, pid@, id@),
    {
        let mut i: usize = 0;
        while i < self.tokens.len()
            invariant
                0 <= i <= self.tokens@.len(),
                forall|j: int|
                    0 <= j < i ==> !((#[trigger] self@.tokens[j]).project_id == pid@
                        && self@.tokens[j].id == id@),
            decreases self.tokens@.len() - i,
        {
            assert(self@.tokens[i as int] == self.tokens@[i as int]@);
            if str_eq(self.tokens[i].project_id.as_str(), pid) && self.tokens[i].id.eq(id) {
                assert(self@.tokens[i as int].project_id == pid@ && self@.tokens[i as int].id
                    == id@);
                return true;
            }
            i = i + 1;
        }
        false
    }

    /// Delete a key: its record and secret material go, and any project whose
    /// default-key pointer named it has that pointer cleared. Deleting an
    /// absent key is not an error.
    pub fn delete_key(&mut self, key_id: &str) -> (r: Result<(), VaultError>)
        requires
            vault_wf(old(self)@),
        ensures
            vault_wf(final(self)@),
            r is Ok,
            final(self)@ == (VaultV {
                projects: old(self)@.projects.map_values(clear_default_at(key_id@)),
                keys: old(self)@.keys.filter(keep_key_not(key_id@)),
                key_material: old(self)@.key_material.filter(keep_secret_not(key_id@)),
                ..old(self)@
            }),
    {
        let ghost kf = keep_key_not(key_id@);
        let ghost mf = keep_secret_not(key_id@);
        let ghost pf = clear_default_at(key_id@);

        let mut new_keys: Vec<KeyEntry> = Vec::new();
        let mut i: usize = 0;
        while i < self.keys.len()
            invariant
                0 <= i <= self.keys@.len(),
                kf == keep_key_not(key_id@),
                keys_view(new_keys@) == self@.keys.subrange(0, i as int).filter(kf),
            decreases self.keys@.len() - i,
        {
            let ghost pre = self@.keys.subrange(0, i as int);
            let ghost cur = self.keys@[i as int]@;
            assert(self@.keys.subrange(0, i + 1) =~= pre.push(cur));
            if !str_eq(self.keys[i].id.as_str(), key_id) {
                new_keys.push(clone_key(&self.keys[i]));
                assert(keys_view(new_keys@) =~= pre.filter(kf).push(cur));
                assert(kf(cur));
            } else {
                assert(!kf(cur));
            }
            assert(keys_view(new_keys@) == self@.keys.subrange(0, i + 1).filter(kf));
            i = i + 1;
        }
        assert(self@.keys.subrange(0, self@.keys.len() as int) =~= self@.keys);

        let mut new_mat: Vec<SecretEntry> = Vec::new();
        let mut i: usize = 0;
        while i < self.key_material.len()
            invariant
                0 <= i <= self.key_material@.len(),
                mf == keep_secret_not(key_id@),
                secrets_view(new_mat@) == self@.key_material.subrange(0, i as int).filter(mf),
            decreases self.key_material@.len() - i,
        {
            let ghost pre = self@.key_material.subrange(0, i as int);
            let ghost cur = self.key_material@[i as int]@;
            assert(self@.key_material.subrange(0, i + 1) =~= pre.push(cur));
            if !str_eq(self.key_material[i].id.as_str(), key_id) {
                new_mat.push(SecretEntry {
                    id: self.key_material[i].id.clone(),
                    value: self.key_material[i].value.clone(),
                });
                assert(secrets_view(new_mat@) =~= pre.filter(mf).push(cur));
                assert(mf(cur));
            } else {
                assert(!mf(cur));
            }
            assert(secrets_view(new_mat@) == self@.key_material.subrange(0, i + 1).filter(mf));
            i = i + 1;
        }
        assert(self@.key_material.subrange(0, self@.key_material.len() as int)
            =~= self@.key_material);

        let mut new_projects: Vec<ProjectEntry> = Vec::new();
        let mut i: usize = 0;
        while i < self.projects.len()
            invariant
                0 <= i <= self.projects@.len(),
                pf == clear_default_at(key_id@),
                new_projects@.len() == i,
                forall|j: int| 0 <= j < i ==> new_projects@[j]@ == pf(self@.projects[j]),
            decreases self.projects@.len() - i,
        {
            assert(self@.projects[i as int] == self.projects@[i as int]@);
            let p = &self.projects[i];
            let clears = match &p.default_key_id {
                Option::Some(d) => str_eq(d.as_str(), key_id),
                Option::None => false,
            };
            if clears {
                new_projects.push(ProjectEntry {
                    id: p.id.clone(),
                    name: p.name.clone(),
                    created_at: p.created_at,
                    default_key_id: Option::None,
                    description: clone_opt_string(&p.description),
                    tags: clone_strings(&p.tags),
                });
            } else {
                new_projects.push(clone_project(p));
            }
            i = i + 1;
        }

        proof {
            let oldv = old(self)@;
            assert(projects_view(new_projects@) =~= oldv.projects.map_values(pf));
            lemma_filter_keys(oldv.keys, kf);
            lemma_filter_secrets(oldv.key_material, mf);
            let ps = oldv.projects.map_values(pf);
            assert forall|a: int, b: int| 0 <= a < b < ps.len() implies ps[a].id != ps[b].id
                && ps[a].name != ps[b].name by {
                assert(oldv.projects[a].id != oldv.projects[b].id);
                assert(oldv.projects[a].name != oldv.projects[b].name);
                assert(ps[a] == pf(oldv.projects[a]));
                assert(ps[b] == pf(oldv.projects[b]));
            }
            let ks = oldv.keys.filter(kf);
            let ms = oldv.key_material.filter(mf);
            assert forall|a: int| 0 <= a < ks.len() implies has_secret(ms, (ks[a]).id) by {
                assert(oldv.keys.contains(ks[a]));
                let j = choose|j: int| 0 <= j < oldv.keys.len() && oldv.keys[j] == ks[a];
                assert(has_secret(oldv.key_material, oldv.keys[j].id));
                let m = choose|m: int|
                    0 <= m < oldv.key_material.len() && (#[trigger] oldv.key_material[m].id)
                        == oldv.keys[j].id;
                assert(kf(ks[a]));
                lemma_has_secret_filter(oldv.key_material, mf, ks[a].id, m);
            }
            assert forall|a: int| 0 <= a < ms.len() implies has_key_id(ks, (ms[a]).id) by {
                assert(oldv.key_material.contains(ms[a]));
                let j = choose|j: int|
                    0 <= j < oldv.key_material.len() && oldv.key_material[j] == ms[a];
                assert(has_key_id(oldv.keys, oldv.key_material[j].id));
                let m = choose|m: int|
                    0 <= m < oldv.keys.len() && (#[trigger] oldv.keys[m].id)
                        == oldv.key_material[j].id;
                assert(mf(ms[a]));
                lemma_has_key_filter(oldv.keys, kf, ms[a].id, m);
            }
        }
        self.keys = new_keys;
        self.key_material = new_mat;
        self.projects = new_projects;
        Ok(())
    }

    /// Delete a token and its secret text. Deleting an absent token is not
    /// an error.
    pub fn delete_token(&mut self, token_id: &str) -> (r: Result<(), VaultError>)
        requires
            vault_wf(old(self)@),
        ensures
            vault_wf(final(self)@),
            r is Ok,
            final(self)@ == (VaultV {
                tokens: old(self)@.tokens.filter(keep_token_not(token_id@)),
                token_material: old(self)@.token_material.filter(keep_secret_not(token_id@)),
                ..old(self)@
            }),
    {
        let ghost tf = keep_token_not(token_id@);
        let ghost mf = keep_secret_not(token_id@);

        let mut new_tokens: Vec<TokenEntry> = Vec::new();
        let mut i: usize = 0;
        while i < self.tokens.len()
            invariant
                0 <= i <= self.tokens@.len(),
                tf == keep_token_not(token_id@),
                tokens_view(new_tokens@) == self@.tokens.subrange(0, i as int).filter(tf),
            decreases self.tokens@.len() - i,
        {
            let ghost pre = self@.tokens.subrange(0, i as int);
            let ghost cur = self.tokens@[i as int]@;
            assert(self@.tokens.subrange(0, i + 1) =~= pre.push(cur));
            if !str_eq(self.tokens[i].id.as_str(), token_id) {
                new_tokens.push(clone_token(&self.tokens[i]));
                assert(tokens_view(new_tokens@) =~= pre.filter(tf).push(cur));
                assert(tf(cur));
            } else {
                assert(!tf(cur));
            }
            assert(tokens_view(new_tokens@) == self@.tokens.subrange(0, i + 1).filter(tf));
            i = i + 1;
        }
        assert(self@.tokens.subrange(0, self@.tokens.len() as int) =~= self@.tokens);

        let mut new_mat: Vec<SecretEntry> = Vec::new();
        let mut i: usize = 0;
        while i < self.token_material.len()
            invariant
                0 <= i <= self.token_material@.len(),
                mf == keep_secret_not(token_id@),
                secrets_view(new_mat@) == self@.token_material.subrange(0, i as int).filter(mf),
            decreases self.token_material@.len() - i,
        {
            let ghost pre = self@.token_material.subrange(0, i as int);
            let ghost cur = self.token_material@[i as int]@;
            assert(self@.token_material.subrange(0, i + 1) =~= pre.push(cur));
            if !str_eq(self.token_material[i].id.as_str(), token_id) {
                new_mat.push(SecretEntry {
                    id: self.token_material[i].id.clone(),
                    value: self.token_material[i].value.clone(),
                });
                assert(secrets_view(new_mat@) =~= pre.filter(mf).push(cur));
                assert(mf(cur));
            } else {
                assert(!mf(cur));
            }
            assert(secrets_view(new_mat@) == self@.token_material.subrange(0, i + 1).filter(mf));
            i = i + 1;
        }
        assert(self@.token_material.subrange(0, self@.token_material.len() as int)
            =~= self@.token_material);

        proof {
            let oldv = old(self)@;
            lemma_filter_tokens(oldv.tokens, tf);
            lemma_filter_secrets(oldv.token_material, mf);
            let ts = oldv.tokens.filter(tf);
            let ms = oldv.token_material.filter(mf);
            assert forall|a: int| 0 <= a < ts.len() implies has_secret(ms, (ts[a]).id) by {
                assert(oldv.tokens.contains(ts[a]));
                let j = choose|j: int| 0 <= j < oldv.tokens.len() && oldv.tokens[j] == ts[a];
                assert(has_secret(oldv.token_material, oldv.tokens[j].id));
                let m = choose|m: int|
                    0 <= m < oldv.token_material.len() && (#[trigger] oldv.token_material[m].id)
                        == oldv.tokens[j].id;
                assert(tf(ts[a]));
                lemma_has_secret_filter(oldv.token_material, mf, ts[a].id, m);
            }
            assert forall|a: int| 0 <= a < ms.len() implies has_token_id(ts, (ms[a]).id) by {
                assert(oldv.token_material.contains(ms[a]));
                let j = choose|j: int|
                    0 <= j < oldv.token_material.len() && oldv.token_material[j] == ms[a];
                assert(has_token_id(oldv.tokens, oldv.token_material[j].id));
                let m = choose|m: int|
                    0 <= m < oldv.tokens.len() && (#[trigger] oldv.tokens[m].id)
                        == oldv.token_material[j].id;
                assert(mf(ms[a]));
                lemma_has_token_filter(oldv.tokens, tf, ms[a].id, m);
            }
        }
        self.tokens = new_tokens;
        self.token_material = new_mat;
        Ok(())
    }
}


impl Vault {
    /// Delete a project: every key and token it owns goes first, with their
    /// secret material, and any default-key pointer at one of the deleted
    /// keys is cleared; then the project itself. Deleting an absent project
    /// is not an error.
    pub fn delete_project(&mut self, project_id: &str) -> (r: Result<(), VaultError>)
        requires
            vault_wf(old(self)@),
        ensures
            vault_wf(final(self)@),
            r is Ok,
            final(self)@ == (VaultV {
                projects: old(self)@.projects.filter(keep_project_not(project_id@)).map_values(
                    clear_default_deleted(old(self)@.keys, project_id@),
                ),
                keys: old(self)@.keys.filter(keep_key_not_project(project_id@)),
                tokens: old(self)@.tokens.filter(keep_token_not_project(project_id@)),
                key_material: old(self)@.key_material.filter(
                    keep_secret_no_deleted_key(old(self)@.keys, project_id@),
                ),
                token_material: old(self)@.token_material.filter(
                    keep_secret_no_deleted_token(old(self)@.tokens, project_id@),
                ),
            }),
    {
        let ghost kf = keep_key_not_project(project_id@);
        let ghost tf = keep_token_not_project(project_id@);
        let ghost kmf = keep_secret_no_deleted_key(self@.keys, project_id@);
        let ghost tmf = keep_secret_no_deleted_token(self@.tokens, project_id@);
        let ghost ppf = keep_project_not(project_id@);
        let ghost pcf = clear_default_deleted(self@.keys, project_id@);

        let mut new_key_mat: Vec<SecretEntry> = Vec::new();
        let mut i: usize = 0;
        while i < self.key_material.len()
            invariant
                0 <= i <= self.key_material@.len(),
                kmf == keep_secret_no_deleted_key(self@.keys, project_id@),
                secrets_view(new_key_mat@) == self@.key_material.subrange(0, i as int).filter(kmf),
            decreases self.key_material@.len() - i,
        {
            let ghost pre = self@.key_material.subrange(0, i as int);
            let ghost cur = self.key_material@[i as int]@;
            assert(self@.key_material.subrange(0, i + 1) =~= pre.push(cur));
            if !self.key_of_project_with_id_exec(project_id, &self.key_material[i].id) {
                new_key_mat.push(SecretEntry {
                    id: self.key_material[i].id.clone(),
                    value: self.key_material[i].value.clone(),
                });
                assert(secrets_view(new_key_mat@) =~= pre.filter(kmf).push(cur));
                assert(kmf(cur));
            } else {
                assert(!kmf(cur));
            }
            assert(secrets_view(new_key_mat@) == self@.key_material.subrange(0, i + 1).filter(kmf));
            i = i + 1;
        }
        assert(self@.key_material.subrange(0, self@.key_material.len() as int)
            =~= self@.key_material);

        let mut new_tok_mat: Vec<SecretEntry> = Vec::new();
        let mut i: usize = 0;
        while i < self.token_material.len()
            invariant
                0 <= i <= self.token_material@.len(),
                tmf == keep_secret_no_deleted_token(self@.tokens, project_id@),
                secrets_view(new_tok_mat@) == self@.token_material.subrange(0, i as int).filter(tmf),
            decreases self.token_material@.len() - i,
        {
            let ghost pre = self@.token_material.subrange(0, i as int);
            let ghost cur = self.token_material@[i as int]@;
            assert(self@.token_material.subrange(0, i + 1) =~= pre.push(cur));
            if !self.token_of_project_with_id_exec(project_id, &self.token_material[i].id) {
                new_tok_mat.push(SecretEntry {
                    id: self.token_material[i].id.clone(),
                    value: self.token_material[i].value.clone(),
                });
                assert(secrets_view(new_tok_mat@) =~= pre.filter(tmf).push(cur));
                assert(tmf(cur));
            } else {
                assert(!tmf(cur));
            }
            assert(secrets_view(new_tok_mat@) == self@.token_material.subrange(0, i + 1).filter(
                tmf,
            ));
            i = i + 1;
        }
        assert(self@.token_material.subrange(0, self@.token_material.len() as int)
            =~= self@.token_material);

        let mut new_keys: Vec<KeyEntry> = Vec::new();
        let mut i: usize = 0;
        while i < self.keys.len()
            invariant
                0 <= i <= self.keys@.len(),
                kf == keep_key_not_project(project_id@),
                keys_view(new_keys@) == self@.keys.subrange(0, i as int).filter(kf),
            decreases self.keys@.len() - i,
        {
            let ghost pre = self@.keys.subrange(0, i as int);
            let ghost cur = self.keys@[i as int]@;
            assert(self@.keys.subrange(0, i + 1) =~= pre.push(cur));
            if !str_eq(self.keys[i].project_id.as_str(), project_id) {
                new_keys.push(clone_key(&self.keys[i]));
                assert(keys_view(new_keys@) =~= pre.filter(kf).push(cur));
                assert(kf(cur));
            } else {
                assert(!kf(cur));
            }
            assert(keys_view(new_keys@) == self@.keys.subrange(0, i + 1).filter(kf));
            i = i + 1;
        }
        assert(self@.keys.subrange(0, self@.keys.len() as int) =~= self@.keys);

        let mut new_tokens: Vec<TokenEntry> = Vec::new();
        let mut i: usize = 0;
        while i < self.tokens.len()
            invariant
                0 <= i <= self.tokens@.len(),
                tf == keep_token_not_project(project_id@),
                tokens_view(new_tokens@) == self@.tokens.subrange(0, i as int).filter(tf),
            decreases self.tokens@.len() - i,
        {
            let ghost pre = self@.tokens.subrange(0, i as int);
            let ghost cur = self.tokens@[i as int]@;
            assert(self@.tokens.subrange(0, i + 1) =~= pre.push(cur));
            if !str_eq(self.tokens[i].project_id.as_str(), project_id) {
                new_tokens.push(clone_token(&self.tokens[i]));
                assert(tokens_view(new_tokens@) =~= pre.filter(tf).push(cur));
                assert(tf(cur));
            } else {
                assert(!tf(cur));
            }
            assert(tokens_view(new_tokens@) == self@.tokens.subrange(0, i + 1).filter(tf));
            i = i + 1;
        }
        assert(self@.tokens.subrange(0, self@.tokens.len() as int) =~= self@.tokens);

        let mut new_projects: Vec<ProjectEntry> = Vec::new();
        let mut i: usize = 0;
        while i < self.projects.len()
            invariant
                0 <= i <= self.projects@.len(),
                ppf == keep_project_not(project_id@),
                pcf == clear_default_deleted(self@.keys, project_id@),
                projects_view(new_projects@) == self@.projects.subrange(0, i as int).filter(
                    ppf,
                ).map_values(pcf),
            decreases self.projects@.len() - i,
        {
            let ghost pre = self@.projects.subrange(0, i as int);
            let ghost cur = self.projects@[i as int]@;
            assert(self@.projects.subrange(0, i + 1) =~= pre.push(cur));
            let p = &self.projects[i];
            if !str_eq(p.id.as_str(), project_id) {
                assert(ppf(cur));
                let clears = match &p.default_key_id {
                    Option::Some(d) => self.key_of_project_with_id_exec(project_id, d),
                    Option::None => false,
                };
                if clears {
                    new_projects.push(ProjectEntry {
                        id: p.id.clone(),
                        name: p.name.clone(),
                        created_at: p.created_at,
                        default_key_id: Option::None,
                        description: clone_opt_string(&p.description),
                        tags: clone_strings(&p.tags),
                    });
                } else {
                    new_projects.push(clone_project(p));
                }
                assert(new_projects@.last()@ == pcf(cur));
                assert(projects_view(new_projects@) =~= pre.filter(ppf).map_values(pcf).push(
                    pcf(cur),
                ));
                assert(pre.filter(ppf).push(cur).map_values(pcf) =~= pre.filter(ppf).map_values(
                    pcf,
                ).push(pcf(cur)));
            } else {
                assert(!ppf(cur));
            }
            assert(projects_view(new_projects@) == self@.projects.subrange(0, i + 1).filter(
                ppf,
            ).map_values(pcf));
            i = i + 1;
        }
        assert(self@.projects.subrange(0, self@.projects.len() as int) =~= self@.projects);

        proof {
            let oldv = old(self)@;
            lemma_filter_projects(oldv.projects, ppf);
            lemma_filter_keys(oldv.keys, kf);
            lemma_filter_tokens(oldv.tokens, tf);
            lemma_filter_secrets(oldv.key_material, kmf);
            lemma_filter_secrets(oldv.token_material, tmf);
            let ps = oldv.projects.filter(ppf).map_values(pcf);
            let psf = oldv.projects.filter(ppf);
            assert forall|a: int, b: int| 0 <= a < b < ps.len() implies ps[a].id != ps[b].id
                && ps[a].name != ps[b].name by {
                assert(psf[a].id != psf[b].id);
                assert(psf[a].name != psf[b].name);
                assert(ps[a] == pcf(psf[a]));
                assert(ps[b] == pcf(psf[b]));
            }
            let ks = oldv.keys.filter(kf);
            let ms = oldv.key_material.filter(kmf);
            assert forall|a: int| 0 <= a < ks.len() implies has_secret(ms, (ks[a]).id) by {
                assert(oldv.keys.contains(ks[a]));
                let j = choose|j: int| 0 <= j < oldv.keys.len() && oldv.keys[j] == ks[a];
                assert(has_secret(oldv.key_material, oldv.keys[j].id));
                let m = choose|m: int|
                    0 <= m < oldv.key_material.len() && (#[trigger] oldv.key_material[m].id)
                        == oldv.keys[j].id;
                assert(kf(ks[a]));
                if key_of_project_with_id(oldv.keys, project_id@, oldv.key_material[m].id) {
                    let b = choose|b: int|
                        0 <= b < oldv.keys.len() && (#[trigger] oldv.keys[b]).project_id
                            == project_id@ && oldv.keys[b].id == oldv.key_material[m].id;
                    if b != j {
                        assert(oldv.keys[b].id != oldv.keys[j].id);
                    }
                    assert(false);
                }
                lemma_has_secret_filter(oldv.key_material, kmf, ks[a].id, m);
            }
            assert forall|a: int| 0 <= a < ms.len() implies has_key_id(ks, (ms[a]).id) by {
                assert(oldv.key_material.contains(ms[a]));
                let j = choose|j: int|
                    0 <= j < oldv.key_material.len() && oldv.key_material[j] == ms[a];
                assert(has_key_id(oldv.keys, oldv.key_material[j].id));
                let b = choose|b: int|
                    0 <= b < oldv.keys.len() && (#[trigger] oldv.keys[b].id)
                        == oldv.key_material[j].id;
                assert(kmf(ms[a]));
                assert(oldv.keys[b].project_id != project_id@);
                lemma_has_key_filter(oldv.keys, kf, ms[a].id, b);
            }
            let ts = oldv.tokens.filter(tf);
            let tms = oldv.token_material.filter(tmf);
            assert forall|a: int| 0 <= a < ts.len() implies has_secret(tms, (ts[a]).id) by {
                assert(oldv.tokens.contains(ts[a]));
                let j = choose|j: int| 0 <= j < oldv.tokens.len() && oldv.tokens[j] == ts[a];
                assert(has_secret(oldv.token_material, oldv.tokens[j].id));
                let m = choose|m: int|
                    0 <= m < oldv.token_material.len() && (#[trigger] oldv.token_material[m].id)
                        == oldv.tokens[j].id;
                assert(tf(ts[a]));
                if token_of_project_with_id(oldv.tokens, project_id@, oldv.token_material[m].id) {
                    let b = choose|b: int|
                        0 <= b < oldv.tokens.len() && (#[trigger] oldv.tokens[b]).project_id
                            == project_id@ && oldv.tokens[b].id == oldv.token_material[m].id;
                    if b != j {
                        assert(oldv.tokens[b].id != oldv.tokens[j].id);
                    }
                    assert(false);
                }
                lemma_has_secret_filter(oldv.token_material, tmf, ts[a].id, m);
            }
            assert forall|a: int| 0 <= a < tms.len() implies has_token_id(ts, (tms[a]).id) by {
                assert(oldv.token_material.contains(tms[a]));
                let j = choose|j: int|
                    0 <= j < oldv.token_material.len() && oldv.token_material[j] == tms[a];
                assert(has_token_id(oldv.tokens, oldv.token_material[j].id));
                let b = choose|b: int|
                    0 <= b < oldv.tokens.len() && (#[trigger] oldv.tokens[b].id)
                        == oldv.token_material[j].id;
                assert(tmf(tms[a]));
                assert(oldv.tokens[b].project_id != project_id@);
                lemma_has_token_filter(oldv.tokens, tf, tms[a].id, b);
            }
        }
        self.key_material = new_key_mat;
        self.token_material = new_tok_mat;
        self.keys = new_keys;
        self.tokens = new_tokens;
        self.projects = new_projects;
        Ok(())
    }
}


impl Vault {
    /// Create a key under a caller-chosen id and creation time.
    ///
    /// The owning project id and the secret must be non-blank (both are
    /// stored raw); a blank name is replaced by a generated one; the kid,
    /// description and tags are normalized; the kind is stored raw.
    pub fn add_key_at(&mut self, id: String, created_at: i64, input: KeyEntryInput) -> (r: Result<
        KeyEntry,
        VaultError,
    >)
        requires
            vault_wf(old(self)@),
        ensures
            vault_wf(final(self)@),
            ({
                let pid_ok = trim_spec(input.project_id@).len() > 0;
                let sec_ok = trim_spec(input.secret@).len() > 0;
                match r {
                    Ok(k) => {
                        &&& pid_ok
                        &&& sec_ok
                        &&& !has_key_id(old(self)@.keys, id@)
                        &&& k@ == (KeyV {
                            id: id@,
                            project_id: input.project_id@,
                            name: if trim_spec(input.name@).len() == 0 {
                                default_key_name(id@)
                            } else {
                                trim_spec(input.name@)
                            },
                            kind: input.kind@,
                            created_at: created_at as int,
                            kid: norm_opt_spec(opt_view(input.kid)),
                            description: norm_opt_spec(opt_view(input.description)),
                            tags: norm_tags_spec(strings_view(input.tags@)),
                        })
                        &&& final(self)@ == (VaultV {
                            keys: old(self)@.keys.push(k@),
                            key_material: old(self)@.key_material.push(
                                SecretV { id: id@, value: input.secret@ },
                            ),
                            ..old(self)@
                        })
                    },
                    Err(e) => {
                        &&& final(self)@ == old(self)@
                        &&& (e.kind == VaultErrorKind::InvalidInput <==> (!pid_ok || !sec_ok))
                        &&& (e.kind == VaultErrorKind::StorageFailure <==> pid_ok && sec_ok
                            && has_key_id(old(self)@.keys, id@))
                        &&& (e.kind == VaultErrorKind::InvalidInput || e.kind
                            == VaultErrorKind::StorageFailure)
                    },
                }
            }),
    {
        let pid_t = trim_string(&input.project_id);
        if pid_t.as_str().unicode_len() == 0 {
            return Err(VaultError::invalid_input("project_id is required"));
        }
        let sec_t = trim_string(&input.secret);
        if sec_t.as_str().unicode_len() == 0 {
            return Err(VaultError::invalid_input("secret is required"));
        }
        if self.key_id_taken(&id) {
            return Err(VaultError::storage_failure("key id already in use"));
        }
        let nt = trim_string(&input.name);
        let name = if nt.as_str().unicode_len() == 0 {
            let base: String = "key-".to_owned();
            if id.as_str().unicode_len() > 8 {
                base.concat(id.as_str().substring_char(0, 8))
            } else {
                base.concat(id.as_str())
            }
        } else {
            nt
        };
        let row = KeyEntry {
            id: id.clone(),
            project_id: input.project_id,
            name,
            kind: input.kind,
            created_at,
            kid: normalize_opt_string(input.kid),
            description: normalize_opt_string(input.description),
            tags: normalize_tags(input.tags),
        };
        let out = clone_key(&row);
        let sec = SecretEntry { id, value: input.secret };
        proof {
            let oldv = old(self)@;
            let ks = oldv.keys.push(row@);
            let ms = oldv.key_material.push(sec@);
            assert forall|a: int, b: int| 0 <= a < b < ks.len() implies ks[a].id != ks[b].id by {
                if b == ks.len() - 1 {
                    assert(oldv.keys[a].id != row@.id);
                }
            }
            assert forall|a: int, b: int| 0 <= a < b < ms.len() implies ms[a].id != ms[b].id by {
                if b == ms.len() - 1 {
                    if oldv.key_material[a].id == sec@.id {
                        assert(has_key_id(oldv.keys, oldv.key_material[a].id));
                        let w = choose|w: int|
                            0 <= w < oldv.keys.len() && (#[trigger] oldv.keys[w].id)
                                == oldv.key_material[a].id;
                        assert(false);
                    }
                }
            }
            assert forall|a: int| 0 <= a < ks.len() implies has_secret(ms, (ks[a]).id) by {
                if a < ks.len() - 1 {
                    assert(has_secret(oldv.key_material, oldv.keys[a].id));
                    let m = choose|m: int|
                        0 <= m < oldv.key_material.len() && (#[trigger] oldv.key_material[m].id)
                            == oldv.keys[a].id;
                    assert(ms[m].id == ks[a].id);
                } else {
                    assert(ms[ms.len() - 1].id == ks[a].id);
                }
            }
            assert forall|a: int| 0 <= a < ms.len() implies has_key_id(ks, (ms[a]).id) by {
                if a < ms.len() - 1 {
                    assert(has_key_id(oldv.keys, oldv.key_material[a].id));
                    let m = choose|m: int|
                        0 <= m < oldv.keys.len() && (#[trigger] oldv.keys[m].id)
                            == oldv.key_material[a].id;
                    assert(ks[m].id == ms[a].id);
                } else {
                    assert(ks[ks.len() - 1].id == ms[a].id);
                }
            }
        }
        self.keys.push(row);
        self.key_material.push(sec);
        proof {
            assert(final(self)@.keys =~= old(self)@.keys.push(out@));
            assert(final(self)@.key_material =~= old(self)@.key_material.push(sec@));
        }
        Ok(out)
    }

    /// Create a key with a fresh random id, stamped with the current time.
    /// Apart from the choice of id and time this behaves exactly like
    /// `add_key_at`; an id collision is reported as a storage failure.
    pub fn add_key(&mut self, input: KeyEntryInput) -> (r: Result<KeyEntry, VaultError>)
        requires
            vault_wf(old(self)@),
        ensures
            vault_wf(final(self)@),
            ({
                let pid_ok = trim_spec(input.project_id@).len() > 0;
                let sec_ok = trim_spec(input.secret@).len() > 0;
                match r {
                    Ok(k) => {
                        &&& pid_ok
                        &&& sec_ok
                        &&& !has_key_id(old(self)@.keys, k@.id)
                        &&& k@.project_id == input.project_id@
                        &&& k@.name == (if trim_spec(input.name@).len() == 0 {
                            default_key_name(k@.id)
                        } else {
                            trim_spec(input.name@)
                        })
                        &&& k@.kind == input.kind@
                        &&& k@.kid == norm_opt_spec(opt_view(input.kid))
                        &&& k@.description == norm_opt_spec(opt_view(input.description))
                        &&& k@.tags == norm_tags_spec(strings_view(input.tags@))
                        &&& final(self)@ == (VaultV {
                            keys: old(self)@.keys.push(k@),
                            key_material: old(self)@.key_material.push(
                                SecretV { id: k@.id, value: input.secret@ },
                            ),
                            ..old(self)@
                        })
                    },
                    Err(e) => {
                        &&& final(self)@ == old(self)@
                        &&& (e.kind == VaultErrorKind::InvalidInput <==> (!pid_ok || !sec_ok))
                        &&& (e.kind == VaultErrorKind::InvalidInput || e.kind
                            == VaultErrorKind::StorageFailure)
                    },
                }
            }),
    {
        let id = new_uuid();
        let created_at = now_unix();
        self.add_key_at(id, created_at, input)
    }

    /// Create a token under a caller-chosen id and creation time.
    ///
    /// The owning project id, the name and the token text must be non-blank;
    /// all three are stored raw.
    pub fn add_token_at(&mut self, id: String, created_at: i64, input: TokenEntryInput) -> (r:
        Result<TokenEntry, VaultError>)
        requires
            vault_wf(old(self)@),
        ensures
            vault_wf(final(self)@),
            ({
                let pid_ok = trim_spec(input.project_id@).len() > 0;
                let name_ok = trim_spec(input.name@).len() > 0;
                let tok_ok = trim_spec(input.token@).len() > 0;
                match r {
                    Ok(t) => {
                        &&& pid_ok
                        &&& name_ok
                        &&& tok_ok
                        &&& !has_token_id(old(self)@.tokens, id@)
                        &&& t@ == (TokenV {
                            id: id@,
                            project_id: input.project_id@,
                            name: input.name@,
                            created_at: created_at as int,
                        })
                        &&& final(self)@ == (VaultV {
                            tokens: old(self)@.tokens.push(t@),
                            token_material: old(self)@.token_material.push(
                                SecretV { id: id@, value: input.token@ },
                            ),
                            ..old(self)@
                        })
                    },
                    Err(e) => {
                        &&& final(self)@ == old(self)@
                        &&& (e.kind == VaultErrorKind::InvalidInput <==> (!pid_ok || !name_ok
                            || !tok_ok))
                        &&& (e.kind == VaultErrorKind::StorageFailure <==> pid_ok && name_ok
                            && tok_ok && has_token_id(old(self)@.tokens, id@))
                        &&& (e.kind == VaultErrorKind::InvalidInput || e.kind
                            == VaultErrorKind::StorageFailure)
                    },
                }
            }),
    {
        let pid_t = trim_string(&input.project_id);
        if pid_t.as_str().unicode_len() == 0 {
            return Err(VaultError::invalid_input("project_id is required"));
        }
        let name_t = trim_string(&input.name);
        if name_t.as_str().unicode_len() == 0 {
            return Err(VaultError::invalid_input("name is required"));
        }
        let tok_t = trim_string(&input.token);
        if tok_t.as_str().unicode_len() == 0 {
            return Err(VaultError::invalid_input("token is required"));
        }
        if self.token_id_taken(&id) {
            return Err(VaultError::storage_failure("token id already in use"));
        }
        let row = TokenEntry {
            id: id.clone(),
            project_id: input.project_id,
            name: input.name,
            created_at,
        };
        let out = clone_token(&row);
        let sec = SecretEntry { id, value: input.token };
        proof {
            let oldv = old(self)@;
            let ts = oldv.tokens.push(row@);
            let ms = oldv.token_material.push(sec@);
            assert forall|a: int, b: int| 0 <= a < b < ts.len() implies ts[a].id != ts[b].id by {
                if b == ts.len() - 1 {
                    assert(oldv.tokens[a].id != row@.id);
                }
            }
            assert forall|a: int, b: int| 0 <= a < b < ms.len() implies ms[a].id != ms[b].id by {
                if b == ms.len() - 1 {
                    if oldv.token_material[a].id == sec@.id {
                        assert(has_token_id(oldv.tokens, oldv.token_material[a].id));
                        let w = choose|w: int|
                            0 <= w < oldv.tokens.len() && (#[trigger] oldv.tokens[w].id)
                                == oldv.token_material[a].id;
                        assert(false);
                    }
                }
            }
            assert forall|a: int| 0 <= a < ts.len() implies has_secret(ms, (ts[a]).id) by {
                if a < ts.len() - 1 {
                    assert(has_secret(oldv.token_material, oldv.tokens[a].id));
                    let m = choose|m: int|
                        0 <= m < oldv.token_material.len() && (#[trigger] oldv.token_material[m].id)
                            == oldv.tokens[a].id;
                    assert(ms[m].id == ts[a].id);
                } else {
                    assert(ms[ms.len() - 1].id == ts[a].id);
                }
            }
            assert forall|a: int| 0 <= a < ms.len() implies has_token_id(ts, (ms[a]).id) by {
                if a < ms.len() - 1 {
                    assert(has_token_id(oldv.tokens, oldv.token_material[a].id));
                    let m = choose|m: int|
                        0 <= m < oldv.tokens.len() && (#[trigger] oldv.tokens[m].id)
                            == oldv.token_material[a].id;
                    assert(ts[m].id == ms[a].id);
                } else {
                    assert(ts[ts.len() - 1].id == ms[a].id);
                }
            }
        }
        self.tokens.push(row);
        self.token_material.push(sec);
        proof {
            assert(final(self)@.tokens =~= old(self)@.tokens.push(out@));
            assert(final(self)@.token_material =~= old(self)@.token_material.push(sec@));
        }
        Ok(out)
    }

    /// Create a token with a fresh random id, stamped with the current time.
    /// Apart from the choice of id and time this behaves exactly like
    /// `add_token_at`; an id collision is reported as a storage failure.
    pub fn add_token(&mut self, input: TokenEntryInput) -> (r: Result<TokenEntry, VaultError>)
        requires
            vault_wf(old(self)@),
        ensures
            vault_wf(final(self)@),
            ({
                let pid_ok = trim_spec(input.project_id@).len() > 0;
                let name_ok = trim_spec(input.name@).len() > 0;
                let tok_ok = trim_spec(input.token@).len() > 0;
                match r {
                    Ok(t) => {
                        &&& pid_ok
                        &&& name_ok
                        &&& tok_ok
                        &&& t@.project_id == input.project_id@
                        &&& t@.name == input.name@
                        &&& !has_token_id(old(self)@.tokens, t@.id)
                        &&& final(self)@ == (VaultV {
                            tokens: old(self)@.tokens.push(t@),
                            token_material: old(self)@.token_material.push(
                                SecretV { id: t@.id, value: input.token@ },
                            ),
                            ..old(self)@
                        })
                    },
                    Err(e) => {
                        &&& final(self)@ == old(self)@
                        &&& (e.kind == VaultErrorKind::InvalidInput <==> (!pid_ok || !name_ok
                            || !tok_ok))
                        &&& (e.kind == VaultErrorKind::InvalidInput || e.kind
                            == VaultErrorKind::StorageFailure)
                    },
                }
            }),
    {
        let id = new_uuid();
        let created_at = now_unix();
        self.add_token_at(id, created_at, input)
    }
}

} // verus!
