//! Verified text utilities: whitespace trimming, normalization of optional
//! fields and tag lists, and ASCII-case-insensitive comparison.
//!
//! Every function here is specified against a spec-level model so that the
//! vault's contracts can speak precisely about "trimmed" and "blank" values.

use vstd::prelude::*;

verus! {

/// A whitespace character: the Unicode `White_Space` set.
pub open spec fn is_space_char(c: char) -> bool {
    let u = c as u32;
    u == 0x20 || u == 0x09 || u == 0x0A || u == 0x0B || u == 0x0C || u == 0x0D || u == 0x85
        || u == 0xA0 || u == 0x1680 || (0x2000 <= u && u <= 0x200A) || u == 0x2028 || u == 0x2029
        || u == 0x202F || u == 0x205F || u == 0x3000
}

/// The string with leading and trailing whitespace removed.
pub open spec fn trim_spec(s: Seq<char>) -> Seq<char>
    decreases s.len(),
{
    if s.len() == 0 {
        s
    } else if is_space_char(s[0]) {
        trim_spec(s.drop_first())
    } else if is_space_char(s.last()) {
        trim_spec(s.drop_last())
    } else {
        s
    }
}

/// A string is blank when nothing but whitespace is in it.
pub open spec fn is_blank(s: Seq<char>) -> bool {
    trim_spec(s).len() == 0
}

proof fn lemma_trim_all_spaces(s: Seq<char>)
    requires
        forall|j: int| 0 <= j < s.len() ==> is_space_char(s[j]),
    ensures
        trim_spec(s).len() == 0,
    decreases s.len(),
{
    if s.len() > 0 {
        lemma_trim_all_spaces(s.drop_first());
    }
}

proof fn lemma_trim_subrange(s: Seq<char>, start: int, end: int)
    requires
        0 <= start < end <= s.len(),
        forall|j: int| 0 <= j < start ==> is_space_char(s[j]),
        forall|j: int| end <= j < s.len() ==> is_space_char(s[j]),
        !is_space_char(s[start]),
        !is_space_char(s[end - 1]),
    ensures
        trim_spec(s) == s.subrange(start, end),
    decreases s.len(),
{
    if is_space_char(s[0]) {
        assert(start >= 1);
        let t = s.drop_first();
        lemma_trim_subrange(t, start - 1, end - 1);
        assert(s.subrange(start, end) =~= t.subrange(start - 1, end - 1));
    } else if is_space_char(s.last()) {
        assert(end < s.len());
        let t = s.drop_last();
        lemma_trim_subrange(t, start, end);
        assert(s.subrange(start, end) =~= t.subrange(start, end));
    } else {
        assert(start == 0);
        assert(end == s.len());
        assert(s.subrange(0, s.len() as int) =~= s);
    }
}

/// Whether an executable character is whitespace, per `is_space_char`.
pub fn char_is_space(c: char) -> (r: bool)
    ensures
        r == is_space_char(c),
{
    let u = c as u32;
    u == 0x20 || u == 0x09 || u == 0x0A || u == 0x0B || u == 0x0C || u == 0x0D || u == 0x85
        || u == 0xA0 || u == 0x1680 || (0x2000 <= u && u <= 0x200A) || u == 0x2028 || u == 0x2029
        || u == 0x202F || u == 0x205F || u == 0x3000
}

/// Remove leading and trailing whitespace.
pub fn trim_str(s: &str) -> (r: String)
    ensures
        r@ == trim_spec(s@),
{
    let n = s.unicode_len();
    let mut start: usize = 0;
    while start < n && char_is_space(s.get_char(start))
        invariant
            0 <= start <= n,
            n == s@.len(),
            forall|j: int| 0 <= j < start ==> is_space_char(s@[j]),
        decreases n - start,
    {
        start = start + 1;
    }
    if start == n {
        proof {
            lemma_trim_all_spaces(s@);
        }
        return String::new();
    }
    let mut end: usize = n;
    while end > start + 1 && char_is_space(s.get_char(end - 1))
        invariant
            start < end <= n,
            n == s@.len(),
            forall|j: int| end <= j < n ==> is_space_char(s@[j]),
        decreases end,
    {
        end = end - 1;
    }
    proof {
        lemma_trim_subrange(s@, start as int, end as int);
    }
    let out = s.substring_char(start, end);
    out.to_owned()
}

/// Remove leading and trailing whitespace from an owned string.
pub fn trim_string(s: &String) -> (r: String)
    ensures
        r@ == trim_spec(s@),
{
    trim_str(s.as_str())
}

/// The view of an optional string.
pub open spec fn opt_view(o: Option<String>) -> Option<Seq<char>> {
    match o {
        Option::Some(s) => Option::Some(s@),
        Option::None => Option::None,
    }
}

/// Normalization of an optional field: trim, and drop it when blank.
pub open spec fn norm_opt_spec(o: Option<Seq<char>>) -> Option<Seq<char>> {
    match o {
        Option::Some(s) => if trim_spec(s).len() == 0 {
            Option::None
        } else {
            Option::Some(trim_spec(s))
        },
        Option::None => Option::None,
    }
}

/// Trim an optional field and drop it when blank.
pub fn normalize_opt_string(input: Option<String>) -> (r: Option<String>)
    ensures
        opt_view(r) == norm_opt_spec(opt_view(input)),
{
    match input {
        Option::Some(s) => {
            let t = trim_string(&s);
            if t.as_str().unicode_len() == 0 {
                Option::None
            } else {
                Option::Some(t)
            }
        },
        Option::None => Option::None,
    }
}

/// The view of a list of strings.
pub open spec fn strings_view(v: Seq<String>) -> Seq<Seq<char>> {
    v.map_values(|s: String| s@)
}

/// Normalization of a tag list: trim each tag, drop blanks, and keep the
/// first occurrence of each distinct tag in input order.
pub open spec fn norm_tags_spec(ts: Seq<Seq<char>>) -> Seq<Seq<char>>
    decreases ts.len(),
{
    if ts.len() == 0 {
        Seq::empty()
    } else {
        let prev = norm_tags_spec(ts.drop_last());
        let t = trim_spec(ts.last());
        if t.len() == 0 || prev.contains(t) {
            prev
        } else {
            prev.push(t)
        }
    }
}

/// Whether a trimmed tag is already held.
fn tags_contain(out: &Vec<String>, t: &String) -> (r: bool)
    ensures
        r == strings_view(out@).contains(t@),
{
    let mut i: usize = 0;
    while i < out.len()
        invariant
            0 <= i <= out@.len(),
            forall|j: int| 0 <= j < i ==> strings_view(out@)[j] != t@,
        decreases out@.len() - i,
    {
        assert(strings_view(out@)[i as int] == out@[i as int]@);
        if out[i].eq(t) {
            return true;
        }
        i = i + 1;
    }
    false
}

/// Trim tags, drop blank ones, and de-duplicate keeping input order.
pub fn normalize_tags(tags: Vec<String>) -> (r: Vec<String>)
    ensures
        strings_view(r@) == norm_tags_spec(strings_view(tags@)),
{
    let mut out: Vec<String> = Vec::new();
    let mut i: usize = 0;
    while i < tags.len()
        invariant
            0 <= i <= tags@.len(),
            strings_view(out@) == norm_tags_spec(strings_view(tags@).subrange(0, i as int)),
        decreases tags@.len() - i,
    {
        let t = trim_string(&tags[i]);
        let ghost pre = strings_view(tags@).subrange(0, i as int);
        assert(strings_view(tags@).subrange(0, i + 1).drop_last() =~= pre);
        assert(strings_view(tags@).subrange(0, i + 1).last() == tags@[i as int]@);
        if t.as_str().unicode_len() > 0 && !tags_contain(&out, &t) {
            out.push(t);
            assert(strings_view(out@) =~= norm_tags_spec(strings_view(tags@).subrange(0, i + 1)));
        } else {
            assert(strings_view(out@) =~= norm_tags_spec(strings_view(tags@).subrange(0, i + 1)));
        }
        i = i + 1;
    }
    proof {
        assert(strings_view(tags@).subrange(0, tags@.len() as int) =~= strings_view(tags@));
    }
    out
}

/// The case-folded codepoint used for ASCII-case-insensitive comparison:
/// an ASCII capital letter folds to its small letter, all else is itself.
pub open spec fn fold_char(c: char) -> u32 {
    let u = c as u32;
    if 0x41 <= u && u <= 0x5A {
        (u + 0x20) as u32
    } else {
        u
    }
}

/// ASCII-case-insensitive string equality.
pub open spec fn str_ieq(a: Seq<char>, b: Seq<char>) -> bool {
    a.len() == b.len() && forall|i: int| 0 <= i < a.len() ==> fold_char(a[i]) == fold_char(b[i])
}

/// Compare two strings ignoring ASCII letter case.
pub fn eq_ignore_ascii(a: &str, b: &str) -> (r: bool)
    ensures
        r == str_ieq(a@, b@),
{
    let na = a.unicode_len();
    let nb = b.unicode_len();
    if na != nb {
        return false;
    }
    let mut i: usize = 0;
    while i < na
        invariant
            0 <= i <= na,
            na == a@.len(),
            na == b@.len(),
            forall|j: int| 0 <= j < i ==> fold_char(a@[j]) == fold_char(b@[j]),
        decreases na - i,
    {
        let ca = a.get_char(i) as u32;
        let cb = b.get_char(i) as u32;
        let fa = if 0x41 <= ca && ca <= 0x5A {
            ca + 0x20
        } else {
            ca
        };
        let fb = if 0x41 <= cb && cb <= 0x5A {
            cb + 0x20
        } else {
            cb
        };
        if fa != fb {
            return false;
        }
        i = i + 1;
    }
    true
}

/// Exact string equality over characters.
pub fn str_eq(a: &str, b: &str) -> (r: bool)
    ensures
        r == (a@ == b@),
{
    let na = a.unicode_len();
    let nb = b.unicode_len();
    if na != nb {
        proof {
            assert(a@.len() != b@.len());
        }
        return false;
    }
    let mut i: usize = 0;
    while i < na
        invariant
            0 <= i <= na,
            na == a@.len(),
            na == b@.len(),
            forall|j: int| 0 <= j < i ==> a@[j] == b@[j],
        decreases na - i,
    {
        if a.get_char(i) != b.get_char(i) {
            return false;
        }
        i = i + 1;
    }
    proof {
        assert(a@ =~= b@);
    }
    true
}

} // verus!
