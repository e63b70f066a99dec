//! The snapshot wire format: a length-prefixed binary encoding of the whole
//! snapshot, with a specification-level encoder and parser and a proved
//! round trip. This is the plaintext that the export envelope encrypts.
//!
//! Layout: integers are eight little-endian bytes; a string is its byte
//! length followed by its UTF-8 bytes; an optional string is a tag byte 0
//! or 1 followed by the string when present; a list is its length followed
//! by its elements in order.

use vstd::prelude::*;

use vstd::bytes::{
    lemma_auto_spec_u64_to_from_le_bytes, spec_u64_from_le_bytes, spec_u64_to_le_bytes,
    u64_from_le_bytes, u64_to_le_bytes,
};
use vstd::slice::slice_subrange;

use crate::snapshot::{KeyExport, KeyExportV, SnapshotV, TokenExport, TokenExportV, VaultSnapshot};
use crate::types::{KeyEntry, KeyV, ProjectEntry, ProjectV, TokenEntry, TokenV};
use vstd::string::StrSliceExecFns;
use vstd::utf8::{decode_utf8, encode_utf8, encode_utf8_decode_utf8, encode_utf8_valid_utf8, valid_utf8};

verus! {

broadcast use vstd::seq_lib::group_seq_properties;

/// The largest value a length prefix can carry.
pub open spec fn len_bound() -> int {
    0x1_0000_0000_0000_0000
}

/// An encodable string: its UTF-8 form fits a length prefix.
pub open spec fn str_ok(s: Seq<char>) -> bool {
    encode_utf8(s).len() < len_bound()
}

/// An encodable optional string.
pub open spec fn opt_ok(o: Option<Seq<char>>) -> bool {
    match o {
        Option::Some(s) => str_ok(s),
        Option::None => true,
    }
}

/// An encodable string list.
pub open spec fn strs_ok(ts: Seq<Seq<char>>) -> bool {
    ts.len() < len_bound() && forall|i: int| 0 <= i < ts.len() ==> str_ok(#[trigger] ts[i])
}

/// A timestamp representable in sixty-four signed bits.
pub open spec fn time_ok(x: int) -> bool {
    -0x8000_0000_0000_0000 <= x < 0x8000_0000_0000_0000
}

/// An integer encoded as eight little-endian bytes.
pub open spec fn enc_u64(x: u64) -> Seq<u8> {
    spec_u64_to_le_bytes(x)
}

/// A timestamp encoded in two's complement.
pub open spec fn enc_time(x: int) -> Seq<u8> {
    enc_u64((x as i64) as u64)
}

/// Bytes encoded with their length.
pub open spec fn enc_bytes(bs: Seq<u8>) -> Seq<u8> {
    enc_u64(bs.len() as u64) + bs
}

/// A string encoded as its UTF-8 bytes with their length.
pub open spec fn enc_str(s: Seq<char>) -> Seq<u8> {
    enc_bytes(encode_utf8(s))
}

/// An optional string encoded behind a presence tag.
pub open spec fn enc_opt_str(o: Option<Seq<char>>) -> Seq<u8> {
    match o {
        Option::None => seq![0u8],
        Option::Some(s) => seq![1u8] + enc_str(s),
    }
}

/// The concatenated encodings of a string list's elements.
pub open spec fn enc_str_seq(ts: Seq<Seq<char>>) -> Seq<u8>
    decreases ts.len(),
{
    if ts.len() == 0 {
        Seq::empty()
    } else {
        enc_str(ts[0]) + enc_str_seq(ts.drop_first())
    }
}

/// A string list encoded with its length.
pub open spec fn enc_strs(ts: Seq<Seq<char>>) -> Seq<u8> {
    enc_u64(ts.len() as u64) + enc_str_seq(ts)
}

/// The integer at position `i`, and the position after it.
pub open spec fn parse_u64(b: Seq<u8>, i: int) -> Option<(u64, int)> {
    if 0 <= i && i + 8 <= b.len() {
        Option::Some((spec_u64_from_le_bytes(b.subrange(i, i + 8)), i + 8))
    } else {
        Option::None
    }
}

/// The timestamp at position `i`.
pub open spec fn parse_time(b: Seq<u8>, i: int) -> Option<(int, int)> {
    match parse_u64(b, i) {
        Option::Some((v, j)) => Option::Some(((v as i64) as int, j)),
        Option::None => Option::None,
    }
}

/// The tag byte at position `i`.
pub open spec fn parse_u8(b: Seq<u8>, i: int) -> Option<(u8, int)> {
    if 0 <= i && i + 1 <= b.len() {
        Option::Some((b[i], i + 1))
    } else {
        Option::None
    }
}

/// The length-prefixed bytes at position `i`.
pub open spec fn parse_bytes(b: Seq<u8>, i: int) -> Option<(Seq<u8>, int)> {
    match parse_u64(b, i) {
        Option::Some((n, j)) => if j + n <= b.len() {
            Option::Some((b.subrange(j, j + n), j + n))
        } else {
            Option::None
        },
        Option::None => Option::None,
    }
}

/// The string at position `i`; its bytes must be valid UTF-8.
pub open spec fn parse_str(b: Seq<u8>, i: int) -> Option<(Seq<char>, int)> {
    match parse_bytes(b, i) {
        Option::Some((bs, j)) => if valid_utf8(bs) {
            Option::Some((decode_utf8(bs), j))
        } else {
            Option::None
        },
        Option::None => Option::None,
    }
}

/// The optional string at position `i`.
pub open spec fn parse_opt_str(b: Seq<u8>, i: int) -> Option<(Option<Seq<char>>, int)> {
    match parse_u8(b, i) {
        Option::Some((tag, j)) => if tag == 0 {
            Option::Some((Option::None, j))
        } else if tag == 1 {
            match parse_str(b, j) {
                Option::Some((s, k)) => Option::Some((Option::Some(s), k)),
                Option::None => Option::None,
            }
        } else {
            Option::None
        },
        Option::None => Option::None,
    }
}

/// `n` strings starting at position `i`.
pub open spec fn parse_str_list(b: Seq<u8>, i: int, n: int) -> Option<(Seq<Seq<char>>, int)>
    decreases n,
{
    if n <= 0 {
        Option::Some((Seq::empty(), i))
    } else {
        match parse_str(b, i) {
            Option::Some((s, j)) => match parse_str_list(b, j, n - 1) {
                Option::Some((rest, k)) => Option::Some((seq![s] + rest, k)),
                Option::None => Option::None,
            },
            Option::None => Option::None,
        }
    }
}

/// The length-prefixed string list at position `i`.
pub open spec fn parse_strs(b: Seq<u8>, i: int) -> Option<(Seq<Seq<char>>, int)> {
    match parse_u64(b, i) {
        Option::Some((n, j)) => parse_str_list(b, j, n as int),
        Option::None => Option::None,
    }
}

/// An encoded integer parses back to itself.
proof fn lemma_parse_u64_at(b: Seq<u8>, i: int, x: u64)
    requires
        0 <= i,
        i + 8 <= b.len(),
        b.subrange(i, i + 8) == enc_u64(x),
    ensures
        parse_u64(b, i) == Option::Some((x, i + 8)),
{
    lemma_auto_spec_u64_to_from_le_bytes();
}

/// An encoded timestamp parses back to itself.
proof fn lemma_parse_time_at(b: Seq<u8>, i: int, x: int)
    requires
        0 <= i,
        i + 8 <= b.len(),
        time_ok(x),
        b.subrange(i, i + 8) == enc_time(x),
    ensures
        parse_time(b, i) == Option::Some((x, i + 8)),
{
    let xi = x as i64;
    let u = xi as u64;
    lemma_parse_u64_at(b, i, u);
    assert((xi as u64) as i64 == xi) by (bit_vector);
}

/// Encoded bytes parse back to themselves.
proof fn lemma_parse_bytes_at(b: Seq<u8>, i: int, data: Seq<u8>)
    requires
        0 <= i,
        data.len() < len_bound(),
        i + 8 + data.len() <= b.len(),
        b.subrange(i, i + 8 + data.len()) == enc_bytes(data),
    ensures
        parse_bytes(b, i) == Option::Some((data, i + 8 + data.len())),
{
    lemma_auto_spec_u64_to_from_le_bytes();
    let n = data.len() as u64;
    let whole = b.subrange(i, i + 8 + data.len());
    assert(b.subrange(i, i + 8) =~= whole.subrange(0, 8));
    assert(whole.subrange(0, 8) =~= enc_u64(n)) by {
        lemma_auto_spec_u64_to_from_le_bytes();
    }
    lemma_parse_u64_at(b, i, n);
    assert(b.subrange(i + 8, i + 8 + data.len()) =~= whole.subrange(8, 8 + data.len() as int));
    assert(whole.subrange(8, 8 + data.len() as int) =~= data);
}

/// An encoded string parses back to itself.
proof fn lemma_parse_str_at(b: Seq<u8>, i: int, s: Seq<char>)
    requires
        0 <= i,
        str_ok(s),
        i + enc_str(s).len() <= b.len(),
        b.subrange(i, i + enc_str(s).len()) == enc_str(s),
    ensures
        parse_str(b, i) == Option::Some((s, i + enc_str(s).len())),
        enc_str(s).len() == 8 + encode_utf8(s).len(),
{
    lemma_auto_spec_u64_to_from_le_bytes();
    let data = encode_utf8(s);
    lemma_parse_bytes_at(b, i, data);
    encode_utf8_valid_utf8(s);
    encode_utf8_decode_utf8(s);
}

/// An encoded optional string parses back to itself.
proof fn lemma_parse_opt_str_at(b: Seq<u8>, i: int, o: Option<Seq<char>>)
    requires
        0 <= i,
        opt_ok(o),
        i + enc_opt_str(o).len() <= b.len(),
        b.subrange(i, i + enc_opt_str(o).len()) == enc_opt_str(o),
    ensures
        parse_opt_str(b, i) == Option::Some((o, i + enc_opt_str(o).len())),
{
    lemma_auto_spec_u64_to_from_le_bytes();
    match o {
        Option::None => {
            assert(b.subrange(i, i + 1)[0] == b[i]);
            assert(b[i] == 0u8);
        },
        Option::Some(s) => {
            let whole = b.subrange(i, i + enc_opt_str(o).len());
            assert(b[i] == whole[0]);
            assert(whole[0] == (seq![1u8] + enc_str(s))[0]);
            assert(b.subrange(i + 1, i + 1 + enc_str(s).len()) =~= whole.subrange(
                1,
                1 + enc_str(s).len() as int,
            ));
            assert(whole.subrange(1, 1 + enc_str(s).len() as int) =~= enc_str(s));
            lemma_parse_str_at(b, i + 1, s);
        },
    }
}

/// An encoded string list parses back to itself.
proof fn lemma_parse_str_list_at(b: Seq<u8>, i: int, ts: Seq<Seq<char>>)
    requires
        0 <= i,
        forall|k: int| 0 <= k < ts.len() ==> str_ok(#[trigger] ts[k]),
        i + enc_str_seq(ts).len() <= b.len(),
        b.subrange(i, i + enc_str_seq(ts).len()) == enc_str_seq(ts),
    ensures
        parse_str_list(b, i, ts.len() as int) == Option::Some((ts, i + enc_str_seq(ts).len())),
    decreases ts.len(),
{
    lemma_auto_spec_u64_to_from_le_bytes();
    if ts.len() > 0 {
        let hd = enc_str(ts[0]);
        let tl = enc_str_seq(ts.drop_first());
        let whole = b.subrange(i, i + hd.len() + tl.len());
        assert(b.subrange(i, i + hd.len()) =~= whole.subrange(0, hd.len() as int));
        assert(whole.subrange(0, hd.len() as int) =~= hd);
        lemma_parse_str_at(b, i, ts[0]);
        assert(b.subrange(i + hd.len(), i + hd.len() + tl.len()) =~= whole.subrange(
            hd.len() as int,
            hd.len() + tl.len() as int,
        ));
        assert(whole.subrange(hd.len() as int, hd.len() + tl.len() as int) =~= tl);
        lemma_parse_str_list_at(b, i + hd.len(), ts.drop_first());
        assert(seq![ts[0]] + ts.drop_first() =~= ts);
    }
}

/// An encoded length-prefixed string list parses back to itself.
proof fn lemma_parse_strs_at(b: Seq<u8>, i: int, ts: Seq<Seq<char>>)
    requires
        0 <= i,
        strs_ok(ts),
        i + enc_strs(ts).len() <= b.len(),
        b.subrange(i, i + enc_strs(ts).len()) == enc_strs(ts),
    ensures
        parse_strs(b, i) == Option::Some((ts, i + enc_strs(ts).len())),
{
    lemma_auto_spec_u64_to_from_le_bytes();
    let n = ts.len() as u64;
    let whole = b.subrange(i, i + enc_strs(ts).len());
    assert(b.subrange(i, i + 8) =~= whole.subrange(0, 8));
    assert(whole.subrange(0, 8) =~= enc_u64(n));
    lemma_parse_u64_at(b, i, n);
    assert(b.subrange(i + 8, i + 8 + enc_str_seq(ts).len()) =~= whole.subrange(
        8,
        8 + enc_str_seq(ts).len() as int,
    ));
    assert(whole.subrange(8, 8 + enc_str_seq(ts).len() as int) =~= enc_str_seq(ts));
    lemma_parse_str_list_at(b, i + 8, ts);
}


/// An encodable project record.
pub open spec fn project_ok(p: ProjectV) -> bool {
    str_ok(p.id) && str_ok(p.name) && time_ok(p.created_at) && opt_ok(p.default_key_id)
        && opt_ok(p.description) && strs_ok(p.tags)
}

/// An encodable exported key.
pub open spec fn key_export_ok(k: KeyExportV) -> bool {
    str_ok(k.entry.id) && str_ok(k.entry.project_id) && str_ok(k.entry.name) && str_ok(
        k.entry.kind,
    ) && time_ok(k.entry.created_at) && opt_ok(k.entry.kid) && opt_ok(k.entry.description)
        && strs_ok(k.entry.tags) && str_ok(k.material)
}

/// An encodable exported token.
pub open spec fn token_export_ok(t: TokenExportV) -> bool {
    str_ok(t.entry.id) && str_ok(t.entry.project_id) && str_ok(t.entry.name) && time_ok(
        t.entry.created_at,
    ) && str_ok(t.token)
}

/// An encodable snapshot: every record encodable, every count in range, the
/// version a byte, the timestamp sixty-four bits.
pub open spec fn snapshot_enc_wf(s: SnapshotV) -> bool {
    &&& 0 <= s.version < 256
    &&& time_ok(s.exported_at)
    &&& s.projects.len() < len_bound()
    &&& s.keys.len() < len_bound()
    &&& s.tokens.len() < len_bound()
    &&& forall|i: int| 0 <= i < s.projects.len() ==> project_ok(#[trigger] s.projects[i])
    &&& forall|i: int| 0 <= i < s.keys.len() ==> key_export_ok(#[trigger] s.keys[i])
    &&& forall|i: int| 0 <= i < s.tokens.len() ==> token_export_ok(#[trigger] s.tokens[i])
}

/// A project record's encoding.
pub open spec fn enc_project(p: ProjectV) -> Seq<u8> {
    enc_str(p.id) + enc_str(p.name) + enc_time(p.created_at) + enc_opt_str(p.default_key_id)
        + enc_opt_str(p.description) + enc_strs(p.tags)
}

/// An exported key's encoding.
pub open spec fn enc_key_export(k: KeyExportV) -> Seq<u8> {
    enc_str(k.entry.id) + enc_str(k.entry.project_id) + enc_str(k.entry.name) + enc_str(
        k.entry.kind,
    ) + enc_time(k.entry.created_at) + enc_opt_str(k.entry.kid) + enc_opt_str(k.entry.description)
        + enc_strs(k.entry.tags) + enc_str(k.material)
}

/// An exported token's encoding.
pub open spec fn enc_token_export(t: TokenExportV) -> Seq<u8> {
    enc_str(t.entry.id) + enc_str(t.entry.project_id) + enc_str(t.entry.name) + enc_time(
        t.entry.created_at,
    ) + enc_str(t.token)
}

/// The concatenated encodings of a project list.
pub open spec fn enc_project_seq(ps: Seq<ProjectV>) -> Seq<u8>
    decreases ps.len(),
{
    if ps.len() == 0 {
        Seq::empty()
    } else {
        enc_project(ps[0]) + enc_project_seq(ps.drop_first())
    }
}

/// The concatenated encodings of an exported-key list.
pub open spec fn enc_key_seq(ks: Seq<KeyExportV>) -> Seq<u8>
    decreases ks.len(),
{
    if ks.len() == 0 {
        Seq::empty()
    } else {
        enc_key_export(ks[0]) + enc_key_seq(ks.drop_first())
    }
}

/// The concatenated encodings of an exported-token list.
pub open spec fn enc_token_seq(ts: Seq<TokenExportV>) -> Seq<u8>
    decreases ts.len(),
{
    if ts.len() == 0 {
        Seq::empty()
    } else {
        enc_token_export(ts[0]) + enc_token_seq(ts.drop_first())
    }
}

/// A whole snapshot's encoding: version byte, export time, then the three
/// length-prefixed lists.
pub open spec fn enc_snapshot(s: SnapshotV) -> Seq<u8> {
    seq![s.version as u8] + enc_time(s.exported_at) + enc_u64(s.projects.len() as u64)
        + enc_project_seq(s.projects) + enc_u64(s.keys.len() as u64) + enc_key_seq(s.keys)
        + enc_u64(s.tokens.len() as u64) + enc_token_seq(s.tokens)
}

/// The project record at position `i`.
pub open spec fn parse_project(b: Seq<u8>, i: int) -> Option<(ProjectV, int)> {
    match parse_str(b, i) {
        Option::Some((id, i1)) => match parse_str(b, i1) {
            Option::Some((name, i2)) => match parse_time(b, i2) {
                Option::Some((created_at, i3)) => match parse_opt_str(b, i3) {
                    Option::Some((dk, i4)) => match parse_opt_str(b, i4) {
                        Option::Some((desc, i5)) => match parse_strs(b, i5) {
                            Option::Some((tags, i6)) => Option::Some(
                                (
                                    ProjectV {
                                        id,
                                        name,
                                        created_at,
                                        default_key_id: dk,
                                        description: desc,
                                        tags,
                                    },
                                    i6,
                                ),
                            ),
                            Option::None => Option::None,
                        },
                        Option::None => Option::None,
                    },
                    Option::None => Option::None,
                },
                Option::None => Option::None,
            },
            Option::None => Option::None,
        },
        Option::None => Option::None,
    }
}

/// The exported key at position `i`.
pub open spec fn parse_key_export(b: Seq<u8>, i: int) -> Option<(KeyExportV, int)> {
    match parse_str(b, i) {
        Option::Some((id, i1)) => match parse_str(b, i1) {
            Option::Some((project_id, i2)) => match parse_str(b, i2) {
                Option::Some((name, i3)) => match parse_str(b, i3) {
                    Option::Some((kind, i4)) => match parse_time(b, i4) {
                        Option::Some((created_at, i5)) => match parse_opt_str(b, i5) {
                            Option::Some((kid, i6)) => match parse_opt_str(b, i6) {
                                Option::Some((desc, i7)) => match parse_strs(b, i7) {
                                    Option::Some((tags, i8)) => match parse_str(b, i8) {
                                        Option::Some((material, i9)) => Option::Some(
                                            (
                                                KeyExportV {
                                                    entry: KeyV {
                                                        id,
                                                        project_id,
                                                        name,
                                                        kind,
                                                        created_at,
                                                        kid,
                                                        description: desc,
                                                        tags,
                                                    },
                                                    material,
                                                },
                                                i9,
                                            ),
                                        ),
                                        Option::None => Option::None,
                                    },
                                    Option::None => Option::None,
                                },
                                Option::None => Option::None,
                            },
                            Option::None => Option::None,
                        },
                        Option::None => Option::None,
                    },
                    Option::None => Option::None,
                },
                Option::None => Option::None,
            },
            Option::None => Option::None,
        },
        Option::None => Option::None,
    }
}

/// The exported token at position `i`.
pub open spec fn parse_token_export(b: Seq<u8>, i: int) -> Option<(TokenExportV, int)> {
    match parse_str(b, i) {
        Option::Some((id, i1)) => match parse_str(b, i1) {
            Option::Some((project_id, i2)) => match parse_str(b, i2) {
                Option::Some((name, i3)) => match parse_time(b, i3) {
                    Option::Some((created_at, i4)) => match parse_str(b, i4) {
                        Option::Some((token, i5)) => Option::Some(
                            (
                                TokenExportV {
                                    entry: TokenV { id, project_id, name, created_at },
                                    token,
                                },
                                i5,
                            ),
                        ),
                        Option::None => Option::None,
                    },
                    Option::None => Option::None,
                },
                Option::None => Option::None,
            },
            Option::None => Option::None,
        },
        Option::None => Option::None,
    }
}

/// `n` project records at position `i`.
pub open spec fn parse_project_list(b: Seq<u8>, i: int, n: int) -> Option<(Seq<ProjectV>, int)>
    decreases n,
{
    if n <= 0 {
        Option::Some((Seq::empty(), i))
    } else {
        match parse_project(b, i) {
            Option::Some((p, j)) => match parse_project_list(b, j, n - 1) {
                Option::Some((rest, k)) => Option::Some((seq![p] + rest, k)),
                Option::None => Option::None,
            },
            Option::None => Option::None,
        }
    }
}

/// `n` exported keys at position `i`.
pub open spec fn parse_key_list(b: Seq<u8>, i: int, n: int) -> Option<(Seq<KeyExportV>, int)>
    decreases n,
{
    if n <= 0 {
        Option::Some((Seq::empty(), i))
    } else {
        match parse_key_export(b, i) {
            Option::Some((p, j)) => match parse_key_list(b, j, n - 1) {
                Option::Some((rest, k)) => Option::Some((seq![p] + rest, k)),
                Option::None => Option::None,
            },
            Option::None => Option::None,
        }
    }
}

/// `n` exported tokens at position `i`.
pub open spec fn parse_token_list(b: Seq<u8>, i: int, n: int) -> Option<(Seq<TokenExportV>, int)>
    decreases n,
{
    if n <= 0 {
        Option::Some((Seq::empty(), i))
    } else {
        match parse_token_export(b, i) {
            Option::Some((p, j)) => match parse_token_list(b, j, n - 1) {
                Option::Some((rest, k)) => Option::Some((seq![p] + rest, k)),
                Option::None => Option::None,
            },
            Option::None => Option::None,
        }
    }
}

/// The snapshot a byte string holds, when it is a complete well-formed
/// encoding with nothing after it.
pub open spec fn parse_snapshot(b: Seq<u8>) -> Option<SnapshotV> {
    match parse_u8(b, 0) {
        Option::Some((version, i1)) => match parse_time(b, i1) {
            Option::Some((exported_at, i2)) => match parse_u64(b, i2) {
                Option::Some((np, i3)) => match parse_project_list(b, i3, np as int) {
                    Option::Some((projects, i4)) => match parse_u64(b, i4) {
                        Option::Some((nk, i5)) => match parse_key_list(b, i5, nk as int) {
                            Option::Some((keys, i6)) => match parse_u64(b, i6) {
                                Option::Some((nt, i7)) => match parse_token_list(
                                    b,
                                    i7,
                                    nt as int,
                                ) {
                                    Option::Some((tokens, i8)) => if i8 == b.len() {
                                        Option::Some(
                                            SnapshotV {
                                                version: version as int,
                                                exported_at,
                                                projects,
                                                keys,
                                                tokens,
                                            },
                                        )
                                    } else {
                                        Option::None
                                    },
                                    Option::None => Option::None,
                                },
                                Option::None => Option::None,
                            },
                            Option::None => Option::None,
                        },
                        Option::None => Option::None,
                    },
                    Option::None => Option::None,
                },
                Option::None => Option::None,
            },
            Option::None => Option::None,
        },
        Option::None => Option::None,
    }
}


/// An encoded project parses back to itself.
proof fn lemma_parse_project_at(b: Seq<u8>, i: int, p: ProjectV)
    requires
        0 <= i,
        project_ok(p),
        i + enc_project(p).len() <= b.len(),
        b.subrange(i, i + enc_project(p).len()) == enc_project(p),
    ensures
        parse_project(b, i) == Option::Some((p, i + enc_project(p).len())),
{
    lemma_auto_spec_u64_to_from_le_bytes();
    let e1 = enc_str(p.id);
    let e2 = enc_str(p.name);
    let e3 = enc_time(p.created_at);
    let e4 = enc_opt_str(p.default_key_id);
    let e5 = enc_opt_str(p.description);
    let e6 = enc_strs(p.tags);
    let whole = b.subrange(i, i + enc_project(p).len());
    let i1 = i + e1.len();
    let i2 = i1 + e2.len();
    let i3 = i2 + e3.len();
    let i4 = i3 + e4.len();
    let i5 = i4 + e5.len();
    let i6 = i5 + e6.len();
    assert(b.subrange(i, i1) =~= whole.subrange(0, e1.len() as int));
    assert(whole.subrange(0, e1.len() as int) =~= e1);
    lemma_parse_str_at(b, i, p.id);
    assert(b.subrange(i1, i2) =~= whole.subrange(i1 - i, i2 - i));
    assert(whole.subrange(i1 - i, i2 - i) =~= e2);
    lemma_parse_str_at(b, i1, p.name);
    assert(b.subrange(i2, i3) =~= whole.subrange(i2 - i, i3 - i));
    assert(whole.subrange(i2 - i, i3 - i) =~= e3);
    lemma_parse_time_at(b, i2, p.created_at);
    assert(b.subrange(i3, i4) =~= whole.subrange(i3 - i, i4 - i));
    assert(whole.subrange(i3 - i, i4 - i) =~= e4);
    lemma_parse_opt_str_at(b, i3, p.default_key_id);
    assert(b.subrange(i4, i5) =~= whole.subrange(i4 - i, i5 - i));
    assert(whole.subrange(i4 - i, i5 - i) =~= e5);
    lemma_parse_opt_str_at(b, i4, p.description);
    assert(b.subrange(i5, i6) =~= whole.subrange(i5 - i, i6 - i));
    assert(whole.subrange(i5 - i, i6 - i) =~= e6);
    lemma_parse_strs_at(b, i5, p.tags);
}

/// An encoded exported key parses back to itself.
#[verifier::rlimit(100)]
proof fn lemma_parse_key_export_at(b: Seq<u8>, i: int, k: KeyExportV)
    requires
        0 <= i,
        key_export_ok(k),
        i + enc_key_export(k).len() <= b.len(),
        b.subrange(i, i + enc_key_export(k).len()) == enc_key_export(k),
    ensures
        parse_key_export(b, i) == Option::Some((k, i + enc_key_export(k).len())),
{
    lemma_auto_spec_u64_to_from_le_bytes();
    let e1 = enc_str(k.entry.id);
    let e2 = enc_str(k.entry.project_id);
    let e3 = enc_str(k.entry.name);
    let e4 = enc_str(k.entry.kind);
    let e5 = enc_time(k.entry.created_at);
    let e6 = enc_opt_str(k.entry.kid);
    let e7 = enc_opt_str(k.entry.description);
    let e8 = enc_strs(k.entry.tags);
    let e9 = enc_str(k.material);
    let whole = b.subrange(i, i + enc_key_export(k).len());
    let i1 = i + e1.len();
    let i2 = i1 + e2.len();
    let i3 = i2 + e3.len();
    let i4 = i3 + e4.len();
    let i5 = i4 + e5.len();
    let i6 = i5 + e6.len();
    let i7 = i6 + e7.len();
    let i8 = i7 + e8.len();
    let i9 = i8 + e9.len();
    assert(b.subrange(i, i1) =~= whole.subrange(0, i1 - i));
    assert(whole.subrange(0, i1 - i) =~= e1);
    lemma_parse_str_at(b, i, k.entry.id);
    assert(b.subrange(i1, i2) =~= whole.subrange(i1 - i, i2 - i));
    assert(whole.subrange(i1 - i, i2 - i) =~= e2);
    lemma_parse_str_at(b, i1, k.entry.project_id);
    assert(b.subrange(i2, i3) =~= whole.subrange(i2 - i, i3 - i));
    assert(whole.subrange(i2 - i, i3 - i) =~= e3);
    lemma_parse_str_at(b, i2, k.entry.name);
    assert(b.subrange(i3, i4) =~= whole.subrange(i3 - i, i4 - i));
    assert(whole.subrange(i3 - i, i4 - i) =~= e4);
    lemma_parse_str_at(b, i3, k.entry.kind);
    assert(b.subrange(i4, i5) =~= whole.subrange(i4 - i, i5 - i));
    assert(whole.subrange(i4 - i, i5 - i) =~= e5);
    lemma_parse_time_at(b, i4, k.entry.created_at);
    assert(b.subrange(i5, i6) =~= whole.subrange(i5 - i, i6 - i));
    assert(whole.subrange(i5 - i, i6 - i) =~= e6);
    lemma_parse_opt_str_at(b, i5, k.entry.kid);
    assert(b.subrange(i6, i7) =~= whole.subrange(i6 - i, i7 - i));
    assert(whole.subrange(i6 - i, i7 - i) =~= e7);
    lemma_parse_opt_str_at(b, i6, k.entry.description);
    assert(b.subrange(i7, i8) =~= whole.subrange(i7 - i, i8 - i));
    assert(whole.subrange(i7 - i, i8 - i) =~= e8);
    lemma_parse_strs_at(b, i7, k.entry.tags);
    assert(b.subrange(i8, i9) =~= whole.subrange(i8 - i, i9 - i));
    assert(whole.subrange(i8 - i, i9 - i) =~= e9);
    lemma_parse_str_at(b, i8, k.material);
}

/// An encoded exported token parses back to itself.
proof fn lemma_parse_token_export_at(b: Seq<u8>, i: int, t: TokenExportV)
    requires
        0 <= i,
        token_export_ok(t),
        i + enc_token_export(t).len() <= b.len(),
        b.subrange(i, i + enc_token_export(t).len()) == enc_token_export(t),
    ensures
        parse_token_export(b, i) == Option::Some((t, i + enc_token_export(t).len())),
{
    lemma_auto_spec_u64_to_from_le_bytes();
    let e1 = enc_str(t.entry.id);
    let e2 = enc_str(t.entry.project_id);
    let e3 = enc_str(t.entry.name);
    let e4 = enc_time(t.entry.created_at);
    let e5 = enc_str(t.token);
    let whole = b.subrange(i, i + enc_token_export(t).len());
    let i1 = i + e1.len();
    let i2 = i1 + e2.len();
    let i3 = i2 + e3.len();
    let i4 = i3 + e4.len();
    let i5 = i4 + e5.len();
    assert(b.subrange(i, i1) =~= whole.subrange(0, i1 - i));
    assert(whole.subrange(0, i1 - i) =~= e1);
    lemma_parse_str_at(b, i, t.entry.id);
    assert(b.subrange(i1, i2) =~= whole.subrange(i1 - i, i2 - i));
    assert(whole.subrange(i1 - i, i2 - i) =~= e2);
    lemma_parse_str_at(b, i1, t.entry.project_id);
    assert(b.subrange(i2, i3) =~= whole.subrange(i2 - i, i3 - i));
    assert(whole.subrange(i2 - i, i3 - i) =~= e3);
    lemma_parse_str_at(b, i2, t.entry.name);
    assert(b.subrange(i3, i4) =~= whole.subrange(i3 - i, i4 - i));
    assert(whole.subrange(i3 - i, i4 - i) =~= e4);
    lemma_parse_time_at(b, i3, t.entry.created_at);
    assert(b.subrange(i4, i5) =~= whole.subrange(i4 - i, i5 - i));
    assert(whole.subrange(i4 - i, i5 - i) =~= e5);
    lemma_parse_str_at(b, i4, t.token);
}

/// An encoded project list parses back to itself.
proof fn lemma_parse_project_list_at(b: Seq<u8>, i: int, ps: Seq<ProjectV>)
    requires
        0 <= i,
        forall|k: int| 0 <= k < ps.len() ==> project_ok(#[trigger] ps[k]),
        i + enc_project_seq(ps).len() <= b.len(),
        b.subrange(i, i + enc_project_seq(ps).len()) == enc_project_seq(ps),
    ensures
        parse_project_list(b, i, ps.len() as int) == Option::Some(
            (ps, i + enc_project_seq(ps).len()),
        ),
    decreases ps.len(),
{
    if ps.len() > 0 {
        let hd = enc_project(ps[0]);
        let tl = enc_project_seq(ps.drop_first());
        let whole = b.subrange(i, i + enc_project_seq(ps).len());
        assert(b.subrange(i, i + hd.len()) =~= whole.subrange(0, hd.len() as int));
        assert(whole.subrange(0, hd.len() as int) =~= hd);
        lemma_parse_project_at(b, i, ps[0]);
        assert(b.subrange(i + hd.len(), i + hd.len() + tl.len()) =~= whole.subrange(
            hd.len() as int,
            hd.len() + tl.len() as int,
        ));
        assert(whole.subrange(hd.len() as int, hd.len() + tl.len() as int) =~= tl);
        lemma_parse_project_list_at(b, i + hd.len(), ps.drop_first());
        assert(seq![ps[0]] + ps.drop_first() =~= ps);
    }
}

/// An encoded exported-key list parses back to itself.
proof fn lemma_parse_key_list_at(b: Seq<u8>, i: int, ks: Seq<KeyExportV>)
    requires
        0 <= i,
        forall|k: int| 0 <= k < ks.len() ==> key_export_ok(#[trigger] ks[k]),
        i + enc_key_seq(ks).len() <= b.len(),
        b.subrange(i, i + enc_key_seq(ks).len()) == enc_key_seq(ks),
    ensures
        parse_key_list(b, i, ks.len() as int) == Option::Some((ks, i + enc_key_seq(ks).len())),
    decreases ks.len(),
{
    if ks.len() > 0 {
        let hd = enc_key_export(ks[0]);
        let tl = enc_key_seq(ks.drop_first());
        let whole = b.subrange(i, i + enc_key_seq(ks).len());
        assert(b.subrange(i, i + hd.len()) =~= whole.subrange(0, hd.len() as int));
        assert(whole.subrange(0, hd.len() as int) =~= hd);
        lemma_parse_key_export_at(b, i, ks[0]);
        assert(b.subrange(i + hd.len(), i + hd.len() + tl.len()) =~= whole.subrange(
            hd.len() as int,
            hd.len() + tl.len() as int,
        ));
        assert(whole.subrange(hd.len() as int, hd.len() + tl.len() as int) =~= tl);
        lemma_parse_key_list_at(b, i + hd.len(), ks.drop_first());
        assert(seq![ks[0]] + ks.drop_first() =~= ks);
    }
}

/// An encoded exported-token list parses back to itself.
proof fn lemma_parse_token_list_at(b: Seq<u8>, i: int, ts: Seq<TokenExportV>)
    requires
        0 <= i,
        forall|k: int| 0 <= k < ts.len() ==> token_export_ok(#[trigger] ts[k]),
        i + enc_token_seq(ts).len() <= b.len(),
        b.subrange(i, i + enc_token_seq(ts).len()) == enc_token_seq(ts),
    ensures
        parse_token_list(b, i, ts.len() as int) == Option::Some((ts, i + enc_token_seq(ts).len())),
    decreases ts.len(),
{
    if ts.len() > 0 {
        let hd = enc_token_export(ts[0]);
        let tl = enc_token_seq(ts.drop_first());
        let whole = b.subrange(i, i + enc_token_seq(ts).len());
        assert(b.subrange(i, i + hd.len()) =~= whole.subrange(0, hd.len() as int));
        assert(whole.subrange(0, hd.len() as int) =~= hd);
        lemma_parse_token_export_at(b, i, ts[0]);
        assert(b.subrange(i + hd.len(), i + hd.len() + tl.len()) =~= whole.subrange(
            hd.len() as int,
            hd.len() + tl.len() as int,
        ));
        assert(whole.subrange(hd.len() as int, hd.len() + tl.len() as int) =~= tl);
        lemma_parse_token_list_at(b, i + hd.len(), ts.drop_first());
        assert(seq![ts[0]] + ts.drop_first() =~= ts);
    }
}

/// The front of an encoded snapshot parses to its version, time and
/// projects.
#[verifier::rlimit(100)]
proof fn lemma_snapshot_round_trip_front(s: SnapshotV)
    requires
        snapshot_enc_wf(s),
    ensures
        ({
            let b = enc_snapshot(s);
            &&& b.len() == 17 + enc_project_seq(s.projects).len() + 8 + enc_key_seq(s.keys).len()
                + 8 + enc_token_seq(s.tokens).len()
            &&& parse_u8(b, 0) == Option::Some((s.version as u8, 1int))
            &&& parse_time(b, 1) == Option::Some((s.exported_at, 9int))
            &&& parse_u64(b, 9) == Option::Some((s.projects.len() as u64, 17int))
            &&& parse_project_list(b, 17, s.projects.len() as int) == Option::Some(
                (s.projects, 17 + enc_project_seq(s.projects).len() as int),
            )
        }),
{
    lemma_auto_spec_u64_to_from_le_bytes();
    let b = enc_snapshot(s);
    let e2 = enc_time(s.exported_at);
    let e3 = enc_u64(s.projects.len() as u64);
    let e4 = enc_project_seq(s.projects);
    assert(b[0] == s.version as u8);
    assert(b.subrange(1, 9) =~= e2);
    lemma_parse_time_at(b, 1, s.exported_at);
    assert(b.subrange(9, 17) =~= e3);
    lemma_parse_u64_at(b, 9, s.projects.len() as u64);
    assert(b.subrange(17, 17 + e4.len() as int) =~= e4);
    lemma_parse_project_list_at(b, 17, s.projects);
}

/// The back of an encoded snapshot parses to its keys and tokens, ending
/// exactly at the end of the bytes.
#[verifier::rlimit(100)]
proof fn lemma_snapshot_round_trip_back(s: SnapshotV)
    requires
        snapshot_enc_wf(s),
    ensures
        ({
            let b = enc_snapshot(s);
            let i4: int = 17 + enc_project_seq(s.projects).len() as int;
            let i6: int = i4 + 8 + enc_key_seq(s.keys).len();
            &&& parse_u64(b, i4) == Option::Some((s.keys.len() as u64, i4 + 8))
            &&& parse_key_list(b, i4 + 8, s.keys.len() as int) == Option::Some((s.keys, i6))
            &&& parse_u64(b, i6) == Option::Some((s.tokens.len() as u64, i6 + 8))
            &&& parse_token_list(b, i6 + 8, s.tokens.len() as int) == Option::Some(
                (s.tokens, i6 + 8 + enc_token_seq(s.tokens).len() as int),
            )
            &&& i6 + 8 + enc_token_seq(s.tokens).len() == b.len()
        }),
{
    lemma_auto_spec_u64_to_from_le_bytes();
    let b = enc_snapshot(s);
    let e5 = enc_u64(s.keys.len() as u64);
    let e6 = enc_key_seq(s.keys);
    let e7 = enc_u64(s.tokens.len() as u64);
    let e8 = enc_token_seq(s.tokens);
    let i4: int = 17 + enc_project_seq(s.projects).len() as int;
    let i5: int = i4 + 8;
    let i6: int = i5 + e6.len();
    let i7: int = i6 + 8;
    let i8: int = i7 + e8.len();
    assert(b.len() == i8);
    assert(b.subrange(i4, i5) =~= e5);
    lemma_parse_u64_at(b, i4, s.keys.len() as u64);
    assert(b.subrange(i5, i6) =~= e6);
    lemma_parse_key_list_at(b, i5, s.keys);
    assert(b.subrange(i6, i7) =~= e7);
    lemma_parse_u64_at(b, i6, s.tokens.len() as u64);
    assert(b.subrange(i7, i8) =~= e8);
    lemma_parse_token_list_at(b, i7, s.tokens);
}

/// The codec round trip: a well-formed snapshot's encoding parses back to
/// the identical snapshot.
pub proof fn lemma_snapshot_round_trip(s: SnapshotV)
    requires
        snapshot_enc_wf(s),
    ensures
        parse_snapshot(enc_snapshot(s)) == Option::Some(s),
{
    lemma_snapshot_round_trip_front(s);
    lemma_snapshot_round_trip_back(s);
    assert((s.version as u8) as int == s.version);
}

/// Relies on String::from_utf8: it succeeds exactly on valid UTF-8, and the
/// resulting string holds exactly the given bytes.
#[verifier::external_body]
pub(crate) fn string_from_utf8(v: Vec<u8>) -> (r: Option<String>)
    ensures
        match r {
            Option::Some(s) => encode_utf8(s@) == v@ && valid_utf8(v@),
            Option::None => !valid_utf8(v@),
        },
{
    String::from_utf8(v).ok()
}

/// Appending one more string extends the encoded element run.
proof fn lemma_enc_str_seq_push(ts: Seq<Seq<char>>, x: Seq<char>)
    ensures
        enc_str_seq(ts.push(x)) == enc_str_seq(ts) + enc_str(x),
    decreases ts.len(),
{
    if ts.len() == 0 {
        assert(ts.push(x)[0] == x);
        assert(ts.push(x).drop_first() =~= Seq::empty());
        assert(enc_str_seq(ts.push(x)) =~= enc_str_seq(ts) + enc_str(x));
    } else {
        assert(ts.push(x).drop_first() =~= ts.drop_first().push(x));
        lemma_enc_str_seq_push(ts.drop_first(), x);
        assert(ts.push(x)[0] == ts[0]);
        assert(enc_str_seq(ts.push(x)) =~= enc_str_seq(ts) + enc_str(x));
    }
}

/// Appending one more project extends the encoded element run.
proof fn lemma_enc_project_seq_push(ps: Seq<ProjectV>, x: ProjectV)
    ensures
        enc_project_seq(ps.push(x)) == enc_project_seq(ps) + enc_project(x),
    decreases ps.len(),
{
    if ps.len() == 0 {
        assert(ps.push(x)[0] == x);
        assert(ps.push(x).drop_first() =~= Seq::empty());
        assert(enc_project_seq(ps.push(x)) =~= enc_project_seq(ps) + enc_project(x));
    } else {
        assert(ps.push(x).drop_first() =~= ps.drop_first().push(x));
        lemma_enc_project_seq_push(ps.drop_first(), x);
        assert(ps.push(x)[0] == ps[0]);
        assert(enc_project_seq(ps.push(x)) =~= enc_project_seq(ps) + enc_project(x));
    }
}

/// Appending one more exported key extends the encoded element run.
proof fn lemma_enc_key_seq_push(ks: Seq<KeyExportV>, x: KeyExportV)
    ensures
        enc_key_seq(ks.push(x)) == enc_key_seq(ks) + enc_key_export(x),
    decreases ks.len(),
{
    if ks.len() == 0 {
        assert(ks.push(x)[0] == x);
        assert(ks.push(x).drop_first() =~= Seq::empty());
        assert(enc_key_seq(ks.push(x)) =~= enc_key_seq(ks) + enc_key_export(x));
    } else {
        assert(ks.push(x).drop_first() =~= ks.drop_first().push(x));
        lemma_enc_key_seq_push(ks.drop_first(), x);
        assert(ks.push(x)[0] == ks[0]);
        assert(enc_key_seq(ks.push(x)) =~= enc_key_seq(ks) + enc_key_export(x));
    }
}

/// Appending one more exported token extends the encoded element run.
proof fn lemma_enc_token_seq_push(ts: Seq<TokenExportV>, x: TokenExportV)
    ensures
        enc_token_seq(ts.push(x)) == enc_token_seq(ts) + enc_token_export(x),
    decreases ts.len(),
{
    if ts.len() == 0 {
        assert(ts.push(x)[0] == x);
        assert(ts.push(x).drop_first() =~= Seq::empty());
        assert(enc_token_seq(ts.push(x)) =~= enc_token_seq(ts) + enc_token_export(x));
    } else {
        assert(ts.push(x).drop_first() =~= ts.drop_first().push(x));
        lemma_enc_token_seq_push(ts.drop_first(), x);
        assert(ts.push(x)[0] == ts[0]);
        assert(enc_token_seq(ts.push(x)) =~= enc_token_seq(ts) + enc_token_export(x));
    }
}

/// Append an integer's encoding.
fn write_u64(out: &mut Vec<u8>, x: u64)
    ensures
        final(out)@ == old(out)@ + enc_u64(x),
{
    let mut b = u64_to_le_bytes(x);
    out.append(&mut b);
}

/// Append a timestamp's encoding.
fn write_time(out: &mut Vec<u8>, x: i64)
    ensures
        final(out)@ == old(out)@ + enc_time(x as int),
{
    write_u64(out, x as u64);
}

/// Append a string's encoding.
fn write_str(out: &mut Vec<u8>, s: &String)
    ensures
        final(out)@ == old(out)@ + enc_str(s@),
        str_ok(s@),
{
    let mut bs = s.as_str().as_bytes_vec();
    write_u64(out, bs.len() as u64);
    out.append(&mut bs);
    proof {
        assert(final(out)@ =~= old(out)@ + enc_str(s@));
    }
}

/// Append an optional string's encoding.
fn write_opt_str(out: &mut Vec<u8>, o: &Option<String>)
    ensures
        final(out)@ == old(out)@ + enc_opt_str(crate::text::opt_view(*o)),
        opt_ok(crate::text::opt_view(*o)),
{
    match o {
        Option::None => {
            out.push(0u8);
            proof {
                assert(final(out)@ =~= old(out)@ + enc_opt_str(crate::text::opt_view(*o)));
            }
        },
        Option::Some(s) => {
            out.push(1u8);
            write_str(out, s);
            proof {
                assert(final(out)@ =~= old(out)@ + enc_opt_str(crate::text::opt_view(*o)));
            }
        },
    }
}

/// Append a string list's encoding.
fn write_strs(out: &mut Vec<u8>, ts: &Vec<String>)
    ensures
        final(out)@ == old(out)@ + enc_strs(crate::text::strings_view(ts@)),
        strs_ok(crate::text::strings_view(ts@)),
{
    let ghost tv = crate::text::strings_view(ts@);
    write_u64(out, ts.len() as u64);
    let mut i: usize = 0;
    while i < ts.len()
        invariant
            0 <= i <= ts@.len(),
            tv == crate::text::strings_view(ts@),
            out@ == old(out)@ + enc_u64(ts@.len() as u64) + enc_str_seq(tv.subrange(0, i as int)),
            forall|j: int| 0 <= j < i ==> str_ok(#[trigger] tv[j]),
        decreases ts@.len() - i,
    {
        let ghost pre = tv.subrange(0, i as int);
        write_str(out, &ts[i]);
        proof {
            assert(tv.subrange(0, i + 1) =~= pre.push(tv[i as int]));
            lemma_enc_str_seq_push(pre, tv[i as int]);
            assert(tv[i as int] == ts@[i as int]@);
            assert(out@ =~= old(out)@ + enc_u64(ts@.len() as u64) + enc_str_seq(
                tv.subrange(0, i + 1),
            ));
        }
        i = i + 1;
    }
    proof {
        assert(tv.subrange(0, tv.len() as int) =~= tv);
        assert(out@ =~= old(out)@ + enc_strs(tv));
    }
}

/// Append a project record's encoding.
fn write_project(out: &mut Vec<u8>, p: &ProjectEntry)
    ensures
        final(out)@ == old(out)@ + enc_project(p@),
        project_ok(p@),
{
    write_str(out, &p.id);
    write_str(out, &p.name);
    write_time(out, p.created_at);
    write_opt_str(out, &p.default_key_id);
    write_opt_str(out, &p.description);
    write_strs(out, &p.tags);
    proof {
        assert(final(out)@ =~= old(out)@ + enc_project(p@));
    }
}

/// Append an exported key's encoding.
fn write_key_export(out: &mut Vec<u8>, k: &KeyExport)
    ensures
        final(out)@ == old(out)@ + enc_key_export(k@),
        key_export_ok(k@),
{
    write_str(out, &k.entry.id);
    write_str(out, &k.entry.project_id);
    write_str(out, &k.entry.name);
    write_str(out, &k.entry.kind);
    write_time(out, k.entry.created_at);
    write_opt_str(out, &k.entry.kid);
    write_opt_str(out, &k.entry.description);
    write_strs(out, &k.entry.tags);
    write_str(out, &k.material);
    proof {
        assert(final(out)@ =~= old(out)@ + enc_key_export(k@));
    }
}

/// Append an exported token's encoding.
fn write_token_export(out: &mut Vec<u8>, t: &TokenExport)
    ensures
        final(out)@ == old(out)@ + enc_token_export(t@),
        token_export_ok(t@),
{
    write_str(out, &t.entry.id);
    write_str(out, &t.entry.project_id);
    write_str(out, &t.entry.name);
    write_time(out, t.entry.created_at);
    write_str(out, &t.token);
    proof {
        assert(final(out)@ =~= old(out)@ + enc_token_export(t@));
    }
}

/// Encode a snapshot into its wire form.
pub fn encode_snapshot(s: &VaultSnapshot) -> (r: Vec<u8>)
    ensures
        r@ == enc_snapshot(s@),
        snapshot_enc_wf(s@),
{
    let ghost sv = s@;
    let mut out: Vec<u8> = Vec::new();
    out.push(s.version);
    write_time(&mut out, s.exported_at);
    let ghost head = seq![sv.version as u8] + enc_time(sv.exported_at);
    proof {
        assert(out@ =~= head);
    }

    write_u64(&mut out, s.projects.len() as u64);
    let ghost pv = crate::types::projects_view(s.projects@);
    let mut i: usize = 0;
    while i < s.projects.len()
        invariant
            sv == s@,
            pv == crate::types::projects_view(s.projects@),
            head == seq![sv.version as u8] + enc_time(sv.exported_at),
            0 <= i <= s.projects@.len(),
            out@ == head + enc_u64(pv.len() as u64) + enc_project_seq(pv.subrange(0, i as int)),
            forall|j: int| 0 <= j < i ==> project_ok(#[trigger] pv[j]),
        decreases s.projects@.len() - i,
    {
        let ghost pre = pv.subrange(0, i as int);
        write_project(&mut out, &s.projects[i]);
        proof {
            assert(pv[i as int] == s.projects@[i as int]@);
            assert(pv.subrange(0, i + 1) =~= pre.push(pv[i as int]));
            lemma_enc_project_seq_push(pre, pv[i as int]);
            assert(out@ =~= head + enc_u64(pv.len() as u64) + enc_project_seq(
                pv.subrange(0, i + 1),
            ));
        }
        i = i + 1;
    }
    proof {
        assert(pv.subrange(0, pv.len() as int) =~= pv);
    }
    let ghost head2 = head + enc_u64(pv.len() as u64) + enc_project_seq(pv);

    write_u64(&mut out, s.keys.len() as u64);
    let ghost kv = crate::snapshot::key_exports_view(s.keys@);
    let mut i: usize = 0;
    while i < s.keys.len()
        invariant
            sv == s@,
            kv == crate::snapshot::key_exports_view(s.keys@),
            0 <= i <= s.keys@.len(),
            out@ == head2 + enc_u64(kv.len() as u64) + enc_key_seq(kv.subrange(0, i as int)),
            forall|j: int| 0 <= j < i ==> key_export_ok(#[trigger] kv[j]),
        decreases s.keys@.len() - i,
    {
        let ghost pre = kv.subrange(0, i as int);
        write_key_export(&mut out, &s.keys[i]);
        proof {
            assert(kv[i as int] == s.keys@[i as int]@);
            assert(kv.subrange(0, i + 1) =~= pre.push(kv[i as int]));
            lemma_enc_key_seq_push(pre, kv[i as int]);
            assert(out@ =~= head2 + enc_u64(kv.len() as u64) + enc_key_seq(
                kv.subrange(0, i + 1),
            ));
        }
        i = i + 1;
    }
    proof {
        assert(kv.subrange(0, kv.len() as int) =~= kv);
    }
    let ghost head3 = head2 + enc_u64(kv.len() as u64) + enc_key_seq(kv);

    write_u64(&mut out, s.tokens.len() as u64);
    let ghost tv = crate::snapshot::token_exports_view(s.tokens@);
    let mut i: usize = 0;
    while i < s.tokens.len()
        invariant
            sv == s@,
            tv == crate::snapshot::token_exports_view(s.tokens@),
            0 <= i <= s.tokens@.len(),
            out@ == head3 + enc_u64(tv.len() as u64) + enc_token_seq(tv.subrange(0, i as int)),
            forall|j: int| 0 <= j < i ==> token_export_ok(#[trigger] tv[j]),
        decreases s.tokens@.len() - i,
    {
        let ghost pre = tv.subrange(0, i as int);
        write_token_export(&mut out, &s.tokens[i]);
        proof {
            assert(tv[i as int] == s.tokens@[i as int]@);
            assert(tv.subrange(0, i + 1) =~= pre.push(tv[i as int]));
            lemma_enc_token_seq_push(pre, tv[i as int]);
            assert(out@ =~= head3 + enc_u64(tv.len() as u64) + enc_token_seq(
                tv.subrange(0, i + 1),
            ));
        }
        i = i + 1;
    }
    proof {
        assert(tv.subrange(0, tv.len() as int) =~= tv);
        assert(out@ =~= enc_snapshot(sv));
    }
    out
}


/// Read the integer at `pos`.
fn read_u64(b: &Vec<u8>, pos: usize) -> (r: Option<(u64, usize)>)
    ensures
        match r {
            Option::Some(v) => parse_u64(b@, pos as int) == Option::Some((v.0, v.1 as int)),
            Option::None => parse_u64(b@, pos as int) is None,
        },
{
    if b.len() >= 8 && pos <= b.len() - 8 {
        let sl = slice_subrange(b.as_slice(), pos, pos + 8);
        let x = u64_from_le_bytes(sl);
        Option::Some((x, pos + 8))
    } else {
        Option::None
    }
}

/// Read the timestamp at `pos`.
fn read_time(b: &Vec<u8>, pos: usize) -> (r: Option<(i64, usize)>)
    ensures
        match r {
            Option::Some(v) => parse_time(b@, pos as int) == Option::Some(
                (v.0 as int, v.1 as int),
            ),
            Option::None => parse_time(b@, pos as int) is None,
        },
{
    match read_u64(b, pos) {
        Option::Some((x, j)) => Option::Some((x as i64, j)),
        Option::None => Option::None,
    }
}

/// Read the tag byte at `pos`.
fn read_u8(b: &Vec<u8>, pos: usize) -> (r: Option<(u8, usize)>)
    ensures
        match r {
            Option::Some(v) => parse_u8(b@, pos as int) == Option::Some((v.0, v.1 as int)),
            Option::None => parse_u8(b@, pos as int) is None,
        },
{
    if pos < b.len() {
        Option::Some((b[pos], pos + 1))
    } else {
        Option::None
    }
}

/// Read the length-prefixed bytes at `pos`.
fn read_bytes(b: &Vec<u8>, pos: usize) -> (r: Option<(Vec<u8>, usize)>)
    ensures
        match r {
            Option::Some(v) => parse_bytes(b@, pos as int) == Option::Some((v.0@, v.1 as int)),
            Option::None => parse_bytes(b@, pos as int) is None,
        },
{
    match read_u64(b, pos) {
        Option::Some((n, j)) => {
            if n > (b.len() - j) as u64 {
                return Option::None;
            }
            let nn = n as usize;
            let mut out: Vec<u8> = Vec::new();
            let mut k: usize = 0;
            while k < nn
                invariant
                    0 <= k <= nn,
                    j + nn <= b@.len(),
                    b@.len() <= usize::MAX,
                    out@ == b@.subrange(j as int, j + k),
                decreases nn - k,
            {
                out.push(b[j + k]);
                assert(out@ =~= b@.subrange(j as int, j + k + 1));
                k = k + 1;
            }
            Option::Some((out, j + nn))
        },
        Option::None => Option::None,
    }
}

/// Read the string at `pos`.
fn read_string(b: &Vec<u8>, pos: usize) -> (r: Option<(String, usize)>)
    ensures
        match r {
            Option::Some(v) => parse_str(b@, pos as int) == Option::Some((v.0@, v.1 as int)),
            Option::None => parse_str(b@, pos as int) is None,
        },
{
    match read_bytes(b, pos) {
        Option::Some((bs, j)) => {
            let ghost bsv = bs@;
            match string_from_utf8(bs) {
                Option::Some(st) => {
                    proof {
                        encode_utf8_decode_utf8(st@);
                    }
                    Option::Some((st, j))
                },
                Option::None => Option::None,
            }
        },
        Option::None => Option::None,
    }
}

/// Read the optional string at `pos`.
fn read_opt_string(b: &Vec<u8>, pos: usize) -> (r: Option<(Option<String>, usize)>)
    ensures
        match r {
            Option::Some(v) => parse_opt_str(b@, pos as int) == Option::Some(
                (crate::text::opt_view(v.0), v.1 as int),
            ),
            Option::None => parse_opt_str(b@, pos as int) is None,
        },
{
    match read_u8(b, pos) {
        Option::Some((tag, j)) => {
            if tag == 0 {
                Option::Some((Option::None, j))
            } else if tag == 1 {
                match read_string(b, j) {
                    Option::Some((st, k)) => Option::Some((Option::Some(st), k)),
                    Option::None => Option::None,
                }
            } else {
                Option::None
            }
        },
        Option::None => Option::None,
    }
}

/// Read the length-prefixed string list at `pos`.
fn read_strings(b: &Vec<u8>, pos: usize) -> (r: Option<(Vec<String>, usize)>)
    ensures
        match r {
            Option::Some(v) => parse_strs(b@, pos as int) == Option::Some(
                (crate::text::strings_view(v.0@), v.1 as int),
            ),
            Option::None => parse_strs(b@, pos as int) is None,
        },
{
    match read_u64(b, pos) {
        Option::Some((n, start)) => {
            let mut out: Vec<String> = Vec::new();
            let mut cur: usize = start;
            let mut idx: u64 = 0;
            while idx < n
                invariant
                    0 <= idx <= n,
                    parse_u64(b@, pos as int) == Option::Some((n, start as int)),
                    parse_str_list(b@, start as int, n as int) == (match parse_str_list(
                        b@,
                        cur as int,
                        n - idx,
                    ) {
                        Option::Some(t) => Option::Some(
                            (crate::text::strings_view(out@) + t.0, t.1),
                        ),
                        Option::None => Option::None::<(Seq<Seq<char>>, int)>,
                    }),
                decreases n - idx,
            {
                let ghost pre = crate::text::strings_view(out@);
                match read_string(b, cur) {
                    Option::Some((st, j)) => {
                        let ghost stv = st@;
                        out.push(st);
                        proof {
                            assert(crate::text::strings_view(out@) =~= pre.push(stv));
                            assert(pre.push(stv) =~= pre + seq![stv]);
                        }
                        cur = j;
                    },
                    Option::None => {
                        return Option::None;
                    },
                }
                idx = idx + 1;
            }
            proof {
                assert(parse_str_list(b@, cur as int, 0int) == Option::Some(
                    (Seq::<Seq<char>>::empty(), cur as int),
                ));
                assert(crate::text::strings_view(out@) + Seq::<Seq<char>>::empty()
                    =~= crate::text::strings_view(out@));
            }
            Option::Some((out, cur))
        },
        Option::None => Option::None,
    }
}

/// Read the project record at `pos`.
fn read_project(b: &Vec<u8>, pos: usize) -> (r: Option<(ProjectEntry, usize)>)
    ensures
        match r {
            Option::Some(v) => parse_project(b@, pos as int) == Option::Some((v.0@, v.1 as int)),
            Option::None => parse_project(b@, pos as int) is None,
        },
{
    let (id, i1) = match read_string(b, pos) {
        Option::Some(x) => x,
        Option::None => {
            return Option::None;
        },
    };
    let (name, i2) = match read_string(b, i1) {
        Option::Some(x) => x,
        Option::None => {
            return Option::None;
        },
    };
    let (created_at, i3) = match read_time(b, i2) {
        Option::Some(x) => x,
        Option::None => {
            return Option::None;
        },
    };
    let (default_key_id, i4) = match read_opt_string(b, i3) {
        Option::Some(x) => x,
        Option::None => {
            return Option::None;
        },
    };
    let (description, i5) = match read_opt_string(b, i4) {
        Option::Some(x) => x,
        Option::None => {
            return Option::None;
        },
    };
    let (tags, i6) = match read_strings(b, i5) {
        Option::Some(x) => x,
        Option::None => {
            return Option::None;
        },
    };
    Option::Some((ProjectEntry { id, name, created_at, default_key_id, description, tags }, i6))
}

/// Read the exported key at `pos`.
fn read_key_export(b: &Vec<u8>, pos: usize) -> (r: Option<(KeyExport, usize)>)
    ensures
        match r {
            Option::Some(v) => parse_key_export(b@, pos as int) == Option::Some(
                (v.0@, v.1 as int),
            ),
            Option::None => parse_key_export(b@, pos as int) is None,
        },
{
    let (id, i1) = match read_string(b, pos) {
        Option::Some(x) => x,
        Option::None => {
            return Option::None;
        },
    };
    let (project_id, i2) = match read_string(b, i1) {
        Option::Some(x) => x,
        Option::None => {
            return Option::None;
        },
    };
    let (name, i3) = match read_string(b, i2) {
        Option::Some(x) => x,
        Option::None => {
            return Option::None;
        },
    };
    let (kind, i4) = match read_string(b, i3) {
        Option::Some(x) => x,
        Option::None => {
            return Option::None;
        },
    };
    let (created_at, i5) = match read_time(b, i4) {
        Option::Some(x) => x,
        Option::None => {
            return Option::None;
        },
    };
    let (kid, i6) = match read_opt_string(b, i5) {
        Option::Some(x) => x,
        Option::None => {
            return Option::None;
        },
    };
    let (description, i7) = match read_opt_string(b, i6) {
        Option::Some(x) => x,
        Option::None => {
            return Option::None;
        },
    };
    let (tags, i8) = match read_strings(b, i7) {
        Option::Some(x) => x,
        Option::None => {
            return Option::None;
        },
    };
    let (material, i9) = match read_string(b, i8) {
        Option::Some(x) => x,
        Option::None => {
            return Option::None;
        },
    };
    Option::Some(
        (
            KeyExport {
                entry: KeyEntry {
                    id,
                    project_id,
                    name,
                    kind,
                    created_at,
                    kid,
                    description,
                    tags,
                },
                material,
            },
            i9,
        ),
    )
}

/// Read the exported token at `pos`.
fn read_token_export(b: &Vec<u8>, pos: usize) -> (r: Option<(TokenExport, usize)>)
    ensures
        match r {
            Option::Some(v) => parse_token_export(b@, pos as int) == Option::Some(
                (v.0@, v.1 as int),
            ),
            Option::None => parse_token_export(b@, pos as int) is None,
        },
{
    let (id, i1) = match read_string(b, pos) {
        Option::Some(x) => x,
        Option::None => {
            return Option::None;
        },
    };
    let (project_id, i2) = match read_string(b, i1) {
        Option::Some(x) => x,
        Option::None => {
            return Option::None;
        },
    };
    let (name, i3) = match read_string(b, i2) {
        Option::Some(x) => x,
        Option::None => {
            return Option::None;
        },
    };
    let (created_at, i4) = match read_time(b, i3) {
        Option::Some(x) => x,
        Option::None => {
            return Option::None;
        },
    };
    let (token, i5) = match read_string(b, i4) {
        Option::Some(x) => x,
        Option::None => {
            return Option::None;
        },
    };
    Option::Some((TokenExport { entry: TokenEntry { id, project_id, name, created_at }, token }, i5))
}

/// Read `n` project records starting at `pos`.
fn read_project_list(b: &Vec<u8>, pos: usize, n: u64) -> (r: Option<(Vec<ProjectEntry>, usize)>)
    ensures
        match r {
            Option::Some(v) => parse_project_list(b@, pos as int, n as int) == Option::Some(
                (crate::types::projects_view(v.0@), v.1 as int),
            ),
            Option::None => parse_project_list(b@, pos as int, n as int) is None,
        },
{
    let mut out: Vec<ProjectEntry> = Vec::new();
    let mut cur: usize = pos;
    let mut idx: u64 = 0;
    while idx < n
        invariant
            0 <= idx <= n,
            parse_project_list(b@, pos as int, n as int) == (match parse_project_list(
                b@,
                cur as int,
                n - idx,
            ) {
                Option::Some(t) => Option::Some((crate::types::projects_view(out@) + t.0, t.1)),
                Option::None => Option::None::<(Seq<ProjectV>, int)>,
            }),
        decreases n - idx,
    {
        let ghost pre = crate::types::projects_view(out@);
        match read_project(b, cur) {
            Option::Some((p, j)) => {
                let ghost pv2 = p@;
                out.push(p);
                proof {
                    assert(crate::types::projects_view(out@) =~= pre.push(pv2));
                    assert(pre.push(pv2) =~= pre + seq![pv2]);
                }
                cur = j;
            },
            Option::None => {
                return Option::None;
            },
        }
        idx = idx + 1;
    }
    proof {
        assert(parse_project_list(b@, cur as int, 0int) == Option::Some(
            (Seq::<ProjectV>::empty(), cur as int),
        ));
        assert(crate::types::projects_view(out@) + Seq::<ProjectV>::empty()
            =~= crate::types::projects_view(out@));
    }
    Option::Some((out, cur))
}

/// Read `n` exported keys starting at `pos`.
fn read_key_list(b: &Vec<u8>, pos: usize, n: u64) -> (r: Option<(Vec<KeyExport>, usize)>)
    ensures
        match r {
            Option::Some(v) => parse_key_list(b@, pos as int, n as int) == Option::Some(
                (crate::snapshot::key_exports_view(v.0@), v.1 as int),
            ),
            Option::None => parse_key_list(b@, pos as int, n as int) is None,
        },
{
    let mut out: Vec<KeyExport> = Vec::new();
    let mut cur: usize = pos;
    let mut idx: u64 = 0;
    while idx < n
        invariant
            0 <= idx <= n,
            parse_key_list(b@, pos as int, n as int) == (match parse_key_list(
                b@,
                cur as int,
                n - idx,
            ) {
                Option::Some(t) => Option::Some(
                    (crate::snapshot::key_exports_view(out@) + t.0, t.1),
                ),
                Option::None => Option::None::<(Seq<KeyExportV>, int)>,
            }),
        decreases n - idx,
    {
        let ghost pre = crate::snapshot::key_exports_view(out@);
        match read_key_export(b, cur) {
            Option::Some((p, j)) => {
                let ghost pv2 = p@;
                out.push(p);
                proof {
                    assert(crate::snapshot::key_exports_view(out@) =~= pre.push(pv2));
                    assert(pre.push(pv2) =~= pre + seq![pv2]);
                }
                cur = j;
            },
            Option::None => {
                return Option::None;
            },
        }
        idx = idx + 1;
    }
    proof {
        assert(parse_key_list(b@, cur as int, 0int) == Option::Some(
            (Seq::<KeyExportV>::empty(), cur as int),
        ));
        assert(crate::snapshot::key_exports_view(out@) + Seq::<KeyExportV>::empty()
            =~= crate::snapshot::key_exports_view(out@));
    }
    Option::Some((out, cur))
}

/// Read `n` exported tokens starting at `pos`.
fn read_token_list(b: &Vec<u8>, pos: usize, n: u64) -> (r: Option<(Vec<TokenExport>, usize)>)
    ensures
        match r {
            Option::Some(v) => parse_token_list(b@, pos as int, n as int) == Option::Some(
                (crate::snapshot::token_exports_view(v.0@), v.1 as int),
            ),
            Option::None => parse_token_list(b@, pos as int, n as int) is None,
        },
{
    let mut out: Vec<TokenExport> = Vec::new();
    let mut cur: usize = pos;
    let mut idx: u64 = 0;
    while idx < n
        invariant
            0 <= idx <= n,
            parse_token_list(b@, pos as int, n as int) == (match parse_token_list(
                b@,
                cur as int,
                n - idx,
            ) {
                Option::Some(t) => Option::Some(
                    (crate::snapshot::token_exports_view(out@) + t.0, t.1),
                ),
                Option::None => Option::None::<(Seq<TokenExportV>, int)>,
            }),
        decreases n - idx,
    {
        let ghost pre = crate::snapshot::token_exports_view(out@);
        match read_token_export(b, cur) {
            Option::Some((p, j)) => {
                let ghost pv2 = p@;
                out.push(p);
                proof {
                    assert(crate::snapshot::token_exports_view(out@) =~= pre.push(pv2));
                    assert(pre.push(pv2) =~= pre + seq![pv2]);
                }
                cur = j;
            },
            Option::None => {
                return Option::None;
            },
        }
        idx = idx + 1;
    }
    proof {
        assert(parse_token_list(b@, cur as int, 0int) == Option::Some(
            (Seq::<TokenExportV>::empty(), cur as int),
        ));
        assert(crate::snapshot::token_exports_view(out@) + Seq::<TokenExportV>::empty()
            =~= crate::snapshot::token_exports_view(out@));
    }
    Option::Some((out, cur))
}

/// Decode a snapshot from its wire form: exactly the snapshots whose
/// complete, well-formed encoding the bytes are.
pub fn decode_snapshot(b: &Vec<u8>) -> (r: Option<VaultSnapshot>)
    ensures
        match r {
            Option::Some(s) => parse_snapshot(b@) == Option::Some(s@),
            Option::None => parse_snapshot(b@) is None,
        },
{
    let (version, i1) = match read_u8(b, 0) {
        Option::Some(x) => x,
        Option::None => {
            return Option::None;
        },
    };
    let (exported_at, i2) = match read_time(b, i1) {
        Option::Some(x) => x,
        Option::None => {
            return Option::None;
        },
    };
    let (np, i3) = match read_u64(b, i2) {
        Option::Some(x) => x,
        Option::None => {
            return Option::None;
        },
    };
    let (projects, i4) = match read_project_list(b, i3, np) {
        Option::Some(x) => x,
        Option::None => {
            return Option::None;
        },
    };
    let (nk, i5) = match read_u64(b, i4) {
        Option::Some(x) => x,
        Option::None => {
            return Option::None;
        },
    };
    let (keys, i6) = match read_key_list(b, i5, nk) {
        Option::Some(x) => x,
        Option::None => {
            return Option::None;
        },
    };
    let (nt, i7) = match read_u64(b, i6) {
        Option::Some(x) => x,
        Option::None => {
            return Option::None;
        },
    };
    let (tokens, i8) = match read_token_list(b, i7, nt) {
        Option::Some(x) => x,
        Option::None => {
            return Option::None;
        },
    };
    if i8 != b.len() {
        return Option::None;
    }
    Option::Some(VaultSnapshot { version, exported_at, projects, keys, tokens })
}

} // verus!
