//! The persisted form of the tracked collection.
//!
//! The collection is framed as one self-describing byte string:
//! little-endian fixed-width integers, length-prefixed character data, one
//! tag byte for options and enums. Decoding inverts encoding exactly; the
//! round-trip law is proved at the bottom of this module.

use vstd::prelude::*;
use vstd::bytes::{
    lemma_auto_spec_u32_to_from_le_bytes, lemma_auto_spec_u64_to_from_le_bytes,
    spec_u32_from_le_bytes, spec_u32_to_le_bytes, spec_u64_from_le_bytes, spec_u64_to_le_bytes,
    u32_from_le_bytes, u32_to_le_bytes, u64_from_le_bytes, u64_to_le_bytes,
};
use vstd::slice::slice_subrange;

use crate::plugins::{ProjectPlugin, ProjectPluginView};
use crate::project::{EngineAssociation, EngineAssociationView, Project, ProjectView};
use crate::settings::CleaningDefaults;
use crate::text::string_push_char;
use crate::tracking::views_of;

verus! {

/// A code point value that is a Unicode scalar value, hence a `char`.
pub open spec fn is_scalar_u32(u: u32) -> bool {
    vstd::utf8::is_scalar(u)
}

/// Relies on char::from_u32: yields the character with the given code
/// exactly on Unicode scalar values, and nothing otherwise.
#[verifier::external_body]
fn char_from_u32(u: u32) -> (r: Option<char>)
    ensures
        r is Some <==> is_scalar_u32(u),
        r is Some ==> r.unwrap() as u32 == u,
{
    char::from_u32(u)
}

/// An encoded 64-bit integer: its eight little-endian bytes.
pub open spec fn spec_enc_u64(x: u64) -> Seq<u8> {
    spec_u64_to_le_bytes(x)
}

/// An encoded boolean: one byte, zero or one.
pub open spec fn spec_enc_bool(b: bool) -> Seq<u8> {
    seq![if b { 1u8 } else { 0u8 }]
}

/// Encoded character data: four little-endian bytes per character.
pub open spec fn spec_enc_chars(s: Seq<char>) -> Seq<u8>
    decreases s.len(),
{
    if s.len() == 0 {
        Seq::empty()
    } else {
        spec_u32_to_le_bytes(s[0] as u32) + spec_enc_chars(s.skip(1))
    }
}

/// An encoded string: its length, then its characters.
pub open spec fn spec_enc_str(s: Seq<char>) -> Seq<u8> {
    spec_enc_u64(s.len() as u64) + spec_enc_chars(s)
}

/// Decodes a 64-bit integer, returning it and the remaining bytes.
pub open spec fn spec_dec_u64(b: Seq<u8>) -> Option<(u64, Seq<u8>)> {
    if b.len() >= 8 {
        Some((spec_u64_from_le_bytes(b.take(8)), b.skip(8)))
    } else {
        None
    }
}

/// Decodes a boolean; any byte but zero or one is a malformed encoding.
pub open spec fn spec_dec_bool(b: Seq<u8>) -> Option<(bool, Seq<u8>)> {
    if b.len() >= 1 && (b[0] == 0 || b[0] == 1) {
        Some((b[0] == 1, b.skip(1)))
    } else {
        None
    }
}

/// Decodes exactly `n` characters.
pub open spec fn spec_dec_chars(b: Seq<u8>, n: nat) -> Option<(Seq<char>, Seq<u8>)>
    decreases n,
{
    if n == 0 {
        Some((Seq::empty(), b))
    } else if b.len() >= 4 && is_scalar_u32(spec_u32_from_le_bytes(b.take(4))) {
        match spec_dec_chars(b.skip(4), (n - 1) as nat) {
            Some((s, rest)) => Some(
                (seq![spec_u32_from_le_bytes(b.take(4)) as char] + s, rest),
            ),
            None => None,
        }
    } else {
        None
    }
}

/// Decodes a length-prefixed string.
pub open spec fn spec_dec_str(b: Seq<u8>) -> Option<(Seq<char>, Seq<u8>)> {
    match spec_dec_u64(b) {
        Some((n, rest)) => spec_dec_chars(rest, n as nat),
        None => None,
    }
}

/// Decoding inverts encoding for 64-bit integers.
proof fn lemma_dec_enc_u64(x: u64, rest: Seq<u8>)
    ensures
        spec_dec_u64(spec_enc_u64(x) + rest) == Some((x, rest)),
{
    lemma_auto_spec_u64_to_from_le_bytes();
    let b = spec_enc_u64(x) + rest;
    assert(b.take(8) =~= spec_enc_u64(x));
    assert(b.skip(8) =~= rest);
}

/// Decoding inverts encoding for booleans.
proof fn lemma_dec_enc_bool(v: bool, rest: Seq<u8>)
    ensures
        spec_dec_bool(spec_enc_bool(v) + rest) == Some((v, rest)),
{
    let b = spec_enc_bool(v) + rest;
    assert(b[0] == if v { 1u8 } else { 0u8 });
    assert(b.skip(1) =~= rest);
}

/// Decoding inverts encoding for character data of known length.
proof fn lemma_dec_enc_chars(s: Seq<char>, rest: Seq<u8>)
    ensures
        spec_dec_chars(spec_enc_chars(s) + rest, s.len() as nat) == Some((s, rest)),
    decreases s.len(),
{
    lemma_auto_spec_u32_to_from_le_bytes();
    if s.len() == 0 {
        assert(spec_enc_chars(s) + rest =~= rest);
        assert(spec_dec_chars(rest, 0) == Some((Seq::<char>::empty(), rest)));
        assert(s =~= Seq::<char>::empty());
    } else {
        let c = s[0];
        let head = spec_u32_to_le_bytes(c as u32);
        let tail = spec_enc_chars(s.skip(1)) + rest;
        let b = spec_enc_chars(s) + rest;
        assert(b =~= head + tail);
        assert(head.len() == 4);
        assert(b.take(4) =~= head);
        assert(b.skip(4) =~= tail);
        assert(spec_u32_from_le_bytes(b.take(4)) == c as u32);
        vstd::utf8::char_is_scalar(c);
        vstd::utf8::char_u32_cast(c, c as u32);
        lemma_dec_enc_chars(s.skip(1), rest);
        assert(spec_dec_chars(b.skip(4), (s.len() - 1) as nat) == Some((s.skip(1), rest)));
        assert(seq![c] + s.skip(1) =~= s);
    }
}

/// Decoding inverts encoding for strings that fit their length prefix.
proof fn lemma_dec_enc_str(s: Seq<char>, rest: Seq<u8>)
    requires
        s.len() < 0x1_0000_0000_0000_0000,
    ensures
        spec_dec_str(spec_enc_str(s) + rest) == Some((s, rest)),
{
    let b = spec_enc_str(s) + rest;
    assert(b =~= spec_enc_u64(s.len() as u64) + (spec_enc_chars(s) + rest));
    lemma_dec_enc_u64(s.len() as u64, spec_enc_chars(s) + rest);
    lemma_dec_enc_chars(s, rest);
}

/// Appends the encoding of a 64-bit integer.
fn enc_u64_into(out: &mut Vec<u8>, x: u64)
    ensures
        final(out)@ == old(out)@ + spec_enc_u64(x),
{
    let mut bytes = u64_to_le_bytes(x);
    out.append(&mut bytes);
}

/// Appends the encoding of a boolean.
fn enc_bool_into(out: &mut Vec<u8>, b: bool)
    ensures
        final(out)@ == old(out)@ + spec_enc_bool(b),
{
    out.push(if b { 1 } else { 0 });
    proof {
        assert(final(out)@ =~= old(out)@ + spec_enc_bool(b));
    }
}

/// Appends the encoding of a string.
fn enc_str_into(out: &mut Vec<u8>, s: &str)
    ensures
        final(out)@ == old(out)@ + spec_enc_str(s@),
{
    let len = s.unicode_len();
    enc_u64_into(out, len as u64);
    let mut i: usize = 0;
    proof {
        assert(s@.skip(0) =~= s@);
        assert(out@ + spec_enc_chars(s@.skip(0)) =~= old(out)@ + spec_enc_str(s@));
    }
    while i < len
        invariant
            i <= len,
            len == s@.len(),
            out@ + spec_enc_chars(s@.skip(i as int)) == old(out)@ + spec_enc_str(s@),
        decreases len - i,
    {
        let ghost pre = out@;
        let c = s.get_char(i);
        let mut bytes = u32_to_le_bytes(c as u32);
        out.append(&mut bytes);
        proof {
            assert(s@.skip(i as int)[0] == c);
            assert(s@.skip(i as int).skip(1) =~= s@.skip(i as int + 1));
            assert(spec_enc_chars(s@.skip(i as int)) == spec_u32_to_le_bytes(c as u32)
                + spec_enc_chars(s@.skip(i as int + 1)));
            assert(out@ + spec_enc_chars(s@.skip(i as int + 1)) =~= pre + spec_enc_chars(
                s@.skip(i as int),
            ));
        }
        i += 1;
    }
    proof {
        assert(s@.skip(len as int) =~= Seq::<char>::empty());
        assert(out@ + spec_enc_chars(s@.skip(len as int)) =~= out@);
    }
}

/// Reads a 64-bit integer at the cursor.
fn dec_u64_at(bytes: &Vec<u8>, pos: &mut usize) -> (r: Option<u64>)
    requires
        *old(pos) <= bytes@.len(),
    ensures
        *final(pos) <= bytes@.len(),
        match r {
            Some(x) => spec_dec_u64(bytes@.skip(*old(pos) as int)) == Some(
                (x, bytes@.skip(*final(pos) as int)),
            ),
            None => spec_dec_u64(bytes@.skip(*old(pos) as int)) is None,
        },
{
    if bytes.len() - *pos >= 8 {
        let chunk = slice_subrange(bytes.as_slice(), *pos, *pos + 8);
        let x = u64_from_le_bytes(chunk);
        proof {
            assert(chunk@ =~= bytes@.skip(*old(pos) as int).take(8));
            assert(bytes@.skip(*old(pos) as int).skip(8) =~= bytes@.skip(*old(pos) as int + 8));
        }
        *pos += 8;
        Some(x)
    } else {
        None
    }
}

/// Reads a boolean at the cursor.
fn dec_bool_at(bytes: &Vec<u8>, pos: &mut usize) -> (r: Option<bool>)
    requires
        *old(pos) <= bytes@.len(),
    ensures
        *final(pos) <= bytes@.len(),
        match r {
            Some(x) => spec_dec_bool(bytes@.skip(*old(pos) as int)) == Some(
                (x, bytes@.skip(*final(pos) as int)),
            ),
            None => spec_dec_bool(bytes@.skip(*old(pos) as int)) is None,
        },
{
    if bytes.len() - *pos >= 1 {
        let t = bytes[*pos];
        proof {
            assert(bytes@.skip(*old(pos) as int)[0] == t);
            assert(bytes@.skip(*old(pos) as int).skip(1) =~= bytes@.skip(*old(pos) as int + 1));
        }
        if t == 0 || t == 1 {
            *pos += 1;
            Some(t == 1)
        } else {
            None
        }
    } else {
        None
    }
}

/// Reads a length-prefixed string at the cursor.
fn dec_str_at(bytes: &Vec<u8>, pos: &mut usize) -> (r: Option<String>)
    requires
        *old(pos) <= bytes@.len(),
    ensures
        *final(pos) <= bytes@.len(),
        match r {
            Some(s) => spec_dec_str(bytes@.skip(*old(pos) as int)) == Some(
                (s@, bytes@.skip(*final(pos) as int)),
            ),
            None => spec_dec_str(bytes@.skip(*old(pos) as int)) is None,
        },
{
    let n = match dec_u64_at(bytes, pos) {
        Some(n) => n,
        None => {
            return None;
        },
    };
    let ghost whole = bytes@.skip(*old(pos) as int);
    let mut s = String::new();
    let mut done: u64 = 0;
    proof {
        assert(s@ =~= Seq::<char>::empty());
        let rest0 = bytes@.skip(*pos as int);
        assert(spec_dec_str(whole) == spec_dec_chars(rest0, n as nat));
        match spec_dec_chars(rest0, n as nat) {
            Some((t, r)) => {
                assert(s@ + t =~= t);
            },
            None => {},
        }
        assert(spec_dec_str(whole) == spec_dec_chars_prepend(s@, rest0, n as nat));
    }
    while done < n
        invariant
            done <= n,
            *pos <= bytes@.len(),
            s@.len() == done,
            whole == bytes@.skip(*old(pos) as int),
            spec_dec_str(whole) == spec_dec_chars_prepend(s@, bytes@.skip(*pos as int), (n - done) as nat),
        decreases n - done,
    {
        let ghost pre = s@;
        let ghost at = bytes@.skip(*pos as int);
        if bytes.len() - *pos < 4 {
            proof {
                assert(spec_dec_chars(at, (n - done) as nat) is None);
            }
            return None;
        }
        let chunk = slice_subrange(bytes.as_slice(), *pos, *pos + 4);
        let u = u32_from_le_bytes(chunk);
        proof {
            assert(chunk@ =~= at.take(4));
            assert(at.skip(4) =~= bytes@.skip(*pos as int + 4));
        }
        match char_from_u32(u) {
            Some(c) => {
                string_push_char(&mut s, c);
                *pos += 4;
                proof {
                    vstd::utf8::char_u32_cast(c, u);
                    assert(pre.push(c) =~= pre + seq![c]);
                    lemma_dec_chars_prepend_step(pre, c, at, (n - done) as nat);
                }
                done += 1;
            },
            None => {
                proof {
                    assert(spec_dec_chars(at, (n - done) as nat) is None);
                }
                return None;
            },
        }
    }
    proof {
        assert(spec_dec_chars(bytes@.skip(*pos as int), 0) == Some(
            (Seq::<char>::empty(), bytes@.skip(*pos as int)),
        ));
        assert(s@ + Seq::<char>::empty() =~= s@);
    }
    Some(s)
}

/// What string decoding yields once `done` characters are already read:
/// those characters, then whatever `n` more decode to.
pub open spec fn spec_dec_chars_prepend(done: Seq<char>, b: Seq<u8>, n: nat) -> Option<
    (Seq<char>, Seq<u8>),
> {
    match spec_dec_chars(b, n) {
        Some((s, rest)) => Some((done + s, rest)),
        None => None,
    }
}

/// Reading one character commutes with prepending it to the done part.
proof fn lemma_dec_chars_prepend_step(done: Seq<char>, c: char, b: Seq<u8>, n: nat)
    requires
        n > 0,
        b.len() >= 4,
        is_scalar_u32(spec_u32_from_le_bytes(b.take(4))),
        spec_u32_from_le_bytes(b.take(4)) as char == c,
    ensures
        spec_dec_chars_prepend(done, b, n) == spec_dec_chars_prepend(
            done + seq![c],
            b.skip(4),
            (n - 1) as nat,
        ),
{
    match spec_dec_chars(b.skip(4), (n - 1) as nat) {
        Some((s, rest)) => {
            assert(spec_dec_chars(b, n) == Some((seq![c] + s, rest)));
            assert(done + (seq![c] + s) =~= (done + seq![c]) + s);
        },
        None => {
        },
    }
}



/// An encoded optional string: one tag byte, then the string if present.
pub open spec fn spec_enc_opt_str(o: Option<Seq<char>>) -> Seq<u8> {
    match o {
        None => seq![0u8],
        Some(s) => seq![1u8] + spec_enc_str(s),
    }
}

/// Decodes an optional string.
pub open spec fn spec_dec_opt_str(b: Seq<u8>) -> Option<(Option<Seq<char>>, Seq<u8>)> {
    if b.len() >= 1 && b[0] == 0 {
        Some((None, b.skip(1)))
    } else if b.len() >= 1 && b[0] == 1 {
        match spec_dec_str(b.skip(1)) {
            Some((s, rest)) => Some((Some(s), rest)),
            None => None,
        }
    } else {
        None
    }
}

/// An encoded optional integer: one tag byte, then the value if present.
pub open spec fn spec_enc_opt_u64(o: Option<u64>) -> Seq<u8> {
    match o {
        None => seq![0u8],
        Some(x) => seq![1u8] + spec_enc_u64(x),
    }
}

/// Decodes an optional integer.
pub open spec fn spec_dec_opt_u64(b: Seq<u8>) -> Option<(Option<u64>, Seq<u8>)> {
    if b.len() >= 1 && b[0] == 0 {
        Some((None, b.skip(1)))
    } else if b.len() >= 1 && b[0] == 1 {
        match spec_dec_u64(b.skip(1)) {
            Some((x, rest)) => Some((Some(x), rest)),
            None => None,
        }
    } else {
        None
    }
}

/// An encoded engine association: a tag byte, then the version if standard.
pub open spec fn spec_enc_engine(e: EngineAssociationView) -> Seq<u8> {
    match e {
        EngineAssociationView::Custom => seq![0u8],
        EngineAssociationView::Standard(v) => seq![1u8] + spec_enc_str(v),
    }
}

/// Decodes an engine association.
pub open spec fn spec_dec_engine(b: Seq<u8>) -> Option<(EngineAssociationView, Seq<u8>)> {
    if b.len() >= 1 && b[0] == 0 {
        Some((EngineAssociationView::Custom, b.skip(1)))
    } else if b.len() >= 1 && b[0] == 1 {
        match spec_dec_str(b.skip(1)) {
            Some((v, rest)) => Some((EngineAssociationView::Standard(v), rest)),
            None => None,
        }
    } else {
        None
    }
}

/// An encoded plugin record: each field in order.
pub open spec fn spec_enc_plugin(p: ProjectPluginView) -> Seq<u8> {
    spec_enc_str(p.name) + spec_enc_bool(p.is_enabled) + spec_enc_bool(p.is_in_project)
        + spec_enc_opt_str(p.marketplace_url) + spec_enc_opt_str(p.docs_url) + spec_enc_opt_u64(
        p.size_on_disk,
    ) + spec_enc_u64(p.last_scan_date)
}

/// Decodes one plugin record.
pub open spec fn spec_dec_plugin(b: Seq<u8>) -> Option<(ProjectPluginView, Seq<u8>)> {
    match spec_dec_str(b) {
        Some((name, b1)) => match spec_dec_bool(b1) {
            Some((is_enabled, b2)) => match spec_dec_bool(b2) {
                Some((is_in_project, b3)) => match spec_dec_opt_str(b3) {
                    Some((marketplace_url, b4)) => match spec_dec_opt_str(b4) {
                        Some((docs_url, b5)) => match spec_dec_opt_u64(b5) {
                            Some((size_on_disk, b6)) => match spec_dec_u64(b6) {
                                Some((last_scan_date, b7)) => Some(
                                    (
                                        ProjectPluginView {
                                            name,
                                            is_enabled,
                                            is_in_project,
                                            marketplace_url,
                                            docs_url,
                                            size_on_disk,
                                            last_scan_date,
                                        },
                                        b7,
                                    ),
                                ),
                                None => None,
                            },
                            None => None,
                        },
                        None => None,
                    },
                    None => None,
                },
                None => None,
            },
            None => None,
        },
        None => None,
    }
}

/// Encoded plugin records, one after another.
pub open spec fn spec_enc_plugins(ps: Seq<ProjectPluginView>) -> Seq<u8>
    decreases ps.len(),
{
    if ps.len() == 0 {
        Seq::empty()
    } else {
        spec_enc_plugin(ps[0]) + spec_enc_plugins(ps.skip(1))
    }
}

/// Decodes exactly `n` plugin records.
pub open spec fn spec_dec_plugins(b: Seq<u8>, n: nat) -> Option<(Seq<ProjectPluginView>, Seq<u8>)>
    decreases n,
{
    if n == 0 {
        Some((Seq::empty(), b))
    } else {
        match spec_dec_plugin(b) {
            Some((p, rest)) => match spec_dec_plugins(rest, (n - 1) as nat) {
                Some((ps, rest2)) => Some((seq![p] + ps, rest2)),
                None => None,
            },
            None => None,
        }
    }
}

/// An encoded project snapshot: each field in order, the plugin list
/// counted then written out.
pub open spec fn spec_enc_project(p: ProjectView) -> Seq<u8> {
    spec_enc_str(p.name) + spec_enc_str(p.description) + spec_enc_engine(p.engine_association)
        + spec_enc_str(p.path) + spec_enc_bool(p.has_cpp) + spec_enc_u64(p.size_on_disk)
        + spec_enc_u64(p.last_scan_date) + spec_enc_u64(p.plugins.len() as u64) + spec_enc_plugins(
        p.plugins,
    )
}

/// Decodes one project snapshot.
pub open spec fn spec_dec_project(b: Seq<u8>) -> Option<(ProjectView, Seq<u8>)> {
    match spec_dec_str(b) {
        Some((name, b1)) => match spec_dec_str(b1) {
            Some((description, b2)) => match spec_dec_engine(b2) {
                Some((engine_association, b3)) => match spec_dec_str(b3) {
                    Some((path, b4)) => match spec_dec_bool(b4) {
                        Some((has_cpp, b5)) => match spec_dec_u64(b5) {
                            Some((size_on_disk, b6)) => match spec_dec_u64(b6) {
                                Some((last_scan_date, b7)) => match spec_dec_u64(b7) {
                                    Some((n, b8)) => match spec_dec_plugins(b8, n as nat) {
                                        Some((plugins, b9)) => Some(
                                            (
                                                ProjectView {
                                                    name,
                                                    description,
                                                    engine_association,
                                                    path,
                                                    has_cpp,
                                                    plugins,
                                                    size_on_disk,
                                                    last_scan_date,
                                                },
                                                b9,
                                            ),
                                        ),
                                        None => None,
                                    },
                                    None => None,
                                },
                                None => None,
                            },
                            None => None,
                        },
                        None => None,
                    },
                    None => None,
                },
                None => None,
            },
            None => None,
        },
        None => None,
    }
}

/// An encoded collection: the entry count, then each snapshot.
pub open spec fn spec_enc_projects_seq(ps: Seq<ProjectView>) -> Seq<u8>
    decreases ps.len(),
{
    if ps.len() == 0 {
        Seq::empty()
    } else {
        spec_enc_project(ps[0]) + spec_enc_projects_seq(ps.skip(1))
    }
}

/// The full persisted form of a collection.
pub open spec fn spec_enc_projects(ps: Seq<ProjectView>) -> Seq<u8> {
    spec_enc_u64(ps.len() as u64) + spec_enc_projects_seq(ps)
}

/// Decodes exactly `n` project snapshots.
pub open spec fn spec_dec_projects_seq(b: Seq<u8>, n: nat) -> Option<(Seq<ProjectView>, Seq<u8>)>
    decreases n,
{
    if n == 0 {
        Some((Seq::empty(), b))
    } else {
        match spec_dec_project(b) {
            Some((p, rest)) => match spec_dec_projects_seq(rest, (n - 1) as nat) {
                Some((ps, rest2)) => Some((seq![p] + ps, rest2)),
                None => None,
            },
            None => None,
        }
    }
}

/// Decodes a full persisted collection, with whatever bytes follow it.
pub open spec fn spec_dec_projects(b: Seq<u8>) -> Option<(Seq<ProjectView>, Seq<u8>)> {
    match spec_dec_u64(b) {
        Some((n, rest)) => spec_dec_projects_seq(rest, n as nat),
        None => None,
    }
}

/// A persisted collection decoded whole: every byte consumed.
pub open spec fn spec_decode_full(b: Seq<u8>) -> Option<Seq<ProjectView>> {
    match spec_dec_projects(b) {
        Some((ps, rest)) => if rest.len() == 0 {
            Some(ps)
        } else {
            None
        },
        None => None,
    }
}

/// A string short enough for its length prefix.
pub open spec fn wf_len(n: nat) -> bool {
    n < 0x1_0000_0000_0000_0000
}

/// A plugin record whose strings fit their length prefixes.
pub open spec fn wf_plugin(p: ProjectPluginView) -> bool {
    &&& wf_len(p.name.len())
    &&& (p.marketplace_url matches Some(u) ==> wf_len(u.len()))
    &&& (p.docs_url matches Some(u) ==> wf_len(u.len()))
}

/// A snapshot whose strings and plugin list fit their length prefixes.
pub open spec fn wf_project(p: ProjectView) -> bool {
    &&& wf_len(p.name.len())
    &&& wf_len(p.description.len())
    &&& wf_len(p.path.len())
    &&& (p.engine_association matches EngineAssociationView::Standard(v) ==> wf_len(v.len()))
    &&& wf_len(p.plugins.len())
    &&& forall|i: int| 0 <= i < p.plugins.len() ==> wf_plugin(#[trigger] p.plugins[i])
}

/// A collection whose snapshots all fit their length prefixes.
pub open spec fn wf_projects(ps: Seq<ProjectView>) -> bool {
    wf_len(ps.len()) && forall|i: int| 0 <= i < ps.len() ==> wf_project(#[trigger] ps[i])
}

proof fn lemma_dec_enc_opt_str(o: Option<Seq<char>>, rest: Seq<u8>)
    requires
        o matches Some(s) ==> wf_len(s.len()),
    ensures
        spec_dec_opt_str(spec_enc_opt_str(o) + rest) == Some((o, rest)),
{
    let b = spec_enc_opt_str(o) + rest;
    match o {
        None => {
            assert(b[0] == 0);
            assert(b.skip(1) =~= rest);
        },
        Some(s) => {
            assert(b[0] == 1);
            assert(b.skip(1) =~= spec_enc_str(s) + rest);
            lemma_dec_enc_str(s, rest);
        },
    }
}

proof fn lemma_dec_enc_opt_u64(o: Option<u64>, rest: Seq<u8>)
    ensures
        spec_dec_opt_u64(spec_enc_opt_u64(o) + rest) == Some((o, rest)),
{
    let b = spec_enc_opt_u64(o) + rest;
    match o {
        None => {
            assert(b[0] == 0);
            assert(b.skip(1) =~= rest);
        },
        Some(x) => {
            assert(b[0] == 1);
            assert(b.skip(1) =~= spec_enc_u64(x) + rest);
            lemma_dec_enc_u64(x, rest);
        },
    }
}

proof fn lemma_dec_enc_engine(e: EngineAssociationView, rest: Seq<u8>)
    requires
        e matches EngineAssociationView::Standard(v) ==> wf_len(v.len()),
    ensures
        spec_dec_engine(spec_enc_engine(e) + rest) == Some((e, rest)),
{
    let b = spec_enc_engine(e) + rest;
    match e {
        EngineAssociationView::Custom => {
            assert(b[0] == 0);
            assert(b.skip(1) =~= rest);
        },
        EngineAssociationView::Standard(v) => {
            assert(b[0] == 1);
            assert(b.skip(1) =~= spec_enc_str(v) + rest);
            lemma_dec_enc_str(v, rest);
        },
    }
}

#[verifier::rlimit(60)]
proof fn lemma_dec_enc_plugin(p: ProjectPluginView, rest: Seq<u8>)
    requires
        wf_plugin(p),
    ensures
        spec_dec_plugin(spec_enc_plugin(p) + rest) == Some((p, rest)),
{
    let b = spec_enc_plugin(p) + rest;
    let t1 = spec_enc_bool(p.is_enabled) + (spec_enc_bool(p.is_in_project) + (spec_enc_opt_str(
        p.marketplace_url,
    ) + (spec_enc_opt_str(p.docs_url) + (spec_enc_opt_u64(p.size_on_disk) + (spec_enc_u64(
        p.last_scan_date,
    ) + rest)))));
    assert(b =~= spec_enc_str(p.name) + t1);
    lemma_dec_enc_str(p.name, t1);
    let t2 = spec_enc_bool(p.is_in_project) + (spec_enc_opt_str(p.marketplace_url) + (
    spec_enc_opt_str(p.docs_url) + (spec_enc_opt_u64(p.size_on_disk) + (spec_enc_u64(
        p.last_scan_date,
    ) + rest))));
    lemma_dec_enc_bool(p.is_enabled, t2);
    let t3 = spec_enc_opt_str(p.marketplace_url) + (spec_enc_opt_str(p.docs_url) + (
    spec_enc_opt_u64(p.size_on_disk) + (spec_enc_u64(p.last_scan_date) + rest)));
    lemma_dec_enc_bool(p.is_in_project, t3);
    let t4 = spec_enc_opt_str(p.docs_url) + (spec_enc_opt_u64(p.size_on_disk) + (spec_enc_u64(
        p.last_scan_date,
    ) + rest));
    lemma_dec_enc_opt_str(p.marketplace_url, t4);
    let t5 = spec_enc_opt_u64(p.size_on_disk) + (spec_enc_u64(p.last_scan_date) + rest);
    lemma_dec_enc_opt_str(p.docs_url, t5);
    let t6 = spec_enc_u64(p.last_scan_date) + rest;
    lemma_dec_enc_opt_u64(p.size_on_disk, t6);
    lemma_dec_enc_u64(p.last_scan_date, rest);
}

proof fn lemma_dec_enc_plugins(ps: Seq<ProjectPluginView>, rest: Seq<u8>)
    requires
        forall|i: int| 0 <= i < ps.len() ==> wf_plugin(#[trigger] ps[i]),
    ensures
        spec_dec_plugins(spec_enc_plugins(ps) + rest, ps.len() as nat) == Some((ps, rest)),
    decreases ps.len(),
{
    if ps.len() == 0 {
        assert(spec_enc_plugins(ps) + rest =~= rest);
        assert(ps =~= Seq::<ProjectPluginView>::empty());
    } else {
        let b = spec_enc_plugins(ps) + rest;
        let tail = spec_enc_plugins(ps.skip(1)) + rest;
        assert(b =~= spec_enc_plugin(ps[0]) + tail);
        lemma_dec_enc_plugin(ps[0], tail);
        assert(forall|i: int|
            0 <= i < ps.skip(1).len() ==> wf_plugin(#[trigger] ps.skip(1)[i]) && ps.skip(1)[i]
                == ps[i + 1]);
        lemma_dec_enc_plugins(ps.skip(1), rest);
        assert(seq![ps[0]] + ps.skip(1) =~= ps);
    }
}

#[verifier::rlimit(100)]
proof fn lemma_dec_enc_project(p: ProjectView, rest: Seq<u8>)
    requires
        wf_project(p),
    ensures
        spec_dec_project(spec_enc_project(p) + rest) == Some((p, rest)),
{
    let b = spec_enc_project(p) + rest;
    let t1 = spec_enc_str(p.description) + (spec_enc_engine(p.engine_association) + (spec_enc_str(
        p.path,
    ) + (spec_enc_bool(p.has_cpp) + (spec_enc_u64(p.size_on_disk) + (spec_enc_u64(
        p.last_scan_date,
    ) + (spec_enc_u64(p.plugins.len() as u64) + (spec_enc_plugins(p.plugins) + rest)))))));
    assert(b =~= spec_enc_str(p.name) + t1);
    lemma_dec_enc_str(p.name, t1);
    let t2 = spec_enc_engine(p.engine_association) + (spec_enc_str(p.path) + (spec_enc_bool(
        p.has_cpp,
    ) + (spec_enc_u64(p.size_on_disk) + (spec_enc_u64(p.last_scan_date) + (spec_enc_u64(
        p.plugins.len() as u64,
    ) + (spec_enc_plugins(p.plugins) + rest))))));
    lemma_dec_enc_str(p.description, t2);
    let t3 = spec_enc_str(p.path) + (spec_enc_bool(p.has_cpp) + (spec_enc_u64(p.size_on_disk) + (
    spec_enc_u64(p.last_scan_date) + (spec_enc_u64(p.plugins.len() as u64) + (spec_enc_plugins(
        p.plugins,
    ) + rest)))));
    lemma_dec_enc_engine(p.engine_association, t3);
    let t4 = spec_enc_bool(p.has_cpp) + (spec_enc_u64(p.size_on_disk) + (spec_enc_u64(
        p.last_scan_date,
    ) + (spec_enc_u64(p.plugins.len() as u64) + (spec_enc_plugins(p.plugins) + rest))));
    lemma_dec_enc_str(p.path, t4);
    let t5 = spec_enc_u64(p.size_on_disk) + (spec_enc_u64(p.last_scan_date) + (spec_enc_u64(
        p.plugins.len() as u64,
    ) + (spec_enc_plugins(p.plugins) + rest)));
    lemma_dec_enc_bool(p.has_cpp, t5);
    let t6 = spec_enc_u64(p.last_scan_date) + (spec_enc_u64(p.plugins.len() as u64) + (
    spec_enc_plugins(p.plugins) + rest));
    lemma_dec_enc_u64(p.size_on_disk, t6);
    let t7 = spec_enc_u64(p.plugins.len() as u64) + (spec_enc_plugins(p.plugins) + rest);
    lemma_dec_enc_u64(p.last_scan_date, t7);
    let t8 = spec_enc_plugins(p.plugins) + rest;
    lemma_dec_enc_u64(p.plugins.len() as u64, t8);
    lemma_dec_enc_plugins(p.plugins, rest);
    assert((p.plugins.len() as u64) as nat == p.plugins.len());
    assert(spec_dec_project(b) == Some((p, rest)));
}

proof fn lemma_dec_enc_projects_seq(ps: Seq<ProjectView>, rest: Seq<u8>)
    requires
        forall|i: int| 0 <= i < ps.len() ==> wf_project(#[trigger] ps[i]),
    ensures
        spec_dec_projects_seq(spec_enc_projects_seq(ps) + rest, ps.len() as nat) == Some(
            (ps, rest),
        ),
    decreases ps.len(),
{
    if ps.len() == 0 {
        assert(spec_enc_projects_seq(ps) + rest =~= rest);
        assert(ps =~= Seq::<ProjectView>::empty());
    } else {
        let b = spec_enc_projects_seq(ps) + rest;
        let tail = spec_enc_projects_seq(ps.skip(1)) + rest;
        assert(b =~= spec_enc_project(ps[0]) + tail);
        lemma_dec_enc_project(ps[0], tail);
        assert(forall|i: int|
            0 <= i < ps.skip(1).len() ==> wf_project(#[trigger] ps.skip(1)[i]) && ps.skip(1)[i]
                == ps[i + 1]);
        lemma_dec_enc_projects_seq(ps.skip(1), rest);
        assert(seq![ps[0]] + ps.skip(1) =~= ps);
    }
}

/// Round-trip law: decoding an encoded collection reproduces it exactly,
/// field for field, for every collection whose strings and counts fit
/// their length prefixes.
pub proof fn lemma_projects_round_trip(ps: Seq<ProjectView>)
    requires
        wf_projects(ps),
    ensures
        spec_decode_full(spec_enc_projects(ps)) == Some(ps),
{
    let b = spec_enc_projects(ps);
    assert(b =~= spec_enc_u64(ps.len() as u64) + (spec_enc_projects_seq(ps) + Seq::<u8>::empty()));
    lemma_dec_enc_u64(ps.len() as u64, spec_enc_projects_seq(ps) + Seq::<u8>::empty());
    lemma_dec_enc_projects_seq(ps, Seq::empty());
    assert((ps.len() as u64) as nat == ps.len());
}


/// Appends the encoding of an optional string.
fn enc_opt_str_into(out: &mut Vec<u8>, o: &Option<String>)
    ensures
        final(out)@ == old(out)@ + spec_enc_opt_str(crate::manifest::view_opt_str(*o)),
{
    match o {
        None => {
            out.push(0);
            proof {
                assert(final(out)@ =~= old(out)@ + spec_enc_opt_str(None));
            }
        },
        Some(s) => {
            let ghost mid = out@.push(1u8);
            out.push(1);
            enc_str_into(out, s.as_str());
            proof {
                assert(out@ =~= old(out)@ + spec_enc_opt_str(Some(s@)));
            }
        },
    }
}

/// Appends the encoding of an optional integer.
fn enc_opt_u64_into(out: &mut Vec<u8>, o: &Option<u64>)
    ensures
        final(out)@ == old(out)@ + spec_enc_opt_u64(*o),
{
    match o {
        None => {
            out.push(0);
            proof {
                assert(final(out)@ =~= old(out)@ + spec_enc_opt_u64(None));
            }
        },
        Some(x) => {
            out.push(1);
            enc_u64_into(out, *x);
            proof {
                assert(out@ =~= old(out)@ + spec_enc_opt_u64(Some(*x)));
            }
        },
    }
}

/// Appends the encoding of an engine association.
fn enc_engine_into(out: &mut Vec<u8>, e: &EngineAssociation)
    ensures
        final(out)@ == old(out)@ + spec_enc_engine(e@),
{
    match e {
        EngineAssociation::Custom => {
            out.push(0);
            proof {
                assert(final(out)@ =~= old(out)@ + spec_enc_engine(e@));
            }
        },
        EngineAssociation::Standard(v) => {
            out.push(1);
            enc_str_into(out, v.as_str());
            proof {
                assert(out@ =~= old(out)@ + spec_enc_engine(e@));
            }
        },
    }
}

/// Appends the encoding of one plugin record.
fn enc_plugin_into(out: &mut Vec<u8>, p: &ProjectPlugin)
    ensures
        final(out)@ == old(out)@ + spec_enc_plugin(p@),
{
    enc_str_into(out, p.name.as_str());
    enc_bool_into(out, p.is_enabled);
    enc_bool_into(out, p.is_in_project);
    enc_opt_str_into(out, &p.marketplace_url);
    enc_opt_str_into(out, &p.docs_url);
    enc_opt_u64_into(out, &p.size_on_disk);
    enc_u64_into(out, p.last_scan_date);
    proof {
        assert(out@ =~= old(out)@ + spec_enc_plugin(p@));
    }
}

/// Appends the encoding of one project snapshot.
fn enc_project_into(out: &mut Vec<u8>, p: &Project)
    ensures
        final(out)@ == old(out)@ + spec_enc_project(p@),
{
    enc_str_into(out, p.name.as_str());
    enc_str_into(out, p.description.as_str());
    enc_engine_into(out, &p.engine_association);
    enc_str_into(out, p.path.as_str());
    enc_bool_into(out, p.has_cpp);
    enc_u64_into(out, p.size_on_disk);
    enc_u64_into(out, p.last_scan_date);
    enc_u64_into(out, p.plugins.len() as u64);
    let ghost mid = out@;
    let n = p.plugins.len();
    let ghost pv = p.plugins@.map_values(|q: ProjectPlugin| q@);
    let mut i: usize = 0;
    proof {
        assert(pv.skip(0) =~= pv);
        assert(p@.plugins == pv);
    }
    while i < n
        invariant
            i <= n,
            n == p.plugins@.len(),
            pv == p.plugins@.map_values(|q: ProjectPlugin| q@),
            out@ + spec_enc_plugins(pv.skip(i as int)) == mid + spec_enc_plugins(pv),
        decreases n - i,
    {
        let ghost pre = out@;
        proof {
            assert(pv.skip(i as int)[0] == pv[i as int]);
            assert(pv.skip(i as int).skip(1) =~= pv.skip(i as int + 1));
        }
        enc_plugin_into(out, &p.plugins[i]);
        proof {
            assert(out@ + spec_enc_plugins(pv.skip(i as int + 1)) =~= pre + spec_enc_plugins(
                pv.skip(i as int),
            ));
        }
        i += 1;
    }
    proof {
        assert(pv.skip(n as int) =~= Seq::<ProjectPluginView>::empty());
        assert(out@ + spec_enc_plugins(pv.skip(n as int)) =~= out@);
        assert(out@ =~= old(out)@ + spec_enc_project(p@));
    }
}

/// Encodes a whole collection into its persisted byte form.
pub fn encode_projects(projects: &Vec<Project>) -> (r: Vec<u8>)
    ensures
        r@ == spec_enc_projects(views_of(projects@)),
{
    let ghost pv = views_of(projects@);
    let mut out: Vec<u8> = Vec::new();
    enc_u64_into(&mut out, projects.len() as u64);
    let ghost mid = out@;
    let n = projects.len();
    let mut i: usize = 0;
    proof {
        assert(pv.skip(0) =~= pv);
    }
    while i < n
        invariant
            i <= n,
            n == projects@.len(),
            pv == views_of(projects@),
            out@ + spec_enc_projects_seq(pv.skip(i as int)) == mid + spec_enc_projects_seq(pv),
        decreases n - i,
    {
        let ghost pre = out@;
        proof {
            assert(pv.skip(i as int)[0] == pv[i as int]);
            assert(pv.skip(i as int).skip(1) =~= pv.skip(i as int + 1));
        }
        enc_project_into(&mut out, &projects[i]);
        proof {
            assert(out@ + spec_enc_projects_seq(pv.skip(i as int + 1)) =~= pre
                + spec_enc_projects_seq(pv.skip(i as int)));
        }
        i += 1;
    }
    proof {
        assert(pv.skip(n as int) =~= Seq::<ProjectView>::empty());
        assert(out@ + spec_enc_projects_seq(pv.skip(n as int)) =~= out@);
        assert(out@ =~= spec_enc_projects(pv));
    }
    out
}


/// Reads an optional string at the cursor.
fn dec_opt_str_at(bytes: &Vec<u8>, pos: &mut usize) -> (r: Option<Option<String>>)
    requires
        *old(pos) <= bytes@.len(),
    ensures
        *final(pos) <= bytes@.len(),
        match r {
            Some(o) => spec_dec_opt_str(bytes@.skip(*old(pos) as int)) == Some(
                (crate::manifest::view_opt_str(o), bytes@.skip(*final(pos) as int)),
            ),
            None => spec_dec_opt_str(bytes@.skip(*old(pos) as int)) is None,
        },
{
    if bytes.len() - *pos < 1 {
        return None;
    }
    let t = bytes[*pos];
    proof {
        assert(bytes@.skip(*old(pos) as int)[0] == t);
        assert(bytes@.skip(*old(pos) as int).skip(1) =~= bytes@.skip(*old(pos) as int + 1));
    }
    if t == 0 {
        *pos += 1;
        Some(None)
    } else if t == 1 {
        *pos += 1;
        match dec_str_at(bytes, pos) {
            Some(s) => Some(Some(s)),
            None => None,
        }
    } else {
        None
    }
}

/// Reads an optional integer at the cursor.
fn dec_opt_u64_at(bytes: &Vec<u8>, pos: &mut usize) -> (r: Option<Option<u64>>)
    requires
        *old(pos) <= bytes@.len(),
    ensures
        *final(pos) <= bytes@.len(),
        match r {
            Some(o) => spec_dec_opt_u64(bytes@.skip(*old(pos) as int)) == Some(
                (o, bytes@.skip(*final(pos) as int)),
            ),
            None => spec_dec_opt_u64(bytes@.skip(*old(pos) as int)) is None,
        },
{
    if bytes.len() - *pos < 1 {
        return None;
    }
    let t = bytes[*pos];
    proof {
        assert(bytes@.skip(*old(pos) as int)[0] == t);
        assert(bytes@.skip(*old(pos) as int).skip(1) =~= bytes@.skip(*old(pos) as int + 1));
    }
    if t == 0 {
        *pos += 1;
        Some(None)
    } else if t == 1 {
        *pos += 1;
        match dec_u64_at(bytes, pos) {
            Some(x) => Some(Some(x)),
            None => None,
        }
    } else {
        None
    }
}

/// Reads an engine association at the cursor.
fn dec_engine_at(bytes: &Vec<u8>, pos: &mut usize) -> (r: Option<EngineAssociation>)
    requires
        *old(pos) <= bytes@.len(),
    ensures
        *final(pos) <= bytes@.len(),
        match r {
            Some(e) => spec_dec_engine(bytes@.skip(*old(pos) as int)) == Some(
                (e@, bytes@.skip(*final(pos) as int)),
            ),
            None => spec_dec_engine(bytes@.skip(*old(pos) as int)) is None,
        },
{
    if bytes.len() - *pos < 1 {
        return None;
    }
    let t = bytes[*pos];
    proof {
        assert(bytes@.skip(*old(pos) as int)[0] == t);
        assert(bytes@.skip(*old(pos) as int).skip(1) =~= bytes@.skip(*old(pos) as int + 1));
    }
    if t == 0 {
        *pos += 1;
        Some(EngineAssociation::Custom)
    } else if t == 1 {
        *pos += 1;
        match dec_str_at(bytes, pos) {
            Some(v) => Some(EngineAssociation::Standard(v)),
            None => None,
        }
    } else {
        None
    }
}

/// Reads one plugin record at the cursor.
fn dec_plugin_at(bytes: &Vec<u8>, pos: &mut usize) -> (r: Option<ProjectPlugin>)
    requires
        *old(pos) <= bytes@.len(),
    ensures
        *final(pos) <= bytes@.len(),
        match r {
            Some(p) => spec_dec_plugin(bytes@.skip(*old(pos) as int)) == Some(
                (p@, bytes@.skip(*final(pos) as int)),
            ),
            None => spec_dec_plugin(bytes@.skip(*old(pos) as int)) is None,
        },
{
    let name = match dec_str_at(bytes, pos) {
        Some(v) => v,
        None => {
            return None;
        },
    };
    let is_enabled = match dec_bool_at(bytes, pos) {
        Some(v) => v,
        None => {
            return None;
        },
    };
    let is_in_project = match dec_bool_at(bytes, pos) {
        Some(v) => v,
        None => {
            return None;
        },
    };
    let marketplace_url = match dec_opt_str_at(bytes, pos) {
        Some(v) => v,
        None => {
            return None;
        },
    };
    let docs_url = match dec_opt_str_at(bytes, pos) {
        Some(v) => v,
        None => {
            return None;
        },
    };
    let size_on_disk = match dec_opt_u64_at(bytes, pos) {
        Some(v) => v,
        None => {
            return None;
        },
    };
    let last_scan_date = match dec_u64_at(bytes, pos) {
        Some(v) => v,
        None => {
            return None;
        },
    };
    Some(
        ProjectPlugin {
            name,
            is_enabled,
            is_in_project,
            marketplace_url,
            docs_url,
            size_on_disk,
            last_scan_date,
        },
    )
}

/// What plugin-list decoding yields once some records are already read.
pub open spec fn spec_dec_plugins_prepend(
    done: Seq<ProjectPluginView>,
    b: Seq<u8>,
    n: nat,
) -> Option<(Seq<ProjectPluginView>, Seq<u8>)> {
    match spec_dec_plugins(b, n) {
        Some((s, rest)) => Some((done + s, rest)),
        None => None,
    }
}

proof fn lemma_dec_plugins_prepend_step(
    done: Seq<ProjectPluginView>,
    p: ProjectPluginView,
    b: Seq<u8>,
    b2: Seq<u8>,
    n: nat,
)
    requires
        n > 0,
        spec_dec_plugin(b) == Some((p, b2)),
    ensures
        spec_dec_plugins_prepend(done, b, n) == spec_dec_plugins_prepend(
            done + seq![p],
            b2,
            (n - 1) as nat,
        ),
{
    match spec_dec_plugins(b2, (n - 1) as nat) {
        Some((s, rest)) => {
            assert(spec_dec_plugins(b, n) == Some((seq![p] + s, rest)));
            assert(done + (seq![p] + s) =~= (done + seq![p]) + s);
        },
        None => {
        },
    }
}

/// What collection decoding yields once some snapshots are already read.
pub open spec fn spec_dec_projects_prepend(
    done: Seq<ProjectView>,
    b: Seq<u8>,
    n: nat,
) -> Option<(Seq<ProjectView>, Seq<u8>)> {
    match spec_dec_projects_seq(b, n) {
        Some((s, rest)) => Some((done + s, rest)),
        None => None,
    }
}

proof fn lemma_dec_projects_prepend_step(
    done: Seq<ProjectView>,
    p: ProjectView,
    b: Seq<u8>,
    b2: Seq<u8>,
    n: nat,
)
    requires
        n > 0,
        spec_dec_project(b) == Some((p, b2)),
    ensures
        spec_dec_projects_prepend(done, b, n) == spec_dec_projects_prepend(
            done + seq![p],
            b2,
            (n - 1) as nat,
        ),
{
    match spec_dec_projects_seq(b2, (n - 1) as nat) {
        Some((s, rest)) => {
            assert(spec_dec_projects_seq(b, n) == Some((seq![p] + s, rest)));
            assert(done + (seq![p] + s) =~= (done + seq![p]) + s);
        },
        None => {
        },
    }
}

/// Reads one project snapshot at the cursor.
fn dec_project_at(bytes: &Vec<u8>, pos: &mut usize) -> (r: Option<Project>)
    requires
        *old(pos) <= bytes@.len(),
    ensures
        *final(pos) <= bytes@.len(),
        match r {
            Some(p) => spec_dec_project(bytes@.skip(*old(pos) as int)) == Some(
                (p@, bytes@.skip(*final(pos) as int)),
            ),
            None => spec_dec_project(bytes@.skip(*old(pos) as int)) is None,
        },
{
    let name = match dec_str_at(bytes, pos) {
        Some(v) => v,
        None => {
            return None;
        },
    };
    let description = match dec_str_at(bytes, pos) {
        Some(v) => v,
        None => {
            return None;
        },
    };
    let engine_association = match dec_engine_at(bytes, pos) {
        Some(v) => v,
        None => {
            return None;
        },
    };
    let path = match dec_str_at(bytes, pos) {
        Some(v) => v,
        None => {
            return None;
        },
    };
    let has_cpp = match dec_bool_at(bytes, pos) {
        Some(v) => v,
        None => {
            return None;
        },
    };
    let size_on_disk = match dec_u64_at(bytes, pos) {
        Some(v) => v,
        None => {
            return None;
        },
    };
    let last_scan_date = match dec_u64_at(bytes, pos) {
        Some(v) => v,
        None => {
            return None;
        },
    };
    let n = match dec_u64_at(bytes, pos) {
        Some(v) => v,
        None => {
            return None;
        },
    };
    let ghost at_plugins = bytes@.skip(*pos as int);
    let ghost orig = bytes@.skip(*old(pos) as int);
    let mut plugins: Vec<ProjectPlugin> = Vec::new();
    let mut done: u64 = 0;
    proof {
        let pv = plugins@.map_values(|q: ProjectPlugin| q@);
        assert(pv =~= Seq::<ProjectPluginView>::empty());
        match spec_dec_plugins(at_plugins, n as nat) {
            Some((t, r2)) => {
                assert(pv + t =~= t);
            },
            None => {},
        }
        assert(spec_dec_plugins(at_plugins, n as nat) == spec_dec_plugins_prepend(
            pv,
            at_plugins,
            n as nat,
        ));
    }
    while done < n
        invariant
            done <= n,
            *pos <= bytes@.len(),
            orig == bytes@.skip(*old(pos) as int),
            match spec_dec_plugins(at_plugins, n as nat) {
                Some((ps, rest)) => spec_dec_project(orig) == Some(
                    (
                        ProjectView {
                            name: name@,
                            description: description@,
                            engine_association: engine_association@,
                            path: path@,
                            has_cpp: has_cpp,
                            plugins: ps,
                            size_on_disk: size_on_disk,
                            last_scan_date: last_scan_date,
                        },
                        rest,
                    ),
                ),
                None => spec_dec_project(orig) is None,
            },
            spec_dec_plugins(at_plugins, n as nat) == spec_dec_plugins_prepend(
                plugins@.map_values(|q: ProjectPlugin| q@),
                bytes@.skip(*pos as int),
                (n - done) as nat,
            ),
        decreases n - done,
    {
        let ghost pre = plugins@.map_values(|q: ProjectPlugin| q@);
        let ghost at = bytes@.skip(*pos as int);
        match dec_plugin_at(bytes, pos) {
            Some(p) => {
                proof {
                    lemma_dec_plugins_prepend_step(
                        pre,
                        p@,
                        at,
                        bytes@.skip(*pos as int),
                        (n - done) as nat,
                    );
                }
                plugins.push(p);
                proof {
                    assert(plugins@.map_values(|q: ProjectPlugin| q@) =~= pre + seq![p@]);
                }
                done += 1;
            },
            None => {
                proof {
                    assert(spec_dec_plugins(at, (n - done) as nat) is None);
                }
                return None;
            },
        }
    }
    proof {
        let pv = plugins@.map_values(|q: ProjectPlugin| q@);
        assert(spec_dec_plugins(bytes@.skip(*pos as int), 0) == Some(
            (Seq::<ProjectPluginView>::empty(), bytes@.skip(*pos as int)),
        ));
        assert(pv + Seq::<ProjectPluginView>::empty() =~= pv);
    }
    Some(
        Project {
            name,
            description,
            engine_association,
            path,
            has_cpp,
            plugins,
            size_on_disk,
            last_scan_date,
        },
    )
}

/// Decodes a persisted collection whole. Yields the collection exactly
/// when the bytes are one well-formed encoding with nothing trailing;
/// any malformed or trailing byte yields nothing.
pub fn decode_projects(bytes: &Vec<u8>) -> (r: Option<Vec<Project>>)
    ensures
        match r {
            Some(v) => spec_decode_full(bytes@) == Some(views_of(v@)),
            None => spec_decode_full(bytes@) is None,
        },
{
    let mut pos: usize = 0;
    proof {
        assert(bytes@.skip(0) =~= bytes@);
    }
    let n = match dec_u64_at(bytes, &mut pos) {
        Some(v) => v,
        None => {
            return None;
        },
    };
    let ghost at_items = bytes@.skip(pos as int);
    let mut items: Vec<Project> = Vec::new();
    let mut done: u64 = 0;
    proof {
        let pv = views_of(items@);
        assert(pv =~= Seq::<ProjectView>::empty());
        match spec_dec_projects_seq(at_items, n as nat) {
            Some((t, r2)) => {
                assert(pv + t =~= t);
            },
            None => {},
        }
        assert(spec_dec_projects_seq(at_items, n as nat) == spec_dec_projects_prepend(
            pv,
            at_items,
            n as nat,
        ));
    }
    while done < n
        invariant
            done <= n,
            pos <= bytes@.len(),
            match spec_dec_projects_seq(at_items, n as nat) {
                Some((ps, rest)) => spec_dec_projects(bytes@) == Some((ps, rest)),
                None => spec_dec_projects(bytes@) is None,
            },
            spec_dec_projects_seq(at_items, n as nat) == spec_dec_projects_prepend(
                views_of(items@),
                bytes@.skip(pos as int),
                (n - done) as nat,
            ),
        decreases n - done,
    {
        let ghost pre = views_of(items@);
        let ghost at = bytes@.skip(pos as int);
        match dec_project_at(bytes, &mut pos) {
            Some(p) => {
                proof {
                    lemma_dec_projects_prepend_step(
                        pre,
                        p@,
                        at,
                        bytes@.skip(pos as int),
                        (n - done) as nat,
                    );
                }
                items.push(p);
                proof {
                    assert(views_of(items@) =~= pre + seq![p@]);
                }
                done += 1;
            },
            None => {
                proof {
                    assert(spec_dec_projects_seq(at, (n - done) as nat) is None);
                }
                return None;
            },
        }
    }
    proof {
        let pv = views_of(items@);
        assert(spec_dec_projects_seq(bytes@.skip(pos as int), 0) == Some(
            (Seq::<ProjectView>::empty(), bytes@.skip(pos as int)),
        ));
        assert(pv + Seq::<ProjectView>::empty() =~= pv);
    }
    if pos != bytes.len() {
        proof {
            assert(bytes@.skip(pos as int).len() > 0);
        }
        return None;
    }
    proof {
        assert(bytes@.skip(pos as int).len() == 0);
    }
    Some(items)
}


/// Loads the tracked collection from what the store held. A missing or
/// corrupt store value degrades to the empty collection — availability
/// over consistency — and never fails the caller.
pub fn load_collection(stored: Option<&Vec<u8>>) -> (r: Vec<Project>)
    ensures
        match stored {
            Some(bytes) => match spec_decode_full(bytes@) {
                Some(ps) => views_of(r@) == ps,
                None => r@.len() == 0,
            },
            None => r@.len() == 0,
        },
{
    match stored {
        Some(bytes) => match decode_projects(bytes) {
            Some(projects) => projects,
            None => Vec::new(),
        },
        None => Vec::new(),
    }
}


/// The persisted form of the remembered cleaning defaults: one boolean
/// byte per choice, in a fixed order.
pub open spec fn spec_enc_defaults(d: CleaningDefaults) -> Seq<u8> {
    spec_enc_bool(d.ide_files) + spec_enc_bool(d.binaries) + spec_enc_bool(d.build)
        + spec_enc_bool(d.intermediate) + spec_enc_bool(d.derived_data_cache) + spec_enc_bool(
        d.saved,
    ) + spec_enc_bool(d.analyze_plugins) + spec_enc_bool(d.plugin_binaries) + spec_enc_bool(
        d.plugin_intermediate,
    ) + spec_enc_bool(d.plugin_node_size_cache)
}

/// Decodes remembered cleaning defaults, whole: every byte consumed.
pub open spec fn spec_dec_defaults(b: Seq<u8>) -> Option<CleaningDefaults> {
    match spec_dec_bool(b) {
        Some((ide_files, b1)) => match spec_dec_bool(b1) {
            Some((binaries, b2)) => match spec_dec_bool(b2) {
                Some((build, b3)) => match spec_dec_bool(b3) {
                    Some((intermediate, b4)) => match spec_dec_bool(b4) {
                        Some((derived_data_cache, b5)) => match spec_dec_bool(b5) {
                            Some((saved, b6)) => match spec_dec_bool(b6) {
                                Some((analyze_plugins, b7)) => match spec_dec_bool(b7) {
                                    Some((plugin_binaries, b8)) => match spec_dec_bool(b8) {
                                        Some((plugin_intermediate, b9)) => match spec_dec_bool(
                                            b9,
                                        ) {
                                            Some((plugin_node_size_cache, b10)) => if b10.len()
                                                == 0 {
                                                Some(
                                                    CleaningDefaults {
                                                        ide_files,
                                                        binaries,
                                                        build,
                                                        intermediate,
                                                        derived_data_cache,
                                                        saved,
                                                        analyze_plugins,
                                                        plugin_binaries,
                                                        plugin_intermediate,
                                                        plugin_node_size_cache,
                                                    },
                                                )
                                            } else {
                                                None
                                            },
                                            None => None,
                                        },
                                        None => None,
                                    },
                                    None => None,
                                },
                                None => None,
                            },
                            None => None,
                        },
                        None => None,
                    },
                    None => None,
                },
                None => None,
            },
            None => None,
        },
        None => None,
    }
}

/// Encodes remembered cleaning defaults into their persisted byte form.
pub fn encode_cleaning_defaults(d: &CleaningDefaults) -> (r: Vec<u8>)
    ensures
        r@ == spec_enc_defaults(*d),
{
    let mut out: Vec<u8> = Vec::new();
    enc_bool_into(&mut out, d.ide_files);
    enc_bool_into(&mut out, d.binaries);
    enc_bool_into(&mut out, d.build);
    enc_bool_into(&mut out, d.intermediate);
    enc_bool_into(&mut out, d.derived_data_cache);
    enc_bool_into(&mut out, d.saved);
    enc_bool_into(&mut out, d.analyze_plugins);
    enc_bool_into(&mut out, d.plugin_binaries);
    enc_bool_into(&mut out, d.plugin_intermediate);
    enc_bool_into(&mut out, d.plugin_node_size_cache);
    proof {
        assert(out@ =~= spec_enc_defaults(*d));
    }
    out
}

/// Decodes remembered cleaning defaults. Yields them exactly when the
/// bytes are one well-formed encoding with nothing trailing.
pub fn decode_cleaning_defaults(bytes: &Vec<u8>) -> (r: Option<CleaningDefaults>)
    ensures
        r == spec_dec_defaults(bytes@),
{
    let mut pos: usize = 0;
    proof {
        assert(bytes@.skip(0) =~= bytes@);
    }
    let ide_files = match dec_bool_at(bytes, &mut pos) {
        Some(v) => v,
        None => { return None; },
    };
    let binaries = match dec_bool_at(bytes, &mut pos) {
        Some(v) => v,
        None => { return None; },
    };
    let build = match dec_bool_at(bytes, &mut pos) {
        Some(v) => v,
        None => { return None; },
    };
    let intermediate = match dec_bool_at(bytes, &mut pos) {
        Some(v) => v,
        None => { return None; },
    };
    let derived_data_cache = match dec_bool_at(bytes, &mut pos) {
        Some(v) => v,
        None => { return None; },
    };
    let saved = match dec_bool_at(bytes, &mut pos) {
        Some(v) => v,
        None => { return None; },
    };
    let analyze_plugins = match dec_bool_at(bytes, &mut pos) {
        Some(v) => v,
        None => { return None; },
    };
    let plugin_binaries = match dec_bool_at(bytes, &mut pos) {
        Some(v) => v,
        None => { return None; },
    };
    let plugin_intermediate = match dec_bool_at(bytes, &mut pos) {
        Some(v) => v,
        None => { return None; },
    };
    let plugin_node_size_cache = match dec_bool_at(bytes, &mut pos) {
        Some(v) => v,
        None => { return None; },
    };
    if pos != bytes.len() {
        proof {
            assert(bytes@.skip(pos as int).len() > 0);
        }
        return None;
    }
    proof {
        assert(bytes@.skip(pos as int).len() == 0);
    }
    Some(
        CleaningDefaults {
            ide_files,
            binaries,
            build,
            intermediate,
            derived_data_cache,
            saved,
            analyze_plugins,
            plugin_binaries,
            plugin_intermediate,
            plugin_node_size_cache,
        },
    )
}


} // verus!
