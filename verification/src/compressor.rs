//! Archive planning: algorithms, their names and extensions, and the
//! archive file name built from the user's template.
//!
//! Invoking the external archiving tool and probing sizes is process and
//! filesystem work that stays with the caller; everything decidable from
//! plain values — which algorithms a probe result offers, what the
//! archive file is called — is decided and proved here.

use vstd::prelude::*;

use crate::cleaner::CleaningSelection;
use crate::text::{replace_all, spec_ends_with, spec_replace_all, str_ends_with, string_push_char};

verus! {

/// A request to archive one project.
#[derive(Debug, Clone)]
pub struct CompressionRequest {
    pub project_path: String,
    pub destination_path: String,
    pub compression_algorithm: CompressionAlgorithm,
    pub clean_before_compress: bool,
    pub cleaning_selection: Option<CleaningSelection>,
}

/// The archive formats the application can drive.
#[derive(Debug, Clone, Copy, PartialEq, Eq, Structural)]
pub enum CompressionAlgorithm {
    Zip,
    SevenZip,
    Tar,
    TarGz,
}

/// The file extension each algorithm produces.
pub open spec fn spec_ext_of(a: CompressionAlgorithm) -> Seq<char> {
    match a {
        CompressionAlgorithm::Zip => "zip"@,
        CompressionAlgorithm::SevenZip => "7z"@,
        CompressionAlgorithm::Tar => "tar"@,
        CompressionAlgorithm::TarGz => "tar.gz"@,
    }
}

/// The extension an archive of this format carries.
pub fn get_extension_for_algorithm(algorithm: &CompressionAlgorithm) -> (r: &'static str)
    ensures
        r@ == spec_ext_of(*algorithm),
{
    match algorithm {
        CompressionAlgorithm::Zip => "zip",
        CompressionAlgorithm::SevenZip => "7z",
        CompressionAlgorithm::Tar => "tar",
        CompressionAlgorithm::TarGz => "tar.gz",
    }
}

/// The display name of each algorithm.
pub open spec fn spec_name_of(a: CompressionAlgorithm) -> Seq<char> {
    match a {
        CompressionAlgorithm::Zip => "ZIP"@,
        CompressionAlgorithm::SevenZip => "7-Zip"@,
        CompressionAlgorithm::Tar => "TAR"@,
        CompressionAlgorithm::TarGz => "TAR.GZ"@,
    }
}

/// The name under which this format is shown.
pub fn get_algorithm_name(algorithm: &CompressionAlgorithm) -> (r: &'static str)
    ensures
        r@ == spec_name_of(*algorithm),
{
    match algorithm {
        CompressionAlgorithm::Zip => "ZIP",
        CompressionAlgorithm::SevenZip => "7-Zip",
        CompressionAlgorithm::Tar => "TAR",
        CompressionAlgorithm::TarGz => "TAR.GZ",
    }
}

/// The algorithms offered for the given probe results: each tool found
/// contributes its formats, and a system with none still offers the
/// baseline archive format.
pub open spec fn spec_available(zip: bool, sevenzip: bool, tar: bool) -> Seq<
    CompressionAlgorithm,
> {
    let base = (if zip {
        seq![CompressionAlgorithm::Zip]
    } else {
        Seq::empty()
    }) + (if sevenzip {
        seq![CompressionAlgorithm::SevenZip]
    } else {
        Seq::empty()
    }) + (if tar {
        seq![CompressionAlgorithm::Tar, CompressionAlgorithm::TarGz]
    } else {
        Seq::empty()
    });
    if base.len() == 0 {
        seq![CompressionAlgorithm::Zip]
    } else {
        base
    }
}

/// Which algorithms to offer, given which archiving tools the caller
/// found on the system.
pub fn get_available_compression_algorithms(zip: bool, sevenzip: bool, tar: bool) -> (r: Vec<
    CompressionAlgorithm,
>)
    ensures
        r@ == spec_available(zip, sevenzip, tar),
{
    let mut r: Vec<CompressionAlgorithm> = Vec::new();
    if zip {
        r.push(CompressionAlgorithm::Zip);
    }
    if sevenzip {
        r.push(CompressionAlgorithm::SevenZip);
    }
    if tar {
        r.push(CompressionAlgorithm::Tar);
        r.push(CompressionAlgorithm::TarGz);
    }
    if r.len() == 0 {
        r.push(CompressionAlgorithm::Zip);
    }
    proof {
        assert(r@ =~= spec_available(zip, sevenzip, tar));
    }
    r
}

/// A character the target filesystems refuse in file names, or a path
/// separator.
pub open spec fn spec_invalid_char(c: char) -> bool {
    c == '<' || c == '>' || c == ':' || c == '"' || c == '|' || c == '?' || c == '*' || c == '/'
        || c == '\\'
}

/// The character kept in a file name: invalid ones become underscores.
pub open spec fn spec_sanitize_char(c: char) -> char {
    if spec_invalid_char(c) {
        '_'
    } else {
        c
    }
}

/// ASCII whitespace, as trimmed from file-name ends.
pub open spec fn spec_is_ws(c: char) -> bool {
    c == ' ' || c == '\t' || c == '\n' || c == '\r'
}

/// `s` with leading characters satisfying `pred` removed.
pub open spec fn spec_trim_front(s: Seq<char>, pred: spec_fn(char) -> bool) -> Seq<char>
    decreases s.len(),
{
    if s.len() > 0 && pred(s[0]) {
        spec_trim_front(s.skip(1), pred)
    } else {
        s
    }
}

/// `s` with trailing characters satisfying `pred` removed.
pub open spec fn spec_trim_back(s: Seq<char>, pred: spec_fn(char) -> bool) -> Seq<char>
    decreases s.len(),
{
    if s.len() > 0 && pred(s.last()) {
        spec_trim_back(s.drop_last(), pred)
    } else {
        s
    }
}

/// `s` trimmed at both ends.
pub open spec fn spec_trim(s: Seq<char>, pred: spec_fn(char) -> bool) -> Seq<char> {
    spec_trim_back(spec_trim_front(s, pred), pred)
}

/// A file name made safe: invalid characters replaced by underscores,
/// whitespace and then dots trimmed from the ends, and a fallback name
/// when nothing remains.
pub open spec fn spec_sanitize(s: Seq<char>) -> Seq<char> {
    let mapped = s.map_values(|c: char| spec_sanitize_char(c));
    let trimmed = spec_trim(spec_trim(mapped, |c: char| spec_is_ws(c)), |c: char| c == '.');
    if trimmed.len() == 0 {
        "compressed_project"@
    } else {
        trimmed
    }
}

/// Whether the character is trimmed in the chosen mode: dots, or ASCII
/// whitespace.
fn trimmed_char(dots: bool, c: char) -> (r: bool)
    ensures
        r == if dots {
            c == '.'
        } else {
            spec_is_ws(c)
        },
{
    if dots {
        c == '.'
    } else {
        c == ' ' || c == '\t' || c == '\n' || c == '\r'
    }
}

/// The bounds of `s` once `pred`-satisfying characters are trimmed from
/// both ends: trimming `s` leaves `s[lo..hi]`.
fn trim_bounds_ws(s: &Vec<char>, dots: bool) -> (r: (usize, usize))
    ensures
        r.0 <= r.1 <= s@.len(),
        spec_trim(s@, if dots {
            |c: char| c == '.'
        } else {
            |c: char| spec_is_ws(c)
        }) == s@.subrange(r.0 as int, r.1 as int),
{
    let ghost pred = if dots {
        |c: char| c == '.'
    } else {
        |c: char| spec_is_ws(c)
    };
    let len = s.len();
    let mut lo: usize = 0;
    proof {
        assert(s@.skip(0) =~= s@);
    }
    while lo < len && trimmed_char(dots, s[lo])
        invariant
            lo <= len,
            len == s@.len(),
            pred == (if dots {
                |c: char| c == '.'
            } else {
                |c: char| spec_is_ws(c)
            }),
            spec_trim_front(s@, pred) == spec_trim_front(s@.skip(lo as int), pred),
        decreases len - lo,
    {
        proof {
            assert(s@.skip(lo as int)[0] == s@[lo as int]);
            assert(pred(s@[lo as int]));
            assert(s@.skip(lo as int).skip(1) =~= s@.skip(lo as int + 1));
        }
        lo += 1;
    }
    proof {
        if lo < len {
            assert(!pred(s@.skip(lo as int)[0]));
        }
        assert(spec_trim_front(s@, pred) == s@.skip(lo as int));
    }
    let ghost u = s@.skip(lo as int);
    let mut hi: usize = len;
    proof {
        assert(u.take(hi - lo) =~= u);
    }
    while hi > lo && trimmed_char(dots, s[hi - 1])
        invariant
            lo <= hi <= len,
            len == s@.len(),
            u == s@.skip(lo as int),
            pred == (if dots {
                |c: char| c == '.'
            } else {
                |c: char| spec_is_ws(c)
            }),
            spec_trim_back(u, pred) == spec_trim_back(u.take(hi - lo), pred),
        decreases hi,
    {
        proof {
            assert(u.take(hi - lo).last() == s@[hi - 1]);
            assert(pred(s@[hi - 1]));
            assert(u.take(hi - lo).drop_last() =~= u.take(hi - 1 - lo));
        }
        hi -= 1;
    }
    proof {
        if hi > lo {
            assert(u.take(hi - lo).last() == s@[hi - 1]);
            assert(!pred(u.take(hi - lo).last()));
        }
        assert(spec_trim_back(u, pred) == u.take(hi - lo));
        assert(u.take(hi - lo) =~= s@.subrange(lo as int, hi as int));
    }
    (lo, hi)
}

/// Makes a file name safe for the target filesystems.
pub fn sanitize_filename(filename: &str) -> (r: String)
    ensures
        r@ == spec_sanitize(filename@),
{
    let len = filename.unicode_len();
    let mut mapped: Vec<char> = Vec::new();
    let mut i: usize = 0;
    while i < len
        invariant
            i <= len,
            len == filename@.len(),
            mapped@ == filename@.take(i as int).map_values(|c: char| spec_sanitize_char(c)),
        decreases len - i,
    {
        let c = filename.get_char(i);
        let mapped_c = if c == '<' || c == '>' || c == ':' || c == '"' || c == '|' || c == '?' || c
            == '*' || c == '/' || c == '\\' {
            '_'
        } else {
            c
        };
        mapped.push(mapped_c);
        proof {
            assert(mapped@ =~= filename@.take(i as int + 1).map_values(
                |c: char| spec_sanitize_char(c),
            ));
        }
        i += 1;
    }
    proof {
        assert(filename@.take(len as int) =~= filename@);
    }
    let ws = trim_bounds_ws(&mapped, false);
    let trimmed_ws_vec = {
        let mut v: Vec<char> = Vec::new();
        let mut k: usize = ws.0;
        while k < ws.1
            invariant
                ws.0 <= k <= ws.1 <= mapped@.len(),
                v@ == mapped@.subrange(ws.0 as int, k as int),
            decreases ws.1 - k,
        {
            v.push(mapped[k]);
            proof {
                assert(v@ =~= mapped@.subrange(ws.0 as int, k as int + 1));
            }
            k += 1;
        }
        v
    };
    let dots = trim_bounds_ws(&trimmed_ws_vec, true);
    let mut out = String::new();
    let mut k: usize = dots.0;
    while k < dots.1
        invariant
            dots.0 <= k <= dots.1 <= trimmed_ws_vec@.len(),
            out@ == trimmed_ws_vec@.subrange(dots.0 as int, k as int),
        decreases dots.1 - k,
    {
        string_push_char(&mut out, trimmed_ws_vec[k]);
        proof {
            assert(out@ =~= trimmed_ws_vec@.subrange(dots.0 as int, k as int + 1));
        }
        k += 1;
    }
    proof {
        assert(out@ == spec_trim(
            spec_trim(
                filename@.map_values(|c: char| spec_sanitize_char(c)),
                |c: char| spec_is_ws(c),
            ),
            |c: char| c == '.',
        ));
    }
    if out.as_str().unicode_len() == 0 {
        return "compressed_project".to_owned();
    }
    out
}

/// The template with each bracketed key replaced by its value, applied in
/// the order given.
pub open spec fn spec_render(t: Seq<char>, rs: Seq<(Seq<char>, Seq<char>)>) -> Seq<char>
    decreases rs.len(),
{
    if rs.len() == 0 {
        t
    } else {
        spec_render(
            spec_replace_all(t, seq!['['] + rs[0].0 + seq![']'], rs[0].1),
            rs.skip(1),
        )
    }
}

/// Substitutes every `[key]` of the replacement list into the template,
/// in list order.
pub fn render_template(template: &str, replacements: &Vec<(String, String)>) -> (r: String)
    ensures
        r@ == spec_render(
            template@,
            replacements@.map_values(|p: (String, String)| (p.0@, p.1@)),
        ),
{
    let ghost rv = replacements@.map_values(|p: (String, String)| (p.0@, p.1@));
    let mut cur = template.to_owned();
    let n = replacements.len();
    let mut i: usize = 0;
    proof {
        assert(rv.skip(0) =~= rv);
    }
    while i < n
        invariant
            i <= n,
            n == replacements@.len(),
            rv == replacements@.map_values(|p: (String, String)| (p.0@, p.1@)),
            spec_render(template@, rv) == spec_render(cur@, rv.skip(i as int)),
        decreases n - i,
    {
        proof {
            assert(rv.skip(i as int)[0] == rv[i as int]);
            assert(rv.skip(i as int).skip(1) =~= rv.skip(i as int + 1));
        }
        let mut pat = String::new();
        string_push_char(&mut pat, '[');
        pat.append(replacements[i].0.as_str());
        string_push_char(&mut pat, ']');
        proof {
            assert(pat@ =~= seq!['['] + rv[i as int].0 + seq![']']);
        }
        let next = replace_all(cur.as_str(), pat.as_str(), replacements[i].1.as_str());
        cur = next;
        i += 1;
    }
    proof {
        assert(rv.skip(n as int) =~= Seq::<(Seq<char>, Seq<char>)>::empty());
    }
    cur
}

/// The rendered name with the algorithm's extension appended unless it is
/// already there.
pub open spec fn spec_with_ext(s: Seq<char>, ext: Seq<char>) -> Seq<char> {
    if spec_ends_with(s, seq!['.'] + ext) {
        s
    } else {
        s + seq!['.'] + ext
    }
}

/// The archive file name for a template, a replacement list, and an
/// algorithm: the template rendered, the extension ensured, the result
/// made safe.
pub open spec fn spec_generate_filename(
    t: Seq<char>,
    rs: Seq<(Seq<char>, Seq<char>)>,
    a: CompressionAlgorithm,
) -> Seq<char> {
    spec_sanitize(spec_with_ext(spec_render(t, rs), spec_ext_of(a)))
}

/// Builds the archive file name from the user's template. The caller
/// supplies the replacement values — project facts, date parts, user and
/// machine names — as plain pairs.
pub fn generate_filename(
    template: &str,
    replacements: &Vec<(String, String)>,
    algorithm: &CompressionAlgorithm,
) -> (r: String)
    ensures
        r@ == spec_generate_filename(
            template@,
            replacements@.map_values(|p: (String, String)| (p.0@, p.1@)),
            *algorithm,
        ),
{
    let rendered = render_template(template, replacements);
    let ext = get_extension_for_algorithm(algorithm);
    let mut dot_ext = String::new();
    string_push_char(&mut dot_ext, '.');
    dot_ext.append(ext);
    proof {
        assert(dot_ext@ =~= seq!['.'] + spec_ext_of(*algorithm));
    }
    let with_ext = if str_ends_with(rendered.as_str(), dot_ext.as_str()) {
        rendered
    } else {
        let mut w = rendered;
        w.append(dot_ext.as_str());
        proof {
            assert(w@ =~= spec_with_ext(
                spec_render(
                    template@,
                    replacements@.map_values(|p: (String, String)| (p.0@, p.1@)),
                ),
                spec_ext_of(*algorithm),
            ));
        }
        w
    };
    sanitize_filename(with_ext.as_str())
}

} // verus!
