//! Path strings as sequences of segments.
//!
//! The discovery scanner decides exclusion per path *segment*, never by
//! substring, so a directory named `TemplatesArchive` is not confused with
//! one named `Templates`. Paths are plain strings here; both `/` and `\`
//! separate segments, and empty segments (from doubled separators) vanish.

use vstd::prelude::*;

use crate::text::{str_eq, string_push_char};

verus! {

/// Which well-known directory names the discovery scan skips.
#[derive(Clone, Copy)]
pub struct ExclusionFlags {
    pub ignore_templates: bool,
    pub ignore_engine: bool,
    pub ignore_samples: bool,
}

/// A path-segment separator.
pub open spec fn is_sep(c: char) -> bool {
    c == '/' || c == '\\'
}

/// Splits `s` into segments, carrying the partial segment `cur` read so far.
pub open spec fn spec_split_from(s: Seq<char>, cur: Seq<char>) -> Seq<Seq<char>>
    decreases s.len(),
{
    if s.len() == 0 {
        if cur.len() == 0 {
            Seq::empty()
        } else {
            seq![cur]
        }
    } else if is_sep(s[0]) {
        if cur.len() == 0 {
            spec_split_from(s.skip(1), Seq::empty())
        } else {
            seq![cur] + spec_split_from(s.skip(1), Seq::empty())
        }
    } else {
        spec_split_from(s.skip(1), cur.push(s[0]))
    }
}

/// The non-empty segments of a path string, in order.
pub open spec fn spec_segments(s: Seq<char>) -> Seq<Seq<char>> {
    spec_split_from(s, Seq::empty())
}

/// Splits a path into its non-empty segments.
pub fn split_segments(path: &str) -> (r: Vec<String>)
    ensures
        r@.map_values(|s: String| s@) == spec_segments(path@),
{
    let len = path.unicode_len();
    let mut acc: Vec<String> = Vec::new();
    let mut cur = String::new();
    let mut i: usize = 0;
    proof {
        assert(path@.skip(0) =~= path@);
        assert(acc@.map_values(|s: String| s@) + spec_split_from(path@, cur@)
            =~~= spec_split_from(path@, cur@));
    }
    while i < len
        invariant
            i <= len,
            len == path@.len(),
            spec_segments(path@) == acc@.map_values(|s: String| s@) + spec_split_from(
                path@.skip(i as int),
                cur@,
            ),
        decreases len - i,
    {
        let ghost pre_acc = acc@.map_values(|s: String| s@);
        let ghost pre_cur = cur@;
        let ghost rest = path@.skip(i as int);
        let ghost rest1 = path@.skip(i as int + 1);
        let c = path.get_char(i);
        proof {
            assert(rest[0] == path@[i as int]);
            assert(rest.skip(1) =~= rest1);
        }
        if c == '/' || c == '\\' {
            if cur.unicode_len() > 0 {
                let finished = cur;
                cur = String::new();
                acc.push(finished);
                proof {
                    assert(spec_split_from(rest, pre_cur) == seq![pre_cur] + spec_split_from(
                        rest1,
                        Seq::empty(),
                    ));
                    assert(acc@.map_values(|s: String| s@) =~~= pre_acc.push(pre_cur));
                    assert(pre_acc + (seq![pre_cur] + spec_split_from(rest1, Seq::empty()))
                        =~~= pre_acc.push(pre_cur) + spec_split_from(rest1, Seq::empty()));
                    assert(cur@ =~= Seq::<char>::empty());
                }
            } else {
                proof {
                    assert(pre_cur =~= Seq::<char>::empty());
                    assert(spec_split_from(rest, pre_cur) == spec_split_from(rest1, pre_cur));
                }
            }
        } else {
            string_push_char(&mut cur, c);
            proof {
                assert(spec_split_from(rest, pre_cur) == spec_split_from(rest1, pre_cur.push(c)));
            }
        }
        i += 1;
    }
    proof {
        assert(path@.skip(len as int) =~= Seq::<char>::empty());
    }
    if cur.unicode_len() > 0 {
        let ghost pre_acc = acc@.map_values(|s: String| s@);
        let ghost pre_cur = cur@;
        let finished = cur;
        acc.push(finished);
        proof {
            assert(spec_split_from(Seq::empty(), pre_cur) == seq![pre_cur]);
            assert(acc@.map_values(|s: String| s@) =~~= pre_acc.push(pre_cur));
            assert(pre_acc + seq![pre_cur] =~~= pre_acc.push(pre_cur));
        }
    } else {
        proof {
            assert(cur@ =~= Seq::<char>::empty());
            assert(spec_split_from(Seq::<char>::empty(), Seq::<char>::empty())
                == Seq::<Seq<char>>::empty());
            assert(acc@.map_values(|s: String| s@) + Seq::<Seq<char>>::empty() =~~= acc@.map_values(
                |s: String| s@,
            ));
        }
    }
    acc
}

/// Whether one segment, on its own, is shut out by the active flags.
/// The comparison is whole-segment equality, never a substring test.
pub open spec fn seg_excluded(seg: Seq<char>, flags: ExclusionFlags) -> bool {
    ||| (flags.ignore_templates && seg == "Templates"@)
    ||| (flags.ignore_engine && seg == "Engine"@)
    ||| (flags.ignore_samples && seg == "Samples"@)
}

/// A path is excluded exactly when one of its segments is.
pub open spec fn spec_path_excluded(path: Seq<char>, flags: ExclusionFlags) -> bool {
    exists|i: int|
        0 <= i < spec_segments(path).len() && seg_excluded(spec_segments(path)[i], flags)
}

fn seg_is_excluded(seg: &str, flags: ExclusionFlags) -> (r: bool)
    ensures
        r == seg_excluded(seg@, flags),
{
    (flags.ignore_templates && str_eq(seg, "Templates")) || (flags.ignore_engine && str_eq(
        seg,
        "Engine",
    )) || (flags.ignore_samples && str_eq(seg, "Samples"))
}

/// Decides exclusion for one candidate path.
pub fn path_is_excluded(path: &str, flags: ExclusionFlags) -> (r: bool)
    ensures
        r == spec_path_excluded(path@, flags),
{
    let segments = split_segments(path);
    let ghost segs = spec_segments(path@);
    let n = segments.len();
    let mut i: usize = 0;
    while i < n
        invariant
            i <= n,
            n == segs.len(),
            segs == spec_segments(path@),
            segments@.map_values(|s: String| s@) == segs,
            forall|k: int| 0 <= k < i ==> !seg_excluded(segs[k], flags),
        decreases n - i,
    {
        proof {
            assert(segs[i as int] == segments@.map_values(|s: String| s@)[i as int]);
        }
        let hit = seg_is_excluded(segments[i].as_str(), flags);
        if hit {
            proof {
                assert(seg_excluded(spec_segments(path@)[i as int], flags));
                assert(spec_path_excluded(path@, flags));
            }
            return true;
        }
        i += 1;
    }
    false
}

/// Keeps the candidate paths that no active exclusion flag rejects, in
/// their original order.
pub fn filter_candidates(paths: &Vec<String>, flags: ExclusionFlags) -> (r: Vec<String>)
    ensures
        r@.map_values(|s: String| s@) == paths@.map_values(|s: String| s@).filter(
            |p: Seq<char>| !spec_path_excluded(p, flags),
        ),
{
    let ghost all = paths@.map_values(|s: String| s@);
    let ghost pred = |p: Seq<char>| !spec_path_excluded(p, flags);
    let mut r: Vec<String> = Vec::new();
    let n = paths.len();
    let mut i: usize = 0;
    proof {
        reveal_with_fuel(Seq::filter, 1);
        assert(all.take(0) =~= Seq::<Seq<char>>::empty());
        assert(r@.map_values(|s: String| s@) =~~= all.take(0).filter(pred));
    }
    while i < n
        invariant
            i <= n,
            n == paths@.len(),
            all == paths@.map_values(|s: String| s@),
            pred == (|p: Seq<char>| !spec_path_excluded(p, flags)),
            r@.map_values(|s: String| s@) == all.take(i as int).filter(pred),
        decreases n - i,
    {
        let ghost pre = r@.map_values(|s: String| s@);
        let excluded = path_is_excluded(paths[i].as_str(), flags);
        proof {
            reveal(Seq::filter);
            assert(all.take(i as int + 1).drop_last() =~= all.take(i as int));
            assert(all.take(i as int + 1).last() == all[i as int]);
            assert(all[i as int] == paths@[i as int]@);
        }
        if !excluded {
            let kept = paths[i].clone();
            r.push(kept);
            proof {
                assert(r@.map_values(|s: String| s@) =~~= pre.push(paths@[i as int]@));
            }
        }
        i += 1;
    }
    proof {
        assert(all.take(n as int) =~= all);
    }
    r
}

/// The index just past the last separator in `s`, or 0 when `s` holds none.
pub open spec fn spec_after_last_sep(s: Seq<char>) -> int
    decreases s.len(),
{
    if s.len() == 0 {
        0
    } else if is_sep(s.last()) {
        s.len() as int
    } else {
        spec_after_last_sep(s.drop_last())
    }
}

/// The file-name part of a path: everything after the last separator.
pub open spec fn spec_file_name(s: Seq<char>) -> Seq<char> {
    s.skip(spec_after_last_sep(s))
}

proof fn lemma_after_last_sep_bounds(s: Seq<char>)
    ensures
        0 <= spec_after_last_sep(s) <= s.len(),
    decreases s.len(),
{
    if s.len() > 0 && !is_sep(s.last()) {
        lemma_after_last_sep_bounds(s.drop_last());
    }
}

/// The index just past the last separator of `path`, found by a backward
/// scan.
fn after_last_sep(path: &str) -> (r: usize)
    ensures
        r == spec_after_last_sep(path@),
        r <= path@.len(),
{
    let len = path.unicode_len();
    let mut j: usize = len;
    proof {
        assert(path@.take(len as int) =~= path@);
    }
    while j > 0
        invariant
            j <= len,
            len == path@.len(),
            spec_after_last_sep(path@) == spec_after_last_sep(path@.take(j as int)),
        decreases j,
    {
        let c = path.get_char(j - 1);
        proof {
            assert(path@.take(j as int).last() == path@[j as int - 1]);
            assert(path@.take(j as int).drop_last() =~= path@.take(j as int - 1));
        }
        if c == '/' || c == '\\' {
            proof {
                lemma_after_last_sep_bounds(path@.take(j as int));
            }
            return j;
        }
        j -= 1;
    }
    proof {
        assert(path@.take(0) =~= Seq::<char>::empty());
    }
    0
}

/// The index of the last `'.'` in `s` or -1 when there is none.
pub open spec fn spec_last_dot(s: Seq<char>) -> int
    decreases s.len(),
{
    if s.len() == 0 {
        -1
    } else if s.last() == '.' {
        s.len() - 1
    } else {
        spec_last_dot(s.drop_last())
    }
}

proof fn lemma_last_dot_bounds(s: Seq<char>)
    ensures
        -1 <= spec_last_dot(s) < s.len(),
    decreases s.len(),
{
    if s.len() > 0 && s.last() != '.' {
        lemma_last_dot_bounds(s.drop_last());
    }
}

/// The stem of a file name: the part before the final `'.'`, except that a
/// name whose only `'.'` is the leading character keeps it.
pub open spec fn spec_stem_of_name(name: Seq<char>) -> Seq<char> {
    let k = spec_last_dot(name);
    if k <= 0 {
        name
    } else {
        name.take(k)
    }
}

/// The file stem of a path: its file name with the final extension removed.
pub open spec fn spec_file_stem(path: Seq<char>) -> Seq<char> {
    spec_stem_of_name(spec_file_name(path))
}

/// Extracts the file stem of a path, the part that names a project or a
/// plugin.
pub fn file_stem(path: &str) -> (r: String)
    ensures
        r@ == spec_file_stem(path@),
{
    let start = after_last_sep(path);
    let len = path.unicode_len();
    let name = path.substring_char(start, len);
    proof {
        assert(name@ =~= spec_file_name(path@));
    }
    let nlen = name.unicode_len();
    let mut j: usize = nlen;
    proof {
        assert(name@.take(nlen as int) =~= name@);
    }
    while j > 0
        invariant
            j <= nlen,
            nlen == name@.len(),
            name@ == spec_file_name(path@),
            spec_last_dot(name@) == spec_last_dot(name@.take(j as int)),
        decreases j,
    {
        let c = name.get_char(j - 1);
        proof {
            assert(name@.take(j as int).last() == name@[j as int - 1]);
            assert(name@.take(j as int).drop_last() =~= name@.take(j as int - 1));
        }
        if c == '.' {
            proof {
                lemma_last_dot_bounds(name@.take(j as int));
                assert(name@.take(j as int).last() == '.');
                assert(spec_last_dot(name@.take(j as int)) == j - 1);
                assert(spec_last_dot(name@) == j - 1);
            }
            if j - 1 == 0 {
                proof {
                    assert(name@ == spec_file_name(path@));
                    assert(spec_last_dot(spec_file_name(path@)) == 0);
                    assert(spec_file_stem(path@) == name@);
                }
                return name.to_owned();
            }
            let stem = name.substring_char(0, j - 1);
            proof {
                assert(stem@ =~= name@.take(j as int - 1));
                assert(name@ == spec_file_name(path@));
                assert(spec_last_dot(spec_file_name(path@)) == j - 1);
                assert(spec_file_stem(path@) == spec_file_name(path@).take(j as int - 1));
            }
            return stem.to_owned();
        }
        j -= 1;
    }
    proof {
        assert(name@.take(0) =~= Seq::<char>::empty());
    }
    name.to_owned()
}

/// The directory part of a path: everything before the last separator, or
/// the empty string for a bare file name.
pub open spec fn spec_parent_dir(s: Seq<char>) -> Seq<char> {
    let k = spec_after_last_sep(s);
    if k == 0 {
        Seq::empty()
    } else {
        s.take(k - 1)
    }
}

/// The directory holding the file that `path` names.
pub fn parent_dir(path: &str) -> (r: String)
    ensures
        r@ == spec_parent_dir(path@),
{
    let k = after_last_sep(path);
    if k == 0 {
        let r = String::new();
        proof {
            assert(r@ =~= spec_parent_dir(path@));
        }
        r
    } else {
        let p = path.substring_char(0, k - 1);
        proof {
            assert(p@ =~= spec_parent_dir(path@));
        }
        p.to_owned()
    }
}

/// `base` and `name` joined with a forward slash.
pub open spec fn spec_join(base: Seq<char>, name: Seq<char>) -> Seq<char> {
    base + seq!['/'] + name
}

/// Joins a directory and a child name with a forward slash.
pub fn join_path(base: &str, name: &str) -> (r: String)
    ensures
        r@ == spec_join(base@, name@),
{
    let mut r = base.to_owned();
    string_push_char(&mut r, '/');
    r.append(name);
    proof {
        assert(r@ =~= spec_join(base@, name@));
    }
    r
}

} // verus!
