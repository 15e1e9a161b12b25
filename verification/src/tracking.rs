//! The tracked project collection and its four operations.
//!
//! The collection is an insertion-ordered sequence of snapshots keyed by
//! manifest path: no two entries share a path, and display order is
//! user-visible state. Adding appends genuinely new paths only; rescanning
//! replaces in place or appends; removal filters by path; cleaning patches
//! one entry's size and date. Each operation's effect on the whole
//! sequence is stated exactly, and the collection laws are proved at the
//! bottom of this module.

use vstd::prelude::*;
use vstd::pervasive::VecAdditionalExecFns;

use crate::project::{Project, ProjectView};
use crate::text::str_eq;

verus! {

/// No two entries share a path.
pub open spec fn spec_paths_unique(s: Seq<ProjectView>) -> bool {
    forall|i: int, j: int| 0 <= i < j < s.len() ==> s[i].path != s[j].path
}

/// Whether some entry bears the given path.
pub open spec fn spec_contains_path(s: Seq<ProjectView>, p: Seq<char>) -> bool {
    exists|i: int| 0 <= i < s.len() && s[i].path == p
}

/// The collection after adding a batch of snapshots: each one whose path
/// is not yet present is appended, in batch order; the rest are dropped.
pub open spec fn spec_add_new(s: Seq<ProjectView>, ns: Seq<ProjectView>) -> Seq<ProjectView>
    decreases ns.len(),
{
    if ns.len() == 0 {
        s
    } else if spec_contains_path(s, ns[0].path) {
        spec_add_new(s, ns.skip(1))
    } else {
        spec_add_new(s.push(ns[0]), ns.skip(1))
    }
}

/// The collection after one rescanned snapshot lands: the first entry
/// with its path is replaced in place, or it is appended.
pub open spec fn spec_upsert(s: Seq<ProjectView>, p: ProjectView) -> Seq<ProjectView>
    decreases s.len(),
{
    if s.len() == 0 {
        seq![p]
    } else if s[0].path == p.path {
        seq![p] + s.skip(1)
    } else {
        seq![s[0]] + spec_upsert(s.skip(1), p)
    }
}

/// The collection after a batch of rescanned snapshots, upserted in order.
pub open spec fn spec_rescan(s: Seq<ProjectView>, ns: Seq<ProjectView>) -> Seq<ProjectView>
    decreases ns.len(),
{
    if ns.len() == 0 {
        s
    } else {
        spec_rescan(spec_upsert(s, ns[0]), ns.skip(1))
    }
}

/// Whether the path occurs in the given list.
pub open spec fn spec_path_in_list(paths: Seq<Seq<char>>, p: Seq<char>) -> bool {
    exists|i: int| 0 <= i < paths.len() && paths[i] == p
}

/// The collection after removal: every entry whose path is in the list is
/// gone, the rest keep their relative order.
pub open spec fn spec_remove(s: Seq<ProjectView>, paths: Seq<Seq<char>>) -> Seq<ProjectView> {
    s.filter(|p: ProjectView| !spec_path_in_list(paths, p.path))
}

/// One entry with its size and scan date patched, all else untouched.
pub open spec fn spec_patched(p: ProjectView, new_size: u64, now: u64) -> ProjectView {
    ProjectView {
        size_on_disk: new_size,
        last_scan_date: now,
        ..p
    }
}

/// The collection after a cleaning pass: the first entry with the given
/// path has its size and scan date patched; no entry otherwise changes.
pub open spec fn spec_update_size(
    s: Seq<ProjectView>,
    path: Seq<char>,
    new_size: u64,
    now: u64,
) -> Seq<ProjectView>
    decreases s.len(),
{
    if s.len() == 0 {
        s
    } else if s[0].path == path {
        seq![spec_patched(s[0], new_size, now)] + s.skip(1)
    } else {
        seq![s[0]] + spec_update_size(s.skip(1), path, new_size, now)
    }
}

/// The view of a project vector.
pub open spec fn views_of(v: Seq<Project>) -> Seq<ProjectView> {
    v.map_values(|p: Project| p@)
}

/// Whether some tracked entry bears the given path.
pub fn contains_path(known: &Vec<Project>, path: &str) -> (r: bool)
    ensures
        r == spec_contains_path(views_of(known@), path@),
{
    let n = known.len();
    let mut i: usize = 0;
    while i < n
        invariant
            i <= n,
            n == known@.len(),
            forall|k: int| 0 <= k < i ==> views_of(known@)[k].path != path@,
        decreases n - i,
    {
        if str_eq(known[i].path.as_str(), path) {
            proof {
                assert(views_of(known@)[i as int].path == path@);
            }
            return true;
        }
        proof {
            assert(views_of(known@)[i as int].path == known@[i as int].path@);
        }
        i += 1;
    }
    false
}

/// The index of the first tracked entry with the given path, if any.
fn find_path_index(known: &Vec<Project>, path: &str) -> (r: Option<usize>)
    ensures
        match r {
            Some(i) => i < known@.len() && views_of(known@)[i as int].path == path@ && forall|
                k: int,
            | 0 <= k < i ==> views_of(known@)[k].path != path@,
            None => !spec_contains_path(views_of(known@), path@),
        },
{
    let n = known.len();
    let mut i: usize = 0;
    while i < n
        invariant
            i <= n,
            n == known@.len(),
            forall|k: int| 0 <= k < i ==> views_of(known@)[k].path != path@,
        decreases n - i,
    {
        if str_eq(known[i].path.as_str(), path) {
            proof {
                assert(views_of(known@)[i as int].path == path@);
            }
            return Some(i);
        }
        proof {
            assert(views_of(known@)[i as int].path == known@[i as int].path@);
        }
        i += 1;
    }
    None
}

/// The candidate paths that are not yet tracked, in candidate order: the
/// ones a discovery scan still has to build snapshots for.
pub fn unknown_paths(known: &Vec<Project>, candidates: &Vec<String>) -> (r: Vec<String>)
    ensures
        r@.map_values(|s: String| s@) == candidates@.map_values(|s: String| s@).filter(
            |p: Seq<char>| !spec_contains_path(views_of(known@), p),
        ),
{
    let ghost kv = views_of(known@);
    let ghost cv = candidates@.map_values(|s: String| s@);
    let ghost pred = |p: Seq<char>| !spec_contains_path(kv, p);
    let mut r: Vec<String> = Vec::new();
    let n = candidates.len();
    let mut i: usize = 0;
    proof {
        reveal_with_fuel(Seq::filter, 1);
        assert(cv.take(0) =~= Seq::<Seq<char>>::empty());
        assert(r@.map_values(|s: String| s@) =~~= cv.take(0).filter(pred));
    }
    while i < n
        invariant
            i <= n,
            n == candidates@.len(),
            kv == views_of(known@),
            cv == candidates@.map_values(|s: String| s@),
            pred == (|p: Seq<char>| !spec_contains_path(kv, p)),
            r@.map_values(|s: String| s@) == cv.take(i as int).filter(pred),
        decreases n - i,
    {
        let ghost pre = r@.map_values(|s: String| s@);
        let present = contains_path(known, candidates[i].as_str());
        proof {
            reveal(Seq::filter);
            assert(cv.take(i as int + 1).drop_last() =~= cv.take(i as int));
            assert(cv.take(i as int + 1).last() == cv[i as int]);
            assert(cv[i as int] == candidates@[i as int]@);
        }
        if !present {
            let kept = candidates[i].clone();
            r.push(kept);
            proof {
                assert(r@.map_values(|s: String| s@) =~~= pre.push(candidates@[i as int]@));
            }
        }
        i += 1;
    }
    proof {
        assert(cv.take(n as int) =~= cv);
    }
    r
}

/// Adds newly built snapshots to the collection: each one whose path is
/// not yet tracked is appended, in discovery order; already-tracked paths
/// are left exactly as they were.
pub fn add_new(known: &mut Vec<Project>, discovered: Vec<Project>)
    ensures
        views_of(final(known)@) == spec_add_new(views_of(old(known)@), views_of(discovered@)),
{
    let ghost orig = views_of(old(known)@);
    let ghost dv = views_of(discovered@);
    let n = discovered.len();
    let mut i: usize = 0;
    proof {
        assert(dv.skip(0) =~= dv);
    }
    while i < n
        invariant
            i <= n,
            n == discovered@.len(),
            dv == views_of(discovered@),
            spec_add_new(orig, dv) == spec_add_new(views_of(known@), dv.skip(i as int)),
        decreases n - i,
    {
        let ghost pre = views_of(known@);
        proof {
            assert(dv.skip(i as int)[0] == dv[i as int]);
            assert(dv.skip(i as int).skip(1) =~= dv.skip(i as int + 1));
        }
        let present = contains_path(known, discovered[i].path.as_str());
        if !present {
            let snapshot = discovered[i].clone();
            known.push(snapshot);
            proof {
                assert(views_of(known@) =~~= pre.push(dv[i as int]));
            }
        }
        i += 1;
    }
    proof {
        assert(dv.skip(n as int) =~= Seq::<ProjectView>::empty());
    }
}

/// Replaces the first entry sharing the snapshot's path, or appends the
/// snapshot when its path is new.
pub fn upsert(known: &mut Vec<Project>, snapshot: Project)
    ensures
        views_of(final(known)@) == spec_upsert(views_of(old(known)@), snapshot@),
{
    let found = find_path_index(known, snapshot.path.as_str());
    match found {
        Some(i) => {
            proof {
                lemma_upsert_at_index(views_of(known@), snapshot@, i as int);
            }
            known.set(i, snapshot);
            proof {
                assert(views_of(known@) =~~= views_of(old(known)@).update(i as int, snapshot@));
            }
        },
        None => {
            proof {
                lemma_upsert_append(views_of(known@), snapshot@);
            }
            known.push(snapshot);
            proof {
                assert(views_of(known@) =~~= views_of(old(known)@).push(snapshot@));
            }
        },
    }
}

/// Rescans land in order: each snapshot replaces its entry in place or is
/// appended.
pub fn rescan(known: &mut Vec<Project>, snapshots: Vec<Project>)
    ensures
        views_of(final(known)@) == spec_rescan(views_of(old(known)@), views_of(snapshots@)),
{
    let ghost orig = views_of(old(known)@);
    let ghost sv = views_of(snapshots@);
    let mut rest = snapshots;
    let n = rest.len();
    let mut i: usize = 0;
    proof {
        assert(sv.skip(0) =~= sv);
    }
    while i < n
        invariant
            i <= n,
            n == rest@.len(),
            sv == views_of(rest@),
            spec_rescan(orig, sv) == spec_rescan(views_of(known@), sv.skip(i as int)),
        decreases n - i,
    {
        proof {
            assert(sv.skip(i as int)[0] == sv[i as int]);
            assert(sv.skip(i as int).skip(1) =~= sv.skip(i as int + 1));
        }
        let snapshot = rest[i].clone();
        proof {
            assert(snapshot@ == sv[i as int]);
        }
        upsert(known, snapshot);
        i += 1;
    }
    proof {
        assert(sv.skip(n as int) =~= Seq::<ProjectView>::empty());
    }
}

/// Removes every entry whose path is in the given list, keeping the rest
/// in their original relative order.
pub fn remove_paths(known: &mut Vec<Project>, paths: &Vec<String>)
    ensures
        views_of(final(known)@) == spec_remove(
            views_of(old(known)@),
            paths@.map_values(|s: String| s@),
        ),
{
    let ghost orig = views_of(old(known)@);
    let ghost pv = paths@.map_values(|s: String| s@);
    let ghost pred = |p: ProjectView| !spec_path_in_list(pv, p.path);
    let mut kept: Vec<Project> = Vec::new();
    let n = known.len();
    let mut i: usize = 0;
    proof {
        reveal_with_fuel(Seq::filter, 1);
        assert(orig.take(0) =~= Seq::<ProjectView>::empty());
        assert(views_of(kept@) =~~= orig.take(0).filter(pred));
    }
    while i < n
        invariant
            i <= n,
            n == known@.len(),
            orig == views_of(known@),
            pv == paths@.map_values(|s: String| s@),
            pred == (|p: ProjectView| !spec_path_in_list(pv, p.path)),
            views_of(kept@) == orig.take(i as int).filter(pred),
        decreases n - i,
    {
        let ghost pre = views_of(kept@);
        let mut in_list = false;
        let m = paths.len();
        let mut k: usize = 0;
        while k < m && !in_list
            invariant
                k <= m,
                m == paths@.len(),
                i < n,
                n == known@.len(),
                pv == paths@.map_values(|s: String| s@),
                in_list ==> spec_path_in_list(pv, known@[i as int].path@),
                !in_list ==> forall|t: int| 0 <= t < k ==> pv[t] != known@[i as int].path@,
            decreases m - k,
        {
            if str_eq(paths[k].as_str(), known[i].path.as_str()) {
                proof {
                    assert(pv[k as int] == known@[i as int].path@);
                }
                in_list = true;
            }
            k += 1;
        }
        proof {
            if !in_list {
                assert(!spec_path_in_list(pv, known@[i as int].path@));
            }
            reveal(Seq::filter);
            assert(orig.take(i as int + 1).drop_last() =~= orig.take(i as int));
            assert(orig.take(i as int + 1).last() == orig[i as int]);
            assert(orig[i as int].path == known@[i as int].path@);
        }
        if !in_list {
            let entry = known[i].clone();
            kept.push(entry);
            proof {
                assert(views_of(kept@) =~~= pre.push(orig[i as int]));
            }
        }
        i += 1;
    }
    proof {
        assert(orig.take(n as int) =~= orig);
    }
    *known = kept;
}

/// Patches the size and scan date of the first entry with the given path;
/// a path that is not tracked leaves the collection untouched.
pub fn update_project_size(known: &mut Vec<Project>, path: &str, new_size: u64, now: u64)
    ensures
        views_of(final(known)@) == spec_update_size(views_of(old(known)@), path@, new_size, now),
{
    let found = find_path_index(known, path);
    match found {
        Some(i) => {
            proof {
                lemma_update_size_at_index(views_of(known@), path@, new_size, now, i as int);
            }
            let mut entry = known[i].clone();
            entry.size_on_disk = new_size;
            entry.last_scan_date = now;
            proof {
                assert(entry@ == spec_patched(views_of(old(known)@)[i as int], new_size, now));
            }
            known.set(i, entry);
            proof {
                assert(views_of(known@) =~~= views_of(old(known)@).update(
                    i as int,
                    spec_patched(views_of(old(known)@)[i as int], new_size, now),
                ));
            }
        },
        None => {
            proof {
                lemma_update_size_absent(views_of(known@), path@, new_size, now);
            }
        },
    }
}

/// One entry with its plugin records and scan date replaced, all else
/// untouched.
pub open spec fn spec_replugged(
    p: ProjectView,
    plugins: Seq<crate::plugins::ProjectPluginView>,
    now: u64,
) -> ProjectView {
    ProjectView { plugins: plugins, last_scan_date: now, ..p }
}

/// The collection after a plugin-only refresh: the first entry with the
/// given path carries the freshly reconciled plugin records and scan
/// date; no entry otherwise changes.
pub open spec fn spec_update_plugins(
    s: Seq<ProjectView>,
    path: Seq<char>,
    plugins: Seq<crate::plugins::ProjectPluginView>,
    now: u64,
) -> Seq<ProjectView>
    decreases s.len(),
{
    if s.len() == 0 {
        s
    } else if s[0].path == path {
        seq![spec_replugged(s[0], plugins, now)] + s.skip(1)
    } else {
        seq![s[0]] + spec_update_plugins(s.skip(1), path, plugins, now)
    }
}

/// Replaces the plugin records and scan date of the first entry with the
/// given path; a path that is not tracked leaves the collection
/// untouched.
pub fn update_project_plugins(
    known: &mut Vec<Project>,
    path: &str,
    plugins: Vec<crate::plugins::ProjectPlugin>,
    now: u64,
)
    ensures
        views_of(final(known)@) == spec_update_plugins(
            views_of(old(known)@),
            path@,
            plugins@.map_values(|q: crate::plugins::ProjectPlugin| q@),
            now,
        ),
{
    let ghost pv = plugins@.map_values(|q: crate::plugins::ProjectPlugin| q@);
    let found = find_path_index(known, path);
    match found {
        Some(i) => {
            proof {
                lemma_update_plugins_at_index(views_of(known@), path@, pv, now, i as int);
            }
            let mut entry = known[i].clone();
            entry.plugins = plugins;
            entry.last_scan_date = now;
            proof {
                assert(entry@ == spec_replugged(views_of(old(known)@)[i as int], pv, now));
            }
            known.set(i, entry);
            proof {
                assert(views_of(known@) =~~= views_of(old(known)@).update(
                    i as int,
                    spec_replugged(views_of(old(known)@)[i as int], pv, now),
                ));
            }
        },
        None => {
            proof {
                lemma_update_plugins_absent(views_of(known@), path@, pv, now);
            }
        },
    }
}

/// Replacing plugins at the first matching index is what
/// `spec_update_plugins` does.
proof fn lemma_update_plugins_at_index(
    s: Seq<ProjectView>,
    path: Seq<char>,
    plugins: Seq<crate::plugins::ProjectPluginView>,
    now: u64,
    i: int,
)
    requires
        0 <= i < s.len(),
        s[i].path == path,
        forall|k: int| 0 <= k < i ==> s[k].path != path,
    ensures
        spec_update_plugins(s, path, plugins, now) == s.update(
            i,
            spec_replugged(s[i], plugins, now),
        ),
    decreases s.len(),
{
    if i == 0 {
        assert(seq![spec_replugged(s[0], plugins, now)] + s.skip(1) =~= s.update(
            0,
            spec_replugged(s[0], plugins, now),
        ));
    } else {
        assert(s.skip(1)[i - 1].path == path);
        assert forall|k: int| 0 <= k < i - 1 implies s.skip(1)[k].path != path by {
            assert(s.skip(1)[k] == s[k + 1]);
        }
        lemma_update_plugins_at_index(s.skip(1), path, plugins, now, i - 1);
        assert(seq![s[0]] + s.skip(1).update(i - 1, spec_replugged(s[i], plugins, now)) =~= s.update(
            i,
            spec_replugged(s[i], plugins, now),
        ));
    }
}

/// An untracked path leaves `spec_update_plugins` with nothing to patch.
proof fn lemma_update_plugins_absent(
    s: Seq<ProjectView>,
    path: Seq<char>,
    plugins: Seq<crate::plugins::ProjectPluginView>,
    now: u64,
)
    requires
        !spec_contains_path(s, path),
    ensures
        spec_update_plugins(s, path, plugins, now) == s,
    decreases s.len(),
{
    if s.len() > 0 {
        if s[0].path == path {
            assert(spec_contains_path(s, path));
        }
        assert forall|k: int| 0 <= k < s.skip(1).len() implies s.skip(1)[k].path != path by {
            assert(s.skip(1)[k] == s[k + 1]);
            if s[k + 1].path == path {
                assert(spec_contains_path(s, path));
            }
        }
        assert(!spec_contains_path(s.skip(1), path));
        lemma_update_plugins_absent(s.skip(1), path, plugins, now);
        assert(seq![s[0]] + s.skip(1) =~= s);
    }
}

/// The paths of a collection are untouched by a plugin refresh, so path
/// uniqueness survives it.
pub proof fn lemma_update_plugins_preserves_unique(
    s: Seq<ProjectView>,
    path: Seq<char>,
    plugins: Seq<crate::plugins::ProjectPluginView>,
    now: u64,
)
    requires
        spec_paths_unique(s),
    ensures
        spec_paths_unique(spec_update_plugins(s, path, plugins, now)),
    decreases s.len(),
{
    let r = spec_update_plugins(s, path, plugins, now);
    if s.len() > 0 {
        if s[0].path == path {
            assert forall|i: int, j: int| 0 <= i < j < r.len() implies r[i].path != r[j].path by {
                if i == 0 {
                    assert(r[j] == s.skip(1)[j - 1]);
                    assert(s.skip(1)[j - 1] == s[j]);
                } else {
                    assert(r[i] == s[i]);
                    assert(r[j] == s[j]);
                }
            }
        } else {
            assert forall|i: int, j: int|
                0 <= i < j < s.skip(1).len() implies s.skip(1)[i].path != s.skip(1)[j].path by {
                assert(s.skip(1)[i] == s[i + 1]);
                assert(s.skip(1)[j] == s[j + 1]);
            }
            lemma_update_plugins_preserves_unique(s.skip(1), path, plugins, now);
            let t = spec_update_plugins(s.skip(1), path, plugins, now);
            assert(t.len() == s.skip(1).len()) by {
                lemma_update_plugins_len(s.skip(1), path, plugins, now);
            }
            assert forall|i: int, j: int| 0 <= i < j < r.len() implies r[i].path != r[j].path by {
                lemma_update_plugins_len(s.skip(1), path, plugins, now);
                if i == 0 {
                    assert(r[j] == t[j - 1]);
                    lemma_update_plugins_paths(s.skip(1), path, plugins, now, j - 1);
                    assert(t[j - 1].path == s.skip(1)[j - 1].path);
                    assert(s.skip(1)[j - 1] == s[j]);
                } else {
                    assert(r[i] == t[i - 1]);
                    assert(r[j] == t[j - 1]);
                    lemma_update_plugins_paths(s.skip(1), path, plugins, now, i - 1);
                    lemma_update_plugins_paths(s.skip(1), path, plugins, now, j - 1);
                    assert(s.skip(1)[i - 1] == s[i]);
                    assert(s.skip(1)[j - 1] == s[j]);
                }
            }
        }
    }
}

/// A plugin refresh keeps the collection's length.
proof fn lemma_update_plugins_len(
    s: Seq<ProjectView>,
    path: Seq<char>,
    plugins: Seq<crate::plugins::ProjectPluginView>,
    now: u64,
)
    ensures
        spec_update_plugins(s, path, plugins, now).len() == s.len(),
    decreases s.len(),
{
    if s.len() > 0 && s[0].path != path {
        lemma_update_plugins_len(s.skip(1), path, plugins, now);
    }
}

/// A plugin refresh keeps every entry's path.
proof fn lemma_update_plugins_paths(
    s: Seq<ProjectView>,
    path: Seq<char>,
    plugins: Seq<crate::plugins::ProjectPluginView>,
    now: u64,
    k: int,
)
    requires
        0 <= k < s.len(),
    ensures
        spec_update_plugins(s, path, plugins, now).len() == s.len(),
        spec_update_plugins(s, path, plugins, now)[k].path == s[k].path,
    decreases s.len(),
{
    lemma_update_plugins_len(s, path, plugins, now);
    if s.len() > 0 && s[0].path != path && k > 0 {
        lemma_update_plugins_paths(s.skip(1), path, plugins, now, k - 1);
        assert(spec_update_plugins(s, path, plugins, now)[k] == spec_update_plugins(
            s.skip(1),
            path,
            plugins,
            now,
        )[k - 1]);
        assert(s.skip(1)[k - 1] == s[k]);
    } else if s.len() > 0 && s[0].path == path && k > 0 {
        assert(spec_update_plugins(s, path, plugins, now)[k] == s.skip(1)[k - 1]);
        assert(s.skip(1)[k - 1] == s[k]);
    }
}

/// Replacing at the first matching index is what `spec_upsert` does.
proof fn lemma_upsert_at_index(s: Seq<ProjectView>, p: ProjectView, i: int)
    requires
        0 <= i < s.len(),
        s[i].path == p.path,
        forall|k: int| 0 <= k < i ==> s[k].path != p.path,
    ensures
        spec_upsert(s, p) == s.update(i, p),
    decreases s.len(),
{
    if i == 0 {
        assert(spec_upsert(s, p) == seq![p] + s.skip(1));
        assert(seq![p] + s.skip(1) =~= s.update(0, p));
    } else {
        assert(s.skip(1)[i - 1].path == p.path);
        assert forall|k: int| 0 <= k < i - 1 implies s.skip(1)[k].path != p.path by {
            assert(s.skip(1)[k] == s[k + 1]);
        }
        lemma_upsert_at_index(s.skip(1), p, i - 1);
        assert(seq![s[0]] + s.skip(1).update(i - 1, p) =~= s.update(i, p));
    }
}

/// Appending is what `spec_upsert` does when the path is new.
proof fn lemma_upsert_append(s: Seq<ProjectView>, p: ProjectView)
    requires
        !spec_contains_path(s, p.path),
    ensures
        spec_upsert(s, p) == s.push(p),
    decreases s.len(),
{
    if s.len() == 0 {
        assert(spec_upsert(s, p) =~= s.push(p));
    } else {
        if s[0].path == p.path {
            assert(spec_contains_path(s, p.path));
        }
        assert forall|k: int| 0 <= k < s.skip(1).len() implies s.skip(1)[k].path != p.path by {
            assert(s.skip(1)[k] == s[k + 1]);
            if s[k + 1].path == p.path {
                assert(spec_contains_path(s, p.path));
            }
        }
        assert(!spec_contains_path(s.skip(1), p.path));
        lemma_upsert_append(s.skip(1), p);
        assert(seq![s[0]] + s.skip(1).push(p) =~= s.push(p));
    }
}

/// Patching at the first matching index is what `spec_update_size` does.
proof fn lemma_update_size_at_index(
    s: Seq<ProjectView>,
    path: Seq<char>,
    new_size: u64,
    now: u64,
    i: int,
)
    requires
        0 <= i < s.len(),
        s[i].path == path,
        forall|k: int| 0 <= k < i ==> s[k].path != path,
    ensures
        spec_update_size(s, path, new_size, now) == s.update(i, spec_patched(s[i], new_size, now)),
    decreases s.len(),
{
    if i == 0 {
        assert(seq![spec_patched(s[0], new_size, now)] + s.skip(1) =~= s.update(
            0,
            spec_patched(s[0], new_size, now),
        ));
    } else {
        assert(s.skip(1)[i - 1].path == path);
        assert forall|k: int| 0 <= k < i - 1 implies s.skip(1)[k].path != path by {
            assert(s.skip(1)[k] == s[k + 1]);
        }
        lemma_update_size_at_index(s.skip(1), path, new_size, now, i - 1);
        assert(seq![s[0]] + s.skip(1).update(i - 1, spec_patched(s[i], new_size, now)) =~= s.update(
            i,
            spec_patched(s[i], new_size, now),
        ));
    }
}

/// Every path present after an upsert was present before or is the
/// upserted snapshot's.
proof fn lemma_upsert_paths(s: Seq<ProjectView>, p: ProjectView, q: Seq<char>)
    ensures
        spec_contains_path(spec_upsert(s, p), q) ==> (spec_contains_path(s, q) || q == p.path),
    decreases s.len(),
{
    let r = spec_upsert(s, p);
    if s.len() == 0 {
        if spec_contains_path(r, q) {
            let i = choose|i: int| 0 <= i < r.len() && r[i].path == q;
            assert(r[0] == p);
        }
    } else if s[0].path == p.path {
        if spec_contains_path(r, q) {
            let i = choose|i: int| 0 <= i < r.len() && r[i].path == q;
            if i > 0 {
                assert(r[i] == s.skip(1)[i - 1]);
                assert(s.skip(1)[i - 1] == s[i]);
                assert(spec_contains_path(s, q));
            }
        }
    } else {
        lemma_upsert_paths(s.skip(1), p, q);
        if spec_contains_path(r, q) {
            let i = choose|i: int| 0 <= i < r.len() && r[i].path == q;
            if i == 0 {
                assert(r[0] == s[0]);
                assert(spec_contains_path(s, q));
            } else {
                assert(r[i] == spec_upsert(s.skip(1), p)[i - 1]);
                assert(spec_contains_path(spec_upsert(s.skip(1), p), q));
                if spec_contains_path(s.skip(1), q) {
                    let j = choose|j: int| 0 <= j < s.skip(1).len() && s.skip(1)[j].path == q;
                    assert(s[j + 1].path == q);
                    assert(spec_contains_path(s, q));
                }
            }
        }
    }
}

/// Path uniqueness law, upsert case: replacing or appending a snapshot
/// keeps paths pairwise distinct.
pub proof fn lemma_upsert_preserves_unique(s: Seq<ProjectView>, p: ProjectView)
    requires
        spec_paths_unique(s),
    ensures
        spec_paths_unique(spec_upsert(s, p)),
    decreases s.len(),
{
    let r = spec_upsert(s, p);
    if s.len() == 0 {
    } else if s[0].path == p.path {
        assert forall|i: int, j: int| 0 <= i < j < r.len() implies r[i].path != r[j].path by {
            if i == 0 {
                assert(r[j] == s.skip(1)[j - 1]);
                assert(s.skip(1)[j - 1] == s[j]);
            } else {
                assert(r[i] == s[i]);
                assert(r[j] == s[j]);
            }
        }
    } else {
        assert forall|i: int, j: int|
            0 <= i < j < s.skip(1).len() implies s.skip(1)[i].path != s.skip(1)[j].path by {
            assert(s.skip(1)[i] == s[i + 1]);
            assert(s.skip(1)[j] == s[j + 1]);
        }
        lemma_upsert_preserves_unique(s.skip(1), p);
        lemma_upsert_paths(s.skip(1), p, s[0].path);
        assert forall|i: int, j: int| 0 <= i < j < r.len() implies r[i].path != r[j].path by {
            let t = spec_upsert(s.skip(1), p);
            if i == 0 {
                assert(r[j] == t[j - 1]);
                if r[0].path == t[j - 1].path {
                    assert(spec_contains_path(t, s[0].path));
                    if spec_contains_path(s.skip(1), s[0].path) {
                        let k = choose|k: int|
                            0 <= k < s.skip(1).len() && s.skip(1)[k].path == s[0].path;
                        assert(s[k + 1].path == s[0].path);
                    }
                }
            } else {
                assert(r[i] == t[i - 1]);
                assert(r[j] == t[j - 1]);
            }
        }
    }
}

/// Path uniqueness law, rescan case: landing a batch of rescans keeps
/// paths pairwise distinct.
pub proof fn lemma_rescan_preserves_unique(s: Seq<ProjectView>, ns: Seq<ProjectView>)
    requires
        spec_paths_unique(s),
    ensures
        spec_paths_unique(spec_rescan(s, ns)),
    decreases ns.len(),
{
    if ns.len() > 0 {
        lemma_upsert_preserves_unique(s, ns[0]);
        lemma_rescan_preserves_unique(spec_upsert(s, ns[0]), ns.skip(1));
    }
}

/// Path uniqueness law, add case: adding a batch keeps paths pairwise
/// distinct, because only untracked paths are appended.
pub proof fn lemma_add_new_preserves_unique(s: Seq<ProjectView>, ns: Seq<ProjectView>)
    requires
        spec_paths_unique(s),
    ensures
        spec_paths_unique(spec_add_new(s, ns)),
    decreases ns.len(),
{
    if ns.len() > 0 {
        if spec_contains_path(s, ns[0].path) {
            lemma_add_new_preserves_unique(s, ns.skip(1));
        } else {
            assert forall|i: int, j: int|
                0 <= i < j < s.push(ns[0]).len() implies s.push(ns[0])[i].path != s.push(
                ns[0],
            )[j].path by {
                if j == s.len() {
                    assert(s.push(ns[0])[i] == s[i]);
                    if s[i].path == ns[0].path {
                        assert(spec_contains_path(s, ns[0].path));
                    }
                } else {
                    assert(s.push(ns[0])[i] == s[i]);
                    assert(s.push(ns[0])[j] == s[j]);
                }
            }
            lemma_add_new_preserves_unique(s.push(ns[0]), ns.skip(1));
        }
    }
}

/// Monotonicity law: adding a batch never removes or changes an existing
/// entry; it only appends snapshots whose paths were genuinely new, each
/// one drawn from the batch.
pub proof fn lemma_add_new_monotonic(s: Seq<ProjectView>, ns: Seq<ProjectView>)
    ensures
        spec_add_new(s, ns).len() >= s.len(),
        spec_add_new(s, ns).take(s.len() as int) == s,
        forall|k: int|
            s.len() <= k < spec_add_new(s, ns).len() ==> !spec_contains_path(
                s,
                #[trigger] spec_add_new(s, ns)[k].path,
            ) && exists|j: int| 0 <= j < ns.len() && spec_add_new(s, ns)[k] == ns[j],
    decreases ns.len(),
{
    let r = spec_add_new(s, ns);
    if ns.len() == 0 {
        assert(r.take(s.len() as int) =~= s);
    } else if spec_contains_path(s, ns[0].path) {
        lemma_add_new_monotonic(s, ns.skip(1));
        assert forall|k: int|
            s.len() <= k < r.len() implies !spec_contains_path(s, #[trigger] r[k].path) && exists|
            j: int,
        | 0 <= j < ns.len() && r[k] == ns[j] by {
            assert(r == spec_add_new(s, ns.skip(1)));
            assert(spec_add_new(s, ns.skip(1))[k].path == r[k].path);
            let j0 = choose|j: int|
                0 <= j < ns.skip(1).len() && spec_add_new(s, ns.skip(1))[k] == ns.skip(1)[j];
            assert(ns.skip(1)[j0] == ns[j0 + 1]);
            assert(0 <= j0 + 1 < ns.len() && r[k] == ns[j0 + 1]);
        }
    } else {
        let s1 = s.push(ns[0]);
        lemma_add_new_monotonic(s1, ns.skip(1));
        assert(spec_add_new(s1, ns.skip(1)).take(s1.len() as int) == s1);
        assert(r.take(s.len() as int) =~= r.take(s1.len() as int).take(s.len() as int));
        assert(s1.take(s.len() as int) =~= s);
        assert forall|k: int|
            s.len() <= k < r.len() implies !spec_contains_path(s, #[trigger] r[k].path) && exists|
            j: int,
        | 0 <= j < ns.len() && r[k] == ns[j] by {
            assert(r == spec_add_new(s1, ns.skip(1)));
            if k == s.len() {
                assert(r[k] == r.take(s1.len() as int)[k]);
                assert(r[k] == s1[k]);
                assert(r[k] == ns[0]);
            } else {
                assert(spec_add_new(s1, ns.skip(1))[k].path == r[k].path);
                assert(!spec_contains_path(s1, r[k].path));
                if spec_contains_path(s, r[k].path) {
                    let t = choose|t: int| 0 <= t < s.len() && s[t].path == r[k].path;
                    assert(s1[t].path == r[k].path);
                    assert(spec_contains_path(s1, r[k].path));
                }
                let j0 = choose|j: int|
                    0 <= j < ns.skip(1).len() && spec_add_new(s1, ns.skip(1))[k] == ns.skip(1)[j];
                assert(ns.skip(1)[j0] == ns[j0 + 1]);
                assert(0 <= j0 + 1 < ns.len() && r[k] == ns[j0 + 1]);
            }
        }
    }
}

/// Rescan idempotence law: two rescans of one path in a row leave the
/// collection exactly as the second alone would.
pub proof fn lemma_upsert_idempotent(s: Seq<ProjectView>, p1: ProjectView, p2: ProjectView)
    requires
        p1.path == p2.path,
    ensures
        spec_upsert(spec_upsert(s, p1), p2) == spec_upsert(s, p2),
    decreases s.len(),
{
    if s.len() == 0 {
        assert(spec_upsert(s, p1) == seq![p1]);
        assert(spec_upsert(seq![p1], p2) =~= seq![p2] + seq![p1].skip(1));
        assert(seq![p2] + seq![p1].skip(1) =~= seq![p2]);
        assert(spec_upsert(s, p2) =~= seq![p2]);
    } else if s[0].path == p1.path {
        let t = seq![p1] + s.skip(1);
        assert(spec_upsert(s, p1) == t);
        assert(t[0] == p1);
        assert(spec_upsert(t, p2) == seq![p2] + t.skip(1));
        assert(t.skip(1) =~= s.skip(1));
        assert(spec_upsert(s, p2) == seq![p2] + s.skip(1));
    } else {
        let t = seq![s[0]] + spec_upsert(s.skip(1), p1);
        assert(spec_upsert(s, p1) == t);
        assert(t[0] == s[0]);
        assert(t[0].path != p2.path);
        assert(spec_upsert(t, p2) == seq![t[0]] + spec_upsert(t.skip(1), p2));
        assert(t.skip(1) =~= spec_upsert(s.skip(1), p1));
        lemma_upsert_idempotent(s.skip(1), p1, p2);
        assert(spec_upsert(s, p2) == seq![s[0]] + spec_upsert(s.skip(1), p2));
    }
}

/// A path present before an upsert, or the upserted snapshot's own, is
/// present after it.
proof fn lemma_upsert_adds_path(s: Seq<ProjectView>, p: ProjectView, q: Seq<char>)
    requires
        q == p.path || spec_contains_path(s, q),
    ensures
        spec_contains_path(spec_upsert(s, p), q),
    decreases s.len(),
{
    let r = spec_upsert(s, p);
    if s.len() == 0 {
        assert(r[0].path == p.path);
    } else if s[0].path == p.path {
        if q == p.path {
            assert(r[0].path == q);
        } else {
            let i = choose|i: int| 0 <= i < s.len() && s[i].path == q;
            assert(i > 0);
            assert(r[i] == s.skip(1)[i - 1]);
            assert(s.skip(1)[i - 1] == s[i]);
        }
    } else {
        if q == p.path || spec_contains_path(s.skip(1), q) {
            lemma_upsert_adds_path(s.skip(1), p, q);
            let j = choose|j: int|
                0 <= j < spec_upsert(s.skip(1), p).len() && spec_upsert(s.skip(1), p)[j].path == q;
            assert(r[j + 1] == spec_upsert(s.skip(1), p)[j]);
        } else {
            let i = choose|i: int| 0 <= i < s.len() && s[i].path == q;
            if i > 0 {
                assert(s.skip(1)[i - 1].path == q);
                assert(spec_contains_path(s.skip(1), q));
            }
            assert(i == 0);
            assert(r[0] == s[0]);
        }
    }
}

/// Two upserts of different paths land in either order, as long as the
/// first path is already tracked (so neither order appends it).
proof fn lemma_upsert_swap(s: Seq<ProjectView>, a: ProjectView, b: ProjectView)
    requires
        a.path != b.path,
        spec_contains_path(s, a.path),
    ensures
        spec_upsert(spec_upsert(s, b), a) == spec_upsert(spec_upsert(s, a), b),
    decreases s.len(),
{
    if s.len() == 0 {
    } else if s[0].path == a.path {
        let ta = seq![a] + s.skip(1);
        assert(spec_upsert(s, a) == ta);
        assert(ta[0] == a);
        assert(spec_upsert(ta, b) == seq![ta[0]] + spec_upsert(ta.skip(1), b));
        assert(ta.skip(1) =~= s.skip(1));
        let tb = seq![s[0]] + spec_upsert(s.skip(1), b);
        assert(spec_upsert(s, b) == tb);
        assert(tb[0] == s[0]);
        assert(spec_upsert(tb, a) == seq![a] + tb.skip(1));
        assert(tb.skip(1) =~= spec_upsert(s.skip(1), b));
    } else if s[0].path == b.path {
        let tb = seq![b] + s.skip(1);
        assert(spec_upsert(s, b) == tb);
        assert(tb[0] == b);
        assert(spec_upsert(tb, a) == seq![tb[0]] + spec_upsert(tb.skip(1), a));
        assert(tb.skip(1) =~= s.skip(1));
        let ta = seq![s[0]] + spec_upsert(s.skip(1), a);
        assert(spec_upsert(s, a) == ta);
        assert(ta[0] == s[0]);
        assert(spec_upsert(ta, b) == seq![b] + ta.skip(1));
        assert(ta.skip(1) =~= spec_upsert(s.skip(1), a));
    } else {
        if spec_contains_path(s, a.path) {
            let i = choose|i: int| 0 <= i < s.len() && s[i].path == a.path;
            assert(i > 0);
            assert(s.skip(1)[i - 1].path == a.path);
            assert(spec_contains_path(s.skip(1), a.path));
        }
        lemma_upsert_swap(s.skip(1), a, b);
        let tb = seq![s[0]] + spec_upsert(s.skip(1), b);
        assert(spec_upsert(s, b) == tb);
        assert(tb[0] == s[0]);
        assert(spec_upsert(tb, a) == seq![s[0]] + spec_upsert(tb.skip(1), a));
        assert(tb.skip(1) =~= spec_upsert(s.skip(1), b));
        let ta = seq![s[0]] + spec_upsert(s.skip(1), a);
        assert(spec_upsert(s, a) == ta);
        assert(ta[0] == s[0]);
        assert(spec_upsert(ta, b) == seq![s[0]] + spec_upsert(ta.skip(1), b));
        assert(ta.skip(1) =~= spec_upsert(s.skip(1), a));
    }
}

/// An upsert of an already-tracked path moves past a whole batch of
/// rescans of other paths.
proof fn lemma_upsert_commute_rescan(s: Seq<ProjectView>, ns: Seq<ProjectView>, a: ProjectView)
    requires
        spec_contains_path(s, a.path),
        forall|i: int| 0 <= i < ns.len() ==> ns[i].path != a.path,
    ensures
        spec_upsert(spec_rescan(s, ns), a) == spec_rescan(spec_upsert(s, a), ns),
    decreases ns.len(),
{
    if ns.len() > 0 {
        let b = ns[0];
        lemma_upsert_adds_path(s, b, a.path);
        assert forall|i: int| 0 <= i < ns.skip(1).len() implies ns.skip(1)[i].path != a.path by {
            assert(ns.skip(1)[i] == ns[i + 1]);
        }
        lemma_upsert_commute_rescan(spec_upsert(s, b), ns.skip(1), a);
        lemma_upsert_swap(s, a, b);
    }
}

/// Rescan idempotence law, batch form: landing one batch of snapshots
/// and then a second batch of the same distinct paths leaves the
/// collection exactly as the second batch alone would — the first
/// batch's records are wholly overwritten.
pub proof fn lemma_rescan_batch_idempotent(
    s: Seq<ProjectView>,
    ns1: Seq<ProjectView>,
    ns2: Seq<ProjectView>,
)
    requires
        ns1.len() == ns2.len(),
        forall|i: int| 0 <= i < ns1.len() ==> #[trigger] ns1[i].path == ns2[i].path,
        forall|i: int, j: int| 0 <= i < j < ns1.len() ==> ns1[i].path != ns1[j].path,
    ensures
        spec_rescan(spec_rescan(s, ns1), ns2) == spec_rescan(s, ns2),
    decreases ns1.len(),
{
    if ns1.len() > 0 {
        let a1 = ns1[0];
        let a2 = ns2[0];
        let rest1 = ns1.skip(1);
        let rest2 = ns2.skip(1);
        assert(a1.path == a2.path);
        assert forall|i: int| 0 <= i < rest1.len() implies #[trigger] rest1[i].path
            == rest2[i].path by {
            assert(rest1[i] == ns1[i + 1]);
            assert(rest2[i] == ns2[i + 1]);
        }
        assert forall|i: int, j: int|
            0 <= i < j < rest1.len() implies rest1[i].path != rest1[j].path by {
            assert(rest1[i] == ns1[i + 1]);
            assert(rest1[j] == ns1[j + 1]);
        }
        let t = spec_upsert(s, a1);
        lemma_upsert_adds_path(s, a1, a2.path);
        assert forall|i: int| 0 <= i < rest1.len() implies rest1[i].path != a2.path by {
            assert(rest1[i] == ns1[i + 1]);
        }
        lemma_upsert_commute_rescan(t, rest1, a2);
        lemma_upsert_idempotent(s, a1, a2);
        assert(spec_rescan(spec_rescan(s, ns1), ns2) == spec_rescan(
            spec_upsert(spec_rescan(t, rest1), a2),
            rest2,
        ));
        assert(spec_upsert(spec_rescan(t, rest1), a2) == spec_rescan(spec_upsert(t, a2), rest1));
        assert(spec_upsert(t, a2) == spec_upsert(s, a2));
        lemma_rescan_batch_idempotent(spec_upsert(s, a2), rest1, rest2);
        assert(spec_rescan(s, ns2) == spec_rescan(spec_upsert(s, a2), rest2));
    }
}

/// Every path present after removal was present before.
proof fn lemma_remove_paths_subset(s: Seq<ProjectView>, paths: Seq<Seq<char>>, q: Seq<char>)
    ensures
        spec_contains_path(spec_remove(s, paths), q) ==> spec_contains_path(s, q),
    decreases s.len(),
{
    reveal(Seq::filter);
    let pred = |p: ProjectView| !spec_path_in_list(paths, p.path);
    if s.len() > 0 {
        lemma_remove_paths_subset(s.drop_last(), paths, q);
        if spec_contains_path(spec_remove(s, paths), q) {
            let r = s.filter(pred);
            let i = choose|i: int| 0 <= i < r.len() && r[i].path == q;
            if pred(s.last()) {
                if i < r.len() - 1 {
                    assert(s.drop_last().filter(pred)[i].path == q);
                    assert(spec_contains_path(spec_remove(s.drop_last(), paths), q));
                    let j = choose|j: int| 0 <= j < s.drop_last().len() && s.drop_last()[j].path == q;
                    assert(s[j].path == q);
                } else {
                    assert(r[i] == s.last());
                    assert(s[s.len() - 1].path == q);
                }
            } else {
                assert(s.drop_last().filter(pred)[i].path == q);
                assert(spec_contains_path(spec_remove(s.drop_last(), paths), q));
                let j = choose|j: int| 0 <= j < s.drop_last().len() && s.drop_last()[j].path == q;
                assert(s[j].path == q);
            }
        }
    }
}

/// Path uniqueness law, removal case: filtering entries out keeps the
/// remaining paths pairwise distinct.
pub proof fn lemma_remove_preserves_unique(s: Seq<ProjectView>, paths: Seq<Seq<char>>)
    requires
        spec_paths_unique(s),
    ensures
        spec_paths_unique(spec_remove(s, paths)),
    decreases s.len(),
{
    reveal(Seq::filter);
    let pred = |p: ProjectView| !spec_path_in_list(paths, p.path);
    if s.len() > 0 {
        let pre = s.drop_last();
        assert forall|i: int, j: int| 0 <= i < j < pre.len() implies pre[i].path != pre[j].path by {
            assert(pre[i] == s[i]);
            assert(pre[j] == s[j]);
        }
        lemma_remove_preserves_unique(s.drop_last(), paths);
        if pred(s.last()) {
            let r0 = s.drop_last().filter(pred);
            lemma_remove_paths_subset(s.drop_last(), paths, s.last().path);
            assert forall|i: int, j: int|
                0 <= i < j < r0.push(s.last()).len() implies r0.push(s.last())[i].path != r0.push(
                s.last(),
            )[j].path by {
                if j == r0.len() {
                    assert(r0.push(s.last())[i] == r0[i]);
                    if r0[i].path == s.last().path {
                        assert(spec_contains_path(r0, s.last().path));
                        let k = choose|k: int|
                            0 <= k < s.drop_last().len() && s.drop_last()[k].path == s.last().path;
                        assert(s[k].path == s[s.len() - 1].path);
                    }
                } else {
                    assert(r0.push(s.last())[i] == r0[i]);
                    assert(r0.push(s.last())[j] == r0[j]);
                }
            }
        }
    }
}

/// The paths of a collection are untouched by a size patch.
proof fn lemma_update_size_paths(s: Seq<ProjectView>, path: Seq<char>, new_size: u64, now: u64)
    ensures
        spec_update_size(s, path, new_size, now).len() == s.len(),
        forall|k: int|
            0 <= k < s.len() ==> #[trigger] spec_update_size(s, path, new_size, now)[k].path
                == s[k].path,
    decreases s.len(),
{
    let r = spec_update_size(s, path, new_size, now);
    if s.len() > 0 {
        if s[0].path == path {
            assert forall|k: int| 0 <= k < s.len() implies #[trigger] r[k].path == s[k].path by {
                if k > 0 {
                    assert(r[k] == s.skip(1)[k - 1]);
                    assert(s.skip(1)[k - 1] == s[k]);
                }
            }
        } else {
            lemma_update_size_paths(s.skip(1), path, new_size, now);
            assert forall|k: int| 0 <= k < s.len() implies #[trigger] r[k].path == s[k].path by {
                if k > 0 {
                    assert(r[k] == spec_update_size(s.skip(1), path, new_size, now)[k - 1]);
                    assert(s.skip(1)[k - 1] == s[k]);
                }
            }
        }
    }
}

/// Path uniqueness law, cleaning case: patching one entry's size keeps
/// paths pairwise distinct.
pub proof fn lemma_update_size_preserves_unique(
    s: Seq<ProjectView>,
    path: Seq<char>,
    new_size: u64,
    now: u64,
)
    requires
        spec_paths_unique(s),
    ensures
        spec_paths_unique(spec_update_size(s, path, new_size, now)),
{
    lemma_update_size_paths(s, path, new_size, now);
}

/// An untracked path leaves `spec_update_size` with nothing to patch.
proof fn lemma_update_size_absent(s: Seq<ProjectView>, path: Seq<char>, new_size: u64, now: u64)
    requires
        !spec_contains_path(s, path),
    ensures
        spec_update_size(s, path, new_size, now) == s,
    decreases s.len(),
{
    if s.len() > 0 {
        if s[0].path == path {
            assert(spec_contains_path(s, path));
        }
        assert forall|k: int| 0 <= k < s.skip(1).len() implies s.skip(1)[k].path != path by {
            assert(s.skip(1)[k] == s[k + 1]);
            if s[k + 1].path == path {
                assert(spec_contains_path(s, path));
            }
        }
        assert(!spec_contains_path(s.skip(1), path));
        lemma_update_size_absent(s.skip(1), path, new_size, now);
        assert(seq![s[0]] + s.skip(1) =~= s);
    }
}

} // verus!
