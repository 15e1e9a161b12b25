//! Plugin records and the reconciliation of discovered plugin manifests
//! with the references a project manifest declares.
//!
//! Reconciliation works in two steps. Every plugin manifest found under
//! the project's plugin directory becomes a record, merged with the
//! declaration of the same name (the manifest file's stem) if there is
//! one; declared values win over discovered ones. Every declaration left
//! unmatched then becomes a record of its own, marked as living outside
//! the project.

use vstd::prelude::*;

use crate::manifest::{UpluginFile, UpluginFileView, UprojectPluginEntry, UprojectPluginEntryView, view_opt_str};
use crate::text::str_eq;

verus! {

/// One plugin associated with a project.
#[derive(Debug, PartialEq)]
pub struct ProjectPlugin {
    /// Resolved name: the friendly name of the plugin manifest when there
    /// is one, else the manifest file's stem, else the declared name.
    pub name: String,
    /// Whether the project declares the plugin enabled; true when it does
    /// not say.
    pub is_enabled: bool,
    /// True exactly when a plugin manifest was found under the project's
    /// own plugin directory.
    pub is_in_project: bool,
    pub marketplace_url: Option<String>,
    pub docs_url: Option<String>,
    /// Recursive size of the plugin's folder; present only for plugins
    /// that live in the project.
    pub size_on_disk: Option<u64>,
    /// Seconds since the epoch at the scan that produced this record.
    pub last_scan_date: u64,
}

/// Ghost image of a `ProjectPlugin`.
pub ghost struct ProjectPluginView {
    pub name: Seq<char>,
    pub is_enabled: bool,
    pub is_in_project: bool,
    pub marketplace_url: Option<Seq<char>>,
    pub docs_url: Option<Seq<char>>,
    pub size_on_disk: Option<u64>,
    pub last_scan_date: u64,
}

impl Clone for ProjectPlugin {
    fn clone(&self) -> (res: Self)
        ensures
            res == *self,
    {
        ProjectPlugin {
            name: self.name.clone(),
            is_enabled: self.is_enabled,
            is_in_project: self.is_in_project,
            marketplace_url: self.marketplace_url.clone(),
            docs_url: self.docs_url.clone(),
            size_on_disk: self.size_on_disk,
            last_scan_date: self.last_scan_date,
        }
    }
}

impl View for ProjectPlugin {
    type V = ProjectPluginView;

    open spec fn view(&self) -> ProjectPluginView {
        ProjectPluginView {
            name: self.name@,
            is_enabled: self.is_enabled,
            is_in_project: self.is_in_project,
            marketplace_url: view_opt_str(self.marketplace_url),
            docs_url: view_opt_str(self.docs_url),
            size_on_disk: self.size_on_disk,
            last_scan_date: self.last_scan_date,
        }
    }
}

/// What the filesystem shows of one plugin found under the project's
/// plugin directory: its manifest file's stem, the manifest's declared
/// fields, and the folder's size.
#[derive(Debug, PartialEq)]
pub struct DiscoveredPlugin {
    pub file_stem: String,
    pub manifest: UpluginFile,
    pub size_on_disk: u64,
}

impl Clone for DiscoveredPlugin {
    fn clone(&self) -> (res: Self)
        ensures
            res == *self,
    {
        DiscoveredPlugin {
            file_stem: self.file_stem.clone(),
            manifest: self.manifest.clone(),
            size_on_disk: self.size_on_disk,
        }
    }
}

/// Ghost image of a `DiscoveredPlugin`.
pub ghost struct DiscoveredPluginView {
    pub file_stem: Seq<char>,
    pub manifest: UpluginFileView,
    pub size_on_disk: u64,
}

impl View for DiscoveredPlugin {
    type V = DiscoveredPluginView;

    open spec fn view(&self) -> DiscoveredPluginView {
        DiscoveredPluginView {
            file_stem: self.file_stem@,
            manifest: self.manifest@,
            size_on_disk: self.size_on_disk,
        }
    }
}

/// The first of two optional values, falling back to the second.
pub open spec fn spec_or_opt<T>(a: Option<T>, b: Option<T>) -> Option<T> {
    match a {
        Some(v) => Some(v),
        None => b,
    }
}

/// A declared enabled flag, defaulting to enabled.
pub open spec fn spec_enabled_or_default(e: Option<bool>) -> bool {
    match e {
        Some(b) => b,
        None => true,
    }
}

/// The resolved name of a discovered plugin: its manifest's friendly name
/// when declared, else its file stem.
pub open spec fn spec_resolved_name(d: DiscoveredPluginView) -> Seq<char> {
    match d.manifest.friendly_name {
        Some(f) => f,
        None => d.file_stem,
    }
}

/// The record for a plugin found in the project, merged with the matching
/// declaration when one exists; declared values win.
pub open spec fn spec_merged_plugin(
    d: DiscoveredPluginView,
    e: Option<UprojectPluginEntryView>,
    now: u64,
) -> ProjectPluginView {
    ProjectPluginView {
        name: spec_resolved_name(d),
        is_enabled: match e {
            Some(ev) => spec_enabled_or_default(ev.enabled),
            None => true,
        },
        is_in_project: true,
        marketplace_url: match e {
            Some(ev) => spec_or_opt(ev.marketplace_url, d.manifest.marketplace_url),
            None => d.manifest.marketplace_url,
        },
        docs_url: match e {
            Some(ev) => spec_or_opt(ev.docs_url, d.manifest.docs_url),
            None => d.manifest.docs_url,
        },
        size_on_disk: Some(d.size_on_disk),
        last_scan_date: now,
    }
}

/// The record for a plugin only declared in the project manifest: not in
/// the project, of unknown size.
pub open spec fn spec_external_plugin(e: UprojectPluginEntryView, now: u64) -> ProjectPluginView {
    ProjectPluginView {
        name: e.name,
        is_enabled: spec_enabled_or_default(e.enabled),
        is_in_project: false,
        marketplace_url: e.marketplace_url,
        docs_url: e.docs_url,
        size_on_disk: None,
        last_scan_date: now,
    }
}

impl ProjectPlugin {
    /// Builds the record for a declared plugin that no discovered manifest
    /// matched, stamped with the given scan time.
    pub fn from_uproject_data(e: &UprojectPluginEntry, now: u64) -> (r: ProjectPlugin)
        ensures
            r@ == spec_external_plugin(e@, now),
    {
        let is_enabled = match e.enabled {
            Some(b) => b,
            None => true,
        };
        ProjectPlugin {
            name: e.name.clone(),
            is_enabled,
            is_in_project: false,
            marketplace_url: e.marketplace_url.clone(),
            docs_url: e.docs_url.clone(),
            size_on_disk: None,
            last_scan_date: now,
        }
    }
}

/// Builds the record for one discovered plugin, merged with its matching
/// declaration when one exists.
pub fn merge_discovered(d: &DiscoveredPlugin, e: Option<&UprojectPluginEntry>, now: u64) -> (r:
    ProjectPlugin)
    ensures
        r@ == spec_merged_plugin(
            d@,
            match e {
                Some(ev) => Some(ev@),
                None => None,
            },
            now,
        ),
{
    let name = match &d.manifest.friendly_name {
        Some(f) => f.clone(),
        None => d.file_stem.clone(),
    };
    let is_enabled = match e {
        Some(ev) => match ev.enabled {
            Some(b) => b,
            None => true,
        },
        None => true,
    };
    let marketplace_url = match e {
        Some(ev) => match &ev.marketplace_url {
            Some(u) => Some(u.clone()),
            None => d.manifest.marketplace_url.clone(),
        },
        None => d.manifest.marketplace_url.clone(),
    };
    let docs_url = match e {
        Some(ev) => match &ev.docs_url {
            Some(u) => Some(u.clone()),
            None => d.manifest.docs_url.clone(),
        },
        None => d.manifest.docs_url.clone(),
    };
    ProjectPlugin {
        name,
        is_enabled,
        is_in_project: true,
        marketplace_url,
        docs_url,
        size_on_disk: Some(d.size_on_disk),
        last_scan_date: now,
    }
}

/// Whether some declared reference in `refs` bears this name.
pub open spec fn spec_ref_name_in(refs: Seq<UprojectPluginEntryView>, name: Seq<char>) -> bool {
    exists|i: int| 0 <= i < refs.len() && refs[i].name == name
}

/// The first declared reference bearing this name, if any.
pub open spec fn spec_find_ref(refs: Seq<UprojectPluginEntryView>, name: Seq<char>) -> Option<
    UprojectPluginEntryView,
>
    decreases refs.len(),
{
    if refs.len() == 0 {
        None
    } else if refs[0].name == name {
        Some(refs[0])
    } else {
        spec_find_ref(refs.skip(1), name)
    }
}

/// Declared references with repeated names dropped; the first declaration
/// of each name wins.
pub open spec fn spec_dedup_refs(refs: Seq<UprojectPluginEntryView>) -> Seq<
    UprojectPluginEntryView,
>
    decreases refs.len(),
{
    if refs.len() == 0 {
        Seq::empty()
    } else if spec_ref_name_in(refs.drop_last(), refs.last().name) {
        spec_dedup_refs(refs.drop_last())
    } else {
        spec_dedup_refs(refs.drop_last()).push(refs.last())
    }
}

/// A sequence extended by one reference holds a name exactly when the
/// original does or the added reference bears it.
proof fn lemma_name_in_push(refs: Seq<UprojectPluginEntryView>, e: UprojectPluginEntryView, n: Seq<char>)
    ensures
        spec_ref_name_in(refs.push(e), n) == (spec_ref_name_in(refs, n) || e.name == n),
{
    if spec_ref_name_in(refs, n) {
        let j = choose|j: int| 0 <= j < refs.len() && refs[j].name == n;
        assert(refs.push(e)[j].name == n);
    }
    if e.name == n {
        assert(refs.push(e)[refs.len() as int].name == n);
    }
    if spec_ref_name_in(refs.push(e), n) && e.name != n {
        let j = choose|j: int| 0 <= j < refs.push(e).len() && refs.push(e)[j].name == n;
        assert(refs[j].name == n);
    }
}

/// A sequence holds a name exactly when its front part does or its last
/// element bears it.
proof fn lemma_name_in_unsnoc(refs: Seq<UprojectPluginEntryView>, n: Seq<char>)
    requires
        refs.len() > 0,
    ensures
        spec_ref_name_in(refs, n) == (spec_ref_name_in(refs.drop_last(), n) || refs.last().name
            == n),
{
    assert(refs.drop_last().push(refs.last()) =~= refs);
    lemma_name_in_push(refs.drop_last(), refs.last(), n);
}

/// Deduplication changes which references remain, never which names occur.
pub proof fn lemma_dedup_keeps_name(refs: Seq<UprojectPluginEntryView>, n: Seq<char>)
    ensures
        spec_ref_name_in(spec_dedup_refs(refs), n) == spec_ref_name_in(refs, n),
    decreases refs.len(),
{
    if refs.len() > 0 {
        let pre = refs.drop_last();
        let last = refs.last();
        lemma_dedup_keeps_name(pre, n);
        lemma_name_in_unsnoc(refs, n);
        if spec_ref_name_in(pre, last.name) {
            if last.name == n {
                lemma_dedup_keeps_name(pre, last.name);
            }
        } else {
            lemma_name_in_push(spec_dedup_refs(pre), last, n);
        }
    }
}

/// Step one of reconciliation: every discovered plugin manifest becomes a
/// record, merged with the declaration matching its file stem.
pub open spec fn spec_step1(
    ds: Seq<DiscoveredPluginView>,
    refs: Seq<UprojectPluginEntryView>,
    now: u64,
) -> Seq<ProjectPluginView> {
    ds.map_values(|d: DiscoveredPluginView| spec_merged_plugin(d, spec_find_ref(refs, d.file_stem), now))
}

/// Whether some record in `acc` bears this resolved name.
pub open spec fn spec_plugin_name_in(acc: Seq<ProjectPluginView>, name: Seq<char>) -> bool {
    exists|i: int| 0 <= i < acc.len() && acc[i].name == name
}

/// Step two of reconciliation: every declaration whose name no record
/// bears yet is appended as a record of its own.
pub open spec fn spec_step2(
    refs: Seq<UprojectPluginEntryView>,
    acc: Seq<ProjectPluginView>,
    now: u64,
) -> Seq<ProjectPluginView>
    decreases refs.len(),
{
    if refs.len() == 0 {
        acc
    } else if spec_plugin_name_in(acc, refs[0].name) {
        spec_step2(refs.skip(1), acc, now)
    } else {
        spec_step2(refs.skip(1), acc.push(spec_external_plugin(refs[0], now)), now)
    }
}

/// The full reconciliation: declared references deduplicated by name,
/// discovered manifests merged, unmatched declarations appended.
pub open spec fn spec_reconcile(
    ds: Seq<DiscoveredPluginView>,
    refs: Seq<UprojectPluginEntryView>,
    now: u64,
) -> Seq<ProjectPluginView> {
    spec_step2(
        spec_dedup_refs(refs),
        spec_step1(ds, spec_dedup_refs(refs), now),
        now,
    )
}

/// No two records in the sequence bear the same resolved name.
pub open spec fn plugin_names_unique(s: Seq<ProjectPluginView>) -> bool {
    forall|i: int, j: int| 0 <= i < j < s.len() ==> s[i].name != s[j].name
}

proof fn lemma_step2_unique(
    refs: Seq<UprojectPluginEntryView>,
    acc: Seq<ProjectPluginView>,
    now: u64,
)
    requires
        plugin_names_unique(acc),
    ensures
        plugin_names_unique(spec_step2(refs, acc, now)),
    decreases refs.len(),
{
    if refs.len() > 0 {
        if spec_plugin_name_in(acc, refs[0].name) {
            lemma_step2_unique(refs.skip(1), acc, now);
        } else {
            let ext = spec_external_plugin(refs[0], now);
            assert forall|i: int, j: int|
                0 <= i < j < acc.push(ext).len() implies acc.push(ext)[i].name != acc.push(
                ext,
            )[j].name by {
                if j == acc.len() {
                    assert(acc.push(ext)[i] == acc[i]);
                    if acc[i].name == ext.name {
                        assert(spec_plugin_name_in(acc, refs[0].name));
                    }
                } else {
                    assert(acc.push(ext)[i] == acc[i]);
                    assert(acc.push(ext)[j] == acc[j]);
                }
            }
            lemma_step2_unique(refs.skip(1), acc.push(ext), now);
        }
    }
}

/// Plugin dedup law: reconciliation never yields two records with one
/// resolved name, as long as the discovered manifests themselves resolve
/// to pairwise distinct names. (Two discovered manifests that do resolve
/// to one name are deliberately both retained, so they are the one
/// exception.)
pub proof fn lemma_reconcile_names_unique(
    ds: Seq<DiscoveredPluginView>,
    refs: Seq<UprojectPluginEntryView>,
    now: u64,
)
    requires
        forall|i: int, j: int|
            0 <= i < j < ds.len() ==> spec_resolved_name(ds[i]) != spec_resolved_name(ds[j]),
    ensures
        plugin_names_unique(spec_reconcile(ds, refs, now)),
{
    let dd = spec_dedup_refs(refs);
    let s1 = spec_step1(ds, dd, now);
    assert forall|i: int, j: int| 0 <= i < j < s1.len() implies s1[i].name != s1[j].name by {
        assert(s1[i].name == spec_resolved_name(ds[i]));
        assert(s1[j].name == spec_resolved_name(ds[j]));
    }
    lemma_step2_unique(dd, s1, now);
}

/// Finds the first declared reference with the given name.
fn find_ref<'a>(refs: &'a Vec<UprojectPluginEntry>, name: &str) -> (r: Option<
    &'a UprojectPluginEntry,
>)
    ensures
        match r {
            Some(e) => spec_find_ref(
                refs@.map_values(|x: UprojectPluginEntry| x@),
                name@,
            ) == Some(e@),
            None => spec_find_ref(refs@.map_values(|x: UprojectPluginEntry| x@), name@) is None,
        },
{
    let ghost rv = refs@.map_values(|x: UprojectPluginEntry| x@);
    let n = refs.len();
    let mut i: usize = 0;
    proof {
        assert(rv.skip(0) =~= rv);
    }
    while i < n
        invariant
            i <= n,
            n == refs@.len(),
            rv == refs@.map_values(|x: UprojectPluginEntry| x@),
            spec_find_ref(rv, name@) == spec_find_ref(rv.skip(i as int), name@),
        decreases n - i,
    {
        proof {
            assert(rv.skip(i as int)[0] == rv[i as int]);
            assert(rv.skip(i as int).skip(1) =~= rv.skip(i as int + 1));
        }
        if str_eq(refs[i].name.as_str(), name) {
            return Some(&refs[i]);
        }
        i += 1;
    }
    None
}

/// Whether some already-built record bears the given name.
fn plugin_name_present(acc: &Vec<ProjectPlugin>, name: &str) -> (r: bool)
    ensures
        r == spec_plugin_name_in(acc@.map_values(|p: ProjectPlugin| p@), name@),
{
    let ghost av = acc@.map_values(|p: ProjectPlugin| p@);
    let n = acc.len();
    let mut i: usize = 0;
    while i < n
        invariant
            i <= n,
            n == acc@.len(),
            av == acc@.map_values(|p: ProjectPlugin| p@),
            forall|k: int| 0 <= k < i ==> av[k].name != name@,
        decreases n - i,
    {
        if str_eq(acc[i].name.as_str(), name) {
            proof {
                assert(acc@.map_values(|p: ProjectPlugin| p@)[i as int].name == name@);
            }
            return true;
        }
        i += 1;
    }
    false
}

/// Declared references with repeated names dropped, first wins.
fn dedup_refs(refs: &Vec<UprojectPluginEntry>) -> (r: Vec<UprojectPluginEntry>)
    ensures
        r@.map_values(|x: UprojectPluginEntry| x@) == spec_dedup_refs(
            refs@.map_values(|x: UprojectPluginEntry| x@),
        ),
{
    let ghost rv = refs@.map_values(|x: UprojectPluginEntry| x@);
    let mut out: Vec<UprojectPluginEntry> = Vec::new();
    let n = refs.len();
    let mut i: usize = 0;
    proof {
        assert(rv.take(0) =~= Seq::<UprojectPluginEntryView>::empty());
        assert(out@.map_values(|x: UprojectPluginEntry| x@) =~~= spec_dedup_refs(rv.take(0)));
    }
    while i < n
        invariant
            i <= n,
            n == refs@.len(),
            rv == refs@.map_values(|x: UprojectPluginEntry| x@),
            out@.map_values(|x: UprojectPluginEntry| x@) == spec_dedup_refs(rv.take(i as int)),
        decreases n - i,
    {
        let ghost pre = out@.map_values(|x: UprojectPluginEntry| x@);
        let mut seen = false;
        let m = out.len();
        let mut k: usize = 0;
        while k < m && !seen
            invariant
                k <= m,
                m == out@.len(),
                pre == out@.map_values(|x: UprojectPluginEntry| x@),
                i < n,
                n == refs@.len(),
                rv == refs@.map_values(|x: UprojectPluginEntry| x@),
                seen ==> spec_ref_name_in(pre, rv[i as int].name),
                !seen ==> forall|t: int| 0 <= t < k ==> pre[t].name != rv[i as int].name,
            decreases m - k,
        {
            if str_eq(out[k].name.as_str(), refs[i].name.as_str()) {
                proof {
                    assert(pre[k as int].name == rv[i as int].name);
                }
                seen = true;
            }
            k += 1;
        }
        proof {
            if !seen {
                assert(!spec_ref_name_in(pre, rv[i as int].name));
            }
        }
        proof {
            assert(rv.take(i as int + 1).drop_last() =~= rv.take(i as int));
            assert(rv.take(i as int + 1).last() == rv[i as int]);
            lemma_dedup_keeps_name(rv.take(i as int), rv[i as int].name);
            assert(spec_ref_name_in(pre, rv[i as int].name) == spec_ref_name_in(
                rv.take(i as int),
                rv[i as int].name,
            ));
        }
        if !seen {
            let kept = refs[i].clone();
            out.push(kept);
            proof {
                assert(!spec_ref_name_in(pre, rv[i as int].name));
                assert(!spec_ref_name_in(rv.take(i as int), rv[i as int].name));
                assert(spec_dedup_refs(rv.take(i as int + 1)) == spec_dedup_refs(
                    rv.take(i as int),
                ).push(rv[i as int]));
                assert(out@.map_values(|x: UprojectPluginEntry| x@) =~~= pre.push(rv[i as int]));
            }
        } else {
            proof {
                assert(spec_ref_name_in(rv.take(i as int), rv[i as int].name));
                assert(spec_dedup_refs(rv.take(i as int + 1)) == spec_dedup_refs(rv.take(i as int)));
            }
        }
        i += 1;
    }
    proof {
        assert(rv.take(n as int) =~= rv);
    }
    out
}

/// Reconciles the plugins discovered on disk with the references the
/// project manifest declares, producing the project's plugin sequence.
///
/// Matching between a discovered manifest and a declaration goes by the
/// manifest file's stem; a declaration is appended on its own only when no
/// record bears its name. Repeated declarations of one name collapse to
/// the first. Two discovered manifests that resolve to the same name are
/// both retained.
pub fn reconcile_plugins(
    discovered: &Vec<DiscoveredPlugin>,
    refs: &Vec<UprojectPluginEntry>,
    now: u64,
) -> (r: Vec<ProjectPlugin>)
    ensures
        r@.map_values(|p: ProjectPlugin| p@) == spec_reconcile(
            discovered@.map_values(|d: DiscoveredPlugin| d@),
            refs@.map_values(|x: UprojectPluginEntry| x@),
            now,
        ),
{
    let ghost dv = discovered@.map_values(|d: DiscoveredPlugin| d@);
    let deduped = dedup_refs(refs);
    let ghost ddv = deduped@.map_values(|x: UprojectPluginEntry| x@);
    let mut out: Vec<ProjectPlugin> = Vec::new();
    let n = discovered.len();
    let mut i: usize = 0;
    proof {
        assert(dv.take(0) =~= Seq::<DiscoveredPluginView>::empty());
        assert(out@.map_values(|p: ProjectPlugin| p@) =~~= spec_step1(dv.take(0), ddv, now));
    }
    while i < n
        invariant
            i <= n,
            n == discovered@.len(),
            dv == discovered@.map_values(|d: DiscoveredPlugin| d@),
            ddv == deduped@.map_values(|x: UprojectPluginEntry| x@),
            out@.map_values(|p: ProjectPlugin| p@) == spec_step1(dv.take(i as int), ddv, now),
        decreases n - i,
    {
        let ghost pre = out@.map_values(|p: ProjectPlugin| p@);
        let matched = find_ref(&deduped, discovered[i].file_stem.as_str());
        let record = merge_discovered(&discovered[i], matched, now);
        out.push(record);
        proof {
            assert(dv.take(i as int + 1).drop_last() =~= dv.take(i as int));
            assert(dv.take(i as int + 1).last() == dv[i as int]);
            assert(spec_step1(dv.take(i as int + 1), ddv, now) =~~= spec_step1(
                dv.take(i as int),
                ddv,
                now,
            ).push(spec_merged_plugin(dv[i as int], spec_find_ref(ddv, dv[i as int].file_stem), now)));
            assert(out@.map_values(|p: ProjectPlugin| p@) =~~= pre.push(record@));
        }
        i += 1;
    }
    proof {
        assert(dv.take(n as int) =~= dv);
    }
    let m = deduped.len();
    let mut j: usize = 0;
    proof {
        assert(ddv.skip(0) =~= ddv);
    }
    while j < m
        invariant
            j <= m,
            m == deduped@.len(),
            ddv == deduped@.map_values(|x: UprojectPluginEntry| x@),
            spec_step2(ddv, spec_step1(dv, ddv, now), now) == spec_step2(
                ddv.skip(j as int),
                out@.map_values(|p: ProjectPlugin| p@),
                now,
            ),
        decreases m - j,
    {
        let ghost pre = out@.map_values(|p: ProjectPlugin| p@);
        proof {
            assert(ddv.skip(j as int)[0] == ddv[j as int]);
            assert(ddv.skip(j as int).skip(1) =~= ddv.skip(j as int + 1));
        }
        let present = plugin_name_present(&out, deduped[j].name.as_str());
        if !present {
            let record = ProjectPlugin::from_uproject_data(&deduped[j], now);
            out.push(record);
            proof {
                assert(out@.map_values(|p: ProjectPlugin| p@) =~~= pre.push(
                    spec_external_plugin(ddv[j as int], now),
                ));
            }
        }
        j += 1;
    }
    proof {
        assert(ddv.skip(m as int) =~= Seq::<UprojectPluginEntryView>::empty());
    }
    out
}

} // verus!
