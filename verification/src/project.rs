//! The project snapshot and the rules that build one from scan data.
//!
//! A snapshot is a pure function of what a scan observed: the manifest
//! path and the parsed manifest, the discovered plugin manifests, the
//! presence of a source directory, the directory size, and the scan time.
//! Rebuilding from the same observations reproduces the same snapshot,
//! scan dates aside; that law is proved at the bottom of this module.

use vstd::prelude::*;

use crate::manifest::{ProjectManifest, ProjectManifestView, UprojectPluginEntryView};
use crate::paths::spec_file_stem;
use crate::paths::file_stem;
use crate::plugins::{
    spec_step2, spec_step1, spec_plugin_name_in, spec_merged_plugin, spec_find_ref,
    spec_external_plugin, spec_reconcile, reconcile_plugins, DiscoveredPlugin,
    DiscoveredPluginView, ProjectPlugin, ProjectPluginView,
};

verus! {

/// The engine a project targets: a declared version, or a custom build.
#[derive(Debug, PartialEq)]
pub enum EngineAssociation {
    Standard(String),
    Custom,
}

impl Clone for EngineAssociation {
    fn clone(&self) -> (res: Self)
        ensures
            res == *self,
    {
        match self {
            EngineAssociation::Standard(v) => EngineAssociation::Standard(v.clone()),
            EngineAssociation::Custom => EngineAssociation::Custom,
        }
    }
}

/// Ghost image of an `EngineAssociation`.
pub ghost enum EngineAssociationView {
    Standard(Seq<char>),
    Custom,
}

impl View for EngineAssociation {
    type V = EngineAssociationView;

    open spec fn view(&self) -> EngineAssociationView {
        match self {
            EngineAssociation::Standard(v) => EngineAssociationView::Standard(v@),
            EngineAssociation::Custom => EngineAssociationView::Custom,
        }
    }
}

/// The declared association: standard exactly when the manifest holds a
/// non-empty string-typed version; absent, empty or ill-shaped means
/// custom.
pub open spec fn spec_engine_assoc(ev: Option<Seq<char>>) -> EngineAssociationView {
    match ev {
        Some(s) => if s.len() > 0 {
            EngineAssociationView::Standard(s)
        } else {
            EngineAssociationView::Custom
        },
        None => EngineAssociationView::Custom,
    }
}

/// Decides the engine association from the manifest's raw version field.
pub fn engine_association_of(ev: Option<String>) -> (r: EngineAssociation)
    ensures
        r@ == spec_engine_assoc(crate::manifest::view_opt_str(ev)),
{
    match ev {
        Some(s) => {
            if s.as_str().unicode_len() > 0 {
                EngineAssociation::Standard(s)
            } else {
                EngineAssociation::Custom
            }
        },
        None => EngineAssociation::Custom,
    }
}

/// A snapshot of one project directory at scan time.
#[derive(Debug, PartialEq)]
pub struct Project {
    /// Derived from the manifest file's stem.
    pub name: String,
    /// Declared description, empty when none is declared.
    pub description: String,
    pub engine_association: EngineAssociation,
    /// Path of the manifest file; the key of the tracked collection.
    pub path: String,
    /// Whether a conventionally named source directory sits beside the
    /// manifest.
    pub has_cpp: bool,
    /// Reconciled plugin records, names pairwise distinct.
    pub plugins: Vec<ProjectPlugin>,
    /// Recursive size of the project directory at the last scan, bytes.
    pub size_on_disk: u64,
    /// Seconds since the epoch at the last scan.
    pub last_scan_date: u64,
}

impl Clone for Project {
    /// A clone reproduces the snapshot exactly, at the level of its view.
    fn clone(&self) -> (res: Self)
        ensures
            res@ == self@,
    {
        let plugins = self.plugins.clone();
        proof {
            assert forall|i: int| 0 <= i < self.plugins@.len() implies plugins@[i]
                == self.plugins@[i] by {
                assert(vstd::pervasive::cloned::<ProjectPlugin>(self.plugins[i], plugins[i]));
            }
            assert(plugins@ =~= self.plugins@);
        }
        Project {
            name: self.name.clone(),
            description: self.description.clone(),
            engine_association: self.engine_association.clone(),
            path: self.path.clone(),
            has_cpp: self.has_cpp,
            plugins,
            size_on_disk: self.size_on_disk,
            last_scan_date: self.last_scan_date,
        }
    }
}

/// Ghost image of a `Project`.
pub ghost struct ProjectView {
    pub name: Seq<char>,
    pub description: Seq<char>,
    pub engine_association: EngineAssociationView,
    pub path: Seq<char>,
    pub has_cpp: bool,
    pub plugins: Seq<ProjectPluginView>,
    pub size_on_disk: u64,
    pub last_scan_date: u64,
}

impl View for Project {
    type V = ProjectView;

    open spec fn view(&self) -> ProjectView {
        ProjectView {
            name: self.name@,
            description: self.description@,
            engine_association: self.engine_association@,
            path: self.path@,
            has_cpp: self.has_cpp,
            plugins: self.plugins@.map_values(|p: ProjectPlugin| p@),
            size_on_disk: self.size_on_disk,
            last_scan_date: self.last_scan_date,
        }
    }
}

/// The snapshot that a scan with these observations produces.
pub open spec fn spec_project_from_scan(
    path: Seq<char>,
    m: ProjectManifestView,
    ds: Seq<DiscoveredPluginView>,
    has_cpp: bool,
    size_on_disk: u64,
    now: u64,
) -> ProjectView {
    ProjectView {
        name: spec_file_stem(path),
        description: m.description,
        engine_association: spec_engine_assoc(m.engine_version),
        path: path,
        has_cpp: has_cpp,
        plugins: spec_reconcile(ds, m.plugins, now),
        size_on_disk: size_on_disk,
        last_scan_date: now,
    }
}

impl Project {
    /// Builds a complete snapshot from one scan's observations: the
    /// manifest path and content, the plugin manifests found under the
    /// project's plugin directory, and the probed filesystem facts.
    pub fn from_scan(
        path: String,
        manifest: ProjectManifest,
        discovered: &Vec<DiscoveredPlugin>,
        has_cpp: bool,
        size_on_disk: u64,
        now: u64,
    ) -> (r: Project)
        ensures
            r@ == spec_project_from_scan(
                path@,
                manifest@,
                discovered@.map_values(|d: DiscoveredPlugin| d@),
                has_cpp,
                size_on_disk,
                now,
            ),
    {
        let name = file_stem(path.as_str());
        let plugins = reconcile_plugins(discovered, &manifest.plugins, now);
        let engine_association = engine_association_of(manifest.engine_version);
        Project {
            name,
            description: manifest.description,
            engine_association,
            path,
            has_cpp,
            plugins,
            size_on_disk,
            last_scan_date: now,
        }
    }
}

/// Two plugin records that agree on everything but the scan date.
pub open spec fn plugin_eq_mod_date(a: ProjectPluginView, b: ProjectPluginView) -> bool {
    &&& a.name == b.name
    &&& a.is_enabled == b.is_enabled
    &&& a.is_in_project == b.is_in_project
    &&& a.marketplace_url == b.marketplace_url
    &&& a.docs_url == b.docs_url
    &&& a.size_on_disk == b.size_on_disk
}

/// Two plugin sequences that agree pointwise, scan dates aside.
pub open spec fn plugins_eq_mod_date(a: Seq<ProjectPluginView>, b: Seq<ProjectPluginView>) -> bool {
    a.len() == b.len() && forall|i: int| 0 <= i < a.len() ==> plugin_eq_mod_date(a[i], b[i])
}

/// Two snapshots that agree on everything but scan dates.
pub open spec fn project_eq_mod_date(a: ProjectView, b: ProjectView) -> bool {
    &&& a.name == b.name
    &&& a.description == b.description
    &&& a.engine_association == b.engine_association
    &&& a.path == b.path
    &&& a.has_cpp == b.has_cpp
    &&& plugins_eq_mod_date(a.plugins, b.plugins)
    &&& a.size_on_disk == b.size_on_disk
}

proof fn lemma_step2_mod_date(
    refs: Seq<UprojectPluginEntryView>,
    acc1: Seq<ProjectPluginView>,
    acc2: Seq<ProjectPluginView>,
    t1: u64,
    t2: u64,
)
    requires
        plugins_eq_mod_date(acc1, acc2),
    ensures
        plugins_eq_mod_date(spec_step2(refs, acc1, t1), spec_step2(refs, acc2, t2)),
    decreases refs.len(),
{
    if refs.len() > 0 {
        let n = refs[0].name;
        assert(spec_plugin_name_in(acc1, n) == spec_plugin_name_in(acc2, n)) by {
            if spec_plugin_name_in(acc1, n) {
                let i = choose|i: int| 0 <= i < acc1.len() && acc1[i].name == n;
                assert(plugin_eq_mod_date(acc1[i], acc2[i]));
                assert(acc2[i].name == n);
            }
            if spec_plugin_name_in(acc2, n) {
                let i = choose|i: int| 0 <= i < acc2.len() && acc2[i].name == n;
                assert(plugin_eq_mod_date(acc1[i], acc2[i]));
                assert(acc1[i].name == n);
            }
        }
        if spec_plugin_name_in(acc1, n) {
            lemma_step2_mod_date(refs.skip(1), acc1, acc2, t1, t2);
        } else {
            let e1 = spec_external_plugin(refs[0], t1);
            let e2 = spec_external_plugin(refs[0], t2);
            assert(plugins_eq_mod_date(acc1.push(e1), acc2.push(e2))) by {
                assert forall|i: int|
                    0 <= i < acc1.push(e1).len() implies plugin_eq_mod_date(
                    acc1.push(e1)[i],
                    acc2.push(e2)[i],
                ) by {
                    if i < acc1.len() {
                        assert(acc1.push(e1)[i] == acc1[i]);
                        assert(acc2.push(e2)[i] == acc2[i]);
                    }
                }
            }
            lemma_step2_mod_date(refs.skip(1), acc1.push(e1), acc2.push(e2), t1, t2);
        }
    }
}

/// Rescan reproducibility: scanning the same observations at two times
/// yields snapshots that agree on every field except the scan dates.
pub proof fn lemma_rescan_reproducible(
    path: Seq<char>,
    m: ProjectManifestView,
    ds: Seq<DiscoveredPluginView>,
    has_cpp: bool,
    size_on_disk: u64,
    t1: u64,
    t2: u64,
)
    ensures
        project_eq_mod_date(
            spec_project_from_scan(path, m, ds, has_cpp, size_on_disk, t1),
            spec_project_from_scan(path, m, ds, has_cpp, size_on_disk, t2),
        ),
{
    let dd = crate::plugins::spec_dedup_refs(m.plugins);
    let s1a = spec_step1(ds, dd, t1);
    let s1b = spec_step1(ds, dd, t2);
    assert(plugins_eq_mod_date(s1a, s1b)) by {
        assert forall|i: int| 0 <= i < s1a.len() implies plugin_eq_mod_date(s1a[i], s1b[i]) by {
            assert(s1a[i] == spec_merged_plugin(ds[i], spec_find_ref(dd, ds[i].file_stem), t1));
            assert(s1b[i] == spec_merged_plugin(ds[i], spec_find_ref(dd, ds[i].file_stem), t2));
        }
    }
    lemma_step2_mod_date(dd, s1a, s1b, t1, t2);
}

} // verus!
