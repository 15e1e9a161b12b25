//! Plugin reconciliation and project snapshots.

use project_manager::manifest::{ProjectManifest, UpluginFile, UprojectPluginEntry};
use project_manager::plugins::{reconcile_plugins, DiscoveredPlugin, ProjectPlugin};
use project_manager::project::{engine_association_of, EngineAssociation, Project};

fn entry(name: &str, enabled: Option<bool>) -> UprojectPluginEntry {
    UprojectPluginEntry {
        name: name.to_string(),
        enabled,
        marketplace_url: None,
        docs_url: None,
    }
}

fn discovered(stem: &str, friendly: Option<&str>, size: u64) -> DiscoveredPlugin {
    DiscoveredPlugin {
        file_stem: stem.to_string(),
        manifest: UpluginFile {
            friendly_name: friendly.map(|s| s.to_string()),
            marketplace_url: None,
            docs_url: None,
        },
        size_on_disk: size,
    }
}

#[test]
fn declared_plugin_merges_into_discovered_record() {
    // Declared {Name: "Foo", Enabled: false}, and Plugins/Foo/Foo.uplugin
    // with FriendlyName "Foo Pro": the merged record takes the friendly
    // name, the declared enabled flag, and lives in the project.
    let ds = vec![discovered("Foo", Some("Foo Pro"), 42)];
    let refs = vec![entry("Foo", Some(false))];
    let out = reconcile_plugins(&ds, &refs, 1000);
    assert_eq!(out[0].name.as_str(), "Foo Pro");
    assert!(!out[0].is_enabled);
    assert!(out[0].is_in_project);
    assert_eq!(out[0].size_on_disk, Some(42));
    assert_eq!(out[0].last_scan_date, 1000);
}

#[test]
fn unmatched_declaration_becomes_external_record() {
    let ds = vec![discovered("Local", None, 7)];
    let refs = vec![entry("EnginePlugin", None)];
    let out = reconcile_plugins(&ds, &refs, 5);
    assert_eq!(out.len(), 2);
    assert_eq!(out[0].name.as_str(), "Local");
    assert!(out[0].is_in_project);
    assert_eq!(out[1].name.as_str(), "EnginePlugin");
    assert!(!out[1].is_in_project);
    assert!(out[1].is_enabled);
    assert_eq!(out[1].size_on_disk, None);
}

#[test]
fn matched_declaration_is_not_appended_again() {
    let ds = vec![discovered("Foo", None, 1)];
    let refs = vec![entry("Foo", Some(true))];
    let out = reconcile_plugins(&ds, &refs, 0);
    assert_eq!(out.len(), 1);
    assert_eq!(out[0].name.as_str(), "Foo");
}

#[test]
fn repeated_declarations_collapse_to_first() {
    let ds = vec![];
    let refs = vec![entry("Dup", Some(false)), entry("Dup", Some(true))];
    let out = reconcile_plugins(&ds, &refs, 0);
    assert_eq!(out.len(), 1);
    assert_eq!(out[0].is_enabled, false);
}

#[test]
fn resolved_names_stay_distinct() {
    let ds = vec![
        discovered("A", Some("Alpha"), 1),
        discovered("B", None, 2),
    ];
    let refs = vec![entry("A", None), entry("Beta", None), entry("B", None)];
    let out = reconcile_plugins(&ds, &refs, 0);
    for i in 0..out.len() {
        for j in (i + 1)..out.len() {
            assert_ne!(out[i].name, out[j].name);
        }
    }
}

#[test]
fn external_record_keeps_declared_urls() {
    let e = UprojectPluginEntry {
        name: "Web".to_string(),
        enabled: None,
        marketplace_url: Some("https://m.test".to_string()),
        docs_url: Some("https://d.test".to_string()),
    };
    let p = ProjectPlugin::from_uproject_data(&e, 9);
    assert_eq!(p.name.as_str(), "Web");
    assert!(p.is_enabled);
    assert!(!p.is_in_project);
    assert_eq!(p.marketplace_url.as_deref(), Some("https://m.test"));
    assert_eq!(p.docs_url.as_deref(), Some("https://d.test"));
    assert_eq!(p.last_scan_date, 9);
}

#[test]
fn engine_association_rules() {
    assert_eq!(
        engine_association_of(Some("5.3".to_string())),
        EngineAssociation::Standard("5.3".to_string())
    );
    assert_eq!(engine_association_of(Some(String::new())), EngineAssociation::Custom);
    assert_eq!(engine_association_of(None), EngineAssociation::Custom);
}

#[test]
fn snapshot_built_from_scan_observations() {
    let manifest = ProjectManifest {
        description: "demo".to_string(),
        engine_version: Some("4.27".to_string()),
        plugins: vec![entry("Foo", Some(false))],
    };
    let ds = vec![discovered("Foo", Some("Foo Pro"), 10)];
    let p = Project::from_scan(
        "/w/Demo/Demo.uproject".to_string(),
        manifest,
        &ds,
        true,
        1234,
        77,
    );
    assert_eq!(p.name.as_str(), "Demo");
    assert_eq!(p.description.as_str(), "demo");
    assert_eq!(
        p.engine_association,
        EngineAssociation::Standard("4.27".to_string())
    );
    assert_eq!(p.path.as_str(), "/w/Demo/Demo.uproject");
    assert!(p.has_cpp);
    assert_eq!(p.size_on_disk, 1234);
    assert_eq!(p.last_scan_date, 77);
    // The discovered manifest merges into "Foo Pro"; the declaration
    // "Foo" stays unmatched by resolved name and is kept as an external
    // record besides.
    assert_eq!(p.plugins.len(), 2);
    assert_eq!(p.plugins[0].name.as_str(), "Foo Pro");
    assert!(p.plugins[0].is_in_project);
    assert!(!p.plugins[0].is_enabled);
    assert_eq!(p.plugins[1].name.as_str(), "Foo");
    assert!(!p.plugins[1].is_in_project);
}

#[test]
fn rebuilding_from_same_observations_differs_only_in_dates() {
    let make = |now: u64| {
        let manifest = ProjectManifest {
            description: "demo".to_string(),
            engine_version: None,
            plugins: vec![entry("Ext", None)],
        };
        let ds = vec![discovered("Foo", None, 3)];
        Project::from_scan("/w/D/D.uproject".to_string(), manifest, &ds, false, 50, now)
    };
    let a = make(1);
    let b = make(2);
    assert_eq!(a.name, b.name);
    assert_eq!(a.description, b.description);
    assert_eq!(a.path, b.path);
    assert_eq!(a.has_cpp, b.has_cpp);
    assert_eq!(a.size_on_disk, b.size_on_disk);
    assert_ne!(a.last_scan_date, b.last_scan_date);
    assert_eq!(a.plugins.len(), b.plugins.len());
    for (x, y) in a.plugins.iter().zip(b.plugins.iter()) {
        assert_eq!(x.name, y.name);
        assert_eq!(x.is_enabled, y.is_enabled);
        assert_eq!(x.is_in_project, y.is_in_project);
        assert_eq!(x.size_on_disk, y.size_on_disk);
    }
}
