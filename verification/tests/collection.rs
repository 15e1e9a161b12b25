//! The tracked collection's operations and its persisted form.

use project_manager::codec::{decode_projects, encode_projects, load_collection};
use project_manager::project::{EngineAssociation, Project};
use project_manager::plugins::ProjectPlugin;
use project_manager::tracking::{
    add_new, contains_path, remove_paths, rescan, unknown_paths, update_project_plugins,
    update_project_size, upsert,
};

fn sample(path: &str, size: u64) -> Project {
    Project {
        name: "X".to_string(),
        description: String::new(),
        engine_association: EngineAssociation::Custom,
        path: path.to_string(),
        has_cpp: false,
        plugins: vec![],
        size_on_disk: size,
        last_scan_date: 1,
    }
}

#[test]
fn add_appends_only_new_paths() {
    let mut known = vec![sample("/p/A.uproject", 1)];
    let batch = vec![
        sample("/p/A.uproject", 99),
        sample("/p/B.uproject", 2),
        sample("/p/B.uproject", 3),
    ];
    add_new(&mut known, batch);
    assert_eq!(known.len(), 2);
    // The tracked A is untouched, not overwritten by the batch's A.
    assert_eq!(known[0].size_on_disk, 1);
    assert_eq!(known[1].path.as_str(), "/p/B.uproject");
    // The batch's duplicate B was dropped too.
    assert_eq!(known[1].size_on_disk, 2);
}

#[test]
fn rescan_replaces_in_place_and_appends_new() {
    let mut known = vec![sample("/p/A.uproject", 1), sample("/p/B.uproject", 2)];
    rescan(&mut known, vec![sample("/p/A.uproject", 100), sample("/p/C.uproject", 3)]);
    assert_eq!(known.len(), 3);
    assert_eq!(known[0].path.as_str(), "/p/A.uproject");
    assert_eq!(known[0].size_on_disk, 100);
    assert_eq!(known[1].path.as_str(), "/p/B.uproject");
    assert_eq!(known[2].path.as_str(), "/p/C.uproject");
}

#[test]
fn rescan_twice_equals_rescan_once() {
    let mut once = vec![sample("/p/A.uproject", 1), sample("/p/B.uproject", 2)];
    let mut twice = once.clone();
    upsert(&mut once, sample("/p/A.uproject", 30));
    upsert(&mut twice, sample("/p/A.uproject", 20));
    upsert(&mut twice, sample("/p/A.uproject", 30));
    assert_eq!(once, twice);
}

#[test]
fn remove_keeps_rest_in_order() {
    // Removing A from [A, B] leaves exactly [B].
    let mut known = vec![sample("/p/A.uproject", 1), sample("/p/B.uproject", 2)];
    remove_paths(&mut known, &vec!["/p/A.uproject".to_string()]);
    assert_eq!(known.len(), 1);
    assert_eq!(known[0].path.as_str(), "/p/B.uproject");
}

#[test]
fn remove_of_unknown_path_changes_nothing() {
    let mut known = vec![sample("/p/A.uproject", 1)];
    remove_paths(&mut known, &vec!["/p/Z.uproject".to_string()]);
    assert_eq!(known.len(), 1);
}

#[test]
fn update_size_patches_only_the_matching_entry() {
    let mut known = vec![sample("/p/A.uproject", 1), sample("/p/B.uproject", 2)];
    update_project_size(&mut known, "/p/B.uproject", 500, 99);
    assert_eq!(known[0].size_on_disk, 1);
    assert_eq!(known[0].last_scan_date, 1);
    assert_eq!(known[1].size_on_disk, 500);
    assert_eq!(known[1].last_scan_date, 99);
    assert_eq!(known[1].name, "X");
}

#[test]
fn plugin_refresh_patches_only_plugins_and_date() {
    let mut known = vec![sample("/p/A.uproject", 1), sample("/p/B.uproject", 2)];
    let fresh = vec![ProjectPlugin {
        name: "New".to_string(),
        is_enabled: true,
        is_in_project: true,
        marketplace_url: None,
        docs_url: None,
        size_on_disk: Some(5),
        last_scan_date: 40,
    }];
    update_project_plugins(&mut known, "/p/A.uproject", fresh.clone(), 40);
    assert_eq!(known[0].plugins, fresh);
    assert_eq!(known[0].last_scan_date, 40);
    assert_eq!(known[0].size_on_disk, 1);
    assert!(known[1].plugins.is_empty());
    assert_eq!(known[1].last_scan_date, 1);
}

#[test]
fn unknown_paths_filters_tracked_ones() {
    let known = vec![sample("/p/A.uproject", 1)];
    let cands = vec![
        "/p/A.uproject".to_string(),
        "/p/B.uproject".to_string(),
    ];
    let novel = unknown_paths(&known, &cands);
    assert_eq!(novel, vec!["/p/B.uproject".to_string()]);
    assert!(contains_path(&known, "/p/A.uproject"));
    assert!(!contains_path(&known, "/p/B.uproject"));
}

#[test]
fn encoded_collection_decodes_to_equal_collection() {
    let plugin = ProjectPlugin {
        name: "Foo Pro".to_string(),
        is_enabled: false,
        is_in_project: true,
        marketplace_url: Some("https://m.test".to_string()),
        docs_url: None,
        size_on_disk: Some(42),
        last_scan_date: 7,
    };
    let mut a = sample("/p/A.uproject", 10);
    a.name = "Alpha".to_string();
    a.description = "first \u{1F600} project".to_string();
    a.engine_association = EngineAssociation::Standard("5.3".to_string());
    a.has_cpp = true;
    a.plugins = vec![plugin];
    let b = sample("/p/B.uproject", 20);
    let original = vec![a, b];
    let bytes = encode_projects(&original);
    let decoded = decode_projects(&bytes).expect("own encoding must decode");
    assert_eq!(decoded, original);
}

#[test]
fn empty_collection_round_trips() {
    let bytes = encode_projects(&vec![]);
    let decoded = decode_projects(&bytes).expect("empty encoding must decode");
    assert!(decoded.is_empty());
}

#[test]
fn missing_or_corrupt_store_loads_as_empty() {
    assert!(load_collection(None).is_empty());
    assert!(load_collection(Some(&vec![9, 9, 9])).is_empty());
    let original = vec![sample("/p/A.uproject", 4)];
    let bytes = encode_projects(&original);
    assert_eq!(load_collection(Some(&bytes)), original);
}

#[test]
fn corrupt_bytes_decode_to_nothing() {
    assert!(decode_projects(&vec![]).is_none());
    assert!(decode_projects(&vec![1, 2, 3]).is_none());
    let mut bytes = encode_projects(&vec![sample("/p/A.uproject", 1)]);
    bytes.push(0); // trailing garbage
    assert!(decode_projects(&bytes).is_none());
    let mut truncated = encode_projects(&vec![sample("/p/A.uproject", 1)]);
    truncated.pop();
    assert!(decode_projects(&truncated).is_none());
}
