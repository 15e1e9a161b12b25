//! Discovery filtering, path helpers, and manifest reading.

use project_manager::manifest::parse_project_manifest;
use project_manager::manifest::parse_uplugin;
use project_manager::paths::{
    file_stem, filter_candidates, join_path, parent_dir, path_is_excluded, split_segments,
    ExclusionFlags,
};

fn all_flags() -> ExclusionFlags {
    ExclusionFlags { ignore_templates: true, ignore_engine: true, ignore_samples: true }
}

#[test]
fn segments_split_on_both_separators() {
    let segs = split_segments("/home//user\\Projects/Game.uproject");
    let segs: Vec<&str> = segs.iter().map(|s| s.as_str()).collect();
    assert_eq!(segs, vec!["home", "user", "Projects", "Game.uproject"]);
}

#[test]
fn exclusion_is_per_segment_not_substring() {
    let flags = all_flags();
    // A directory merely containing the word is not excluded.
    assert!(!path_is_excluded("/work/TemplatesArchive/Game.uproject", flags));
    assert!(!path_is_excluded("/work/MyEngineStuff/Game.uproject", flags));
    assert!(!path_is_excluded("/work/SamplesOld/Game.uproject", flags));
    // A segment equal to the name is.
    assert!(path_is_excluded("/work/Templates/Game.uproject", flags));
    assert!(path_is_excluded("/work/Engine/Game.uproject", flags));
    assert!(path_is_excluded("/work/Samples/Game.uproject", flags));
}

#[test]
fn exclusion_respects_individual_flags() {
    let only_templates =
        ExclusionFlags { ignore_templates: true, ignore_engine: false, ignore_samples: false };
    assert!(path_is_excluded("/p/Templates/G.uproject", only_templates));
    assert!(!path_is_excluded("/p/Engine/G.uproject", only_templates));
    assert!(!path_is_excluded("/p/Samples/G.uproject", only_templates));
}

#[test]
fn discovery_keeps_game_and_drops_template() {
    // Root with A/Game.uproject and A/Templates/Sample.uproject; only the
    // first survives with templates ignored.
    let flags =
        ExclusionFlags { ignore_templates: true, ignore_engine: false, ignore_samples: false };
    let candidates = vec![
        "/root/A/Game.uproject".to_string(),
        "/root/A/Templates/Sample.uproject".to_string(),
    ];
    let kept = filter_candidates(&candidates, flags);
    let kept: Vec<&str> = kept.iter().map(|s| s.as_str()).collect();
    assert_eq!(kept, vec!["/root/A/Game.uproject"]);
}

#[test]
fn file_stem_strips_one_extension() {
    assert_eq!(file_stem("/a/b/Game.uproject").as_str(), "Game");
    assert_eq!(file_stem("Plain").as_str(), "Plain");
    assert_eq!(file_stem("/x/archive.tar.gz").as_str(), "archive.tar");
    assert_eq!(file_stem("/x/.hidden").as_str(), ".hidden");
}

#[test]
fn parent_dir_and_join() {
    assert_eq!(parent_dir("/a/b/Game.uproject").as_str(), "/a/b");
    assert_eq!(parent_dir("Game.uproject").as_str(), "");
    assert_eq!(join_path("/a/b", "Plugins").as_str(), "/a/b/Plugins");
}

#[test]
fn project_manifest_reads_declared_fields() {
    let text = r#"{
        "Description": "A demo project",
        "EngineAssociation": "5.3",
        "Plugins": [
            {"Name": "Foo", "Enabled": false},
            {"Name": "Bar", "MarketplaceURL": "https://example.test/bar"},
            {"Enabled": true},
            {"Name": "Baz", "Enabled": "oops"}
        ]
    }"#;
    let m = parse_project_manifest(text).expect("valid manifest must parse");
    assert_eq!(m.description.as_str(), "A demo project");
    assert_eq!(m.engine_version.as_deref(), Some("5.3"));
    // The nameless entry is dropped; the ill-shaped Enabled defaults away.
    assert_eq!(m.plugins.len(), 3);
    assert_eq!(m.plugins[0].name.as_str(), "Foo");
    assert_eq!(m.plugins[0].enabled, Some(false));
    assert_eq!(m.plugins[1].name.as_str(), "Bar");
    assert_eq!(m.plugins[1].enabled, None);
    assert_eq!(
        m.plugins[1].marketplace_url.as_deref(),
        Some("https://example.test/bar")
    );
    assert_eq!(m.plugins[2].name.as_str(), "Baz");
    assert_eq!(m.plugins[2].enabled, None);
}

#[test]
fn project_manifest_defaults_missing_fields() {
    let m = parse_project_manifest("{}").expect("empty object is valid");
    assert_eq!(m.description.as_str(), "");
    assert_eq!(m.engine_version, None);
    assert!(m.plugins.is_empty());
}

#[test]
fn project_manifest_rejects_broken_text() {
    assert!(parse_project_manifest("not json at all {").is_none());
}

#[test]
fn project_manifest_defaults_ill_shaped_fields() {
    let m = parse_project_manifest(
        r#"{"Description": 42, "EngineAssociation": 5, "Plugins": "nope"}"#,
    )
    .expect("valid structure must parse");
    assert_eq!(m.description.as_str(), "");
    assert_eq!(m.engine_version, None);
    assert!(m.plugins.is_empty());
}

#[test]
fn discovery_request_carries_flags() {
    let request = project_manager::payloads::ProjectDiscoveryRequest {
        base_folder: "/root".to_string(),
        ignore_engine: true,
        ignore_templates: false,
        ignore_samples: true,
    };
    let flags = request.flags();
    assert!(flags.ignore_engine);
    assert!(!flags.ignore_templates);
    assert!(flags.ignore_samples);
}

#[test]
fn uplugin_reads_declared_fields() {
    let p = parse_uplugin(r#"{"FriendlyName": "Foo Pro", "DocsURL": "https://d.test"}"#)
        .expect("valid plugin manifest must parse");
    assert_eq!(p.friendly_name.as_deref(), Some("Foo Pro"));
    assert_eq!(p.marketplace_url, None);
    assert_eq!(p.docs_url.as_deref(), Some("https://d.test"));
}

#[test]
fn uplugin_defaults_missing_or_ill_shaped_fields() {
    let p = parse_uplugin(r#"{"FriendlyName": 7}"#).expect("valid structure must parse");
    assert_eq!(p.friendly_name, None);
    assert_eq!(p.marketplace_url, None);
    assert_eq!(p.docs_url, None);
}

#[test]
fn uplugin_rejects_broken_text() {
    // An unparseable plugin manifest is a per-plugin failure: the caller
    // logs it and skips that plugin.
    assert!(parse_uplugin("###").is_none());
}
