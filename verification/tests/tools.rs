//! Formatting, cleaning plans, archive names, and settings defaults.

use project_manager::cleaner::{CleaningResult, CleaningSelection};
use project_manager::codec::{decode_cleaning_defaults, encode_cleaning_defaults};
use project_manager::compressor::{
    generate_filename, get_algorithm_name, get_available_compression_algorithms,
    get_extension_for_algorithm, render_template, sanitize_filename, CompressionAlgorithm,
};
use project_manager::misc::{format_size, ErrorLevel};
use project_manager::settings::{AppSettings, CleaningDefaults};
use project_manager::text::{str_eq, u64_to_dec};

fn full_selection() -> CleaningSelection {
    CleaningSelection {
        ide_files: true,
        binaries: true,
        build: true,
        intermediate: true,
        derived_data_cache: true,
        saved: true,
        analyze_plugins: true,
        plugin_binaries: true,
        plugin_intermediate: true,
        plugin_node_size_cache: true,
        save_as_default: false,
    }
}

#[test]
fn error_levels_have_wire_names() {
    assert_eq!(ErrorLevel::Info.as_str(), "info");
    assert_eq!(ErrorLevel::Warning.as_str(), "warning");
    assert_eq!(ErrorLevel::Error.as_str(), "error");
    assert_eq!(ErrorLevel::Debug.as_str(), "debug");
}

#[test]
fn sizes_format_by_binary_unit() {
    assert_eq!(format_size(0).as_str(), "0 B");
    assert_eq!(format_size(512).as_str(), "512 B");
    assert_eq!(format_size(1024).as_str(), "1.00 KB");
    assert_eq!(format_size(1536).as_str(), "1.50 KB");
    assert_eq!(format_size(2 * 1024 * 1024).as_str(), "2.00 MB");
    assert_eq!(format_size(5 * 1024 * 1024 * 1024 / 2).as_str(), "2.50 GB");
    assert_eq!(format_size(1023).as_str(), "1023 B");
    assert_eq!(format_size(1024 * 1024 - 1).as_str(), "1024.00 KB");
}

#[test]
fn decimal_rendering_is_exact() {
    assert_eq!(u64_to_dec(0).as_str(), "0");
    assert_eq!(u64_to_dec(907).as_str(), "907");
    assert_eq!(u64_to_dec(u64::MAX).as_str(), "18446744073709551615");
    assert!(str_eq("abc", "abc"));
    assert!(!str_eq("abc", "abd"));
}

#[test]
fn cleaning_plan_follows_selection() {
    let all = project_manager::cleaner::project_clean_dirs(&full_selection());
    let all: Vec<&str> = all.iter().map(|s| s.as_str()).collect();
    assert_eq!(
        all,
        vec![".vs", ".idea", "Binaries", "Build", "Intermediate", "DerivedDataCache", "Saved"]
    );
    let mut none = full_selection();
    none.ide_files = false;
    none.binaries = false;
    none.build = false;
    none.intermediate = false;
    none.derived_data_cache = false;
    none.saved = false;
    assert!(project_manager::cleaner::project_clean_dirs(&none).is_empty());
}

#[test]
fn plugin_plan_requires_analysis_flag() {
    let mut sel = full_selection();
    let dirs = project_manager::cleaner::plugin_clean_dirs(&sel);
    let dirs: Vec<&str> = dirs.iter().map(|s| s.as_str()).collect();
    assert_eq!(dirs, vec!["Binaries", "Intermediate", "NodeSizeCache"]);
    sel.analyze_plugins = false;
    assert!(project_manager::cleaner::plugin_clean_dirs(&sel).is_empty());
}

#[test]
fn cleaning_nothing_reports_no_savings() {
    // A selected directory that was absent on disk: sizes match, no item.
    let r = CleaningResult::from_sizes(1000, 1000, vec![]);
    assert_eq!(r.saved_size, 0);
    assert!(r.cleaned_items.is_empty());
    let r2 = CleaningResult::from_sizes(1000, 400, vec!["/p/Binaries".to_string()]);
    assert_eq!(r2.saved_size, 600);
}

#[test]
fn algorithm_names_and_extensions() {
    assert_eq!(get_extension_for_algorithm(&CompressionAlgorithm::Zip), "zip");
    assert_eq!(get_extension_for_algorithm(&CompressionAlgorithm::SevenZip), "7z");
    assert_eq!(get_extension_for_algorithm(&CompressionAlgorithm::Tar), "tar");
    assert_eq!(get_extension_for_algorithm(&CompressionAlgorithm::TarGz), "tar.gz");
    assert_eq!(get_algorithm_name(&CompressionAlgorithm::Zip), "ZIP");
    assert_eq!(get_algorithm_name(&CompressionAlgorithm::SevenZip), "7-Zip");
    assert_eq!(get_algorithm_name(&CompressionAlgorithm::Tar), "TAR");
    assert_eq!(get_algorithm_name(&CompressionAlgorithm::TarGz), "TAR.GZ");
}

#[test]
fn available_algorithms_follow_probes() {
    assert_eq!(
        get_available_compression_algorithms(true, false, true),
        vec![CompressionAlgorithm::Zip, CompressionAlgorithm::Tar, CompressionAlgorithm::TarGz]
    );
    assert_eq!(
        get_available_compression_algorithms(false, true, false),
        vec![CompressionAlgorithm::SevenZip]
    );
    // With nothing found, the baseline format is still offered.
    assert_eq!(
        get_available_compression_algorithms(false, false, false),
        vec![CompressionAlgorithm::Zip]
    );
}

#[test]
fn sanitize_replaces_and_trims() {
    assert_eq!(sanitize_filename("a<b>c:d").as_str(), "a_b_c_d");
    assert_eq!(sanitize_filename("dir/file\\name").as_str(), "dir_file_name");
    assert_eq!(sanitize_filename("  .name.  ").as_str(), "name");
    assert_eq!(sanitize_filename(" .. ").as_str(), "compressed_project");
    assert_eq!(sanitize_filename("").as_str(), "compressed_project");
}

#[test]
fn template_renders_in_list_order() {
    let reps = vec![
        ("Project".to_string(), "Demo".to_string()),
        ("YYYY".to_string(), "2026".to_string()),
    ];
    assert_eq!(
        render_template("[Project]_[YYYY]", &reps).as_str(),
        "Demo_2026"
    );
    assert_eq!(render_template("[Missing]", &reps).as_str(), "[Missing]");
}

#[test]
fn filenames_get_extension_and_sanitizing() {
    let reps = vec![("Project".to_string(), "My:Game".to_string())];
    let name = generate_filename("[Project]", &reps, &CompressionAlgorithm::Zip);
    assert_eq!(name.as_str(), "My_Game.zip");
    // An extension already present is not doubled.
    let name2 = generate_filename("backup.tar.gz", &vec![], &CompressionAlgorithm::TarGz);
    assert_eq!(name2.as_str(), "backup.tar.gz");
}

#[test]
fn cleaning_defaults_survive_their_encoding() {
    let d = CleaningDefaults::default();
    assert_eq!(decode_cleaning_defaults(&encode_cleaning_defaults(&d)), Some(d));
    let mut odd = CleaningDefaults::default();
    odd.saved = true;
    odd.ide_files = false;
    odd.plugin_node_size_cache = true;
    assert_eq!(decode_cleaning_defaults(&encode_cleaning_defaults(&odd)), Some(odd));
    // Malformed bytes: wrong length, an out-of-range byte, trailing data.
    assert_eq!(decode_cleaning_defaults(&vec![1, 0, 1]), None);
    assert_eq!(decode_cleaning_defaults(&vec![2, 0, 0, 0, 0, 0, 0, 0, 0, 0]), None);
    let mut long = encode_cleaning_defaults(&d);
    long.push(0);
    assert_eq!(decode_cleaning_defaults(&long), None);
}

#[test]
fn settings_defaults_match_documentation() {
    let s = AppSettings::default();
    assert!(s.general.show_welcome_popup);
    assert!(!s.general.autostart_enabled);
    assert_eq!(s.compression.filename_format.as_str(), "[Project]_[YYYY][MM][DD][HH][mm]");
    assert_eq!(s.compression.custom_presets.len(), 12);
    let d = CleaningDefaults::default();
    assert!(d.ide_files && d.binaries && d.build && d.intermediate);
    assert!(!d.derived_data_cache && !d.saved && !d.analyze_plugins);
    let sel = d.to_selection();
    assert!(!sel.save_as_default);
    assert_eq!(CleaningDefaults::from_selection(&sel), d);
}
