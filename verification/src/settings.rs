//! Application settings and their documented defaults.

use vstd::prelude::*;

use std::collections::HashMap;

use crate::cleaner::CleaningSelection;

verus! {

/// Custom editor programs, keyed by display name.
#[derive(Debug, Clone)]
pub struct IdePrograms {
    pub custom_programs: HashMap<String, String>,
}

impl Default for IdePrograms {
    /// By default no custom editor is configured.
    fn default() -> (r: Self)
        ensures
            r.custom_programs@.len() == 0,
    {
        IdePrograms { custom_programs: HashMap::new() }
    }
}

/// Custom engine builds, keyed by display name.
#[derive(Debug, Clone)]
pub struct EnginePrograms {
    pub custom_engines: HashMap<String, String>,
}

impl Default for EnginePrograms {
    /// By default no custom engine is configured.
    fn default() -> (r: Self)
        ensures
            r.custom_engines@.len() == 0,
    {
        EnginePrograms { custom_engines: HashMap::new() }
    }
}

/// Which cleaning boxes come pre-ticked.
#[derive(Debug, Clone, Copy, PartialEq, Eq, Structural)]
pub struct CleaningDefaults {
    pub ide_files: bool,
    pub binaries: bool,
    pub build: bool,
    pub intermediate: bool,
    pub derived_data_cache: bool,
    pub saved: bool,
    pub analyze_plugins: bool,
    pub plugin_binaries: bool,
    pub plugin_intermediate: bool,
    pub plugin_node_size_cache: bool,
}

impl Default for CleaningDefaults {
    /// Caches and saved data are kept by default; build artifacts are
    /// cleaned.
    fn default() -> (r: Self)
        ensures
            r == (CleaningDefaults {
                ide_files: true,
                binaries: true,
                build: true,
                intermediate: true,
                derived_data_cache: false,
                saved: false,
                analyze_plugins: false,
                plugin_binaries: false,
                plugin_intermediate: false,
                plugin_node_size_cache: false,
            }),
    {
        CleaningDefaults {
            ide_files: true,
            binaries: true,
            build: true,
            intermediate: true,
            derived_data_cache: false,
            saved: false,
            analyze_plugins: false,
            plugin_binaries: false,
            plugin_intermediate: false,
            plugin_node_size_cache: false,
        }
    }
}

impl CleaningDefaults {
    /// The selection that these defaults pre-fill, with plain defaults
    /// for the per-run choices.
    pub fn to_selection(&self) -> (r: CleaningSelection)
        ensures
            r == (CleaningSelection {
                ide_files: self.ide_files,
                binaries: self.binaries,
                build: self.build,
                intermediate: self.intermediate,
                derived_data_cache: self.derived_data_cache,
                saved: self.saved,
                analyze_plugins: self.analyze_plugins,
                plugin_binaries: self.plugin_binaries,
                plugin_intermediate: self.plugin_intermediate,
                plugin_node_size_cache: self.plugin_node_size_cache,
                save_as_default: false,
            }),
    {
        CleaningSelection {
            ide_files: self.ide_files,
            binaries: self.binaries,
            build: self.build,
            intermediate: self.intermediate,
            derived_data_cache: self.derived_data_cache,
            saved: self.saved,
            analyze_plugins: self.analyze_plugins,
            plugin_binaries: self.plugin_binaries,
            plugin_intermediate: self.plugin_intermediate,
            plugin_node_size_cache: self.plugin_node_size_cache,
            save_as_default: false,
        }
    }

    /// The defaults remembered from a finished pass's selection.
    pub fn from_selection(sel: &CleaningSelection) -> (r: CleaningDefaults)
        ensures
            r == (CleaningDefaults {
                ide_files: sel.ide_files,
                binaries: sel.binaries,
                build: sel.build,
                intermediate: sel.intermediate,
                derived_data_cache: sel.derived_data_cache,
                saved: sel.saved,
                analyze_plugins: sel.analyze_plugins,
                plugin_binaries: sel.plugin_binaries,
                plugin_intermediate: sel.plugin_intermediate,
                plugin_node_size_cache: sel.plugin_node_size_cache,
            }),
    {
        CleaningDefaults {
            ide_files: sel.ide_files,
            binaries: sel.binaries,
            build: sel.build,
            intermediate: sel.intermediate,
            derived_data_cache: sel.derived_data_cache,
            saved: sel.saved,
            analyze_plugins: sel.analyze_plugins,
            plugin_binaries: sel.plugin_binaries,
            plugin_intermediate: sel.plugin_intermediate,
            plugin_node_size_cache: sel.plugin_node_size_cache,
        }
    }
}

/// General application behaviour.
#[derive(Debug, Clone, Copy, PartialEq, Eq, Structural)]
pub struct GeneralSettings {
    pub autostart_enabled: bool,
    pub show_welcome_popup: bool,
}

impl Default for GeneralSettings {
    /// The welcome screen shows until dismissed; autostart is off.
    fn default() -> (r: Self)
        ensures
            r == (GeneralSettings { autostart_enabled: false, show_welcome_popup: true }),
    {
        GeneralSettings { autostart_enabled: false, show_welcome_popup: true }
    }
}

/// Archive naming settings.
#[derive(Debug, Clone)]
pub struct CompressionSettings {
    /// The template used for archive file names; bracketed keys are
    /// substituted at archive time.
    pub filename_format: String,
    pub custom_presets: HashMap<String, String>,
}

impl Default for CompressionSettings {
    /// The default template names the project and a timestamp; a set of
    /// ready-made presets comes along.
    fn default() -> (r: Self)
        ensures
            r.filename_format@ == "[Project]_[YYYY][MM][DD][HH][mm]"@,
    {
        let mut custom_presets: HashMap<String, String> = HashMap::new();
        custom_presets.insert(
            "Default".to_owned(),
            "[Project]_[YYYY][MM][DD][HH][mm]".to_owned(),
        );
        custom_presets.insert(
            "Default Extended".to_owned(),
            "[Project]_[YYYY]-[MM]-[DD]_[HH]-[mm]-[ss]".to_owned(),
        );
        custom_presets.insert("Simple".to_owned(), "[Project]_[Type]".to_owned());
        custom_presets.insert(
            "Detailed".to_owned(),
            "[Project]_[Engine]_[Type]_[YYYY][MM][DD]_[HH][mm]".to_owned(),
        );
        custom_presets.insert(
            "Archive Style".to_owned(),
            "[YYYY]-[MM]-[DD]_[Project]_[Algorithm]".to_owned(),
        );
        custom_presets.insert(
            "User Specific".to_owned(),
            "[User]_[Project]_[Mon][DD]_[HH][mm]".to_owned(),
        );
        custom_presets.insert("Timestamp".to_owned(), "[Project]_[Timestamp]".to_owned());
        custom_presets.insert(
            "Size Aware".to_owned(),
            "[Project]_[SizeGB]GB_[YYYY][MM][DD]".to_owned(),
        );
        custom_presets.insert(
            "Engine Specific".to_owned(),
            "UE[Engine]_[Project]_[Type]_[YYYY][MM][DD]".to_owned(),
        );
        custom_presets.insert(
            "Professional".to_owned(),
            "[Project]_v[YYYY].[MM].[DD]_[Type]_[Algorithm]".to_owned(),
        );
        custom_presets.insert("Minimal".to_owned(), "[Project]_[YY][MM][DD]".to_owned());
        custom_presets.insert(
            "Verbose".to_owned(),
            "[Computer]_[User]_[Project]_[Engine]_[Type]_[YYYY]-[MM]-[DD]_[HH]-[mm]-[ss]".to_owned(),
        );
        CompressionSettings {
            filename_format: "[Project]_[YYYY][MM][DD][HH][mm]".to_owned(),
            custom_presets,
        }
    }
}

/// Everything the application remembers between runs.
#[derive(Debug, Clone)]
pub struct AppSettings {
    pub ide_programs: IdePrograms,
    pub engine_programs: EnginePrograms,
    pub cleaning_defaults: CleaningDefaults,
    pub general: GeneralSettings,
    pub compression: CompressionSettings,
}

impl AppSettings {
    /// Whether the welcome screen is still owed to the user.
    pub fn should_show_welcome_popup(&self) -> (r: bool)
        ensures
            r == self.general.show_welcome_popup,
    {
        self.general.show_welcome_popup
    }

    /// Marks the welcome screen as dismissed for good.
    pub fn disable_welcome_popup(&mut self)
        ensures
            final(self).general.show_welcome_popup == false,
            final(self).general.autostart_enabled == old(self).general.autostart_enabled,
            final(self).cleaning_defaults == old(self).cleaning_defaults,
    {
        self.general.show_welcome_popup = false;
    }
}

impl Default for AppSettings {
    /// Every section starts from its own defaults.
    fn default() -> (r: Self)
        ensures
            r.cleaning_defaults == (CleaningDefaults {
                ide_files: true,
                binaries: true,
                build: true,
                intermediate: true,
                derived_data_cache: false,
                saved: false,
                analyze_plugins: false,
                plugin_binaries: false,
                plugin_intermediate: false,
                plugin_node_size_cache: false,
            }),
            r.general == (GeneralSettings { autostart_enabled: false, show_welcome_popup: true }),
            r.compression.filename_format@ == "[Project]_[YYYY][MM][DD][HH][mm]"@,
    {
        AppSettings {
            ide_programs: IdePrograms::default(),
            engine_programs: EnginePrograms::default(),
            cleaning_defaults: CleaningDefaults::default(),
            general: GeneralSettings::default(),
            compression: CompressionSettings::default(),
        }
    }
}

} // verus!
