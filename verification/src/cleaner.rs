//! Planning and accounting for a cleaning pass.
//!
//! A cleaning pass deletes a caller-selected set of well-known derived
//! directories from a project and, optionally, from each of its plugins.
//! The selection is turned into an exact plan here; performing the
//! deletions and probing sizes is filesystem work that stays with the
//! caller, who hands the observed sizes back for accounting.

use vstd::prelude::*;

verus! {

/// Which well-known directories a cleaning pass should delete.
#[derive(Debug, Clone, Copy, PartialEq, Eq, Structural)]
pub struct CleaningSelection {
    pub ide_files: bool,
    pub binaries: bool,
    pub build: bool,
    pub intermediate: bool,
    pub derived_data_cache: bool,
    pub saved: bool,
    pub analyze_plugins: bool,
    pub plugin_binaries: bool,
    pub plugin_intermediate: bool,
    pub plugin_node_size_cache: bool,
    pub save_as_default: bool,
}

/// What a cleaning pass reports: the sizes around it and every directory
/// that was actually deleted.
#[derive(Debug, Clone, PartialEq)]
pub struct CleaningResult {
    pub original_size: u64,
    pub new_size: u64,
    pub saved_size: u64,
    pub cleaned_items: Vec<String>,
}

/// The project-level directory names that the selection cleans, in a
/// fixed order.
pub open spec fn spec_project_clean_dirs(sel: CleaningSelection) -> Seq<Seq<char>> {
    (if sel.ide_files {
        seq![".vs"@, ".idea"@]
    } else {
        Seq::empty()
    }) + (if sel.binaries {
        seq!["Binaries"@]
    } else {
        Seq::empty()
    }) + (if sel.build {
        seq!["Build"@]
    } else {
        Seq::empty()
    }) + (if sel.intermediate {
        seq!["Intermediate"@]
    } else {
        Seq::empty()
    }) + (if sel.derived_data_cache {
        seq!["DerivedDataCache"@]
    } else {
        Seq::empty()
    }) + (if sel.saved {
        seq!["Saved"@]
    } else {
        Seq::empty()
    })
}

/// The per-plugin directory names that the selection cleans; nothing
/// unless plugin analysis was chosen.
pub open spec fn spec_plugin_clean_dirs(sel: CleaningSelection) -> Seq<Seq<char>> {
    if !sel.analyze_plugins {
        Seq::empty()
    } else {
        (if sel.plugin_binaries {
            seq!["Binaries"@]
        } else {
            Seq::empty()
        }) + (if sel.plugin_intermediate {
            seq!["Intermediate"@]
        } else {
            Seq::empty()
        }) + (if sel.plugin_node_size_cache {
            seq!["NodeSizeCache"@]
        } else {
            Seq::empty()
        })
    }
}

/// The directory names to delete under the project directory itself.
pub fn project_clean_dirs(sel: &CleaningSelection) -> (r: Vec<String>)
    ensures
        r@.map_values(|s: String| s@) == spec_project_clean_dirs(*sel),
{
    let mut r: Vec<String> = Vec::new();
    if sel.ide_files {
        r.push(".vs".to_owned());
        r.push(".idea".to_owned());
    }
    if sel.binaries {
        r.push("Binaries".to_owned());
    }
    if sel.build {
        r.push("Build".to_owned());
    }
    if sel.intermediate {
        r.push("Intermediate".to_owned());
    }
    if sel.derived_data_cache {
        r.push("DerivedDataCache".to_owned());
    }
    if sel.saved {
        r.push("Saved".to_owned());
    }
    proof {
        assert(r@.map_values(|s: String| s@) =~~= spec_project_clean_dirs(*sel));
    }
    r
}

/// The directory names to delete under each plugin directory.
pub fn plugin_clean_dirs(sel: &CleaningSelection) -> (r: Vec<String>)
    ensures
        r@.map_values(|s: String| s@) == spec_plugin_clean_dirs(*sel),
{
    let mut r: Vec<String> = Vec::new();
    if sel.analyze_plugins {
        if sel.plugin_binaries {
            r.push("Binaries".to_owned());
        }
        if sel.plugin_intermediate {
            r.push("Intermediate".to_owned());
        }
        if sel.plugin_node_size_cache {
            r.push("NodeSizeCache".to_owned());
        }
    }
    proof {
        assert(r@.map_values(|s: String| s@) =~~= spec_plugin_clean_dirs(*sel));
    }
    r
}

impl CleaningResult {
    /// Accounts for a finished pass: the saved size is the drop between
    /// the observed sizes, never below zero, and the cleaned items are
    /// exactly the directories the pass deleted.
    pub fn from_sizes(original_size: u64, new_size: u64, cleaned_items: Vec<String>) -> (r:
        CleaningResult)
        ensures
            r.original_size == original_size,
            r.new_size == new_size,
            r.saved_size == if new_size <= original_size {
                original_size - new_size
            } else {
                0
            },
            r.cleaned_items@ == cleaned_items@,
    {
        let saved_size = if new_size <= original_size {
            original_size - new_size
        } else {
            0
        };
        CleaningResult { original_size, new_size, saved_size, cleaned_items }
    }
}

} // verus!
