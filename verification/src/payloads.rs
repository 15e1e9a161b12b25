//! The value shapes exchanged with the interface layer.

use vstd::prelude::*;

use crate::paths::ExclusionFlags;
use crate::project::Project;

verus! {

/// Everything the interface needs when the application comes up.
#[derive(Debug, Clone)]
pub struct AppInitializedPayload {
    pub projects: Vec<Project>,
}

/// A request to discover projects under a folder.
#[derive(Debug)]
pub struct ProjectDiscoveryRequest {
    pub base_folder: String,
    pub ignore_engine: bool,
    pub ignore_templates: bool,
    pub ignore_samples: bool,
}

impl ProjectDiscoveryRequest {
    /// The exclusion flags this request asks for.
    pub fn flags(&self) -> (r: ExclusionFlags)
        ensures
            r.ignore_templates == self.ignore_templates,
            r.ignore_engine == self.ignore_engine,
            r.ignore_samples == self.ignore_samples,
    {
        ExclusionFlags {
            ignore_templates: self.ignore_templates,
            ignore_engine: self.ignore_engine,
            ignore_samples: self.ignore_samples,
        }
    }
}

/// What a finished discovery reports back.
#[derive(Debug)]
pub struct ProjectDiscoveryResult {
    pub projects: Vec<Project>,
    pub total_found: usize,
    pub scan_duration_ms: u128,
}

/// The collection as the interface should now display it.
#[derive(Debug, Clone)]
pub struct ProjectsUpdatedPayload {
    pub projects: Vec<Project>,
}

} // verus!
