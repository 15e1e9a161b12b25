//! Core engine of a desktop utility that discovers, tracks, cleans, and
//! archives game-engine project directories.
//!
//! The library owns the pure logic: path-based discovery filtering, manifest
//! field defaulting, plugin reconciliation, the tracked project collection and
//! its persistence encoding, and the planning of cleaning and archiving
//! operations. All filesystem walking, process spawning and event emission is
//! left to the surrounding application, which hands plain values in and out.

pub mod cleaner;
pub mod codec;
pub mod compressor;
pub mod json;
pub mod manifest;
pub mod misc;
pub mod paths;
pub mod payloads;
pub mod plugins;
pub mod project;
pub mod settings;
pub mod text;
pub mod tracking;
