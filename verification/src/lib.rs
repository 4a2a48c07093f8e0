//! A local, offline technology-inventory engine: it classifies source files by
//! extension into language byte counts, matches static indicator tables against
//! top-level directory entries, parses per-ecosystem dependency manifests, and
//! merges per-root raw data into one exact report.
//!
//! Filesystem access (directory walking, manifest reading) is left to the
//! caller; every function here is a pure computation over the values the
//! caller hands in.

pub mod sorting;
pub mod strings;

pub mod dependencies;
pub mod frameworks;
pub mod languages;
pub mod output;
pub mod scan;
pub mod structures;

pub use output::{LanguageEntry, ScanResult, SignalEntry};
