//! The report types a scan produces: language composition entries, detected
//! signals, and the combined result.

use vstd::prelude::*;

verus! {

/// One language in the report. `permille` is the language's share of all
/// classified bytes in tenths of a percent, rounded half away from zero,
/// so 1000 stands for 100.0%.
#[derive(Debug, Clone, PartialEq, Eq)]
pub struct LanguageEntry {
    pub name: String,
    pub category: String,
    pub permille: u64,
}

/// One detected signal: a display name together with its category
/// ("framework", "tool", "language" or "infrastructure").
#[derive(Debug, Clone, PartialEq, Eq)]
pub struct SignalEntry {
    pub name: String,
    pub category: String,
}

/// The combined result of one scan.
#[derive(Debug, Clone, PartialEq, Eq)]
pub struct ScanResult {
    pub languages: Vec<LanguageEntry>,
    pub frameworks: Vec<SignalEntry>,
    pub project_structures: Vec<String>,
    pub infrastructure_signals: Vec<SignalEntry>,
}

/// Mathematical view of a language entry: name, category and permille.
pub open spec fn lang_view(e: LanguageEntry) -> (Seq<char>, Seq<char>, u64) {
    (e.name@, e.category@, e.permille)
}

pub open spec fn lang_views(s: Seq<LanguageEntry>) -> Seq<(Seq<char>, Seq<char>, u64)> {
    s.map_values(|e: LanguageEntry| lang_view(e))
}

/// Mathematical view of a signal entry: name and category.
pub open spec fn sig_view(e: SignalEntry) -> (Seq<char>, Seq<char>) {
    (e.name@, e.category@)
}

pub open spec fn sig_views(s: Seq<SignalEntry>) -> Seq<(Seq<char>, Seq<char>)> {
    s.map_values(|e: SignalEntry| sig_view(e))
}

} // verus!
