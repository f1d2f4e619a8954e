use vstd::prelude::*;

use crate::paths::strings_view;

verus! {

/// The mathematical view of a [`MatchEntry`].
pub ghost enum EntryView {
    Directory { path: Seq<char> },
    File { path: Seq<char>, mode: u32 },
    Unreadable { reason: Seq<char> },
}

/// One result of expanding a rule's pattern against the filesystem.
///
/// A resolved path is either a directory or another entry together with the
/// full mode its metadata reported; a candidate that could not be resolved
/// carries the reason.
pub enum MatchEntry {
    Directory { path: String },
    File { path: String, mode: u32 },
    Unreadable { reason: String },
}

impl View for MatchEntry {
    type V = EntryView;

    open spec fn view(&self) -> EntryView {
        match self {
            MatchEntry::Directory { path } => EntryView::Directory { path: path@ },
            MatchEntry::File { path, mode } => EntryView::File { path: path@, mode: *mode },
            MatchEntry::Unreadable { reason } => EntryView::Unreadable { reason: reason@ },
        }
    }
}

/// The views of a sequence of entries.
pub open spec fn entries_view(v: Seq<MatchEntry>) -> Seq<EntryView> {
    v.map_values(|e: MatchEntry| e@)
}

/// The mathematical view of a [`RuleObservation`].
pub ghost struct ObservationView {
    pub entries: Seq<EntryView>,
    pub present_files: Seq<Seq<char>>,
}

/// What the filesystem showed for one rule: the expansion of its pattern, in
/// the order it was produced, and the paths that a direct probe found to exist.
pub struct RuleObservation {
    pub entries: Vec<MatchEntry>,
    pub present_files: Vec<String>,
}

impl View for RuleObservation {
    type V = ObservationView;

    open spec fn view(&self) -> ObservationView {
        ObservationView {
            entries: entries_view(self.entries@),
            present_files: strings_view(self.present_files@),
        }
    }
}

impl RuleObservation {
    pub fn new(entries: Vec<MatchEntry>, present_files: Vec<String>) -> (r: Self)
        ensures
            r.entries == entries,
            r.present_files == present_files,
    {
        RuleObservation { entries, present_files }
    }
}

} // verus!
