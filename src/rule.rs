use vstd::prelude::*;

use crate::paths::strings_view;

verus! {

/// The mathematical view of a [`ComplianceRule`].
pub ghost struct RuleView {
    pub path_regex: Seq<char>,
    pub file_permissions: u32,
    pub required_files: Seq<Seq<char>>,
    pub non_existent_files: Seq<Seq<char>>,
}

/// One compliance policy unit.
///
/// `path_regex` is a glob pattern naming the files the rule covers;
/// `file_permissions` is the full mode (type bits included) every matched
/// non-directory entry must have; `required_files` must each be among the
/// matched non-directory entries; `non_existent_files` must not exist.
pub struct ComplianceRule {
    pub path_regex: String,
    pub file_permissions: u32,
    pub required_files: Vec<String>,
    pub non_existent_files: Vec<String>,
}

impl View for ComplianceRule {
    type V = RuleView;

    open spec fn view(&self) -> RuleView {
        RuleView {
            path_regex: self.path_regex@,
            file_permissions: self.file_permissions,
            required_files: strings_view(self.required_files@),
            non_existent_files: strings_view(self.non_existent_files@),
        }
    }
}

impl ComplianceRule {
    /// Creates a rule from its four parts, unchanged.
    pub fn new(
        path_regex: String,
        file_permissions: u32,
        required_files: Vec<String>,
        non_existent_files: Vec<String>,
    ) -> (r: Self)
        ensures
            r.path_regex == path_regex,
            r.file_permissions == file_permissions,
            r.required_files == required_files,
            r.non_existent_files == non_existent_files,
    {
        ComplianceRule { path_regex, file_permissions, required_files, non_existent_files }
    }
}

} // verus!
