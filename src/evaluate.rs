use vstd::prelude::*;

use crate::observation::{EntryView, MatchEntry, ObservationView, RuleObservation, entries_view};
use crate::paths::{contains_path, lemma_strings_view_push, strings_view};
use crate::laws::lemma_rules_status_is_worst_code;
use crate::rule::{ComplianceRule, RuleView};

verus! {

/// Every rule was satisfied.
pub const COMPLIANT: i32 = 0;

/// The run could not be carried out (rule source unreadable, malformed pattern).
pub const GENERIC_ERROR: i32 = 1;

/// A matched file had a mode other than its rule's expected one.
pub const PERMISSION_ERROR: i32 = 2;

/// A required file was not among its rule's matched files.
pub const MISSING_REQUIRED_FILE: i32 = 3;

/// A file that a rule forbids exists.
pub const FORBIDDEN_FILE_PRESENT: i32 = 4;

/// The paths of the non-directory entries, in order.
pub open spec fn seen_files(entries: Seq<EntryView>) -> Seq<Seq<char>>
    decreases entries.len(),
{
    if entries.len() == 0 {
        Seq::empty()
    } else {
        let earlier = seen_files(entries.drop_last());
        match entries.last() {
            EntryView::File { path, .. } => earlier.push(path),
            _ => earlier,
        }
    }
}

/// The paths of the non-directory entries whose mode is not `expected`, in order.
pub open spec fn mode_mismatches(entries: Seq<EntryView>, expected: u32) -> Seq<Seq<char>>
    decreases entries.len(),
{
    if entries.len() == 0 {
        Seq::empty()
    } else {
        let earlier = mode_mismatches(entries.drop_last(), expected);
        match entries.last() {
            EntryView::File { path, mode } => if mode != expected {
                earlier.push(path)
            } else {
                earlier
            },
            _ => earlier,
        }
    }
}

/// The required paths that are not among `seen`, in order.
pub open spec fn missing_files(required: Seq<Seq<char>>, seen: Seq<Seq<char>>) -> Seq<Seq<char>>
    decreases required.len(),
{
    if required.len() == 0 {
        Seq::empty()
    } else {
        let earlier = missing_files(required.drop_last(), seen);
        if seen.contains(required.last()) {
            earlier
        } else {
            earlier.push(required.last())
        }
    }
}

/// The forbidden paths that are among `present`, in order.
pub open spec fn forbidden_found(forbidden: Seq<Seq<char>>, present: Seq<Seq<char>>) -> Seq<
    Seq<char>,
>
    decreases forbidden.len(),
{
    if forbidden.len() == 0 {
        Seq::empty()
    } else {
        let earlier = forbidden_found(forbidden.drop_last(), present);
        if present.contains(forbidden.last()) {
            earlier.push(forbidden.last())
        } else {
            earlier
        }
    }
}

/// The mathematical view of a [`RuleReport`].
pub ghost struct ReportView {
    pub permission_failures: Seq<Seq<char>>,
    pub missing_files: Seq<Seq<char>>,
    pub forbidden_present: Seq<Seq<char>>,
}

/// The violations of one rule against what was observed for it.
pub open spec fn expected_report(rule: RuleView, obs: ObservationView) -> ReportView {
    ReportView {
        permission_failures: mode_mismatches(obs.entries, rule.file_permissions),
        missing_files: missing_files(rule.required_files, seen_files(obs.entries)),
        forbidden_present: forbidden_found(rule.non_existent_files, obs.present_files),
    }
}

/// The code of the most severe violation in a report: a present forbidden file
/// over a missing required file over a wrong mode; [`COMPLIANT`] when there is
/// none.
pub open spec fn report_code(report: ReportView) -> i32 {
    if report.forbidden_present.len() > 0 {
        FORBIDDEN_FILE_PRESENT
    } else if report.missing_files.len() > 0 {
        MISSING_REQUIRED_FILE
    } else if report.permission_failures.len() > 0 {
        PERMISSION_ERROR
    } else {
        COMPLIANT
    }
}

/// The running status after folding in one rule's report: a violation raises
/// the status to its code when that code is higher; otherwise, and with no
/// violation, the status stays as it was. It is never lowered.
pub open spec fn status_from_report(report: ReportView, status: i32) -> i32 {
    let code = report_code(report);
    if code != COMPLIANT && code > status {
        code
    } else {
        status
    }
}

/// The running status after evaluating `rule` against `obs`.
pub open spec fn rule_status(rule: RuleView, obs: ObservationView, status: i32) -> i32 {
    status_from_report(expected_report(rule, obs), status)
}

/// The status after folding in the rules one by one, rule `i` against
/// `obs[i]`. Its value does not depend on their order: see [`worst_code`].
pub open spec fn rules_status(rules: Seq<RuleView>, obs: Seq<ObservationView>, status: i32) -> i32
    decreases rules.len(),
{
    if rules.len() == 0 {
        status
    } else {
        let i = rules.len() - 1;
        rule_status(rules[i], obs[i], rules_status(rules.drop_last(), obs, status))
    }
}

/// The highest violation code over all rules, rule `i` against `obs[i]`;
/// [`COMPLIANT`] when no rule is violated.
pub open spec fn worst_code(rules: Seq<RuleView>, obs: Seq<ObservationView>) -> i32
    decreases rules.len(),
{
    if rules.len() == 0 {
        COMPLIANT
    } else {
        let i = rules.len() - 1;
        let code = report_code(expected_report(rules[i], obs[i]));
        let earlier = worst_code(rules.drop_last(), obs);
        if code > earlier {
            code
        } else {
            earlier
        }
    }
}

/// The violations found for one rule.
pub struct RuleReport {
    /// Matched non-directory paths whose mode differs from the expected one.
    pub permission_failures: Vec<String>,
    /// Required paths that were not among the matched non-directory paths.
    pub missing_files: Vec<String>,
    /// Forbidden paths that exist.
    pub forbidden_present: Vec<String>,
}

impl View for RuleReport {
    type V = ReportView;

    open spec fn view(&self) -> ReportView {
        ReportView {
            permission_failures: strings_view(self.permission_failures@),
            missing_files: strings_view(self.missing_files@),
            forbidden_present: strings_view(self.forbidden_present@),
        }
    }
}

impl RuleReport {
    /// Whether the rule was satisfied.
    pub fn is_compliant(&self) -> (r: bool)
        ensures
            r == (self@.permission_failures.len() == 0 && self@.missing_files.len() == 0
                && self@.forbidden_present.len() == 0),
    {
        self.permission_failures.len() == 0 && self.missing_files.len() == 0
            && self.forbidden_present.len() == 0
    }

    /// The code of the most severe violation in this report.
    pub fn code(&self) -> (r: i32)
        ensures
            r == report_code(self@),
    {
        if self.forbidden_present.len() > 0 {
            FORBIDDEN_FILE_PRESENT
        } else if self.missing_files.len() > 0 {
            MISSING_REQUIRED_FILE
        } else if self.permission_failures.len() > 0 {
            PERMISSION_ERROR
        } else {
            COMPLIANT
        }
    }

    /// Folds this report into the running status, keeping the higher code.
    pub fn status_after(&self, status: i32) -> (r: i32)
        ensures
            r == status_from_report(self@, status),
    {
        let code = self.code();
        if code != COMPLIANT && code > status {
            code
        } else {
            status
        }
    }
}

/// The paths of the non-directory entries, in the order they were matched.
pub fn seen_paths(entries: &Vec<MatchEntry>) -> (r: Vec<String>)
    ensures
        strings_view(r@) == seen_files(entries_view(entries@)),
{
    let ghost all = entries_view(entries@);
    let mut seen: Vec<String> = Vec::new();
    let mut i: usize = 0;
    while i < entries.len()
        invariant
            i <= entries.len(),
            all == entries_view(entries@),
            strings_view(seen@) == seen_files(all.take(i as int)),
        decreases entries.len() - i,
    {
        assert(all.take(i + 1).drop_last() =~= all.take(i as int));
        match &entries[i] {
            MatchEntry::File { path, .. } => {
                proof {
                    lemma_strings_view_push(seen@, *path);
                }
                seen.push(path.clone());
            },
            _ => {},
        }
        i += 1;
    }
    assert(all.take(entries.len() as int) =~= all);
    seen
}

/// The matched non-directory paths whose mode differs from the rule's expected
/// mode in any bit, in the order they were matched. Directories and entries
/// that could not be resolved are not checked.
pub fn permission_failures(rule: &ComplianceRule, entries: &Vec<MatchEntry>) -> (r: Vec<String>)
    ensures
        strings_view(r@) == mode_mismatches(entries_view(entries@), rule.file_permissions),
{
    let ghost all = entries_view(entries@);
    let mut failures: Vec<String> = Vec::new();
    let mut i: usize = 0;
    while i < entries.len()
        invariant
            i <= entries.len(),
            all == entries_view(entries@),
            strings_view(failures@) == mode_mismatches(all.take(i as int), rule.file_permissions),
        decreases entries.len() - i,
    {
        assert(all.take(i + 1).drop_last() =~= all.take(i as int));
        match &entries[i] {
            MatchEntry::File { path, mode } => {
                if *mode != rule.file_permissions {
                    proof {
                        lemma_strings_view_push(failures@, *path);
                    }
                    failures.push(path.clone());
                }
            },
            _ => {},
        }
        i += 1;
    }
    assert(all.take(entries.len() as int) =~= all);
    failures
}

/// The rule's required files that are not among `seen`, compared as whole
/// strings, in the order the rule lists them. Every required file is checked.
pub fn missing_required_files(rule: &ComplianceRule, seen: &Vec<String>) -> (r: Vec<String>)
    ensures
        strings_view(r@) == missing_files(rule@.required_files, strings_view(seen@)),
{
    let ghost required = rule@.required_files;
    let ghost seen_view = strings_view(seen@);
    let mut missing: Vec<String> = Vec::new();
    let mut i: usize = 0;
    while i < rule.required_files.len()
        invariant
            i <= rule.required_files.len(),
            required == rule@.required_files,
            seen_view == strings_view(seen@),
            strings_view(missing@) == missing_files(required.take(i as int), seen_view),
        decreases rule.required_files.len() - i,
    {
        assert(required.take(i + 1).drop_last() =~= required.take(i as int));
        let file = &rule.required_files[i];
        assert(required.take(i + 1).last() == file@);
        if !contains_path(seen, file) {
            proof {
                lemma_strings_view_push(missing@, *file);
            }
            missing.push(file.clone());
        }
        i += 1;
    }
    assert(required.take(rule.required_files.len() as int) =~= required);
    missing
}

/// The rule's forbidden files that are among `present`, in the order the rule
/// lists them.
pub fn present_forbidden_files(rule: &ComplianceRule, present: &Vec<String>) -> (r: Vec<String>)
    ensures
        strings_view(r@) == forbidden_found(rule@.non_existent_files, strings_view(present@)),
{
    let ghost forbidden = rule@.non_existent_files;
    let ghost present_view = strings_view(present@);
    let mut found: Vec<String> = Vec::new();
    let mut i: usize = 0;
    while i < rule.non_existent_files.len()
        invariant
            i <= rule.non_existent_files.len(),
            forbidden == rule@.non_existent_files,
            present_view == strings_view(present@),
            strings_view(found@) == forbidden_found(forbidden.take(i as int), present_view),
        decreases rule.non_existent_files.len() - i,
    {
        assert(forbidden.take(i + 1).drop_last() =~= forbidden.take(i as int));
        let file = &rule.non_existent_files[i];
        assert(forbidden.take(i + 1).last() == file@);
        if contains_path(present, file) {
            proof {
                lemma_strings_view_push(found@, *file);
            }
            found.push(file.clone());
        }
        i += 1;
    }
    assert(forbidden.take(rule.non_existent_files.len() as int) =~= forbidden);
    found
}

/// Finds every violation of `rule` in what was observed for it.
pub fn evaluate_rule(rule: &ComplianceRule, obs: &RuleObservation) -> (r: RuleReport)
    ensures
        r@ == expected_report(rule@, obs@),
{
    let seen = seen_paths(&obs.entries);
    RuleReport {
        permission_failures: permission_failures(rule, &obs.entries),
        missing_files: missing_required_files(rule, &seen),
        forbidden_present: present_forbidden_files(rule, &obs.present_files),
    }
}

/// Evaluates one rule and folds its violations into the running status.
pub fn apply_rule(rule: &ComplianceRule, obs: &RuleObservation, status: i32) -> (r: i32)
    ensures
        r == rule_status(rule@, obs@, status),
{
    let report = evaluate_rule(rule, obs);
    report.status_after(status)
}

/// The views of a sequence of rules.
pub open spec fn rules_view(rules: Seq<ComplianceRule>) -> Seq<RuleView> {
    rules.map_values(|r: ComplianceRule| r@)
}

/// The views of a sequence of observations.
pub open spec fn observations_view(obs: Seq<RuleObservation>) -> Seq<ObservationView> {
    obs.map_values(|o: RuleObservation| o@)
}

/// Evaluates the rules, rule `i` against `observations[i]`, starting from
/// `status`. The result is the highest code of any violation found, or
/// `status` when that is higher or nothing was violated, whatever the order
/// of the rules.
pub fn apply_rules(rules: Vec<ComplianceRule>, observations: Vec<RuleObservation>, status: i32) -> (r: i32)
    requires
        rules.len() == observations.len(),
    ensures
        r == rules_status(rules_view(rules@), observations_view(observations@), status),
        ({
            let worst = worst_code(rules_view(rules@), observations_view(observations@));
            r == if worst != COMPLIANT && worst > status {
                worst
            } else {
                status
            }
        }),
{
    let ghost rv = rules_view(rules@);
    let ghost ov = observations_view(observations@);
    let mut current: i32 = status;
    let mut i: usize = 0;
    while i < rules.len()
        invariant
            i <= rules.len(),
            rules.len() == observations.len(),
            rv == rules_view(rules@),
            ov == observations_view(observations@),
            current == rules_status(rv.take(i as int), ov, status),
        decreases rules.len() - i,
    {
        assert(rv.take(i + 1).drop_last() =~= rv.take(i as int));
        current = apply_rule(&rules[i], &observations[i], current);
        i += 1;
    }
    assert(rv.take(rules.len() as int) =~= rv);
    proof {
        lemma_rules_status_is_worst_code(rv, ov, status);
    }
    current
}

} // verus!
