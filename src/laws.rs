//! General properties of rule evaluation, proved over the spec model.
use vstd::prelude::*;

use crate::evaluate::{
    COMPLIANT, FORBIDDEN_FILE_PRESENT, MISSING_REQUIRED_FILE, PERMISSION_ERROR, ReportView,
    expected_report, forbidden_found, missing_files, mode_mismatches, report_code, rule_status,
    rules_status, seen_files, status_from_report, worst_code,
};
use crate::observation::{EntryView, ObservationView};
use crate::rule::RuleView;

verus! {

/// Whether `e` is a non-directory entry whose mode is not `expected`.
pub open spec fn mode_differs(e: EntryView, expected: u32) -> bool {
    match e {
        EntryView::File { mode, .. } => mode != expected,
        _ => false,
    }
}

/// The non-directory entries of `entries`, in order.
pub open spec fn file_entries(entries: Seq<EntryView>) -> Seq<EntryView>
    decreases entries.len(),
{
    if entries.len() == 0 {
        Seq::empty()
    } else {
        let earlier = file_entries(entries.drop_last());
        if entries.last() is File {
            earlier.push(entries.last())
        } else {
            earlier
        }
    }
}

proof fn lemma_mismatches_within_seen(entries: Seq<EntryView>, expected: u32)
    ensures
        mode_mismatches(entries, expected).len() <= seen_files(entries).len(),
    decreases entries.len(),
{
    if entries.len() > 0 {
        lemma_mismatches_within_seen(entries.drop_last(), expected);
    }
}

proof fn lemma_mismatch_reported(entries: Seq<EntryView>, expected: u32)
    ensures
        mode_mismatches(entries, expected).len() > 0 <==> exists|i: int|
            0 <= i < entries.len() && mode_differs(#[trigger] entries[i], expected),
    decreases entries.len(),
{
    if entries.len() > 0 {
        let earlier = entries.drop_last();
        lemma_mismatch_reported(earlier, expected);
        if exists|i: int| 0 <= i < earlier.len() && mode_differs(#[trigger] earlier[i], expected) {
            let i = choose|i: int| 0 <= i < earlier.len() && mode_differs(#[trigger] earlier[i], expected);
            assert(entries[i] == earlier[i]);
        }
        if exists|i: int| 0 <= i < entries.len() && mode_differs(#[trigger] entries[i], expected) {
            let i = choose|i: int| 0 <= i < entries.len() && mode_differs(#[trigger] entries[i], expected);
            if i < entries.len() - 1 {
                assert(earlier[i] == entries[i]);
            }
        }
    }
}

proof fn lemma_missing_reported(required: Seq<Seq<char>>, seen: Seq<Seq<char>>, j: int)
    requires
        0 <= j < required.len(),
        !seen.contains(required[j]),
    ensures
        missing_files(required, seen).contains(required[j]),
    decreases required.len(),
{
    let earlier = missing_files(required.drop_last(), seen);
    if j < required.len() - 1 {
        assert(required.drop_last()[j] == required[j]);
        lemma_missing_reported(required.drop_last(), seen, j);
        if !seen.contains(required.last()) {
            let k = choose|k: int| 0 <= k < earlier.len() && earlier[k] == required[j];
            assert(earlier.push(required.last())[k] == required[j]);
        }
    } else {
        assert(earlier.push(required.last())[earlier.len() as int] == required[j]);
    }
}

proof fn lemma_forbidden_reported(forbidden: Seq<Seq<char>>, present: Seq<Seq<char>>, j: int)
    requires
        0 <= j < forbidden.len(),
        present.contains(forbidden[j]),
    ensures
        forbidden_found(forbidden, present).contains(forbidden[j]),
    decreases forbidden.len(),
{
    let earlier = forbidden_found(forbidden.drop_last(), present);
    if j < forbidden.len() - 1 {
        assert(forbidden.drop_last()[j] == forbidden[j]);
        lemma_forbidden_reported(forbidden.drop_last(), present, j);
        if present.contains(forbidden.last()) {
            let k = choose|k: int| 0 <= k < earlier.len() && earlier[k] == forbidden[j];
            assert(earlier.push(forbidden.last())[k] == forbidden[j]);
        }
    } else {
        assert(earlier.push(forbidden.last())[earlier.len() as int] == forbidden[j]);
    }
}

/// A rule whose pattern matched no non-directory entry and which requires no
/// file leaves the running status unchanged, provided none of its forbidden
/// files exists.
pub proof fn lemma_unmatched_rule_keeps_status(rule: RuleView, obs: ObservationView, status: i32)
    requires
        seen_files(obs.entries).len() == 0,
        rule.required_files.len() == 0,
        forbidden_found(rule.non_existent_files, obs.present_files).len() == 0,
    ensures
        rule_status(rule, obs, status) == status,
{
    lemma_mismatches_within_seen(obs.entries, rule.file_permissions);
}

/// When every matched non-directory entry has exactly the expected mode, the
/// permission check reports nothing: the status after the rule is what it
/// would be with no permission check at all.
pub proof fn lemma_matching_modes_never_raise(rule: RuleView, obs: ObservationView, status: i32)
    requires
        forall|i: int|
            0 <= i < obs.entries.len() ==> !mode_differs(#[trigger] obs.entries[i], rule.file_permissions),
    ensures
        expected_report(rule, obs).permission_failures.len() == 0,
        rule_status(rule, obs, status) == status_from_report(
            ReportView {
                permission_failures: Seq::empty(),
                missing_files: expected_report(rule, obs).missing_files,
                forbidden_present: expected_report(rule, obs).forbidden_present,
            },
            status,
        ),
{
    lemma_mismatch_reported(obs.entries, rule.file_permissions);
}

/// A matched non-directory entry whose mode differs from the expected one in
/// any bit is reported, and the status after the rule is at least the
/// permission error.
pub proof fn lemma_mode_mismatch_raises(rule: RuleView, obs: ObservationView, status: i32, i: int)
    requires
        0 <= i < obs.entries.len(),
        mode_differs(obs.entries[i], rule.file_permissions),
    ensures
        expected_report(rule, obs).permission_failures.len() > 0,
        rule_status(rule, obs, status) >= PERMISSION_ERROR,
{
    lemma_mismatch_reported(obs.entries, rule.file_permissions);
}

/// A required file that is not among the rule's matched non-directory paths is
/// reported missing, and the status after the rule is at least the
/// missing-file error.
pub proof fn lemma_missing_required_raises(rule: RuleView, obs: ObservationView, status: i32, j: int)
    requires
        0 <= j < rule.required_files.len(),
        !seen_files(obs.entries).contains(rule.required_files[j]),
    ensures
        expected_report(rule, obs).missing_files.contains(rule.required_files[j]),
        rule_status(rule, obs, status) >= MISSING_REQUIRED_FILE,
{
    lemma_missing_reported(rule.required_files, seen_files(obs.entries), j);
}

/// A forbidden file that exists is reported, the rule's code is the
/// forbidden-file error, and the status after the rule is at least that.
pub proof fn lemma_forbidden_present_raises(rule: RuleView, obs: ObservationView, status: i32, j: int)
    requires
        0 <= j < rule.non_existent_files.len(),
        obs.present_files.contains(rule.non_existent_files[j]),
    ensures
        expected_report(rule, obs).forbidden_present.contains(rule.non_existent_files[j]),
        report_code(expected_report(rule, obs)) == FORBIDDEN_FILE_PRESENT,
        rule_status(rule, obs, status) >= FORBIDDEN_FILE_PRESENT,
{
    lemma_forbidden_reported(rule.non_existent_files, obs.present_files, j);
}

proof fn lemma_file_entries_same_report(entries: Seq<EntryView>, expected: u32)
    ensures
        seen_files(file_entries(entries)) == seen_files(entries),
        mode_mismatches(file_entries(entries), expected) == mode_mismatches(entries, expected),
    decreases entries.len(),
{
    if entries.len() > 0 {
        lemma_file_entries_same_report(entries.drop_last(), expected);
        let earlier = file_entries(entries.drop_last());
        if entries.last() is File {
            assert(earlier.push(entries.last()).drop_last() =~= earlier);
        }
    }
}

/// Directories and unresolved candidates among the matches are filtered out,
/// not evaluated: a rule reports the same violations against the expansion as
/// against its non-directory entries alone.
pub proof fn lemma_directories_not_evaluated(rule: RuleView, obs: ObservationView)
    ensures
        expected_report(rule, obs) == expected_report(
            rule,
            ObservationView { entries: file_entries(obs.entries), present_files: obs.present_files },
        ),
{
    lemma_file_entries_same_report(obs.entries, rule.file_permissions);
}

/// Evaluating rules never lowers the status it starts from.
pub proof fn lemma_status_never_lowered(rules: Seq<RuleView>, obs: Seq<ObservationView>, status: i32)
    ensures
        rules_status(rules, obs, status) >= status,
    decreases rules.len(),
{
    if rules.len() > 0 {
        lemma_status_never_lowered(rules.drop_last(), obs, status);
    }
}

/// Folding the rules one by one gives the highest violation code over all of
/// them, or the starting status when that is higher or nothing was violated.
pub proof fn lemma_rules_status_is_worst_code(
    rules: Seq<RuleView>,
    obs: Seq<ObservationView>,
    status: i32,
)
    ensures
        rules_status(rules, obs, status) == if worst_code(rules, obs) != COMPLIANT && worst_code(
            rules,
            obs,
        ) > status {
            worst_code(rules, obs)
        } else {
            status
        },
        worst_code(rules, obs) >= COMPLIANT,
    decreases rules.len(),
{
    if rules.len() > 0 {
        lemma_rules_status_is_worst_code(rules.drop_last(), obs, status);
    }
}

/// The worst code is the maximum of the rules' own codes, so it does not
/// depend on the order of the rules: it is at least the code of every rule,
/// and it is the code of some rule unless no rule is violated.
pub proof fn lemma_worst_code_is_max(rules: Seq<RuleView>, obs: Seq<ObservationView>)
    ensures
        forall|k: int|
            0 <= k < rules.len() ==> worst_code(rules, obs) >= report_code(
                #[trigger] expected_report(rules[k], obs[k]),
            ),
        worst_code(rules, obs) == COMPLIANT || exists|k: int|
            0 <= k < rules.len() && worst_code(rules, obs) == report_code(
                #[trigger] expected_report(rules[k], obs[k]),
            ),
    decreases rules.len(),
{
    if rules.len() > 0 {
        let earlier = rules.drop_last();
        lemma_worst_code_is_max(earlier, obs);
        assert forall|k: int| 0 <= k < rules.len() implies worst_code(rules, obs) >= report_code(
            #[trigger] expected_report(rules[k], obs[k]),
        ) by {
            if k < rules.len() - 1 {
                assert(earlier[k] == rules[k]);
                assert(worst_code(earlier, obs) >= report_code(expected_report(earlier[k], obs[k])));
            }
        }
        let last = rules.len() - 1;
        if worst_code(rules, obs) != COMPLIANT && worst_code(rules, obs) != report_code(
            expected_report(rules[last], obs[last]),
        ) {
            let k = choose|k: int|
                0 <= k < earlier.len() && worst_code(earlier, obs) == report_code(
                    #[trigger] expected_report(earlier[k], obs[k]),
                );
            assert(earlier[k] == rules[k]);
            assert(worst_code(rules, obs) == report_code(expected_report(rules[k], obs[k])));
        }
    }
}

/// A required file missing from any rule's matches leaves the final status
/// at least the missing-file error, whatever the other rules and their order.
pub proof fn lemma_missing_anywhere_raises_run(
    rules: Seq<RuleView>,
    obs: Seq<ObservationView>,
    status: i32,
    k: int,
    j: int,
)
    requires
        0 <= k < rules.len(),
        0 <= j < rules[k].required_files.len(),
        !seen_files(obs[k].entries).contains(rules[k].required_files[j]),
    ensures
        rules_status(rules, obs, status) >= MISSING_REQUIRED_FILE,
{
    lemma_missing_required_raises(rules[k], obs[k], status, j);
    lemma_worst_code_is_max(rules, obs);
    assert(report_code(expected_report(rules[k], obs[k])) >= MISSING_REQUIRED_FILE);
    lemma_rules_status_is_worst_code(rules, obs, status);
}

/// A second run over the same observations, started from the first run's
/// result, leaves that result unchanged.
pub proof fn lemma_evaluation_idempotent(rules: Seq<RuleView>, obs: Seq<ObservationView>, status: i32)
    ensures
        rules_status(rules, obs, rules_status(rules, obs, status)) == rules_status(rules, obs, status),
{
    lemma_rules_status_is_worst_code(rules, obs, status);
    lemma_rules_status_is_worst_code(rules, obs, rules_status(rules, obs, status));
}

} // verus!
