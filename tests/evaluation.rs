use fs_compliance::evaluate::{
    apply_rule, apply_rules, evaluate_rule, missing_required_files, permission_failures,
    present_forbidden_files, seen_paths, COMPLIANT, FORBIDDEN_FILE_PRESENT, GENERIC_ERROR,
    MISSING_REQUIRED_FILE, PERMISSION_ERROR,
};
use fs_compliance::observation::{MatchEntry, RuleObservation};
use fs_compliance::paths::contains_path;
use fs_compliance::rule::ComplianceRule;

fn strings(items: &[&str]) -> Vec<String> {
    items.iter().map(|s| s.to_string()).collect()
}

fn file(path: &str, mode: u32) -> MatchEntry {
    MatchEntry::File { path: path.to_string(), mode }
}

fn dir(path: &str) -> MatchEntry {
    MatchEntry::Directory { path: path.to_string() }
}

fn app_conf_rule() -> ComplianceRule {
    ComplianceRule::new(
        "/etc/app/*.conf".to_string(),
        0o100600,
        strings(&["/etc/app/main.conf"]),
        Vec::new(),
    )
}

fn observed(entries: Vec<MatchEntry>) -> RuleObservation {
    RuleObservation::new(entries, Vec::new())
}

#[test]
fn new_keeps_fields() {
    let rule = ComplianceRule::new(
        "/srv/**/*.key".to_string(),
        0o100400,
        strings(&["/srv/a.key", "/srv/b.key"]),
        strings(&["/srv/a.key.bak"]),
    );
    assert_eq!(rule.path_regex, "/srv/**/*.key");
    assert_eq!(rule.file_permissions, 0o100400);
    assert_eq!(rule.required_files, strings(&["/srv/a.key", "/srv/b.key"]));
    assert_eq!(rule.non_existent_files, strings(&["/srv/a.key.bak"]));
}

#[test]
fn status_codes() {
    assert_eq!(COMPLIANT, 0);
    assert_eq!(GENERIC_ERROR, 1);
    assert_eq!(PERMISSION_ERROR, 2);
    assert_eq!(MISSING_REQUIRED_FILE, 3);
    assert_eq!(FORBIDDEN_FILE_PRESENT, 4);
}

#[test]
fn required_file_with_expected_mode_is_compliant() {
    let obs = observed(vec![file("/etc/app/main.conf", 0o100600)]);
    assert_eq!(apply_rule(&app_conf_rule(), &obs, 0), 0);
    assert!(evaluate_rule(&app_conf_rule(), &obs).is_compliant());
}

#[test]
fn required_file_with_wrong_mode_is_permission_error() {
    let obs = observed(vec![file("/etc/app/main.conf", 0o100644)]);
    assert_eq!(apply_rule(&app_conf_rule(), &obs, 0), 2);
    let report = evaluate_rule(&app_conf_rule(), &obs);
    assert_eq!(report.permission_failures, strings(&["/etc/app/main.conf"]));
    assert!(report.missing_files.is_empty());
    assert!(!report.is_compliant());
}

#[test]
fn absent_required_file_is_missing() {
    let obs = observed(Vec::new());
    assert_eq!(apply_rule(&app_conf_rule(), &obs, 0), 3);
}

#[test]
fn zero_matches_reports_every_required_file() {
    let rule = ComplianceRule::new(
        "/opt/none/*".to_string(),
        0o100644,
        strings(&["/opt/none/a", "/opt/none/b", "/opt/none/c"]),
        Vec::new(),
    );
    let obs = observed(Vec::new());
    let report = evaluate_rule(&rule, &obs);
    assert_eq!(report.missing_files, strings(&["/opt/none/a", "/opt/none/b", "/opt/none/c"]));
    assert!(report.permission_failures.is_empty());
    assert_eq!(apply_rule(&rule, &obs, 0), 3);
}

#[test]
fn missing_file_after_permission_error_gives_missing_file() {
    let first = ComplianceRule::new("/a/*".to_string(), 0o100600, Vec::new(), Vec::new());
    let second = ComplianceRule::new(
        "/b/*".to_string(),
        0o100600,
        strings(&["/b/needed"]),
        Vec::new(),
    );
    let first_obs = observed(vec![file("/a/x", 0o100644)]);
    let second_obs = observed(vec![file("/b/other", 0o100600)]);
    assert_eq!(apply_rule(&first, &first_obs, 0), 2);
    assert_eq!(apply_rule(&second, &second_obs, 0), 3);
    assert_eq!(apply_rules(vec![first, second], vec![first_obs, second_obs], 0), 3);
}

#[test]
fn permission_error_after_missing_file_keeps_missing_file() {
    let first = ComplianceRule::new(
        "/b/*".to_string(),
        0o100600,
        strings(&["/b/needed"]),
        Vec::new(),
    );
    let second = ComplianceRule::new("/a/*".to_string(), 0o100600, Vec::new(), Vec::new());
    let first_obs = observed(Vec::new());
    let second_obs = observed(vec![file("/a/x", 0o100644)]);
    assert_eq!(apply_rules(vec![first, second], vec![first_obs, second_obs], 0), 3);
}

#[test]
fn passing_rule_does_not_lower_status() {
    let failing = ComplianceRule::new("/a/*".to_string(), 0o100600, Vec::new(), Vec::new());
    let passing = app_conf_rule();
    let rules = vec![failing, passing];
    let obs = vec![
        observed(vec![file("/a/x", 0o100644)]),
        observed(vec![file("/etc/app/main.conf", 0o100600)]),
    ];
    assert_eq!(apply_rules(rules, obs, 0), 2);
}

#[test]
fn no_rules_keep_initial_status() {
    assert_eq!(apply_rules(Vec::new(), Vec::new(), 0), 0);
    assert_eq!(apply_rules(Vec::new(), Vec::new(), 3), 3);
}

#[test]
fn unmatched_rule_without_requirements_keeps_status() {
    let rule = ComplianceRule::new("/nothing/*".to_string(), 0o100600, Vec::new(), Vec::new());
    let obs = observed(Vec::new());
    assert_eq!(apply_rule(&rule, &obs, 0), 0);
    assert_eq!(apply_rule(&rule, &obs, 2), 2);
    assert_eq!(apply_rule(&rule, &obs, 3), 3);
}

#[test]
fn matching_modes_never_raise() {
    let rule = ComplianceRule::new("/etc/*".to_string(), 0o100600, Vec::new(), Vec::new());
    let obs = observed(vec![file("/etc/a", 0o100600), file("/etc/b", 0o100600)]);
    assert!(evaluate_rule(&rule, &obs).permission_failures.is_empty());
    assert_eq!(apply_rule(&rule, &obs, 0), 0);
}

#[test]
fn any_differing_bit_is_a_violation() {
    let rule = ComplianceRule::new("/etc/*".to_string(), 0o100600, Vec::new(), Vec::new());
    for mode in [0o100601u32, 0o104600, 0o000600, 0o120600, 0o100700, 0o101600] {
        let obs = observed(vec![file("/etc/a", mode)]);
        assert_eq!(apply_rule(&rule, &obs, 0), 2, "mode {:o}", mode);
    }
}

#[test]
fn mismatch_reports_each_path_in_order() {
    let rule = ComplianceRule::new("/etc/*".to_string(), 0o100600, Vec::new(), Vec::new());
    let entries = vec![
        file("/etc/a", 0o100644),
        file("/etc/b", 0o100600),
        file("/etc/c", 0o100400),
    ];
    assert_eq!(permission_failures(&rule, &entries), strings(&["/etc/a", "/etc/c"]));
}

#[test]
fn directories_are_not_evaluated() {
    let rule = ComplianceRule::new(
        "/etc/app/*".to_string(),
        0o100600,
        strings(&["/etc/app/conf.d"]),
        Vec::new(),
    );
    let obs = observed(vec![dir("/etc/app/conf.d"), file("/etc/app/main.conf", 0o100600)]);
    let report = evaluate_rule(&rule, &obs);
    assert!(report.permission_failures.is_empty());
    assert_eq!(report.missing_files, strings(&["/etc/app/conf.d"]));
    assert_eq!(apply_rule(&rule, &obs, 0), 3);
}

#[test]
fn directory_with_other_mode_does_not_raise() {
    let rule = ComplianceRule::new("/etc/app/*".to_string(), 0o100600, Vec::new(), Vec::new());
    let obs = observed(vec![dir("/etc/app/conf.d")]);
    assert_eq!(apply_rule(&rule, &obs, 0), 0);
}

#[test]
fn unreadable_entries_do_not_count() {
    let rule = app_conf_rule();
    let obs = observed(vec![
        MatchEntry::Unreadable { reason: "permission denied: /etc/app/secret".to_string() },
        file("/etc/app/main.conf", 0o100600),
    ]);
    assert_eq!(apply_rule(&rule, &obs, 0), 0);
    let only_error = observed(vec![MatchEntry::Unreadable { reason: "io".to_string() }]);
    assert_eq!(apply_rule(&rule, &only_error, 0), 3);
}

#[test]
fn required_files_compare_as_whole_strings() {
    let rule = ComplianceRule::new(
        "./etc/*".to_string(),
        0o100600,
        strings(&["etc/a", "./etc/a/", "./etc/a"]),
        Vec::new(),
    );
    let entries = vec![file("./etc/a", 0o100600)];
    let seen = seen_paths(&entries);
    assert_eq!(seen, strings(&["./etc/a"]));
    assert_eq!(missing_required_files(&rule, &seen), strings(&["etc/a", "./etc/a/"]));
}

#[test]
fn seen_paths_skip_directories_and_errors() {
    let entries = vec![
        dir("/d"),
        file("/d/x", 0o100644),
        MatchEntry::Unreadable { reason: "denied".to_string() },
        file("/d/y", 0o100600),
    ];
    assert_eq!(seen_paths(&entries), strings(&["/d/x", "/d/y"]));
}

#[test]
fn forbidden_file_present_is_reported() {
    let rule = ComplianceRule::new(
        "/etc/app/*.conf".to_string(),
        0o100600,
        strings(&["/etc/app/main.conf"]),
        strings(&["/etc/app/main.conf.bak", "/etc/app/.secret~"]),
    );
    let obs = RuleObservation::new(
        vec![file("/etc/app/main.conf", 0o100644)],
        strings(&["/etc/app/.secret~"]),
    );
    let report = evaluate_rule(&rule, &obs);
    assert_eq!(report.forbidden_present, strings(&["/etc/app/.secret~"]));
    assert_eq!(report.permission_failures, strings(&["/etc/app/main.conf"]));
    assert_eq!(apply_rule(&rule, &obs, 0), 4);
    assert_eq!(present_forbidden_files(&rule, &strings(&["/other"])), Vec::<String>::new());
}

#[test]
fn status_after_keeps_the_higher_code() {
    let rule = ComplianceRule::new(
        "/x/*".to_string(),
        0o100600,
        strings(&["/x/req"]),
        Vec::new(),
    );
    let obs = observed(vec![file("/x/other", 0o100644)]);
    let report = evaluate_rule(&rule, &obs);
    assert_eq!(report.code(), 3);
    assert_eq!(report.status_after(0), 3);
    assert_eq!(report.status_after(2), 3);
    assert_eq!(report.status_after(3), 3);
    assert_eq!(report.status_after(4), 4);
    let clean = evaluate_rule(&rule, &observed(vec![file("/x/req", 0o100600)]));
    assert_eq!(clean.code(), 0);
    assert_eq!(clean.status_after(2), 2);
}

#[test]
fn evaluation_is_repeatable() {
    let make = || {
        (
            vec![app_conf_rule(), ComplianceRule::new("/a/*".to_string(), 0o100600, Vec::new(), Vec::new())],
            vec![
                observed(vec![file("/etc/app/main.conf", 0o100644)]),
                observed(vec![file("/a/x", 0o100600)]),
            ],
        )
    };
    let (r1, o1) = make();
    let (r2, o2) = make();
    let first = apply_rules(r1, o1, 0);
    let second = apply_rules(r2, o2, 0);
    assert_eq!(first, 2);
    assert_eq!(first, second);
    let (r3, o3) = make();
    assert_eq!(apply_rules(r3, o3, first), first);
}

#[test]
fn contains_path_is_exact() {
    let paths = strings(&["/a", "/b/"]);
    assert!(contains_path(&paths, &"/a".to_string()));
    assert!(!contains_path(&paths, &"/b".to_string()));
    assert!(!contains_path(&Vec::new(), &"/a".to_string()));
}

#[test]
fn forbidden_file_outranks_later_violations() {
    let forbidding = ComplianceRule::new(
        "/srv/*".to_string(),
        0o100600,
        Vec::new(),
        strings(&["/srv/id_rsa.bak"]),
    );
    let requiring = ComplianceRule::new(
        "/etc/*".to_string(),
        0o100600,
        strings(&["/etc/needed"]),
        Vec::new(),
    );
    let obs = vec![
        RuleObservation::new(Vec::new(), strings(&["/srv/id_rsa.bak"])),
        observed(vec![file("/etc/other", 0o100644)]),
    ];
    assert_eq!(apply_rules(vec![forbidding, requiring], obs, 0), 4);
}

#[test]
fn final_status_does_not_depend_on_rule_order() {
    let make = || {
        (
            ComplianceRule::new("/a/*".to_string(), 0o100600, Vec::new(), Vec::new()),
            observed(vec![file("/a/x", 0o100644)]),
            ComplianceRule::new("/b/*".to_string(), 0o100600, strings(&["/b/needed"]), Vec::new()),
            observed(Vec::new()),
            app_conf_rule(),
            observed(vec![file("/etc/app/main.conf", 0o100600)]),
        )
    };
    let (r1, o1, r2, o2, r3, o3) = make();
    let forward = apply_rules(vec![r1, r2, r3], vec![o1, o2, o3], 0);
    let (r1, o1, r2, o2, r3, o3) = make();
    let backward = apply_rules(vec![r3, r2, r1], vec![o3, o2, o1], 0);
    let (r1, o1, r2, o2, r3, o3) = make();
    let mixed = apply_rules(vec![r2, r3, r1], vec![o2, o3, o1], 0);
    assert_eq!(forward, 3);
    assert_eq!(backward, 3);
    assert_eq!(mixed, 3);
}
