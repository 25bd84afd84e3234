//! The corpus: plans, workloads, selection, drift.

use rtc_conformance::corpus::{
    case_name, default_jobs, default_jobs_process_heavy, full_suite_cases, overlapping_jobs,
    pair_suite_cases, params_for, plan_for, progress_line, select_tests, sorted_difference,
    verify_corpus, Plan, CONFORMANCE_MAX_INBOUND_BUFFER_BYTES, TESTS, TWO_PEER_TESTS,
};
use rtc_conformance::outcome::RawStatus;

#[test]
fn two_peer_tests_are_registered_two_peer_plans() {
    for test_id in TWO_PEER_TESTS {
        assert!(TESTS.contains(&test_id), "{test_id} missing from TESTS");
        assert!(
            matches!(plan_for(test_id), Plan::TwoPeer),
            "{test_id} is not a two-peer plan"
        );
    }
}

#[test]
fn every_other_test_runs_in_process() {
    for test_id in TESTS {
        assert_eq!(
            matches!(plan_for(test_id), Plan::TwoPeer),
            TWO_PEER_TESTS.contains(&test_id),
            "{test_id}"
        );
    }
    assert!(matches!(plan_for("no-such-test"), Plan::TwoPeer));
}

#[test]
fn workloads_are_fixed() {
    assert_eq!(params_for("large-message"), (1, 16384));
    assert_eq!(params_for("receive-buffer-overflow"), (64, 16384));
    assert_eq!(params_for("ordering"), (16, 512));
    assert_eq!(params_for("interop-handshake"), (16, 512));
    assert_eq!(params_for("label-round-trip"), (4, 256));
    let (count, size) = params_for("receive-buffer-overflow");
    assert_eq!(count * size, 2 * CONFORMANCE_MAX_INBOUND_BUFFER_BYTES);
}

#[test]
fn jobs_scale_with_the_cores() {
    assert_eq!(default_jobs(None), 3);
    assert_eq!(default_jobs(Some(1)), 3);
    assert_eq!(default_jobs(Some(2)), 6);
    assert_eq!(default_jobs(Some(64)), 12);
    assert_eq!(default_jobs_process_heavy(None), 2);
    assert_eq!(default_jobs_process_heavy(Some(2)), 4);
    assert_eq!(default_jobs_process_heavy(Some(64)), 8);
    assert_eq!(overlapping_jobs(0), 1);
    assert_eq!(overlapping_jobs(5), 5);
}

#[test]
fn selection_keeps_registry_order() {
    let only = ["ordering".to_string(), "binary-message".to_string()];
    assert_eq!(select_tests(&TESTS, &only).unwrap(), ["binary-message", "ordering"]);
    assert_eq!(select_tests(&TESTS, &[]).unwrap().len(), TESTS.len());
    assert_eq!(
        select_tests(&["a", "b"], &["c".to_string()]).unwrap_err(),
        "--only selected no tests (registered: a, b)"
    );
}

#[test]
fn progress_names_the_status() {
    assert_eq!(progress_line("ordering", RawStatus::Fail), "ordering … Fail");
}

#[test]
fn drift_is_reported_sorted() {
    let guest: Vec<String> = ["b", "z", "a", "a"].iter().map(|s| s.to_string()).collect();
    let drift = verify_corpus(&guest, &["b", "c"]).unwrap_err();
    assert_eq!(drift.in_guest_only, ["a", "z"]);
    assert_eq!(drift.in_adapter_only, ["c"]);
    assert_eq!(
        drift.message(),
        "adapter test list diverges from the guest's list-tests export: in guest but not \
         adapter: [a, z]; in adapter but not guest: [c]"
    );
    let same: Vec<String> = ["c", "b", "b"].iter().map(|s| s.to_string()).collect();
    assert!(verify_corpus(&same, &["b", "c"]).is_ok());
}

#[test]
fn differences_are_sorted_and_single() {
    let from: Vec<String> = ["b", "a", "b", "\u{e9}", "z"].iter().map(|s| s.to_string()).collect();
    let without = ["a".to_string()];
    assert_eq!(sorted_difference(&from, &without), ["b", "z", "\u{e9}"]);
}

#[test]
fn case_names_follow_the_topology() {
    assert_eq!(pair_suite_cases().len(), TWO_PEER_TESTS.len());
    assert_eq!(pair_suite_cases()[0], "pair/label-round-trip");
    assert_eq!(full_suite_cases().len(), TESTS.len());
    assert_eq!(full_suite_cases()[0], "solo/peer-offer-answer");
    assert_eq!(full_suite_cases()[36], "pair/channel-close-flush");
    assert_eq!(case_name("ordering"), "pair/ordering");
    assert_eq!(case_name("error-closed"), "solo/error-closed");
}
