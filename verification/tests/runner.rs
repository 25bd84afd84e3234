//! The runner: manifests, classification, the matrix.

use rtc_conformance::manifest::{Manifest, Registry};
use rtc_conformance::matrix::{check_registered, report_files, Matrix, Status};
use rtc_conformance::outcome::{AdapterReport, RawResult, RawStatus};

fn registry() -> Registry {
    Registry::parse(
        r#"
        [[test]]
        id = "ordering"
        tags = ["data-channel"]
        description = "ordered payloads arrive in order"

        [[test]]
        id = "error-invalid-signaling"
        tags = ["errors"]
        description = "invalid SDP yields invalid-signaling"

        [[test]]
        id = "peer-offer-answer"
        tags = ["peer-connection"]
        description = "offer/answer happy path"
        "#,
    )
    .unwrap()
}

fn manifest() -> Manifest {
    Manifest::parse_all(
        r#"
        [target.wasmtime]

        [[target.wasmtime.unsupported]]
        tag = "peer-connection"
        reason = "host does not implement peer-connection yet"

        [[target.wasmtime.expected-fail]]
        test = "error-invalid-signaling"
        reason = "collapses to error.other"
        tracking = "TODO.md item 5"
        "#,
    )
    .unwrap()
    .remove(0)
}

fn report(results: Vec<(&str, RawStatus)>) -> AdapterReport {
    AdapterReport {
        target: "wasmtime".into(),
        environment: "loopback".into(),
        results: results
            .into_iter()
            .map(|(id, status)| RawResult {
                test_id: id.into(),
                status,
                detail: None,
            })
            .collect(),
    }
}

fn status_of(matrix: &Matrix, test: &str) -> Status {
    matrix.cell("wasmtime", "loopback", test).unwrap().status
}

#[test]
fn empty_run_has_no_failures() {
    let matrix = Matrix::classify(&registry(), &[], &[]);
    assert!(!matrix.has_failures());
    assert!(matrix.rows.is_empty());
}

#[test]
fn unsupported_tag_skips_regardless_of_result() {
    let m = manifest();
    let reports = [report(vec![("peer-offer-answer", RawStatus::Fail)])];
    let matrix = Matrix::classify(&registry(), &[m], &reports);
    assert_eq!(
        status_of(&matrix, "peer-offer-answer"),
        Status::SkipUnsupported
    );
    assert!(!matrix.has_failures());
}

#[test]
fn expected_fail_that_fails_is_not_a_failure() {
    let m = manifest();
    let reports = [report(vec![("error-invalid-signaling", RawStatus::Fail)])];
    let matrix = Matrix::classify(&registry(), &[m], &reports);
    assert_eq!(
        status_of(&matrix, "error-invalid-signaling"),
        Status::ExpectedFail
    );
    assert!(!matrix.has_failures());
}

#[test]
fn expected_fail_that_passes_is_unexpected_pass_and_fails() {
    let m = manifest();
    let reports = [report(vec![("error-invalid-signaling", RawStatus::Pass)])];
    let matrix = Matrix::classify(&registry(), &[m], &reports);
    assert_eq!(
        status_of(&matrix, "error-invalid-signaling"),
        Status::UnexpectedPass
    );
    assert!(matrix.has_failures());
}

#[test]
fn plain_fail_fails_the_run() {
    let m = manifest();
    let reports = [report(vec![("ordering", RawStatus::Fail)])];
    let matrix = Matrix::classify(&registry(), &[m], &reports);
    assert_eq!(status_of(&matrix, "ordering"), Status::Fail);
    assert!(matrix.has_failures());
}

#[test]
fn pass_passes_and_missing_is_missing() {
    let m = manifest();
    let reports = [report(vec![("ordering", RawStatus::Pass)])];
    let matrix = Matrix::classify(&registry(), &[m], &reports);
    assert_eq!(status_of(&matrix, "ordering"), Status::Pass);
    // error-invalid-signaling had no result reported -> missing (but it is an
    // expected-fail, so still not a run failure since missing is neutral).
    assert_eq!(
        status_of(&matrix, "error-invalid-signaling"),
        Status::Missing
    );
    assert!(!matrix.has_failures());
}

fn report_env(environment: &str, results: Vec<(&str, RawStatus)>) -> AdapterReport {
    AdapterReport {
        target: "wasmtime".into(),
        environment: environment.into(),
        results: results
            .into_iter()
            .map(|(id, status)| RawResult {
                test_id: id.into(),
                status,
                detail: None,
            })
            .collect(),
    }
}

fn status_in(matrix: &Matrix, environment: &str, test: &str) -> Status {
    matrix.cell("wasmtime", environment, test).unwrap().status
}

#[test]
fn environments_are_independent_rows() {
    // The same target running in two environments yields two rows, each
    // classified against its own raw results rather than a merge of them.
    let reports = [
        report_env("loopback", vec![("ordering", RawStatus::Pass)]),
        report_env("lan", vec![("ordering", RawStatus::Fail)]),
    ];
    let matrix = Matrix::classify(&registry(), &[manifest()], &reports);
    assert_eq!(matrix.rows.len(), 2);
    assert_eq!(status_in(&matrix, "loopback", "ordering"), Status::Pass);
    assert_eq!(status_in(&matrix, "lan", "ordering"), Status::Fail);
    assert!(matrix.has_failures());
}

#[test]
fn manifest_only_target_is_a_planning_row() {
    // With no adapter report, a target still yields one planning-only row
    // (empty environment) so its manifest policy is visible in the matrix.
    let matrix = Matrix::classify(&registry(), &[manifest()], &[]);
    assert_eq!(matrix.rows.len(), 1);
    assert!(matrix.rows[0].environment.is_empty());
    assert_eq!(status_in(&matrix, "", "ordering"), Status::Missing);
    assert_eq!(
        status_in(&matrix, "", "peer-offer-answer"),
        Status::SkipUnsupported
    );
    assert!(!matrix.has_failures());
}

fn scoped_manifest() -> Manifest {
    Manifest::parse_all(
        r#"
        [target.wasmtime]

        [[target.wasmtime.unsupported]]
        tag = "peer-connection"
        reason = "no peer-connection under shadow"
        environments = ["shadow"]

        [[target.wasmtime.expected-fail]]
        test = "error-invalid-signaling"
        reason = "relay path collapses the error"
        tracking = "TODO.md item 9"
        environments = ["turn-relay"]
        "#,
    )
    .unwrap()
    .remove(0)
}

#[test]
fn unscoped_entries_apply_in_every_environment() {
    let m = manifest();
    let reports = [
        report_env(
            "loopback",
            vec![("error-invalid-signaling", RawStatus::Fail)],
        ),
        report_env("shadow", vec![("error-invalid-signaling", RawStatus::Fail)]),
    ];
    let matrix = Matrix::classify(&registry(), &[m], &reports);
    assert_eq!(
        status_in(&matrix, "loopback", "error-invalid-signaling"),
        Status::ExpectedFail
    );
    assert_eq!(
        status_in(&matrix, "shadow", "error-invalid-signaling"),
        Status::ExpectedFail
    );
    assert!(!matrix.has_failures());
}

#[test]
fn scoped_expected_fail_applies_only_in_its_environment() {
    let m = scoped_manifest();
    // Fail: xfail in turn-relay, a real FAIL elsewhere.
    let reports = [
        report_env(
            "turn-relay",
            vec![("error-invalid-signaling", RawStatus::Fail)],
        ),
        report_env(
            "loopback",
            vec![("error-invalid-signaling", RawStatus::Fail)],
        ),
    ];
    let matrix = Matrix::classify(&registry(), std::slice::from_ref(&m), &reports);
    assert_eq!(
        status_in(&matrix, "turn-relay", "error-invalid-signaling"),
        Status::ExpectedFail
    );
    assert_eq!(
        status_in(&matrix, "loopback", "error-invalid-signaling"),
        Status::Fail
    );
    assert!(matrix.has_failures());

    // Pass: UNEXPECTED-PASS in turn-relay, plain pass elsewhere.
    let reports = [
        report_env(
            "turn-relay",
            vec![("error-invalid-signaling", RawStatus::Pass)],
        ),
        report_env(
            "loopback",
            vec![("error-invalid-signaling", RawStatus::Pass)],
        ),
    ];
    let matrix = Matrix::classify(&registry(), &[m], &reports);
    assert_eq!(
        status_in(&matrix, "turn-relay", "error-invalid-signaling"),
        Status::UnexpectedPass
    );
    assert_eq!(
        status_in(&matrix, "loopback", "error-invalid-signaling"),
        Status::Pass
    );
    assert!(matrix.has_failures());
}

#[test]
fn scoped_unsupported_skips_only_in_its_environment() {
    let m = scoped_manifest();
    let reports = [
        report_env("shadow", vec![("peer-offer-answer", RawStatus::Fail)]),
        report_env("loopback", vec![("peer-offer-answer", RawStatus::Fail)]),
    ];
    let matrix = Matrix::classify(&registry(), &[m], &reports);
    assert_eq!(
        status_in(&matrix, "shadow", "peer-offer-answer"),
        Status::SkipUnsupported
    );
    assert_eq!(
        status_in(&matrix, "loopback", "peer-offer-answer"),
        Status::Fail
    );
}

#[test]
fn empty_environments_list_is_rejected() {
    assert!(Manifest::parse_all(
        r#"
        [target.wasmtime]

        [[target.wasmtime.expected-fail]]
        test = "ordering"
        reason = "r"
        tracking = "t"
        environments = []
        "#,
    )
    .is_err());

    assert!(Manifest::parse_all(
        r#"
        [target.wasmtime]

        [[target.wasmtime.unsupported]]
        tag = "errors"
        reason = "r"
        environments = []
        "#,
    )
    .is_err());
}

#[test]
fn registry_reads_every_test() {
    let registry = registry();
    assert_eq!(registry.tests.len(), 3);
    assert_eq!(registry.tests[0].id, "ordering");
    assert_eq!(registry.tests[0].tags, ["data-channel"]);
    assert_eq!(registry.tests[2].description, "offer/answer happy path");
    assert_eq!(registry.get("peer-offer-answer").unwrap().tags, ["peer-connection"]);
    assert!(registry.get("no-such-test").is_none());
}

#[test]
fn manifests_are_read_by_target() {
    let manifests = Manifest::parse_all(
        r#"
        [target.wasmtime]
        [target.jco]
        [[target.jco.unsupported]]
        tag = "errors"
        reason = "r"
        environments = ["lan", "shadow"]
        "#,
    )
    .unwrap();
    assert_eq!(manifests.len(), 2);
    assert_eq!(manifests[0].target, "jco");
    assert_eq!(manifests[0].unsupported[0].tag, "errors");
    assert_eq!(
        manifests[0].unsupported[0].environments.as_deref().unwrap(),
        ["lan".to_string(), "shadow".to_string()]
    );
    assert_eq!(manifests[1].target, "wasmtime");
    assert!(manifests[1].unsupported.is_empty() && manifests[1].expected_fail.is_empty());
    let scoped = scoped_manifest();
    assert_eq!(scoped.expected_fail[0].tracking, "TODO.md item 9");
}

#[test]
fn malformed_documents_are_rejected() {
    assert!(Registry::parse("[[test]]\nid = 3").is_err());
    assert!(Registry::parse("[[test").is_err());
    assert!(Registry::parse("").is_err());
    assert!(Manifest::parse_all("target = 1").is_err());
    assert!(Manifest::parse_all("[target.a]\nunsupported = 1").is_err());
    assert!(Manifest::parse_all("[[target.a.unsupported]]\ntag = \"x\"").is_err());
    assert!(Manifest::parse_all(
        "[[target.a.expected-fail]]\ntest = \"x\"\nreason = \"y\""
    )
    .is_err());
}

#[test]
fn statuses_have_marks() {
    let marks: Vec<&str> = [
        Status::Pass,
        Status::Fail,
        Status::Skip,
        Status::SkipUnsupported,
        Status::ExpectedFail,
        Status::UnexpectedPass,
        Status::Missing,
    ]
    .iter()
    .map(|s| s.symbol())
    .collect();
    assert_eq!(marks, ["pass", "FAIL", "skip", "skip", "xfail", "UNEXPECTED-PASS", "—"]);
}

#[test]
fn undeclared_targets_have_rows() {
    let mut other = report(vec![("ordering", RawStatus::Fail)]);
    other.target = "stranger".to_string();
    let reports = [other.clone(), other, report(vec![("ordering", RawStatus::Pass)])];
    let matrix = Matrix::classify(&registry(), &[manifest()], &reports);
    let rows: Vec<&str> = matrix.rows.iter().map(|r| r.target.as_str()).collect();
    assert_eq!(rows, ["wasmtime", "stranger"]);
    assert_eq!(matrix.cell("stranger", "loopback", "ordering").unwrap().status, Status::Fail);
    assert_eq!(
        matrix.cell("stranger", "loopback", "peer-offer-answer").unwrap().status,
        Status::Missing
    );
    assert!(matrix.cell("stranger", "lan", "ordering").is_none());
    assert!(matrix.cell("stranger", "loopback", "no-such-test").is_none());
}

#[test]
fn failures_are_reported_line_by_line() {
    let mut failing = report(vec![
        ("ordering", RawStatus::Fail),
        ("error-invalid-signaling", RawStatus::Pass),
    ]);
    failing.results[0].detail = Some("index 3 missing".to_string());
    let matrix = Matrix::classify(&registry(), &[manifest()], &[failing]);
    let lines: Vec<String> = matrix.failures().iter().map(|f| f.line()).collect();
    assert_eq!(
        lines,
        [
            "  wasmtime [loopback] / ordering: FAIL — index 3 missing",
            "  wasmtime [loopback] / error-invalid-signaling: UNEXPECTED-PASS — collapses to \
             error.other",
        ]
    );
    assert_eq!(
        matrix.conclusion().unwrap_err(),
        "conformance run has failing or unexpected-pass results"
    );
}

#[test]
fn passing_run_says_so() {
    let matrix =
        Matrix::classify(&registry(), &[manifest()], &[report(vec![("ordering", RawStatus::Pass)])]);
    assert!(matrix.failures().is_empty());
    assert_eq!(
        matrix.conclusion().unwrap(),
        "conformance run OK: 1 row(s), 3 test(s), no failures"
    );
}

#[test]
fn missing_results_are_warned_of() {
    let matrix =
        Matrix::classify(&registry(), &[manifest()], &[report(vec![("ordering", RawStatus::Skip)])]);
    assert_eq!(matrix.missing(0), ["error-invalid-signaling"]);
    assert_eq!(
        matrix.warning(0).unwrap(),
        "warning: wasmtime [loopback] reported no result for 1 registered test(s): \
         error-invalid-signaling"
    );
    let planned = Matrix::classify(&registry(), &[manifest()], &[]);
    assert!(planned.warning(0).is_none());
    assert_eq!(status_of(&matrix, "ordering"), Status::Skip);
}

#[test]
fn matrix_is_rendered_as_a_table() {
    let reports = [report(vec![("ordering", RawStatus::Pass)])];
    let matrix = Matrix::classify(&registry(), &[manifest()], &reports);
    assert_eq!(
        matrix.render_markdown(),
        "| Test | wasmtime [loopback] |\n\
         | --- | --- |\n\
         | ordering | pass |\n\
         | error-invalid-signaling | — |\n\
         | peer-offer-answer | skip |\n"
    );
}

#[test]
fn unregistered_results_are_rejected() {
    let known = report(vec![("ordering", RawStatus::Pass)]);
    assert!(check_registered(&registry(), &known).is_ok());
    let unknown =
        report(vec![("x", RawStatus::Pass), ("ordering", RawStatus::Pass), ("y", RawStatus::Fail)]);
    assert_eq!(
        check_registered(&registry(), &unknown).unwrap_err(),
        "report for `wasmtime` [loopback] contains unregistered test id(s): x, y — add them to \
         tests.toml"
    );
}

#[test]
fn report_files_are_json_in_order() {
    let names: Vec<String> =
        ["b.json", "a.txt", ".json", "a.json", "c.jsonl", "x.tar.json", "json"]
            .iter()
            .map(|s| s.to_string())
            .collect();
    assert_eq!(report_files(&names), ["a.json", "b.json", "x.tar.json"]);
}
