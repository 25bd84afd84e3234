//! Outcomes: their JSON, the fold of two sides, the raw results.

use rtc_conformance::json::ResultFields;
use rtc_conformance::outcome::{
    conclude_test, fold_two, outcome_to_raw, parse_outcome, parse_result_line, peer_outcome,
    report_file_name, AttemptEnd, RawStatus, TestOutcome,
};

fn fields(tag: Option<&str>, val: Option<&str>) -> ResultFields {
    ResultFields { tag: tag.map(str::to_string), val: val.map(str::to_string) }
}

#[test]
fn outcome_json_round_trips() {
    for outcome in [
        TestOutcome::Pass,
        TestOutcome::Fail("boom".to_string()),
        TestOutcome::Skipped("later".to_string()),
    ] {
        let parsed = parse_outcome(&outcome.to_json()).unwrap();
        match (&outcome, &parsed) {
            (TestOutcome::Pass, TestOutcome::Pass) => {}
            (TestOutcome::Fail(a), TestOutcome::Fail(b)) if a == b => {}
            (TestOutcome::Skipped(a), TestOutcome::Skipped(b)) if a == b => {}
            other => panic!("round trip mismatch: {other:?}"),
        }
    }
    assert!(parse_outcome(&fields(Some("nope"), None)).is_err());
    assert!(parse_outcome(&fields(None, None)).is_err());
}

#[test]
fn fold_two_prefers_fail_then_skip() {
    let fail = || TestOutcome::Fail("f".to_string());
    let skip = || TestOutcome::Skipped("s".to_string());
    assert!(matches!(
        fold_two(fail(), TestOutcome::Pass),
        TestOutcome::Fail(d) if d == "offerer: f"
    ));
    assert!(matches!(
        fold_two(skip(), fail()),
        TestOutcome::Fail(d) if d == "answerer: f"
    ));
    assert!(matches!(
        fold_two(skip(), TestOutcome::Pass),
        TestOutcome::Skipped(_)
    ));
    assert!(matches!(
        fold_two(TestOutcome::Pass, TestOutcome::Pass),
        TestOutcome::Pass
    ));
}

#[test]
fn result_line_is_last_non_empty_line() {
    let text = "log noise\n{ \"tag\": \"pass\" }\n\n  \n";
    assert!(matches!(
        parse_result_line(text).unwrap(),
        TestOutcome::Pass
    ));
    assert!(matches!(
        parse_result_line("{\"tag\":\"fail\",\"val\":\"boom\"}").unwrap(),
        TestOutcome::Fail(d) if d == "boom"
    ));
    assert!(parse_result_line("").is_err());
    assert!(parse_result_line("\n  \n").is_err());
    assert!(parse_result_line("not json").is_err());
}

#[test]
fn both_failing_sides_are_named() {
    let a = TestOutcome::Fail("x".to_string());
    let b = TestOutcome::Fail("y".to_string());
    assert!(matches!(fold_two(a, b), TestOutcome::Fail(d) if d == "offerer: x; answerer: y"));
}

#[test]
fn unknown_tag_is_quoted() {
    assert_eq!(
        parse_outcome(&fields(Some("no\"pe"), None)).unwrap_err(),
        "unknown result tag \"no\\\"pe\""
    );
    assert_eq!(parse_outcome(&fields(None, Some("x"))).unwrap_err(), "result missing tag");
}

#[test]
fn missing_detail_is_empty() {
    let parsed = parse_outcome(&fields(Some("fail"), None)).unwrap();
    assert!(matches!(parsed, TestOutcome::Fail(d) if d.is_empty()));
}

#[test]
fn result_line_is_one_line_of_json() {
    let line = TestOutcome::Fail("a\n\"b\"\u{e9}".to_string()).to_json_line();
    assert_eq!(line, "{\"tag\":\"fail\",\"val\":\"a\\n\\\"b\\\"\u{e9}\"}");
    assert_eq!(TestOutcome::Pass.to_json_line(), "{\"tag\":\"pass\"}");
    let printed = format!("noise\r\n{line}\r\n \t\n");
    assert!(matches!(
        parse_result_line(&printed).unwrap(),
        TestOutcome::Fail(d) if d == "a\n\"b\"\u{e9}"
    ));
}

#[test]
fn members_that_are_no_strings_are_not_read() {
    assert_eq!(parse_result_line("{\"tag\": 3}").unwrap_err(), "result missing tag");
    assert_eq!(parse_result_line("[1]").unwrap_err(), "result missing tag");
    assert!(matches!(
        parse_result_line("{\"tag\":\"fail\",\"val\":7}").unwrap(),
        TestOutcome::Fail(d) if d.is_empty()
    ));
}

#[test]
fn result_line_errors_name_the_line() {
    assert_eq!(parse_result_line("\n").unwrap_err(), "no result line in output");
    let error = parse_result_line(" not json ").unwrap_err();
    assert!(error.starts_with("parsing result line \" not json \": "), "{error}");
}

#[test]
fn raw_results_record_outcomes() {
    let raw = outcome_to_raw("ordering", TestOutcome::Skipped("why".to_string()));
    assert_eq!(raw.test_id, "ordering");
    assert!(raw.status == RawStatus::Skip);
    assert_eq!(raw.detail.as_deref(), Some("why"));
    let raw = outcome_to_raw("ordering", TestOutcome::Pass);
    assert!(raw.status == RawStatus::Pass && raw.detail.is_none());
}

#[test]
fn attempts_end_in_raw_results() {
    let raw = conclude_test("t", AttemptEnd::TimedOut);
    assert_eq!(raw.detail.as_deref(), Some("attempt timed-out"));
    assert!(raw.status == RawStatus::Fail);
    let raw = conclude_test("t", AttemptEnd::Errored("spawning x: gone".to_string()));
    assert_eq!(raw.detail.as_deref(), Some("adapter error: spawning x: gone"));
    let raw = conclude_test("t", AttemptEnd::Finished(TestOutcome::Pass));
    assert!(raw.status == RawStatus::Pass);
}

#[test]
fn peer_processes_are_judged() {
    let ok = peer_outcome("peer", true, "exit status: 0", b"x\n{\"tag\":\"pass\"}\n".to_vec());
    assert!(matches!(ok.unwrap(), TestOutcome::Pass));
    let bad = peer_outcome("peer", false, "exit status: 3", Vec::new());
    assert_eq!(bad.unwrap_err(), "peer exited with exit status: 3");
    let bad = peer_outcome("peer", true, "exit status: 0", vec![0xff]);
    let error = bad.unwrap_err();
    assert!(error.starts_with("peer stdout not UTF-8: invalid utf-8"), "{error}");
    let bad = peer_outcome("peer", true, "exit status: 0", Vec::new());
    assert_eq!(bad.unwrap_err(), "reading peer result: no result line in output");
}

#[test]
fn reports_are_json_files() {
    assert_eq!(report_file_name("wasmtime-loopback"), "wasmtime-loopback.json");
}

#[test]
fn details_are_escaped() {
    let detail = "\"\\\u{8}\t\n\u{c}\r\u{1}\u{1f}\u{7f}/\u{e9}";
    let escaped = r#"\"\\\b\t\n\f\r\u0001\u001f"#;
    assert_eq!(
        TestOutcome::Fail(detail.to_string()).to_json_line(),
        format!("{{\"tag\":\"fail\",\"val\":\"{escaped}\u{7f}/\u{e9}\"}}")
    );
}
