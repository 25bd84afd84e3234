//! The labs: suite instances, namespaces, the simulator, the syscall shim.

use rtc_conformance::exchange::{pair_config, parse_role, room};
use rtc_conformance::interop::{
    attempt, directions, fold_sides, label_of, launch, select_directions, shared_args, tests_of,
    Launch, PeerPaths, Side, Subset,
};
use rtc_conformance::lab::{
    exits_clean, find_scenario, ice_args, may_provision, netns_argv, netns_target, pair_run_errors,
    plan_exec, signalingd_argv, unknown_scenario, ExecArgs, NetnsArgs, OutputMode, PeerIce,
    PeerRole, Topology,
};
use rtc_conformance::outcome::TestOutcome;
use rtc_conformance::shadow::{
    banner, count_failed, emit_host, exec_argv, host_stdout, names_capture, order_captures, plan_host,
    reference_document, reference_verdict, reports_per_case, shadow_argv, shadow_config,
    signaling_url, CaseStatus, OutputFile, ShadowArgs,
};
use rtc_conformance::shim::{
    abort_message, setsockopt, stubbed_ip_option, BatchResult, BatchShim, Emulated, OptionResult,
    Platform,
};

fn owned(parts: &[&str]) -> Vec<String> {
    parts.iter().map(|s| s.to_string()).collect()
}

fn exec_args() -> ExecArgs {
    ExecArgs {
        suite: "suite.wasm".to_string(),
        target: "t".to_string(),
        select: None,
        role: Some("offerer".to_string()),
        signaling_url: Some("http://s".to_string()),
        run_id: Some("r".to_string()),
        composed: false,
        ice: None,
        suite_artifact: None,
        jobs: 2,
        budget_secs: 3,
        case_timeout_secs: 4,
        jsonl: true,
    }
}

#[test]
fn suite_instances_are_planned() {
    let plan = plan_exec(exec_args(), Some("suite".to_string())).unwrap();
    assert!(plan.mode == OutputMode::Jsonl);
    assert_eq!((plan.batch, plan.jobs, plan.suite_name.as_str()), (1, 2, "suite"));
    let unnamed = plan_exec(ExecArgs { role: None, run_id: None, ..exec_args() }, None).unwrap();
    assert_eq!(unnamed.suite_name, "suite");
    assert_eq!(
        plan_exec(ExecArgs { run_id: None, ..exec_args() }, None).unwrap_err(),
        "--role needs --signaling and --run-id"
    );
    assert_eq!(count_failed(&[CaseStatus::Pass, CaseStatus::Fail, CaseStatus::Skipped]), 1);
    assert!(exits_clean(0) && !exits_clean(1));
}

fn topology() -> Topology {
    Topology {
        signaling_ns: "sig".to_string(),
        signaling_addr: "10.0.0.1".to_string(),
        signaling_port: 8080,
        offerer_ns: "off".to_string(),
        offerer_addr: "10.0.1.2".to_string(),
        answerer_ns: "ans".to_string(),
        answerer_addr: "10.0.2.2".to_string(),
    }
}

#[test]
fn namespace_peers_are_launched() {
    let ice = PeerIce {
        server_url: Some("turn:10.0.3.2:3478".to_string()),
        username: "u".to_string(),
        credential: "SECRET-REDACTED".to_string(),
        relay_only: true,
    };
    assert_eq!(
        netns_argv(&topology(), PeerRole::Answerer, "/bin/d", "/s.wasm", "run", &ice),
        owned(&[
            "netns",
            "exec",
            "ans",
            "/bin/d",
            "exec",
            "/s.wasm",
            "--jsonl",
            "--select",
            "pair/",
            "--role",
            "answerer",
            "--signaling",
            "http://10.0.0.1:8080",
            "--run-id",
            "run",
            "--ice-bind",
            "10.0.2.2",
            "--ice-turn",
            "turn:10.0.3.2:3478,u,SECRET-REDACTED",
            "--ice-relay-only",
        ])
    );
    let stun = PeerIce { server_url: Some("stun:h".to_string()), ..PeerIce::default() };
    assert_eq!(ice_args(&stun), owned(&["--ice-stun", "stun:h"]));
    assert!(ice_args(&PeerIce { relay_only: true, ..PeerIce::default() }).is_empty());
    assert_eq!(
        signalingd_argv(&topology(), "/bin/sig"),
        owned(&["netns", "exec", "sig", "/bin/sig", "--host", "10.0.0.1", "--port", "8080"])
    );
}

#[test]
fn namespace_runs_are_named_and_guarded() {
    let args = NetnsArgs {
        pair_suite: "p".to_string(),
        scenario: "lan".to_string(),
        target: None,
        signaling_bin: "s".to_string(),
        out: None,
    };
    assert_eq!(netns_target(&args, "lan"), "wasmtime-lan");
    let named = NetnsArgs { target: Some("mine".to_string()), ..args };
    assert_eq!(netns_target(&named, "lan"), "mine");
    assert_eq!(unknown_scenario("x\"y"), "unknown scenario \"x\\\"y\"");
    let known = owned(&["lan", "turn-relay"]);
    assert_eq!(find_scenario(&known, "turn-relay"), Ok(1));
    assert_eq!(find_scenario(&known, "wan"), Err("unknown scenario \"wan\"".to_string()));
    assert!(may_provision(true).is_ok());
    assert_eq!(
        may_provision(false).unwrap_err(),
        "the netns lab provisions namespaces and nftables: run under sudo"
    );
    assert_eq!(
        pair_run_errors(&owned(&["a"]), &owned(&["b", "c"])),
        owned(&["offerer: a", "answerer: b", "answerer: c"])
    );
}

fn shadow_args(offerer: &str, answerer: &str) -> ShadowArgs {
    ShadowArgs {
        pair_suite: "/pair.wasm".to_string(),
        composed_pair: None,
        offerer_kind: offerer.to_string(),
        answerer_kind: answerer.to_string(),
        target: "t-shadow".to_string(),
        shadow_bin: "shadow".to_string(),
        signaling_bin: "/sig".to_string(),
        reference_bin: "/ref".to_string(),
        data_dir: "/data".to_string(),
        out: None,
    }
}

#[test]
fn simulated_hosts_are_written_as_yaml() {
    let mut config = String::new();
    emit_host(
        &mut config,
        "sig",
        "11.0.0.1",
        &[owned(&["/a \"b\"", "--x", "y"]), owned(&["/c"])],
        &[("K", "v".to_string()), ("L", "w".to_string())],
        "0s",
        Some("running"),
    );
    assert_eq!(
        config,
        "  sig:\n    ip_addr: 11.0.0.1\n    network_node_id: 0\n    processes:\n    \
         - path: \"/a \\\"b\\\"\"\n      args: [\"--x\", \"y\"]\n      \
         environment: { K: \"v\", L: \"w\" }\n      start_time: 0s\n      \
         expected_final_state: running\n    \
         - path: \"/c\"\n      args: []\n      \
         environment: { K: \"v\", L: \"w\" }\n      start_time: 0s\n      \
         expected_final_state: running\n"
    );
}

#[test]
fn simulation_has_three_hosts() {
    let cases = owned(&["pair/ordering"]);
    let config =
        shadow_config(&shadow_args("wasmtime", "reference"), "/exe", "run", &cases).unwrap();
    let expected = "general:\n  stop_time: 600s\n  model_unblocked_syscall_latency: true\n\
        network:\n  graph:\n    type: 1_gbit_switch\nhosts:\n  sig:\n    ip_addr: 11.0.0.1\n    \
        network_node_id: 0\n    processes:\n    - path: \"/sig\"\n      \
        args: [\"--host\", \"11.0.0.1\", \"--port\", \"8080\"]\n      start_time: 0s\n      \
        expected_final_state: running\n  offerer:\n    ip_addr: 11.0.0.2\n    \
        network_node_id: 0\n    processes:\n    - path: \"/exe\"\n      \
        args: [\"exec\", \"/pair.wasm\", \"--jsonl\", \"--select\", \"pair/\", \"--role\", \
        \"offerer\", \"--signaling\", \"http://11.0.0.1:8080\", \"--run-id\", \"run\", \
        \"--ice-bind\", \"11.0.0.2\", \"--disable-mdns\"]\n      \
        environment: { CONFORMANCE_SHADOW_SYSCALL_SHIM: \"1\" }\n      start_time: 2s\n  \
        answerer:\n    ip_addr: 11.0.0.3\n    network_node_id: 0\n    processes:\n    \
        - path: \"/ref\"\n      args: [\"--test\", \"ordering\", \"--role\", \"answerer\", \
        \"--server\", \"http://11.0.0.1:8080\", \"--room\", \"run-ordering\", \
        \"--message-count\", \"16\", \"--message-size\", \"512\"]\n      start_time: 2s\n";
    assert_eq!(config, expected);
    assert_eq!(signaling_url(), "http://11.0.0.1:8080");
}

#[test]
fn peer_kinds_are_checked() {
    let cases = owned(&["pair/ordering"]);
    let plan = |args: &ShadowArgs, kind: &str| {
        plan_host(args, "/exe", kind, "offerer", "11.0.0.2", "http://s", "run", &cases)
    };
    let args = shadow_args("wasmtime", "wasmtime");
    assert_eq!(plan(&args, "bogus").err().unwrap(), "unknown shadow peer kind \"bogus\"");
    assert_eq!(
        plan(&args, "wasip3-guest").err().unwrap(),
        "kind wasip3-guest needs --composed-pair"
    );
    let composed = ShadowArgs { composed_pair: Some("/c.wasm".to_string()), ..args };
    let host = plan(&composed, "wasip3-guest").unwrap();
    assert!(host.env.is_empty());
    assert_eq!(host.processes[0].last().unwrap(), "--composed");
    assert_eq!(
        exec_argv("/exe", "/c.wasm", true, "offerer", "http://s", "run", "11.0.0.2"),
        host.processes[0]
    );
    assert!(reports_per_case("reference") && !reports_per_case("wasmtime"));
}

#[test]
fn simulator_is_invoked() {
    assert_eq!(
        shadow_argv("/data", "/data.yaml"),
        owned(&["--parallelism", "4", "--data-directory", "/data", "/data.yaml"])
    );
    assert_eq!(banner("t-shadow", 12), "== shadow t-shadow (12 pair case(s)) ==");
}

#[test]
fn captures_are_picked_in_order() {
    assert!(names_capture("a.1.stdout") && !names_capture(".stdout"));
    let names = owned(&["b.1001.stdout", "a.1000.stdout", "a.1000.stderr", ".stdout"]);
    assert_eq!(order_captures(&names), [1, 0]);
    let names = owned(&["ref.10000.stdout", "ref.9999.stdout", "ref.10001.stdout"]);
    assert_eq!(order_captures(&names), [1, 0, 2]);
    let names = owned(&["x.stdout", "b.7.stdout", "a.7.stdout", "a.stdout"]);
    assert_eq!(order_captures(&names), [2, 1, 3, 0]);
}

fn file(name: &str, text: &str) -> OutputFile {
    OutputFile { name: name.to_string(), text: Ok(text.to_string()) }
}

#[test]
fn cases_are_judged_by_the_process_of_their_test() {
    let cases = owned(&["pair/ordering", "pair/text-message", "pair/large-message"]);
    let files = [
        file("ref.10000.stdout", "{\"tag\":\"fail\",\"val\":\"second\"}\n"),
        file("ref.10000.stderr", "noise"),
        file("ref.10001.stdout", "{\"tag\":\"skipped\",\"val\":\"third\"}\n"),
        file("ref.9999.stdout", "{\"tag\":\"pass\"}\n"),
    ];
    let verdicts = reference_document("/d", &cases, &files).unwrap();
    let read: Vec<_> =
        verdicts.iter().map(|v| (v.case.as_str(), v.status, v.detail.as_deref())).collect();
    assert_eq!(
        read,
        [
            ("pair/ordering", CaseStatus::Pass, None),
            ("pair/text-message", CaseStatus::Fail, Some("second")),
            ("pair/large-message", CaseStatus::Skipped, Some("third")),
        ]
    );
    assert_eq!(host_stdout("/d", &files, 0).unwrap(), "{\"tag\":\"pass\"}\n");
    assert_eq!(host_stdout("/d", &files, 3).err().unwrap(), "no stdout #3 in /d");
}

#[test]
fn reference_captures_are_judged() {
    let judged = reference_verdict("pair/x", "noise\n{\"tag\":\"fail\",\"val\":\"boom\"}\n").unwrap();
    assert_eq!(judged.case, "pair/x");
    assert!(judged.status == CaseStatus::Fail);
    assert_eq!(judged.detail.as_deref(), Some("boom"));
    let judged = reference_verdict("c", "{\"tag\":\"pass\",\"val\":\"ignored\"}").unwrap();
    assert!(judged.status == CaseStatus::Pass && judged.detail.is_none());
    assert!(reference_verdict("c", "{\"tag\":\"skipped\"}").unwrap().status == CaseStatus::Skipped);
    assert_eq!(
        reference_verdict("c", "{\"tag\":\"odd\"}").err().unwrap(),
        "reference verdict has unknown tag Some(\"odd\")"
    );
    assert_eq!(
        reference_verdict("c", "{}").err().unwrap(),
        "reference verdict has unknown tag None"
    );
    let error = reference_verdict("c", "nope\n\n").err().unwrap();
    assert!(error.starts_with("reference verdict for c (stdout: \"nope\\n\\n\"): "), "{error}");
}

#[test]
fn reference_documents_stop_at_the_first_error() {
    let cases = owned(&["a", "b"]);
    let pass = |name| file(name, "{\"tag\":\"pass\"}");
    let both = [pass("r.1.stdout"), pass("r.2.stdout")];
    assert_eq!(reference_document("/d", &cases, &both).unwrap().len(), 2);
    assert_eq!(
        reference_document("/d", &cases, &[pass("r.1.stdout")]).err().unwrap(),
        "no stdout #1 in /d"
    );
    let unread = OutputFile {
        name: "r.2.stdout".to_string(),
        text: Err("reading /d/r.2.stdout".to_string()),
    };
    assert_eq!(
        reference_document("/d", &cases, &[unread, pass("r.1.stdout")]).err().unwrap(),
        "reading /d/r.2.stdout"
    );
}

fn paths() -> PeerPaths {
    PeerPaths {
        node_bin: "node".to_string(),
        jco_run_node: "run-node.js".to_string(),
        jco_run_browser: "run-browser.js".to_string(),
        reference_peer: "ref".to_string(),
        wasmtime_bin: "wasmtime".to_string(),
        wasip3_component: "c.wasm".to_string(),
    }
}

#[test]
fn directions_meet_the_reference_both_ways() {
    let all = directions();
    for side in [Side::Wasmtime, Side::JcoNode, Side::JcoBrowser, Side::Wasip3] {
        assert!(all.iter().any(|d| d.offerer == side && d.answerer == Side::Reference));
        assert!(all.iter().any(|d| d.answerer == side && d.offerer == Side::Reference));
    }
    assert_eq!(tests_of(Subset::Corpus).len(), 12);
    assert_eq!(tests_of(Subset::Handshake), ["interop-handshake"]);
}

#[test]
fn directions_are_selected() {
    let all = directions();
    assert_eq!(select_directions(&[], &[]).len(), all.len());
    let first = all[0].target.to_string();
    let picked = select_directions(&[first.clone()], &[]);
    assert_eq!(picked.len(), 1);
    assert_eq!(picked[0].target, first);
    let ordering = select_directions(&[], &owned(&["ordering"]));
    assert!(ordering.iter().all(|d| d.subset == Subset::Corpus));
}

#[test]
fn attempts_have_rooms_of_their_own() {
    let a = attempt("t", "ordering", "http://s", 7);
    assert_eq!(a.room, "interop-t-ordering-7");
    assert_eq!((a.count, a.size), (16, 512));
    assert_ne!(a.room, attempt("t", "ordering", "http://s", 17).room);
    assert_eq!(room("run", "ordering"), "run-ordering");
    assert_ne!(room("run", "ordering"), room("run", "text-message"));
}

#[test]
fn sides_are_launched() {
    let a = attempt("t", "ordering", "http://s", 7);
    assert!(matches!(
        launch(&paths(), Side::Wasmtime, &a, PeerRole::Offerer),
        Launch::InProcess
    ));
    assert!(matches!(
        launch(&paths(), Side::Wasip3, &a, PeerRole::Offerer),
        Launch::Composed { wasmtime_bin, component }
            if wasmtime_bin == "wasmtime" && component == "c.wasm"
    ));
    let Launch::Process { program, args, label } =
        launch(&paths(), Side::Reference, &a, PeerRole::Answerer)
    else {
        panic!("the reference peer is a process");
    };
    assert_eq!((program.as_str(), label.as_str()), ("ref", "reference peer ordering/answerer"));
    assert_eq!(args, shared_args(&a, PeerRole::Answerer));
    assert_eq!(
        label_of(Side::Wasip3, &a, PeerRole::Offerer),
        "wasip3-guest peer ordering/offerer"
    );
    let flag = |name: &str| {
        let at = args.iter().position(|x| x == name).unwrap();
        args[at + 1].as_str()
    };
    assert_eq!(flag("--test"), "ordering");
    assert_eq!(flag("--role"), "answerer");
    assert_eq!(flag("--room"), "interop-t-ordering-7");
    assert_eq!(flag("--server"), "http://s");
    assert_eq!(flag("--message-count"), "16");
    assert_eq!(flag("--message-size"), "512");
    let Launch::Process { program, args, .. } =
        launch(&paths(), Side::JcoBrowser, &a, PeerRole::Answerer)
    else {
        panic!("the browser peer is a process");
    };
    assert_eq!((program.as_str(), args[0].as_str()), ("node", "run-browser.js"));
}

#[test]
fn sides_fold_into_one_outcome() {
    let pass = || Ok(TestOutcome::Pass);
    assert!(matches!(fold_sides(pass(), pass()), Ok(TestOutcome::Pass)));
    assert_eq!(
        fold_sides(Err("gone".to_string()), pass()).unwrap_err(),
        "offerer peer: gone"
    );
    assert_eq!(
        fold_sides(pass(), Err("gone".to_string())).unwrap_err(),
        "answerer peer: gone"
    );
    assert!(matches!(
        fold_sides(pass(), Ok(TestOutcome::Fail("x".to_string()))),
        Ok(TestOutcome::Fail(d)) if d == "answerer: x"
    ));
}

#[test]
fn pair_instances_are_configured() {
    let some = |s: &str| Some(s.to_string());
    let config = pair_config(some("answerer"), some("http://s"), some("r")).unwrap();
    assert!(config.role == PeerRole::Answerer);
    assert_eq!((config.signaling_url.as_str(), config.run_id.as_str()), ("http://s", "r"));
    let error = |r: Result<_, String>| r.map(|_: rtc_conformance::exchange::PairConfig| ()).unwrap_err();
    assert_eq!(
        error(pair_config(None, some("u"), some("r"))),
        "harness bug: RTC_CT_ROLE is not set on a pair instance"
    );
    assert_eq!(
        error(pair_config(some("both"), None, None)),
        "harness bug: RTC_CT_ROLE=\"both\""
    );
    assert_eq!(
        error(pair_config(some("offerer"), None, some("r"))),
        "harness bug: RTC_CT_SIGNALING_URL is not set on a pair instance"
    );
    assert_eq!(
        error(pair_config(some("offerer"), some("u"), None)),
        "harness bug: RTC_CT_RUN_ID is not set on a pair instance"
    );
    assert!(parse_role("offerer") == Some(PeerRole::Offerer) && parse_role("x").is_none());
}

const LINUX: Platform = Platform {
    ipproto_ip: 0,
    ip_pktinfo: 8,
    ip_mtu_discover: 10,
    ip_recvtos: 13,
    enoprotoopt: 92,
    enosys: 38,
    msg_waitforone: 0x10000,
};

#[test]
fn shim_stubs_only_what_the_simulator_rejects() {
    assert!(stubbed_ip_option(&LINUX, 0, 8) && !stubbed_ip_option(&LINUX, 1, 8));
    let call = |armed, ret, optname, errno| setsockopt(&LINUX, armed, ret, 0, optname, errno);
    assert!(matches!(call(true, 0, 8, None), OptionResult::Stands));
    assert!(matches!(call(false, -1, 8, Some(92)), OptionResult::Stands));
    assert!(matches!(call(true, -1, 1, Some(92)), OptionResult::Stands));
    assert!(matches!(call(true, -1, 13, Some(92)), OptionResult::Succeeds));
    assert!(matches!(call(true, -1, 13, Some(22)), OptionResult::Aborts));
    assert_eq!(
        abort_message(3, 0, 8, "Invalid argument (os error 22)"),
        "shadow-syscall-shim: setsockopt(fd=3, level=0, opt=8) failed with unexpected error \
         Invalid argument (os error 22) (expected success on a real kernel or ENOPROTOOPT under \
         Shadow); aborting"
    );
}

#[test]
fn shim_emulates_batches_once_they_are_missing() {
    let mut shim = BatchShim::new();
    assert!(shim.forwards());
    assert!(matches!(shim.forwarded(&LINUX, true, 2, None), BatchResult::Stands));
    assert!(matches!(shim.forwarded(&LINUX, true, -1, Some(11)), BatchResult::Stands));
    assert!(matches!(shim.forwarded(&LINUX, false, -1, Some(38)), BatchResult::Stands));
    assert!(shim.forwards());
    assert!(matches!(shim.forwarded(&LINUX, true, -1, Some(38)), BatchResult::Emulate));
    assert!(!shim.forwards());
    assert!(matches!(BatchShim::emulate(&LINUX, false, 1, 0), Emulated::Invalid));
    assert!(matches!(BatchShim::emulate(&LINUX, true, 0, 0), Emulated::Invalid));
    assert!(matches!(
        BatchShim::emulate(&LINUX, true, 4, 0x10040),
        Emulated::ReceiveOne { flags: 0x40 }
    ));
    assert_eq!(BatchShim::emulated(-1), (-1, None));
    assert_eq!(BatchShim::emulated(1200), (1, Some(1200)));
}
