//! The Shadow lab: the two-peer corpus for one target inside the Shadow network
//! simulator, two peers on separate simulated hosts over a routed path.
//!
//! One simulation holds three hosts: the signaling server, the offerer and the
//! answerer. A suite-backed peer host runs one process over the whole selection.
//! The reference peer gives one verdict per process, so its host carries one
//! process per case, each in its own room.

use vstd::prelude::*;

use crate::corpus::{case_name_of, params_for, workload, SHADOW_SYSCALL_SHIM_ENV};
use crate::exchange::meeting_room;
use crate::json::{json_fields, json_str, json_text, opt_str_view, opt_view, read_result_object};
use crate::lab::is_given;
use crate::text::{
    after_last, before, closing_line, debug_quoted, debug_text, decimal, decimal_text,
    find_closing_line, join, join_from, joined, last_part, last_segment, lemma_after_last,
    lemma_before_irreflexive, lemma_before_total, lemma_before_transitive, numeral_reads_back,
    parse_unsigned, precedes, same, strings, unsigned_value, views,
};

verus! {

/// What one run of the lab is asked for. Paths are absolute: Shadow sets each
/// process's working directory to its host's output directory.
#[derive(Debug, Clone)]
pub struct ShadowArgs {
    pub pair_suite: String,
    pub composed_pair: Option<String>,
    pub offerer_kind: String,
    pub answerer_kind: String,
    pub target: String,
    pub shadow_bin: String,
    pub signaling_bin: String,
    pub reference_bin: String,
    pub data_dir: String,
    pub out: Option<String>,
}

/// The port the simulated signaling server listens on.
pub const SIGNALING_PORT: u64 = 8080;

/// How long the simulation may run, in simulated time.
pub const STOP_TIME: &'static str = "600s";

/// The signaling host's simulated address.
pub const SIG_IP: &'static str = "11.0.0.1";

/// The offerer host's simulated address.
pub const OFFERER_IP: &'static str = "11.0.0.2";

/// The answerer host's simulated address.
pub const ANSWERER_IP: &'static str = "11.0.0.3";

// ----- one host of the simulation ------------------------------------------------------

/// The characters of each argument of each process.
pub open spec fn argv_views(processes: Seq<Vec<String>>) -> Seq<Seq<Seq<char>>> {
    processes.map_values(|argv: Vec<String>| views(argv@))
}

/// The characters of each variable of an environment.
pub open spec fn env_views(env: Seq<(&'static str, String)>) -> Seq<(Seq<char>, Seq<char>)> {
    env.map_values(|pair: (&'static str, String)| (pair.0@, pair.1@))
}

/// The JSON literal of each string.
pub open spec fn quoted(list: Seq<Seq<char>>) -> Seq<Seq<char>> {
    list.map_values(|s: Seq<char>| json_text(s))
}

/// Each variable as a member of a flow mapping.
pub open spec fn env_pairs(env: Seq<(Seq<char>, Seq<char>)>) -> Seq<Seq<char>> {
    env.map_values(|pair: (Seq<char>, Seq<char>)| pair.0 + ": "@ + json_text(pair.1))
}

/// The environment line of a process; none for an empty environment.
pub open spec fn env_line(env: Seq<(Seq<char>, Seq<char>)>) -> Seq<char> {
    if env.len() == 0 {
        ""@
    } else {
        "      environment: { "@ + joined(env_pairs(env), ", "@) + " }\n"@
    }
}

/// The expected-final-state line of a process, where one is expected.
pub open spec fn state_line(expected: Option<Seq<char>>) -> Seq<char> {
    match expected {
        Some(state) => "      expected_final_state: "@ + state + "\n"@,
        None => ""@,
    }
}

/// One process entry of a host.
pub open spec fn process_entry(
    argv: Seq<Seq<char>>,
    env: Seq<(Seq<char>, Seq<char>)>,
    start_time: Seq<char>,
    expected: Option<Seq<char>>,
) -> Seq<char> {
    "    - path: "@ + json_text(argv[0]) + "\n      args: ["@ + joined(quoted(argv).skip(1), ", "@)
        + "]\n"@ + env_line(env) + "      start_time: "@ + start_time + "\n"@ + state_line(expected)
}

/// The process entries of a host, in order.
pub open spec fn process_entries(
    processes: Seq<Seq<Seq<char>>>,
    env: Seq<(Seq<char>, Seq<char>)>,
    start_time: Seq<char>,
    expected: Option<Seq<char>>,
) -> Seq<char>
    decreases processes.len(),
{
    if processes.len() == 0 {
        Seq::empty()
    } else {
        process_entries(processes.drop_last(), env, start_time, expected) + process_entry(
            processes.last(),
            env,
            start_time,
            expected,
        )
    }
}

/// One host entry of the simulation.
pub open spec fn host_entry(
    name: Seq<char>,
    ip: Seq<char>,
    processes: Seq<Seq<Seq<char>>>,
    env: Seq<(Seq<char>, Seq<char>)>,
    start_time: Seq<char>,
    expected: Option<Seq<char>>,
) -> Seq<char> {
    "  "@ + name + ":\n    ip_addr: "@ + ip + "\n    network_node_id: 0\n    processes:\n"@
        + process_entries(processes, env, start_time, expected)
}

fn quote_all(list: &Vec<String>) -> (r: Vec<String>)
    ensures
        views(r@) == quoted(views(list@)),
{
    let mut out: Vec<String> = Vec::new();
    let mut i: usize = 0;
    while i < list.len()
        invariant
            i <= list@.len(),
            out@.len() == i,
            forall|k: int| 0 <= k < i ==> (#[trigger] out@[k])@ == json_text(list@[k]@),
        decreases list@.len() - i,
    {
        out.push(json_str(list[i].as_str()));
        i += 1;
    }
    assert(views(out@) =~= quoted(views(list@)));
    out
}

fn environment_line(env: &[(&'static str, String)]) -> (r: String)
    ensures
        r@ == env_line(env_views(env@)),
{
    if env.len() == 0 {
        return "".to_owned();
    }
    let mut pairs: Vec<String> = Vec::new();
    let mut i: usize = 0;
    while i < env.len()
        invariant
            i <= env@.len(),
            pairs@.len() == i,
            forall|k: int|
                0 <= k < i ==> (#[trigger] pairs@[k])@ == env@[k].0@ + ": "@ + json_text(
                    env@[k].1@,
                ),
        decreases env@.len() - i,
    {
        pairs.push(env[i].0.to_owned().concat(": ").concat(json_str(env[i].1.as_str()).as_str()));
        i += 1;
    }
    assert(views(pairs@) =~= env_pairs(env_views(env@)));
    "      environment: { ".to_owned().concat(join(&pairs, ", ").as_str()).concat(" }\n")
}

fn process_text(
    argv: &Vec<String>,
    env: &[(&'static str, String)],
    start_time: &str,
    expected: Option<&str>,
) -> (r: String)
    requires
        argv@.len() > 0,
    ensures
        r@ == process_entry(
            views(argv@),
            env_views(env@),
            start_time@,
            opt_str_view(expected),
        ),
{
    let words = quote_all(argv);
    assert(views(words@).len() == argv@.len());
    assert(views(words@)[0] == json_text(argv@[0]@));
    let state = match expected {
        Some(state) => "      expected_final_state: ".to_owned().concat(state).concat("\n"),
        None => "".to_owned(),
    };
    "    - path: ".to_owned().concat(words[0].as_str()).concat("\n      args: [").concat(
        join_from(&words, 1, ", ").as_str(),
    ).concat("]\n").concat(environment_line(env).as_str()).concat("      start_time: ").concat(
        start_time,
    ).concat("\n").concat(state.as_str())
}

/// Emit one Shadow host running `processes`: each argument vector becomes a path
/// and its arguments, as double-quoted flow scalars.
pub fn emit_host(
    s: &mut String,
    name: &str,
    ip: &str,
    processes: &[Vec<String>],
    env: &[(&'static str, String)],
    start_time: &str,
    expected_running: Option<&str>,
)
    requires
        forall|i: int| 0 <= i < processes@.len() ==> (#[trigger] processes@[i])@.len() > 0,
    ensures
        final(s)@ == old(s)@ + host_entry(
            name@,
            ip@,
            argv_views(processes@),
            env_views(env@),
            start_time@,
            opt_str_view(expected_running),
        ),
{
    let ghost all = argv_views(processes@);
    let ghost vars = env_views(env@);
    let ghost state = opt_str_view(expected_running);
    let mut entries = String::new();
    let mut i: usize = 0;
    assert(all.take(0) =~= Seq::<Seq<Seq<char>>>::empty());
    while i < processes.len()
        invariant
            i <= processes@.len(),
            forall|k: int| 0 <= k < processes@.len() ==> (#[trigger] processes@[k])@.len() > 0,
            all == argv_views(processes@),
            vars == env_views(env@),
            state == opt_str_view(expected_running),
            entries@ == process_entries(all.take(i as int), vars, start_time@, state),
        decreases processes@.len() - i,
    {
        proof {
            assert(all.take(i + 1).drop_last() =~= all.take(i as int));
            assert(all.take(i + 1).last() == views(processes@[i as int]@));
        }
        entries.append(process_text(&processes[i], env, start_time, expected_running).as_str());
        i += 1;
    }
    assert(all.take(all.len() as int) =~= all);
    let host = "  ".to_owned().concat(name).concat(":\n    ip_addr: ").concat(ip).concat(
        "\n    network_node_id: 0\n    processes:\n",
    ).concat(entries.as_str());
    s.append(host.as_str());
}

// ----- the processes of each host ------------------------------------------------------

/// The arguments of a suite-backed peer process.
pub open spec fn exec_words(
    exe: Seq<char>,
    artifact: Seq<char>,
    composed: bool,
    role: Seq<char>,
    signaling_url: Seq<char>,
    run_id: Seq<char>,
    ip: Seq<char>,
) -> Seq<Seq<char>> {
    let words = seq![
        exe,
        "exec"@,
        artifact,
        "--jsonl"@,
        "--select"@,
        "pair/"@,
        "--role"@,
        role,
        "--signaling"@,
        signaling_url,
        "--run-id"@,
        run_id,
        "--ice-bind"@,
        ip,
        "--disable-mdns"@,
    ];
    if composed {
        words.push("--composed"@)
    } else {
        words
    }
}

/// The `exec` child's argument vector for a simulated peer host.
pub fn exec_argv(
    exe: &str,
    artifact: &str,
    composed: bool,
    role: &str,
    signaling_url: &str,
    run_id: &str,
    ip: &str,
) -> (r: Vec<String>)
    ensures
        views(r@) == exec_words(exe@, artifact@, composed, role@, signaling_url@, run_id@, ip@),
{
    let parts: [&str; 15] = [
        exe,
        "exec",
        artifact,
        "--jsonl",
        "--select",
        "pair/",
        "--role",
        role,
        "--signaling",
        signaling_url,
        "--run-id",
        run_id,
        "--ice-bind",
        ip,
        "--disable-mdns",
    ];
    let mut argv = strings(&parts);
    let ghost words = exec_words(exe@, artifact@, false, role@, signaling_url@, run_id@, ip@);
    assert(views(argv@) =~= words);
    if composed {
        argv.push("--composed".to_owned());
        assert(views(argv@) =~= words.push("--composed"@));
    }
    argv
}

/// The arguments of a reference peer process for one case. Its room is the one
/// the suite derives for the case, so that it pairs with either kind of host.
pub open spec fn reference_words(
    reference_bin: Seq<char>,
    case: Seq<char>,
    role: Seq<char>,
    signaling_url: Seq<char>,
    run_id: Seq<char>,
) -> Seq<Seq<char>> {
    let leaf = after_last(case, '/');
    seq![
        reference_bin,
        "--test"@,
        leaf,
        "--role"@,
        role,
        "--server"@,
        signaling_url,
        "--room"@,
        meeting_room(run_id, leaf),
        "--message-count"@,
        decimal(workload(leaf).0 as nat),
        "--message-size"@,
        decimal(workload(leaf).1 as nat),
    ]
}

/// The reference peer's argument vector for one case.
pub fn reference_argv(
    reference_bin: &str,
    case: &str,
    role: &str,
    signaling_url: &str,
    run_id: &str,
) -> (r: Vec<String>)
    ensures
        views(r@) == reference_words(reference_bin@, case@, role@, signaling_url@, run_id@),
{
    let leaf = last_segment(case);
    let (count, size) = params_for(leaf.as_str());
    let room = run_id.to_owned().concat("-").concat(leaf.as_str());
    let count_text = decimal_text(count as u64);
    let size_text = decimal_text(size as u64);
    let parts: [&str; 13] = [
        reference_bin,
        "--test",
        leaf.as_str(),
        "--role",
        role,
        "--server",
        signaling_url,
        "--room",
        room.as_str(),
        "--message-count",
        count_text.as_str(),
        "--message-size",
        size_text.as_str(),
    ];
    let argv = strings(&parts);
    assert(views(argv@) =~= reference_words(reference_bin@, case@, role@, signaling_url@, run_id@));
    argv
}

/// What one peer host runs.
#[derive(Debug, Clone)]
pub struct HostPlan {
    pub processes: Vec<Vec<String>>,
    pub env: Vec<(&'static str, String)>,
}

/// The processes and the environment of a peer host of some kind, or why there
/// are none. Only the native runtime's host arms the syscall shim.
pub open spec fn planned_host(
    args: ShadowArgs,
    exe: Seq<char>,
    kind: Seq<char>,
    role: Seq<char>,
    ip: Seq<char>,
    signaling_url: Seq<char>,
    run_id: Seq<char>,
    cases: Seq<Seq<char>>,
) -> Result<(Seq<Seq<Seq<char>>>, Seq<(Seq<char>, Seq<char>)>), Seq<char>> {
    if kind == "wasmtime"@ {
        Ok(
            (
                seq![exec_words(exe, args.pair_suite@, false, role, signaling_url, run_id, ip)],
                seq![(SHADOW_SYSCALL_SHIM_ENV@, "1"@)],
            ),
        )
    } else if kind == "wasip3-guest"@ {
        match args.composed_pair {
            Some(composed) => Ok(
                (seq![exec_words(exe, composed@, true, role, signaling_url, run_id, ip)], seq![]),
            ),
            None => Err("kind wasip3-guest needs --composed-pair"@),
        }
    } else if kind == "reference"@ {
        Ok(
            (
                cases.map_values(
                    |case: Seq<char>|
                        reference_words(args.reference_bin@, case, role, signaling_url, run_id),
                ),
                seq![],
            ),
        )
    } else {
        Err("unknown shadow peer kind "@ + debug_text(kind))
    }
}

/// Whether a host plan is the one given by characters.
pub open spec fn plan_view(r: Result<HostPlan, String>) -> Result<
    (Seq<Seq<Seq<char>>>, Seq<(Seq<char>, Seq<char>)>),
    Seq<char>,
> {
    match r {
        Ok(plan) => Ok((argv_views(plan.processes@), env_views(plan.env@))),
        Err(error) => Err(error@),
    }
}

fn reference_processes(
    reference_bin: &str,
    cases: &[String],
    role: &str,
    signaling_url: &str,
    run_id: &str,
) -> (r: Vec<Vec<String>>)
    ensures
        argv_views(r@) == views(cases@).map_values(
            |case: Seq<char>|
                reference_words(reference_bin@, case, role@, signaling_url@, run_id@),
        ),
{
    let mut out: Vec<Vec<String>> = Vec::new();
    let mut i: usize = 0;
    while i < cases.len()
        invariant
            i <= cases@.len(),
            out@.len() == i,
            forall|k: int|
                0 <= k < i ==> views((#[trigger] out@[k])@) == reference_words(
                    reference_bin@,
                    cases@[k]@,
                    role@,
                    signaling_url@,
                    run_id@,
                ),
        decreases cases@.len() - i,
    {
        out.push(reference_argv(reference_bin, cases[i].as_str(), role, signaling_url, run_id));
        i += 1;
    }
    assert(argv_views(out@) =~= views(cases@).map_values(
        |case: Seq<char>| reference_words(reference_bin@, case, role@, signaling_url@, run_id@),
    ));
    out
}

/// Plan one peer host by its kind.
pub fn plan_host(
    args: &ShadowArgs,
    exe: &str,
    kind: &str,
    role: &str,
    ip: &str,
    signaling_url: &str,
    run_id: &str,
    cases: &[String],
) -> (r: Result<HostPlan, String>)
    ensures
        plan_view(r) == planned_host(
            *args,
            exe@,
            kind@,
            role@,
            ip@,
            signaling_url@,
            run_id@,
            views(cases@),
        ),
        r matches Ok(plan) ==> forall|i: int|
            0 <= i < plan.processes@.len() ==> (#[trigger] plan.processes@[i])@.len() > 0,
{
    if same(kind, "wasmtime") {
        let argv = exec_argv(
            exe,
            args.pair_suite.as_str(),
            false,
            role,
            signaling_url,
            run_id,
            ip,
        );
        assert(views(argv@).len() == argv@.len());
        let plan = HostPlan {
            processes: vec![argv],
            env: vec![(SHADOW_SYSCALL_SHIM_ENV, "1".to_owned())],
        };
        assert(argv_views(plan.processes@) =~= seq![
            exec_words(exe@, args.pair_suite@, false, role@, signaling_url@, run_id@, ip@),
        ]);
        assert(env_views(plan.env@) =~= seq![(SHADOW_SYSCALL_SHIM_ENV@, "1"@)]);
        Ok(plan)
    } else if same(kind, "wasip3-guest") {
        match &args.composed_pair {
            Some(composed) => {
                let argv = exec_argv(
                    exe,
                    composed.as_str(),
                    true,
                    role,
                    signaling_url,
                    run_id,
                    ip,
                );
                assert(views(argv@).len() == argv@.len());
                let plan = HostPlan { processes: vec![argv], env: Vec::new() };
                assert(argv_views(plan.processes@) =~= seq![
                    exec_words(exe@, composed@, true, role@, signaling_url@, run_id@, ip@),
                ]);
                assert(env_views(plan.env@) =~= seq![]);
                Ok(plan)
            },
            None => Err("kind wasip3-guest needs --composed-pair".to_owned()),
        }
    } else if same(kind, "reference") {
        let processes = reference_processes(
            args.reference_bin.as_str(),
            cases,
            role,
            signaling_url,
            run_id,
        );
        assert forall|i: int| 0 <= i < processes@.len() implies (
        #[trigger] processes@[i])@.len() > 0 by {
            assert(argv_views(processes@).len() == processes@.len());
            assert(argv_views(processes@)[i] == views(processes@[i]@));
            assert(argv_views(processes@)[i] == reference_words(
                args.reference_bin@,
                views(cases@)[i],
                role@,
                signaling_url@,
                run_id@,
            ));
        }
        let plan = HostPlan { processes, env: Vec::new() };
        assert(env_views(plan.env@) =~= seq![]);
        Ok(plan)
    } else {
        Err("unknown shadow peer kind ".to_owned().concat(debug_quoted(kind).as_str()))
    }
}

// ----- the simulation ------------------------------------------------------------------

/// The signaling server's URL inside the simulation.
pub open spec fn signaling_address() -> Seq<char> {
    "http://"@ + SIG_IP@ + ":"@ + decimal(SIGNALING_PORT as nat)
}

/// The signaling server's URL inside the simulation.
pub fn signaling_url() -> (r: String)
    ensures
        r@ == signaling_address(),
{
    "http://".to_owned().concat(SIG_IP).concat(":").concat(decimal_text(SIGNALING_PORT).as_str())
}

/// The part of a configuration in front of its hosts. The simulated clock is
/// advanced past blocking syscalls, so that an idle wait never spins.
pub open spec fn preamble() -> Seq<char> {
    "general:\n  stop_time: "@ + STOP_TIME@
        + "\n  model_unblocked_syscall_latency: true\nnetwork:\n  graph:\n"@
        + "    type: 1_gbit_switch\nhosts:\n"@
}

/// The signaling host's entry.
pub open spec fn signaling_host(signaling_bin: Seq<char>) -> Seq<char> {
    host_entry(
        "sig"@,
        SIG_IP@,
        seq![
            seq![signaling_bin, "--host"@, SIG_IP@, "--port"@, decimal(SIGNALING_PORT as nat)],
        ],
        seq![],
        "0s"@,
        Some("running"@),
    )
}

/// A peer host's entry, from its plan.
pub open spec fn peer_host(
    role: Seq<char>,
    ip: Seq<char>,
    plan: (Seq<Seq<Seq<char>>>, Seq<(Seq<char>, Seq<char>)>),
) -> Seq<char> {
    host_entry(role, ip, plan.0, plan.1, "2s"@, None)
}

/// The simulation's configuration: the signaling host, which is expected to run
/// to the end, then the two peer hosts. A kind that cannot be planned is an
/// error, the offerer's first.
pub open spec fn configuration(
    args: ShadowArgs,
    exe: Seq<char>,
    run_id: Seq<char>,
    cases: Seq<Seq<char>>,
) -> Result<Seq<char>, Seq<char>> {
    let url = signaling_address();
    match planned_host(
        args,
        exe,
        args.offerer_kind@,
        "offerer"@,
        OFFERER_IP@,
        url,
        run_id,
        cases,
    ) {
        Err(error) => Err(error),
        Ok(offerer) => match planned_host(
            args,
            exe,
            args.answerer_kind@,
            "answerer"@,
            ANSWERER_IP@,
            url,
            run_id,
            cases,
        ) {
            Err(error) => Err(error),
            Ok(answerer) => Ok(
                preamble() + signaling_host(args.signaling_bin@) + peer_host(
                    "offerer"@,
                    OFFERER_IP@,
                    offerer,
                ) + peer_host("answerer"@, ANSWERER_IP@, answerer),
            ),
        },
    }
}

/// The characters of a text or of an error.
pub open spec fn text_view(r: Result<String, String>) -> Result<Seq<char>, Seq<char>> {
    match r {
        Ok(text) => Ok(text@),
        Err(error) => Err(error@),
    }
}

/// Write the simulation's configuration for one run. `exe` is the path of the
/// program that runs a suite-backed peer.
pub fn shadow_config(args: &ShadowArgs, exe: &str, run_id: &str, cases: &[String]) -> (r: Result<
    String,
    String,
>)
    ensures
        text_view(r) == configuration(*args, exe@, run_id@, views(cases@)),
{
    let url = signaling_url();
    let mut s = "general:\n  stop_time: ".to_owned().concat(STOP_TIME).concat(
        "\n  model_unblocked_syscall_latency: true\nnetwork:\n  graph:\n",
    ).concat("    type: 1_gbit_switch\nhosts:\n");
    let port = decimal_text(SIGNALING_PORT);
    let parts: [&str; 5] = [
        args.signaling_bin.as_str(),
        "--host",
        SIG_IP,
        "--port",
        port.as_str(),
    ];
    let argv = strings(&parts);
    assert(views(argv@) =~= seq![
        args.signaling_bin@,
        "--host"@,
        SIG_IP@,
        "--port"@,
        decimal(SIGNALING_PORT as nat),
    ]);
    assert(views(argv@).len() == argv@.len());
    let processes: Vec<Vec<String>> = vec![argv];
    assert(argv_views(processes@) =~= seq![views(argv@)]);
    let env: Vec<(&'static str, String)> = Vec::new();
    assert(env_views(env@) =~= seq![]);
    emit_host(
        &mut s,
        "sig",
        SIG_IP,
        processes.as_slice(),
        env.as_slice(),
        "0s",
        Some("running"),
    );
    match plan_host(
        args,
        exe,
        args.offerer_kind.as_str(),
        "offerer",
        OFFERER_IP,
        url.as_str(),
        run_id,
        cases,
    ) {
        Err(error) => Err(error),
        Ok(offerer) => {
            emit_host(
                &mut s,
                "offerer",
                OFFERER_IP,
                offerer.processes.as_slice(),
                offerer.env.as_slice(),
                "2s",
                None,
            );
            match plan_host(
                args,
                exe,
                args.answerer_kind.as_str(),
                "answerer",
                ANSWERER_IP,
                url.as_str(),
                run_id,
                cases,
            ) {
                Err(error) => Err(error),
                Ok(answerer) => {
                    emit_host(
                        &mut s,
                        "answerer",
                        ANSWERER_IP,
                        answerer.processes.as_slice(),
                        answerer.env.as_slice(),
                        "2s",
                        None,
                    );
                    Ok(s)
                },
            }
        },
    }
}

/// The simulator's own arguments.
pub fn shadow_argv(data_dir: &str, config_path: &str) -> (r: Vec<String>)
    ensures
        views(r@) == seq![
            "--parallelism"@,
            "4"@,
            "--data-directory"@,
            data_dir@,
            config_path@,
        ],
{
    let parts: [&str; 5] = ["--parallelism", "4", "--data-directory", data_dir, config_path];
    let argv = strings(&parts);
    assert(views(argv@) =~= seq![
        "--parallelism"@,
        "4"@,
        "--data-directory"@,
        data_dir@,
        config_path@,
    ]);
    argv
}

/// The line that announces a run.
pub fn banner(target: &str, cases: usize) -> (r: String)
    ensures
        r@ == "== shadow "@ + target@ + " ("@ + decimal(cases as nat) + " pair case(s)) =="@,
{
    "== shadow ".to_owned().concat(target).concat(" (").concat(
        decimal_text(cases as u64).as_str(),
    ).concat(" pair case(s)) ==")
}

/// Whether a host's result is read from one process per case rather than from
/// one results stream.
pub fn reports_per_case(kind: &str) -> (r: bool)
    ensures
        r == (kind@ == "reference"@),
{
    same(kind, "reference")
}

// ----- captured output -----------------------------------------------------------------

/// Whether a file name has the extension `stdout`.
pub open spec fn is_capture(name: Seq<char>) -> bool {
    name.len() > 7 && name.subrange(name.len() - 7, name.len() as int) == ".stdout"@
}

/// Whether a file name has the extension `stdout`.
pub fn names_capture(name: &str) -> (r: bool)
    ensures
        r == is_capture(name@),
{
    let len: usize = name.unicode_len();
    len > 7 && same(name.substring_char(len - 7, len), ".stdout")
}

/// The number of the process whose output a capture holds: the simulator names a capture
/// after its process's binary and number, `<binary>.<number>.stdout`.
pub open spec fn process_number(name: Seq<char>) -> Option<usize> {
    if is_capture(name) {
        unsigned_value(after_last(name.take(name.len() - 7), '.'))
    } else {
        None
    }
}

fn number_of(name: &str) -> (r: Option<usize>)
    ensures
        r == process_number(name@),
{
    if !names_capture(name) {
        return None;
    }
    let len: usize = name.unicode_len();
    let stem = name.substring_char(0, len - 7);
    assert(stem@ =~= name@.take(name@.len() - 7));
    let number = last_part(stem, '.');
    parse_unsigned(number.as_str())
}

/// Whether one file of a directory comes before another: by process number, which is the
/// order in which the processes were spawned, whatever order their names sort in. A name
/// without a number comes last; names that do not tell two files apart leave them in the
/// order in which they were listed.
pub open spec fn earlier(names: Seq<Seq<char>>, a: int, b: int) -> bool {
    let listed = before(names[a], names[b]) || (names[a] == names[b] && a < b);
    match (process_number(names[a]), process_number(names[b])) {
        (Some(x), Some(y)) => x < y || (x == y && listed),
        (Some(_), None) => true,
        (None, Some(_)) => false,
        (None, None) => listed,
    }
}

fn comes_earlier(names: &[String], a: usize, b: usize) -> (r: bool)
    requires
        a < names@.len(),
        b < names@.len(),
    ensures
        r == earlier(views(names@), a as int, b as int),
{
    let x = names[a].as_str();
    let y = names[b].as_str();
    match (number_of(x), number_of(y)) {
        (Some(m), Some(n)) => m < n || (m == n && (precedes(x, y) || (same(x, y) && a < b))),
        (Some(_), None) => true,
        (None, Some(_)) => false,
        (None, None) => precedes(x, y) || (same(x, y) && a < b),
    }
}

proof fn lemma_earlier(names: Seq<Seq<char>>, a: int, b: int, c: int)
    ensures
        !earlier(names, a, a),
        earlier(names, a, b) && earlier(names, b, c) ==> earlier(names, a, c),
        a != b ==> earlier(names, a, b) || earlier(names, b, a),
{
    lemma_before_irreflexive(names[a]);
    lemma_before_total(names[a], names[b]);
    if before(names[a], names[b]) && before(names[b], names[c]) {
        lemma_before_transitive(names[a], names[b], names[c]);
    }
}

/// Whether places follow one another in the order of their files.
pub open spec fn in_spawn_order(names: Seq<Seq<char>>, places: Seq<int>) -> bool {
    forall|i: int, j: int|
        0 <= i < j < places.len() ==> #[trigger] earlier(names, places[i], places[j])
}

/// Whether `places` are where a directory's captures stand in its listing, each once, in
/// the order of their processes.
pub open spec fn are_captures(names: Seq<Seq<char>>, places: Seq<int>) -> bool {
    &&& in_spawn_order(names, places)
    &&& forall|k: int| #[trigger]
        places.contains(k) <==> 0 <= k < names.len() && is_capture(names[k])
}

/// Where a directory's captures stand in its listing, in the order of their processes.
pub open spec fn spawn_order(names: Seq<Seq<char>>) -> Seq<int> {
    choose|places: Seq<int>| are_captures(names, places)
}

proof fn lemma_one_order(names: Seq<Seq<char>>, a: Seq<int>, b: Seq<int>)
    requires
        in_spawn_order(names, a),
        in_spawn_order(names, b),
        forall|k: int| a.contains(k) <==> b.contains(k),
    ensures
        a == b,
    decreases a.len(),
{
    if a.len() == 0 {
        if b.len() > 0 {
            assert(b.contains(b[0]));
        }
        assert(a =~= b);
    } else {
        let x = a.last();
        assert(a.contains(x));
        assert(b.contains(x));
        let y = b.last();
        assert(b.contains(y));
        assert(a.contains(y));
        if x != y {
            let i = choose|i: int| 0 <= i < a.len() && a[i] == y;
            let j = choose|j: int| 0 <= j < b.len() && b[j] == x;
            assert(earlier(names, a[i], a[a.len() - 1]));
            assert(earlier(names, b[j], b[b.len() - 1]));
            lemma_earlier(names, x, y, x);
        }
        let p = a.drop_last();
        let q = b.drop_last();
        assert forall|k: int| p.contains(k) <==> q.contains(k) by {
            lemma_without_last(names, a, k);
            lemma_without_last(names, b, k);
        }
        assert(in_spawn_order(names, p)) by {
            assert forall|i: int, j: int| 0 <= i < j < p.len() implies #[trigger] earlier(
                names,
                p[i],
                p[j],
            ) by {
                assert(earlier(names, a[i], a[j]));
            }
        }
        assert(in_spawn_order(names, q)) by {
            assert forall|i: int, j: int| 0 <= i < j < q.len() implies #[trigger] earlier(
                names,
                q[i],
                q[j],
            ) by {
                assert(earlier(names, b[i], b[j]));
            }
        }
        lemma_one_order(names, p, q);
        assert(a =~= p.push(x));
        assert(b =~= q.push(y));
    }
}

proof fn lemma_without_last(names: Seq<Seq<char>>, list: Seq<int>, k: int)
    requires
        in_spawn_order(names, list),
        list.len() > 0,
    ensures
        list.drop_last().contains(k) <==> list.contains(k) && k != list.last(),
{
    let head = list.drop_last();
    if head.contains(k) {
        let i = choose|i: int| 0 <= i < head.len() && head[i] == k;
        assert(list[i] == k);
        assert(earlier(names, list[i], list[list.len() - 1]));
        lemma_earlier(names, k, k, k);
    }
    if list.contains(k) && k != list.last() {
        let i = choose|i: int| 0 <= i < list.len() && list[i] == k;
        assert(head[i] == k);
    }
}

/// The captures of a directory have one order only: places that follow one another in the
/// order of their processes, and are those of all captures, are the ones they are read in.
pub proof fn captures_have_one_order(names: Seq<Seq<char>>, places: Seq<int>)
    requires
        are_captures(names, places),
    ensures
        spawn_order(names) == places,
{
    lemma_one_order(names, spawn_order(names), places);
}

/// Places, as integers.
pub open spec fn as_places(places: Seq<usize>) -> Seq<int> {
    places.map_values(|k: usize| k as int)
}

fn placed(names: &[String], list: Vec<usize>, k: usize) -> (r: Vec<usize>)
    requires
        k < names@.len(),
        in_spawn_order(views(names@), as_places(list@)),
        forall|i: int| 0 <= i < list@.len() ==> (#[trigger] list@[i]) < k,
    ensures
        in_spawn_order(views(names@), as_places(r@)),
        forall|i: int| 0 <= i < r@.len() ==> (#[trigger] r@[i]) <= k,
        forall|j: int| #[trigger]
            as_places(r@).contains(j) <==> as_places(list@).contains(j) || j == k,
{
    let ghost all = views(names@);
    let ghost was = list@;
    let mut list = list;
    let mut at: usize = list.len();
    while at > 0 && comes_earlier(names, k, list[at - 1])
        invariant
            list@ == was,
            all == views(names@),
            k < names@.len(),
            at <= list@.len(),
            forall|i: int| 0 <= i < list@.len() ==> (#[trigger] list@[i]) < k,
            forall|i: int|
                at <= i < list@.len() ==> earlier(all, k as int, #[trigger] list@[i] as int),
        decreases at,
    {
        at -= 1;
    }
    list.insert(at, k);
    proof {
        let old_places = as_places(was);
        let places = as_places(list@);
        assert(list@ =~= was.insert(at as int, k));
        assert(places =~= old_places.insert(at as int, k as int));
        assert forall|i: int| 0 <= i < at implies earlier(all, #[trigger] was[i] as int, k as int) by {
            lemma_earlier(all, was[at - 1] as int, k as int, k as int);
            if i < at - 1 {
                assert(earlier(all, old_places[i], old_places[at - 1]));
                lemma_earlier(all, was[i] as int, was[at - 1] as int, k as int);
            }
        }
        assert forall|i: int, j: int| 0 <= i < j < places.len() implies #[trigger] earlier(
            all,
            places[i],
            places[j],
        ) by {
            if i < at && j < at {
                assert(earlier(all, old_places[i], old_places[j]));
            } else if i < at && j == at {
                assert(earlier(all, was[i] as int, k as int));
            } else if i < at {
                assert(earlier(all, old_places[i], old_places[j - 1]));
            } else if i == at {
                assert(earlier(all, k as int, was[j - 1] as int));
            } else {
                assert(earlier(all, old_places[i - 1], old_places[j - 1]));
            }
        }
        assert forall|j: int| #[trigger] places.contains(j) <==> old_places.contains(j) || j == k by {
            if places.contains(j) {
                let i = choose|i: int| 0 <= i < places.len() && places[i] == j;
                if i < at {
                    assert(old_places[i] == j);
                } else if i > at {
                    assert(old_places[i - 1] == j);
                }
            }
            if old_places.contains(j) {
                let i = choose|i: int| 0 <= i < old_places.len() && old_places[i] == j;
                if i < at {
                    assert(places[i] == j);
                } else {
                    assert(places[i + 1] == j);
                }
            }
            assert(places[at as int] == k);
        }
        assert forall|i: int| 0 <= i < list@.len() implies (#[trigger] list@[i]) <= k by {
            if i < at {
                assert(list@[i] == was[i]);
            } else if i > at {
                assert(list@[i] == was[i - 1]);
            }
        }
    }
    list
}

/// Order a directory's captures by their processes: where they stand in its listing. The
/// processes of a host are spawned in the order in which they are declared, so these are
/// their captures, in that order.
pub fn order_captures(names: &[String]) -> (r: Vec<usize>)
    ensures
        as_places(r@) == spawn_order(views(names@)),
        are_captures(views(names@), as_places(r@)),
        forall|i: int| 0 <= i < r@.len() ==> (#[trigger] r@[i]) < names@.len(),
{
    let ghost all = views(names@);
    let mut places: Vec<usize> = Vec::new();
    let mut k: usize = 0;
    while k < names.len()
        invariant
            k <= names@.len(),
            all == views(names@),
            in_spawn_order(all, as_places(places@)),
            forall|i: int| 0 <= i < places@.len() ==> (#[trigger] places@[i]) < k,
            forall|j: int| #[trigger]
                as_places(places@).contains(j) <==> 0 <= j < k && is_capture(all[j]),
        decreases names@.len() - k,
    {
        assert(all[k as int] == names@[k as int]@);
        if names_capture(names[k].as_str()) {
            places = placed(names, places, k);
        }
        k += 1;
    }
    proof {
        captures_have_one_order(all, as_places(places@));
    }
    places
}

/// A file of a host's output directory: its name, and what it holds or why it could not
/// be read.
#[derive(Debug)]
pub struct OutputFile {
    pub name: String,
    pub text: Result<String, String>,
}

/// The names of files.
pub open spec fn file_names(files: Seq<OutputFile>) -> Seq<Seq<char>> {
    files.map_values(|file: OutputFile| file.name@)
}

/// What the `index`th process of a host printed, or why that cannot be told.
pub open spec fn printed(host_dir: Seq<char>, files: Seq<OutputFile>, index: int) -> Result<
    Seq<char>,
    Seq<char>,
> {
    let order = spawn_order(file_names(files));
    if index < order.len() {
        text_view(files[order[index]].text)
    } else {
        Err("no stdout #"@ + decimal(index as nat) + " in "@ + host_dir)
    }
}

fn names_of(files: &[OutputFile]) -> (r: Vec<String>)
    ensures
        views(r@) == file_names(files@),
{
    let mut names: Vec<String> = Vec::new();
    let mut i: usize = 0;
    while i < files.len()
        invariant
            i <= files@.len(),
            names@.len() == i,
            forall|k: int| 0 <= k < i ==> (#[trigger] names@[k])@ == files@[k].name@,
        decreases files@.len() - i,
    {
        names.push(files[i].name.clone());
        i += 1;
    }
    assert(views(names@) =~= file_names(files@));
    names
}

fn printed_at(host_dir: &str, files: &[OutputFile], order: &Vec<usize>, index: usize) -> (r: Result<
    String,
    String,
>)
    requires
        as_places(order@) == spawn_order(file_names(files@)),
        forall|i: int| 0 <= i < order@.len() ==> (#[trigger] order@[i]) < files@.len(),
    ensures
        text_view(r) == printed(host_dir@, files@, index as int),
{
    assert(as_places(order@).len() == order@.len());
    if index < order.len() {
        assert(as_places(order@)[index as int] == order@[index as int]);
        match &files[order[index]].text {
            Ok(text) => Ok(text.clone()),
            Err(error) => Err(error.clone()),
        }
    } else {
        Err(
            "no stdout #".to_owned().concat(decimal_text(index as u64).as_str()).concat(
                " in ",
            ).concat(host_dir),
        )
    }
}

/// The captured stdout of a host's `index`th process, from the files of its output
/// directory.
pub fn host_stdout(host_dir: &str, files: &[OutputFile], index: usize) -> (r: Result<
    String,
    String,
>)
    ensures
        text_view(r) == printed(host_dir@, files@, index as int),
{
    let names = names_of(files);
    assert(views(names@).len() == names@.len());
    let order = order_captures(names.as_slice());
    printed_at(host_dir, files, &order, index)
}

/// How a case ended.
#[derive(Debug, Clone, Copy, PartialEq, Eq, Structural)]
pub enum CaseStatus {
    Pass,
    Fail,
    Skipped,
}

/// How many cases failed.
pub fn count_failed(statuses: &[CaseStatus]) -> (r: usize)
    ensures
        r == statuses@.filter(|status: CaseStatus| status is Fail).len(),
{
    let ghost pred = |status: CaseStatus| status is Fail;
    let mut failed: usize = 0;
    let mut i: usize = 0;
    assert(statuses@.take(0).filter(pred).len() == 0) by {
        reveal(Seq::filter);
    }
    while i < statuses.len()
        invariant
            failed <= i <= statuses@.len(),
            pred == (|status: CaseStatus| status is Fail),
            failed == statuses@.take(i as int).filter(pred).len(),
        decreases statuses@.len() - i,
    {
        proof {
            reveal(Seq::filter);
            assert(statuses@.take(i + 1).drop_last() =~= statuses@.take(i as int));
            assert(statuses@.take(i + 1).last() == statuses@[i as int]);
        }
        if statuses[i] == CaseStatus::Fail {
            failed += 1;
        }
        i += 1;
    }
    assert(statuses@.take(statuses@.len() as int) =~= statuses@);
    failed
}

/// The verdict on one case.
#[derive(Debug, Clone)]
pub struct CaseVerdict {
    pub case: String,
    pub status: CaseStatus,
    pub detail: Option<String>,
}

impl View for CaseVerdict {
    type V = (Seq<char>, CaseStatus, Option<Seq<char>>);

    open spec fn view(&self) -> (Seq<char>, CaseStatus, Option<Seq<char>>) {
        (self.case@, self.status, opt_view(self.detail))
    }
}

/// The verdict a reference peer's captured output gives on a case, or the error
/// chain: its last line is a JSON `test-result` with a known tag.
pub open spec fn reference_verdict_of(case: Seq<char>, text: Seq<char>) -> Result<
    (Seq<char>, CaseStatus, Option<Seq<char>>),
    Seq<char>,
> {
    match json_fields(closing_line(text)) {
        Err(error) => Err(
            "reference verdict for "@ + case + " (stdout: "@ + debug_text(text) + "): "@ + error,
        ),
        Ok(fields) => match fields.0 {
            None => Err("reference verdict has unknown tag None"@),
            Some(tag) => if tag == "pass"@ {
                Ok((case, CaseStatus::Pass, None))
            } else if tag == "fail"@ {
                Ok((case, CaseStatus::Fail, fields.1))
            } else if tag == "skipped"@ {
                Ok((case, CaseStatus::Skipped, fields.1))
            } else {
                Err("reference verdict has unknown tag Some("@ + debug_text(tag) + ")"@)
            },
        },
    }
}

/// The characters of a verdict or of an error.
pub open spec fn verdict_view(r: Result<CaseVerdict, String>) -> Result<
    (Seq<char>, CaseStatus, Option<Seq<char>>),
    Seq<char>,
> {
    match r {
        Ok(verdict) => Ok(verdict@),
        Err(error) => Err(error@),
    }
}

/// Read a reference peer's verdict on a case from its captured output.
pub fn reference_verdict(case: &str, text: &str) -> (r: Result<CaseVerdict, String>)
    ensures
        verdict_view(r) == reference_verdict_of(case@, text@),
{
    match read_result_object(find_closing_line(text)) {
        Err(error) => Err(
            "reference verdict for ".to_owned().concat(case).concat(" (stdout: ").concat(
                debug_quoted(text).as_str(),
            ).concat("): ").concat(error.as_str()),
        ),
        Ok(fields) => match fields.tag {
            None => Err("reference verdict has unknown tag None".to_owned()),
            Some(tag) => if same(tag.as_str(), "pass") {
                Ok(CaseVerdict { case: case.to_owned(), status: CaseStatus::Pass, detail: None })
            } else if same(tag.as_str(), "fail") {
                Ok(
                    CaseVerdict {
                        case: case.to_owned(),
                        status: CaseStatus::Fail,
                        detail: fields.val,
                    },
                )
            } else if same(tag.as_str(), "skipped") {
                Ok(
                    CaseVerdict {
                        case: case.to_owned(),
                        status: CaseStatus::Skipped,
                        detail: fields.val,
                    },
                )
            } else {
                Err(
                    "reference verdict has unknown tag Some(".to_owned().concat(
                        debug_quoted(tag.as_str()).as_str(),
                    ).concat(")"),
                )
            },
        },
    }
}

/// What the process of a case gives: the error for which its output cannot be told, or
/// the verdict in it.
pub open spec fn captured_verdict(
    host_dir: Seq<char>,
    files: Seq<OutputFile>,
    index: int,
    case: Seq<char>,
) -> Result<(Seq<char>, CaseStatus, Option<Seq<char>>), Seq<char>> {
    match printed(host_dir, files, index) {
        Err(error) => Err(error),
        Ok(text) => reference_verdict_of(case, text),
    }
}

/// Read a reference host's verdicts from the files of its output directory. The host runs
/// one process per case, declared in the order of the cases, and each case's verdict is
/// read from the output of its own process. The first case without one ends the reading
/// with its error.
pub fn reference_document(host_dir: &str, cases: &[String], files: &[OutputFile]) -> (r: Result<
    Vec<CaseVerdict>,
    String,
>)
    ensures
        match r {
            Ok(verdicts) => {
                &&& verdicts@.len() == cases@.len()
                &&& forall|i: int|
                    0 <= i < cases@.len() ==> verdict_view(Ok(#[trigger] verdicts@[i]))
                        == captured_verdict(host_dir@, files@, i, cases@[i]@)
            },
            Err(error) => exists|i: int|
                0 <= i < cases@.len() && verdict_view(Err(error)) == #[trigger] captured_verdict(
                    host_dir@,
                    files@,
                    i,
                    cases@[i]@,
                ) && forall|k: int|
                    0 <= k < i ==> #[trigger] captured_verdict(
                        host_dir@,
                        files@,
                        k,
                        cases@[k]@,
                    ) is Ok,
        },
{
    let names = names_of(files);
    assert(views(names@).len() == names@.len());
    let order = order_captures(names.as_slice());
    let mut verdicts: Vec<CaseVerdict> = Vec::new();
    let mut i: usize = 0;
    while i < cases.len()
        invariant
            i <= cases@.len(),
            as_places(order@) == spawn_order(file_names(files@)),
            forall|k: int| 0 <= k < order@.len() ==> (#[trigger] order@[k]) < files@.len(),
            verdicts@.len() == i,
            forall|k: int|
                0 <= k < i ==> verdict_view(Ok(#[trigger] verdicts@[k])) == captured_verdict(
                    host_dir@,
                    files@,
                    k,
                    cases@[k]@,
                ),
        decreases cases@.len() - i,
    {
        let one = match printed_at(host_dir, files, &order, i) {
            Err(error) => Err(error),
            Ok(text) => reference_verdict(cases[i].as_str(), text.as_str()),
        };
        assert(verdict_view(one) == captured_verdict(
            host_dir@,
            files@,
            i as int,
            cases@[i as int]@,
        ));
        match one {
            Ok(verdict) => {
                verdicts.push(verdict);
            },
            Err(error) => {
                assert forall|k: int| 0 <= k < i implies #[trigger] captured_verdict(
                    host_dir@,
                    files@,
                    k,
                    cases@[k]@,
                ) is Ok by {
                    assert(verdict_view(Ok(verdicts@[k])) == captured_verdict(
                        host_dir@,
                        files@,
                        k,
                        cases@[k]@,
                    ));
                }
                return Err(error);
            },
        }
        i += 1;
    }
    Ok(verdicts)
}

// ----- laws -------------------------------------------------------------------------------

/// A reference peer meets a suite instance: for a case of the suite it runs the case's own
/// test, in the room that the suite derives, with the suite's workload.
pub proof fn reference_meets_the_suite(
    reference_bin: Seq<char>,
    test_id: Seq<char>,
    role: Seq<char>,
    signaling_url: Seq<char>,
    run_id: Seq<char>,
)
    requires
        forall|k: int| 0 <= k < test_id.len() ==> #[trigger] test_id[k] != '/',
    ensures
        reference_words(reference_bin, case_name_of(test_id), role, signaling_url, run_id) == seq![
            reference_bin,
            "--test"@,
            test_id,
            "--role"@,
            role,
            "--server"@,
            signaling_url,
            "--room"@,
            meeting_room(run_id, test_id),
            "--message-count"@,
            decimal(workload(test_id).0 as nat),
            "--message-size"@,
            decimal(workload(test_id).1 as nat),
        ],
{
    reveal_strlit("solo/");
    reveal_strlit("pair/");
    lemma_after_last("solo/"@, '/', test_id);
    lemma_after_last("pair/"@, '/', test_id);
}

/// The name the simulator gives the captured stdout of a process.
pub open spec fn capture_name(binary: Seq<char>, number: usize) -> Seq<char> {
    binary + "."@ + decimal(number as nat) + ".stdout"@
}

proof fn lemma_capture_name(binary: Seq<char>, number: usize)
    ensures
        is_capture(capture_name(binary, number)),
        process_number(capture_name(binary, number)) == Some(number),
{
    reveal_strlit(".");
    reveal_strlit(".stdout");
    numeral_reads_back(number as nat);
    let name = capture_name(binary, number);
    let digits = decimal(number as nat);
    assert(name.subrange(name.len() - 7, name.len() as int) =~= ".stdout"@);
    assert(name.take(name.len() - 7) =~= (binary + "."@) + digits);
    assert((binary + "."@).last() == '.');
    assert forall|k: int| 0 <= k < digits.len() implies #[trigger] digits[k] != '.' by {}
    lemma_after_last(binary + "."@, '.', digits);
    assert('0' <= digits[0]);
}

/// Each case of a reference host is judged by the process that ran its test, whatever
/// order the names of the captures sort in: where the host's processes, one per case, were
/// spawned in the order of their declaration, so that their numbers grow, and `places` are
/// where their captures stand among the files of the output directory, the process declared
/// for a case runs the case's test, and the case's verdict is the one in the capture of that
/// process.
pub proof fn cases_are_judged_by_their_own_processes(
    args: ShadowArgs,
    exe: Seq<char>,
    role: Seq<char>,
    ip: Seq<char>,
    signaling_url: Seq<char>,
    run_id: Seq<char>,
    cases: Seq<Seq<char>>,
    host_dir: Seq<char>,
    files: Seq<OutputFile>,
    binary: Seq<char>,
    numbers: Seq<usize>,
    places: Seq<int>,
    i: int,
)
    requires
        numbers.len() == cases.len(),
        places.len() == cases.len(),
        forall|a: int, b: int| 0 <= a < b < numbers.len() ==> numbers[a] < numbers[b],
        forall|k: int|
            0 <= k < places.len() ==> 0 <= #[trigger] places[k] < files.len()
                && files[places[k]].name@ == capture_name(binary, numbers[k]),
        forall|k: int|
            0 <= k < files.len() && is_capture((#[trigger] files[k]).name@) ==> places.contains(k),
        0 <= i < cases.len(),
    ensures
        planned_host(args, exe, "reference"@, role, ip, signaling_url, run_id, cases) matches Ok(
            plan,
        ) && plan.0.len() == cases.len() && plan.0[i][1] == "--test"@ && plan.0[i][2] == after_last(
            cases[i],
            '/',
        ),
        captured_verdict(host_dir, files, i, cases[i]) == match files[places[i]].text {
            Ok(text) => reference_verdict_of(cases[i], text@),
            Err(error) => Err(error@),
        },
{
    reveal_strlit("wasmtime");
    reveal_strlit("wasip3-guest");
    reveal_strlit("reference");
    assert("reference"@[0] == 'r');
    assert("wasmtime"@[0] == 'w');
    assert("wasip3-guest"@[0] == 'w');
    let names = file_names(files);
    assert forall|a: int, b: int| 0 <= a < b < places.len() implies #[trigger] earlier(
        names,
        places[a],
        places[b],
    ) by {
        assert(names[places[a]] == capture_name(binary, numbers[a]));
        assert(names[places[b]] == capture_name(binary, numbers[b]));
        lemma_capture_name(binary, numbers[a]);
        lemma_capture_name(binary, numbers[b]);
    }
    assert forall|k: int| #[trigger] places.contains(k) <==> 0 <= k < names.len() && is_capture(
        names[k],
    ) by {
        if places.contains(k) {
            let a = choose|a: int| 0 <= a < places.len() && places[a] == k;
            assert(files[places[a]].name@ == capture_name(binary, numbers[a]));
            lemma_capture_name(binary, numbers[a]);
        }
        if 0 <= k < names.len() && is_capture(names[k]) {
            assert(names[k] == files[k].name@);
        }
    }
    captures_have_one_order(names, places);
}

/// The reference peer's verdict on a case is what its last line reports, and passes only if that
/// line is tagged as a pass; a line that cannot be read, or has no known tag, is an error.
pub proof fn reference_verdict_is_its_tag(case: Seq<char>, text: Seq<char>)
    ensures
        ({
            let verdict = reference_verdict_of(case, text);
            let tag = match json_fields(closing_line(text)) {
                Ok(fields) => fields.0,
                Err(_) => None,
            };
            &&& (verdict matches Ok((_, status, _)) && status is Pass) <==> tag == Some("pass"@)
            &&& (verdict matches Ok((_, status, _)) && status is Fail) <==> tag == Some("fail"@)
            &&& (verdict matches Ok((_, status, _)) && status is Skipped) <==> tag == Some(
                "skipped"@,
            )
            &&& verdict matches Ok((named, status, detail)) ==> named == case && (status is Pass
                || (json_fields(closing_line(text)) matches Ok(fields) && detail == fields.1))
            &&& verdict is Err <==> !(tag == Some("pass"@) || tag == Some("fail"@) || tag == Some(
                "skipped"@,
            ))
        }),
{
    reveal_strlit("pass");
    reveal_strlit("fail");
    reveal_strlit("skipped");
    assert("pass"@[0] == 'p');
    assert("fail"@[0] == 'f');
}

/// A peer host is planned exactly for the three kinds of peer; the native runtime's host arms
/// the shim and no other does, a composed one needs its component, and a reference host has a
/// process for each case.
pub proof fn hosts_are_planned_by_kind(
    args: ShadowArgs,
    exe: Seq<char>,
    kind: Seq<char>,
    role: Seq<char>,
    ip: Seq<char>,
    signaling_url: Seq<char>,
    run_id: Seq<char>,
    cases: Seq<Seq<char>>,
)
    ensures
        ({
            let plan = planned_host(args, exe, kind, role, ip, signaling_url, run_id, cases);
            &&& plan is Ok <==> kind == "wasmtime"@ || (kind == "wasip3-guest"@
                && args.composed_pair is Some) || kind == "reference"@
            &&& plan matches Ok((processes, env)) ==> {
                &&& env.len() > 0 <==> kind == "wasmtime"@
                &&& kind == "wasmtime"@ ==> env == seq![(SHADOW_SYSCALL_SHIM_ENV@, "1"@)]
                &&& kind != "reference"@ ==> processes.len() == 1 && processes[0][0] == exe
                    && processes[0][1] == "exec"@
                &&& kind == "wasmtime"@ ==> processes[0] == exec_words(
                    exe,
                    args.pair_suite@,
                    false,
                    role,
                    signaling_url,
                    run_id,
                    ip,
                )
                &&& kind == "wasip3-guest"@ ==> processes[0] == exec_words(
                    exe,
                    args.composed_pair->Some_0@,
                    true,
                    role,
                    signaling_url,
                    run_id,
                    ip,
                )
                &&& kind == "reference"@ ==> processes.len() == cases.len()
            }
        }),
{
    reveal_strlit("wasmtime");
    reveal_strlit("wasip3-guest");
    reveal_strlit("reference");
    assert("reference"@[0] == 'r');
    assert("wasmtime"@[0] == 'w');
    assert("wasip3-guest"@[0] == 'w');
    assert("wasmtime"@.len() == 8 && "wasip3-guest"@.len() == 12);
    let plan = planned_host(args, exe, kind, role, ip, signaling_url, run_id, cases);
    if let Ok((processes, env)) = plan {
        if kind == "wasmtime"@ {
            assert(processes[0][0] == exe && processes[0][1] == "exec"@);
            assert(env =~= seq![(SHADOW_SYSCALL_SHIM_ENV@, "1"@)]);
        } else if kind == "wasip3-guest"@ {
            assert(processes[0][0] == exe && processes[0][1] == "exec"@);
            assert(env.len() == 0);
        } else {
            assert(env.len() == 0);
        }
    }
}

/// A suite instance in the simulation is given its role, the signaling server, the run and its
/// address, runs the two-peer cases, and does not hide its candidates.
pub proof fn instances_are_placed(
    exe: Seq<char>,
    artifact: Seq<char>,
    composed: bool,
    role: Seq<char>,
    signaling_url: Seq<char>,
    run_id: Seq<char>,
    ip: Seq<char>,
)
    ensures
        ({
            let words = exec_words(exe, artifact, composed, role, signaling_url, run_id, ip);
            &&& words.take(3) == seq![exe, "exec"@, artifact]
            &&& is_given(words, "--select"@, "pair/"@)
            &&& is_given(words, "--role"@, role)
            &&& is_given(words, "--signaling"@, signaling_url)
            &&& is_given(words, "--run-id"@, run_id)
            &&& is_given(words, "--ice-bind"@, ip)
            &&& words.contains("--jsonl"@)
            &&& words.contains("--disable-mdns"@)
            &&& words.len() == if composed {
                16int
            } else {
                15
            }
            &&& composed ==> words.last() == "--composed"@
        }),
{
    let words = exec_words(exe, artifact, composed, role, signaling_url, run_id, ip);
    assert(words.take(3) =~= seq![exe, "exec"@, artifact]);
    assert(words[3] == "--jsonl"@);
    assert(words[4] == "--select"@ && words[5] == "pair/"@);
    assert(words[6] == "--role"@ && words[7] == role);
    assert(words[8] == "--signaling"@ && words[9] == signaling_url);
    assert(words[10] == "--run-id"@ && words[11] == run_id);
    assert(words[12] == "--ice-bind"@ && words[13] == ip);
    assert(words[14] == "--disable-mdns"@);
}

/// Processes are listed in order: those of a longer list begin with those of its beginning.
pub proof fn processes_are_listed_in_order(
    processes: Seq<Seq<Seq<char>>>,
    env: Seq<(Seq<char>, Seq<char>)>,
    start_time: Seq<char>,
    expected: Option<Seq<char>>,
)
    requires
        processes.len() > 0,
    ensures
        process_entries(processes, env, start_time, expected) == process_entry(
            processes[0],
            env,
            start_time,
            expected,
        ) + process_entries(processes.drop_first(), env, start_time, expected),
    decreases processes.len(),
{
    let less = processes.drop_last();
    if processes.len() == 1 {
        assert(less =~= Seq::<Seq<Seq<char>>>::empty());
        assert(processes.drop_first() =~= Seq::<Seq<Seq<char>>>::empty());
        assert(processes.last() == processes[0]);
        assert(process_entries(less, env, start_time, expected) == Seq::<char>::empty());
        assert(process_entries(processes, env, start_time, expected) =~= process_entry(
            processes[0],
            env,
            start_time,
            expected,
        ));
    } else {
        processes_are_listed_in_order(less, env, start_time, expected);
        assert(less.drop_first() =~= processes.drop_first().drop_last());
        assert(less[0] == processes[0]);
        assert(processes.drop_first().last() == processes.last());
        assert(process_entries(processes, env, start_time, expected) =~= process_entry(
            processes[0],
            env,
            start_time,
            expected,
        ) + process_entries(processes.drop_first(), env, start_time, expected));
    }
}

/// A simulation is configured exactly if both of its hosts can be planned; where one cannot, its
/// error is the simulation's, the offerer's first.
pub proof fn simulation_needs_both_hosts(
    args: ShadowArgs,
    exe: Seq<char>,
    run_id: Seq<char>,
    cases: Seq<Seq<char>>,
)
    ensures
        ({
            let host = |kind: Seq<char>, role: Seq<char>, ip: Seq<char>|
                planned_host(args, exe, kind, role, ip, signaling_address(), run_id, cases);
            let offerer = host(args.offerer_kind@, "offerer"@, OFFERER_IP@);
            let answerer = host(args.answerer_kind@, "answerer"@, ANSWERER_IP@);
            let all = configuration(args, exe, run_id, cases);
            &&& all is Ok <==> offerer is Ok && answerer is Ok
            &&& offerer matches Err(error) ==> all == Err::<Seq<char>, Seq<char>>(error)
            &&& offerer is Ok ==> (answerer matches Err(error) ==> all == Err::<
                Seq<char>,
                Seq<char>,
            >(error))
            &&& all matches Ok(text) ==> text == preamble() + host_entry(
                "sig"@,
                SIG_IP@,
                seq![
                    seq![
                        args.signaling_bin@,
                        "--host"@,
                        SIG_IP@,
                        "--port"@,
                        decimal(SIGNALING_PORT as nat),
                    ],
                ],
                seq![],
                "0s"@,
                Some("running"@),
            ) + host_entry(
                "offerer"@,
                OFFERER_IP@,
                offerer->Ok_0.0,
                offerer->Ok_0.1,
                "2s"@,
                None,
            ) + host_entry(
                "answerer"@,
                ANSWERER_IP@,
                answerer->Ok_0.0,
                answerer->Ok_0.1,
                "2s"@,
                None,
            )
        }),
{
}

} // verus!
