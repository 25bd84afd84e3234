//! The lab executors: one suite instance's stream, and the pair corpus over
//! routed paths built from network namespaces.

use vstd::prelude::*;

use crate::json::opt_view;
use crate::text::{debug_quoted, debug_text, decimal, decimal_text, same, strings, views};

verus! {

/// Which half of a pair a peer drives.
#[derive(Clone, Copy, Debug, PartialEq, Eq, Structural)]
pub enum PeerRole {
    Offerer,
    Answerer,
}

impl PeerRole {
    /// The role's name.
    pub open spec fn named(self) -> Seq<char> {
        match self {
            PeerRole::Offerer => "offerer"@,
            PeerRole::Answerer => "answerer"@,
        }
    }

    /// The role's name, as every command line spells it.
    pub fn name(self) -> (r: &'static str)
        ensures
            r@ == self.named(),
    {
        match self {
            PeerRole::Offerer => "offerer",
            PeerRole::Answerer => "answerer",
        }
    }

    /// The other half of the pair.
    pub open spec fn across(self) -> PeerRole {
        match self {
            PeerRole::Offerer => PeerRole::Answerer,
            PeerRole::Answerer => PeerRole::Offerer,
        }
    }

    /// The other half of the pair.
    pub fn other(self) -> (r: PeerRole)
        ensures
            r == self.across(),
    {
        match self {
            PeerRole::Offerer => PeerRole::Answerer,
            PeerRole::Answerer => PeerRole::Offerer,
        }
    }
}

/// The ICE configuration a lab scenario hands a peer.
#[derive(Clone, Debug)]
pub struct PeerIce {
    /// STUN or TURN server URL, when the scenario is server-mediated.
    pub server_url: Option<String>,
    pub username: String,
    pub credential: String,
    /// Restrict ICE to relay candidates (TURN scenarios).
    pub relay_only: bool,
}

impl Default for PeerIce {
    /// No server, no credentials, every kind of candidate.
    fn default() -> (r: PeerIce)
        ensures
            r.server_url is None,
            r.username@ == ""@,
            r.credential@ == ""@,
            !r.relay_only,
    {
        PeerIce {
            server_url: None,
            username: "".to_owned(),
            credential: "".to_owned(),
            relay_only: false,
        }
    }
}

// ----- one suite instance --------------------------------------------------------------

/// The ICE flags of a suite instance.
#[derive(Clone, Debug)]
pub struct IceProfile {
    /// The address to bind and to derive the host candidate from.
    pub bind: Option<String>,
    /// A STUN server's URL.
    pub stun: Option<String>,
    /// A TURN server's URL, username and credential, separated by commas.
    pub turn: Option<String>,
    /// Use relay candidates only.
    pub relay_only: bool,
    /// Do not obfuscate host candidates.
    pub disable_mdns: bool,
}

/// What one suite instance is asked to run.
#[derive(Clone, Debug)]
pub struct ExecArgs {
    pub suite: String,
    pub target: String,
    pub select: Option<String>,
    pub role: Option<String>,
    pub signaling_url: Option<String>,
    pub run_id: Option<String>,
    pub composed: bool,
    pub ice: Option<IceProfile>,
    pub suite_artifact: Option<String>,
    pub jobs: usize,
    pub budget_secs: u64,
    pub case_timeout_secs: u64,
    pub jsonl: bool,
}

/// The environment a suite instance's store gets.
#[derive(Clone, Debug)]
pub struct SuiteEnv {
    pub role: Option<String>,
    pub signaling_url: Option<String>,
    pub run_id: Option<String>,
    pub composed: bool,
    pub ice: Option<IceProfile>,
}

/// How results are written.
#[derive(Clone, Copy, Debug, PartialEq, Eq, Structural)]
pub enum OutputMode {
    Jsonl,
    Human,
}

/// One suite instance's run, ready for the component runner.
#[derive(Clone, Debug)]
pub struct ExecPlan {
    pub suite: String,
    pub suite_name: String,
    pub target: String,
    pub env: SuiteEnv,
    pub suite_artifact: Option<String>,
    pub mode: OutputMode,
    /// Cases per instance: a fresh instance for each.
    pub batch: usize,
    pub jobs: usize,
    pub select: Option<String>,
    pub budget_secs: u64,
    pub case_timeout_secs: u64,
}

/// The name a suite goes by: its file stem, or `suite` if its path has none.
pub open spec fn suite_named(stem: Option<Seq<char>>) -> Seq<char> {
    match stem {
        Some(stem) => stem,
        None => "suite"@,
    }
}

/// Plan one suite instance's run. A role needs a signaling server and a run id.
pub fn plan_exec(args: ExecArgs, stem: Option<String>) -> (r: Result<ExecPlan, String>)
    ensures
        r is Err <==> args.role is Some && (args.signaling_url is None || args.run_id is None),
        r matches Err(error) ==> error@ == "--role needs --signaling and --run-id"@,
        r matches Ok(plan) ==> {
            &&& plan.suite == args.suite
            &&& plan.suite_name@ == suite_named(opt_view(stem))
            &&& plan.target == args.target
            &&& plan.env == (SuiteEnv {
                role: args.role,
                signaling_url: args.signaling_url,
                run_id: args.run_id,
                composed: args.composed,
                ice: args.ice,
            })
            &&& plan.suite_artifact == args.suite_artifact
            &&& plan.mode == if args.jsonl { OutputMode::Jsonl } else { OutputMode::Human }
            &&& plan.batch == 1
            &&& plan.jobs == args.jobs
            &&& plan.select == args.select
            &&& plan.budget_secs == args.budget_secs
            &&& plan.case_timeout_secs == args.case_timeout_secs
        },
{
    if args.role.is_some() && (args.signaling_url.is_none() || args.run_id.is_none()) {
        return Err("--role needs --signaling and --run-id".to_owned());
    }
    let suite_name = match stem {
        Some(stem) => stem,
        None => "suite".to_owned(),
    };
    let mode = if args.jsonl { OutputMode::Jsonl } else { OutputMode::Human };
    Ok(
        ExecPlan {
            suite: args.suite,
            suite_name,
            target: args.target,
            env: SuiteEnv {
                role: args.role,
                signaling_url: args.signaling_url,
                run_id: args.run_id,
                composed: args.composed,
                ice: args.ice,
            },
            suite_artifact: args.suite_artifact,
            mode,
            batch: 1,
            jobs: args.jobs,
            select: args.select,
            budget_secs: args.budget_secs,
            case_timeout_secs: args.case_timeout_secs,
        },
    )
}

/// Whether a run with so many failed cases exits as a success.
pub fn exits_clean(failed: usize) -> (r: bool)
    ensures
        r == (failed == 0),
{
    failed == 0
}

// ----- the namespace lab ---------------------------------------------------------------

/// What one run of the namespace lab is asked for.
#[derive(Clone, Debug)]
pub struct NetnsArgs {
    pub pair_suite: String,
    pub scenario: String,
    pub target: Option<String>,
    pub signaling_bin: String,
    pub out: Option<String>,
}

/// The namespaces and addresses a provisioned scenario offers.
#[derive(Clone, Debug)]
pub struct Topology {
    pub signaling_ns: String,
    pub signaling_addr: String,
    pub signaling_port: u16,
    pub offerer_ns: String,
    pub offerer_addr: String,
    pub answerer_ns: String,
    pub answerer_addr: String,
}

/// The target a run reports under: the one it was asked for, or the native
/// runtime's row for the scenario.
pub open spec fn netns_target_of(target: Option<Seq<char>>, scenario: Seq<char>) -> Seq<char> {
    match target {
        Some(target) => target,
        None => "wasmtime-"@ + scenario,
    }
}

/// The target a run of `scenario` reports under.
pub fn netns_target(args: &NetnsArgs, scenario: &str) -> (r: String)
    ensures
        r@ == netns_target_of(opt_view(args.target), scenario@),
{
    match &args.target {
        Some(target) => target.clone(),
        None => "wasmtime-".to_owned().concat(scenario),
    }
}

/// The error for a scenario that is not known.
pub fn unknown_scenario(scenario: &str) -> (r: String)
    ensures
        r@ == "unknown scenario "@ + debug_text(scenario@),
{
    "unknown scenario ".to_owned().concat(debug_quoted(scenario).as_str())
}

/// Find a scenario by its name: the first one of that name, or the error if there is none.
pub fn find_scenario(names: &[String], scenario: &str) -> (r: Result<usize, String>)
    ensures
        match r {
            Ok(i) => {
                &&& i < names@.len()
                &&& names@[i as int]@ == scenario@
                &&& forall|k: int| 0 <= k < i ==> (#[trigger] names@[k])@ != scenario@
            },
            Err(error) => {
                &&& !views(names@).contains(scenario@)
                &&& error@ == "unknown scenario "@ + debug_text(scenario@)
            },
        },
{
    let mut i: usize = 0;
    while i < names.len()
        invariant
            i <= names@.len(),
            forall|k: int| 0 <= k < i ==> (#[trigger] names@[k])@ != scenario@,
        decreases names@.len() - i,
    {
        if same(names[i].as_str(), scenario) {
            return Ok(i);
        }
        i += 1;
    }
    assert(!views(names@).contains(scenario@)) by {
        if views(names@).contains(scenario@) {
            let k = choose|k: int| 0 <= k < views(names@).len() && views(names@)[k] == scenario@;
            assert(names@[k]@ == scenario@);
        }
    }
    Err(unknown_scenario(scenario))
}

/// Whether the lab may run: it needs the rights to provision namespaces.
pub fn may_provision(is_root: bool) -> (r: Result<(), String>)
    ensures
        r is Ok <==> is_root,
        r matches Err(error) ==> error@
            == "the netns lab provisions namespaces and nftables: run under sudo"@,
{
    if is_root {
        Ok(())
    } else {
        Err("the netns lab provisions namespaces and nftables: run under sudo".to_owned())
    }
}

impl Topology {
    /// The namespace a peer runs in.
    pub open spec fn ns_of(self, role: PeerRole) -> Seq<char> {
        match role {
            PeerRole::Offerer => self.offerer_ns@,
            PeerRole::Answerer => self.answerer_ns@,
        }
    }

    /// The address a peer binds.
    pub open spec fn addr_of(self, role: PeerRole) -> Seq<char> {
        match role {
            PeerRole::Offerer => self.offerer_addr@,
            PeerRole::Answerer => self.answerer_addr@,
        }
    }

    /// The signaling server's URL.
    pub open spec fn signaling_at(self) -> Seq<char> {
        "http://"@ + self.signaling_addr@ + ":"@ + decimal(self.signaling_port as nat)
    }

    /// The signaling server's URL.
    pub fn signaling_url(&self) -> (r: String)
        ensures
            r@ == self.signaling_at(),
    {
        "http://".to_owned().concat(self.signaling_addr.as_str()).concat(":").concat(
            decimal_text(self.signaling_port as u64).as_str(),
        )
    }

    /// The namespace a peer runs in.
    pub fn peer_ns(&self, role: PeerRole) -> (r: &str)
        ensures
            r@ == self.ns_of(role),
    {
        match role {
            PeerRole::Offerer => self.offerer_ns.as_str(),
            PeerRole::Answerer => self.answerer_ns.as_str(),
        }
    }

    /// The address a peer binds.
    pub fn bind_addr(&self, role: PeerRole) -> (r: &str)
        ensures
            r@ == self.addr_of(role),
    {
        match role {
            PeerRole::Offerer => self.offerer_addr.as_str(),
            PeerRole::Answerer => self.answerer_addr.as_str(),
        }
    }
}

/// The ICE arguments of a peer. A credentialed server is TURN, which also serves
/// STUN; one without a username is plain STUN. Without a server there are none.
pub open spec fn ice_words(ice: PeerIce) -> Seq<Seq<char>> {
    match ice.server_url {
        None => seq![],
        Some(url) => {
            let server = if ice.username@.len() == 0 {
                seq!["--ice-stun"@, url@]
            } else {
                seq!["--ice-turn"@, url@ + ","@ + ice.username@ + ","@ + ice.credential@]
            };
            if ice.relay_only {
                server.push("--ice-relay-only"@)
            } else {
                server
            }
        },
    }
}

/// The ICE arguments of a peer.
pub fn ice_args(ice: &PeerIce) -> (r: Vec<String>)
    ensures
        views(r@) == ice_words(*ice),
{
    match &ice.server_url {
        None => {
            let none: Vec<String> = Vec::new();
            assert(views(none@) =~= seq![]);
            none
        },
        Some(url) => {
            let mut words: Vec<String> = Vec::new();
            if ice.username.as_str().unicode_len() == 0 {
                words.push("--ice-stun".to_owned());
                words.push(url.clone());
                assert(views(words@) =~= seq!["--ice-stun"@, url@]);
            } else {
                words.push("--ice-turn".to_owned());
                words.push(
                    url.as_str().to_owned().concat(",").concat(ice.username.as_str()).concat(
                        ",",
                    ).concat(ice.credential.as_str()),
                );
                assert(views(words@) =~= seq![
                    "--ice-turn"@,
                    url@ + ","@ + ice.username@ + ","@ + ice.credential@,
                ]);
            }
            if ice.relay_only {
                let ghost server = views(words@);
                words.push("--ice-relay-only".to_owned());
                assert(views(words@) =~= server.push("--ice-relay-only"@));
            }
            words
        },
    }
}

/// The arguments of `ip` that run one role's child in its namespace.
pub open spec fn netns_words(
    topology: Topology,
    role: PeerRole,
    exe: Seq<char>,
    pair_suite: Seq<char>,
    run_id: Seq<char>,
    ice: PeerIce,
) -> Seq<Seq<char>> {
    seq![
        "netns"@,
        "exec"@,
        topology.ns_of(role),
        exe,
        "exec"@,
        pair_suite,
        "--jsonl"@,
        "--select"@,
        "pair/"@,
        "--role"@,
        role.named(),
        "--signaling"@,
        topology.signaling_at(),
        "--run-id"@,
        run_id,
        "--ice-bind"@,
        topology.addr_of(role),
    ] + ice_words(ice)
}

/// The arguments of `ip` that run one role's child in its namespace, with the
/// scenario's ICE profile. `exe` and `pair_suite` are absolute paths.
pub fn netns_argv(
    topology: &Topology,
    role: PeerRole,
    exe: &str,
    pair_suite: &str,
    run_id: &str,
    ice: &PeerIce,
) -> (r: Vec<String>)
    ensures
        views(r@) == netns_words(*topology, role, exe@, pair_suite@, run_id@, *ice),
{
    let url = topology.signaling_url();
    let parts: [&str; 17] = [
        "netns",
        "exec",
        topology.peer_ns(role),
        exe,
        "exec",
        pair_suite,
        "--jsonl",
        "--select",
        "pair/",
        "--role",
        role.name(),
        "--signaling",
        url.as_str(),
        "--run-id",
        run_id,
        "--ice-bind",
        topology.bind_addr(role),
    ];
    let mut argv = strings(&parts);
    let mut ice_part = ice_args(ice);
    let ghost a = views(argv@);
    let ghost b = views(ice_part@);
    argv.append(&mut ice_part);
    assert(views(argv@) =~= a + b);
    assert(views(argv@) =~= netns_words(*topology, role, exe@, pair_suite@, run_id@, *ice));
    argv
}

/// The arguments of `ip` that run the signaling server in its namespace.
pub fn signalingd_argv(topology: &Topology, signaling_bin: &str) -> (r: Vec<String>)
    ensures
        views(r@) == seq![
            "netns"@,
            "exec"@,
            topology.signaling_ns@,
            signaling_bin@,
            "--host"@,
            topology.signaling_addr@,
            "--port"@,
            decimal(topology.signaling_port as nat),
        ],
{
    let port = decimal_text(topology.signaling_port as u64);
    let parts: [&str; 8] = [
        "netns",
        "exec",
        topology.signaling_ns.as_str(),
        signaling_bin,
        "--host",
        topology.signaling_addr.as_str(),
        "--port",
        port.as_str(),
    ];
    let argv = strings(&parts);
    assert(views(argv@) =~= seq![
        "netns"@,
        "exec"@,
        topology.signaling_ns@,
        signaling_bin@,
        "--host"@,
        topology.signaling_addr@,
        "--port"@,
        decimal(topology.signaling_port as nat),
    ]);
    argv
}

// ----- both sides of a pair ------------------------------------------------------------

/// Each error under its side's name.
pub open spec fn labelled(role: PeerRole, errors: Seq<Seq<char>>) -> Seq<Seq<char>> {
    errors.map_values(|error: Seq<char>| role.named() + ": "@ + error)
}

fn push_labelled(out: &mut Vec<String>, role: PeerRole, errors: &[String])
    ensures
        views(final(out)@) == views(old(out)@) + labelled(role, views(errors@)),
{
    let ghost was = views(out@);
    let ghost all = labelled(role, views(errors@));
    let mut i: usize = 0;
    assert(all.take(0) =~= seq![]);
    assert(was + all.take(0) =~= was);
    while i < errors.len()
        invariant
            i <= errors@.len(),
            all == labelled(role, views(errors@)),
            views(out@) == was + all.take(i as int),
        decreases errors@.len() - i,
    {
        let ghost now = views(out@);
        out.push(role.name().to_owned().concat(": ").concat(errors[i].as_str()));
        assert(views(out@) =~= now.push(all[i as int]));
        assert(was + all.take(i + 1) =~= now.push(all[i as int]));
        i += 1;
    }
    assert(all.take(all.len() as int) =~= all);
}

/// The run errors of both sides of a pair, each under its side's name, the
/// offerer's first.
pub fn pair_run_errors(offerer: &[String], answerer: &[String]) -> (r: Vec<String>)
    ensures
        views(r@) == labelled(PeerRole::Offerer, views(offerer@)) + labelled(
            PeerRole::Answerer,
            views(answerer@),
        ),
{
    let mut out: Vec<String> = Vec::new();
    assert(views(out@) =~= seq![]);
    push_labelled(&mut out, PeerRole::Offerer, offerer);
    assert(seq![] + labelled(PeerRole::Offerer, views(offerer@)) =~= labelled(
        PeerRole::Offerer,
        views(offerer@),
    ));
    push_labelled(&mut out, PeerRole::Answerer, answerer);
    out
}

// ----- laws ----------------------------------------------------------------------------

/// The two roles are each other's other, and go by different names.
pub proof fn roles_are_two(role: PeerRole)
    ensures
        role.across() != role,
        role.across().across() == role,
        role.named() != role.across().named(),
{
    reveal_strlit("offerer");
    reveal_strlit("answerer");
    assert(role.named().len() != role.across().named().len());
}

/// Whether an argument is given in some words: its flag, and its value behind it.
pub open spec fn is_given(words: Seq<Seq<char>>, flag: Seq<char>, value: Seq<char>) -> bool {
    exists|i: int|
        0 <= i < words.len() - 1 && #[trigger] words[i] == flag && words[i + 1] == value
}

/// A peer in a namespace runs in its own namespace, under its own role and address, and meets
/// the other over the one signaling server and run.
pub proof fn peers_are_placed(
    topology: Topology,
    role: PeerRole,
    exe: Seq<char>,
    pair_suite: Seq<char>,
    run_id: Seq<char>,
    ice: PeerIce,
)
    ensures
        ({
            let words = netns_words(topology, role, exe, pair_suite, run_id, ice);
            let (ns, addr) = if role is Offerer {
                (topology.offerer_ns@, topology.offerer_addr@)
            } else {
                (topology.answerer_ns@, topology.answerer_addr@)
            };
            &&& words.take(6) == seq!["netns"@, "exec"@, ns, exe, "exec"@, pair_suite]
            &&& is_given(words, "--select"@, "pair/"@)
            &&& is_given(
                words,
                "--role"@,
                if role is Offerer {
                    "offerer"@
                } else {
                    "answerer"@
                },
            )
            &&& is_given(
                words,
                "--signaling"@,
                "http://"@ + topology.signaling_addr@ + ":"@ + decimal(
                    topology.signaling_port as nat,
                ),
            )
            &&& is_given(words, "--run-id"@, run_id)
            &&& is_given(words, "--ice-bind"@, addr)
            &&& words.skip(17) == ice_words(ice)
        }),
{
    let words = netns_words(topology, role, exe, pair_suite, run_id, ice);
    assert(words.take(6) =~= seq![
        "netns"@,
        "exec"@,
        topology.ns_of(role),
        exe,
        "exec"@,
        pair_suite,
    ]);
    assert(words[7] == "--select"@ && words[8] == "pair/"@);
    assert(words[9] == "--role"@ && words[10] == role.named());
    assert(words[11] == "--signaling"@ && words[12] == topology.signaling_at());
    assert(words[13] == "--run-id"@ && words[14] == run_id);
    assert(words[15] == "--ice-bind"@ && words[16] == topology.addr_of(role));
    assert(words.skip(17) =~= ice_words(ice));
}

/// A server is handed to a peer as TURN exactly if it has a username, and as STUN otherwise;
/// relaying is demanded exactly where there is a server and it is asked for, and without a
/// server nothing is handed on.
pub proof fn ice_is_handed_on(ice: PeerIce)
    ensures
        ice.server_url is None <==> ice_words(ice).len() == 0,
        ice.server_url matches Some(url) ==> {
            &&& ice.username@.len() == 0 ==> is_given(ice_words(ice), "--ice-stun"@, url@)
            &&& ice.username@.len() > 0 ==> is_given(
                ice_words(ice),
                "--ice-turn"@,
                url@ + ","@ + ice.username@ + ","@ + ice.credential@,
            )
            &&& ice_words(ice).len() == if ice.relay_only {
                3int
            } else {
                2
            }
            &&& ice.relay_only ==> ice_words(ice).last() == "--ice-relay-only"@
        },
{
    if let Some(url) = ice.server_url {
        let words = ice_words(ice);
        if ice.username@.len() == 0 {
            assert(words[0] == "--ice-stun"@ && words[1] == url@);
        } else {
            assert(words[0] == "--ice-turn"@ && words[1] == url@ + ","@ + ice.username@ + ","@
                + ice.credential@);
        }
    }
}

/// A run reports under the target it was asked for, and without one under its scenario's.
pub proof fn run_reports_under_its_target(target: Option<Seq<char>>, scenario: Seq<char>)
    ensures
        target matches Some(asked) ==> netns_target_of(target, scenario) == asked,
        target is None ==> netns_target_of(target, scenario) == "wasmtime-"@ + scenario,
        target matches Some(stem) ==> suite_named(target) == stem,
        suite_named(None) == "suite"@,
{
}

/// Every error of a side is kept, in order, behind the side's name.
pub proof fn every_error_is_labelled(role: PeerRole, errors: Seq<Seq<char>>, i: int)
    requires
        0 <= i < errors.len(),
    ensures
        labelled(role, errors).len() == errors.len(),
        labelled(role, errors)[i] == (if role is Offerer {
            "offerer"@
        } else {
            "answerer"@
        }) + ": "@ + errors[i],
{
}

} // verus!
