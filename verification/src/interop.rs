//! The interop orchestrator: which pairs of runtimes meet, over which tests, and how
//! each side of a pair is run.

use vstd::prelude::*;
use vstd::slice::slice_to_vec;

use crate::corpus::{params_for, workload, TWO_PEER_TESTS};
use crate::lab::PeerRole;
use crate::outcome::{fold_two, folded, outcome_view, OutcomeView, TestOutcome};
use crate::text::{decimal, decimal_text, numeral_reads_back, holds, str_views, strings, views};

verus! {

/// The bound on one test, in seconds.
pub const TEST_TIMEOUT_SECS: u64 = 90;

/// The tests of the browser-backed pairs: each boots a browser of its own, so they run
/// the flagship handshake only.
pub const HANDSHAKE_ONLY: [&'static str; 1] = ["interop-handshake"];

// ----- directions ----------------------------------------------------------------------

/// The runtime that drives one side of a pair.
#[derive(Debug, Clone, Copy, PartialEq, Eq, Structural)]
pub enum Side {
    /// A native guest instance in this process.
    Wasmtime,
    /// The Node host.
    JcoNode,
    /// The Node host's sibling inside a headless browser.
    JcoBrowser,
    /// The composed in-guest provider.
    Wasip3,
    /// The non-wasm reference peer.
    Reference,
}

/// The tests a direction runs.
#[derive(Debug, Clone, Copy, PartialEq, Eq, Structural)]
pub enum Subset {
    /// All two-peer tests.
    Corpus,
    /// The flagship handshake.
    Handshake,
}

/// One result document: a direction of a pair, or the reference peer's pair with
/// itself.
#[derive(Debug, Clone, Copy)]
pub struct Direction {
    pub target: &'static str,
    pub offerer: Side,
    pub answerer: Side,
    pub subset: Subset,
}

/// The tests of a subset.
pub open spec fn tests_in(subset: Subset) -> Seq<Seq<char>> {
    match subset {
        Subset::Corpus => str_views(TWO_PEER_TESTS@),
        Subset::Handshake => str_views(HANDSHAKE_ONLY@),
    }
}

/// The tests of a subset, in registry order.
pub fn tests_of(subset: Subset) -> (r: Vec<&'static str>)
    ensures
        str_views(r@) == tests_in(subset),
{
    match subset {
        Subset::Corpus => {
            let tests = TWO_PEER_TESTS;
            slice_to_vec(&tests)
        },
        Subset::Handshake => {
            let tests = HANDSHAKE_ONLY;
            slice_to_vec(&tests)
        },
    }
}

/// The directions: each target against the reference peer in both orders, the reference
/// peer with itself, and the pairs of implementations that are kept.
pub open spec fn all_directions() -> Seq<Direction> {
    seq![
        Direction {
            target: "wasmtime-x-reference",
            offerer: Side::Wasmtime,
            answerer: Side::Reference,
            subset: Subset::Corpus,
        },
        Direction {
            target: "reference-x-wasmtime",
            offerer: Side::Reference,
            answerer: Side::Wasmtime,
            subset: Subset::Corpus,
        },
        Direction {
            target: "jco-node-x-reference",
            offerer: Side::JcoNode,
            answerer: Side::Reference,
            subset: Subset::Corpus,
        },
        Direction {
            target: "reference-x-jco-node",
            offerer: Side::Reference,
            answerer: Side::JcoNode,
            subset: Subset::Corpus,
        },
        Direction {
            target: "jco-browser-x-reference",
            offerer: Side::JcoBrowser,
            answerer: Side::Reference,
            subset: Subset::Handshake,
        },
        Direction {
            target: "reference-x-jco-browser",
            offerer: Side::Reference,
            answerer: Side::JcoBrowser,
            subset: Subset::Handshake,
        },
        Direction {
            target: "wasip3-guest-x-reference",
            offerer: Side::Wasip3,
            answerer: Side::Reference,
            subset: Subset::Corpus,
        },
        Direction {
            target: "reference-x-wasip3-guest",
            offerer: Side::Reference,
            answerer: Side::Wasip3,
            subset: Subset::Corpus,
        },
        Direction {
            target: "reference",
            offerer: Side::Reference,
            answerer: Side::Reference,
            subset: Subset::Corpus,
        },
        Direction {
            target: "wasmtime-x-jco-node",
            offerer: Side::Wasmtime,
            answerer: Side::JcoNode,
            subset: Subset::Corpus,
        },
        Direction {
            target: "jco-node-x-wasmtime",
            offerer: Side::JcoNode,
            answerer: Side::Wasmtime,
            subset: Subset::Corpus,
        },
        Direction {
            target: "wasmtime-x-wasip3-guest",
            offerer: Side::Wasmtime,
            answerer: Side::Wasip3,
            subset: Subset::Corpus,
        },
        Direction {
            target: "wasip3-guest-x-wasmtime",
            offerer: Side::Wasip3,
            answerer: Side::Wasmtime,
            subset: Subset::Corpus,
        },
    ]
}

/// The directions.
pub fn directions() -> (r: Vec<Direction>)
    ensures
        r@ == all_directions(),
{
    let list: Vec<Direction> = vec![
        Direction {
            target: "wasmtime-x-reference",
            offerer: Side::Wasmtime,
            answerer: Side::Reference,
            subset: Subset::Corpus,
        },
        Direction {
            target: "reference-x-wasmtime",
            offerer: Side::Reference,
            answerer: Side::Wasmtime,
            subset: Subset::Corpus,
        },
        Direction {
            target: "jco-node-x-reference",
            offerer: Side::JcoNode,
            answerer: Side::Reference,
            subset: Subset::Corpus,
        },
        Direction {
            target: "reference-x-jco-node",
            offerer: Side::Reference,
            answerer: Side::JcoNode,
            subset: Subset::Corpus,
        },
        Direction {
            target: "jco-browser-x-reference",
            offerer: Side::JcoBrowser,
            answerer: Side::Reference,
            subset: Subset::Handshake,
        },
        Direction {
            target: "reference-x-jco-browser",
            offerer: Side::Reference,
            answerer: Side::JcoBrowser,
            subset: Subset::Handshake,
        },
        Direction {
            target: "wasip3-guest-x-reference",
            offerer: Side::Wasip3,
            answerer: Side::Reference,
            subset: Subset::Corpus,
        },
        Direction {
            target: "reference-x-wasip3-guest",
            offerer: Side::Reference,
            answerer: Side::Wasip3,
            subset: Subset::Corpus,
        },
        Direction {
            target: "reference",
            offerer: Side::Reference,
            answerer: Side::Reference,
            subset: Subset::Corpus,
        },
        Direction {
            target: "wasmtime-x-jco-node",
            offerer: Side::Wasmtime,
            answerer: Side::JcoNode,
            subset: Subset::Corpus,
        },
        Direction {
            target: "jco-node-x-wasmtime",
            offerer: Side::JcoNode,
            answerer: Side::Wasmtime,
            subset: Subset::Corpus,
        },
        Direction {
            target: "wasmtime-x-wasip3-guest",
            offerer: Side::Wasmtime,
            answerer: Side::Wasip3,
            subset: Subset::Corpus,
        },
        Direction {
            target: "wasip3-guest-x-wasmtime",
            offerer: Side::Wasip3,
            answerer: Side::Wasmtime,
            subset: Subset::Corpus,
        },
    ];
    assert(list@ =~= all_directions());
    list
}

/// Whether a run takes a direction: it is one of the wanted pairs, and one of its tests
/// is wanted. An empty filter wants all.
pub open spec fn is_wanted(
    direction: Direction,
    pairs: Seq<Seq<char>>,
    only: Seq<Seq<char>>,
) -> bool {
    &&& pairs.len() == 0 || pairs.contains(direction.target@)
    &&& only.len() == 0 || exists|i: int|
        0 <= i < tests_in(direction.subset).len() && only.contains(
            #[trigger] tests_in(direction.subset)[i],
        )
}

fn wants(direction: &Direction, pairs: &[String], only: &[String]) -> (r: bool)
    ensures
        r == is_wanted(*direction, views(pairs@), views(only@)),
{
    assert(views(pairs@).len() == pairs@.len());
    assert(views(only@).len() == only@.len());
    if pairs.len() > 0 && !holds(pairs, direction.target) {
        return false;
    }
    if only.len() == 0 {
        return true;
    }
    let tests = tests_of(direction.subset);
    let ghost all = tests_in(direction.subset);
    let mut i: usize = 0;
    while i < tests.len()
        invariant
            i <= tests@.len(),
            all == str_views(tests@),
            all == tests_in(direction.subset),
            all.len() == tests@.len(),
            forall|k: int| 0 <= k < i ==> !views(only@).contains(#[trigger] all[k]),
            pairs@.len() == 0 || views(pairs@).contains(direction.target@),
            views(pairs@).len() == pairs@.len(),
            views(only@).len() == only@.len(),
            only@.len() > 0,
        decreases tests@.len() - i,
    {
        assert(all[i as int] == tests@[i as int]@);
        if holds(only, tests[i]) {
            return true;
        }
        i += 1;
    }
    false
}

/// The directions a run takes, in their order. A test filter that misses a direction's
/// tests altogether leaves the direction out rather than failing the run.
pub fn select_directions(pairs: &[String], only: &[String]) -> (r: Vec<Direction>)
    ensures
        r@ == all_directions().filter(
            |d: Direction| is_wanted(d, views(pairs@), views(only@)),
        ),
{
    let all = directions();
    let ghost pred = |d: Direction| is_wanted(d, views(pairs@), views(only@));
    let mut taken: Vec<Direction> = Vec::new();
    let mut i: usize = 0;
    assert(taken@ =~= all@.take(0).filter(pred)) by {
        reveal(Seq::filter);
    }
    while i < all.len()
        invariant
            i <= all@.len(),
            pred == (|d: Direction| is_wanted(d, views(pairs@), views(only@))),
            taken@ == all@.take(i as int).filter(pred),
        decreases all@.len() - i,
    {
        proof {
            reveal(Seq::filter);
            assert(all@.take(i + 1).drop_last() =~= all@.take(i as int));
            assert(all@.take(i + 1).last() == all@[i as int]);
        }
        if wants(&all[i], pairs, only) {
            taken.push(all[i]);
        }
        i += 1;
    }
    assert(all@.take(all@.len() as int) =~= all@);
    taken
}

/// The line that announces a direction.
pub fn banner(target: &str) -> (r: String)
    ensures
        r@ == "== interop "@ + target@ + " =="@,
{
    "== interop ".to_owned().concat(target).concat(" ==")
}

// ----- one attempt ---------------------------------------------------------------------

/// What both sides of an attempt share.
#[derive(Debug)]
pub struct Attempt {
    pub base_url: String,
    pub test_id: String,
    pub room: String,
    pub count: u32,
    pub size: u32,
}

/// The room of the attempt with a sequence number.
pub open spec fn attempt_room(target: Seq<char>, test_id: Seq<char>, seq: nat) -> Seq<char> {
    "interop-"@ + target + "-"@ + test_id + "-"@ + decimal(seq)
}

/// Set up an attempt: a room of its own, and the test's workload.
pub fn attempt(target: &str, test_id: &str, base_url: &str, seq: u64) -> (r: Attempt)
    ensures
        r.base_url@ == base_url@,
        r.test_id@ == test_id@,
        r.room@ == attempt_room(target@, test_id@, seq as nat),
        (r.count, r.size) == workload(test_id@),
{
    let (count, size) = params_for(test_id);
    Attempt {
        base_url: base_url.to_owned(),
        test_id: test_id.to_owned(),
        room: "interop-".to_owned().concat(target).concat("-").concat(test_id).concat("-").concat(
            decimal_text(seq).as_str(),
        ),
        count,
        size,
    }
}

/// Where the out-of-process peers are.
#[derive(Debug)]
pub struct PeerPaths {
    pub node_bin: String,
    pub jco_run_node: String,
    pub jco_run_browser: String,
    pub reference_peer: String,
    pub wasmtime_bin: String,
    pub wasip3_component: String,
}

/// How one side of an attempt is run.
#[derive(Debug)]
pub enum Launch {
    /// In this process.
    InProcess,
    /// As a composed component under its runner.
    Composed { wasmtime_bin: String, component: String },
    /// As a process, whose last line of output is its result.
    Process { program: String, args: Vec<String>, label: String },
}

/// How one side of an attempt is run.
pub enum LaunchView {
    InProcess,
    Composed { wasmtime_bin: Seq<char>, component: Seq<char> },
    Process { program: Seq<char>, args: Seq<Seq<char>>, label: Seq<char> },
}

impl View for Launch {
    type V = LaunchView;

    open spec fn view(&self) -> LaunchView {
        match self {
            Launch::InProcess => LaunchView::InProcess,
            Launch::Composed { wasmtime_bin, component } => LaunchView::Composed {
                wasmtime_bin: wasmtime_bin@,
                component: component@,
            },
            Launch::Process { program, args, label } => LaunchView::Process {
                program: program@,
                args: views(args@),
                label: label@,
            },
        }
    }
}

/// The arguments every out-of-process peer takes.
pub open spec fn shared_words(attempt: Attempt, role: PeerRole) -> Seq<Seq<char>> {
    seq![
        "--server"@,
        attempt.base_url@,
        "--test"@,
        attempt.test_id@,
        "--room"@,
        attempt.room@,
        "--role"@,
        role.named(),
        "--message-count"@,
        decimal(attempt.count as nat),
        "--message-size"@,
        decimal(attempt.size as nat),
    ]
}

/// What a side is called.
pub open spec fn side_named(side: Side) -> Seq<char> {
    match side {
        Side::Wasmtime => "wasmtime"@,
        Side::JcoNode => "jco-node"@,
        Side::JcoBrowser => "jco-browser"@,
        Side::Wasip3 => "wasip3-guest"@,
        Side::Reference => "reference"@,
    }
}

/// A peer's name in errors.
pub open spec fn peer_label(side: Side, attempt: Attempt, role: PeerRole) -> Seq<char> {
    side_named(side) + " peer "@ + attempt.test_id@ + "/"@ + role.named()
}

/// How one side of an attempt is run in a role.
pub open spec fn launched(
    paths: PeerPaths,
    side: Side,
    attempt: Attempt,
    role: PeerRole,
) -> LaunchView {
    match side {
        Side::Wasmtime => LaunchView::InProcess,
        Side::Wasip3 => LaunchView::Composed {
            wasmtime_bin: paths.wasmtime_bin@,
            component: paths.wasip3_component@,
        },
        Side::JcoNode => LaunchView::Process {
            program: paths.node_bin@,
            args: seq!["--experimental-wasm-jspi"@, paths.jco_run_node@, "--interop"@]
                + shared_words(attempt, role),
            label: peer_label(side, attempt, role),
        },
        Side::JcoBrowser => LaunchView::Process {
            program: paths.node_bin@,
            args: seq![paths.jco_run_browser@, "--interop"@] + shared_words(attempt, role),
            label: peer_label(side, attempt, role),
        },
        Side::Reference => LaunchView::Process {
            program: paths.reference_peer@,
            args: shared_words(attempt, role),
            label: peer_label(side, attempt, role),
        },
    }
}

/// The arguments every out-of-process peer takes.
pub fn shared_args(attempt: &Attempt, role: PeerRole) -> (r: Vec<String>)
    ensures
        views(r@) == shared_words(*attempt, role),
{
    let count = decimal_text(attempt.count as u64);
    let size = decimal_text(attempt.size as u64);
    let parts: [&str; 12] = [
        "--server",
        attempt.base_url.as_str(),
        "--test",
        attempt.test_id.as_str(),
        "--room",
        attempt.room.as_str(),
        "--role",
        role.name(),
        "--message-count",
        count.as_str(),
        "--message-size",
        size.as_str(),
    ];
    let args = strings(&parts);
    assert(views(args@) =~= shared_words(*attempt, role));
    args
}

/// The name of a peer in errors.
pub fn label_of(side: Side, attempt: &Attempt, role: PeerRole) -> (r: String)
    ensures
        r@ == peer_label(side, *attempt, role),
{
    let kind = match side {
        Side::Wasmtime => "wasmtime",
        Side::JcoNode => "jco-node",
        Side::JcoBrowser => "jco-browser",
        Side::Wasip3 => "wasip3-guest",
        Side::Reference => "reference",
    };
    kind.to_owned().concat(" peer ").concat(attempt.test_id.as_str()).concat("/").concat(
        role.name(),
    )
}

fn with_shared(first: Vec<String>, attempt: &Attempt, role: PeerRole) -> (r: Vec<String>)
    ensures
        views(r@) == views(first@) + shared_words(*attempt, role),
{
    let ghost a = views(first@);
    let mut args = first;
    let mut rest = shared_args(attempt, role);
    let ghost b = views(rest@);
    args.append(&mut rest);
    assert(views(args@) =~= a + b);
    args
}

/// How one side of an attempt is run in a role.
pub fn launch(paths: &PeerPaths, side: Side, attempt: &Attempt, role: PeerRole) -> (r: Launch)
    ensures
        r@ == launched(*paths, side, *attempt, role),
{
    match side {
        Side::Wasmtime => Launch::InProcess,
        Side::Wasip3 => Launch::Composed {
            wasmtime_bin: paths.wasmtime_bin.clone(),
            component: paths.wasip3_component.clone(),
        },
        Side::JcoNode => {
            let parts: [&str; 3] = [
                "--experimental-wasm-jspi",
                paths.jco_run_node.as_str(),
                "--interop",
            ];
            let first = strings(&parts);
            assert(views(first@) =~= seq![
                "--experimental-wasm-jspi"@,
                paths.jco_run_node@,
                "--interop"@,
            ]);
            Launch::Process {
                program: paths.node_bin.clone(),
                args: with_shared(first, attempt, role),
                label: label_of(side, attempt, role),
            }
        },
        Side::JcoBrowser => {
            let parts: [&str; 2] = [paths.jco_run_browser.as_str(), "--interop"];
            let first = strings(&parts);
            assert(views(first@) =~= seq![paths.jco_run_browser@, "--interop"@]);
            Launch::Process {
                program: paths.node_bin.clone(),
                args: with_shared(first, attempt, role),
                label: label_of(side, attempt, role),
            }
        },
        Side::Reference => Launch::Process {
            program: paths.reference_peer.clone(),
            args: shared_args(attempt, role),
            label: label_of(side, attempt, role),
        },
    }
}

/// What an attempt comes to whose sides came to this: an error of a side names the side,
/// the offerer's first; otherwise the two outcomes are folded.
pub open spec fn attempt_result(
    offerer: Result<OutcomeView, Seq<char>>,
    answerer: Result<OutcomeView, Seq<char>>,
) -> Result<OutcomeView, Seq<char>> {
    match offerer {
        Err(error) => Err("offerer peer: "@ + error),
        Ok(offerer) => match answerer {
            Err(error) => Err("answerer peer: "@ + error),
            Ok(answerer) => Ok(folded(offerer, answerer)),
        },
    }
}

/// Combine what the two sides of an attempt came to.
pub fn fold_sides(
    offerer: Result<TestOutcome, String>,
    answerer: Result<TestOutcome, String>,
) -> (r: Result<TestOutcome, String>)
    ensures
        outcome_view(r) == attempt_result(outcome_view(offerer), outcome_view(answerer)),
{
    match offerer {
        Err(error) => Err("offerer peer: ".to_owned().concat(error.as_str())),
        Ok(offerer) => match answerer {
            Err(error) => Err("answerer peer: ".to_owned().concat(error.as_str())),
            Ok(answerer) => Ok(fold_two(offerer, answerer)),
        },
    }
}

// ----- laws ----------------------------------------------------------------------------

/// Whether two directions anchor a side against the reference peer: one in either
/// order, over the same tests.
pub open spec fn anchors(side: Side, i: int, j: int) -> bool {
    &&& 0 <= i < all_directions().len()
    &&& 0 <= j < all_directions().len()
    &&& all_directions()[i].offerer == side
    &&& all_directions()[i].answerer == Side::Reference
    &&& all_directions()[j].offerer == Side::Reference
    &&& all_directions()[j].answerer == side
    &&& all_directions()[i].subset == all_directions()[j].subset
}

/// Every runtime meets the reference peer in both orders, over the same tests.
pub proof fn every_side_is_anchored(side: Side)
    ensures
        exists|i: int, j: int| #[trigger] anchors(side, i, j),
{
    match side {
        Side::Wasmtime => {
            assert(anchors(side, 0, 1));
        },
        Side::JcoNode => {
            assert(anchors(side, 2, 3));
        },
        Side::JcoBrowser => {
            assert(anchors(side, 4, 5));
        },
        Side::Wasip3 => {
            assert(anchors(side, 6, 7));
        },
        Side::Reference => {
            assert(anchors(side, 8, 8));
        },
    }
}

proof fn lemma_numbered(a: Seq<char>, m: nat, b: Seq<char>, n: nat)
    requires
        a + "-"@ + decimal(m) == b + "-"@ + decimal(n),
        decimal(m).len() <= decimal(n).len(),
    ensures
        m == n,
{
    reveal_strlit("-");
    let left = a + "-"@ + decimal(m);
    let right = b + "-"@ + decimal(n);
    numeral_reads_back(m);
    numeral_reads_back(n);
    if decimal(m).len() < decimal(n).len() {
        let dash = left.len() - decimal(m).len() - 1;
        assert(left[dash] == '-');
        assert(right[dash] == decimal(n)[dash - b.len() - 1]);
        assert(false);
    }
    assert forall|i: int| 0 <= i < decimal(m).len() implies decimal(m)[i] == decimal(n)[i] by {
        let at = left.len() - decimal(m).len() + i;
        assert(left[at] == decimal(m)[i]);
        assert(right[at] == decimal(n)[i]);
    }
    assert(decimal(m) =~= decimal(n));
}

/// Every attempt has a room of its own: attempts with different sequence numbers never
/// share one, whatever they run.
pub proof fn attempts_do_not_share_rooms(
    target: Seq<char>,
    test_id: Seq<char>,
    seq: nat,
    other_target: Seq<char>,
    other_test_id: Seq<char>,
    other_seq: nat,
)
    requires
        seq != other_seq,
    ensures
        attempt_room(target, test_id, seq) != attempt_room(other_target, other_test_id, other_seq),
{
    let a = "interop-"@ + target + "-"@ + test_id;
    let b = "interop-"@ + other_target + "-"@ + other_test_id;
    if a + "-"@ + decimal(seq) == b + "-"@ + decimal(other_seq) {
        if decimal(seq).len() <= decimal(other_seq).len() {
            lemma_numbered(a, seq, b, other_seq);
        } else {
            lemma_numbered(b, other_seq, a, seq);
        }
    }
}

/// An attempt passes exactly if both of its sides came to a pass; where a side came to an error
/// the attempt is an error, and names the side.
pub proof fn attempt_needs_both_sides(
    offerer: Result<OutcomeView, Seq<char>>,
    answerer: Result<OutcomeView, Seq<char>>,
)
    ensures
        (attempt_result(offerer, answerer) matches Ok(outcome) && outcome is Pass) <==> (
        offerer matches Ok(a) && a is Pass) && (answerer matches Ok(b) && b is Pass),
        attempt_result(offerer, answerer) is Err <==> offerer is Err || answerer is Err,
        offerer matches Err(error) ==> attempt_result(offerer, answerer) == Err::<
            OutcomeView,
            Seq<char>,
        >("offerer peer: "@ + error),
        offerer is Ok ==> (answerer matches Err(error) ==> attempt_result(offerer, answerer)
            == Err::<OutcomeView, Seq<char>>("answerer peer: "@ + error)),
{
}

/// Both sides of an attempt are told the same server, test, room and workload, each under its
/// own role, and both in the same words.
pub proof fn sides_are_told_the_same(attempt: Attempt, role: PeerRole)
    ensures
        ({
            let words = shared_words(attempt, role);
            &&& words.len() == 12
            &&& words[0] == "--server"@ && words[1] == attempt.base_url@
            &&& words[2] == "--test"@ && words[3] == attempt.test_id@
            &&& words[4] == "--room"@ && words[5] == attempt.room@
            &&& words[6] == "--role"@ && words[7] == if role is Offerer {
                "offerer"@
            } else {
                "answerer"@
            }
            &&& words[8] == "--message-count"@ && words[9] == decimal(attempt.count as nat)
            &&& words[10] == "--message-size"@ && words[11] == decimal(attempt.size as nat)
            &&& forall|i: int|
                0 <= i < 12 && i != 7 ==> #[trigger] words[i] == shared_words(
                    attempt,
                    role.across(),
                )[i]
        }),
{
}

/// Each side is run by its own program: the native guest in this process, the composed provider
/// under its runner, the Node hosts and the reference peer as processes; every process ends with
/// what both sides are told, and is named by its side, its test and its role.
pub proof fn sides_are_run_by_their_programs(
    paths: PeerPaths,
    side: Side,
    attempt: Attempt,
    role: PeerRole,
)
    ensures
        launched(paths, side, attempt, role) is InProcess <==> side is Wasmtime,
        launched(paths, side, attempt, role) is Composed <==> side is Wasip3,
        side is Wasip3 ==> launched(paths, side, attempt, role) == (LaunchView::Composed {
            wasmtime_bin: paths.wasmtime_bin@,
            component: paths.wasip3_component@,
        }),
        launched(paths, side, attempt, role) matches LaunchView::Process { program, args, label }
            ==> {
            &&& program == if side is Reference {
                paths.reference_peer@
            } else {
                paths.node_bin@
            }
            &&& args.len() >= 12
            &&& args.skip(args.len() - 12) == shared_words(attempt, role)
            &&& side is Reference ==> args.len() == 12
            &&& side is JcoNode ==> args.contains(paths.jco_run_node@) && args.contains(
                "--interop"@,
            )
            &&& side is JcoBrowser ==> args.contains(paths.jco_run_browser@) && args.contains(
                "--interop"@,
            )
            &&& label == side_named(side) + " peer "@ + attempt.test_id@ + "/"@ + role.named()
        },
{
    if let LaunchView::Process { args, .. } = launched(paths, side, attempt, role) {
        assert(args.skip(args.len() - 12) =~= shared_words(attempt, role));
        if side is JcoNode {
            assert(args[1] == paths.jco_run_node@ && args[2] == "--interop"@);
        }
        if side is JcoBrowser {
            assert(args[0] == paths.jco_run_browser@ && args[1] == "--interop"@);
        }
    }
}

/// A direction is named after its sides, the offerer first; one that boots a browser runs the
/// handshake only, and every other the whole two-peer corpus.
pub proof fn directions_are_what_they_say(i: int)
    requires
        0 <= i < all_directions().len(),
    ensures
        ({
            let d = all_directions()[i];
            &&& d.offerer == d.answerer ==> d.target@ == side_named(d.offerer)
            &&& d.offerer != d.answerer ==> d.target@ == side_named(d.offerer) + "-x-"@
                + side_named(d.answerer)
            &&& d.subset is Handshake <==> d.offerer is JcoBrowser || d.answerer is JcoBrowser
        }),
        tests_in(Subset::Corpus) == str_views(TWO_PEER_TESTS@),
        tests_in(Subset::Handshake) == seq!["interop-handshake"@],
{
    reveal_strlit("wasmtime-x-reference");
    reveal_strlit("reference-x-wasmtime");
    reveal_strlit("jco-node-x-reference");
    reveal_strlit("reference-x-jco-node");
    reveal_strlit("jco-browser-x-reference");
    reveal_strlit("reference-x-jco-browser");
    reveal_strlit("wasip3-guest-x-reference");
    reveal_strlit("reference-x-wasip3-guest");
    reveal_strlit("wasmtime-x-jco-node");
    reveal_strlit("jco-node-x-wasmtime");
    reveal_strlit("wasmtime-x-wasip3-guest");
    reveal_strlit("wasip3-guest-x-wasmtime");
    reveal_strlit("wasmtime");
    reveal_strlit("reference");
    reveal_strlit("jco-node");
    reveal_strlit("jco-browser");
    reveal_strlit("wasip3-guest");
    reveal_strlit("-x-");
    let d = all_directions()[i];
    if d.offerer != d.answerer {
        assert(d.target@ =~= side_named(d.offerer) + "-x-"@ + side_named(d.answerer));
    }
    assert(tests_in(Subset::Handshake) =~= seq!["interop-handshake"@]);
}

/// A direction is taken exactly if no pair is named or it is, and no test is named or one of its
/// own is.
pub proof fn directions_are_taken_as_wanted(
    direction: Direction,
    pairs: Seq<Seq<char>>,
    only: Seq<Seq<char>>,
    test_id: Seq<char>,
)
    ensures
        is_wanted(direction, Seq::empty(), Seq::empty()),
        pairs.len() > 0 && !pairs.contains(direction.target@) ==> !is_wanted(
            direction,
            pairs,
            only,
        ),
        pairs.contains(direction.target@) ==> is_wanted(direction, pairs, Seq::empty()),
        tests_in(direction.subset).contains(test_id) && only.contains(test_id) ==> is_wanted(
            direction,
            Seq::empty(),
            only,
        ),
        only.len() > 0 && (forall|id: Seq<char>| #[trigger]
            tests_in(direction.subset).contains(id) ==> !only.contains(id)) ==> !is_wanted(
            direction,
            pairs,
            only,
        ),
{
    let tests = tests_in(direction.subset);
    if tests.contains(test_id) && only.contains(test_id) {
        let k = choose|k: int| 0 <= k < tests.len() && tests[k] == test_id;
        assert(only.contains(tests[k]));
    }
    if is_wanted(direction, pairs, only) && only.len() > 0 {
        let k = choose|k: int| 0 <= k < tests.len() && only.contains(#[trigger] tests[k]);
        assert(tests.contains(tests[k]));
    }
}

} // verus!
