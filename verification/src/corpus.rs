//! The test corpus: the registered test ids, how each test is orchestrated, the
//! workload it runs with, and the selection and bookkeeping around a corpus run.

use vstd::prelude::*;

use crate::outcome::RawStatus;
use crate::text::{
    before, holds, holds_str, join, join_strs, joined, lemma_before_irreflexive, lemma_before_total,
    lemma_before_transitive, precedes, same, str_views, views,
};

verus! {

// ----- registry ------------------------------------------------------------------------

/// The registry of test ids.
pub const TESTS: [&'static str; 37] = [
    "label-round-trip",
    "binary-message",
    "text-message",
    "message-boundaries",
    "zero-length-message",
    "large-message",
    "ordering",
    "payload-integrity",
    "concurrent-send-receive",
    "send-via-stream",
    "receive-via-stream",
    "receive-via-stream-once",
    "post-close-send",
    "receive-buffer-overflow",
    "max-retransmits-accepted",
    "error-invalid-signaling",
    "error-closed",
    "error-timed-out",
    "peer-offer-answer",
    "peer-create-data-channel",
    "peer-local-ice-candidates",
    "peer-add-ice-candidate",
    "peer-wait-connected",
    "peer-wait-connected-latch",
    "peer-streams-once",
    "post-close-signaling",
    "peer-close-releases",
    "peer-invalid-sdp",
    "interop-handshake",
    "config-defaults",
    "config-setters-contract",
    "config-invalid-ice-server",
    "connection-state-changes",
    "channel-state-changes",
    "channel-post-close-receive",
    "channel-drop-implies-close",
    "channel-close-flush",
];

/// The two-peer behavioral subset of [`TESTS`]: the tests whose outcome depends
/// on a working data channel between two independent peers.
pub const TWO_PEER_TESTS: [&'static str; 12] = [
    "label-round-trip",
    "binary-message",
    "text-message",
    "message-boundaries",
    "zero-length-message",
    "large-message",
    "ordering",
    "payload-integrity",
    "concurrent-send-receive",
    "max-retransmits-accepted",
    "interop-handshake",
    "channel-close-flush",
];

/// The tests that run in a single instance, which stands up both peers (or a lone
/// one) itself.
pub const IN_PROCESS_TESTS: [&'static str; 25] = [
    "peer-offer-answer",
    "peer-create-data-channel",
    "peer-local-ice-candidates",
    "peer-add-ice-candidate",
    "peer-wait-connected",
    "peer-wait-connected-latch",
    "peer-streams-once",
    "post-close-signaling",
    "peer-close-releases",
    "peer-invalid-sdp",
    "error-invalid-signaling",
    "error-closed",
    "error-timed-out",
    "post-close-send",
    "receive-buffer-overflow",
    "send-via-stream",
    "receive-via-stream",
    "receive-via-stream-once",
    "config-defaults",
    "config-setters-contract",
    "config-invalid-ice-server",
    "connection-state-changes",
    "channel-state-changes",
    "channel-post-close-receive",
    "channel-drop-implies-close",
];

/// The tests that exchange a sequence of indexed messages.
pub const COUNTED_TESTS: [&'static str; 5] = [
    "message-boundaries",
    "ordering",
    "payload-integrity",
    "concurrent-send-receive",
    "interop-handshake",
];

/// The inbound-buffer bound, in bytes, that adapters configure for the corpus:
/// small enough that `receive-buffer-overflow` overflows it with a small flood.
pub const CONFORMANCE_MAX_INBOUND_BUFFER_BYTES: u32 = 512 * 1024;

/// The per-test hang guard of the loopback adapters, in seconds.
pub const LOOPBACK_TEST_TIMEOUT_SECS: u64 = 90;

/// The environment variable naming the implementations' inbound-buffer bound.
pub const MAX_INBOUND_BUFFER_ENV: &'static str = "WEBRTC_MAX_INBOUND_BUFFER_BYTES";

/// The environment variable that arms a peer's syscall shim inside the simulator.
pub const SHADOW_SYSCALL_SHIM_ENV: &'static str = "CONFORMANCE_SHADOW_SYSCALL_SHIM";

/// The `wasmtime run` invocation prefix shared by every runner of the composed
/// component.
pub const COMPOSED_WASMTIME_RUN_FLAGS: [&'static str; 11] = [
    "run",
    "-W",
    "component-model-async=y",
    "-S",
    "cli",
    "-S",
    "p3",
    "-S",
    "http",
    "-S",
    "inherit-network",
];

/// How a test is orchestrated across guest instances.
#[derive(Debug, Clone, Copy, PartialEq, Eq, Structural)]
pub enum Plan {
    /// A single `both` instance stands up both peers in-process (no signaling).
    InProcess,
    /// Two instances, an offerer and an answerer, share one signaling room.
    TwoPeer,
}

/// Whether `test_id` is one of [`IN_PROCESS_TESTS`].
pub open spec fn in_process(test_id: Seq<char>) -> bool {
    str_views(IN_PROCESS_TESTS@).contains(test_id)
}

/// The plan a test id calls for: the listed tests run in-process, all others with
/// two peers.
pub open spec fn planned(test_id: Seq<char>) -> Plan {
    if in_process(test_id) {
        Plan::InProcess
    } else {
        Plan::TwoPeer
    }
}

/// The orchestration plan for a test id.
pub fn plan_for(test_id: &str) -> (r: Plan)
    ensures
        r == planned(test_id@),
{
    let listed = IN_PROCESS_TESTS;
    if holds_str(&listed, test_id) {
        Plan::InProcess
    } else {
        Plan::TwoPeer
    }
}

/// The message count and message size a test runs with.
pub open spec fn workload(test_id: Seq<char>) -> (u32, u32) {
    if test_id == "large-message"@ {
        (1, 16384)
    } else if test_id == "receive-buffer-overflow"@ {
        (64, 16384)
    } else if str_views(COUNTED_TESTS@).contains(test_id) {
        (16, 512)
    } else {
        (4, 256)
    }
}

/// The `(message-count, message-size)` a test runs with.
pub fn params_for(test_id: &str) -> (r: (u32, u32))
    ensures
        r == workload(test_id@),
{
    let counted = COUNTED_TESTS;
    if same(test_id, "large-message") {
        (1, 16384)
    } else if same(test_id, "receive-buffer-overflow") {
        (64, 16384)
    } else if holds_str(&counted, test_id) {
        (16, 512)
    } else {
        (4, 256)
    }
}

// ----- laws of the registry ------------------------------------------------------------

/// A fingerprint that tells the registered ids apart.
spec fn mark(id: Seq<char>) -> (nat, char, char) {
    (id.len(), id[0], id[10])
}

proof fn lemma_marks()
    ensures
        mark("label-round-trip"@) == (16nat, 'l', 'd'),
        mark("binary-message"@) == (14nat, 'b', 's'),
        mark("text-message"@) == (12nat, 't', 'g'),
        mark("message-boundaries"@) == (18nat, 'm', 'u'),
        mark("zero-length-message"@) == (19nat, 'z', 'h'),
        mark("large-message"@) == (13nat, 'l', 'a'),
        "ordering"@.len() == 8,
        mark("payload-integrity"@) == (17nat, 'p', 't'),
        mark("concurrent-send-receive"@) == (23nat, 'c', '-'),
        mark("send-via-stream"@) == (15nat, 's', 't'),
        mark("receive-via-stream"@) == (18nat, 'r', 'a'),
        mark("receive-via-stream-once"@) == (23nat, 'r', 'a'),
        mark("post-close-send"@) == (15nat, 'p', '-'),
        mark("receive-buffer-overflow"@) == (23nat, 'r', 'f'),
        mark("max-retransmits-accepted"@) == (24nat, 'm', 's'),
        mark("error-invalid-signaling"@) == (23nat, 'e', 'l'),
        mark("error-closed"@) == (12nat, 'e', 'e'),
        mark("error-timed-out"@) == (15nat, 'e', 'd'),
        mark("peer-offer-answer"@) == (17nat, 'p', '-'),
        mark("peer-create-data-channel"@) == (24nat, 'p', 'e'),
        mark("peer-local-ice-candidates"@) == (25nat, 'p', '-'),
        mark("peer-add-ice-candidate"@) == (22nat, 'p', 'c'),
        mark("peer-wait-connected"@) == (19nat, 'p', 'c'),
        mark("peer-wait-connected-latch"@) == (25nat, 'p', 'c'),
        mark("peer-streams-once"@) == (17nat, 'p', 'm'),
        mark("post-close-signaling"@) == (20nat, 'p', '-'),
        mark("peer-close-releases"@) == (19nat, 'p', '-'),
        mark("peer-invalid-sdp"@) == (16nat, 'p', 'i'),
        mark("interop-handshake"@) == (17nat, 'i', 'n'),
        mark("config-defaults"@) == (15nat, 'c', 'a'),
        mark("config-setters-contract"@) == (23nat, 'c', 't'),
        mark("config-invalid-ice-server"@) == (25nat, 'c', 'a'),
        mark("connection-state-changes"@) == (24nat, 'c', '-'),
        mark("channel-state-changes"@) == (21nat, 'c', 'a'),
        mark("channel-post-close-receive"@) == (26nat, 'c', 's'),
        mark("channel-drop-implies-close"@) == (26nat, 'c', 'o'),
        mark("channel-close-flush"@) == (19nat, 'c', 'o'),
{
    reveal_strlit("label-round-trip");
    reveal_strlit("binary-message");
    reveal_strlit("text-message");
    reveal_strlit("message-boundaries");
    reveal_strlit("zero-length-message");
    reveal_strlit("large-message");
    reveal_strlit("ordering");
    reveal_strlit("payload-integrity");
    reveal_strlit("concurrent-send-receive");
    reveal_strlit("send-via-stream");
    reveal_strlit("receive-via-stream");
    reveal_strlit("receive-via-stream-once");
    reveal_strlit("post-close-send");
    reveal_strlit("receive-buffer-overflow");
    reveal_strlit("max-retransmits-accepted");
    reveal_strlit("error-invalid-signaling");
    reveal_strlit("error-closed");
    reveal_strlit("error-timed-out");
    reveal_strlit("peer-offer-answer");
    reveal_strlit("peer-create-data-channel");
    reveal_strlit("peer-local-ice-candidates");
    reveal_strlit("peer-add-ice-candidate");
    reveal_strlit("peer-wait-connected");
    reveal_strlit("peer-wait-connected-latch");
    reveal_strlit("peer-streams-once");
    reveal_strlit("post-close-signaling");
    reveal_strlit("peer-close-releases");
    reveal_strlit("peer-invalid-sdp");
    reveal_strlit("interop-handshake");
    reveal_strlit("config-defaults");
    reveal_strlit("config-setters-contract");
    reveal_strlit("config-invalid-ice-server");
    reveal_strlit("connection-state-changes");
    reveal_strlit("channel-state-changes");
    reveal_strlit("channel-post-close-receive");
    reveal_strlit("channel-drop-implies-close");
    reveal_strlit("channel-close-flush");
}

proof fn lemma_in_process_marks(id: Seq<char>)
    requires
        in_process(id),
    ensures
        ({
        ||| mark(id) == (17nat, 'p', '-')
        ||| mark(id) == (24nat, 'p', 'e')
        ||| mark(id) == (25nat, 'p', '-')
        ||| mark(id) == (22nat, 'p', 'c')
        ||| mark(id) == (19nat, 'p', 'c')
        ||| mark(id) == (25nat, 'p', 'c')
        ||| mark(id) == (17nat, 'p', 'm')
        ||| mark(id) == (20nat, 'p', '-')
        ||| mark(id) == (19nat, 'p', '-')
        ||| mark(id) == (16nat, 'p', 'i')
        ||| mark(id) == (23nat, 'e', 'l')
        ||| mark(id) == (12nat, 'e', 'e')
        ||| mark(id) == (15nat, 'e', 'd')
        ||| mark(id) == (15nat, 'p', '-')
        ||| mark(id) == (23nat, 'r', 'f')
        ||| mark(id) == (15nat, 's', 't')
        ||| mark(id) == (18nat, 'r', 'a')
        ||| mark(id) == (23nat, 'r', 'a')
        ||| mark(id) == (15nat, 'c', 'a')
        ||| mark(id) == (23nat, 'c', 't')
        ||| mark(id) == (25nat, 'c', 'a')
        ||| mark(id) == (24nat, 'c', '-')
        ||| mark(id) == (21nat, 'c', 'a')
        ||| mark(id) == (26nat, 'c', 's')
        ||| mark(id) == (26nat, 'c', 'o')
        }),
{
    lemma_marks();
    let i = choose|i: int|
        0 <= i < IN_PROCESS_TESTS@.len() && str_views(IN_PROCESS_TESTS@)[i] == id;
    assert(IN_PROCESS_TESTS@[i]@ == id);
    assert(i == 0 || i == 1 || i == 2 || i == 3 || i == 4 || i == 5 || i == 6 || i == 7 || i == 8
        || i == 9 || i == 10 || i == 11 || i == 12 || i == 13 || i == 14 || i == 15 || i == 16
        || i == 17 || i == 18 || i == 19 || i == 20 || i == 21 || i == 22 || i == 23
        || i == 24);
}

proof fn lemma_two_peer_id(i: int)
    requires
        0 <= i < TWO_PEER_TESTS@.len(),
    ensures
        !in_process(TWO_PEER_TESTS@[i]@),
        str_views(TESTS@).contains(TWO_PEER_TESTS@[i]@),
{
    lemma_marks();
    let id = TWO_PEER_TESTS@[i]@;
    if in_process(id) {
        lemma_in_process_marks(id);
    }
    let all = str_views(TESTS@);
    assert(all[0] == "label-round-trip"@);
    assert(all[1] == "binary-message"@);
    assert(all[2] == "text-message"@);
    assert(all[3] == "message-boundaries"@);
    assert(all[4] == "zero-length-message"@);
    assert(all[5] == "large-message"@);
    assert(all[6] == "ordering"@);
    assert(all[7] == "payload-integrity"@);
    assert(all[8] == "concurrent-send-receive"@);
    assert(all[14] == "max-retransmits-accepted"@);
    assert(all[28] == "interop-handshake"@);
    assert(all[36] == "channel-close-flush"@);
    assert(i == 0 || i == 1 || i == 2 || i == 3 || i == 4 || i == 5 || i == 6 || i == 7 || i == 8
        || i == 9 || i == 10 || i == 11);
}

/// Every two-peer test is registered and is planned with two peers.
pub proof fn two_peer_tests_are_planned_two_peer(test_id: Seq<char>)
    requires
        str_views(TWO_PEER_TESTS@).contains(test_id),
    ensures
        str_views(TESTS@).contains(test_id),
        planned(test_id) == Plan::TwoPeer,
{
    let i = choose|i: int|
        0 <= i < TWO_PEER_TESTS@.len() && str_views(TWO_PEER_TESTS@)[i] == test_id;
    assert(TWO_PEER_TESTS@[i]@ == test_id);
    lemma_two_peer_id(i);
}

/// Every registered test is either one of the in-process tests or one of the
/// two-peer tests, and its plan says which.
pub proof fn registry_splits_by_plan(test_id: Seq<char>)
    requires
        str_views(TESTS@).contains(test_id),
    ensures
        planned(test_id) == Plan::TwoPeer <==> str_views(TWO_PEER_TESTS@).contains(test_id),
        planned(test_id) == Plan::InProcess <==> str_views(IN_PROCESS_TESTS@).contains(test_id),
{
    let i = choose|i: int| 0 <= i < TESTS@.len() && str_views(TESTS@)[i] == test_id;
    assert(TESTS@[i]@ == test_id);
    let two = str_views(TWO_PEER_TESTS@);
    let one = str_views(IN_PROCESS_TESTS@);
    assert(two[0] == "label-round-trip"@);
    assert(two[1] == "binary-message"@);
    assert(two[2] == "text-message"@);
    assert(two[3] == "message-boundaries"@);
    assert(two[4] == "zero-length-message"@);
    assert(two[5] == "large-message"@);
    assert(two[6] == "ordering"@);
    assert(two[7] == "payload-integrity"@);
    assert(two[8] == "concurrent-send-receive"@);
    assert(two[9] == "max-retransmits-accepted"@);
    assert(two[10] == "interop-handshake"@);
    assert(two[11] == "channel-close-flush"@);
    assert(one[0] == "peer-offer-answer"@);
    assert(one[1] == "peer-create-data-channel"@);
    assert(one[2] == "peer-local-ice-candidates"@);
    assert(one[3] == "peer-add-ice-candidate"@);
    assert(one[4] == "peer-wait-connected"@);
    assert(one[5] == "peer-wait-connected-latch"@);
    assert(one[6] == "peer-streams-once"@);
    assert(one[7] == "post-close-signaling"@);
    assert(one[8] == "peer-close-releases"@);
    assert(one[9] == "peer-invalid-sdp"@);
    assert(one[10] == "error-invalid-signaling"@);
    assert(one[11] == "error-closed"@);
    assert(one[12] == "error-timed-out"@);
    assert(one[13] == "post-close-send"@);
    assert(one[14] == "receive-buffer-overflow"@);
    assert(one[15] == "send-via-stream"@);
    assert(one[16] == "receive-via-stream"@);
    assert(one[17] == "receive-via-stream-once"@);
    assert(one[18] == "config-defaults"@);
    assert(one[19] == "config-setters-contract"@);
    assert(one[20] == "config-invalid-ice-server"@);
    assert(one[21] == "connection-state-changes"@);
    assert(one[22] == "channel-state-changes"@);
    assert(one[23] == "channel-post-close-receive"@);
    assert(one[24] == "channel-drop-implies-close"@);
    assert(i == 0 || i == 1 || i == 2 || i == 3 || i == 4 || i == 5 || i == 6 || i == 7 || i == 8
        || i == 9 || i == 10 || i == 11 || i == 12 || i == 13 || i == 14 || i == 15 || i == 16
        || i == 17 || i == 18 || i == 19 || i == 20 || i == 21 || i == 22 || i == 23
        || i == 24 || i == 25 || i == 26 || i == 27 || i == 28 || i == 29 || i == 30
        || i == 31 || i == 32 || i == 33 || i == 34 || i == 35 || i == 36);
    if two.contains(test_id) {
        two_peer_tests_are_planned_two_peer(test_id);
    }
}

/// The overflow probe floods twice the inbound-buffer bound that the corpus is
/// configured with, so the receiving side must overflow.
pub proof fn overflow_flood_exceeds_bound()
    ensures
        workload("receive-buffer-overflow"@).0 * workload("receive-buffer-overflow"@).1 == 2
            * CONFORMANCE_MAX_INBOUND_BUFFER_BYTES,
{
    lemma_marks();
}

// ----- running a corpus ----------------------------------------------------------------

/// Whether an `only` filter lets a test id through: an empty filter lets all.
pub open spec fn lets_through(only: Seq<Seq<char>>, test_id: Seq<char>) -> bool {
    only.len() == 0 || only.contains(test_id)
}

/// The tests an `only` filter selects, in registry order.
pub open spec fn selection(tests: Seq<Seq<char>>, only: Seq<Seq<char>>) -> Seq<Seq<char>> {
    tests.filter(|id: Seq<char>| lets_through(only, id))
}

/// The tests that `only` selects, in registry order. An `only` filter that selects
/// nothing is an error, which names the registered ids.
pub fn select_tests(tests: &[&'static str], only: &[String]) -> (r: Result<
    Vec<&'static str>,
    String,
>)
    ensures
        match r {
            Ok(selected) => {
                &&& str_views(selected@) == selection(str_views(tests@), views(only@))
                &&& selected@.len() > 0
            },
            Err(error) => {
                &&& selection(str_views(tests@), views(only@)).len() == 0
                &&& error@ == "--only selected no tests (registered: "@ + joined(
                    str_views(tests@),
                    ", "@,
                ) + ")"@
            },
        },
{
    let ghost all = str_views(tests@);
    let ghost pred = |id: Seq<char>| lets_through(views(only@), id);
    let mut selected: Vec<&'static str> = Vec::new();
    let mut i: usize = 0;
    assert(all.take(0) =~= Seq::<Seq<char>>::empty());
    assert(str_views(selected@) =~= all.take(0).filter(pred)) by {
        reveal(Seq::filter);
    }
    while i < tests.len()
        invariant
            i <= tests@.len(),
            all == str_views(tests@),
            pred == (|id: Seq<char>| lets_through(views(only@), id)),
            str_views(selected@) == all.take(i as int).filter(pred),
        decreases tests@.len() - i,
    {
        let ghost old_selected = str_views(selected@);
        proof {
            reveal(Seq::filter);
            assert(all.take(i + 1).drop_last() =~= all.take(i as int));
            assert(all.take(i + 1).last() == tests@[i as int]@);
        }
        if only.len() == 0 || holds(only, tests[i]) {
            selected.push(tests[i]);
            assert(str_views(selected@) =~= old_selected.push(tests@[i as int]@));
        }
        assert(views(only@).len() == only@.len());
        i += 1;
    }
    assert(all.take(all.len() as int) =~= all);
    assert(str_views(selected@).len() == selected@.len());
    if selected.len() == 0 {
        Err(
            "--only selected no tests (registered: ".to_owned().concat(
                join_strs(tests, ", ").as_str(),
            ).concat(")"),
        )
    } else {
        Ok(selected)
    }
}

/// How many tests may overlap when `jobs` are asked for: at least one.
pub fn overlapping_jobs(jobs: usize) -> (r: usize)
    ensures
        r == if jobs >= 1 { jobs } else { 1 },
{
    if jobs >= 1 {
        jobs
    } else {
        1
    }
}

/// The line that reports a test's raw status as it lands.
pub fn progress_line(test_id: &str, status: RawStatus) -> (r: String)
    ensures
        r@ == test_id@ + " … "@ + match status {
            RawStatus::Pass => "Pass"@,
            RawStatus::Fail => "Fail"@,
            RawStatus::Skip => "Skip"@,
        },
{
    let name = match status {
        RawStatus::Pass => "Pass",
        RawStatus::Fail => "Fail",
        RawStatus::Skip => "Skip",
    };
    test_id.to_owned().concat(" … ").concat(name)
}

/// A multiple of the cores available, clamped to between 2 and `max`. Where the
/// number of cores is unknown, one counts as available.
pub open spec fn scaled(available: Option<usize>, multiplier: nat, max: nat) -> nat {
    let cores: nat = match available {
        Some(n) => n as nat,
        None => 1,
    };
    if cores * multiplier < 2 {
        2
    } else if cores * multiplier > max {
        max
    } else {
        cores * multiplier
    }
}

fn scaled_jobs(available: Option<usize>, multiplier: usize, max: usize) -> (r: usize)
    requires
        2 <= max,
        available matches Some(n) ==> n * multiplier <= usize::MAX,
    ensures
        r == scaled(available, multiplier as nat, max as nat),
{
    let cores: usize = match available {
        Some(n) => n,
        None => 1,
    };
    let jobs: usize = cores * multiplier;
    if jobs < 2 {
        2
    } else if jobs > max {
        max
    } else {
        jobs
    }
}

/// The default `--jobs` for adapters whose tests run in-process or as light
/// subprocesses: 3 times the cores available to the process, clamped to [2, 12].
pub fn default_jobs(available: Option<usize>) -> (r: usize)
    requires
        available matches Some(n) ==> n * 3 <= usize::MAX,
    ensures
        r == scaled(available, 3, 12),
{
    scaled_jobs(available, 3, 12)
}

/// The default `--jobs` for adapters that boot a heavyweight process per attempt:
/// 2 times the available cores, clamped to [2, 8].
pub fn default_jobs_process_heavy(available: Option<usize>) -> (r: usize)
    requires
        available matches Some(n) ==> n * 2 <= usize::MAX,
    ensures
        r == scaled(available, 2, 8),
{
    scaled_jobs(available, 2, 8)
}

// ----- drift between two copies of the corpus ------------------------------------------

/// Whether a list is strictly ascending.
pub open spec fn ascending(list: Seq<Seq<char>>) -> bool {
    forall|i: int, j: int|
        0 <= i < j < list.len() ==> before(#[trigger] list[i], #[trigger] list[j])
}

/// Whether `list` holds exactly what `from` holds and `without` does not, each
/// once, in ascending order.
pub open spec fn is_difference(
    list: Seq<Seq<char>>,
    from: Seq<Seq<char>>,
    without: Seq<Seq<char>>,
) -> bool {
    &&& ascending(list)
    &&& forall|x: Seq<char>|
        #[trigger] list.contains(x) <==> from.contains(x) && !without.contains(x)
}

/// What [`is_difference`] describes is unique.
pub proof fn difference_is_unique(
    a: Seq<Seq<char>>,
    b: Seq<Seq<char>>,
    from: Seq<Seq<char>>,
    without: Seq<Seq<char>>,
)
    requires
        is_difference(a, from, without),
        is_difference(b, from, without),
    ensures
        a == b,
{
    assert forall|x: Seq<char>| #[trigger] a.contains(x) <==> b.contains(x) by {}
    lemma_same_ascending(a, b);
}

proof fn lemma_same_ascending(a: Seq<Seq<char>>, b: Seq<Seq<char>>)
    requires
        ascending(a),
        ascending(b),
        forall|x: Seq<char>| #[trigger] a.contains(x) <==> b.contains(x),
    ensures
        a == b,
    decreases a.len(),
{
    if a.len() == 0 {
        if b.len() > 0 {
            assert(b.contains(b[0]));
            assert(a.contains(b[0]));
        }
        assert(a =~= b);
    } else {
        assert(a.contains(a[0]));
        assert(b.contains(a[0]));
        let j = choose|j: int| 0 <= j < b.len() && b[j] == a[0];
        assert(b.contains(b[0]));
        assert(a.contains(b[0]));
        let i = choose|i: int| 0 <= i < a.len() && a[i] == b[0];
        if a[0] != b[0] {
            assert(before(b[0], b[j]));
            assert(before(a[0], a[i]));
            lemma_before_transitive(a[0], b[0], a[0]);
            lemma_before_irreflexive(a[0]);
        }
        let ar = a.drop_first();
        let br = b.drop_first();
        assert forall|x: Seq<char>| #[trigger] ar.contains(x) <==> br.contains(x) by {
            lemma_tail_contains(a, x);
            lemma_tail_contains(b, x);
        }
        assert(ascending(ar)) by {
            assert forall|p: int, q: int| 0 <= p < q < ar.len() implies before(
                #[trigger] ar[p],
                #[trigger] ar[q],
            ) by {
                assert(before(a[p + 1], a[q + 1]));
            }
        }
        assert(ascending(br)) by {
            assert forall|p: int, q: int| 0 <= p < q < br.len() implies before(
                #[trigger] br[p],
                #[trigger] br[q],
            ) by {
                assert(before(b[p + 1], b[q + 1]));
            }
        }
        lemma_same_ascending(ar, br);
        assert(a =~= seq![a[0]] + ar);
        assert(b =~= seq![b[0]] + br);
    }
}

proof fn lemma_tail_contains(s: Seq<Seq<char>>, x: Seq<char>)
    requires
        ascending(s),
        s.len() > 0,
    ensures
        s.drop_first().contains(x) <==> s.contains(x) && x != s[0],
{
    if s.drop_first().contains(x) {
        let k = choose|k: int| 0 <= k < s.drop_first().len() && s.drop_first()[k] == x;
        assert(s[k + 1] == x);
        assert(before(s[0], s[k + 1]));
        lemma_before_irreflexive(x);
    }
    if s.contains(x) && x != s[0] {
        let k = choose|k: int| 0 <= k < s.len() && s[k] == x;
        assert(s.drop_first()[k - 1] == x);
    }
}

/// Put `item` into its place in an ascending list, unless it is there.
fn insert_ascending(list: &mut Vec<String>, item: &str)
    requires
        ascending(views(old(list)@)),
    ensures
        ascending(views(final(list)@)),
        forall|x: Seq<char>| #[trigger]
            views(final(list)@).contains(x) <==> views(old(list)@).contains(x) || x == item@,
{
    let ghost was = views(list@);
    let mut at: usize = 0;
    while at < list.len() && precedes(list[at].as_str(), item)
        invariant
            at <= list@.len(),
            was == views(list@),
            forall|k: int| 0 <= k < at ==> before(#[trigger] was[k], item@),
        decreases list@.len() - at,
    {
        at += 1;
    }
    if at < list.len() && same(list[at].as_str(), item) {
        assert(was[at as int] == item@);
        return;
    }
    proof {
        if at < was.len() {
            lemma_before_total(was[at as int], item@);
        }
        assert forall|k: int| at <= k < was.len() implies before(item@, #[trigger] was[k]) by {
            if k > at {
                lemma_before_transitive(item@, was[at as int], was[k]);
            }
        }
    }
    list.insert(at, item.to_owned());
    proof {
        let now = views(list@);
        assert(now =~= was.insert(at as int, item@));
        assert forall|i: int, j: int| 0 <= i < j < now.len() implies before(
            #[trigger] now[i],
            #[trigger] now[j],
        ) by {
            if j < at {
                assert(before(was[i], was[j]));
            } else if j == at {
                assert(before(was[i], item@));
            } else if i < at {
                assert(before(was[i], was[j - 1]));
            } else if i == at {
                assert(before(item@, was[j - 1]));
            } else {
                assert(before(was[i - 1], was[j - 1]));
            }
        }
        assert forall|x: Seq<char>| #[trigger]
            now.contains(x) <==> was.contains(x) || x == item@ by {
            if was.contains(x) {
                let k = choose|k: int| 0 <= k < was.len() && was[k] == x;
                assert(now[if k < at { k } else { k + 1 }] == x);
            }
            assert(now[at as int] == item@);
            if now.contains(x) && x != item@ {
                let k = choose|k: int| 0 <= k < now.len() && now[k] == x;
                assert(was[if k < at { k } else { k - 1 }] == x);
            }
        }
    }
}

/// The strings of `from` that are not in `without`, each once, in ascending order.
pub fn sorted_difference(from: &[String], without: &[String]) -> (r: Vec<String>)
    ensures
        is_difference(views(r@), views(from@), views(without@)),
{
    let ghost f = views(from@);
    let ghost w = views(without@);
    let mut out: Vec<String> = Vec::new();
    let mut i: usize = 0;
    while i < from.len()
        invariant
            i <= from@.len(),
            f == views(from@),
            w == views(without@),
            ascending(views(out@)),
            forall|x: Seq<char>| #[trigger]
                views(out@).contains(x) <==> f.take(i as int).contains(x) && !w.contains(x),
        decreases from@.len() - i,
    {
        let ghost was = views(out@);
        if !holds(without, from[i].as_str()) {
            insert_ascending(&mut out, from[i].as_str());
        }
        proof {
            let item = from@[i as int]@;
            assert(f.take(i + 1) =~= f.take(i as int).push(item));
            assert forall|x: Seq<char>| #[trigger]
                views(out@).contains(x) <==> f.take(i + 1).contains(x) && !w.contains(x) by {
                assert(was.contains(x) <==> f.take(i as int).contains(x) && !w.contains(x));
                lemma_push_contains(f.take(i as int), item, x);
            }
        }
        i += 1;
    }
    assert(f.take(f.len() as int) =~= f);
    out
}

proof fn lemma_push_contains(s: Seq<Seq<char>>, item: Seq<char>, x: Seq<char>)
    ensures
        s.push(item).contains(x) <==> s.contains(x) || x == item,
{
    if s.contains(x) {
        let k = choose|k: int| 0 <= k < s.len() && s[k] == x;
        assert(s.push(item)[k] == x);
    }
    assert(s.push(item)[s.len() as int] == item);
    if s.push(item).contains(x) && x != item {
        let k = choose|k: int| 0 <= k < s.push(item).len() && s.push(item)[k] == x;
        assert(s[k] == x);
    }
}

/// How an adapter's test list and the guest's differ.
#[derive(Debug, Clone)]
pub struct CorpusDrift {
    /// The ids the guest lists and the adapter does not.
    pub in_guest_only: Vec<String>,
    /// The ids the adapter lists and the guest does not.
    pub in_adapter_only: Vec<String>,
}

impl CorpusDrift {
    /// The error text that names the ids of either side.
    pub fn message(&self) -> (r: String)
        ensures
            r@ == "adapter test list diverges from the guest's list-tests export: "@
                + "in guest but not adapter: ["@ + joined(views(self.in_guest_only@), ", "@)
                + "]; in adapter but not guest: ["@
                + joined(views(self.in_adapter_only@), ", "@) + "]"@,
    {
        "adapter test list diverges from the guest's list-tests export: ".to_owned().concat(
            "in guest but not adapter: [",
        ).concat(join(&self.in_guest_only, ", ").as_str()).concat(
            "]; in adapter but not guest: [",
        ).concat(join(&self.in_adapter_only, ", ").as_str()).concat("]")
    }
}

/// Verify that the guest's `list-tests` ids match an adapter's registered corpus
/// exactly, as sets; otherwise name what either side lacks.
pub fn verify_corpus(guest_ids: &[String], tests: &[&'static str]) -> (r: Result<(), CorpusDrift>)
    ensures
        r is Ok <==> (forall|x: Seq<char>| #[trigger]
            views(guest_ids@).contains(x) <==> str_views(tests@).contains(x)),
        r matches Err(drift) ==> {
            &&& is_difference(views(drift.in_guest_only@), views(guest_ids@), str_views(tests@))
            &&& is_difference(views(drift.in_adapter_only@), str_views(tests@), views(guest_ids@))
        },
{
    let mut local: Vec<String> = Vec::new();
    let mut i: usize = 0;
    while i < tests.len()
        invariant
            i <= tests@.len(),
            local@.len() == i,
            forall|k: int| 0 <= k < i ==> (#[trigger] local@[k])@ == tests@[k]@,
        decreases tests@.len() - i,
    {
        local.push(tests[i].to_owned());
        i += 1;
    }
    let ghost guest = views(guest_ids@);
    let ghost here = str_views(tests@);
    assert(views(local@) =~= here);
    let in_guest_only = sorted_difference(guest_ids, local.as_slice());
    let in_adapter_only = sorted_difference(local.as_slice(), guest_ids);
    assert(views(in_guest_only@).len() == in_guest_only@.len());
    assert(views(in_adapter_only@).len() == in_adapter_only@.len());
    if in_guest_only.len() == 0 && in_adapter_only.len() == 0 {
        assert forall|x: Seq<char>| #[trigger] guest.contains(x) <==> here.contains(x) by {
            assert(!views(in_guest_only@).contains(x));
            assert(!views(in_adapter_only@).contains(x));
        }
        Ok(())
    } else {
        proof {
            if in_guest_only@.len() > 0 {
                let x = views(in_guest_only@)[0];
                assert(views(in_guest_only@).contains(x));
                assert(guest.contains(x) && !here.contains(x));
            } else {
                let x = views(in_adapter_only@)[0];
                assert(views(in_adapter_only@).contains(x));
                assert(!guest.contains(x) && here.contains(x));
            }
        }
        Err(CorpusDrift { in_guest_only, in_adapter_only })
    }
}

// ----- the suite as cases --------------------------------------------------------------

/// The case name of a test: its id under the topology it runs in.
pub open spec fn case_name_of(test_id: Seq<char>) -> Seq<char> {
    match planned(test_id) {
        Plan::InProcess => "solo/"@ + test_id,
        Plan::TwoPeer => "pair/"@ + test_id,
    }
}

/// The case name of a test. The name hierarchy is the execution topology: `solo/`
/// cases run in one instance, `pair/` cases in two role-paired ones.
pub fn case_name(test_id: &str) -> (r: String)
    ensures
        r@ == case_name_of(test_id@),
{
    match plan_for(test_id) {
        Plan::InProcess => "solo/".to_owned().concat(test_id),
        Plan::TwoPeer => "pair/".to_owned().concat(test_id),
    }
}

fn name_cases(ids: &[&'static str]) -> (r: Vec<String>)
    ensures
        views(r@) == str_views(ids@).map_values(|id: Seq<char>| case_name_of(id)),
{
    let mut out: Vec<String> = Vec::new();
    let mut i: usize = 0;
    while i < ids.len()
        invariant
            i <= ids@.len(),
            out@.len() == i,
            forall|k: int| 0 <= k < i ==> (#[trigger] out@[k])@ == case_name_of(ids@[k]@),
        decreases ids@.len() - i,
    {
        out.push(case_name(ids[i]));
        i += 1;
    }
    assert(views(out@) =~= str_views(ids@).map_values(|id: Seq<char>| case_name_of(id)));
    out
}

/// The cases of the pair-only suite, which the interop directions and the network
/// labs run.
pub fn pair_suite_cases() -> (r: Vec<String>)
    ensures
        views(r@) == str_views(TWO_PEER_TESTS@).map_values(|id: Seq<char>| case_name_of(id)),
{
    let ids = TWO_PEER_TESTS;
    name_cases(&ids)
}

/// The cases of the full suite: the `solo/` cases, then the `pair/` cases.
pub fn full_suite_cases() -> (r: Vec<String>)
    ensures
        views(r@) == str_views(IN_PROCESS_TESTS@).map_values(|id: Seq<char>| case_name_of(id))
            + str_views(TWO_PEER_TESTS@).map_values(|id: Seq<char>| case_name_of(id)),
{
    let ids = IN_PROCESS_TESTS;
    let mut all = name_cases(&ids);
    let mut pair = pair_suite_cases();
    let ghost a = views(all@);
    let ghost b = views(pair@);
    all.append(&mut pair);
    assert(views(all@) =~= a + b);
    all
}

// ----- laws of a run -------------------------------------------------------------------

/// A filter selects the registered tests it names, each as often as it is registered and in
/// that order, and an empty one selects all.
pub proof fn selection_is_exact(tests: Seq<Seq<char>>, only: Seq<Seq<char>>, test_id: Seq<char>)
    ensures
        selection(tests, only).contains(test_id) <==> tests.contains(test_id) && (only.len() == 0
            || only.contains(test_id)),
        only.len() == 0 ==> selection(tests, only) == tests,
    decreases tests.len(),
{
    let pred = |id: Seq<char>| lets_through(only, id);
    reveal(Seq::filter);
    if tests.len() > 0 {
        let less = tests.drop_last();
        let last = tests.last();
        selection_is_exact(less, only, test_id);
        let earlier = selection(less, only);
        assert(earlier == less.filter(pred));
        if earlier.contains(test_id) {
            let k = choose|k: int| 0 <= k < earlier.len() && earlier[k] == test_id;
            assert(earlier.push(last)[k] == test_id);
        }
        assert(earlier.push(last).last() == last);
        if less.contains(test_id) {
            let k = choose|k: int| 0 <= k < less.len() && less[k] == test_id;
            assert(tests[k] == test_id);
        }
        assert(tests[tests.len() - 1] == last);
        if only.len() == 0 {
            assert(selection(tests, only) =~= tests);
        }
    } else {
        assert(selection(tests, only) =~= tests);
    }
}

/// The default number of jobs is a multiple of the cores within its bounds, and never leaves
/// them; more cores never mean fewer jobs, and an unknown number of them counts as one.
pub proof fn jobs_scale_within_bounds(cores: usize, more: usize, multiplier: nat, max: nat)
    requires
        2 <= max,
        cores <= more,
    ensures
        2 <= scaled(Some(cores), multiplier, max) <= max,
        2 <= cores * multiplier <= max ==> scaled(Some(cores), multiplier, max) == cores
            * multiplier,
        scaled(Some(cores), multiplier, max) <= scaled(Some(more), multiplier, max),
        scaled(None, multiplier, max) == scaled(Some(1), multiplier, max),
{
    assert(cores * multiplier <= more * multiplier) by (nonlinear_arith)
        requires
            cores <= more,
            multiplier >= 0,
    ;
}

/// A test's case name tells where it runs and which test it is: no two tests share one.
pub proof fn case_names_are_told_apart(test_id: Seq<char>, other: Seq<char>)
    ensures
        case_name_of(test_id) == case_name_of(other) ==> test_id == other,
        case_name_of(test_id).take(5) == if in_process(test_id) {
            "solo/"@
        } else {
            "pair/"@
        },
        case_name_of(test_id).skip(5) == test_id,
{
    reveal_strlit("solo/");
    reveal_strlit("pair/");
    assert(case_name_of(test_id).take(5) =~= if in_process(test_id) {
        "solo/"@
    } else {
        "pair/"@
    });
    assert(case_name_of(test_id).skip(5) =~= test_id);
    assert(case_name_of(other).skip(5) =~= other);
}

/// Every test has messages to send, of at least a payload's header; the counted ones have more,
/// and the large message and the flood are of the largest size.
pub proof fn every_test_has_a_workload(test_id: Seq<char>)
    ensures
        workload(test_id).0 >= 1,
        workload(test_id).1 >= 16,
        workload(test_id).1 > 512 <==> test_id == "large-message"@ || test_id
            == "receive-buffer-overflow"@,
        workload(test_id).0 > 16 <==> test_id == "receive-buffer-overflow"@,
        workload(test_id).0 == 16 <==> test_id != "large-message"@ && test_id
            != "receive-buffer-overflow"@ && str_views(COUNTED_TESTS@).contains(test_id),
{
    lemma_marks();
}

} // verus!
