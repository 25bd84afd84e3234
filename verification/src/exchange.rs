//! The two-peer cases: one half of a pair exchanges payloads with the other over a
//! connected data channel, meets it in a final rendezvous, and leaves.

use vstd::prelude::*;

use crate::corpus::{params_for, workload, TWO_PEER_TESTS};
use crate::json::opt_view;
use crate::lab::PeerRole;
use crate::payload::{corpus, corpus_passes, payload};
use crate::script::{
    call_of, judged, one, phase_views, rounds, skipped, two, Call, Case, CaseView, ErrorKind,
    LaneView, Mismatch, Phase, PhaseView, Refusal, Reply, StateStream, StreamEnd, Task, Watched,
};
use crate::solo::{at_least, raise};
use crate::stimulus::{message_of, Payload, CHANNEL_LABEL};
use crate::text::{debug_quoted, debug_text, same, str_views};
use crate::wire::{Error, MessageView};

verus! {

// ----- scripts -------------------------------------------------------------------------

/// The channel has the negotiated label.
pub open spec fn labelled(me: PeerRole) -> Seq<Task> {
    seq![
        Task::CheckLabel(me),
    ]
}

fn labelled_tasks(me: PeerRole) -> (r: Vec<Task>)
    ensures
        r@ == labelled(me),
{
    let tasks: Vec<Task> = vec![
        Task::CheckLabel(me),
    ];
    assert(tasks@ =~= labelled(me));
    tasks
}

/// A binary message arrives as it was sent.
pub open spec fn binary_message(me: PeerRole) -> Seq<Task> {
    seq![
        Task::Succeed(Call::Send(me, Payload::Digits), "send: "),
        Task::Expect(
            me,
            Payload::Digits,
            Mismatch {
                same_kind: "binary payload mismatch",
                other_kind: "binary message arrived as text",
                shown: false,
            },
        ),
    ]
}

fn binary_message_tasks(me: PeerRole) -> (r: Vec<Task>)
    ensures
        r@ == binary_message(me),
{
    let tasks: Vec<Task> = vec![
        Task::Succeed(Call::Send(me, Payload::Digits), "send: "),
        Task::Expect(
            me,
            Payload::Digits,
            Mismatch {
                same_kind: "binary payload mismatch",
                other_kind: "binary message arrived as text",
                shown: false,
            },
        ),
    ];
    assert(tasks@ =~= binary_message(me));
    tasks
}

/// A text message arrives as it was sent.
pub open spec fn text_message(me: PeerRole) -> Seq<Task> {
    seq![
        Task::Succeed(Call::Send(me, Payload::Greeting), "send: "),
        Task::Expect(
            me,
            Payload::Greeting,
            Mismatch {
                same_kind: "text payload mismatch",
                other_kind: "text message arrived as binary",
                shown: false,
            },
        ),
    ]
}

fn text_message_tasks(me: PeerRole) -> (r: Vec<Task>)
    ensures
        r@ == text_message(me),
{
    let tasks: Vec<Task> = vec![
        Task::Succeed(Call::Send(me, Payload::Greeting), "send: "),
        Task::Expect(
            me,
            Payload::Greeting,
            Mismatch {
                same_kind: "text payload mismatch",
                other_kind: "text message arrived as binary",
                shown: false,
            },
        ),
    ];
    assert(tasks@ =~= text_message(me));
    tasks
}

/// Empty messages arrive, each with its kind.
pub open spec fn zero_length(me: PeerRole) -> Seq<Task> {
    seq![
        Task::Succeed(Call::Send(me, Payload::Empty), "send: "),
        Task::Succeed(Call::Send(me, Payload::EmptyText), "send: "),
        Task::Expect(
            me,
            Payload::Empty,
            Mismatch {
                same_kind: "expected empty binary message",
                other_kind: "expected empty binary message",
                shown: false,
            },
        ),
        Task::Expect(
            me,
            Payload::EmptyText,
            Mismatch {
                same_kind: "expected empty text message",
                other_kind: "expected empty text message",
                shown: false,
            },
        ),
    ]
}

fn zero_length_tasks(me: PeerRole) -> (r: Vec<Task>)
    ensures
        r@ == zero_length(me),
{
    let tasks: Vec<Task> = vec![
        Task::Succeed(Call::Send(me, Payload::Empty), "send: "),
        Task::Succeed(Call::Send(me, Payload::EmptyText), "send: "),
        Task::Expect(
            me,
            Payload::Empty,
            Mismatch {
                same_kind: "expected empty binary message",
                other_kind: "expected empty binary message",
                shown: false,
            },
        ),
        Task::Expect(
            me,
            Payload::EmptyText,
            Mismatch {
                same_kind: "expected empty text message",
                other_kind: "expected empty text message",
                shown: false,
            },
        ),
    ];
    assert(tasks@ =~= zero_length(me));
    tasks
}

/// A large message arrives whole.
pub open spec fn large_message(me: PeerRole, size: u32) -> Seq<Task> {
    seq![
        Task::Succeed(Call::Send(me, Payload::Indexed { index: 0, size }), "send: "),
        Task::Expect(
            me,
            Payload::Indexed { index: 0, size },
            Mismatch {
                same_kind: "large payload mismatch",
                other_kind: "large payload mismatch",
                shown: false,
            },
        ),
    ]
}

fn large_message_tasks(me: PeerRole, size: u32) -> (r: Vec<Task>)
    ensures
        r@ == large_message(me, size),
{
    let tasks: Vec<Task> = vec![
        Task::Succeed(Call::Send(me, Payload::Indexed { index: 0, size }), "send: "),
        Task::Expect(
            me,
            Payload::Indexed { index: 0, size },
            Mismatch {
                same_kind: "large payload mismatch",
                other_kind: "large payload mismatch",
                shown: false,
            },
        ),
    ];
    assert(tasks@ =~= large_message(me, size));
    tasks
}

/// A message arrives over a channel without retransmissions.
pub open spec fn unreliable(me: PeerRole) -> Seq<Task> {
    seq![
        Task::Succeed(Call::Send(me, Payload::Countdown), "send: "),
        Task::Expect(
            me,
            Payload::Countdown,
            Mismatch {
                same_kind: "unreliable channel payload mismatch",
                other_kind: "unreliable channel payload mismatch",
                shown: false,
            },
        ),
    ]
}

fn unreliable_tasks(me: PeerRole) -> (r: Vec<Task>)
    ensures
        r@ == unreliable(me),
{
    let tasks: Vec<Task> = vec![
        Task::Succeed(Call::Send(me, Payload::Countdown), "send: "),
        Task::Expect(
            me,
            Payload::Countdown,
            Mismatch {
                same_kind: "unreliable channel payload mismatch",
                other_kind: "unreliable channel payload mismatch",
                shown: false,
            },
        ),
    ];
    assert(tasks@ =~= unreliable(me));
    tasks
}

/// The corpus is sent.
pub open spec fn sending(me: PeerRole, count: u32, size: u32) -> Seq<Task> {
    seq![
        Task::SendAll { on: me, count, size },
    ]
}

fn sending_tasks(me: PeerRole, count: u32, size: u32) -> (r: Vec<Task>)
    ensures
        r@ == sending(me, count, size),
{
    let tasks: Vec<Task> = vec![
        Task::SendAll { on: me, count, size },
    ];
    assert(tasks@ =~= sending(me, count, size));
    tasks
}

/// The peer's corpus arrives.
pub open spec fn collecting(me: PeerRole, count: u32, ordered: bool) -> Seq<Task> {
    seq![
        Task::ReceiveAll { on: me, count, ordered },
    ]
}

fn collecting_tasks(me: PeerRole, count: u32, ordered: bool) -> (r: Vec<Task>)
    ensures
        r@ == collecting(me, count, ordered),
{
    let tasks: Vec<Task> = vec![
        Task::ReceiveAll { on: me, count, ordered },
    ];
    assert(tasks@ =~= collecting(me, count, ordered));
    tasks
}

/// The rendezvous message is sent.
pub open spec fn announcing(me: PeerRole) -> Seq<Task> {
    seq![
        Task::SendSentinel(me),
    ]
}

fn announcing_tasks(me: PeerRole) -> (r: Vec<Task>)
    ensures
        r@ == announcing(me),
{
    let tasks: Vec<Task> = vec![
        Task::SendSentinel(me),
    ];
    assert(tasks@ =~= announcing(me));
    tasks
}

/// The peer's rendezvous message arrives.
pub open spec fn awaiting(me: PeerRole) -> Seq<Task> {
    seq![
        Task::AwaitSentinel(me),
    ]
}

fn awaiting_tasks(me: PeerRole) -> (r: Vec<Task>)
    ensures
        r@ == awaiting(me),
{
    let tasks: Vec<Task> = vec![
        Task::AwaitSentinel(me),
    ];
    assert(tasks@ =~= awaiting(me));
    tasks
}

/// The channel is closed gracefully: its state is read until the close has flushed.
pub open spec fn shutting_down(me: PeerRole) -> Seq<Task> {
    seq![
        Task::Do(Call::TakeStates(StateStream { of: Watched::Channel(me), first: true })),
        Task::Do(Call::CloseChannel(me)),
        Task::DrainStates(
            StateStream { of: Watched::Channel(me), first: true },
            StreamEnd::Anything,
        ),
    ]
}

fn shutting_down_tasks(me: PeerRole) -> (r: Vec<Task>)
    ensures
        r@ == shutting_down(me),
{
    let tasks: Vec<Task> = vec![
        Task::Do(Call::TakeStates(StateStream { of: Watched::Channel(me), first: true })),
        Task::Do(Call::CloseChannel(me)),
        Task::DrainStates(
            StateStream { of: Watched::Channel(me), first: true },
            StreamEnd::Anything,
        ),
    ];
    assert(tasks@ =~= shutting_down(me));
    tasks
}

/// The corpus is sent and the channel closed at once; its states end with `closed`,
/// which is when the close has flushed.
pub open spec fn flushing(me: PeerRole, count: u32, size: u32) -> Seq<Task> {
    seq![
        Task::SendAll { on: me, count, size },
        Task::Do(Call::TakeStates(StateStream { of: Watched::Channel(me), first: true })),
        Task::Do(Call::CloseChannel(me)),
        Task::DrainStates(
            StateStream { of: Watched::Channel(me), first: true },
            StreamEnd::Closed("expected state-changes to end with closed after close, got "),
        ),
    ]
}

fn flushing_tasks(me: PeerRole, count: u32, size: u32) -> (r: Vec<Task>)
    ensures
        r@ == flushing(me, count, size),
{
    let tasks: Vec<Task> = vec![
        Task::SendAll { on: me, count, size },
        Task::Do(Call::TakeStates(StateStream { of: Watched::Channel(me), first: true })),
        Task::Do(Call::CloseChannel(me)),
        Task::DrainStates(
            StateStream { of: Watched::Channel(me), first: true },
            StreamEnd::Closed("expected state-changes to end with closed after close, got "),
        ),
    ];
    assert(tasks@ =~= flushing(me, count, size));
    tasks
}

/// The whole corpus arrives in spite of the peer's immediate close, then the close.
pub open spec fn flushed(me: PeerRole, count: u32) -> Seq<Task> {
    seq![
        Task::ReceiveAll { on: me, count, ordered: false },
        Task::Refuse(
            Call::Receive(me),
            Refusal {
                kind: ErrorKind::ReadsClosed,
                on_success: "received past the peer's close",
                on_other: "waiting for the peer's close: receive: ",
            },
        ),
    ]
}

fn flushed_tasks(me: PeerRole, count: u32) -> (r: Vec<Task>)
    ensures
        r@ == flushed(me, count),
{
    let tasks: Vec<Task> = vec![
        Task::ReceiveAll { on: me, count, ordered: false },
        Task::Refuse(
            Call::Receive(me),
            Refusal {
                kind: ErrorKind::ReadsClosed,
                on_success: "received past the peer's close",
                on_other: "waiting for the peer's close: receive: ",
            },
        ),
    ];
    assert(tasks@ =~= flushed(me, count));
    tasks
}

/// The peer closes its connection.
pub open spec fn leaving(me: PeerRole) -> Seq<Task> {
    seq![
        Task::Do(Call::ClosePeer(me)),
    ]
}

fn leaving_tasks(me: PeerRole) -> (r: Vec<Task>)
    ensures
        r@ == leaving(me),
{
    let tasks: Vec<Task> = vec![
        Task::Do(Call::ClosePeer(me)),
    ];
    assert(tasks@ =~= leaving(me));
    tasks
}

// ----- the payload exchange of a case --------------------------------------------------

/// Whether a test exchanges the corpus of its workload.
pub open spec fn is_counted(id: Seq<char>) -> bool {
    id == "concurrent-send-receive"@ || id == "message-boundaries"@ || id == "ordering"@ || id
        == "payload-integrity"@ || id == "interop-handshake"@
}

/// The phase in which a test's payloads are exchanged, both peers running the same;
/// none for a test that exchanges none.
pub open spec fn exchange_phase(id: Seq<char>, me: PeerRole, count: u32, size: u32) -> Option<
    PhaseView,
> {
    if id == "label-round-trip"@ {
        Some(one(labelled(me)))
    } else if id == "binary-message"@ {
        Some(one(binary_message(me)))
    } else if id == "text-message"@ {
        Some(one(text_message(me)))
    } else if id == "zero-length-message"@ {
        Some(one(zero_length(me)))
    } else if id == "large-message"@ {
        Some(one(large_message(me, at_least(size, 1024))))
    } else if id == "max-retransmits-accepted"@ {
        Some(one(unreliable(me)))
    } else if is_counted(id) {
        Some(
            two(
                sending(me, at_least(count, 1), at_least(size, 16)),
                collecting(me, at_least(count, 1), id == "ordering"@),
            ),
        )
    } else {
        None
    }
}

/// The phase in which a test's payloads are exchanged.
pub fn exchange(id: &str, me: PeerRole, count: u32, size: u32) -> (r: Option<Phase>)
    ensures
        match r {
            Some(phase) => exchange_phase(id@, me, count, size) == Some(phase@),
            None => exchange_phase(id@, me, count, size) is None,
        },
{
    if same(id, "label-round-trip") {
        Some(Phase::one(labelled_tasks(me)))
    } else if same(id, "binary-message") {
        Some(Phase::one(binary_message_tasks(me)))
    } else if same(id, "text-message") {
        Some(Phase::one(text_message_tasks(me)))
    } else if same(id, "zero-length-message") {
        Some(Phase::one(zero_length_tasks(me)))
    } else if same(id, "large-message") {
        Some(Phase::one(large_message_tasks(me, raise(size, 1024))))
    } else if same(id, "max-retransmits-accepted") {
        Some(Phase::one(unreliable_tasks(me)))
    } else if same(id, "concurrent-send-receive") || same(id, "message-boundaries") || same(
        id,
        "ordering",
    ) || same(id, "payload-integrity") || same(id, "interop-handshake") {
        Some(
            Phase::two(
                sending_tasks(me, raise(count, 1), raise(size, 16)),
                collecting_tasks(me, raise(count, 1), same(id, "ordering")),
            ),
        )
    } else {
        None
    }
}

// ----- the case of one half of a pair --------------------------------------------------

/// The final rendezvous: each peer sends the rendezvous message and waits for the
/// other's, so that neither leaves while the other still needs the channel.
pub open spec fn barrier_phase(me: PeerRole) -> PhaseView {
    two(announcing(me), awaiting(me))
}

/// The flush-aware close, from either half.
pub open spec fn close_flush_phase(me: PeerRole, count: u32, size: u32) -> PhaseView {
    match me {
        PeerRole::Offerer => one(flushing(me, at_least(count, 1), at_least(size, 16))),
        PeerRole::Answerer => one(flushed(me, at_least(count, 1))),
    }
}

/// What a connected half of a pair does, or the detail for a test without a body. It
/// closes its connection in the end, whatever came of the exchange. The test of the
/// flush-aware close needs no rendezvous: its close is one.
pub open spec fn pair_script(id: Seq<char>, me: PeerRole) -> Result<CaseView, Seq<char>> {
    let (count, size) = workload(id);
    if id == "channel-close-flush"@ {
        Ok(
            CaseView {
                phases: seq![close_flush_phase(me, count, size)],
                guarded: 0,
                cleanup: leaving(me),
            },
        )
    } else {
        match exchange_phase(id, me, count, size) {
            Some(exchanged) => Ok(
                CaseView {
                    phases: seq![exchanged, barrier_phase(me), one(shutting_down(me))],
                    guarded: 0,
                    cleanup: leaving(me),
                },
            ),
            None => Err("unhandled test id "@ + debug_text(id)),
        }
    }
}

/// The scripts of a case, or the detail.
pub open spec fn case_view(r: Result<Case, String>) -> Result<CaseView, Seq<char>> {
    match r {
        Ok(case) => Ok(case@),
        Err(detail) => Err(detail@),
    }
}

/// What a connected half of a pair does in a test.
pub fn pair(id: &str, me: PeerRole) -> (r: Result<Case, String>)
    ensures
        case_view(r) == pair_script(id@, me),
{
    let (count, size) = params_for(id);
    if same(id, "channel-close-flush") {
        let phase = match me {
            PeerRole::Offerer => Phase::one(flushing_tasks(me, raise(count, 1), raise(size, 16))),
            PeerRole::Answerer => Phase::one(flushed_tasks(me, raise(count, 1))),
        };
        let phases: Vec<Phase> = vec![phase];
        assert(phase_views(phases@) =~= seq![close_flush_phase(me, count, size)]);
        Ok(Case { phases, guarded: 0, cleanup: leaving_tasks(me) })
    } else {
        match exchange(id, me, count, size) {
            Some(exchanged) => {
                let ghost first = exchanged@;
                let phases: Vec<Phase> = vec![
                    exchanged,
                    Phase::two(announcing_tasks(me), awaiting_tasks(me)),
                    Phase::one(shutting_down_tasks(me)),
                ];
                assert(phase_views(phases@) =~= seq![
                    first,
                    barrier_phase(me),
                    one(shutting_down(me)),
                ]);
                Ok(Case { phases, guarded: 0, cleanup: leaving_tasks(me) })
            },
            None => Err("unhandled test id ".to_owned().concat(debug_quoted(id).as_str())),
        }
    }
}

/// The room a two-peer case meets in.
pub open spec fn meeting_room(run_id: Seq<char>, id: Seq<char>) -> Seq<char> {
    run_id + "-"@ + id
}

/// The room a two-peer case meets in.
pub fn room(run_id: &str, id: &str) -> (r: String)
    ensures
        r@ == meeting_room(run_id@, id@),
{
    run_id.to_owned().concat("-").concat(id)
}

/// Two cases of a run do not meet in the same room.
pub proof fn cases_do_not_share_rooms(run_id: Seq<char>, id: Seq<char>, other: Seq<char>)
    requires
        id != other,
    ensures
        meeting_room(run_id, id) != meeting_room(run_id, other),
{
    let a = meeting_room(run_id, id);
    let b = meeting_room(run_id, other);
    if a == b {
        let head = (run_id + "-"@).len() as int;
        assert(a.skip(head) =~= id);
        assert(b.skip(head) =~= other);
    }
}

// ----- the instance's configuration ----------------------------------------------------

/// This instance's half of a two-peer case.
#[derive(Debug, Clone)]
pub struct PairConfig {
    pub role: PeerRole,
    pub signaling_url: String,
    pub run_id: String,
}

/// The detail for a variable that is not set.
pub open spec fn unset(name: Seq<char>) -> Seq<char> {
    "harness bug: "@ + name + " is not set on a pair instance"@
}

fn unset_detail(name: &str) -> (r: String)
    ensures
        r@ == unset(name@),
{
    "harness bug: ".to_owned().concat(name).concat(" is not set on a pair instance")
}

/// The role a name stands for.
pub open spec fn role_named(name: Seq<char>) -> Option<PeerRole> {
    if name == "offerer"@ {
        Some(PeerRole::Offerer)
    } else if name == "answerer"@ {
        Some(PeerRole::Answerer)
    } else {
        None
    }
}

/// The role a name stands for.
pub fn parse_role(name: &str) -> (r: Option<PeerRole>)
    ensures
        r == role_named(name@),
{
    if same(name, "offerer") {
        Some(PeerRole::Offerer)
    } else if same(name, "answerer") {
        Some(PeerRole::Answerer)
    } else {
        None
    }
}

/// What is wrong with an instance's environment: the role comes first, then the
/// signaling server, then the run id.
pub open spec fn config_flaw(
    role: Option<Seq<char>>,
    signaling_url: Option<Seq<char>>,
    run_id: Option<Seq<char>>,
) -> Option<Seq<char>> {
    match role {
        None => Some(unset("RTC_CT_ROLE"@)),
        Some(name) => if role_named(name) is None {
            Some("harness bug: RTC_CT_ROLE="@ + debug_text(name))
        } else if signaling_url is None {
            Some(unset("RTC_CT_SIGNALING_URL"@))
        } else if run_id is None {
            Some(unset("RTC_CT_RUN_ID"@))
        } else {
            None
        },
    }
}

/// Read an instance's half of a two-peer case from its environment: the values of
/// `RTC_CT_ROLE`, `RTC_CT_SIGNALING_URL` and `RTC_CT_RUN_ID`.
pub fn pair_config(
    role: Option<String>,
    signaling_url: Option<String>,
    run_id: Option<String>,
) -> (r: Result<PairConfig, String>)
    ensures
        match r {
            Ok(config) => {
                &&& config_flaw(
                    opt_view(role),
                    opt_view(signaling_url),
                    opt_view(run_id),
                ) is None
                &&& role_named(role->Some_0@) == Some(config.role)
                &&& Some(config.signaling_url) == signaling_url
                &&& Some(config.run_id) == run_id
            },
            Err(detail) => config_flaw(
                opt_view(role),
                opt_view(signaling_url),
                opt_view(run_id),
            ) == Some(detail@),
        },
{
    match role {
        None => Err(unset_detail("RTC_CT_ROLE")),
        Some(name) => match parse_role(name.as_str()) {
            None => Err(
                "harness bug: RTC_CT_ROLE=".to_owned().concat(debug_quoted(name.as_str()).as_str()),
            ),
            Some(role) => match signaling_url {
                None => Err(unset_detail("RTC_CT_SIGNALING_URL")),
                Some(signaling_url) => match run_id {
                    None => Err(unset_detail("RTC_CT_RUN_ID")),
                    Some(run_id) => Ok(PairConfig { role, signaling_url, run_id }),
                },
            },
        },
    }
}

// ----- laws ----------------------------------------------------------------------------

/// Every two-peer test has a body.
pub proof fn two_peer_tests_have_bodies(id: Seq<char>, me: PeerRole)
    requires
        str_views(TWO_PEER_TESTS@).contains(id),
    ensures
        pair_script(id, me) is Ok,
{
    let i = choose|i: int| 0 <= i < TWO_PEER_TESTS@.len() && str_views(TWO_PEER_TESTS@)[i] == id;
    assert(id == TWO_PEER_TESTS@[i]@);
}

/// The lane after some replies.
pub open spec fn run_lane(lane: LaneView, replies: Seq<Reply>) -> LaneView
    decreases replies.len(),
{
    if replies.len() == 0 {
        lane
    } else {
        run_lane(judged(lane, replies[0]), replies.drop_first())
    }
}

/// The messages a task sends.
pub open spec fn sent_by(task: Task) -> Seq<MessageView> {
    match task {
        Task::Succeed(Call::Send(_, payload), _) => seq![message_of(payload)],
        Task::SendAll { count, size, .. } => corpus_messages(count as nat, size),
        _ => Seq::empty(),
    }
}

/// The messages a script sends.
pub open spec fn sent_by_all(tasks: Seq<Task>) -> Seq<MessageView>
    decreases tasks.len(),
{
    if tasks.len() == 0 {
        Seq::empty()
    } else {
        sent_by(tasks[0]) + sent_by_all(tasks.drop_first())
    }
}

/// The indexed payloads of a corpus, as messages.
pub open spec fn corpus_messages(count: nat, size: u32) -> Seq<MessageView> {
    Seq::new(count, |i: int| MessageView::Binary(payload(i as u32, size)))
}

/// Whether replies are those of a reliable, ordered channel with the negotiated
/// label: every send succeeds, and receives deliver `inbox` in order.
pub open spec fn faithful(lane: LaneView, replies: Seq<Reply>, inbox: Seq<MessageView>) -> bool
    decreases replies.len(),
{
    if replies.len() == 0 {
        true
    } else if !lane.busy() {
        false
    } else {
        let rest = replies.drop_first();
        let next = judged(lane, replies[0]);
        match call_of(lane.task(), lane.round) {
            Call::Send(_, _) => replies[0] is Done && faithful(next, rest, inbox),
            Call::Receive(_) => {
                &&& inbox.len() > 0
                &&& replies[0] matches Reply::Message(message) && message@ == inbox[0]
                &&& faithful(next, rest, inbox.drop_first())
            },
            Call::Label(_) => {
                &&& replies[0] matches Reply::Label(label) && label@ == CHANNEL_LABEL@
                &&& faithful(next, rest, inbox)
            },
            _ => false,
        }
    }
}

proof fn lemma_send_all(lane: LaneView, replies: Seq<Reply>, inbox: Seq<MessageView>)
    requires
        lane.tasks.len() == 1,
        lane.tasks[0] is SendAll,
        lane.at == 0,
        lane.failure is None,
        lane.valid(),
        faithful(lane, replies, inbox),
    ensures
        run_lane(lane, replies).failure is None,
        replies.len() == rounds(lane.tasks[0], lane) - lane.round ==> run_lane(lane, replies).at == 1,
    decreases replies.len(),
{
    if replies.len() > 0 {
        let next = judged(lane, replies[0]);
        reveal_with_fuel(skipped, 2);
        reveal_with_fuel(faithful, 2);
        reveal_with_fuel(run_lane, 2);
        if next.busy() {
            lemma_send_all(next, replies.drop_first(), inbox);
        } else {
            assert(replies.drop_first().len() == 0);
        }
    }
}

proof fn lemma_receive_all(
    lane: LaneView,
    replies: Seq<Reply>,
    on: PeerRole,
    count: u32,
    size: u32,
    ordered: bool,
    k: nat,
)
    requires
        lane.tasks == seq![Task::ReceiveAll { on, count, ordered }],
        lane.at == 0,
        lane.failure is None,
        k < count,
        lane.received == corpus(k, size),
        faithful(lane, replies, corpus_messages(count as nat, size).skip(k as int)),
    ensures
        run_lane(lane, replies).failure is None,
        replies.len() == count - k ==> run_lane(lane, replies).at == 1,
    decreases replies.len(),
{
    if replies.len() > 0 {
        let inbox = corpus_messages(count as nat, size).skip(k as int);
        let next = judged(lane, replies[0]);
        reveal_with_fuel(skipped, 2);
        reveal_with_fuel(faithful, 2);
        reveal_with_fuel(run_lane, 2);
        assert(lane.task() == lane.tasks[0]);
        assert(inbox[0] == MessageView::Binary(payload(k as u32, size)));
        assert(lane.received.push(payload(k as u32, size)) =~= corpus(k + 1, size));
        if k + 1 < count {
            assert(inbox.drop_first() =~= corpus_messages(count as nat, size).skip((k + 1) as int));
            lemma_receive_all(next, replies.drop_first(), on, count, size, ordered, k + 1);
        } else {
            corpus_passes(count as nat, size);
            assert(next.at == 1);
            assert(replies.drop_first().len() == 0);
        }
    }
}

/// Whether a task sends one message, expects one or checks the label.
pub open spec fn is_simple(task: Task) -> bool {
    match task {
        Task::Succeed(Call::Send(_, _), _) => true,
        Task::Expect(_, _, _) => true,
        Task::CheckLabel(_) => true,
        _ => false,
    }
}

/// The messages a task expects one by one.
pub open spec fn expected_by(task: Task) -> Seq<MessageView> {
    match task {
        Task::Expect(_, payload, _) => seq![message_of(payload)],
        _ => Seq::empty(),
    }
}

/// The messages a script expects one by one.
pub open spec fn expected_by_all(tasks: Seq<Task>) -> Seq<MessageView>
    decreases tasks.len(),
{
    if tasks.len() == 0 {
        Seq::empty()
    } else {
        expected_by(tasks[0]) + expected_by_all(tasks.drop_first())
    }
}

proof fn lemma_simple(lane: LaneView, replies: Seq<Reply>, inbox: Seq<MessageView>)
    requires
        forall|i: int| 0 <= i < lane.tasks.len() ==> is_simple(#[trigger] lane.tasks[i]),
        lane.at <= lane.tasks.len(),
        lane.failure is None,
        lane.round == 0,
        expected_by_all(lane.tasks.skip(lane.at as int)) == inbox,
        faithful(lane, replies, inbox),
    ensures
        run_lane(lane, replies).failure is None,
        replies.len() == lane.tasks.len() - lane.at ==> run_lane(lane, replies).at
            == lane.tasks.len(),
    decreases replies.len(),
{
    if replies.len() > 0 {
        let next = judged(lane, replies[0]);
        let here = lane.tasks.skip(lane.at as int);
        assert(here[0] == lane.task());
        assert(here.drop_first() =~= lane.tasks.skip((lane.at + 1) as int));
        assert(is_simple(lane.task()));
        if lane.at + 1 < lane.tasks.len() {
            assert(is_simple(lane.tasks[(lane.at + 1) as int]));
        }
        reveal_with_fuel(skipped, 2);
        let rest = expected_by_all(lane.tasks.skip((lane.at + 1) as int));
        match lane.task() {
            Task::Expect(_, payload, _) => {
                assert(inbox == seq![message_of(payload)] + rest);
                assert(inbox[0] == message_of(payload));
                assert(inbox.drop_first() =~= rest);
                lemma_simple(next, replies.drop_first(), inbox.drop_first());
            },
            _ => {
                assert(inbox =~= rest);
                lemma_simple(next, replies.drop_first(), inbox);
            },
        }
    }
}

/// How many calls a script makes where every send succeeds and every receive
/// delivers.
pub open spec fn calls_made(tasks: Seq<Task>) -> nat
    decreases tasks.len(),
{
    if tasks.len() == 0 {
        0
    } else {
        calls_made(tasks.drop_last()) + match tasks.last() {
            Task::SendAll { count, .. } => count as nat,
            Task::ReceiveAll { count, .. } => count as nat,
            _ => 1,
        }
    }
}

/// Two peers that run the same exchange over a reliable, ordered channel both pass
/// it: whatever part of the exchange has been answered, no lane has failed, and a
/// lane whose every call has been answered is through.
pub proof fn mirrored_exchange_passes(
    id: Seq<char>,
    me: PeerRole,
    count: u32,
    size: u32,
    left: Seq<Reply>,
    right: Seq<Reply>,
)
    requires
        exchange_phase(id, me, count, size) is Some,
        ({
            let phase = exchange_phase(id, me, count, size)->Some_0;
            let inbox = sent_by_all(exchange_phase(id, me.across(), count, size)->Some_0.left);
            faithful(LaneView::start(phase.left), left, inbox) && faithful(
                LaneView::start(phase.right),
                right,
                inbox,
            )
        }),
    ensures
        ({
            let phase = exchange_phase(id, me, count, size)->Some_0;
            let ended_left = run_lane(LaneView::start(phase.left), left);
            let ended_right = run_lane(LaneView::start(phase.right), right);
            &&& ended_left.failure is None
            &&& ended_right.failure is None
            &&& left.len() == calls_made(phase.left) ==> ended_left.at == phase.left.len()
            &&& right.len() == calls_made(phase.right) ==> ended_right.at == phase.right.len()
        }),
{
    let phase = exchange_phase(id, me, count, size)->Some_0;
    let theirs = exchange_phase(id, me.across(), count, size)->Some_0;
    let inbox = sent_by_all(theirs.left);
    let start = LaneView::start(phase.left);
    lemma_mirrored(id, me, count, size);
    if phase.right.len() > 0 {
        let n = at_least(count, 1);
        let s = at_least(size, 16);
        reveal_with_fuel(skipped, 2);
        reveal_with_fuel(calls_made, 2);
        assert(phase.left.drop_last() =~= Seq::<Task>::empty());
        assert(phase.right.drop_last() =~= Seq::<Task>::empty());
        lemma_send_all(start, left, inbox);
        assert(corpus_messages(n as nat, s).skip(0) =~= corpus_messages(n as nat, s));
        assert(corpus(0, s) =~= Seq::<Seq<u8>>::empty());
        lemma_receive_all(
            LaneView::start(phase.right),
            right,
            me,
            n,
            s,
            id == "ordering"@,
            0,
        );
    } else {
        assert(is_simple(phase.left[0]));
        assert(start.at == 0);
        assert(phase.left.skip(0) =~= phase.left);
        lemma_list(phase.left);
        lemma_simple(start, left, inbox);
        reveal_with_fuel(faithful, 2);
        assert(right.len() == 0);
    }
}

/// What the two halves of an exchange send and expect of each other.
proof fn lemma_mirrored(id: Seq<char>, me: PeerRole, count: u32, size: u32)
    requires
        exchange_phase(id, me, count, size) is Some,
    ensures
        ({
            let phase = exchange_phase(id, me, count, size)->Some_0;
            let theirs = exchange_phase(id, me.across(), count, size)->Some_0;
            let n = at_least(count, 1);
            let s = at_least(size, 16);
            if phase.right.len() > 0 {
                &&& phase.left == sending(me, n, s)
                &&& phase.right == collecting(me, n, id == "ordering"@)
                &&& sent_by_all(theirs.left) == corpus_messages(n as nat, s)
            } else {
                &&& 0 < phase.left.len() <= 4
                &&& forall|i: int| 0 <= i < phase.left.len() ==> is_simple(#[trigger] phase.left[i])
                &&& expected_by_all(phase.left) == sent_by_all(theirs.left)
            }
        }),
{
    let phase = exchange_phase(id, me, count, size)->Some_0;
    let theirs = exchange_phase(id, me.across(), count, size)->Some_0;
    if phase.right.len() > 0 {
        reveal_with_fuel(sent_by_all, 2);
        assert(theirs.left.drop_first() =~= Seq::<Task>::empty());
        assert(sent_by_all(theirs.left) =~= corpus_messages(
            at_least(count, 1) as nat,
            at_least(size, 16),
        ));
    } else {
        assert forall|i: int| 0 <= i < phase.left.len() implies is_simple(
            #[trigger] phase.left[i],
        ) by {}
        assert forall|i: int| 0 <= i < theirs.left.len() implies is_simple(
            #[trigger] theirs.left[i],
        ) by {}
        lemma_list(phase.left);
        lemma_list(theirs.left);
        assert(expected_by_all(phase.left) =~= sent_by_all(theirs.left));
    }
}

/// What the recursive descriptions of a short script come to.
proof fn lemma_list(tasks: Seq<Task>)
    requires
        tasks.len() <= 4,
        forall|i: int| 0 <= i < tasks.len() ==> is_simple(#[trigger] tasks[i]),
    ensures
        calls_made(tasks) == tasks.len(),
        tasks.len() == 1 ==> sent_by_all(tasks) == sent_by(tasks[0]) && expected_by_all(tasks)
            == expected_by(tasks[0]),
        tasks.len() == 2 ==> sent_by_all(tasks) == sent_by(tasks[0]) + sent_by(tasks[1])
            && expected_by_all(tasks) == expected_by(tasks[0]) + expected_by(tasks[1]),
        tasks.len() == 4 ==> sent_by_all(tasks) == sent_by(tasks[0]) + sent_by(tasks[1]) + sent_by(
            tasks[2],
        ) + sent_by(tasks[3]) && expected_by_all(tasks) == expected_by(tasks[0]) + expected_by(
            tasks[1],
        ) + expected_by(tasks[2]) + expected_by(tasks[3]),
    decreases tasks.len(),
{
    if tasks.len() > 0 {
        assert forall|i: int| 0 <= i < tasks.drop_last().len() implies is_simple(
            #[trigger] tasks.drop_last()[i],
        ) by {
            assert(is_simple(tasks[i]));
        }
        lemma_list(tasks.drop_last());
        assert(is_simple(tasks.last()));
    }
    reveal_with_fuel(sent_by_all, 5);
    reveal_with_fuel(expected_by_all, 5);
    if tasks.len() == 1 {
        assert(sent_by_all(tasks) =~= sent_by(tasks[0]));
        assert(expected_by_all(tasks) =~= expected_by(tasks[0]));
    } else if tasks.len() == 2 {
        assert(sent_by_all(tasks) =~= sent_by(tasks[0]) + sent_by(tasks[1]));
        assert(expected_by_all(tasks) =~= expected_by(tasks[0]) + expected_by(tasks[1]));
    } else if tasks.len() == 4 {
        let t3 = tasks.drop_first();
        let t2 = t3.drop_first();
        let t1 = t2.drop_first();
        assert(t3[0] == tasks[1] && t2[0] == tasks[2] && t1[0] == tasks[3]);
        assert(sent_by_all(tasks) =~= sent_by(tasks[0]) + sent_by(tasks[1]) + sent_by(tasks[2])
            + sent_by(tasks[3]));
        assert(expected_by_all(tasks) =~= expected_by(tasks[0]) + expected_by(tasks[1])
            + expected_by(tasks[2]) + expected_by(tasks[3]));
    }
}

proof fn lemma_flushed(
    lane: LaneView,
    replies: Seq<Reply>,
    me: PeerRole,
    count: u32,
    size: u32,
    have: nat,
    arrive: nat,
)
    requires
        lane.tasks == flushed(me, count),
        lane.at == 0,
        lane.failure is None,
        have <= arrive <= count,
        have < count,
        lane.received == corpus(have, size),
        replies.len() == arrive - have + 1,
        forall|i: int|
            0 <= i < arrive - have ==> (#[trigger] replies[i] matches Reply::Message(message)
                && message@ == MessageView::Binary(payload((have + i) as u32, size))),
        replies.last() == Reply::Failed(Error::Closed),
    ensures
        if arrive == count {
            run_lane(lane, replies).failure is None && run_lane(lane, replies).at == 2
        } else {
            run_lane(lane, replies).failure == Some("receive: "@ + "closed"@)
        },
    decreases replies.len(),
{
    let next = judged(lane, replies[0]);
    let rest = replies.drop_first();
    reveal_with_fuel(skipped, 2);
    reveal_with_fuel(run_lane, 3);
    assert(lane.task() == lane.tasks[0]);
    if have == arrive {
        assert(replies[0] == replies.last());
        assert(rest.len() == 0);
    } else {
        assert(replies[0] matches Reply::Message(message) && message@ == MessageView::Binary(
            payload((have + 0) as u32, size),
        ));
        assert(lane.received.push(payload(have as u32, size)) =~= corpus(have + 1, size));
        assert(rest.last() == replies.last());
        if have + 1 < count {
            assert forall|i: int| 0 <= i < arrive - (have + 1) implies (
            #[trigger] rest[i] matches Reply::Message(message) && message@ == MessageView::Binary(
                payload((have + 1 + i) as u32, size),
            )) by {
                assert(rest[i] == replies[i + 1]);
            }
            lemma_flushed(next, rest, me, count, size, have + 1, arrive);
        } else {
            corpus_passes(count as nat, size);
            assert(next.at == 1);
            assert(rest[0] == Reply::Failed(Error::Closed));
            assert(next.task() == next.tasks[1]);
            reveal_strlit("receive: ");
            reveal_strlit("closed");
            let told = "receive: "@ + "closed"@;
            assert(told.subrange(told.len() - 6, told.len() as int) =~= "closed"@);
            assert(rest.drop_first().len() == 0);
        }
    }
}

/// The test of the flush-aware close finds a lost payload: an answerer whose channel
/// delivers the first payloads of the corpus in order, and then reads as closed, passes
/// exactly if it was delivered all of them.
pub proof fn close_must_flush_every_payload(
    me: PeerRole,
    count: u32,
    size: u32,
    replies: Seq<Reply>,
    arrive: nat,
)
    requires
        0 < count,
        arrive <= count,
        replies.len() == arrive + 1,
        forall|i: int|
            0 <= i < arrive ==> (#[trigger] replies[i] matches Reply::Message(message) && message@
                == MessageView::Binary(payload(i as u32, size))),
        replies.last() == Reply::Failed(Error::Closed),
    ensures
        ({
            let ended = run_lane(LaneView::start(flushed(me, count)), replies);
            if arrive == count {
                ended.failure is None && ended.at == 2
            } else {
                ended.failure == Some("receive: "@ + "closed"@)
            }
        }),
{
    let start = LaneView::start(flushed(me, count));
    reveal_with_fuel(skipped, 2);
    assert(corpus(0, size) =~= Seq::<Seq<u8>>::empty());
    assert(start.received =~= corpus(0, size));
    assert forall|i: int| 0 <= i < arrive - 0 implies (
    #[trigger] replies[i] matches Reply::Message(message) && message@ == MessageView::Binary(
        payload((0 + i) as u32, size),
    )) by {}
    lemma_flushed(start, replies, me, count, size, 0, arrive);
}

/// A half of an exchange takes in what it sends, so that it finds what the other half lost: the
/// messages it sends one by one it expects one by one and in order, and of a corpus it receives
/// as many as it sends, in order where order is what is tested.
#[verifier::spinoff_prover]
#[verifier::rlimit(50)]
pub proof fn exchange_expects_what_it_sends(id: Seq<char>, me: PeerRole, count: u32, size: u32)
    requires
        exchange_phase(id, me, count, size) is Some,
    ensures
        ({
            let phase = exchange_phase(id, me, count, size)->Some_0;
            let sent = sent_by_all(phase.left);
            if phase.right.len() > 0 {
                &&& phase.right.len() == 1
                &&& phase.right[0] matches Task::ReceiveAll { on, count: due, ordered }
                &&& on == me
                &&& due == sent.len()
                &&& due > 0
                &&& ordered == (id == "ordering"@)
            } else {
                &&& expected_by_all(phase.left) == sent
                &&& if id == "label-round-trip"@ {
                    phase.left.len() > 0 && phase.left[0] == Task::CheckLabel(me)
                } else {
                    sent.len() > 0
                }
            }
        }),
{
    let phase = exchange_phase(id, me, count, size)->Some_0;
    reveal_with_fuel(sent_by_all, 5);
    reveal_with_fuel(expected_by_all, 5);
    if phase.right.len() == 0 {
        assert(expected_by_all(phase.left) =~= sent_by_all(phase.left));
    }
}

/// Every two-peer test runs its exchange to its end before the peers part: the flush-aware
/// close by itself, every other test followed by the rendezvous and the close. A failure still
/// closes the connection.
pub proof fn exchange_comes_before_parting(id: Seq<char>, me: PeerRole)
    requires
        pair_script(id, me) is Ok,
    ensures
        ({
            let case = pair_script(id, me)->Ok_0;
            let (count, size) = workload(id);
            &&& case.guarded == 0
            &&& case.cleanup.len() == 1 && case.cleanup[0] == Task::Do(Call::ClosePeer(me))
            &&& id == "channel-close-flush"@ ==> case.phases == seq![
                close_flush_phase(me, count, size),
            ]
            &&& id != "channel-close-flush"@ ==> {
                &&& case.phases.len() == 3
                &&& Some(case.phases[0]) == exchange_phase(id, me, count, size)
                &&& case.phases[1].left.contains(Task::SendSentinel(me))
                &&& case.phases[1].right.contains(Task::AwaitSentinel(me))
                &&& case.phases[2].left.contains(Task::Do(Call::CloseChannel(me)))
            }
        }),
{
    let case = pair_script(id, me)->Ok_0;
    if id != "channel-close-flush"@ {
        assert(case.phases[1].left[0] == Task::SendSentinel(me));
        assert(case.phases[1].right[0] == Task::AwaitSentinel(me));
        assert(case.phases[2].left[1] == Task::Do(Call::CloseChannel(me)));
    }
}

/// A pair instance is configured exactly if its role is one of the two, and it has a signaling
/// server and a run to meet its peer in; what is missing is named, the role first.
pub proof fn pair_needs_its_whole_configuration(
    role: Option<Seq<char>>,
    signaling_url: Option<Seq<char>>,
    run_id: Option<Seq<char>>,
)
    ensures
        config_flaw(role, signaling_url, run_id) is None <==> (role == Some("offerer"@) || role
            == Some("answerer"@)) && signaling_url is Some && run_id is Some,
        role is None ==> config_flaw(role, signaling_url, run_id) == Some(unset("RTC_CT_ROLE"@)),
        role_named("offerer"@) == Some(PeerRole::Offerer),
        role_named("answerer"@) == Some(PeerRole::Answerer),
        role matches Some(name) ==> (role_named(name) matches Some(me) ==> name == me.named()),
{
    reveal_strlit("offerer");
    reveal_strlit("answerer");
    assert("offerer"@.len() != "answerer"@.len());
}

/// Every message an exchange expects is expected on its own half, and one that is not the
/// expected one is reported without its contents.
pub proof fn mismatches_do_not_show_contents(
    id: Seq<char>,
    me: PeerRole,
    count: u32,
    size: u32,
    i: int,
)
    requires
        exchange_phase(id, me, count, size) is Some,
        0 <= i < exchange_phase(id, me, count, size)->Some_0.left.len(),
    ensures
        match exchange_phase(id, me, count, size)->Some_0.left[i] {
            Task::Expect(on, _, mismatch) => on == me && !mismatch.shown,
            Task::Succeed(Call::Send(on, _), _) => on == me,
            Task::SendAll { on, .. } => on == me,
            Task::CheckLabel(on) => on == me,
            _ => false,
        },
{
}

} // verus!
