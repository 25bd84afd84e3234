//! What a run of a script shows: every task of a script that has run through was answered,
//! and answered as the task asks. So a case that passes has seen what its test is about.

use vstd::prelude::*;
use vstd::utf8::encode_utf8;

use crate::corpus::workload;
use crate::exchange::{flushing, run_lane, shutting_down};
use crate::lab::PeerRole;
use crate::script::{
    call_of, ends_in, errors_are_never_passed_over, is_kind, judged, lemma_moves_on,
    lemma_reads_closed, lemma_starts, messages_are_judged, one, passed, run_through,
    streamed_messages_are_judged, tasks_are_taken_in_turn, two, two_right_first,
    verdict_is_that_of_every_phase, whole, with_states, Call, ChannelOptions, Description,
    ErrorKind, LaneView, Reply, RunView, StateStream, StreamEnd, StreamItem, Task, Watched,
};
use crate::solo::{
    adopting, answerer_connected, at_least, channel_closed, channel_dropped, channel_watch, claimed,
    claiming, closed_receive, closed_send, closed_signaling, config_defaults, config_rejects,
    config_setters, connecting, connection_watch, invalid_sdp, latching, offerer_connected,
    offering_alone, overflowing, pending_receive, pinging, ponging, receiving, solo_script,
    stream_feeding, stream_receiving, stream_sending, streaming_once, timing_out,
};
use crate::stimulus::{message_of, Payload, ServerList};
use crate::wire::{
    described, ConfigError, ConnectionState, DataChannelState, Error, IceTransportPolicy,
    MessageView, SdpType, Seen,
};

verus! {

// ----- answers -------------------------------------------------------------------------

/// Where a lane stands before it is given its reply `m`.
pub open spec fn before(lane: LaneView, replies: Seq<Reply>, m: int) -> LaneView {
    run_lane(lane, replies.take(m))
}

/// Whether reply `m` answers a call.
pub open spec fn answers(lane: LaneView, replies: Seq<Reply>, m: int, call: Call) -> bool {
    &&& 0 <= m < replies.len()
    &&& before(lane, replies, m).busy()
    &&& call_of(before(lane, replies, m).task(), before(lane, replies, m).round) == call
}

/// Whether a script has run through without a failure.
pub open spec fn through(lane: LaneView, replies: Seq<Reply>) -> bool {
    run_lane(lane, replies).failure is None && run_lane(lane, replies).at >= lane.tasks.len()
}

/// Whether a call was answered with an error that is wanted.
pub open spec fn was_refused(
    lane: LaneView,
    replies: Seq<Reply>,
    call: Call,
    wanted: spec_fn(Error) -> bool,
) -> bool {
    exists|m: int| #[trigger]
        answers(lane, replies, m, call) && (replies[m] matches Reply::Failed(error) && wanted(
            error,
        ))
}

/// Whether a call was answered at all.
pub open spec fn was_asked(lane: LaneView, replies: Seq<Reply>, call: Call) -> bool {
    exists|m: int| #[trigger] answers(lane, replies, m, call)
}

/// Whether a call was answered with success.
pub open spec fn was_done(lane: LaneView, replies: Seq<Reply>, call: Call) -> bool {
    exists|m: int| #[trigger]
        answers(lane, replies, m, call) && (replies[m] is Done || replies[m] is Message)
}

/// Whether a call was answered with success after another had been answered.
pub open spec fn was_done_after(
    lane: LaneView,
    replies: Seq<Reply>,
    first: Call,
    call: Call,
) -> bool {
    exists|a: int, b: int| #[trigger]
        answers(lane, replies, a, first) && #[trigger] answers(lane, replies, b, call) && a < b && (
        replies[b] is Done || replies[b] is Message)
}

/// Whether a stream was read and had nothing in it.
pub open spec fn yielded_nothing(lane: LaneView, replies: Seq<Reply>, call: Call) -> bool {
    exists|m: int| #[trigger] answers(lane, replies, m, call) && replies[m] == Reply::Yielded(0)
}

/// Whether a setting was taken, or refused as not supported.
pub open spec fn was_settled(lane: LaneView, replies: Seq<Reply>, call: Call) -> bool {
    exists|m: int| #[trigger]
        answers(lane, replies, m, call) && (replies[m] is Done || replies[m] == Reply::Refused(
            ConfigError::NotSupported,
        ))
}

/// Whether a setting was refused.
pub open spec fn was_rejected(lane: LaneView, replies: Seq<Reply>, call: Call) -> bool {
    exists|m: int| #[trigger] answers(lane, replies, m, call) && replies[m] is Refused
}

/// Whether the configuration showed servers as many as are wanted.
pub open spec fn servers_shown(
    lane: LaneView,
    replies: Seq<Reply>,
    wanted: spec_fn(bool) -> nat,
) -> bool {
    exists|m: int| #[trigger]
        answers(lane, replies, m, Call::GetServers) && (replies[m] matches Reply::Servers(servers)
            && servers@.len() == wanted(before(lane, replies, m).accepted))
}

/// Whether the configuration showed the wanted policy.
pub open spec fn policy_shown(
    lane: LaneView,
    replies: Seq<Reply>,
    wanted: spec_fn(bool) -> IceTransportPolicy,
) -> bool {
    exists|m: int| #[trigger]
        answers(lane, replies, m, Call::GetPolicy) && replies[m] == Reply::Policy(
            wanted(before(lane, replies, m).accepted),
        )
}

/// Whether a watch first read the wanted state.
pub open spec fn first_read(
    lane: LaneView,
    replies: Seq<Reply>,
    stream: StateStream,
    wanted: Seen,
) -> bool {
    exists|m: int| #[trigger]
        answers(lane, replies, m, Call::ReadStates(stream)) && (replies[m] matches Reply::States {
            batch,
            ..
        } && batch@.len() > 0 && batch@[0] == wanted)
}

/// Whether a watch ended without a state in its last batch.
pub open spec fn ended_empty(lane: LaneView, replies: Seq<Reply>, stream: StateStream) -> bool {
    exists|m: int| #[trigger]
        answers(lane, replies, m, Call::ReadStates(stream)) && (replies[m] matches Reply::States {
            batch,
            ended,
        } && ended && batch@.len() == 0)
}

/// Whether a watch ended, after a call, in `closed`.
pub open spec fn ended_closed_after(
    lane: LaneView,
    replies: Seq<Reply>,
    first: Call,
    stream: StateStream,
) -> bool {
    exists|a: int, b: int| #[trigger]
        answers(lane, replies, a, first) && #[trigger] answers(
            lane,
            replies,
            b,
            Call::ReadStates(stream),
        ) && a < b && (replies[b] matches Reply::States { batch, ended } && ended && ({
            let all = before(lane, replies, b).states + batch@;
            all.len() > 0 && (all.last() == Seen::Connection(ConnectionState::Closed) || all.last()
                == Seen::Channel(DataChannelState::Closed))
        }))
}

/// Whether a corpus was received whole.
pub open spec fn was_received_whole(
    lane: LaneView,
    replies: Seq<Reply>,
    on: PeerRole,
    count: nat,
) -> bool {
    exists|m: int| #[trigger]
        answers(lane, replies, m, Call::Receive(on)) && (replies[m] matches Reply::Message(message)
            && whole(
            before(lane, replies, m).received.push(
                match message@ {
                    MessageView::Binary(bytes) => bytes,
                    MessageView::Text(text) => encode_utf8(text),
                },
            ),
            count,
            false,
        ))
}

/// Whether a corpus was read whole from a claimed stream.
pub open spec fn was_read_whole(
    lane: LaneView,
    replies: Seq<Reply>,
    on: PeerRole,
    count: nat,
) -> bool {
    exists|m: int| #[trigger]
        answers(lane, replies, m, Call::ReadStream(on)) && (replies[m] matches Reply::Items {
            batch,
            ..
        } && whole(
            before(lane, replies, m).received + batch@.map_values(|item: StreamItem| item.bytes@),
            count,
            false,
        ))
}

/// Whether a receive was answered with the message of a payload.
pub open spec fn was_received(
    lane: LaneView,
    replies: Seq<Reply>,
    on: PeerRole,
    payload: Payload,
) -> bool {
    exists|m: int| #[trigger]
        answers(lane, replies, m, Call::Receive(on)) && (replies[m] matches Reply::Message(message)
            && message@ == message_of(payload))
}

/// Whether a task has something to do whatever was answered before it.
pub open spec fn standing(task: Task) -> bool {
    match task {
        Task::Flood { count, .. } => count > 0,
        Task::SendAll { count, .. } => count > 0,
        Task::ReceiveAll { count, .. } => count > 0,
        Task::FeedAll { count, .. } => count > 0,
        Task::ReadAll { count, .. } => count > 0,
        Task::Trickle(_, _) => false,
        Task::ResetPolicy => false,
        _ => true,
    }
}

proof fn lemma_stays(lane: LaneView, replies: Seq<Reply>)
    requires
        !lane.busy(),
    ensures
        run_lane(lane, replies) == lane,
    decreases replies.len(),
{
    if replies.len() > 0 {
        lemma_stays(lane, replies.drop_first());
    }
}

/// A failure is kept to the end, whatever is answered after it.
pub proof fn failure_is_kept(lane: LaneView, replies: Seq<Reply>, m: int)
    requires
        0 <= m < replies.len(),
        judged(before(lane, replies, m), replies[m]).failure is Some,
    ensures
        run_lane(lane, replies).failure == judged(before(lane, replies, m), replies[m]).failure,
    decreases replies.len(),
{
    let next = judged(lane, replies[0]);
    let rest = replies.drop_first();
    if m == 0 {
        assert(replies.take(0) =~= Seq::<Reply>::empty());
        lemma_stays(next, rest);
    } else {
        assert(replies.take(m).drop_first() =~= rest.take(m - 1));
        assert(replies.take(m)[0] == replies[0]);
        assert(rest[m - 1] == replies[m]);
        failure_is_kept(next, rest, m - 1);
    }
}

/// Every task that a script got past without failing was answered with a reply that led on.
pub proof fn every_task_is_answered(lane: LaneView, replies: Seq<Reply>, t: int)
    requires
        lane.at <= t < lane.tasks.len(),
        standing(lane.tasks[t]),
        run_lane(lane, replies).failure is None,
        run_lane(lane, replies).at > t,
    ensures
        exists|m: int|
            0 <= m < replies.len() && (#[trigger] before(lane, replies, m)).busy() && before(
                lane,
                replies,
                m,
            ).at == t && before(lane, replies, m).tasks == lane.tasks && passed(
                before(lane, replies, m),
                judged(before(lane, replies, m), replies[m]),
            ),
    decreases replies.len(),
{
    if replies.len() > 0 {
        let next = judged(lane, replies[0]);
        let rest = replies.drop_first();
        lemma_moves_on(lane, replies[0]);
        if next.failure is Some {
            lemma_stays(next, rest);
        }
        if !lane.busy() {
            lemma_stays(lane, replies);
        }
        if next.at > t {
            tasks_are_taken_in_turn(lane, replies[0]);
            if lane.at < t {
                assert(standing(lane.tasks[t]));
            }
            assert(replies.take(0) =~= Seq::<Reply>::empty());
            assert(before(lane, replies, 0) == lane);
            assert(passed(before(lane, replies, 0), judged(before(lane, replies, 0), replies[0])));
        } else {
            every_task_is_answered(next, rest, t);
            let m = choose|m: int|
                0 <= m < rest.len() && (#[trigger] before(next, rest, m)).busy() && before(
                    next,
                    rest,
                    m,
                ).at == t && before(next, rest, m).tasks == next.tasks && passed(
                    before(next, rest, m),
                    judged(before(next, rest, m), rest[m]),
                );
            assert(replies.take(m + 1).drop_first() =~= rest.take(m));
            assert(replies.take(m + 1)[0] == replies[0]);
            assert(before(lane, replies, m + 1) == before(next, rest, m));
            assert(replies[m + 1] == rest[m]);
        }
    }
}

proof fn lemma_task_answered(tasks: Seq<Task>, replies: Seq<Reply>, t: int) -> (m: int)
    requires
        0 <= t < tasks.len(),
        forall|k: int| 0 <= k <= t ==> standing(#[trigger] tasks[k]),
        through(LaneView::start(tasks), replies),
    ensures
        0 <= m < replies.len(),
        before(LaneView::start(tasks), replies, m).busy(),
        before(LaneView::start(tasks), replies, m).at == t,
        before(LaneView::start(tasks), replies, m).tasks == tasks,
        before(LaneView::start(tasks), replies, m).task() == tasks[t],
        passed(
            before(LaneView::start(tasks), replies, m),
            judged(before(LaneView::start(tasks), replies, m), replies[m]),
        ),
{
    let lane = LaneView::start(tasks);
    assert(standing(tasks[0]));
    lemma_starts(tasks);
    every_task_is_answered(lane, replies, t);
    choose|m: int|
        0 <= m < replies.len() && (#[trigger] before(lane, replies, m)).busy() && before(
            lane,
            replies,
            m,
        ).at == t && before(lane, replies, m).tasks == lane.tasks && passed(
            before(lane, replies, m),
            judged(before(lane, replies, m), replies[m]),
        )
}

proof fn lemma_appended(states: Seq<Seen>, batch: Seq<Seen>)
    ensures
        with_states(states, batch) matches Ok(all) ==> all == states + batch,
    decreases batch.len(),
{
    if batch.len() == 0 {
        assert(states + batch =~= states);
    } else {
        lemma_appended(states.push(batch[0]), batch.drop_first());
        assert(states.push(batch[0]) + batch.drop_first() =~= states + batch);
    }
}

proof fn lemma_at_grows(lane: LaneView, replies: Seq<Reply>, a: int, b: int)
    requires
        0 <= a <= b <= replies.len(),
        lane.at <= lane.tasks.len(),
    ensures
        before(lane, replies, a).at <= before(lane, replies, b).at,
        before(lane, replies, b).at >= lane.at,
    decreases replies.len(),
{
    if b > 0 {
        let next = judged(lane, replies[0]);
        let rest = replies.drop_first();
        lemma_moves_on(lane, replies[0]);
        assert(replies.take(b).drop_first() =~= rest.take(b - 1));
        assert(replies.take(b)[0] == replies[0]);
        if a > 0 {
            assert(replies.take(a).drop_first() =~= rest.take(a - 1));
            assert(replies.take(a)[0] == replies[0]);
            lemma_at_grows(next, rest, a - 1, b - 1);
        } else {
            assert(replies.take(0) =~= Seq::<Reply>::empty());
            lemma_at_grows(next, rest, 0, b - 1);
        }
    }
}

spec fn all_standing(tasks: Seq<Task>, t: int) -> bool {
    forall|k: int| 0 <= k <= t ==> standing(#[trigger] tasks[k])
}

proof fn lemma_refused(
    tasks: Seq<Task>,
    replies: Seq<Reply>,
    t: int,
    call: Call,
    wanted: spec_fn(Error) -> bool,
)
    requires
        0 <= t < tasks.len(),
        all_standing(tasks, t),
        through(LaneView::start(tasks), replies),
        match tasks[t] {
            Task::Refuse(asked, refusal) => asked == call && forall|error: Error|
                is_kind(error, refusal.kind) ==> #[trigger] wanted(error),
            Task::Drain(on, kind, _) => call == Call::Receive(on) && forall|error: Error|
                is_kind(error, kind) ==> #[trigger] wanted(error),
            Task::SendUntilClosed { on, .. } => call == Call::Send(on, Payload::Probe) && wanted(
                Error::Closed,
            ),
            _ => false,
        },
    ensures
        was_refused(LaneView::start(tasks), replies, call, wanted),
{
    let lane = LaneView::start(tasks);
    let m = lemma_task_answered(tasks, replies, t);
    let here = before(lane, replies, m);
    assert(answers(lane, replies, m, call));
    if let Reply::Failed(error) = replies[m] {
        assert(wanted(error));
    }
}

proof fn lemma_asked(tasks: Seq<Task>, replies: Seq<Reply>, t: int, call: Call)
    requires
        0 <= t < tasks.len(),
        all_standing(tasks, t),
        through(LaneView::start(tasks), replies),
        tasks[t] == Task::Do(call) || (tasks[t] matches Task::Succeed(asked, _) && asked == call),
    ensures
        was_asked(LaneView::start(tasks), replies, call),
{
    let lane = LaneView::start(tasks);
    let m = lemma_task_answered(tasks, replies, t);
    let here = before(lane, replies, m);
    assert(answers(lane, replies, m, call));
}

proof fn lemma_done(tasks: Seq<Task>, replies: Seq<Reply>, t: int, call: Call)
    requires
        0 <= t < tasks.len(),
        all_standing(tasks, t),
        through(LaneView::start(tasks), replies),
        match tasks[t] {
            Task::Succeed(asked, _) => asked == call,
            Task::SendStream(on) => call == Call::SendViaStream(on),
            _ => false,
        },
    ensures
        was_done(LaneView::start(tasks), replies, call),
{
    let lane = LaneView::start(tasks);
    let m = lemma_task_answered(tasks, replies, t);
    let here = before(lane, replies, m);
    assert(answers(lane, replies, m, call));
}

proof fn lemma_done_after(
    tasks: Seq<Task>,
    replies: Seq<Reply>,
    s: int,
    t: int,
    first: Call,
    call: Call,
)
    requires
        0 <= s < t < tasks.len(),
        all_standing(tasks, t),
        through(LaneView::start(tasks), replies),
        tasks[s] == Task::Do(first),
        tasks[t] matches Task::Succeed(asked, _) && asked == call,
    ensures
        was_done_after(LaneView::start(tasks), replies, first, call),
{
    let lane = LaneView::start(tasks);
    let a = lemma_task_answered(tasks, replies, s);
    let b = lemma_task_answered(tasks, replies, t);
    lemma_starts(tasks);
    if b <= a {
        lemma_at_grows(lane, replies, b, a);
    }
    assert(answers(lane, replies, a, first));
    assert(answers(lane, replies, b, call));
}

proof fn lemma_yielded(tasks: Seq<Task>, replies: Seq<Reply>, t: int, call: Call)
    requires
        0 <= t < tasks.len(),
        all_standing(tasks, t),
        through(LaneView::start(tasks), replies),
        tasks[t] matches Task::YieldNothing(asked, _, _) && asked == call,
    ensures
        yielded_nothing(LaneView::start(tasks), replies, call),
{
    let lane = LaneView::start(tasks);
    let m = lemma_task_answered(tasks, replies, t);
    let here = before(lane, replies, m);
    assert(answers(lane, replies, m, call));
}

proof fn lemma_expected(
    tasks: Seq<Task>,
    replies: Seq<Reply>,
    t: int,
    on: PeerRole,
    payload: Payload,
)
    requires
        0 <= t < tasks.len(),
        all_standing(tasks, t),
        through(LaneView::start(tasks), replies),
        tasks[t] matches Task::Expect(by, wanted, _) && by == on && wanted == payload,
    ensures
        was_received(LaneView::start(tasks), replies, on, payload),
{
    let lane = LaneView::start(tasks);
    let m = lemma_task_answered(tasks, replies, t);
    let here = before(lane, replies, m);
    assert(answers(lane, replies, m, Call::Receive(on)));
}

proof fn lemma_settled(tasks: Seq<Task>, replies: Seq<Reply>, t: int, call: Call)
    requires
        0 <= t < tasks.len(),
        all_standing(tasks, t),
        through(LaneView::start(tasks), replies),
        tasks[t] is OfferServers || tasks[t] is OfferRelay,
        call == call_of(tasks[t], 0),
    ensures
        was_settled(LaneView::start(tasks), replies, call),
{
    let lane = LaneView::start(tasks);
    let m = lemma_task_answered(tasks, replies, t);
    let here = before(lane, replies, m);
    assert(answers(lane, replies, m, call));
}

proof fn lemma_rejected(tasks: Seq<Task>, replies: Seq<Reply>, t: int, call: Call)
    requires
        0 <= t < tasks.len(),
        all_standing(tasks, t),
        through(LaneView::start(tasks), replies),
        tasks[t] is RejectServers,
        call == call_of(tasks[t], 0),
    ensures
        was_rejected(LaneView::start(tasks), replies, call),
{
    let lane = LaneView::start(tasks);
    let m = lemma_task_answered(tasks, replies, t);
    let here = before(lane, replies, m);
    assert(answers(lane, replies, m, call));
}

proof fn lemma_servers(tasks: Seq<Task>, replies: Seq<Reply>, t: int, wanted: spec_fn(bool) -> nat)
    requires
        0 <= t < tasks.len(),
        all_standing(tasks, t),
        through(LaneView::start(tasks), replies),
        tasks[t] is NoServers || tasks[t] is CheckServers,
        tasks[t] is NoServers ==> wanted(true) == 0 && wanted(false) == 0,
        tasks[t] is CheckServers ==> wanted(true) == 1 && wanted(false) == 0,
    ensures
        servers_shown(LaneView::start(tasks), replies, wanted),
{
    let lane = LaneView::start(tasks);
    let m = lemma_task_answered(tasks, replies, t);
    let here = before(lane, replies, m);
    assert(answers(lane, replies, m, Call::GetServers));
    assert(wanted(here.accepted) == 0 || wanted(here.accepted) == 1);
}

proof fn lemma_policy(
    tasks: Seq<Task>,
    replies: Seq<Reply>,
    t: int,
    wanted: spec_fn(bool) -> IceTransportPolicy,
)
    requires
        0 <= t < tasks.len(),
        all_standing(tasks, t),
        through(LaneView::start(tasks), replies),
        match tasks[t] {
            Task::PolicyIs(policy, _) => wanted(true) == policy && wanted(false) == policy,
            Task::CheckRelay => wanted(true) is Relay && wanted(false) is All,
            _ => false,
        },
    ensures
        policy_shown(LaneView::start(tasks), replies, wanted),
{
    let lane = LaneView::start(tasks);
    let m = lemma_task_answered(tasks, replies, t);
    let here = before(lane, replies, m);
    assert(answers(lane, replies, m, Call::GetPolicy));
    assert(replies[m] == Reply::Policy(wanted(here.accepted)));
}

proof fn lemma_first_read(
    tasks: Seq<Task>,
    replies: Seq<Reply>,
    t: int,
    stream: StateStream,
    wanted: Seen,
)
    requires
        0 <= t < tasks.len(),
        all_standing(tasks, t),
        through(LaneView::start(tasks), replies),
        tasks[t] matches Task::FirstState(read, state, _) && read == stream && state == wanted,
    ensures
        first_read(LaneView::start(tasks), replies, stream, wanted),
{
    let lane = LaneView::start(tasks);
    let m = lemma_task_answered(tasks, replies, t);
    let here = before(lane, replies, m);
    assert(answers(lane, replies, m, Call::ReadStates(stream)));
}

proof fn lemma_ended_empty(tasks: Seq<Task>, replies: Seq<Reply>, t: int, stream: StateStream)
    requires
        0 <= t < tasks.len(),
        all_standing(tasks, t),
        through(LaneView::start(tasks), replies),
        tasks[t] matches Task::DrainStates(read, StreamEnd::Nothing(_)) && read == stream,
    ensures
        ended_empty(LaneView::start(tasks), replies, stream),
{
    let lane = LaneView::start(tasks);
    let m = lemma_task_answered(tasks, replies, t);
    let here = before(lane, replies, m);
    assert(answers(lane, replies, m, Call::ReadStates(stream)));
    if let Reply::States { batch, .. } = replies[m] {
        lemma_appended(here.states, batch@);
    }
}

proof fn lemma_ended_closed(
    tasks: Seq<Task>,
    replies: Seq<Reply>,
    s: int,
    t: int,
    first: Call,
    stream: StateStream,
)
    requires
        0 <= s < t < tasks.len(),
        all_standing(tasks, t),
        through(LaneView::start(tasks), replies),
        tasks[s] == Task::Do(first),
        tasks[t] matches Task::DrainStates(read, StreamEnd::Closed(_)) && read == stream,
    ensures
        ended_closed_after(LaneView::start(tasks), replies, first, stream),
{
    let lane = LaneView::start(tasks);
    let a = lemma_task_answered(tasks, replies, s);
    let b = lemma_task_answered(tasks, replies, t);
    lemma_starts(tasks);
    if b <= a {
        lemma_at_grows(lane, replies, b, a);
    }
    assert(answers(lane, replies, a, first));
    assert(answers(lane, replies, b, Call::ReadStates(stream)));
    if let Reply::States { batch, .. } = replies[b] {
        lemma_appended(before(lane, replies, b).states, batch@);
    }
}

proof fn lemma_received_whole(
    tasks: Seq<Task>,
    replies: Seq<Reply>,
    t: int,
    on: PeerRole,
    count: u32,
)
    requires
        0 <= t < tasks.len(),
        all_standing(tasks, t),
        through(LaneView::start(tasks), replies),
        tasks[t] == (Task::ReceiveAll { on, count, ordered: false }),
    ensures
        was_received_whole(LaneView::start(tasks), replies, on, count as nat),
{
    let lane = LaneView::start(tasks);
    let m = lemma_task_answered(tasks, replies, t);
    let here = before(lane, replies, m);
    assert(answers(lane, replies, m, Call::Receive(on)));
    if let Reply::Message(message) = replies[m] {
        messages_are_judged(here, message);
    }
}

proof fn lemma_read_whole(tasks: Seq<Task>, replies: Seq<Reply>, t: int, on: PeerRole, count: u32)
    requires
        0 <= t < tasks.len(),
        all_standing(tasks, t),
        through(LaneView::start(tasks), replies),
        tasks[t] == (Task::ReadAll { on, count }),
    ensures
        was_read_whole(LaneView::start(tasks), replies, on, count as nat),
{
    let lane = LaneView::start(tasks);
    let m = lemma_task_answered(tasks, replies, t);
    let here = before(lane, replies, m);
    assert(answers(lane, replies, m, Call::ReadStream(on)));
    if let Reply::Items { batch, ended } = replies[m] {
        streamed_messages_are_judged(here, batch, ended);
    }
}

// ----- the cases of one instance -------------------------------------------------------

/// The test of malformed signaling passes only if the malformed description was refused as
/// such.
pub proof fn malformed_signaling_must_be_refused(replies: Seq<Reply>)
    requires
        through(LaneView::start(invalid_sdp()), replies),
    ensures
        was_refused(
            LaneView::start(invalid_sdp()),
            replies,
            Call::SetRemote(
                PeerRole::Offerer,
                Description::Fixed(SdpType::Offer, "this is not valid sdp"),
            ),
            |error: Error| error is InvalidSignaling,
        ),
{
    let tasks = invalid_sdp();
    assert(all_standing(tasks, 1));
    lemma_refused(
        tasks,
        replies,
        1,
        Call::SetRemote(
            PeerRole::Offerer,
            Description::Fixed(SdpType::Offer, "this is not valid sdp"),
        ),
        |error: Error| error is InvalidSignaling,
    );
}

/// The overflow test passes only if the receiver was told of an overflow, and the flooder
/// of an overflow or a close.
pub proof fn overflow_must_be_reported(count: u32, size: u32, replies: Seq<Reply>)
    requires
        count > 0,
        through(LaneView::start(overflowing(count, size)), replies),
    ensures
        was_refused(
            LaneView::start(overflowing(count, size)),
            replies,
            Call::Receive(PeerRole::Answerer),
            |error: Error| error is ReceiveBufferOverflow,
        ),
        was_refused(
            LaneView::start(overflowing(count, size)),
            replies,
            Call::Receive(PeerRole::Offerer),
            |error: Error| error is Closed || error is ReceiveBufferOverflow,
        ),
{
    let tasks = overflowing(count, size);
    assert(all_standing(tasks, 2));
    lemma_refused(
        tasks,
        replies,
        2,
        Call::Receive(PeerRole::Answerer),
        |error: Error| error is ReceiveBufferOverflow,
    );
    lemma_refused(
        tasks,
        replies,
        1,
        Call::Receive(PeerRole::Offerer),
        |error: Error| error is Closed || error is ReceiveBufferOverflow,
    );
}

/// The test of a closed receive passes only if a receive of the peer that closed was refused
/// as closed.
pub proof fn close_must_be_reported(replies: Seq<Reply>)
    requires
        through(LaneView::start(closed_receive()), replies),
    ensures
        was_refused(
            LaneView::start(closed_receive()),
            replies,
            Call::Receive(PeerRole::Offerer),
            |error: Error| error is Closed,
        ),
        was_asked(LaneView::start(closed_receive()), replies, Call::ClosePeer(PeerRole::Offerer)),
{
    let tasks = closed_receive();
    assert(all_standing(tasks, 1));
    lemma_refused(
        tasks,
        replies,
        1,
        Call::Receive(PeerRole::Offerer),
        |error: Error| error is Closed,
    );
    lemma_asked(tasks, replies, 0, Call::ClosePeer(PeerRole::Offerer));
}

/// The test of a wait without a peer passes only if the wait timed out.
pub proof fn timeout_must_be_reported(replies: Seq<Reply>)
    requires
        through(LaneView::start(timing_out()), replies),
    ensures
        was_refused(
            LaneView::start(timing_out()),
            replies,
            Call::WaitConnected(PeerRole::Offerer),
            |error: Error| error is TimedOut,
        ),
{
    let tasks = timing_out();
    assert(all_standing(tasks, 0));
    lemma_refused(
        tasks,
        replies,
        0,
        Call::WaitConnected(PeerRole::Offerer),
        |error: Error| error is TimedOut,
    );
}

/// The test of a send after the close passes only if a send was refused as closed.
pub proof fn closed_send_must_fail(replies: Seq<Reply>)
    requires
        through(LaneView::start(closed_send()), replies),
    ensures
        was_refused(
            LaneView::start(closed_send()),
            replies,
            Call::Send(PeerRole::Offerer, Payload::Probe),
            |error: Error| error is Closed,
        ),
        was_asked(LaneView::start(closed_send()), replies, Call::ClosePeer(PeerRole::Offerer)),
{
    let tasks = closed_send();
    assert(all_standing(tasks, 1));
    lemma_refused(
        tasks,
        replies,
        1,
        Call::Send(PeerRole::Offerer, Payload::Probe),
        |error: Error| error is Closed,
    );
    lemma_asked(tasks, replies, 0, Call::ClosePeer(PeerRole::Offerer));
}

/// The test of the latch passes only if the connection was still reported as established
/// after it was closed.
pub proof fn latch_must_hold(replies: Seq<Reply>)
    requires
        through(LaneView::start(latching()), replies),
    ensures
        was_done_after(
            LaneView::start(latching()),
            replies,
            Call::ClosePeer(PeerRole::Offerer),
            Call::WaitConnected(PeerRole::Offerer),
        ),
{
    let tasks = latching();
    assert(all_standing(tasks, 2));
    lemma_done_after(
        tasks,
        replies,
        1,
        2,
        Call::ClosePeer(PeerRole::Offerer),
        Call::WaitConnected(PeerRole::Offerer),
    );
}

/// The test of streams that are taken once passes only if each, taken again, yielded nothing.
pub proof fn streams_must_be_taken_once(replies: Seq<Reply>)
    requires
        through(LaneView::start(streaming_once()), replies),
    ensures
        yielded_nothing(
            LaneView::start(streaming_once()),
            replies,
            Call::CollectCandidates(PeerRole::Offerer),
        ),
        yielded_nothing(
            LaneView::start(streaming_once()),
            replies,
            Call::ReadIncoming(PeerRole::Answerer),
        ),
{
    let tasks = streaming_once();
    assert(all_standing(tasks, 1));
    lemma_yielded(tasks, replies, 0, Call::CollectCandidates(PeerRole::Offerer));
    lemma_yielded(tasks, replies, 1, Call::ReadIncoming(PeerRole::Answerer));
}

/// The test of signaling after the close passes only if every operation of it was refused as
/// closed.
pub proof fn closed_signaling_must_fail(replies: Seq<Reply>)
    requires
        through(LaneView::start(closed_signaling()), replies),
    ensures
        was_refused(
            LaneView::start(closed_signaling()),
            replies,
            Call::CreateOffer(PeerRole::Offerer),
            |error: Error| error is Closed,
        ),
        was_refused(
            LaneView::start(closed_signaling()),
            replies,
            Call::CreateAnswer(PeerRole::Offerer),
            |error: Error| error is Closed,
        ),
        was_refused(
            LaneView::start(closed_signaling()),
            replies,
            Call::SetLocal(PeerRole::Offerer, Description::Fixed(SdpType::Offer, "not sdp")),
            |error: Error| error is Closed,
        ),
        was_refused(
            LaneView::start(closed_signaling()),
            replies,
            Call::SetRemote(PeerRole::Offerer, Description::Fixed(SdpType::Offer, "not sdp")),
            |error: Error| error is Closed,
        ),
        was_refused(
            LaneView::start(closed_signaling()),
            replies,
            Call::AddFixedCandidate(PeerRole::Offerer, "not a candidate"),
            |error: Error| error is Closed,
        ),
        was_refused(
            LaneView::start(closed_signaling()),
            replies,
            Call::CreateChannel(PeerRole::Offerer, ChannelOptions::Plain),
            |error: Error| error is Closed,
        ),
        was_asked(LaneView::start(closed_signaling()), replies, Call::ClosePeer(PeerRole::Offerer)),
{
    let tasks = closed_signaling();
    assert(all_standing(tasks, 7));
    lemma_refused(
        tasks,
        replies,
        2,
        Call::CreateOffer(PeerRole::Offerer),
        |error: Error| error is Closed,
    );
    lemma_refused(
        tasks,
        replies,
        3,
        Call::CreateAnswer(PeerRole::Offerer),
        |error: Error| error is Closed,
    );
    lemma_refused(
        tasks,
        replies,
        4,
        Call::SetLocal(PeerRole::Offerer, Description::Fixed(SdpType::Offer, "not sdp")),
        |error: Error| error is Closed,
    );
    lemma_refused(
        tasks,
        replies,
        5,
        Call::SetRemote(PeerRole::Offerer, Description::Fixed(SdpType::Offer, "not sdp")),
        |error: Error| error is Closed,
    );
    lemma_refused(
        tasks,
        replies,
        6,
        Call::AddFixedCandidate(PeerRole::Offerer, "not a candidate"),
        |error: Error| error is Closed,
    );
    lemma_refused(
        tasks,
        replies,
        7,
        Call::CreateChannel(PeerRole::Offerer, ChannelOptions::Plain),
        |error: Error| error is Closed,
    );
    lemma_asked(tasks, replies, 1, Call::ClosePeer(PeerRole::Offerer));
}

/// The test of the streaming send passes only if the send ran to the end of its feed.
pub proof fn streamed_send_must_end(replies: Seq<Reply>)
    requires
        through(LaneView::start(stream_sending()), replies),
    ensures
        was_done(
            LaneView::start(stream_sending()),
            replies,
            Call::SendViaStream(PeerRole::Offerer),
        ),
{
    let tasks = stream_sending();
    assert(all_standing(tasks, 0));
    lemma_done(tasks, replies, 0, Call::SendViaStream(PeerRole::Offerer));
}

/// It passes only if what was fed was received, whole.
pub proof fn streamed_corpus_must_arrive(count: u32, replies: Seq<Reply>)
    requires
        count > 0,
        through(LaneView::start(receiving(count)), replies),
    ensures
        was_received_whole(
            LaneView::start(receiving(count)),
            replies,
            PeerRole::Answerer,
            count as nat,
        ),
{
    let tasks = receiving(count);
    assert(all_standing(tasks, 0));
    lemma_received_whole(tasks, replies, 0, PeerRole::Answerer, count);
}

/// The test of the streaming receive passes only if the claim succeeded and the corpus was
/// read from it, whole.
pub proof fn stream_must_deliver_the_corpus(count: u32, size: u32, replies: Seq<Reply>)
    requires
        count > 0,
        through(LaneView::start(stream_receiving(count, size)), replies),
    ensures
        was_done(
            LaneView::start(stream_receiving(count, size)),
            replies,
            Call::ReceiveViaStream(PeerRole::Answerer),
        ),
        was_read_whole(
            LaneView::start(stream_receiving(count, size)),
            replies,
            PeerRole::Answerer,
            count as nat,
        ),
{
    let tasks = stream_receiving(count, size);
    assert(all_standing(tasks, 2));
    lemma_done(tasks, replies, 1, Call::ReceiveViaStream(PeerRole::Answerer));
    lemma_read_whole(tasks, replies, 2, PeerRole::Answerer, count);
}

/// The test of the single claim passes only if a receive that was waiting was refused in
/// favour of the stream.
pub proof fn pending_receive_must_yield(replies: Seq<Reply>)
    requires
        through(LaneView::start(pending_receive()), replies),
    ensures
        was_refused(
            LaneView::start(pending_receive()),
            replies,
            Call::Receive(PeerRole::Answerer),
            |error: Error| error is ReceivingViaStream,
        ),
{
    let tasks = pending_receive();
    assert(all_standing(tasks, 0));
    lemma_refused(
        tasks,
        replies,
        0,
        Call::Receive(PeerRole::Answerer),
        |error: Error| error is ReceivingViaStream,
    );
}

/// It passes only if a second claim and a later receive were refused in favour of the stream.
pub proof fn second_claim_must_fail(replies: Seq<Reply>)
    requires
        through(LaneView::start(claimed()), replies),
    ensures
        was_refused(
            LaneView::start(claimed()),
            replies,
            Call::ReceiveViaStream(PeerRole::Answerer),
            |error: Error| error is ReceivingViaStream,
        ),
        was_refused(
            LaneView::start(claimed()),
            replies,
            Call::Receive(PeerRole::Answerer),
            |error: Error| error is ReceivingViaStream,
        ),
{
    let tasks = claimed();
    assert(all_standing(tasks, 1));
    lemma_refused(
        tasks,
        replies,
        0,
        Call::ReceiveViaStream(PeerRole::Answerer),
        |error: Error| error is ReceivingViaStream,
    );
    lemma_refused(
        tasks,
        replies,
        1,
        Call::Receive(PeerRole::Answerer),
        |error: Error| error is ReceivingViaStream,
    );
}

/// The test of the defaults passes only if no server was shown, the policy was to use all, and
/// an offer could be created.
pub proof fn defaults_must_be_shown(replies: Seq<Reply>)
    requires
        through(LaneView::start(config_defaults()), replies),
    ensures
        servers_shown(LaneView::start(config_defaults()), replies, |accepted: bool| 0nat),
        policy_shown(
            LaneView::start(config_defaults()),
            replies,
            |accepted: bool| IceTransportPolicy::All,
        ),
        was_done(LaneView::start(config_defaults()), replies, Call::CreateOffer(PeerRole::Offerer)),
{
    let tasks = config_defaults();
    assert(all_standing(tasks, 5));
    lemma_servers(tasks, replies, 1, |accepted: bool| 0nat);
    lemma_policy(tasks, replies, 2, |accepted: bool| IceTransportPolicy::All);
    lemma_done(tasks, replies, 5, Call::CreateOffer(PeerRole::Offerer));
}

/// The test of the setters passes only if what was set was taken or refused as not supported,
/// and the getters showed it exactly if it was taken.
pub proof fn settings_must_be_honest(replies: Seq<Reply>)
    requires
        through(LaneView::start(config_setters()), replies),
    ensures
        was_settled(LaneView::start(config_setters()), replies, Call::SetServers(ServerList::Stun)),
        servers_shown(
            LaneView::start(config_setters()),
            replies,
            |accepted: bool|
                if accepted {
                    1nat
                } else {
                    0nat
                },
        ),
        was_settled(
            LaneView::start(config_setters()),
            replies,
            Call::SetPolicy(IceTransportPolicy::Relay),
        ),
        policy_shown(
            LaneView::start(config_setters()),
            replies,
            |accepted: bool|
                if accepted {
                    IceTransportPolicy::Relay
                } else {
                    IceTransportPolicy::All
                },
        ),
{
    let tasks = config_setters();
    assert(all_standing(tasks, 4));
    lemma_settled(tasks, replies, 1, Call::SetServers(ServerList::Stun));
    lemma_servers(
        tasks,
        replies,
        2,
        |accepted: bool|
                if accepted {
                    1nat
                } else {
                    0nat
                },
    );
    lemma_settled(tasks, replies, 3, Call::SetPolicy(IceTransportPolicy::Relay));
    lemma_policy(
        tasks,
        replies,
        4,
        |accepted: bool|
                if accepted {
                    IceTransportPolicy::Relay
                } else {
                    IceTransportPolicy::All
                },
    );
}

/// The test of invalid servers passes only if each was refused.
pub proof fn bad_servers_must_be_refused(replies: Seq<Reply>)
    requires
        through(LaneView::start(config_rejects()), replies),
    ensures
        was_rejected(
            LaneView::start(config_rejects()),
            replies,
            Call::SetServers(ServerList::WithoutUrls),
        ),
        was_rejected(
            LaneView::start(config_rejects()),
            replies,
            Call::SetServers(ServerList::ForeignScheme),
        ),
{
    let tasks = config_rejects();
    assert(all_standing(tasks, 2));
    lemma_rejected(tasks, replies, 1, Call::SetServers(ServerList::WithoutUrls));
    lemma_rejected(tasks, replies, 2, Call::SetServers(ServerList::ForeignScheme));
}

/// The test of a connection's watch passes only if the watch first read connected, a second one
/// ended without a state, and the first one ended in closed after the close.
pub proof fn connection_watch_must_report(replies: Seq<Reply>)
    requires
        through(LaneView::start(connection_watch()), replies),
    ensures
        first_read(
            LaneView::start(connection_watch()),
            replies,
            (StateStream { of: Watched::Connection(PeerRole::Offerer), first: true }),
            Seen::Connection(ConnectionState::Connected),
        ),
        ended_empty(
            LaneView::start(connection_watch()),
            replies,
            (StateStream { of: Watched::Connection(PeerRole::Offerer), first: false }),
        ),
        ended_closed_after(
            LaneView::start(connection_watch()),
            replies,
            Call::ClosePeer(PeerRole::Offerer),
            (StateStream { of: Watched::Connection(PeerRole::Offerer), first: true }),
        ),
{
    let tasks = connection_watch();
    assert(all_standing(tasks, 5));
    lemma_first_read(
        tasks,
        replies,
        1,
        StateStream { of: Watched::Connection(PeerRole::Offerer), first: true },
        Seen::Connection(ConnectionState::Connected),
    );
    lemma_ended_empty(
        tasks,
        replies,
        3,
        StateStream { of: Watched::Connection(PeerRole::Offerer), first: false },
    );
    lemma_ended_closed(
        tasks,
        replies,
        4,
        5,
        Call::ClosePeer(PeerRole::Offerer),
        StateStream { of: Watched::Connection(PeerRole::Offerer), first: true },
    );
}

/// The test of a channel's watch passes only if the watch first read open, a second one ended
/// without a state, and the first one ended in closed after the close.
pub proof fn channel_watch_must_report(replies: Seq<Reply>)
    requires
        through(LaneView::start(channel_watch()), replies),
    ensures
        first_read(
            LaneView::start(channel_watch()),
            replies,
            (StateStream { of: Watched::Channel(PeerRole::Offerer), first: true }),
            Seen::Channel(DataChannelState::Open),
        ),
        ended_empty(
            LaneView::start(channel_watch()),
            replies,
            (StateStream { of: Watched::Channel(PeerRole::Offerer), first: false }),
        ),
        ended_closed_after(
            LaneView::start(channel_watch()),
            replies,
            Call::CloseChannel(PeerRole::Offerer),
            (StateStream { of: Watched::Channel(PeerRole::Offerer), first: true }),
        ),
{
    let tasks = channel_watch();
    assert(all_standing(tasks, 5));
    lemma_first_read(
        tasks,
        replies,
        1,
        StateStream { of: Watched::Channel(PeerRole::Offerer), first: true },
        Seen::Channel(DataChannelState::Open),
    );
    lemma_ended_empty(
        tasks,
        replies,
        3,
        StateStream { of: Watched::Channel(PeerRole::Offerer), first: false },
    );
    lemma_ended_closed(
        tasks,
        replies,
        4,
        5,
        Call::CloseChannel(PeerRole::Offerer),
        StateStream { of: Watched::Channel(PeerRole::Offerer), first: true },
    );
}

/// The test of a closed channel passes only if a receive, a send and a claim on it were each
/// refused as closed, although a message had been sent to it.
pub proof fn closed_channel_must_refuse(replies: Seq<Reply>)
    requires
        through(LaneView::start(channel_closed()), replies),
    ensures
        was_asked(
            LaneView::start(channel_closed()),
            replies,
            Call::Send(PeerRole::Answerer, Payload::Ping),
        ),
        was_refused(
            LaneView::start(channel_closed()),
            replies,
            Call::Receive(PeerRole::Offerer),
            |error: Error| ends_in(described(error), "closed"@),
        ),
        was_refused(
            LaneView::start(channel_closed()),
            replies,
            Call::Send(PeerRole::Offerer, Payload::Late),
            |error: Error| error is Closed,
        ),
        was_refused(
            LaneView::start(channel_closed()),
            replies,
            Call::ReceiveViaStream(PeerRole::Offerer),
            |error: Error| error is Closed,
        ),
{
    let tasks = channel_closed();
    assert(all_standing(tasks, 5));
    lemma_asked(tasks, replies, 0, Call::Send(PeerRole::Answerer, Payload::Ping));
    assert forall|error: Error| is_kind(error, ErrorKind::ReadsClosed) implies ends_in(
        described(error),
        "closed"@,
    ) by {
        lemma_reads_closed(error);
    }
    lemma_refused(
        tasks,
        replies,
        3,
        Call::Receive(PeerRole::Offerer),
        |error: Error| ends_in(described(error), "closed"@),
    );
    lemma_refused(
        tasks,
        replies,
        4,
        Call::Send(PeerRole::Offerer, Payload::Late),
        |error: Error| error is Closed,
    );
    lemma_refused(
        tasks,
        replies,
        5,
        Call::ReceiveViaStream(PeerRole::Offerer),
        |error: Error| error is Closed,
    );
}

/// The test of a dropped channel passes only if what was sent before was received, and then
/// the close.
pub proof fn dropped_channel_must_close(replies: Seq<Reply>)
    requires
        through(LaneView::start(channel_dropped()), replies),
    ensures
        was_received(
            LaneView::start(channel_dropped()),
            replies,
            PeerRole::Answerer,
            Payload::Probe,
        ),
        was_refused(
            LaneView::start(channel_dropped()),
            replies,
            Call::Receive(PeerRole::Answerer),
            |error: Error| ends_in(described(error), "closed"@),
        ),
        was_asked(
            LaneView::start(channel_dropped()),
            replies,
            Call::DropChannel(PeerRole::Offerer),
        ),
{
    let tasks = channel_dropped();
    assert(all_standing(tasks, 3));
    lemma_expected(tasks, replies, 2, PeerRole::Answerer, Payload::Probe);
    assert forall|error: Error| is_kind(error, ErrorKind::ReadsClosed) implies ends_in(
        described(error),
        "closed"@,
    ) by {
        lemma_reads_closed(error);
    }
    lemma_refused(
        tasks,
        replies,
        3,
        Call::Receive(PeerRole::Answerer),
        |error: Error| ends_in(described(error), "closed"@),
    );
    lemma_asked(tasks, replies, 1, Call::DropChannel(PeerRole::Offerer));
}

/// The round trip passes only if what was sent was answered, and the answer received.
pub proof fn round_trip_must_come_back(replies: Seq<Reply>)
    requires
        through(LaneView::start(pinging()), replies),
    ensures
        was_received(LaneView::start(pinging()), replies, PeerRole::Offerer, Payload::Pong),
        was_done(LaneView::start(pinging()), replies, Call::Send(PeerRole::Offerer, Payload::Ping)),
{
    let tasks = pinging();
    assert(all_standing(tasks, 1));
    lemma_expected(tasks, replies, 1, PeerRole::Offerer, Payload::Pong);
    lemma_done(tasks, replies, 0, Call::Send(PeerRole::Offerer, Payload::Ping));
}

/// The other half of the round trip passes only if it received what it then answers.
pub proof fn round_trip_must_arrive(replies: Seq<Reply>)
    requires
        through(LaneView::start(ponging()), replies),
    ensures
        was_received(LaneView::start(ponging()), replies, PeerRole::Answerer, Payload::Ping),
        was_done(
            LaneView::start(ponging()),
            replies,
            Call::Send(PeerRole::Answerer, Payload::Pong),
        ),
{
    let tasks = ponging();
    assert(all_standing(tasks, 1));
    lemma_expected(tasks, replies, 0, PeerRole::Answerer, Payload::Ping);
    lemma_done(tasks, replies, 1, Call::Send(PeerRole::Answerer, Payload::Pong));
}

spec fn key(id: Seq<char>) -> (nat, char, char) {
    (id.len(), id[0], id[8])
}

proof fn lemma_keys()
    ensures
        key("error-invalid-signaling"@) == (23nat, 'e', 'v'),
        key("peer-invalid-sdp"@) == (16nat, 'p', 'a'),
        key("receive-buffer-overflow"@) == (23nat, 'r', 'b'),
        key("error-closed"@) == (12nat, 'e', 'o'),
        key("error-timed-out"@) == (15nat, 'e', 'm'),
        key("post-close-send"@) == (15nat, 'p', 's'),
        key("peer-wait-connected-latch"@) == (25nat, 'p', 't'),
        key("peer-streams-once"@) == (17nat, 'p', 'e'),
        key("post-close-signaling"@) == (20nat, 'p', 's'),
        key("send-via-stream"@) == (15nat, 's', '-'),
        key("receive-via-stream"@) == (18nat, 'r', 'v'),
        key("receive-via-stream-once"@) == (23nat, 'r', 'v'),
        key("config-defaults"@) == (15nat, 'c', 'e'),
        key("config-setters-contract"@) == (23nat, 'c', 'e'),
        key("config-invalid-ice-server"@) == (25nat, 'c', 'n'),
        key("connection-state-changes"@) == (24nat, 'c', 'o'),
        key("channel-state-changes"@) == (21nat, 'c', 's'),
        key("channel-post-close-receive"@) == (26nat, 'c', 'p'),
        key("channel-drop-implies-close"@) == (26nat, 'c', 'd'),
{
    reveal_strlit("error-invalid-signaling");
    reveal_strlit("peer-invalid-sdp");
    reveal_strlit("receive-buffer-overflow");
    reveal_strlit("error-closed");
    reveal_strlit("error-timed-out");
    reveal_strlit("post-close-send");
    reveal_strlit("peer-wait-connected-latch");
    reveal_strlit("peer-streams-once");
    reveal_strlit("post-close-signaling");
    reveal_strlit("send-via-stream");
    reveal_strlit("receive-via-stream");
    reveal_strlit("receive-via-stream-once");
    reveal_strlit("config-defaults");
    reveal_strlit("config-setters-contract");
    reveal_strlit("config-invalid-ice-server");
    reveal_strlit("connection-state-changes");
    reveal_strlit("channel-state-changes");
    reveal_strlit("channel-post-close-receive");
    reveal_strlit("channel-drop-implies-close");
}

/// The left script of a phase of a test that runs in one instance.
pub open spec fn script_of(id: Seq<char>, phase: int) -> Seq<Task> {
    solo_script(id).phases[phase].left
}

/// Each test that runs in one instance has the script that its law speaks of, behind the
/// phases that connect the peers where it needs them connected.
pub proof fn each_test_has_its_script()
    ensures
        script_of("error-invalid-signaling"@, 0) == invalid_sdp(),
        script_of("peer-invalid-sdp"@, 0) == invalid_sdp(),
        script_of("receive-buffer-overflow"@, 3) == overflowing(
            at_least(workload("receive-buffer-overflow"@).0, 1),
            workload("receive-buffer-overflow"@).1,
        ),
        script_of("error-closed"@, 3) == closed_receive(),
        script_of("error-timed-out"@, 1) == timing_out(),
        script_of("post-close-send"@, 3) == closed_send(),
        script_of("peer-wait-connected-latch"@, 3) == latching(),
        script_of("peer-streams-once"@, 3) == streaming_once(),
        script_of("post-close-signaling"@, 0) == closed_signaling(),
        script_of("send-via-stream"@, 3) == stream_sending(),
        script_of("send-via-stream"@, 4) == receiving(at_least(workload("send-via-stream"@).0, 1)),
        script_of("receive-via-stream"@, 3) == stream_receiving(
            at_least(workload("receive-via-stream"@).0, 1),
            at_least(workload("receive-via-stream"@).1, 16),
        ),
        script_of("receive-via-stream-once"@, 3) == pending_receive(),
        script_of("receive-via-stream-once"@, 4) == claimed(),
        script_of("config-defaults"@, 0) == config_defaults(),
        script_of("config-setters-contract"@, 0) == config_setters(),
        script_of("config-invalid-ice-server"@, 0) == config_rejects(),
        script_of("connection-state-changes"@, 3) == connection_watch(),
        script_of("channel-state-changes"@, 3) == pinging(),
        script_of("channel-state-changes"@, 4) == channel_watch(),
        script_of("channel-post-close-receive"@, 3) == pinging(),
        script_of("channel-post-close-receive"@, 4) == channel_closed(),
        script_of("channel-drop-implies-close"@, 3) == channel_dropped(),
{
    lemma_keys();
}

/// A receiver that is told anything but an overflow fails the overflow test, whatever it was
/// sent before and whatever is answered after.
pub proof fn overflow_is_not_a_close(
    count: u32,
    size: u32,
    replies: Seq<Reply>,
    m: int,
    error: Error,
    ends: Seq<(Option<Seq<char>>, Option<Seq<char>>)>,
)
    requires
        answers(
            LaneView::start(overflowing(count, size)),
            replies,
            m,
            Call::Receive(PeerRole::Answerer),
        ),
        replies[m] == Reply::Failed(error),
        !(error is ReceiveBufferOverflow),
        ends.len() == 4,
        ends[3].0 == run_lane(LaneView::start(overflowing(count, size)), replies).failure,
    ensures
        run_lane(LaneView::start(overflowing(count, size)), replies).failure == Some(
            "expected receive-buffer-overflow, got "@ + described(error),
        ),
        run_through(RunView::start(solo_script("receive-buffer-overflow"@)), ends).failure is Some,
{
    let tasks = overflowing(count, size);
    let lane = LaneView::start(tasks);
    let here = before(lane, replies, m);
    lemma_starts(tasks);
    lemma_keeps_script(lane, replies.take(m));
    assert(here.tasks == tasks);
    assert(here.task() == tasks[2]) by {
        assert(tasks[0] is Flood && tasks[1] is Refuse && tasks[3] is Do && tasks[4] is Do);
    }
    errors_are_never_passed_over(here, error);
    failure_is_kept(lane, replies, m);
    lemma_keys();
    let case = solo_script("receive-buffer-overflow"@);
    assert(case.phases.len() == 4);
    verdict_is_that_of_every_phase(case, ends);
}

proof fn lemma_keeps_script(lane: LaneView, replies: Seq<Reply>)
    requires
        lane.at <= lane.tasks.len(),
    ensures
        run_lane(lane, replies).tasks == lane.tasks,
    decreases replies.len(),
{
    if replies.len() > 0 {
        lemma_moves_on(lane, replies[0]);
        lemma_keeps_script(judged(lane, replies[0]), replies.drop_first());
    }
}

/// Two peers count as connected only if every step of the offer and the answer succeeded, each
/// description set where it was made and where it was sent.
pub proof fn peers_must_be_connected(required: bool, replies: Seq<Reply>)
    requires
        through(LaneView::start(connecting(required)), replies),
    ensures
        was_done(
            LaneView::start(connecting(required)),
            replies,
            Call::CreateChannel(PeerRole::Offerer, ChannelOptions::Labelled),
        ),
        was_done(
            LaneView::start(connecting(required)),
            replies,
            Call::CreateOffer(PeerRole::Offerer),
        ),
        was_done(
            LaneView::start(connecting(required)),
            replies,
            Call::SetLocal(PeerRole::Offerer, Description::Offer),
        ),
        was_done(
            LaneView::start(connecting(required)),
            replies,
            Call::SetRemote(PeerRole::Answerer, Description::Offer),
        ),
        was_done(
            LaneView::start(connecting(required)),
            replies,
            Call::CreateAnswer(PeerRole::Answerer),
        ),
        was_done(
            LaneView::start(connecting(required)),
            replies,
            Call::SetLocal(PeerRole::Answerer, Description::Answer),
        ),
        was_done(
            LaneView::start(connecting(required)),
            replies,
            Call::SetRemote(PeerRole::Offerer, Description::Answer),
        ),
{
    let tasks = connecting(required);
    assert(all_standing(tasks, 8));
    lemma_done(tasks, replies, 2, Call::CreateChannel(PeerRole::Offerer, ChannelOptions::Labelled));
    lemma_done(tasks, replies, 3, Call::CreateOffer(PeerRole::Offerer));
    lemma_done(tasks, replies, 4, Call::SetLocal(PeerRole::Offerer, Description::Offer));
    lemma_done(tasks, replies, 5, Call::SetRemote(PeerRole::Answerer, Description::Offer));
    lemma_done(tasks, replies, 6, Call::CreateAnswer(PeerRole::Answerer));
    lemma_done(tasks, replies, 7, Call::SetLocal(PeerRole::Answerer, Description::Answer));
    lemma_done(tasks, replies, 8, Call::SetRemote(PeerRole::Offerer, Description::Answer));
}

/// The offerer must see the connection established.
pub proof fn offerer_must_connect(replies: Seq<Reply>)
    requires
        through(LaneView::start(offerer_connected()), replies),
    ensures
        was_done(
            LaneView::start(offerer_connected()),
            replies,
            Call::WaitConnected(PeerRole::Offerer),
        ),
{
    let tasks = offerer_connected();
    assert(all_standing(tasks, 0));
    lemma_done(tasks, replies, 0, Call::WaitConnected(PeerRole::Offerer));
}

/// The answerer must see the connection established.
pub proof fn answerer_must_connect(replies: Seq<Reply>)
    requires
        through(LaneView::start(answerer_connected()), replies),
    ensures
        was_done(
            LaneView::start(answerer_connected()),
            replies,
            Call::WaitConnected(PeerRole::Answerer),
        ),
{
    let tasks = answerer_connected();
    assert(all_standing(tasks, 0));
    lemma_done(tasks, replies, 0, Call::WaitConnected(PeerRole::Answerer));
}

/// The answerer must have been given the channel.
pub proof fn channel_must_come_in(replies: Seq<Reply>)
    requires
        through(LaneView::start(adopting()), replies),
    ensures
        exists|m: int| #[trigger]
            answers(
                LaneView::start(adopting()),
                replies,
                m,
                Call::ReadIncoming(PeerRole::Answerer),
            ) && (replies[m] matches Reply::Yielded(n) && n > 0),
{
    let tasks = adopting();
    assert(all_standing(tasks, 0));
    let m = lemma_task_answered(tasks, replies, 0);
    assert(answers(LaneView::start(tasks), replies, m, Call::ReadIncoming(PeerRole::Answerer)));
}

/// Where candidates are required, both peers must have gathered some.
pub proof fn candidates_must_be_gathered(replies: Seq<Reply>)
    requires
        through(LaneView::start(connecting(true)), replies),
    ensures
        exists|m: int| #[trigger]
            answers(
                LaneView::start(connecting(true)),
                replies,
                m,
                Call::CollectCandidates(PeerRole::Answerer),
            ) && (replies[m] matches Reply::Yielded(n) && n > 0) && before(
                LaneView::start(connecting(true)),
                replies,
                m,
            ).offered > 0,
{
    let tasks = connecting(true);
    assert(all_standing(tasks, 10));
    let m = lemma_task_answered(tasks, replies, 10);
    assert(answers(
        LaneView::start(tasks),
        replies,
        m,
        Call::CollectCandidates(PeerRole::Answerer),
    ));
}

/// Every test but those of a lone peer or a configuration connects its peers first, and every
/// test without a script of its own makes a round trip.
pub proof fn peers_are_connected_first(id: Seq<char>)
    ensures
        !(id == "error-invalid-signaling"@ || id == "peer-invalid-sdp"@ || id == "error-timed-out"@
            || id == "post-close-signaling"@ || id == "config-defaults"@ || id
            == "config-setters-contract"@ || id == "config-invalid-ice-server"@) ==> ({
            let phases = solo_script(id).phases;
            &&& phases.len() > 3
            &&& phases[0] == one(connecting(id == "peer-local-ice-candidates"@))
            &&& phases[1] == two(offerer_connected(), answerer_connected())
            &&& phases[2] == one(adopting())
        }),
        solo_script("peer-local-ice-candidates"@).phases[3] == two(pinging(), ponging()),
{
    lemma_keys();
    reveal_strlit("peer-local-ice-candidates");
    assert(key("peer-local-ice-candidates"@) == (25nat, 'p', 'a'));
}

/// The test of the single claim passes only if the first claim succeeded.
pub proof fn first_claim_must_succeed(replies: Seq<Reply>)
    requires
        through(LaneView::start(claiming()), replies),
    ensures
        was_done(LaneView::start(claiming()), replies, Call::ReceiveViaStream(PeerRole::Answerer)),
{
    let tasks = claiming();
    assert(all_standing(tasks, 0));
    lemma_done(tasks, replies, 0, Call::ReceiveViaStream(PeerRole::Answerer));
}

/// The test of a wait without a peer offers first.
pub proof fn lone_offer_must_be_made(replies: Seq<Reply>)
    requires
        through(LaneView::start(offering_alone()), replies),
    ensures
        was_done(
            LaneView::start(offering_alone()),
            replies,
            Call::CreateChannel(PeerRole::Offerer, ChannelOptions::Labelled),
        ),
        was_done(LaneView::start(offering_alone()), replies, Call::CreateOffer(PeerRole::Offerer)),
        was_done(
            LaneView::start(offering_alone()),
            replies,
            Call::SetLocal(PeerRole::Offerer, Description::Offer),
        ),
{
    let tasks = offering_alone();
    assert(all_standing(tasks, 3));
    lemma_done(tasks, replies, 1, Call::CreateChannel(PeerRole::Offerer, ChannelOptions::Labelled));
    lemma_done(tasks, replies, 2, Call::CreateOffer(PeerRole::Offerer));
    lemma_done(tasks, replies, 3, Call::SetLocal(PeerRole::Offerer, Description::Offer));
}

/// The feed of the streaming send is ended behind its last payload.
pub proof fn feed_must_be_ended(count: u32, size: u32, replies: Seq<Reply>)
    requires
        count > 0,
        through(LaneView::start(stream_feeding(count, size)), replies),
    ensures
        was_asked(LaneView::start(stream_feeding(count, size)), replies, Call::EndFeed),
{
    let tasks = stream_feeding(count, size);
    assert(all_standing(tasks, 1));
    lemma_asked(tasks, replies, 1, Call::EndFeed);
}

/// The tests whose concurrent halves, or whose ends, matter have them: the streaming send is fed
/// while it runs, the claim is made while a receive waits, and the two tests whose failure leaves
/// a peer open close it.
pub proof fn concurrent_halves_and_ends_are_there()
    ensures
        solo_script("send-via-stream"@).phases[3] == two_right_first(
            stream_sending(),
            stream_feeding(
                at_least(workload("send-via-stream"@).0, 1),
                at_least(workload("send-via-stream"@).1, 16),
            ),
        ),
        solo_script("receive-via-stream-once"@).phases[3] == two_right_first(
            pending_receive(),
            claiming(),
        ),
        script_of("error-timed-out"@, 0) == offering_alone(),
        solo_script("error-timed-out"@).guarded == 1,
        solo_script("error-timed-out"@).cleanup.contains(
            Task::Do(Call::ClosePeer(PeerRole::Offerer)),
        ),
        solo_script("post-close-send"@).guarded == 3,
        solo_script("post-close-send"@).cleanup.contains(
            Task::Do(Call::ClosePeer(PeerRole::Answerer)),
        ),
{
    lemma_keys();
    assert(solo_script("error-timed-out"@).cleanup[0] == Task::Do(
        Call::ClosePeer(PeerRole::Offerer),
    ));
    assert(solo_script("post-close-send"@).cleanup[0] == Task::Do(
        Call::ClosePeer(PeerRole::Answerer),
    ));
}

/// The test of the flush-aware close passes in its offering half only if the channel was closed
/// and its watch, taken before, then ended in closed.
pub proof fn flushing_close_must_be_watched(
    me: PeerRole,
    count: u32,
    size: u32,
    replies: Seq<Reply>,
)
    requires
        count > 0,
        through(LaneView::start(flushing(me, count, size)), replies),
    ensures
        was_asked(
            LaneView::start(flushing(me, count, size)),
            replies,
            Call::TakeStates(StateStream { of: Watched::Channel(me), first: true }),
        ),
        ended_closed_after(
            LaneView::start(flushing(me, count, size)),
            replies,
            Call::CloseChannel(me),
            (StateStream { of: Watched::Channel(me), first: true }),
        ),
{
    let tasks = flushing(me, count, size);
    assert(all_standing(tasks, 3));
    lemma_asked(
        tasks,
        replies,
        1,
        Call::TakeStates(StateStream { of: Watched::Channel(me), first: true }),
    );
    lemma_ended_closed(
        tasks,
        replies,
        2,
        3,
        Call::CloseChannel(me),
        StateStream { of: Watched::Channel(me), first: true },
    );
}

/// Two peers part only once the channel was closed.
pub proof fn parting_must_close_the_channel(me: PeerRole, replies: Seq<Reply>)
    requires
        through(LaneView::start(shutting_down(me)), replies),
    ensures
        was_asked(
            LaneView::start(shutting_down(me)),
            replies,
            Call::TakeStates(StateStream { of: Watched::Channel(me), first: true }),
        ),
        was_asked(LaneView::start(shutting_down(me)), replies, Call::CloseChannel(me)),
{
    let tasks = shutting_down(me);
    assert(all_standing(tasks, 1));
    lemma_asked(
        tasks,
        replies,
        0,
        Call::TakeStates(StateStream { of: Watched::Channel(me), first: true }),
    );
    lemma_asked(tasks, replies, 1, Call::CloseChannel(me));
}

} // verus!
