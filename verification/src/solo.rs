//! The cases that run in one instance: two in-process peers, or a lone peer for the
//! error probes.

use vstd::prelude::*;

use crate::corpus::{params_for, workload};
use crate::lab::PeerRole;
use crate::script::{
    one, phase_views, plain_case, two, two_right_first, Call, Case, CaseView, ChannelOptions,
    Description, ErrorKind, Mismatch, Phase, PhaseView, Refusal, StateStream, StreamEnd, Task,
    Watched,
};
use crate::stimulus::{Payload, ServerList};
use crate::text::same;
use crate::wire::{ConnectionState, DataChannelState, IceTransportPolicy, SdpType, Seen};

verus! {

// ----- details -------------------------------------------------------------------------

/// A refusal of the given kind, and what its absence is reported as.
pub open spec fn refusal(
    kind: ErrorKind,
    on_success: &'static str,
    on_other: &'static str,
) -> Refusal {
    Refusal { kind, on_success, on_other }
}

/// How a message that comes back changed is reported.
pub open spec fn no_round_trip() -> Mismatch {
    Mismatch {
        same_kind: "data channel round trip failed",
        other_kind: "data channel round trip failed",
        shown: false,
    }
}

/// How a probe that comes back changed is reported.
pub open spec fn probe_mismatch() -> Mismatch {
    Mismatch { same_kind: "probe mismatch: ", other_kind: "probe mismatch: ", shown: true }
}

// ----- scripts -------------------------------------------------------------------------

/// The signaling exchange of two in-process peers: an offer, an answer, and every
/// candidate of either side handed to the other.
pub open spec fn connecting(required: bool) -> Seq<Task> {
    seq![
        Task::Do(Call::NewPeer(PeerRole::Offerer)),
        Task::Do(Call::NewPeer(PeerRole::Answerer)),
        Task::Succeed(
            Call::CreateChannel(PeerRole::Offerer, ChannelOptions::Labelled),
            "create-data-channel: ",
        ),
        Task::Succeed(Call::CreateOffer(PeerRole::Offerer), "create-offer: "),
        Task::Succeed(Call::SetLocal(PeerRole::Offerer, Description::Offer), "offerer set-local: "),
        Task::Succeed(
            Call::SetRemote(PeerRole::Answerer, Description::Offer),
            "answerer set-remote offer: ",
        ),
        Task::Succeed(Call::CreateAnswer(PeerRole::Answerer), "create-answer: "),
        Task::Succeed(
            Call::SetLocal(PeerRole::Answerer, Description::Answer),
            "answerer set-local: ",
        ),
        Task::Succeed(
            Call::SetRemote(PeerRole::Offerer, Description::Answer),
            "offerer set-remote answer: ",
        ),
        Task::Gather { on: PeerRole::Offerer, required: false },
        Task::Gather { on: PeerRole::Answerer, required },
        Task::Trickle(PeerRole::Offerer, "offerer add-ice-candidate: "),
        Task::Trickle(PeerRole::Answerer, "answerer add-ice-candidate: "),
    ]
}

fn connecting_tasks(required: bool) -> (r: Vec<Task>)
    ensures
        r@ == connecting(required),
{
    let tasks: Vec<Task> = vec![
        Task::Do(Call::NewPeer(PeerRole::Offerer)),
        Task::Do(Call::NewPeer(PeerRole::Answerer)),
        Task::Succeed(
            Call::CreateChannel(PeerRole::Offerer, ChannelOptions::Labelled),
            "create-data-channel: ",
        ),
        Task::Succeed(Call::CreateOffer(PeerRole::Offerer), "create-offer: "),
        Task::Succeed(Call::SetLocal(PeerRole::Offerer, Description::Offer), "offerer set-local: "),
        Task::Succeed(
            Call::SetRemote(PeerRole::Answerer, Description::Offer),
            "answerer set-remote offer: ",
        ),
        Task::Succeed(Call::CreateAnswer(PeerRole::Answerer), "create-answer: "),
        Task::Succeed(
            Call::SetLocal(PeerRole::Answerer, Description::Answer),
            "answerer set-local: ",
        ),
        Task::Succeed(
            Call::SetRemote(PeerRole::Offerer, Description::Answer),
            "offerer set-remote answer: ",
        ),
        Task::Gather { on: PeerRole::Offerer, required: false },
        Task::Gather { on: PeerRole::Answerer, required },
        Task::Trickle(PeerRole::Offerer, "offerer add-ice-candidate: "),
        Task::Trickle(PeerRole::Answerer, "answerer add-ice-candidate: "),
    ];
    assert(tasks@ =~= connecting(required));
    tasks
}

/// The offerer waits for the connection.
pub open spec fn offerer_connected() -> Seq<Task> {
    seq![
        Task::Succeed(Call::WaitConnected(PeerRole::Offerer), "offerer wait-connected: "),
    ]
}

fn offerer_connected_tasks() -> (r: Vec<Task>)
    ensures
        r@ == offerer_connected(),
{
    let tasks: Vec<Task> = vec![
        Task::Succeed(Call::WaitConnected(PeerRole::Offerer), "offerer wait-connected: "),
    ];
    assert(tasks@ =~= offerer_connected());
    tasks
}

/// The answerer waits for the connection.
pub open spec fn answerer_connected() -> Seq<Task> {
    seq![
        Task::Succeed(Call::WaitConnected(PeerRole::Answerer), "answerer wait-connected: "),
    ]
}

fn answerer_connected_tasks() -> (r: Vec<Task>)
    ensures
        r@ == answerer_connected(),
{
    let tasks: Vec<Task> = vec![
        Task::Succeed(Call::WaitConnected(PeerRole::Answerer), "answerer wait-connected: "),
    ];
    assert(tasks@ =~= answerer_connected());
    tasks
}

/// The answerer adopts the channel the offerer opened.
pub open spec fn adopting() -> Seq<Task> {
    seq![
        Task::Adopt(PeerRole::Answerer),
    ]
}

fn adopting_tasks() -> (r: Vec<Task>)
    ensures
        r@ == adopting(),
{
    let tasks: Vec<Task> = vec![
        Task::Adopt(PeerRole::Answerer),
    ];
    assert(tasks@ =~= adopting());
    tasks
}

/// The offerer's half of a round trip.
pub open spec fn pinging() -> Seq<Task> {
    seq![
        Task::Succeed(Call::Send(PeerRole::Offerer, Payload::Ping), "send: "),
        Task::Expect(PeerRole::Offerer, Payload::Pong, no_round_trip()),
    ]
}

fn pinging_tasks() -> (r: Vec<Task>)
    ensures
        r@ == pinging(),
{
    let tasks: Vec<Task> = vec![
        Task::Succeed(Call::Send(PeerRole::Offerer, Payload::Ping), "send: "),
        Task::Expect(
            PeerRole::Offerer,
            Payload::Pong,
            Mismatch {
                same_kind: "data channel round trip failed",
                other_kind: "data channel round trip failed",
                shown: false,
            },
        ),
    ];
    assert(tasks@ =~= pinging());
    tasks
}

/// The answerer's half of a round trip.
pub open spec fn ponging() -> Seq<Task> {
    seq![
        Task::Expect(PeerRole::Answerer, Payload::Ping, no_round_trip()),
        Task::Succeed(Call::Send(PeerRole::Answerer, Payload::Pong), "send: "),
    ]
}

fn ponging_tasks() -> (r: Vec<Task>)
    ensures
        r@ == ponging(),
{
    let tasks: Vec<Task> = vec![
        Task::Expect(
            PeerRole::Answerer,
            Payload::Ping,
            Mismatch {
                same_kind: "data channel round trip failed",
                other_kind: "data channel round trip failed",
                shown: false,
            },
        ),
        Task::Succeed(Call::Send(PeerRole::Answerer, Payload::Pong), "send: "),
    ];
    assert(tasks@ =~= ponging());
    tasks
}

/// Both peers close.
pub open spec fn closing() -> Seq<Task> {
    seq![
        Task::Do(Call::ClosePeer(PeerRole::Offerer)),
        Task::Do(Call::ClosePeer(PeerRole::Answerer)),
    ]
}

fn closing_tasks() -> (r: Vec<Task>)
    ensures
        r@ == closing(),
{
    let tasks: Vec<Task> = vec![
        Task::Do(Call::ClosePeer(PeerRole::Offerer)),
        Task::Do(Call::ClosePeer(PeerRole::Answerer)),
    ];
    assert(tasks@ =~= closing());
    tasks
}

/// A malformed description is refused as invalid signaling.
pub open spec fn invalid_sdp() -> Seq<Task> {
    seq![
        Task::Do(Call::NewPeer(PeerRole::Offerer)),
        Task::Refuse(
            Call::SetRemote(
                PeerRole::Offerer,
                Description::Fixed(SdpType::Offer, "this is not valid sdp"),
            ),
            refusal(
                ErrorKind::InvalidSignaling,
                "malformed SDP was accepted",
                "expected invalid-signaling, got ",
            ),
        ),
    ]
}

fn invalid_sdp_tasks() -> (r: Vec<Task>)
    ensures
        r@ == invalid_sdp(),
{
    let tasks: Vec<Task> = vec![
        Task::Do(Call::NewPeer(PeerRole::Offerer)),
        Task::Refuse(
            Call::SetRemote(
                PeerRole::Offerer,
                Description::Fixed(SdpType::Offer, "this is not valid sdp"),
            ),
            Refusal {
                kind: ErrorKind::InvalidSignaling,
                on_success: "malformed SDP was accepted",
                on_other: "expected invalid-signaling, got ",
            },
        ),
    ];
    assert(tasks@ =~= invalid_sdp());
    tasks
}

/// Flood one side while the other does not receive: the overflow closes the channel
/// towards the flooder, and the receiver, once it has drained its backlog, learns of
/// the overflow rather than of a close.
pub open spec fn overflowing(count: u32, size: u32) -> Seq<Task> {
    seq![
        Task::Flood { on: PeerRole::Offerer, count, size },
        Task::Refuse(
            Call::Receive(PeerRole::Offerer),
            refusal(
                ErrorKind::ClosedOrOverflow,
                "unexpected message on the flooding side",
                "flood-side receive: ",
            ),
        ),
        Task::Drain(
            PeerRole::Answerer,
            ErrorKind::ReceiveBufferOverflow,
            "expected receive-buffer-overflow, got ",
        ),
        Task::Do(Call::ClosePeer(PeerRole::Offerer)),
        Task::Do(Call::ClosePeer(PeerRole::Answerer)),
    ]
}

fn overflowing_tasks(count: u32, size: u32) -> (r: Vec<Task>)
    ensures
        r@ == overflowing(count, size),
{
    let tasks: Vec<Task> = vec![
        Task::Flood { on: PeerRole::Offerer, count, size },
        Task::Refuse(
            Call::Receive(PeerRole::Offerer),
            Refusal {
                kind: ErrorKind::ClosedOrOverflow,
                on_success: "unexpected message on the flooding side",
                on_other: "flood-side receive: ",
            },
        ),
        Task::Drain(
            PeerRole::Answerer,
            ErrorKind::ReceiveBufferOverflow,
            "expected receive-buffer-overflow, got ",
        ),
        Task::Do(Call::ClosePeer(PeerRole::Offerer)),
        Task::Do(Call::ClosePeer(PeerRole::Answerer)),
    ];
    assert(tasks@ =~= overflowing(count, size));
    tasks
}

/// After a local close, receiving ends in `closed`, behind what was in flight.
pub open spec fn closed_receive() -> Seq<Task> {
    seq![
        Task::Do(Call::ClosePeer(PeerRole::Offerer)),
        Task::Drain(PeerRole::Offerer, ErrorKind::Closed, "expected closed, got "),
        Task::Do(Call::ClosePeer(PeerRole::Answerer)),
    ]
}

fn closed_receive_tasks() -> (r: Vec<Task>)
    ensures
        r@ == closed_receive(),
{
    let tasks: Vec<Task> = vec![
        Task::Do(Call::ClosePeer(PeerRole::Offerer)),
        Task::Drain(PeerRole::Offerer, ErrorKind::Closed, "expected closed, got "),
        Task::Do(Call::ClosePeer(PeerRole::Answerer)),
    ];
    assert(tasks@ =~= closed_receive());
    tasks
}

/// A peer offers without a remote peer.
pub open spec fn offering_alone() -> Seq<Task> {
    seq![
        Task::Do(Call::NewPeer(PeerRole::Offerer)),
        Task::Succeed(
            Call::CreateChannel(PeerRole::Offerer, ChannelOptions::Labelled),
            "create-data-channel: ",
        ),
        Task::Succeed(Call::CreateOffer(PeerRole::Offerer), "create-offer: "),
        Task::Succeed(
            Call::SetLocal(PeerRole::Offerer, Description::Offer),
            "set-local-description: ",
        ),
    ]
}

fn offering_alone_tasks() -> (r: Vec<Task>)
    ensures
        r@ == offering_alone(),
{
    let tasks: Vec<Task> = vec![
        Task::Do(Call::NewPeer(PeerRole::Offerer)),
        Task::Succeed(
            Call::CreateChannel(PeerRole::Offerer, ChannelOptions::Labelled),
            "create-data-channel: ",
        ),
        Task::Succeed(Call::CreateOffer(PeerRole::Offerer), "create-offer: "),
        Task::Succeed(
            Call::SetLocal(PeerRole::Offerer, Description::Offer),
            "set-local-description: ",
        ),
    ];
    assert(tasks@ =~= offering_alone());
    tasks
}

/// A handshake that can never complete times out.
pub open spec fn timing_out() -> Seq<Task> {
    seq![
        Task::Refuse(
            Call::WaitConnected(PeerRole::Offerer),
            refusal(
                ErrorKind::TimedOut,
                "wait-connected resolved without a remote peer",
                "expected timed-out, got ",
            ),
        ),
    ]
}

fn timing_out_tasks() -> (r: Vec<Task>)
    ensures
        r@ == timing_out(),
{
    let tasks: Vec<Task> = vec![
        Task::Refuse(
            Call::WaitConnected(PeerRole::Offerer),
            Refusal {
                kind: ErrorKind::TimedOut,
                on_success: "wait-connected resolved without a remote peer",
                on_other: "expected timed-out, got ",
            },
        ),
    ];
    assert(tasks@ =~= timing_out());
    tasks
}

/// The offerer closes.
pub open spec fn close_offerer() -> Seq<Task> {
    seq![
        Task::Do(Call::ClosePeer(PeerRole::Offerer)),
    ]
}

fn close_offerer_tasks() -> (r: Vec<Task>)
    ensures
        r@ == close_offerer(),
{
    let tasks: Vec<Task> = vec![
        Task::Do(Call::ClosePeer(PeerRole::Offerer)),
    ];
    assert(tasks@ =~= close_offerer());
    tasks
}

/// The answerer closes.
pub open spec fn close_answerer() -> Seq<Task> {
    seq![
        Task::Do(Call::ClosePeer(PeerRole::Answerer)),
    ]
}

fn close_answerer_tasks() -> (r: Vec<Task>)
    ensures
        r@ == close_answerer(),
{
    let tasks: Vec<Task> = vec![
        Task::Do(Call::ClosePeer(PeerRole::Answerer)),
    ];
    assert(tasks@ =~= close_answerer());
    tasks
}

/// After the connection closes, a send fails with `closed`, at the latest after
/// `1000` that did not.
pub open spec fn closed_send() -> Seq<Task> {
    seq![
        Task::Do(Call::ClosePeer(PeerRole::Offerer)),
        Task::SendUntilClosed { on: PeerRole::Offerer, limit: 1000 },
    ]
}

fn closed_send_tasks() -> (r: Vec<Task>)
    ensures
        r@ == closed_send(),
{
    let tasks: Vec<Task> = vec![
        Task::Do(Call::ClosePeer(PeerRole::Offerer)),
        Task::SendUntilClosed { on: PeerRole::Offerer, limit: 1000 },
    ];
    assert(tasks@ =~= closed_send());
    tasks
}

/// A connection that has ever connected stays connected to `wait-connected`, also
/// past its close.
pub open spec fn latching() -> Seq<Task> {
    seq![
        Task::Succeed(Call::WaitConnected(PeerRole::Offerer), "re-await after connect: "),
        Task::Do(Call::ClosePeer(PeerRole::Offerer)),
        Task::Succeed(
            Call::WaitConnected(PeerRole::Offerer),
            "wait-connected after close: expected ok (connected is latched), got ",
        ),
        Task::Do(Call::ClosePeer(PeerRole::Answerer)),
    ]
}

fn latching_tasks() -> (r: Vec<Task>)
    ensures
        r@ == latching(),
{
    let tasks: Vec<Task> = vec![
        Task::Succeed(Call::WaitConnected(PeerRole::Offerer), "re-await after connect: "),
        Task::Do(Call::ClosePeer(PeerRole::Offerer)),
        Task::Succeed(
            Call::WaitConnected(PeerRole::Offerer),
            "wait-connected after close: expected ok (connected is latched), got ",
        ),
        Task::Do(Call::ClosePeer(PeerRole::Answerer)),
    ];
    assert(tasks@ =~= latching());
    tasks
}

/// A second candidates or incoming-channels stream ends at once, without yielding.
pub open spec fn streaming_once() -> Seq<Task> {
    seq![
        Task::YieldNothing(
            Call::CollectCandidates(PeerRole::Offerer),
            "second local-ice-candidates call yielded ",
            " candidate(s); expected an immediately-ended empty stream",
        ),
        Task::YieldNothing(
            Call::ReadIncoming(PeerRole::Answerer),
            "second incoming-data-channels call yielded ",
            " channel(s); expected an immediately-ended empty stream",
        ),
        Task::Do(Call::ClosePeer(PeerRole::Offerer)),
        Task::Do(Call::ClosePeer(PeerRole::Answerer)),
    ]
}

fn streaming_once_tasks() -> (r: Vec<Task>)
    ensures
        r@ == streaming_once(),
{
    let tasks: Vec<Task> = vec![
        Task::YieldNothing(
            Call::CollectCandidates(PeerRole::Offerer),
            "second local-ice-candidates call yielded ",
            " candidate(s); expected an immediately-ended empty stream",
        ),
        Task::YieldNothing(
            Call::ReadIncoming(PeerRole::Answerer),
            "second incoming-data-channels call yielded ",
            " channel(s); expected an immediately-ended empty stream",
        ),
        Task::Do(Call::ClosePeer(PeerRole::Offerer)),
        Task::Do(Call::ClosePeer(PeerRole::Answerer)),
    ];
    assert(tasks@ =~= streaming_once());
    tasks
}

/// Past its close, every method of a connection fails with `closed`, whatever it is
/// given.
pub open spec fn closed_signaling() -> Seq<Task> {
    seq![
        Task::Do(Call::NewPeer(PeerRole::Offerer)),
        Task::Do(Call::ClosePeer(PeerRole::Offerer)),
        Task::Refuse(
            Call::CreateOffer(PeerRole::Offerer),
            refusal(
                ErrorKind::Closed,
                "create-offer succeeded after close",
                "create-offer after close: expected closed, got ",
            ),
        ),
        Task::Refuse(
            Call::CreateAnswer(PeerRole::Offerer),
            refusal(
                ErrorKind::Closed,
                "create-answer succeeded after close",
                "create-answer after close: expected closed, got ",
            ),
        ),
        Task::Refuse(
            Call::SetLocal(PeerRole::Offerer, Description::Fixed(SdpType::Offer, "not sdp")),
            refusal(
                ErrorKind::Closed,
                "set-local-description succeeded after close",
                "set-local-description after close: expected closed, got ",
            ),
        ),
        Task::Refuse(
            Call::SetRemote(PeerRole::Offerer, Description::Fixed(SdpType::Offer, "not sdp")),
            refusal(
                ErrorKind::Closed,
                "set-remote-description succeeded after close",
                "set-remote-description after close: expected closed, got ",
            ),
        ),
        Task::Refuse(
            Call::AddFixedCandidate(PeerRole::Offerer, "not a candidate"),
            refusal(
                ErrorKind::Closed,
                "add-ice-candidate succeeded after close",
                "add-ice-candidate after close: expected closed, got ",
            ),
        ),
        Task::Refuse(
            Call::CreateChannel(PeerRole::Offerer, ChannelOptions::Plain),
            refusal(
                ErrorKind::Closed,
                "create-data-channel succeeded after close",
                "create-data-channel after close: expected closed, got ",
            ),
        ),
    ]
}

fn closed_signaling_tasks() -> (r: Vec<Task>)
    ensures
        r@ == closed_signaling(),
{
    let tasks: Vec<Task> = vec![
        Task::Do(Call::NewPeer(PeerRole::Offerer)),
        Task::Do(Call::ClosePeer(PeerRole::Offerer)),
        Task::Refuse(
            Call::CreateOffer(PeerRole::Offerer),
            Refusal {
                kind: ErrorKind::Closed,
                on_success: "create-offer succeeded after close",
                on_other: "create-offer after close: expected closed, got ",
            },
        ),
        Task::Refuse(
            Call::CreateAnswer(PeerRole::Offerer),
            Refusal {
                kind: ErrorKind::Closed,
                on_success: "create-answer succeeded after close",
                on_other: "create-answer after close: expected closed, got ",
            },
        ),
        Task::Refuse(
            Call::SetLocal(PeerRole::Offerer, Description::Fixed(SdpType::Offer, "not sdp")),
            Refusal {
                kind: ErrorKind::Closed,
                on_success: "set-local-description succeeded after close",
                on_other: "set-local-description after close: expected closed, got ",
            },
        ),
        Task::Refuse(
            Call::SetRemote(PeerRole::Offerer, Description::Fixed(SdpType::Offer, "not sdp")),
            Refusal {
                kind: ErrorKind::Closed,
                on_success: "set-remote-description succeeded after close",
                on_other: "set-remote-description after close: expected closed, got ",
            },
        ),
        Task::Refuse(
            Call::AddFixedCandidate(PeerRole::Offerer, "not a candidate"),
            Refusal {
                kind: ErrorKind::Closed,
                on_success: "add-ice-candidate succeeded after close",
                on_other: "add-ice-candidate after close: expected closed, got ",
            },
        ),
        Task::Refuse(
            Call::CreateChannel(PeerRole::Offerer, ChannelOptions::Plain),
            Refusal {
                kind: ErrorKind::Closed,
                on_success: "create-data-channel succeeded after close",
                on_other: "create-data-channel after close: expected closed, got ",
            },
        ),
    ];
    assert(tasks@ =~= closed_signaling());
    tasks
}

/// The streaming send, to its end.
pub open spec fn stream_sending() -> Seq<Task> {
    seq![
        Task::SendStream(PeerRole::Offerer),
    ]
}

fn stream_sending_tasks() -> (r: Vec<Task>)
    ensures
        r@ == stream_sending(),
{
    let tasks: Vec<Task> = vec![
        Task::SendStream(PeerRole::Offerer),
    ];
    assert(tasks@ =~= stream_sending());
    tasks
}

/// What feeds the streaming send.
pub open spec fn stream_feeding(count: u32, size: u32) -> Seq<Task> {
    seq![
        Task::FeedAll { count, size },
        Task::Do(Call::EndFeed),
    ]
}

fn stream_feeding_tasks(count: u32, size: u32) -> (r: Vec<Task>)
    ensures
        r@ == stream_feeding(count, size),
{
    let tasks: Vec<Task> = vec![
        Task::FeedAll { count, size },
        Task::Do(Call::EndFeed),
    ];
    assert(tasks@ =~= stream_feeding(count, size));
    tasks
}

/// The answerer receives the corpus.
pub open spec fn receiving(count: u32) -> Seq<Task> {
    seq![
        Task::ReceiveAll { on: PeerRole::Answerer, count, ordered: false },
        Task::Do(Call::ClosePeer(PeerRole::Offerer)),
        Task::Do(Call::ClosePeer(PeerRole::Answerer)),
    ]
}

fn receiving_tasks(count: u32) -> (r: Vec<Task>)
    ensures
        r@ == receiving(count),
{
    let tasks: Vec<Task> = vec![
        Task::ReceiveAll { on: PeerRole::Answerer, count, ordered: false },
        Task::Do(Call::ClosePeer(PeerRole::Offerer)),
        Task::Do(Call::ClosePeer(PeerRole::Answerer)),
    ];
    assert(tasks@ =~= receiving(count));
    tasks
}

/// The corpus is sent whole, then claimed and read as a stream.
pub open spec fn stream_receiving(count: u32, size: u32) -> Seq<Task> {
    seq![
        Task::SendAll { on: PeerRole::Offerer, count, size },
        Task::Succeed(Call::ReceiveViaStream(PeerRole::Answerer), "receive-via-stream: "),
        Task::ReadAll { on: PeerRole::Answerer, count },
        Task::Do(Call::ClosePeer(PeerRole::Offerer)),
        Task::Do(Call::ClosePeer(PeerRole::Answerer)),
    ]
}

fn stream_receiving_tasks(count: u32, size: u32) -> (r: Vec<Task>)
    ensures
        r@ == stream_receiving(count, size),
{
    let tasks: Vec<Task> = vec![
        Task::SendAll { on: PeerRole::Offerer, count, size },
        Task::Succeed(Call::ReceiveViaStream(PeerRole::Answerer), "receive-via-stream: "),
        Task::ReadAll { on: PeerRole::Answerer, count },
        Task::Do(Call::ClosePeer(PeerRole::Offerer)),
        Task::Do(Call::ClosePeer(PeerRole::Answerer)),
    ];
    assert(tasks@ =~= stream_receiving(count, size));
    tasks
}

/// A receive that is pending when the stream is claimed.
pub open spec fn pending_receive() -> Seq<Task> {
    seq![
        Task::Refuse(
            Call::Receive(PeerRole::Answerer),
            refusal(
                ErrorKind::ReceivingViaStream,
                "pending receive yielded a message",
                "pending receive: expected receiving-via-stream, got ",
            ),
        ),
    ]
}

fn pending_receive_tasks() -> (r: Vec<Task>)
    ensures
        r@ == pending_receive(),
{
    let tasks: Vec<Task> = vec![
        Task::Refuse(
            Call::Receive(PeerRole::Answerer),
            Refusal {
                kind: ErrorKind::ReceivingViaStream,
                on_success: "pending receive yielded a message",
                on_other: "pending receive: expected receiving-via-stream, got ",
            },
        ),
    ];
    assert(tasks@ =~= pending_receive());
    tasks
}

/// The first claim of the inbound messages.
pub open spec fn claiming() -> Seq<Task> {
    seq![
        Task::Succeed(Call::ReceiveViaStream(PeerRole::Answerer), "first receive-via-stream: "),
    ]
}

fn claiming_tasks() -> (r: Vec<Task>)
    ensures
        r@ == claiming(),
{
    let tasks: Vec<Task> = vec![
        Task::Succeed(Call::ReceiveViaStream(PeerRole::Answerer), "first receive-via-stream: "),
    ];
    assert(tasks@ =~= claiming());
    tasks
}

/// Past the claim, a second claim and a receive both fail.
pub open spec fn claimed() -> Seq<Task> {
    seq![
        Task::Refuse(
            Call::ReceiveViaStream(PeerRole::Answerer),
            refusal(
                ErrorKind::ReceivingViaStream,
                "second receive-via-stream succeeded",
                "second receive-via-stream: expected receiving-via-stream, got ",
            ),
        ),
        Task::Refuse(
            Call::Receive(PeerRole::Answerer),
            refusal(
                ErrorKind::ReceivingViaStream,
                "receive after claim yielded a message",
                "receive after claim: expected receiving-via-stream, got ",
            ),
        ),
        Task::Do(Call::ClosePeer(PeerRole::Offerer)),
        Task::Do(Call::ClosePeer(PeerRole::Answerer)),
    ]
}

fn claimed_tasks() -> (r: Vec<Task>)
    ensures
        r@ == claimed(),
{
    let tasks: Vec<Task> = vec![
        Task::Refuse(
            Call::ReceiveViaStream(PeerRole::Answerer),
            Refusal {
                kind: ErrorKind::ReceivingViaStream,
                on_success: "second receive-via-stream succeeded",
                on_other: "second receive-via-stream: expected receiving-via-stream, got ",
            },
        ),
        Task::Refuse(
            Call::Receive(PeerRole::Answerer),
            Refusal {
                kind: ErrorKind::ReceivingViaStream,
                on_success: "receive after claim yielded a message",
                on_other: "receive after claim: expected receiving-via-stream, got ",
            },
        ),
        Task::Do(Call::ClosePeer(PeerRole::Offerer)),
        Task::Do(Call::ClosePeer(PeerRole::Answerer)),
    ];
    assert(tasks@ =~= claimed());
    tasks
}

/// A configuration's defaults, and a connection made with them.
pub open spec fn config_defaults() -> Seq<Task> {
    seq![
        Task::Do(Call::NewConfig),
        Task::NoServers("default config has ice servers"),
        Task::PolicyIs(IceTransportPolicy::All, "default config policy is not `all`"),
        Task::Do(Call::NewConfiguredPeer),
        Task::Succeed(
            Call::CreateChannel(PeerRole::Offerer, ChannelOptions::Labelled),
            "create-data-channel: ",
        ),
        Task::Succeed(Call::CreateOffer(PeerRole::Offerer), "create-offer: "),
        Task::Do(Call::ClosePeer(PeerRole::Offerer)),
    ]
}

fn config_defaults_tasks() -> (r: Vec<Task>)
    ensures
        r@ == config_defaults(),
{
    let tasks: Vec<Task> = vec![
        Task::Do(Call::NewConfig),
        Task::NoServers("default config has ice servers"),
        Task::PolicyIs(IceTransportPolicy::All, "default config policy is not `all`"),
        Task::Do(Call::NewConfiguredPeer),
        Task::Succeed(
            Call::CreateChannel(PeerRole::Offerer, ChannelOptions::Labelled),
            "create-data-channel: ",
        ),
        Task::Succeed(Call::CreateOffer(PeerRole::Offerer), "create-offer: "),
        Task::Do(Call::ClosePeer(PeerRole::Offerer)),
    ];
    assert(tasks@ =~= config_defaults());
    tasks
}

/// Each setter either takes a value, which its getter then shows, or refuses it as not
/// supported and changes nothing; what was taken makes a working connection.
pub open spec fn config_setters() -> Seq<Task> {
    seq![
        Task::Do(Call::NewConfig),
        Task::OfferServers(ServerList::Stun),
        Task::CheckServers(ServerList::Stun),
        Task::OfferRelay,
        Task::CheckRelay,
        Task::ResetPolicy,
        Task::Do(Call::NewConfiguredPeer),
        Task::Succeed(Call::CreateOffer(PeerRole::Offerer), "create-offer with accepted config: "),
        Task::Do(Call::ClosePeer(PeerRole::Offerer)),
    ]
}

fn config_setters_tasks() -> (r: Vec<Task>)
    ensures
        r@ == config_setters(),
{
    let tasks: Vec<Task> = vec![
        Task::Do(Call::NewConfig),
        Task::OfferServers(ServerList::Stun),
        Task::CheckServers(ServerList::Stun),
        Task::OfferRelay,
        Task::CheckRelay,
        Task::ResetPolicy,
        Task::Do(Call::NewConfiguredPeer),
        Task::Succeed(Call::CreateOffer(PeerRole::Offerer), "create-offer with accepted config: "),
        Task::Do(Call::ClosePeer(PeerRole::Offerer)),
    ];
    assert(tasks@ =~= config_setters());
    tasks
}

/// Malformed servers are refused when they are set, and leave the configuration
/// usable.
pub open spec fn config_rejects() -> Seq<Task> {
    seq![
        Task::Do(Call::NewConfig),
        Task::RejectServers(ServerList::WithoutUrls, "ice server without urls was accepted"),
        Task::RejectServers(
            ServerList::ForeignScheme,
            "ice server with a non-ICE scheme was accepted",
        ),
        Task::Do(Call::NewConfiguredPeer),
        Task::Succeed(Call::CreateOffer(PeerRole::Offerer), "create-offer after rejected sets: "),
        Task::Do(Call::ClosePeer(PeerRole::Offerer)),
    ]
}

fn config_rejects_tasks() -> (r: Vec<Task>)
    ensures
        r@ == config_rejects(),
{
    let tasks: Vec<Task> = vec![
        Task::Do(Call::NewConfig),
        Task::RejectServers(ServerList::WithoutUrls, "ice server without urls was accepted"),
        Task::RejectServers(
            ServerList::ForeignScheme,
            "ice server with a non-ICE scheme was accepted",
        ),
        Task::Do(Call::NewConfiguredPeer),
        Task::Succeed(Call::CreateOffer(PeerRole::Offerer), "create-offer after rejected sets: "),
        Task::Do(Call::ClosePeer(PeerRole::Offerer)),
    ];
    assert(tasks@ =~= config_rejects());
    tasks
}

/// A connected connection's watch reads `connected`, is taken once, and ends with
/// `closed` after a local close.
pub open spec fn connection_watch() -> Seq<Task> {
    seq![
        Task::Do(
            Call::TakeStates(
                StateStream { of: Watched::Connection(PeerRole::Offerer), first: true },
            ),
        ),
        Task::FirstState(
            StateStream { of: Watched::Connection(PeerRole::Offerer), first: true },
            Seen::Connection(ConnectionState::Connected),
            "connected",
        ),
        Task::Do(
            Call::TakeStates(
                StateStream { of: Watched::Connection(PeerRole::Offerer), first: false },
            ),
        ),
        Task::DrainStates(
            StateStream { of: Watched::Connection(PeerRole::Offerer), first: false },
            StreamEnd::Nothing("second state-changes stream yielded elements"),
        ),
        Task::Do(Call::ClosePeer(PeerRole::Offerer)),
        Task::DrainStates(
            StateStream { of: Watched::Connection(PeerRole::Offerer), first: true },
            StreamEnd::Closed("expected the stream to end with closed, got "),
        ),
        Task::Do(Call::ClosePeer(PeerRole::Answerer)),
    ]
}

fn connection_watch_tasks() -> (r: Vec<Task>)
    ensures
        r@ == connection_watch(),
{
    let tasks: Vec<Task> = vec![
        Task::Do(
            Call::TakeStates(
                StateStream { of: Watched::Connection(PeerRole::Offerer), first: true },
            ),
        ),
        Task::FirstState(
            StateStream { of: Watched::Connection(PeerRole::Offerer), first: true },
            Seen::Connection(ConnectionState::Connected),
            "connected",
        ),
        Task::Do(
            Call::TakeStates(
                StateStream { of: Watched::Connection(PeerRole::Offerer), first: false },
            ),
        ),
        Task::DrainStates(
            StateStream { of: Watched::Connection(PeerRole::Offerer), first: false },
            StreamEnd::Nothing("second state-changes stream yielded elements"),
        ),
        Task::Do(Call::ClosePeer(PeerRole::Offerer)),
        Task::DrainStates(
            StateStream { of: Watched::Connection(PeerRole::Offerer), first: true },
            StreamEnd::Closed("expected the stream to end with closed, got "),
        ),
        Task::Do(Call::ClosePeer(PeerRole::Answerer)),
    ];
    assert(tasks@ =~= connection_watch());
    tasks
}

/// An open channel's watch reads `open`, is taken once, and ends with `closed` after a
/// local close.
pub open spec fn channel_watch() -> Seq<Task> {
    seq![
        Task::Do(
            Call::TakeStates(StateStream { of: Watched::Channel(PeerRole::Offerer), first: true }),
        ),
        Task::FirstState(
            StateStream { of: Watched::Channel(PeerRole::Offerer), first: true },
            Seen::Channel(DataChannelState::Open),
            "open",
        ),
        Task::Do(
            Call::TakeStates(StateStream { of: Watched::Channel(PeerRole::Offerer), first: false }),
        ),
        Task::DrainStates(
            StateStream { of: Watched::Channel(PeerRole::Offerer), first: false },
            StreamEnd::Nothing("second state-changes stream yielded elements"),
        ),
        Task::Do(Call::CloseChannel(PeerRole::Offerer)),
        Task::DrainStates(
            StateStream { of: Watched::Channel(PeerRole::Offerer), first: true },
            StreamEnd::Closed("expected the stream to end with closed, got "),
        ),
        Task::Do(Call::ClosePeer(PeerRole::Offerer)),
        Task::Do(Call::ClosePeer(PeerRole::Answerer)),
    ]
}

fn channel_watch_tasks() -> (r: Vec<Task>)
    ensures
        r@ == channel_watch(),
{
    let tasks: Vec<Task> = vec![
        Task::Do(
            Call::TakeStates(StateStream { of: Watched::Channel(PeerRole::Offerer), first: true }),
        ),
        Task::FirstState(
            StateStream { of: Watched::Channel(PeerRole::Offerer), first: true },
            Seen::Channel(DataChannelState::Open),
            "open",
        ),
        Task::Do(
            Call::TakeStates(StateStream { of: Watched::Channel(PeerRole::Offerer), first: false }),
        ),
        Task::DrainStates(
            StateStream { of: Watched::Channel(PeerRole::Offerer), first: false },
            StreamEnd::Nothing("second state-changes stream yielded elements"),
        ),
        Task::Do(Call::CloseChannel(PeerRole::Offerer)),
        Task::DrainStates(
            StateStream { of: Watched::Channel(PeerRole::Offerer), first: true },
            StreamEnd::Closed("expected the stream to end with closed, got "),
        ),
        Task::Do(Call::ClosePeer(PeerRole::Offerer)),
        Task::Do(Call::ClosePeer(PeerRole::Answerer)),
    ];
    assert(tasks@ =~= channel_watch());
    tasks
}

/// A local close is idempotent and discards the unread backlog; calls made after it
/// fail with `closed`.
pub open spec fn channel_closed() -> Seq<Task> {
    seq![
        Task::Succeed(Call::Send(PeerRole::Answerer, Payload::Ping), "send: "),
        Task::Do(Call::CloseChannel(PeerRole::Offerer)),
        Task::Do(Call::CloseChannel(PeerRole::Offerer)),
        Task::Refuse(
            Call::Receive(PeerRole::Offerer),
            refusal(
                ErrorKind::ReadsClosed,
                "receive after close delivered a message",
                "receive after close: receive: ",
            ),
        ),
        Task::Refuse(
            Call::Send(PeerRole::Offerer, Payload::Late),
            refusal(ErrorKind::Closed, "send after close succeeded", "send after close: "),
        ),
        Task::Refuse(
            Call::ReceiveViaStream(PeerRole::Offerer),
            refusal(
                ErrorKind::Closed,
                "receive-via-stream after close returned a stream",
                "receive-via-stream after close: ",
            ),
        ),
        Task::Do(Call::ClosePeer(PeerRole::Offerer)),
        Task::Do(Call::ClosePeer(PeerRole::Answerer)),
    ]
}

fn channel_closed_tasks() -> (r: Vec<Task>)
    ensures
        r@ == channel_closed(),
{
    let tasks: Vec<Task> = vec![
        Task::Succeed(Call::Send(PeerRole::Answerer, Payload::Ping), "send: "),
        Task::Do(Call::CloseChannel(PeerRole::Offerer)),
        Task::Do(Call::CloseChannel(PeerRole::Offerer)),
        Task::Refuse(
            Call::Receive(PeerRole::Offerer),
            Refusal {
                kind: ErrorKind::ReadsClosed,
                on_success: "receive after close delivered a message",
                on_other: "receive after close: receive: ",
            },
        ),
        Task::Refuse(
            Call::Send(PeerRole::Offerer, Payload::Late),
            Refusal {
                kind: ErrorKind::Closed,
                on_success: "send after close succeeded",
                on_other: "send after close: ",
            },
        ),
        Task::Refuse(
            Call::ReceiveViaStream(PeerRole::Offerer),
            Refusal {
                kind: ErrorKind::Closed,
                on_success: "receive-via-stream after close returned a stream",
                on_other: "receive-via-stream after close: ",
            },
        ),
        Task::Do(Call::ClosePeer(PeerRole::Offerer)),
        Task::Do(Call::ClosePeer(PeerRole::Answerer)),
    ];
    assert(tasks@ =~= channel_closed());
    tasks
}

/// Dropping a channel closes it: what was sent before still arrives, then the close.
pub open spec fn channel_dropped() -> Seq<Task> {
    seq![
        Task::Succeed(Call::Send(PeerRole::Offerer, Payload::Probe), "send: "),
        Task::Do(Call::DropChannel(PeerRole::Offerer)),
        Task::Expect(PeerRole::Answerer, Payload::Probe, probe_mismatch()),
        Task::Refuse(
            Call::Receive(PeerRole::Answerer),
            refusal(
                ErrorKind::ReadsClosed,
                "received past the dropped channel's close",
                "waiting for the drop-close: receive: ",
            ),
        ),
        Task::Do(Call::ClosePeer(PeerRole::Offerer)),
        Task::Do(Call::ClosePeer(PeerRole::Answerer)),
    ]
}

fn channel_dropped_tasks() -> (r: Vec<Task>)
    ensures
        r@ == channel_dropped(),
{
    let tasks: Vec<Task> = vec![
        Task::Succeed(Call::Send(PeerRole::Offerer, Payload::Probe), "send: "),
        Task::Do(Call::DropChannel(PeerRole::Offerer)),
        Task::Expect(
            PeerRole::Answerer,
            Payload::Probe,
            Mismatch { same_kind: "probe mismatch: ", other_kind: "probe mismatch: ", shown: true },
        ),
        Task::Refuse(
            Call::Receive(PeerRole::Answerer),
            Refusal {
                kind: ErrorKind::ReadsClosed,
                on_success: "received past the dropped channel's close",
                on_other: "waiting for the drop-close: receive: ",
            },
        ),
        Task::Do(Call::ClosePeer(PeerRole::Offerer)),
        Task::Do(Call::ClosePeer(PeerRole::Answerer)),
    ];
    assert(tasks@ =~= channel_dropped());
    tasks
}

// ----- cases ---------------------------------------------------------------------------

/// The phases that connect two in-process peers. The channel the offerer created is
/// open between them afterwards.
pub open spec fn connect_phases(required: bool) -> Seq<PhaseView> {
    seq![
        one(connecting(required)),
        two(offerer_connected(), answerer_connected()),
        one(adopting()),
    ]
}

/// The phase that exchanges one message each way.
pub open spec fn round_trip_phase() -> PhaseView {
    two(pinging(), ponging())
}

fn connect(required: bool) -> (r: Vec<Phase>)
    ensures
        phase_views(r@) == connect_phases(required),
{
    let phases: Vec<Phase> = vec![
        Phase::one(connecting_tasks(required)),
        Phase::two(offerer_connected_tasks(), answerer_connected_tasks()),
        Phase::one(adopting_tasks()),
    ];
    assert(phase_views(phases@) =~= connect_phases(required));
    phases
}

fn add_phase(phases: &mut Vec<Phase>, phase: Phase)
    ensures
        phase_views(final(phases)@) == phase_views(old(phases)@).push(phase@),
{
    let ghost was = phase_views(phases@);
    phases.push(phase);
    assert(phase_views(phases@) =~= was.push(phase@));
}

fn lone(tasks: Vec<Task>) -> (r: Case)
    ensures
        r@ == plain_case(seq![one(tasks@)]),
{
    let phases: Vec<Phase> = vec![Phase::one(tasks)];
    assert(phase_views(phases@) =~= seq![one(tasks@)]);
    Case::plain(phases)
}

fn connected(tasks: Vec<Task>) -> (r: Case)
    ensures
        r@ == plain_case(connect_phases(false).push(one(tasks@))),
{
    let mut phases = connect(false);
    add_phase(&mut phases, Phase::one(tasks));
    Case::plain(phases)
}

fn connected_after_round_trip(required: bool, tasks: Vec<Task>) -> (r: Case)
    ensures
        r@ == plain_case(
            connect_phases(required).push(round_trip_phase()).push(one(tasks@)),
        ),
{
    let mut phases = connect(required);
    add_phase(&mut phases, Phase::two(pinging_tasks(), ponging_tasks()));
    add_phase(&mut phases, Phase::one(tasks));
    Case::plain(phases)
}

/// A number of at least `min`.
pub open spec fn at_least(n: u32, min: u32) -> u32 {
    if n > min {
        n
    } else {
        min
    }
}

/// A number of at least `min`.
pub fn raise(n: u32, min: u32) -> (r: u32)
    ensures
        r == at_least(n, min),
{
    if n > min {
        n
    } else {
        min
    }
}

/// The case of a test that runs in one instance. A test without a body of its own
/// exercises the connection by a round trip.
pub open spec fn solo_script(id: Seq<char>) -> CaseView {
    let count = at_least(workload(id).0, 1);
    let size = workload(id).1;
    if id == "error-invalid-signaling"@ || id == "peer-invalid-sdp"@ {
        plain_case(seq![one(invalid_sdp())])
    } else if id == "receive-buffer-overflow"@ {
        plain_case(connect_phases(false).push(one(overflowing(count, size))))
    } else if id == "error-closed"@ {
        plain_case(connect_phases(false).push(one(closed_receive())))
    } else if id == "error-timed-out"@ {
        CaseView {
            phases: seq![one(offering_alone()), one(timing_out())],
            guarded: 1,
            cleanup: close_offerer(),
        }
    } else if id == "post-close-send"@ {
        CaseView {
            phases: connect_phases(false).push(one(closed_send())),
            guarded: 3,
            cleanup: close_answerer(),
        }
    } else if id == "peer-wait-connected-latch"@ {
        plain_case(connect_phases(false).push(one(latching())))
    } else if id == "peer-streams-once"@ {
        plain_case(connect_phases(false).push(one(streaming_once())))
    } else if id == "post-close-signaling"@ {
        plain_case(seq![one(closed_signaling())])
    } else if id == "send-via-stream"@ {
        plain_case(
            connect_phases(false).push(
                two_right_first(stream_sending(), stream_feeding(count, at_least(size, 16))),
            ).push(one(receiving(count))),
        )
    } else if id == "receive-via-stream"@ {
        plain_case(
            connect_phases(false).push(one(stream_receiving(count, at_least(size, 16)))),
        )
    } else if id == "receive-via-stream-once"@ {
        plain_case(
            connect_phases(false).push(two_right_first(pending_receive(), claiming())).push(
                one(claimed()),
            ),
        )
    } else if id == "config-defaults"@ {
        plain_case(seq![one(config_defaults())])
    } else if id == "config-setters-contract"@ {
        plain_case(seq![one(config_setters())])
    } else if id == "config-invalid-ice-server"@ {
        plain_case(seq![one(config_rejects())])
    } else if id == "connection-state-changes"@ {
        plain_case(connect_phases(false).push(one(connection_watch())))
    } else if id == "channel-state-changes"@ {
        plain_case(connect_phases(false).push(round_trip_phase()).push(one(channel_watch())))
    } else if id == "channel-post-close-receive"@ {
        plain_case(connect_phases(false).push(round_trip_phase()).push(one(channel_closed())))
    } else if id == "channel-drop-implies-close"@ {
        plain_case(connect_phases(false).push(one(channel_dropped())))
    } else {
        plain_case(
            connect_phases(id == "peer-local-ice-candidates"@).push(round_trip_phase()).push(
                one(closing()),
            ),
        )
    }
}

/// The case of a test that runs in one instance.
pub fn solo(id: &str) -> (r: Case)
    ensures
        r@ == solo_script(id@),
{
    let (raw_count, size) = params_for(id);
    let count: u32 = raise(raw_count, 1);
    if same(id, "error-invalid-signaling") || same(id, "peer-invalid-sdp") {
        lone(invalid_sdp_tasks())
    } else if same(id, "receive-buffer-overflow") {
        connected(overflowing_tasks(count, size))
    } else if same(id, "error-closed") {
        connected(closed_receive_tasks())
    } else if same(id, "error-timed-out") {
        let phases: Vec<Phase> = vec![
            Phase::one(offering_alone_tasks()),
            Phase::one(timing_out_tasks()),
        ];
        assert(phase_views(phases@) =~= seq![one(offering_alone()), one(timing_out())]);
        Case { phases, guarded: 1, cleanup: close_offerer_tasks() }
    } else if same(id, "post-close-send") {
        let mut phases = connect(false);
        add_phase(&mut phases, Phase::one(closed_send_tasks()));
        Case { phases, guarded: 3, cleanup: close_answerer_tasks() }
    } else if same(id, "peer-wait-connected-latch") {
        connected(latching_tasks())
    } else if same(id, "peer-streams-once") {
        connected(streaming_once_tasks())
    } else if same(id, "post-close-signaling") {
        lone(closed_signaling_tasks())
    } else if same(id, "send-via-stream") {
        let mut phases = connect(false);
        add_phase(
            &mut phases,
            Phase::two_right_first(
                stream_sending_tasks(),
                stream_feeding_tasks(count, raise(size, 16)),
            ),
        );
        add_phase(&mut phases, Phase::one(receiving_tasks(count)));
        Case::plain(phases)
    } else if same(id, "receive-via-stream") {
        connected(stream_receiving_tasks(count, raise(size, 16)))
    } else if same(id, "receive-via-stream-once") {
        let mut phases = connect(false);
        add_phase(
            &mut phases,
            Phase::two_right_first(pending_receive_tasks(), claiming_tasks()),
        );
        add_phase(&mut phases, Phase::one(claimed_tasks()));
        Case::plain(phases)
    } else if same(id, "config-defaults") {
        lone(config_defaults_tasks())
    } else if same(id, "config-setters-contract") {
        lone(config_setters_tasks())
    } else if same(id, "config-invalid-ice-server") {
        lone(config_rejects_tasks())
    } else if same(id, "connection-state-changes") {
        connected(connection_watch_tasks())
    } else if same(id, "channel-state-changes") {
        connected_after_round_trip(false, channel_watch_tasks())
    } else if same(id, "channel-post-close-receive") {
        connected_after_round_trip(false, channel_closed_tasks())
    } else if same(id, "channel-drop-implies-close") {
        connected(channel_dropped_tasks())
    } else {
        connected_after_round_trip(same(id, "peer-local-ice-candidates"), closing_tasks())
    }
}

} // verus!
