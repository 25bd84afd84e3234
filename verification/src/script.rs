//! Case bodies as scripts: what a case asks of the data-channel interface, call by
//! call, and how it judges each reply.
//!
//! A [`Lane`] is one flow of control through a list of [`Task`]s. It names the next
//! call to make and takes that call's reply. A case runs its [`Phase`]s in order;
//! where two flows run concurrently, a phase has two lanes.

use vstd::prelude::*;
use vstd::slice::slice_to_vec;
use vstd::utf8::{encode_utf8, valid_utf8};

use crate::json::opt_view;
use crate::lab::PeerRole;
use crate::payload::{
    all_verdict, byte_views, checked, in_place, index_in, intact, ordered_check_is_exact,
    ordered_verdict, verify_all, verify_ordered,
};
use crate::stimulus::{
    build_message, message_of, same_message, server_urls, urls_of, Payload, ServerList,
    CHANNEL_LABEL, SENTINEL,
};
use crate::text::{debug_quoted, debug_text, decimal, decimal_text, same, utf8_text, views};
use crate::wire::{
    config_error_shown, describe, described, message_shown, show_config_error, show_message,
    show_states, states_shown, ConfigError, ConnectionState, DataChannelState, Error, IceServer,
    IceTransportPolicy, Message, MessageView, SdpType, Seen,
};

verus! {

// ----- calls and replies ---------------------------------------------------------------

/// A session description a call hands over.
#[derive(Debug, Clone, Copy)]
pub enum Description {
    /// The offer that was created last.
    Offer,
    /// The answer that was created last.
    Answer,
    /// A description of some kind with a fixed text.
    Fixed(SdpType, &'static str),
}

/// The options a data channel is created with.
#[derive(Debug, Clone, Copy)]
pub enum ChannelOptions {
    /// All defaults.
    Plain,
    /// The suite's label.
    Labelled,
    /// The suite's label and no retransmissions.
    Unreliable,
}

/// What a state stream watches.
#[derive(Debug, Clone, Copy)]
pub enum Watched {
    Connection(PeerRole),
    Channel(PeerRole),
}

/// A state stream: the first one taken of what it watches, or a later one.
#[derive(Debug, Clone, Copy)]
pub struct StateStream {
    pub of: Watched,
    pub first: bool,
}

/// A call into the interface. Peers, their channels and what they created are
/// named by the half of the pair they are; a lone peer is the offerer.
#[allow(inconsistent_fields)]
#[derive(Debug, Clone, Copy)]
pub enum Call {
    /// Construct a peer connection without a configuration.
    NewPeer(PeerRole),
    /// Construct a configuration.
    NewConfig,
    /// Construct the offerer with the configuration.
    NewConfiguredPeer,
    /// Read the configuration's ICE servers.
    GetServers,
    /// Set the configuration's ICE servers.
    SetServers(ServerList),
    /// Read the configuration's transport policy.
    GetPolicy,
    /// Set the configuration's transport policy.
    SetPolicy(IceTransportPolicy),
    /// Create a data channel.
    CreateChannel(PeerRole, ChannelOptions),
    /// Create an offer.
    CreateOffer(PeerRole),
    /// Create an answer.
    CreateAnswer(PeerRole),
    /// Set the local description.
    SetLocal(PeerRole, Description),
    /// Set the remote description.
    SetRemote(PeerRole, Description),
    /// Take the local-candidates stream and read it to its end.
    CollectCandidates(PeerRole),
    /// Add the other peer's candidate at an index of what it gathered.
    AddCandidate { to: PeerRole, index: u64 },
    /// Add a candidate with a fixed text.
    AddFixedCandidate(PeerRole, &'static str),
    /// Wait until the connection is established.
    WaitConnected(PeerRole),
    /// Take the incoming-channels stream and read one batch of it.
    ReadIncoming(PeerRole),
    /// Close the connection.
    ClosePeer(PeerRole),
    /// Read the channel's label.
    Label(PeerRole),
    /// Send a message on the peer's channel.
    Send(PeerRole, Payload),
    /// Receive a message on the peer's channel.
    Receive(PeerRole),
    /// Claim the channel's inbound messages as a stream.
    ReceiveViaStream(PeerRole),
    /// Read one batch of the claimed stream, each message with its payload.
    ReadStream(PeerRole),
    /// Send the messages that are fed until the feed ends.
    SendViaStream(PeerRole),
    /// Feed one binary message's header to the streaming send.
    FeedHeader { length: u32 },
    /// Feed an indexed payload to the message whose header was fed last, and end
    /// that message.
    FeedPayload { index: u32, size: u32 },
    /// End the feed.
    EndFeed,
    /// Close the peer's channel.
    CloseChannel(PeerRole),
    /// Drop the peer's channel without closing it.
    DropChannel(PeerRole),
    /// Take a state stream.
    TakeStates(StateStream),
    /// Read one batch of a state stream.
    ReadStates(StateStream),
}

/// A message read from a stream, with its payload.
#[derive(Debug, Clone)]
pub struct StreamItem {
    pub is_text: bool,
    pub declared: u32,
    pub bytes: Vec<u8>,
}

/// What a call gave back.
#[allow(inconsistent_fields)]
#[derive(Debug, Clone)]
pub enum Reply {
    /// It succeeded with nothing to judge.
    Done,
    /// It failed.
    Failed(Error),
    /// It received a message.
    Message(Message),
    /// It yielded so many candidates or channels.
    Yielded(usize),
    /// The channel's label.
    Label(String),
    /// One batch of states, and whether the stream ended with it.
    States { batch: Vec<Seen>, ended: bool },
    /// The configuration's ICE servers.
    Servers(Vec<IceServer>),
    /// The configuration's transport policy.
    Policy(IceTransportPolicy),
    /// A setter did not take the value.
    Refused(ConfigError),
    /// One batch of stream messages, and whether the stream ended with it.
    Items { batch: Vec<StreamItem>, ended: bool },
    /// The streaming send failed after so many messages.
    StreamFailed { error: Error, sent: u64 },
    /// The reader of a feed was gone.
    Unwritten,
}

// ----- tasks ---------------------------------------------------------------------------

/// The errors a task is satisfied with.
#[derive(Debug, Clone, Copy)]
pub enum ErrorKind {
    Closed,
    TimedOut,
    InvalidSignaling,
    ReceivingViaStream,
    ReceiveBufferOverflow,
    /// Closed, or an overflow of the inbound buffer.
    ClosedOrOverflow,
    /// An error whose detail ends in `closed`.
    ReadsClosed,
}

/// A failure that is wanted: of some kind. The details are for a call that
/// succeeds, and in front of another error.
#[derive(Debug, Clone, Copy)]
pub struct Refusal {
    pub kind: ErrorKind,
    pub on_success: &'static str,
    pub on_other: &'static str,
}

/// The details for a message that is not the expected one: of the same kind, or of
/// the other; and whether the message is shown behind them.
#[derive(Debug, Clone, Copy)]
pub struct Mismatch {
    pub same_kind: &'static str,
    pub other_kind: &'static str,
    pub shown: bool,
}

/// What a state stream must have yielded when it has ended.
#[derive(Debug, Clone, Copy)]
pub enum StreamEnd {
    /// Nothing at all; the detail is for a stream that yielded.
    Nothing(&'static str),
    /// `closed` last; the detail stands in front of what it yielded.
    Closed(&'static str),
    /// It does not matter, nor whether the stream was well formed.
    Anything,
}

/// One step of a script.
#[derive(Debug, Clone, Copy)]
pub enum Task {
    /// Make a call whose reply is not judged.
    Do(Call),
    /// Make a call that must succeed; the detail stands in front of its error.
    Succeed(Call, &'static str),
    /// Make a call that must fail.
    Refuse(Call, Refusal),
    /// Receive until an error of some kind.
    Drain(PeerRole, ErrorKind, &'static str),
    /// Send probes until the channel reports closed, at most `limit` of them.
    SendUntilClosed { on: PeerRole, limit: u32 },
    /// Send `count` messages of `size` bytes, or until one fails.
    Flood { on: PeerRole, count: u32, size: u32 },
    /// Send `count` indexed payloads of `size` bytes.
    SendAll { on: PeerRole, count: u32, size: u32 },
    /// Receive `count` messages and verify them.
    ReceiveAll { on: PeerRole, count: u32, ordered: bool },
    /// Receive one particular message.
    Expect(PeerRole, Payload, Mismatch),
    /// Send the rendezvous message; a closed channel counts as sent.
    SendSentinel(PeerRole),
    /// Receive until the rendezvous message; a closed channel counts as it.
    AwaitSentinel(PeerRole),
    /// Gather a peer's candidates. If they are required, both peers must have some.
    Gather { on: PeerRole, required: bool },
    /// Add each candidate the other peer gathered.
    Trickle(PeerRole, &'static str),
    /// Adopt the first channel the remote peer opened.
    Adopt(PeerRole),
    /// Make a call that must yield nothing; the number it yielded stands between
    /// the details.
    YieldNothing(Call, &'static str, &'static str),
    /// The channel must have the suite's label.
    CheckLabel(PeerRole),
    /// The first state read from a stream must be the wanted one.
    FirstState(StateStream, Seen, &'static str),
    /// Read a state stream to its end.
    DrainStates(StateStream, StreamEnd),
    /// The configuration must have no ICE servers.
    NoServers(&'static str),
    /// The configuration must have a policy.
    PolicyIs(IceTransportPolicy, &'static str),
    /// Set valid servers, and remember whether they were accepted.
    OfferServers(ServerList),
    /// The getter must show the servers exactly if they were accepted.
    CheckServers(ServerList),
    /// Set the relay policy, and remember whether it was accepted.
    OfferRelay,
    /// The getter must show the relay policy exactly if it was accepted.
    CheckRelay,
    /// Put an accepted policy back.
    ResetPolicy,
    /// Set servers that must not be accepted.
    RejectServers(ServerList, &'static str),
    /// Run the streaming send to its end.
    SendStream(PeerRole),
    /// Feed `count` indexed payloads of `size` bytes to the streaming send.
    FeedAll { count: u32, size: u32 },
    /// Read `count` messages from the claimed stream and verify them.
    ReadAll { on: PeerRole, count: u32 },
}

/// The size an indexed payload has.
pub open spec fn payload_size(size: u32) -> u32 {
    if size > 4 {
        size
    } else {
        4
    }
}

/// The call a task makes in a round.
pub open spec fn call_of(task: Task, round: nat) -> Call {
    match task {
        Task::Do(call) => call,
        Task::Succeed(call, _) => call,
        Task::Refuse(call, _) => call,
        Task::Drain(on, _, _) => Call::Receive(on),
        Task::SendUntilClosed { on, .. } => Call::Send(on, Payload::Probe),
        Task::Flood { on, size, .. } => Call::Send(on, Payload::Filler { size }),
        Task::SendAll { on, size, .. } => Call::Send(
            on,
            Payload::Indexed { index: round as u32, size },
        ),
        Task::ReceiveAll { on, .. } => Call::Receive(on),
        Task::Expect(on, _, _) => Call::Receive(on),
        Task::SendSentinel(on) => Call::Send(on, Payload::Sentinel),
        Task::AwaitSentinel(on) => Call::Receive(on),
        Task::Gather { on, .. } => Call::CollectCandidates(on),
        Task::Trickle(to, _) => Call::AddCandidate { to, index: round as u64 },
        Task::Adopt(on) => Call::ReadIncoming(on),
        Task::YieldNothing(call, _, _) => call,
        Task::CheckLabel(on) => Call::Label(on),
        Task::FirstState(stream, _, _) => Call::ReadStates(stream),
        Task::DrainStates(stream, _) => Call::ReadStates(stream),
        Task::NoServers(_) => Call::GetServers,
        Task::PolicyIs(_, _) => Call::GetPolicy,
        Task::OfferServers(list) => Call::SetServers(list),
        Task::CheckServers(_) => Call::GetServers,
        Task::OfferRelay => Call::SetPolicy(IceTransportPolicy::Relay),
        Task::CheckRelay => Call::GetPolicy,
        Task::ResetPolicy => Call::SetPolicy(IceTransportPolicy::All),
        Task::RejectServers(list, _) => Call::SetServers(list),
        Task::SendStream(on) => Call::SendViaStream(on),
        Task::FeedAll { size, .. } => if round % 2 == 0 {
            Call::FeedHeader { length: payload_size(size) }
        } else {
            Call::FeedPayload { index: (round / 2) as u32, size }
        },
        Task::ReadAll { on, .. } => Call::ReadStream(on),
    }
}

// ----- the state of a lane -------------------------------------------------------------

/// A lane's state.
pub struct LaneView {
    /// The script.
    pub tasks: Seq<Task>,
    /// The task at hand; past the last one, the lane is through.
    pub at: nat,
    /// How often the task at hand has been answered, where it counts.
    pub round: nat,
    /// How many candidates the offerer gathered.
    pub offered: nat,
    /// How many candidates the answerer gathered.
    pub answered: nat,
    /// Whether the value set last was accepted.
    pub accepted: bool,
    /// The messages the task at hand has received.
    pub received: Seq<Seq<u8>>,
    /// The states the task at hand has read.
    pub states: Seq<Seen>,
    /// The detail the lane failed with.
    pub failure: Option<Seq<char>>,
}

/// How many calls a task makes, where that is counted; none if there is nothing to
/// do for it.
pub open spec fn rounds(task: Task, lane: LaneView) -> nat {
    match task {
        Task::SendUntilClosed { limit, .. } => (limit + 1) as nat,
        Task::Flood { count, .. } => count as nat,
        Task::SendAll { count, .. } => count as nat,
        Task::ReceiveAll { count, .. } => if count == 0 {
            0
        } else {
            1
        },
        Task::Trickle(PeerRole::Offerer, _) => lane.answered,
        Task::Trickle(PeerRole::Answerer, _) => lane.offered,
        Task::ResetPolicy => if lane.accepted {
            1
        } else {
            0
        },
        Task::FeedAll { count, .. } => (2 * count) as nat,
        Task::ReadAll { count, .. } => if count == 0 {
            0
        } else {
            1
        },
        _ => 1,
    }
}

/// The lane at the next task that has something to do.
pub open spec fn skipped(lane: LaneView) -> LaneView
    decreases lane.tasks.len() - lane.at,
{
    if lane.at < lane.tasks.len() && rounds(lane.tasks[lane.at as int], lane) == 0 {
        skipped(LaneView { at: lane.at + 1, ..lane })
    } else {
        lane
    }
}

impl LaneView {
    /// A lane at the beginning of its script.
    pub open spec fn start(tasks: Seq<Task>) -> LaneView {
        skipped(
            LaneView {
                tasks,
                at: 0,
                round: 0,
                offered: 0,
                answered: 0,
                accepted: false,
                received: Seq::empty(),
                states: Seq::empty(),
                failure: None,
            },
        )
    }

    /// Whether there is a call to make.
    pub open spec fn busy(self) -> bool {
        self.failure is None && self.at < self.tasks.len()
    }

    /// The task at hand.
    pub open spec fn task(self) -> Task {
        self.tasks[self.at as int]
    }

    /// The lane past the task at hand.
    pub open spec fn moved(self) -> LaneView {
        skipped(
            LaneView {
                at: self.at + 1,
                round: 0,
                received: Seq::empty(),
                states: Seq::empty(),
                ..self
            },
        )
    }

    /// The lane in the next round of the task at hand, or past it.
    pub open spec fn again(self) -> LaneView {
        if self.round + 1 >= rounds(self.task(), self) {
            self.moved()
        } else {
            LaneView { round: self.round + 1, ..self }
        }
    }

    /// The lane failed.
    pub open spec fn failed(self, detail: Seq<char>) -> LaneView {
        LaneView {
            received: Seq::empty(),
            states: Seq::empty(),
            failure: Some(detail),
            ..self
        }
    }

    /// The lane past the task at hand, or failed with a check's detail.
    pub open spec fn verdict(self, check: Result<(), Seq<char>>) -> LaneView {
        match check {
            Ok(()) => self.moved(),
            Err(detail) => self.failed(detail),
        }
    }

    /// A lane that a script leads to.
    pub open spec fn valid(self) -> bool {
        &&& self.at <= self.tasks.len()
        &&& self.busy() ==> self.round < rounds(self.task(), self)
    }
}

// ----- how replies are judged ----------------------------------------------------------

/// Whether `s` ends in `tail`.
pub open spec fn ends_in(s: Seq<char>, tail: Seq<char>) -> bool {
    s.len() >= tail.len() && s.subrange(s.len() - tail.len(), s.len() as int) == tail
}

/// Whether an error is of a kind.
pub open spec fn is_kind(error: Error, kind: ErrorKind) -> bool {
    match kind {
        ErrorKind::Closed => error is Closed,
        ErrorKind::TimedOut => error is TimedOut,
        ErrorKind::InvalidSignaling => error is InvalidSignaling,
        ErrorKind::ReceivingViaStream => error is ReceivingViaStream,
        ErrorKind::ReceiveBufferOverflow => error is ReceiveBufferOverflow,
        ErrorKind::ClosedOrOverflow => error is Closed || error is ReceiveBufferOverflow,
        ErrorKind::ReadsClosed => ends_in("receive: "@ + described(error), "closed"@),
    }
}

/// The bytes of a message.
pub open spec fn bytes_of(message: MessageView) -> Seq<u8> {
    match message {
        MessageView::Binary(bytes) => bytes,
        MessageView::Text(text) => encode_utf8(text),
    }
}

/// The detail for a message that is not the expected one.
pub open spec fn mismatch_detail(
    mismatch: Mismatch,
    expected: MessageView,
    got: MessageView,
) -> Seq<char> {
    let detail = if (expected is Binary) == (got is Binary) {
        mismatch.same_kind@
    } else {
        mismatch.other_kind@
    };
    if mismatch.shown {
        detail + message_shown(got)
    } else {
        detail
    }
}

/// What a stream yielded after one state more, or what is wrong with that state: a
/// stream never repeats its last state, and yields nothing past a terminal one.
pub open spec fn with_state(states: Seq<Seen>, state: Seen) -> Result<Seq<Seen>, Seq<char>> {
    if states.len() > 0 && states.last() == state {
        Err("consecutive duplicate state "@ + state.shown())
    } else if states.len() > 0 && states.last().ends() {
        Err("state "@ + state.shown() + " delivered after a terminal state"@)
    } else {
        Ok(states.push(state))
    }
}

/// What a stream yielded after a batch, or what is wrong with the first state of it
/// that does not belong.
pub open spec fn with_states(states: Seq<Seen>, batch: Seq<Seen>) -> Result<Seq<Seen>, Seq<char>>
    decreases batch.len(),
{
    if batch.len() == 0 {
        Ok(states)
    } else {
        match with_state(states, batch[0]) {
            Err(detail) => Err(detail),
            Ok(more) => with_states(more, batch.drop_first()),
        }
    }
}

/// Whether what a stream yielded is what it must have.
pub open spec fn end_verdict(states: Seq<Seen>, end: StreamEnd) -> Result<(), Seq<char>> {
    match end {
        StreamEnd::Nothing(detail) => if states.len() == 0 {
            Ok(())
        } else {
            Err(detail@)
        },
        StreamEnd::Closed(detail) => if states.len() > 0 && is_closed(states.last()) {
            Ok(())
        } else {
            Err(detail@ + states_shown(states))
        },
        StreamEnd::Anything => Ok(()),
    }
}

/// Whether a state is `closed`.
pub open spec fn is_closed(state: Seen) -> bool {
    state == Seen::Connection(ConnectionState::Closed) || state == Seen::Channel(
        DataChannelState::Closed,
    )
}

/// What is wrong with a message read from a stream: it carries another number of
/// bytes than it declared, or text that is not UTF-8.
pub open spec fn item_flaw(item: StreamItem) -> Option<Seq<char>> {
    if item.bytes@.len() != item.declared {
        Some(
            "stream-message declared "@ + decimal(item.declared as nat) + " bytes but carried "@
                + decimal(item.bytes@.len()),
        )
    } else if item.is_text && !valid_utf8(item.bytes@) {
        Some("text stream-message payload is not UTF-8"@)
    } else {
        None
    }
}

/// What was received after a batch of stream messages, or what is wrong with the
/// first flawed one.
pub open spec fn with_items(received: Seq<Seq<u8>>, batch: Seq<StreamItem>) -> Result<
    Seq<Seq<u8>>,
    Seq<char>,
>
    decreases batch.len(),
{
    if batch.len() == 0 {
        Ok(received)
    } else {
        match item_flaw(batch[0]) {
            Some(detail) => Err(detail),
            None => with_items(received.push(batch[0].bytes@), batch.drop_first()),
        }
    }
}

/// Whether the servers a getter shows are those of a list: one server with the
/// list's URLs.
pub open spec fn shows_servers(servers: Seq<IceServer>, list: ServerList) -> bool {
    servers.len() == 1 && views(servers[0].urls@) == server_urls(list)
}

/// The lane after a reply to the call at hand. A reply that does not answer the
/// call leaves it as it is.
pub open spec fn judged(lane: LaneView, reply: Reply) -> LaneView {
    if !lane.busy() {
        lane
    } else {
        match lane.task() {
            Task::Do(_) => lane.moved(),
            Task::Succeed(_, detail) => match reply {
                Reply::Done => lane.moved(),
                Reply::Message(_) => lane.moved(),
                Reply::Failed(error) => lane.failed(detail@ + described(error)),
                _ => lane,
            },
            Task::Refuse(_, refusal) => match reply {
                Reply::Done => lane.failed(refusal.on_success@),
                Reply::Message(_) => lane.failed(refusal.on_success@),
                Reply::Failed(error) => if is_kind(error, refusal.kind) {
                    lane.moved()
                } else {
                    lane.failed(refusal.on_other@ + described(error))
                },
                _ => lane,
            },
            Task::Drain(_, kind, detail) => match reply {
                Reply::Failed(error) => if is_kind(error, kind) {
                    lane.moved()
                } else {
                    lane.failed(detail@ + described(error))
                },
                _ => lane,
            },
            Task::SendUntilClosed { limit, .. } => match reply {
                Reply::Done => if lane.round + 1 > limit {
                    lane.failed("send never failed after close"@)
                } else {
                    LaneView { round: lane.round + 1, ..lane }
                },
                Reply::Failed(error) => if error is Closed {
                    lane.moved()
                } else {
                    lane.failed("expected closed, got "@ + described(error))
                },
                _ => lane,
            },
            Task::Flood { .. } => match reply {
                Reply::Done => lane.again(),
                Reply::Failed(_) => lane.moved(),
                _ => lane,
            },
            Task::SendAll { .. } => match reply {
                Reply::Done => lane.again(),
                Reply::Failed(error) => lane.failed("send: "@ + described(error)),
                _ => lane,
            },
            Task::ReceiveAll { count, ordered, .. } => match reply {
                Reply::Message(message) => {
                    let received = lane.received.push(bytes_of(message@));
                    if received.len() < count {
                        LaneView { received, ..lane }
                    } else if ordered {
                        lane.verdict(ordered_verdict(received, count as nat))
                    } else {
                        lane.verdict(all_verdict(received, count as nat))
                    }
                },
                Reply::Failed(error) => lane.failed("receive: "@ + described(error)),
                _ => lane,
            },
            Task::Expect(_, payload, mismatch) => match reply {
                Reply::Message(message) => if message@ == message_of(payload) {
                    lane.moved()
                } else {
                    lane.failed(mismatch_detail(mismatch, message_of(payload), message@))
                },
                Reply::Failed(error) => lane.failed("receive: "@ + described(error)),
                _ => lane,
            },
            Task::SendSentinel(_) => match reply {
                Reply::Done => lane.moved(),
                Reply::Failed(error) => if error is Closed {
                    lane.moved()
                } else {
                    lane.failed("send: "@ + described(error))
                },
                _ => lane,
            },
            Task::AwaitSentinel(_) => match reply {
                Reply::Message(message) => if message@ == message_of(Payload::Sentinel) {
                    lane.moved()
                } else {
                    lane
                },
                Reply::Failed(error) => if error is Closed {
                    lane.moved()
                } else {
                    lane.failed("receive: "@ + described(error))
                },
                _ => lane,
            },
            Task::Gather { on, required } => match reply {
                Reply::Yielded(n) => {
                    let gathered = match on {
                        PeerRole::Offerer => LaneView { offered: n as nat, ..lane },
                        PeerRole::Answerer => LaneView { answered: n as nat, ..lane },
                    };
                    if required && (gathered.offered == 0 || gathered.answered == 0) {
                        gathered.failed("no local ICE candidates were gathered"@)
                    } else {
                        gathered.moved()
                    }
                },
                _ => lane,
            },
            Task::Trickle(_, detail) => match reply {
                Reply::Done => lane.again(),
                Reply::Failed(error) => lane.failed(detail@ + described(error)),
                _ => lane,
            },
            Task::Adopt(_) => match reply {
                Reply::Yielded(n) => if n == 0 {
                    lane.failed("no incoming data channel"@)
                } else {
                    lane.moved()
                },
                _ => lane,
            },
            Task::YieldNothing(_, before, after) => match reply {
                Reply::Yielded(n) => if n == 0 {
                    lane.moved()
                } else {
                    lane.failed(before@ + decimal(n as nat) + after@)
                },
                _ => lane,
            },
            Task::CheckLabel(_) => match reply {
                Reply::Label(label) => if label@ == CHANNEL_LABEL@ {
                    lane.moved()
                } else {
                    lane.failed(
                        "label was "@ + debug_text(label@) + ", expected "@ + debug_text(
                            CHANNEL_LABEL@,
                        ),
                    )
                },
                _ => lane,
            },
            Task::FirstState(_, wanted, name) => match reply {
                Reply::States { batch, .. } => if batch@.len() > 0 && batch@[0] == wanted {
                    lane.moved()
                } else {
                    lane.failed(
                        "expected "@ + name@ + " as the state at first read, got "@ + states_shown(
                            batch@,
                        ),
                    )
                },
                _ => lane,
            },
            Task::DrainStates(_, end) => match reply {
                Reply::States { batch, ended } => match with_states(lane.states, batch@) {
                    Err(detail) => match end {
                        StreamEnd::Anything => lane.moved(),
                        _ => lane.failed(detail),
                    },
                    Ok(states) => if ended {
                        lane.verdict(end_verdict(states, end))
                    } else {
                        LaneView { states, ..lane }
                    },
                },
                _ => lane,
            },
            Task::NoServers(detail) => match reply {
                Reply::Servers(servers) => if servers@.len() == 0 {
                    lane.moved()
                } else {
                    lane.failed(detail@)
                },
                _ => lane,
            },
            Task::PolicyIs(policy, detail) => match reply {
                Reply::Policy(found) => if found == policy {
                    lane.moved()
                } else {
                    lane.failed(detail@)
                },
                _ => lane,
            },
            Task::OfferServers(_) => match reply {
                Reply::Done => LaneView { accepted: true, ..lane }.moved(),
                Reply::Refused(ConfigError::NotSupported) => LaneView {
                    accepted: false,
                    ..lane
                }.moved(),
                Reply::Refused(ConfigError::Invalid(why)) => lane.failed(
                    "valid ice server rejected as invalid: "@ + why@,
                ),
                _ => lane,
            },
            Task::CheckServers(list) => match reply {
                Reply::Servers(servers) => if lane.accepted {
                    if shows_servers(servers@, list) {
                        lane.moved()
                    } else {
                        lane.failed("accepted ice servers not reflected by the getter"@)
                    }
                } else if servers@.len() == 0 {
                    lane.moved()
                } else {
                    lane.failed("rejected ice servers changed the getter"@)
                },
                _ => lane,
            },
            Task::OfferRelay => match reply {
                Reply::Done => LaneView { accepted: true, ..lane }.moved(),
                Reply::Refused(ConfigError::NotSupported) => LaneView {
                    accepted: false,
                    ..lane
                }.moved(),
                Reply::Refused(ConfigError::Invalid(why)) => lane.failed(
                    "relay policy rejected as invalid: "@ + why@,
                ),
                _ => lane,
            },
            Task::CheckRelay => match reply {
                Reply::Policy(found) => if lane.accepted {
                    if found == IceTransportPolicy::Relay {
                        lane.moved()
                    } else {
                        lane.failed("accepted relay policy not reflected by the getter"@)
                    }
                } else if found == IceTransportPolicy::All {
                    lane.moved()
                } else {
                    lane.failed("rejected relay policy changed the getter"@)
                },
                _ => lane,
            },
            Task::ResetPolicy => match reply {
                Reply::Done => lane.moved(),
                Reply::Refused(error) => lane.failed(
                    "resetting policy failed: "@ + config_error_shown(error),
                ),
                _ => lane,
            },
            Task::RejectServers(_, detail) => match reply {
                Reply::Done => lane.failed(detail@),
                Reply::Refused(_) => lane.moved(),
                _ => lane,
            },
            Task::SendStream(_) => match reply {
                Reply::Done => lane.moved(),
                Reply::StreamFailed { error, sent } => lane.failed(
                    "send-via-stream: "@ + described(error) + " after "@ + decimal(sent as nat)
                        + " message(s)"@,
                ),
                _ => lane,
            },
            Task::FeedAll { .. } => match reply {
                Reply::Done => lane.again(),
                Reply::Unwritten => if lane.round % 2 == 0 {
                    lane.failed("stream-message writer closed early"@)
                } else {
                    lane.failed("payload writer closed early"@)
                },
                _ => lane,
            },
            Task::ReadAll { count, .. } => match reply {
                Reply::Items { batch, ended } => match with_items(lane.received, batch@) {
                    Err(detail) => lane.failed(detail),
                    Ok(received) => if received.len() >= count {
                        lane.verdict(all_verdict(received, count as nat))
                    } else if ended {
                        lane.failed(
                            "stream ended after "@ + decimal(received.len()) + " of "@ + decimal(
                                count as nat,
                            ) + " message(s)"@,
                        )
                    } else {
                        LaneView { received, ..lane }
                    },
                },
                _ => lane,
            },
        }
    }
}

// ----- a lane, executable --------------------------------------------------------------

fn ends_with(s: &str, tail: &str) -> (r: bool)
    ensures
        r == ends_in(s@, tail@),
{
    let len: usize = s.unicode_len();
    let tail_len: usize = tail.unicode_len();
    len >= tail_len && same(s.substring_char(len - tail_len, len), tail)
}

fn of_kind(error: &Error, kind: ErrorKind) -> (r: bool)
    ensures
        r == is_kind(*error, kind),
{
    match (kind, error) {
        (ErrorKind::Closed, Error::Closed) => true,
        (ErrorKind::TimedOut, Error::TimedOut) => true,
        (ErrorKind::InvalidSignaling, Error::InvalidSignaling(_)) => true,
        (ErrorKind::ReceivingViaStream, Error::ReceivingViaStream) => true,
        (ErrorKind::ReceiveBufferOverflow, Error::ReceiveBufferOverflow) => true,
        (ErrorKind::ClosedOrOverflow, Error::Closed) => true,
        (ErrorKind::ClosedOrOverflow, Error::ReceiveBufferOverflow) => true,
        (ErrorKind::ReadsClosed, error) => {
            let detail = "receive: ".to_owned().concat(describe(error).as_str());
            ends_with(detail.as_str(), "closed")
        },
        (_, _) => false,
    }
}

fn into_bytes(message: Message) -> (r: Vec<u8>)
    ensures
        r@ == bytes_of(message@),
{
    match message {
        Message::Binary(bytes) => bytes,
        Message::Text(text) => slice_to_vec(text.as_str().as_bytes()),
    }
}

fn detail_of_mismatch(mismatch: Mismatch, expected: &Message, got: &Message) -> (r: String)
    ensures
        r@ == mismatch_detail(mismatch, expected@, got@),
{
    let of_one_kind = match (expected, got) {
        (Message::Binary(_), Message::Binary(_)) => true,
        (Message::Text(_), Message::Text(_)) => true,
        (_, _) => false,
    };
    let detail = if of_one_kind { mismatch.same_kind } else { mismatch.other_kind };
    if mismatch.shown {
        detail.to_owned().concat(show_message(got).as_str())
    } else {
        detail.to_owned()
    }
}

/// Take a batch of states into what a stream has yielded.
fn absorb_states(states: &mut Vec<Seen>, batch: &[Seen]) -> (r: Result<(), String>)
    ensures
        match r {
            Ok(()) => with_states(old(states)@, batch@) == Ok::<_, Seq<char>>(final(states)@),
            Err(detail) => with_states(old(states)@, batch@) == Err::<Seq<Seen>, _>(detail@),
        },
{
    let ghost was = states@;
    let mut i: usize = 0;
    assert(batch@.skip(0) =~= batch@);
    while i < batch.len()
        invariant
            i <= batch@.len(),
            was == old(states)@,
            with_states(was, batch@) == with_states(states@, batch@.skip(i as int)),
        decreases batch@.len() - i,
    {
        let state = batch[i];
        assert(batch@.skip(i as int)[0] == state);
        assert(batch@.skip(i as int).drop_first() =~= batch@.skip(i + 1));
        if states.len() > 0 {
            let last = states[states.len() - 1];
            if last == state {
                return Err("consecutive duplicate state ".to_owned().concat(state.show()));
            }
            if last.is_terminal() {
                return Err(
                    "state ".to_owned().concat(state.show()).concat(
                        " delivered after a terminal state",
                    ),
                );
            }
        }
        states.push(state);
        i += 1;
    }
    assert(batch@.skip(batch@.len() as int) =~= Seq::<Seen>::empty());
    Ok(())
}

fn check_end(states: &Vec<Seen>, end: StreamEnd) -> (r: Result<(), String>)
    ensures
        checked(r) == end_verdict(states@, end),
{
    match end {
        StreamEnd::Nothing(detail) => if states.len() == 0 {
            Ok(())
        } else {
            Err(detail.to_owned())
        },
        StreamEnd::Closed(detail) => {
            if states.len() > 0 {
                let last = states[states.len() - 1];
                if last == Seen::Connection(ConnectionState::Closed) || last == Seen::Channel(
                    DataChannelState::Closed,
                ) {
                    return Ok(());
                }
            }
            Err(detail.to_owned().concat(show_states(states.as_slice()).as_str()))
        },
        StreamEnd::Anything => Ok(()),
    }
}

fn find_item_flaw(item: &StreamItem) -> (r: Option<String>)
    ensures
        opt_view(r) == item_flaw(*item),
{
    if item.bytes.len() as u64 != item.declared as u64 {
        return Some(
            "stream-message declared ".to_owned().concat(
                decimal_text(item.declared as u64).as_str(),
            ).concat(" bytes but carried ").concat(decimal_text(item.bytes.len() as u64).as_str()),
        );
    }
    if item.is_text {
        let bytes = slice_to_vec(item.bytes.as_slice());
        if utf8_text(bytes).is_err() {
            return Some("text stream-message payload is not UTF-8".to_owned());
        }
    }
    None
}

/// Take a batch of stream messages into what has been received.
fn absorb_items(received: &mut Vec<Vec<u8>>, batch: &[StreamItem]) -> (r: Result<(), String>)
    ensures
        match r {
            Ok(()) => with_items(byte_views(old(received)@), batch@) == Ok::<_, Seq<char>>(
                byte_views(final(received)@),
            ),
            Err(detail) => with_items(byte_views(old(received)@), batch@) == Err::<Seq<Seq<u8>>, _>(
                detail@,
            ),
        },
{
    let ghost was = byte_views(received@);
    let mut i: usize = 0;
    assert(batch@.skip(0) =~= batch@);
    while i < batch.len()
        invariant
            i <= batch@.len(),
            was == byte_views(old(received)@),
            with_items(was, batch@) == with_items(byte_views(received@), batch@.skip(i as int)),
        decreases batch@.len() - i,
    {
        let ghost now = byte_views(received@);
        assert(batch@.skip(i as int)[0] == batch@[i as int]);
        assert(batch@.skip(i as int).drop_first() =~= batch@.skip(i + 1));
        match find_item_flaw(&batch[i]) {
            Some(detail) => {
                return Err(detail);
            },
            None => {},
        }
        received.push(slice_to_vec(batch[i].bytes.as_slice()));
        assert(byte_views(received@) =~= now.push(batch@[i as int].bytes@));
        i += 1;
    }
    assert(batch@.skip(batch@.len() as int) =~= Seq::<StreamItem>::empty());
    Ok(())
}

fn are_servers(servers: &Vec<IceServer>, list: ServerList) -> (r: bool)
    ensures
        r == shows_servers(servers@, list),
{
    if servers.len() != 1 {
        return false;
    }
    let wanted = urls_of(list);
    let found = &servers[0].urls;
    let ghost w = views(wanted@);
    let ghost f = views(found@);
    assert(w.len() == wanted@.len() && f.len() == found@.len());
    if found.len() != wanted.len() {
        return false;
    }
    let mut i: usize = 0;
    while i < found.len()
        invariant
            i <= found@.len() == wanted@.len(),
            found == &servers@[0].urls,
            w == server_urls(list),
            w == views(wanted@),
            f == views(found@),
            forall|k: int| 0 <= k < i ==> #[trigger] f[k] == w[k],
        decreases found@.len() - i,
    {
        if !same(found[i].as_str(), wanted[i].as_str()) {
            assert(f[i as int] != w[i as int]);
            return false;
        }
        i += 1;
    }
    assert(f =~= w);
    true
}

/// One flow of control through a script.
#[derive(Debug)]
pub struct Lane {
    tasks: Vec<Task>,
    at: usize,
    round: u64,
    offered: usize,
    answered: usize,
    accepted: bool,
    received: Vec<Vec<u8>>,
    states: Vec<Seen>,
    failure: Option<String>,
}

impl View for Lane {
    type V = LaneView;

    closed spec fn view(&self) -> LaneView {
        LaneView {
            tasks: self.tasks@,
            at: self.at as nat,
            round: self.round as nat,
            offered: self.offered as nat,
            answered: self.answered as nat,
            accepted: self.accepted,
            received: byte_views(self.received@),
            states: self.states@,
            failure: opt_view(self.failure),
        }
    }
}

impl Lane {
    fn rounds_of(&self, task: Task) -> (r: u64)
        ensures
            r == rounds(task, self@),
    {
        match task {
            Task::SendUntilClosed { limit, .. } => limit as u64 + 1,
            Task::Flood { count, .. } => count as u64,
            Task::SendAll { count, .. } => count as u64,
            Task::ReceiveAll { count, .. } => if count == 0 {
                0
            } else {
                1
            },
            Task::Trickle(PeerRole::Offerer, _) => self.answered as u64,
            Task::Trickle(PeerRole::Answerer, _) => self.offered as u64,
            Task::ResetPolicy => if self.accepted {
                1
            } else {
                0
            },
            Task::FeedAll { count, .. } => 2 * count as u64,
            Task::ReadAll { count, .. } => if count == 0 {
                0
            } else {
                1
            },
            _ => 1,
        }
    }

    fn skip(&mut self)
        requires
            old(self)@.at <= old(self)@.tasks.len(),
            old(self)@.round == 0,
        ensures
            final(self)@ == skipped(old(self)@),
            final(self)@.valid(),
    {
        let ghost was = self@;
        while self.at < self.tasks.len() && self.rounds_of(self.tasks[self.at]) == 0
            invariant
                self@.at <= self@.tasks.len(),
                self@.round == 0,
                skipped(self@) == skipped(was),
            decreases self@.tasks.len() - self@.at,
        {
            self.at += 1;
        }
    }

    fn advance(&mut self)
        requires
            old(self)@.at < old(self)@.tasks.len(),
        ensures
            final(self)@ == old(self)@.moved(),
            final(self)@.valid(),
    {
        assert(self.at < self.tasks.len());
        self.at += 1;
        self.round = 0;
        self.received = Vec::new();
        self.states = Vec::new();
        assert(self@.received =~= Seq::<Seq<u8>>::empty());
        assert(self@.states =~= Seq::<Seen>::empty());
        self.skip();
    }

    fn repeat(&mut self)
        requires
            old(self)@.valid(),
            old(self)@.busy(),
        ensures
            final(self)@ == old(self)@.again(),
            final(self)@.valid(),
    {
        if self.round + 1 >= self.rounds_of(self.tasks[self.at]) {
            self.advance();
        } else {
            self.round += 1;
        }
    }

    fn fail(&mut self, detail: String)
        requires
            old(self)@.valid(),
        ensures
            final(self)@ == old(self)@.failed(detail@),
            final(self)@.valid(),
    {
        self.received = Vec::new();
        self.states = Vec::new();
        assert(self@.received =~= Seq::<Seq<u8>>::empty());
        assert(self@.states =~= Seq::<Seen>::empty());
        self.failure = Some(detail);
    }

    fn conclude(&mut self, check: Result<(), String>)
        requires
            old(self)@.valid(),
            old(self)@.busy(),
        ensures
            final(self)@ == old(self)@.verdict(checked(check)),
            final(self)@.valid(),
    {
        match check {
            Ok(()) => {
                self.advance();
            },
            Err(detail) => {
                self.fail(detail);
            },
        }
    }

    /// Begin a script.
    pub fn new(tasks: Vec<Task>) -> (r: Lane)
        ensures
            r@ == LaneView::start(tasks@),
            r@.valid(),
    {
        let mut lane = Lane {
            tasks,
            at: 0,
            round: 0,
            offered: 0,
            answered: 0,
            accepted: false,
            received: Vec::new(),
            states: Vec::new(),
            failure: None,
        };
        assert(lane@.received =~= Seq::<Seq<u8>>::empty());
        assert(lane@.states =~= Seq::<Seen>::empty());
        lane.skip();
        lane
    }

    /// The call to make next; none once the lane is through or has failed.
    pub fn call(&self) -> (r: Option<Call>)
        requires
            self@.valid(),
        ensures
            r is Some <==> self@.busy(),
            r matches Some(call) ==> call == call_of(self@.task(), self@.round),
    {
        if self.failure.is_some() || self.at >= self.tasks.len() {
            return None;
        }
        let call = match self.tasks[self.at] {
            Task::Do(call) => call,
            Task::Succeed(call, _) => call,
            Task::Refuse(call, _) => call,
            Task::Drain(on, _, _) => Call::Receive(on),
            Task::SendUntilClosed { on, .. } => Call::Send(on, Payload::Probe),
            Task::Flood { on, size, .. } => Call::Send(on, Payload::Filler { size }),
            Task::SendAll { on, size, .. } => Call::Send(
                on,
                Payload::Indexed { index: self.round as u32, size },
            ),
            Task::ReceiveAll { on, .. } => Call::Receive(on),
            Task::Expect(on, _, _) => Call::Receive(on),
            Task::SendSentinel(on) => Call::Send(on, Payload::Sentinel),
            Task::AwaitSentinel(on) => Call::Receive(on),
            Task::Gather { on, .. } => Call::CollectCandidates(on),
            Task::Trickle(to, _) => Call::AddCandidate { to, index: self.round },
            Task::Adopt(on) => Call::ReadIncoming(on),
            Task::YieldNothing(call, _, _) => call,
            Task::CheckLabel(on) => Call::Label(on),
            Task::FirstState(stream, _, _) => Call::ReadStates(stream),
            Task::DrainStates(stream, _) => Call::ReadStates(stream),
            Task::NoServers(_) => Call::GetServers,
            Task::PolicyIs(_, _) => Call::GetPolicy,
            Task::OfferServers(list) => Call::SetServers(list),
            Task::CheckServers(_) => Call::GetServers,
            Task::OfferRelay => Call::SetPolicy(IceTransportPolicy::Relay),
            Task::CheckRelay => Call::GetPolicy,
            Task::ResetPolicy => Call::SetPolicy(IceTransportPolicy::All),
            Task::RejectServers(list, _) => Call::SetServers(list),
            Task::SendStream(on) => Call::SendViaStream(on),
            Task::FeedAll { size, .. } => if self.round % 2 == 0 {
                Call::FeedHeader { length: if size > 4 { size } else { 4 } }
            } else {
                Call::FeedPayload { index: (self.round / 2) as u32, size }
            },
            Task::ReadAll { on, .. } => Call::ReadStream(on),
        };
        Some(call)
    }

    /// Take the reply to the call at hand.
    pub fn reply(&mut self, reply: Reply)
        requires
            old(self)@.valid(),
        ensures
            final(self)@ == judged(old(self)@, reply),
            final(self)@.valid(),
    {
        if self.failure.is_some() || self.at >= self.tasks.len() {
            return;
        }
        match (self.tasks[self.at], reply) {
            (Task::Do(_), _) => {
                self.advance();
            },
            (Task::Succeed(_, _), Reply::Done) => {
                self.advance();
            },
            (Task::Succeed(_, _), Reply::Message(_)) => {
                self.advance();
            },
            (Task::Succeed(_, detail), Reply::Failed(error)) => {
                self.fail(detail.to_owned().concat(describe(&error).as_str()));
            },
            (Task::Refuse(_, refusal), Reply::Done) => {
                self.fail(refusal.on_success.to_owned());
            },
            (Task::Refuse(_, refusal), Reply::Message(_)) => {
                self.fail(refusal.on_success.to_owned());
            },
            (Task::Refuse(_, refusal), Reply::Failed(error)) => {
                if of_kind(&error, refusal.kind) {
                    self.advance();
                } else {
                    self.fail(refusal.on_other.to_owned().concat(describe(&error).as_str()));
                }
            },
            (Task::Drain(_, kind, detail), Reply::Failed(error)) => {
                if of_kind(&error, kind) {
                    self.advance();
                } else {
                    self.fail(detail.to_owned().concat(describe(&error).as_str()));
                }
            },
            (Task::SendUntilClosed { limit, .. }, Reply::Done) => {
                if self.round + 1 > limit as u64 {
                    self.fail("send never failed after close".to_owned());
                } else {
                    self.round += 1;
                }
            },
            (Task::SendUntilClosed { .. }, Reply::Failed(error)) => {
                if of_kind(&error, ErrorKind::Closed) {
                    self.advance();
                } else {
                    self.fail("expected closed, got ".to_owned().concat(describe(&error).as_str()));
                }
            },
            (Task::Flood { .. }, Reply::Done) => {
                self.repeat();
            },
            (Task::Flood { .. }, Reply::Failed(_)) => {
                self.advance();
            },
            (Task::SendAll { .. }, Reply::Done) => {
                self.repeat();
            },
            (Task::SendAll { .. }, Reply::Failed(error)) => {
                self.fail("send: ".to_owned().concat(describe(&error).as_str()));
            },
            (Task::ReceiveAll { count, ordered, .. }, Reply::Message(message)) => {
                self.take_message(message, count, ordered);
            },
            (Task::ReceiveAll { .. }, Reply::Failed(error)) => {
                self.fail("receive: ".to_owned().concat(describe(&error).as_str()));
            },
            (Task::Expect(_, payload, mismatch), Reply::Message(message)) => {
                let expected = build_message(payload);
                if same_message(&message, &expected) {
                    self.advance();
                } else {
                    self.fail(detail_of_mismatch(mismatch, &expected, &message));
                }
            },
            (Task::Expect(_, _, _), Reply::Failed(error)) => {
                self.fail("receive: ".to_owned().concat(describe(&error).as_str()));
            },
            (Task::SendSentinel(_), Reply::Done) => {
                self.advance();
            },
            (Task::SendSentinel(_), Reply::Failed(error)) => {
                if of_kind(&error, ErrorKind::Closed) {
                    self.advance();
                } else {
                    self.fail("send: ".to_owned().concat(describe(&error).as_str()));
                }
            },
            (Task::AwaitSentinel(_), Reply::Message(message)) => {
                if same_message(&message, &build_message(Payload::Sentinel)) {
                    self.advance();
                }
            },
            (Task::AwaitSentinel(_), Reply::Failed(error)) => {
                if of_kind(&error, ErrorKind::Closed) {
                    self.advance();
                } else {
                    self.fail("receive: ".to_owned().concat(describe(&error).as_str()));
                }
            },
            (Task::Gather { on, required }, Reply::Yielded(n)) => {
                match on {
                    PeerRole::Offerer => {
                        self.offered = n;
                    },
                    PeerRole::Answerer => {
                        self.answered = n;
                    },
                }
                if required && (self.offered == 0 || self.answered == 0) {
                    self.fail("no local ICE candidates were gathered".to_owned());
                } else {
                    self.advance();
                }
            },
            (Task::Trickle(_, _), Reply::Done) => {
                self.repeat();
            },
            (Task::Trickle(_, detail), Reply::Failed(error)) => {
                self.fail(detail.to_owned().concat(describe(&error).as_str()));
            },
            (Task::Adopt(_), Reply::Yielded(n)) => {
                if n == 0 {
                    self.fail("no incoming data channel".to_owned());
                } else {
                    self.advance();
                }
            },
            (Task::YieldNothing(_, before, after), Reply::Yielded(n)) => {
                if n == 0 {
                    self.advance();
                } else {
                    self.fail(
                        before.to_owned().concat(decimal_text(n as u64).as_str()).concat(after),
                    );
                }
            },
            (Task::CheckLabel(_), Reply::Label(label)) => {
                if same(label.as_str(), CHANNEL_LABEL) {
                    self.advance();
                } else {
                    self.fail(
                        "label was ".to_owned().concat(
                            debug_quoted(label.as_str()).as_str(),
                        ).concat(", expected ").concat(debug_quoted(CHANNEL_LABEL).as_str()),
                    );
                }
            },
            (Task::FirstState(_, wanted, name), Reply::States { batch, .. }) => {
                if batch.len() > 0 && batch[0] == wanted {
                    self.advance();
                } else {
                    self.fail(
                        "expected ".to_owned().concat(name).concat(
                            " as the state at first read, got ",
                        ).concat(show_states(batch.as_slice()).as_str()),
                    );
                }
            },
            (Task::DrainStates(_, end), Reply::States { batch, ended }) => {
                self.take_states(batch, ended, end);
            },
            (Task::NoServers(detail), Reply::Servers(servers)) => {
                if servers.len() == 0 {
                    self.advance();
                } else {
                    self.fail(detail.to_owned());
                }
            },
            (Task::PolicyIs(policy, detail), Reply::Policy(found)) => {
                if found == policy {
                    self.advance();
                } else {
                    self.fail(detail.to_owned());
                }
            },
            (Task::OfferServers(_), Reply::Done) => {
                self.accepted = true;
                self.advance();
            },
            (Task::OfferServers(_), Reply::Refused(ConfigError::NotSupported)) => {
                self.accepted = false;
                self.advance();
            },
            (Task::OfferServers(_), Reply::Refused(ConfigError::Invalid(why))) => {
                self.fail(
                    "valid ice server rejected as invalid: ".to_owned().concat(why.as_str()),
                );
            },
            (Task::CheckServers(list), Reply::Servers(servers)) => {
                if self.accepted {
                    if are_servers(&servers, list) {
                        self.advance();
                    } else {
                        self.fail(
                            "accepted ice servers not reflected by the getter".to_owned(),
                        );
                    }
                } else if servers.len() == 0 {
                    self.advance();
                } else {
                    self.fail("rejected ice servers changed the getter".to_owned());
                }
            },
            (Task::OfferRelay, Reply::Done) => {
                self.accepted = true;
                self.advance();
            },
            (Task::OfferRelay, Reply::Refused(ConfigError::NotSupported)) => {
                self.accepted = false;
                self.advance();
            },
            (Task::OfferRelay, Reply::Refused(ConfigError::Invalid(why))) => {
                self.fail("relay policy rejected as invalid: ".to_owned().concat(why.as_str()));
            },
            (Task::CheckRelay, Reply::Policy(found)) => {
                if self.accepted {
                    if found == IceTransportPolicy::Relay {
                        self.advance();
                    } else {
                        self.fail(
                            "accepted relay policy not reflected by the getter".to_owned(),
                        );
                    }
                } else if found == IceTransportPolicy::All {
                    self.advance();
                } else {
                    self.fail("rejected relay policy changed the getter".to_owned());
                }
            },
            (Task::ResetPolicy, Reply::Done) => {
                self.advance();
            },
            (Task::ResetPolicy, Reply::Refused(error)) => {
                self.fail(
                    "resetting policy failed: ".to_owned().concat(
                        show_config_error(&error).as_str(),
                    ),
                );
            },
            (Task::RejectServers(_, detail), Reply::Done) => {
                self.fail(detail.to_owned());
            },
            (Task::RejectServers(_, _), Reply::Refused(_)) => {
                self.advance();
            },
            (Task::SendStream(_), Reply::Done) => {
                self.advance();
            },
            (Task::SendStream(_), Reply::StreamFailed { error, sent }) => {
                self.fail(
                    "send-via-stream: ".to_owned().concat(describe(&error).as_str()).concat(
                        " after ",
                    ).concat(decimal_text(sent).as_str()).concat(" message(s)"),
                );
            },
            (Task::FeedAll { .. }, Reply::Done) => {
                self.repeat();
            },
            (Task::FeedAll { .. }, Reply::Unwritten) => {
                if self.round % 2 == 0 {
                    self.fail("stream-message writer closed early".to_owned());
                } else {
                    self.fail("payload writer closed early".to_owned());
                }
            },
            (Task::ReadAll { count, .. }, Reply::Items { batch, ended }) => {
                self.take_items(batch, ended, count);
            },
            (_, _) => {},
        }
    }

    fn take_message(&mut self, message: Message, count: u32, ordered: bool)
        requires
            old(self)@.valid(),
            old(self)@.busy(),
            old(self)@.task() matches Task::ReceiveAll { count: c, ordered: o, .. } && c == count
                && o == ordered,
        ensures
            final(self)@ == judged(old(self)@, Reply::Message(message)),
            final(self)@.valid(),
    {
        let ghost was = self@;
        let mut received: Vec<Vec<u8>> = Vec::new();
        std::mem::swap(&mut received, &mut self.received);
        received.push(into_bytes(message));
        assert(byte_views(received@) =~= was.received.push(bytes_of(message@)));
        assert(byte_views(received@).len() == received@.len());
        if (received.len() as u64) < count as u64 {
            self.received = received;
        } else if ordered {
            self.conclude(verify_ordered(received.as_slice(), count));
        } else {
            self.conclude(verify_all(received.as_slice(), count));
        }
    }

    fn take_states(&mut self, batch: Vec<Seen>, ended: bool, end: StreamEnd)
        requires
            old(self)@.valid(),
            old(self)@.busy(),
            old(self)@.task() matches Task::DrainStates(_, e) && e == end,
        ensures
            final(self)@ == judged(old(self)@, Reply::States { batch, ended }),
            final(self)@.valid(),
    {
        let mut states: Vec<Seen> = Vec::new();
        std::mem::swap(&mut states, &mut self.states);
        match absorb_states(&mut states, batch.as_slice()) {
            Err(detail) => match end {
                StreamEnd::Anything => {
                    self.advance();
                },
                _ => {
                    self.fail(detail);
                },
            },
            Ok(()) => {
                if ended {
                    self.conclude(check_end(&states, end));
                } else {
                    self.states = states;
                }
            },
        }
    }

    fn take_items(&mut self, batch: Vec<StreamItem>, ended: bool, count: u32)
        requires
            old(self)@.valid(),
            old(self)@.busy(),
            old(self)@.task() matches Task::ReadAll { count: c, .. } && c == count,
        ensures
            final(self)@ == judged(old(self)@, Reply::Items { batch, ended }),
            final(self)@.valid(),
    {
        let mut received: Vec<Vec<u8>> = Vec::new();
        std::mem::swap(&mut received, &mut self.received);
        match absorb_items(&mut received, batch.as_slice()) {
            Err(detail) => {
                self.fail(detail);
            },
            Ok(()) => {
                assert(byte_views(received@).len() == received@.len());
                if received.len() as u64 >= count as u64 {
                    self.conclude(verify_all(received.as_slice(), count));
                } else if ended {
                    self.fail(
                        "stream ended after ".to_owned().concat(
                            decimal_text(received.len() as u64).as_str(),
                        ).concat(" of ").concat(decimal_text(count as u64).as_str()).concat(
                            " message(s)",
                        ),
                    );
                } else {
                    self.received = received;
                }
            },
        }
    }

    /// The detail the lane failed with, if it did.
    pub fn failure(self) -> (r: Option<String>)
        ensures
            opt_view(r) == self@.failure,
    {
        self.failure
    }
}

// ----- phases and cases ----------------------------------------------------------------

/// One phase of a case: a script, and beside it another that runs concurrently, if
/// it has tasks.
#[derive(Debug)]
pub struct Phase {
    pub left: Vec<Task>,
    pub right: Vec<Task>,
    /// Whether a failure of the right script is reported before one of the left.
    pub right_first: bool,
}

/// A phase's scripts.
pub struct PhaseView {
    pub left: Seq<Task>,
    pub right: Seq<Task>,
    pub right_first: bool,
}

impl View for Phase {
    type V = PhaseView;

    open spec fn view(&self) -> PhaseView {
        PhaseView { left: self.left@, right: self.right@, right_first: self.right_first }
    }
}

/// The scripts of each phase.
pub open spec fn phase_views(phases: Seq<Phase>) -> Seq<PhaseView> {
    phases.map_values(|phase: Phase| phase@)
}

/// A phase of one script.
pub open spec fn one(left: Seq<Task>) -> PhaseView {
    PhaseView { left, right: Seq::empty(), right_first: false }
}

/// A phase of two concurrent scripts.
pub open spec fn two(left: Seq<Task>, right: Seq<Task>) -> PhaseView {
    PhaseView { left, right, right_first: false }
}

/// A phase of two concurrent scripts whose right one's failure comes first.
pub open spec fn two_right_first(left: Seq<Task>, right: Seq<Task>) -> PhaseView {
    PhaseView { left, right, right_first: true }
}

impl Phase {
    /// A phase of one script.
    pub fn one(left: Vec<Task>) -> (r: Phase)
        ensures
            r@ == one(left@),
    {
        Phase { left, right: Vec::new(), right_first: false }
    }

    /// A phase of two concurrent scripts.
    pub fn two(left: Vec<Task>, right: Vec<Task>) -> (r: Phase)
        ensures
            r@ == two(left@, right@),
    {
        Phase { left, right, right_first: false }
    }

    /// A phase of two concurrent scripts whose right one's failure comes first.
    pub fn two_right_first(left: Vec<Task>, right: Vec<Task>) -> (r: Phase)
        ensures
            r@ == two_right_first(left@, right@),
    {
        Phase { left, right, right_first: true }
    }
}

/// The failure of a phase whose lanes ended so.
pub open spec fn phase_failure(
    left: Option<Seq<char>>,
    right: Option<Seq<char>>,
    right_first: bool,
) -> Option<Seq<char>> {
    if right_first {
        match right {
            Some(detail) => Some(detail),
            None => left,
        }
    } else {
        match left {
            Some(detail) => Some(detail),
            None => right,
        }
    }
}

/// A case: its phases in order, and the calls that end it.
#[derive(Debug)]
pub struct Case {
    pub phases: Vec<Phase>,
    /// The first phase whose failure still leads to the cleanup.
    pub guarded: usize,
    /// The calls made at the end, also after a failure of a guarded phase.
    pub cleanup: Vec<Task>,
}

/// A case's scripts.
pub struct CaseView {
    pub phases: Seq<PhaseView>,
    pub guarded: nat,
    pub cleanup: Seq<Task>,
}

impl View for Case {
    type V = CaseView;

    open spec fn view(&self) -> CaseView {
        CaseView {
            phases: phase_views(self.phases@),
            guarded: self.guarded as nat,
            cleanup: self.cleanup@,
        }
    }
}

/// A case that ends at its first failure.
pub open spec fn plain_case(phases: Seq<PhaseView>) -> CaseView {
    CaseView { phases, guarded: phases.len(), cleanup: Seq::empty() }
}

impl Case {
    /// A case that ends at its first failure.
    pub fn plain(phases: Vec<Phase>) -> (r: Case)
        ensures
            r@ == plain_case(phase_views(phases@)),
    {
        let guarded: usize = phases.len();
        Case { phases, guarded, cleanup: Vec::new() }
    }
}

/// How far a case has run.
pub struct RunView {
    pub case: CaseView,
    /// The phase at hand; past the last one, the cleanup; past that, the end.
    pub at: nat,
    /// The detail the case failed with.
    pub failure: Option<Seq<char>>,
}

impl RunView {
    /// A case at its beginning.
    pub open spec fn start(case: CaseView) -> RunView {
        RunView { case, at: 0, failure: None }
    }

    /// Whether there is something to run.
    pub open spec fn running(self) -> bool {
        self.at <= self.case.phases.len()
    }

    /// What there is to run.
    pub open spec fn phase(self) -> PhaseView {
        if self.at < self.case.phases.len() {
            self.case.phases[self.at as int]
        } else {
            one(self.case.cleanup)
        }
    }

    /// The run after the phase at hand, whose lanes ended so. A failure ends the
    /// case, past the cleanup if the phase is guarded. The cleanup's own end changes
    /// nothing of the verdict.
    pub open spec fn after(self, left: Option<Seq<char>>, right: Option<Seq<char>>) -> RunView {
        if !self.running() {
            self
        } else if self.at == self.case.phases.len() {
            RunView { at: self.at + 1, ..self }
        } else {
            match phase_failure(left, right, self.phase().right_first) {
                None => RunView { at: self.at + 1, ..self },
                Some(detail) => RunView {
                    at: if self.at >= self.case.guarded {
                        self.case.phases.len()
                    } else {
                        self.case.phases.len() + 1
                    },
                    failure: Some(detail),
                    ..self
                },
            }
        }
    }
}

/// A case as it runs.
#[derive(Debug)]
pub struct Run {
    case: Case,
    at: usize,
    over: bool,
    failure: Option<String>,
}

impl View for Run {
    type V = RunView;

    closed spec fn view(&self) -> RunView {
        RunView {
            case: self.case@,
            at: if self.over {
                self.case.phases@.len() + 1
            } else {
                self.at as nat
            },
            failure: opt_view(self.failure),
        }
    }
}

impl Run {
    /// Begin a case.
    pub fn new(case: Case) -> (r: Run)
        ensures
            r@ == RunView::start(case@),
    {
        Run { case, at: 0, over: false, failure: None }
    }

    /// The two lanes to run next, concurrently; none once the case has ended.
    pub fn lanes(&self) -> (r: Option<(Lane, Lane)>)
        ensures
            r is Some <==> self@.running(),
            r matches Some((left, right)) ==> {
                &&& left@ == LaneView::start(self@.phase().left)
                &&& right@ == LaneView::start(self@.phase().right)
                &&& left@.valid()
                &&& right@.valid()
            },
    {
        let ghost phases = phase_views(self.case.phases@);
        assert(phases.len() == self.case.phases@.len());
        if self.over {
            None
        } else if self.at < self.case.phases.len() {
            let phase = &self.case.phases[self.at];
            assert(phases[self.at as int] == phase@);
            Some(
                (
                    Lane::new(slice_to_vec(phase.left.as_slice())),
                    Lane::new(slice_to_vec(phase.right.as_slice())),
                ),
            )
        } else if self.at == self.case.phases.len() {
            let none: Vec<Task> = Vec::new();
            assert(none@ =~= Seq::<Task>::empty());
            Some(
                (
                    Lane::new(slice_to_vec(self.case.cleanup.as_slice())),
                    Lane::new(none),
                ),
            )
        } else {
            None
        }
    }

    /// Take how the two lanes ended.
    pub fn phase_done(&mut self, left: Option<String>, right: Option<String>)
        ensures
            final(self)@ == old(self)@.after(
                opt_view(left),
                opt_view(right),
            ),
    {
        let ghost phases = phase_views(self.case.phases@);
        assert(phases.len() == self.case.phases@.len());
        let count: usize = self.case.phases.len();
        if self.over || self.at > count {
            return;
        }
        if self.at == count {
            self.over = true;
            return;
        }
        assert(phases[self.at as int] == self.case.phases@[self.at as int]@);
        let failure = if self.case.phases[self.at].right_first {
            match right {
                Some(detail) => Some(detail),
                None => left,
            }
        } else {
            match left {
                Some(detail) => Some(detail),
                None => right,
            }
        };
        match failure {
            None => {
                self.at += 1;
            },
            Some(detail) => {
                if self.at >= self.case.guarded {
                    self.at = count;
                } else {
                    self.over = true;
                }
                self.failure = Some(detail);
            },
        }
    }

    /// What the case came to: a pass, or the detail it failed with.
    pub fn verdict(self) -> (r: Result<(), String>)
        ensures
            r is Ok <==> self@.failure is None,
            r matches Err(detail) ==> self@.failure == Some(detail@),
    {
        match self.failure {
            None => Ok(()),
            Some(detail) => Err(detail),
        }
    }
}

/// The run after each of some phases has ended so.
pub open spec fn run_through(
    run: RunView,
    ends: Seq<(Option<Seq<char>>, Option<Seq<char>>)>,
) -> RunView
    decreases ends.len(),
{
    if ends.len() == 0 {
        run
    } else {
        run_through(run, ends.drop_last()).after(ends.last().0, ends.last().1)
    }
}

/// The failure of a case's phase that ended so.
pub open spec fn nth_failure(
    case: CaseView,
    ends: Seq<(Option<Seq<char>>, Option<Seq<char>>)>,
    i: int,
) -> Option<Seq<char>> {
    phase_failure(ends[i].0, ends[i].1, case.phases[i].right_first)
}

/// A case whose phases all end without a failure runs through to its cleanup, and
/// has not failed.
pub proof fn case_passes_if_every_phase_does(
    case: CaseView,
    ends: Seq<(Option<Seq<char>>, Option<Seq<char>>)>,
)
    requires
        ends.len() <= case.phases.len(),
        forall|i: int| 0 <= i < ends.len() ==> #[trigger] nth_failure(case, ends, i) is None,
    ensures
        run_through(RunView::start(case), ends) == (RunView {
            case,
            at: ends.len(),
            failure: None,
        }),
    decreases ends.len(),
{
    if ends.len() > 0 {
        let i = ends.len() - 1;
        assert forall|k: int| 0 <= k < i implies #[trigger] nth_failure(
            case,
            ends.drop_last(),
            k,
        ) is None by {
            assert(nth_failure(case, ends, k) is None);
        }
        case_passes_if_every_phase_does(case, ends.drop_last());
        assert(nth_failure(case, ends, i) is None);
    }
}

/// The first phase that fails decides the verdict, and no later phase is run: the
/// case goes on to its cleanup if the phase is guarded, and ends otherwise.
pub proof fn first_failure_is_the_verdict(
    case: CaseView,
    ends: Seq<(Option<Seq<char>>, Option<Seq<char>>)>,
)
    requires
        0 < ends.len() <= case.phases.len(),
        forall|i: int| 0 <= i < ends.len() - 1 ==> #[trigger] nth_failure(case, ends, i) is None,
        nth_failure(case, ends, ends.len() - 1) is Some,
    ensures
        run_through(RunView::start(case), ends).failure == nth_failure(case, ends, ends.len() - 1),
        run_through(RunView::start(case), ends).at == if ends.len() - 1 >= case.guarded {
            case.phases.len()
        } else {
            case.phases.len() + 1
        },
{
    assert forall|k: int| 0 <= k < ends.len() - 1 implies #[trigger] nth_failure(
        case,
        ends.drop_last(),
        k,
    ) is None by {
        assert(nth_failure(case, ends, k) is None);
    }
    case_passes_if_every_phase_does(case, ends.drop_last());
}

// ----- laws of state streams -----------------------------------------------------------

/// Whether states are those of a coalescing watch: none repeats the one before it,
/// and none follows a terminal one.
pub open spec fn coalesced(states: Seq<Seen>) -> bool {
    forall|i: int|
        0 < i < states.len() ==> states[i - 1] != #[trigger] states[i] && !states[i - 1].ends()
}

/// How a stream's states are split into batches does not matter.
pub proof fn batches_do_not_matter(states: Seq<Seen>, first: Seq<Seen>, second: Seq<Seen>)
    ensures
        with_states(states, first + second) == match with_states(states, first) {
            Ok(more) => with_states(more, second),
            Err(detail) => Err(detail),
        },
    decreases first.len(),
{
    if first.len() == 0 {
        assert(first + second =~= second);
    } else {
        assert((first + second)[0] == first[0]);
        assert((first + second).drop_first() =~= first.drop_first() + second);
        match with_state(states, first[0]) {
            Ok(more) => {
                batches_do_not_matter(more, first.drop_first(), second);
            },
            Err(_) => {},
        }
    }
}

proof fn lemma_drains(states: Seq<Seen>, batch: Seq<Seen>)
    requires
        coalesced(states),
    ensures
        with_states(states, batch) is Ok <==> coalesced(states + batch),
        with_states(states, batch) matches Ok(all) ==> all == states + batch,
    decreases batch.len(),
{
    if batch.len() == 0 {
        assert(states + batch =~= states);
    } else {
        let more = states.push(batch[0]);
        assert(more + batch.drop_first() =~= states + batch);
        if with_state(states, batch[0]) is Ok {
            assert(coalesced(more));
            lemma_drains(more, batch.drop_first());
        } else {
            let n = states.len() as int;
            assert((states + batch)[n] == batch[0]);
            assert((states + batch)[n - 1] == states.last());
            assert(!coalesced(states + batch));
        }
    }
}

/// A drained stream is accepted exactly if its states are those of a coalescing
/// watch, and then all of them were taken.
pub proof fn drains_exactly_coalesced(states: Seq<Seen>)
    ensures
        with_states(Seq::empty(), states) is Ok <==> coalesced(states),
        with_states(Seq::empty(), states) matches Ok(all) ==> all == states,
{
    assert(Seq::<Seen>::empty() + states =~= states);
    lemma_drains(Seq::empty(), states);
}

// ----- laws of judging -----------------------------------------------------------------

proof fn lemma_skipped(lane: LaneView)
    requires
        lane.at <= lane.tasks.len(),
    ensures
        skipped(lane).at >= lane.at,
        skipped(lane) == (LaneView { at: skipped(lane).at, ..lane }),
        skipped(lane).at <= lane.tasks.len(),
        forall|k: int|
            lane.at <= k < skipped(lane).at ==> rounds(#[trigger] lane.tasks[k], lane) == 0,
    decreases lane.tasks.len() - lane.at,
{
    if lane.at < lane.tasks.len() && rounds(lane.tasks[lane.at as int], lane) == 0 {
        lemma_skipped(LaneView { at: lane.at + 1, ..lane });
    }
}

proof fn lemma_moved(lane: LaneView)
    requires
        lane.at < lane.tasks.len(),
    ensures
        lane.moved().at > lane.at,
        lane.moved().failure == lane.failure,
        lane.moved().tasks == lane.tasks,
        lane.moved().round == 0,
        lane.moved().accepted == lane.accepted,
        lane.moved().offered == lane.offered,
        lane.moved().answered == lane.answered,
{
    lemma_skipped(
        LaneView {
            at: lane.at + 1,
            round: 0,
            received: Seq::empty(),
            states: Seq::empty(),
            ..lane
        },
    );
}

/// A reply never leads back, and never changes the script.
pub(crate) proof fn lemma_moves_on(lane: LaneView, reply: Reply)
    requires
        lane.at <= lane.tasks.len(),
    ensures
        judged(lane, reply).at >= lane.at,
        judged(lane, reply).at <= lane.tasks.len(),
        judged(lane, reply).tasks == lane.tasks,
        lane.failure is Some ==> judged(lane, reply) == lane,
{
    if lane.busy() {
        let bare = LaneView {
            at: lane.at + 1,
            round: 0,
            received: Seq::empty(),
            states: Seq::empty(),
            ..lane
        };
        lemma_skipped(bare);
        lemma_skipped(LaneView { accepted: true, ..bare });
        lemma_skipped(LaneView { accepted: false, ..bare });
        if let Reply::Yielded(n) = reply {
            lemma_skipped(LaneView { offered: n as nat, ..bare });
            lemma_skipped(LaneView { answered: n as nat, ..bare });
        }
    }
}

/// A script begins at its first task that has something to do.
pub(crate) proof fn lemma_starts(tasks: Seq<Task>)
    ensures
        LaneView::start(tasks).tasks == tasks,
        LaneView::start(tasks).failure is None,
        LaneView::start(tasks).at <= tasks.len(),
        tasks.len() > 0 && rounds(tasks[0], LaneView::start(tasks)) > 0 ==> LaneView::start(
            tasks,
        ).at == 0,
{
    let bare = LaneView {
        tasks,
        at: 0,
        round: 0,
        offered: 0,
        answered: 0,
        accepted: false,
        received: Seq::empty(),
        states: Seq::empty(),
        failure: None,
    };
    lemma_skipped(bare);
}

/// Whether a lane has left the task it was at behind it, and has not failed.
pub open spec fn passed(before: LaneView, after: LaneView) -> bool {
    after.failure is None && after.at > before.at
}

/// An error is never passed over. It leads on where its task is satisfied with just that
/// error, and where a task does not ask: a task that receives until an overflow is not
/// satisfied with a close, nor one that is refused as closed with a timeout. At every other
/// task that can fail it is the failure, behind the task's own words.
pub proof fn errors_are_never_passed_over(lane: LaneView, error: Error)
    requires
        lane.busy(),
    ensures
        ({
            let next = judged(lane, Reply::Failed(error));
            let wanted = |kind: ErrorKind|
                match kind {
                    ErrorKind::Closed => error is Closed,
                    ErrorKind::TimedOut => error is TimedOut,
                    ErrorKind::InvalidSignaling => error is InvalidSignaling,
                    ErrorKind::ReceivingViaStream => error is ReceivingViaStream,
                    ErrorKind::ReceiveBufferOverflow => error is ReceiveBufferOverflow,
                    ErrorKind::ClosedOrOverflow => error is Closed || error
                        is ReceiveBufferOverflow,
                    ErrorKind::ReadsClosed => ends_in(described(error), "closed"@),
                };
            match lane.task() {
                Task::Do(_) => passed(lane, next),
                Task::Flood { .. } => passed(lane, next),
                Task::Refuse(_, refusal) => if wanted(refusal.kind) {
                    passed(lane, next)
                } else {
                    next.failure == Some(refusal.on_other@ + described(error))
                },
                Task::Drain(_, kind, detail) => if wanted(kind) {
                    passed(lane, next)
                } else {
                    next.failure == Some(detail@ + described(error))
                },
                Task::SendUntilClosed { .. } => if error is Closed {
                    passed(lane, next)
                } else {
                    next.failure == Some("expected closed, got "@ + described(error))
                },
                Task::SendSentinel(_) => if error is Closed {
                    passed(lane, next)
                } else {
                    next.failure == Some("send: "@ + described(error))
                },
                Task::AwaitSentinel(_) => if error is Closed {
                    passed(lane, next)
                } else {
                    next.failure == Some("receive: "@ + described(error))
                },
                Task::Succeed(_, detail) => next.failure == Some(detail@ + described(error)),
                Task::Trickle(_, detail) => next.failure == Some(detail@ + described(error)),
                Task::SendAll { .. } => next.failure == Some("send: "@ + described(error)),
                Task::ReceiveAll { .. } => next.failure == Some("receive: "@ + described(error)),
                Task::Expect(_, _, _) => next.failure == Some("receive: "@ + described(error)),
                _ => next == lane,
            }
        }),
{
    lemma_moved(lane);
    lemma_reads_closed(error);
}

pub(crate) proof fn lemma_reads_closed(error: Error)
    ensures
        is_kind(error, ErrorKind::ReadsClosed) <==> ends_in(described(error), "closed"@),
{
    reveal_strlit("receive: ");
    reveal_strlit("closed");
    reveal_strlit("timed-out");
    reveal_strlit("receiving-via-stream");
    reveal_strlit("receive-buffer-overflow");
    reveal_strlit("invalid-signaling: ");
    reveal_strlit("other: ");
    let shown = described(error);
    let all = "receive: "@ + shown;
    assert(shown.len() >= 6);
    assert(all.subrange(all.len() - 6, all.len() as int) =~= shown.subrange(
        shown.len() - 6,
        shown.len() as int,
    ));
}

/// A success is judged by what the task asks for: a call that must fail has failed the case
/// if it succeeds, a counted task is passed with its last round and not before, and probes
/// that keep succeeding end in a failure past their limit.
pub proof fn successes_are_judged(lane: LaneView)
    requires
        lane.busy(),
    ensures
        ({
            let next = judged(lane, Reply::Done);
            let counted = |n: int|
                if lane.round + 1 >= n {
                    passed(lane, next)
                } else {
                    next == LaneView { round: lane.round + 1, ..lane }
                };
            match lane.task() {
                Task::Do(_) => passed(lane, next),
                Task::Succeed(_, _) => passed(lane, next),
                Task::SendSentinel(_) => passed(lane, next),
                Task::ResetPolicy => passed(lane, next),
                Task::SendStream(_) => passed(lane, next),
                Task::OfferServers(_) => passed(lane, next) && next.accepted,
                Task::OfferRelay => passed(lane, next) && next.accepted,
                Task::Refuse(_, refusal) => next.failure == Some(refusal.on_success@),
                Task::RejectServers(_, detail) => next.failure == Some(detail@),
                Task::Flood { count, .. } => counted(count as int),
                Task::SendAll { count, .. } => counted(count as int),
                Task::FeedAll { count, .. } => counted(2 * count),
                Task::Trickle(to, _) => counted(
                    match to {
                        PeerRole::Offerer => lane.answered as int,
                        PeerRole::Answerer => lane.offered as int,
                    },
                ),
                Task::SendUntilClosed { limit, .. } => if lane.round < limit {
                    next == LaneView { round: lane.round + 1, ..lane }
                } else {
                    next.failure == Some("send never failed after close"@)
                },
                _ => next == lane,
            }
        }),
{
    lemma_moved(lane);
    lemma_moved(LaneView { accepted: true, ..lane });
}

/// Whether some messages are a whole corpus: as many as it has, each of them intact, and
/// where it is ordered each carrying its place as its index.
pub open spec fn whole(got: Seq<Seq<u8>>, count: nat, ordered: bool) -> bool {
    &&& got.len() == count
    &&& forall|i: int|
        0 <= i < got.len() ==> intact(#[trigger] got[i]) && (ordered ==> index_in(got[i]) is Some
            && index_in(got[i])->Some_0 == i)
}

/// A message is judged by its contents: the one that is expected and no other is taken for
/// it, a corpus is passed with its last message if every payload in it is sound, and where
/// messages are drained or a rendezvous is awaited, any other message is passed by.
pub proof fn messages_are_judged(lane: LaneView, message: Message)
    requires
        lane.busy(),
    ensures
        ({
            let next = judged(lane, Reply::Message(message));
            let bytes = match message@ {
                MessageView::Binary(bytes) => bytes,
                MessageView::Text(text) => encode_utf8(text),
            };
            let got = lane.received.push(bytes);
            match lane.task() {
                Task::Do(_) => passed(lane, next),
                Task::Succeed(_, _) => passed(lane, next),
                Task::Refuse(_, refusal) => next.failure == Some(refusal.on_success@),
                Task::Expect(_, payload, mismatch) => if message@ == message_of(payload) {
                    passed(lane, next)
                } else {
                    next.failure == Some(
                        (if (message@ is Text) == (message_of(payload) is Text) {
                            mismatch.same_kind@
                        } else {
                            mismatch.other_kind@
                        }) + (if mismatch.shown {
                            message_shown(message@)
                        } else {
                            Seq::empty()
                        }),
                    )
                },
                Task::AwaitSentinel(_) => if message@ == MessageView::Binary(SENTINEL@) {
                    passed(lane, next)
                } else {
                    next == lane
                },
                Task::ReceiveAll { count, ordered, .. } => if got.len() < count {
                    next == LaneView { received: got, ..lane }
                } else if whole(got, count as nat, ordered) {
                    passed(lane, next)
                } else {
                    next.failure is Some
                },
                _ => next == lane,
            }
        }),
{
    lemma_moved(lane);
    if let Task::ReceiveAll { count, ordered, .. } = lane.task() {
        let bytes = match message@ {
            MessageView::Binary(bytes) => bytes,
            MessageView::Text(text) => encode_utf8(text),
        };
        let got = lane.received.push(bytes);
        assert(bytes == bytes_of(message@));
        ordered_check_is_exact(got, count as nat);
        let verdict = if ordered {
            ordered_verdict(got, count as nat)
        } else {
            all_verdict(got, count as nat)
        };
        if whole(got, count as nat, ordered) {
            assert(forall|i: int|
                0 <= i < count ==> ordered ==> intact(#[trigger] got[i]) && in_place(got, i));
        }
        if verdict is Ok {
            assert forall|i: int| 0 <= i < got.len() implies intact(#[trigger] got[i]) && (ordered
                ==> index_in(got[i]) is Some && index_in(got[i])->Some_0 == i) by {
                if ordered {
                    assert(in_place(got, i));
                }
            }
        }
        assert(whole(got, count as nat, ordered) <==> verdict is Ok);
    }
}

/// A number of candidates or channels is judged: a peer must have an incoming channel, a
/// stream that was taken before must yield nothing, and where candidates are required both
/// peers must have gathered some. What was gathered is remembered for its peer.
pub proof fn yields_are_judged(lane: LaneView, n: usize)
    requires
        lane.busy(),
    ensures
        ({
            let next = judged(lane, Reply::Yielded(n));
            match lane.task() {
                Task::Do(_) => passed(lane, next),
                Task::Adopt(_) => if n > 0 {
                    passed(lane, next)
                } else {
                    next.failure == Some("no incoming data channel"@)
                },
                Task::YieldNothing(_, before, after) => if n == 0 {
                    passed(lane, next)
                } else {
                    next.failure == Some(before@ + decimal(n as nat) + after@)
                },
                Task::Gather { on, required } => {
                    let offered = if on is Offerer {
                        n as nat
                    } else {
                        lane.offered
                    };
                    let answered = if on is Answerer {
                        n as nat
                    } else {
                        lane.answered
                    };
                    if required && (offered == 0 || answered == 0) {
                        next.failure == Some("no local ICE candidates were gathered"@)
                    } else {
                        passed(lane, next) && next.offered == offered && next.answered == answered
                    }
                },
                _ => next == lane,
            }
        }),
{
    lemma_moved(lane);
    lemma_moved(LaneView { offered: n as nat, ..lane });
    lemma_moved(LaneView { answered: n as nat, ..lane });
}

/// The label must be the one that was negotiated.
pub proof fn labels_are_judged(lane: LaneView, label: String)
    requires
        lane.busy(),
        lane.task() is CheckLabel,
    ensures
        passed(lane, judged(lane, Reply::Label(label))) <==> label@ == "conformance"@,
        label@ != "conformance"@ ==> judged(lane, Reply::Label(label)).failure == Some(
            "label was "@ + debug_text(label@) + ", expected "@ + debug_text("conformance"@),
        ),
{
    lemma_moved(lane);
}

/// A batch of states is judged: the first state read must be the wanted one, and a stream
/// that is read to its end is passed only once it has ended, if all it yielded was that of
/// a coalescing watch, and ended in what it had to. A batch that does not end the stream is
/// remembered.
pub proof fn states_are_judged(lane: LaneView, batch: Vec<Seen>, ended: bool)
    requires
        lane.busy(),
        coalesced(lane.states),
    ensures
        ({
            let next = judged(lane, Reply::States { batch, ended });
            let all = lane.states + batch@;
            match lane.task() {
                Task::FirstState(_, wanted, name) => if batch@.len() > 0 && batch@[0] == wanted {
                    passed(lane, next)
                } else {
                    next.failure == Some(
                        "expected "@ + name@ + " as the state at first read, got "@ + states_shown(
                            batch@,
                        ),
                    )
                },
                Task::DrainStates(_, StreamEnd::Anything) => if !coalesced(all) || ended {
                    passed(lane, next)
                } else {
                    next == LaneView { states: all, ..lane }
                },
                Task::DrainStates(_, StreamEnd::Nothing(detail)) => if !coalesced(all) {
                    next.failure is Some
                } else if !ended {
                    next == LaneView { states: all, ..lane }
                } else if all.len() == 0 {
                    passed(lane, next)
                } else {
                    next.failure == Some(detail@)
                },
                Task::DrainStates(_, StreamEnd::Closed(detail)) => if !coalesced(all) {
                    next.failure is Some
                } else if !ended {
                    next == LaneView { states: all, ..lane }
                } else if all.len() > 0 && (all.last() == Seen::Connection(ConnectionState::Closed)
                    || all.last() == Seen::Channel(DataChannelState::Closed)) {
                    passed(lane, next)
                } else {
                    next.failure == Some(detail@ + states_shown(all))
                },
                Task::Do(_) => passed(lane, next),
                _ => next == lane,
            }
        }),
{
    lemma_moved(lane);
    lemma_drains(lane.states, batch@);
}

/// What a configuration shows is judged by what it was asked to take: a value that was
/// accepted must be shown, and one that was refused must not have changed anything.
pub proof fn configurations_are_judged(
    lane: LaneView,
    servers: Vec<IceServer>,
    policy: IceTransportPolicy,
    refusal: ConfigError,
)
    requires
        lane.busy(),
    ensures
        ({
            let next = judged(lane, Reply::Servers(servers));
            match lane.task() {
                Task::NoServers(_) => passed(lane, next) <==> servers@.len() == 0,
                Task::CheckServers(list) => passed(lane, next) <==> if lane.accepted {
                    servers@.len() == 1 && views(servers@[0].urls@) == server_urls(list)
                } else {
                    servers@.len() == 0
                },
                Task::Do(_) => passed(lane, next),
                _ => next == lane,
            }
        }),
        ({
            let next = judged(lane, Reply::Policy(policy));
            match lane.task() {
                Task::PolicyIs(wanted, _) => passed(lane, next) <==> policy == wanted,
                Task::CheckRelay => passed(lane, next) <==> lane.accepted == (policy is Relay),
                Task::Do(_) => passed(lane, next),
                _ => next == lane,
            }
        }),
        ({
            let next = judged(lane, Reply::Refused(refusal));
            match lane.task() {
                Task::OfferServers(_) => match refusal {
                    ConfigError::NotSupported => passed(lane, next) && !next.accepted,
                    ConfigError::Invalid(why) => next.failure == Some(
                        "valid ice server rejected as invalid: "@ + why@,
                    ),
                },
                Task::OfferRelay => match refusal {
                    ConfigError::NotSupported => passed(lane, next) && !next.accepted,
                    ConfigError::Invalid(why) => next.failure == Some(
                        "relay policy rejected as invalid: "@ + why@,
                    ),
                },
                Task::ResetPolicy => next.failure == Some(
                    "resetting policy failed: "@ + config_error_shown(refusal),
                ),
                Task::RejectServers(_, _) => passed(lane, next),
                Task::Do(_) => passed(lane, next),
                _ => next == lane,
            }
        }),
        !passed(lane, judged(lane, Reply::Servers(servers))) ==> match lane.task() {
            Task::NoServers(detail) => judged(lane, Reply::Servers(servers)).failure == Some(
                detail@,
            ),
            Task::CheckServers(_) => judged(lane, Reply::Servers(servers)).failure == Some(
                if lane.accepted {
                    "accepted ice servers not reflected by the getter"@
                } else {
                    "rejected ice servers changed the getter"@
                },
            ),
            _ => true,
        },
        !passed(lane, judged(lane, Reply::Policy(policy))) ==> match lane.task() {
            Task::PolicyIs(_, detail) => judged(lane, Reply::Policy(policy)).failure == Some(
                detail@,
            ),
            Task::CheckRelay => judged(lane, Reply::Policy(policy)).failure == Some(
                if lane.accepted {
                    "accepted relay policy not reflected by the getter"@
                } else {
                    "rejected relay policy changed the getter"@
                },
            ),
            _ => true,
        },
{
    lemma_moved(lane);
    lemma_moved(LaneView { accepted: false, ..lane });
}

/// Whether a message read from a stream is sound: it carries as many bytes as it declared,
/// and its text is UTF-8.
pub open spec fn sound_item(item: StreamItem) -> bool {
    item.bytes@.len() == item.declared && (item.is_text ==> valid_utf8(item.bytes@))
}

proof fn lemma_with_items(received: Seq<Seq<u8>>, batch: Seq<StreamItem>)
    ensures
        with_items(received, batch) is Ok <==> forall|i: int|
            0 <= i < batch.len() ==> sound_item(#[trigger] batch[i]),
        with_items(received, batch) matches Ok(all) ==> all == received + batch.map_values(
            |item: StreamItem| item.bytes@,
        ),
    decreases batch.len(),
{
    let bytes = |item: StreamItem| item.bytes@;
    if batch.len() == 0 {
        assert(received + batch.map_values(bytes) =~= received);
    } else {
        let rest = batch.drop_first();
        lemma_with_items(received.push(batch[0].bytes@), rest);
        assert(item_flaw(batch[0]) is None <==> sound_item(batch[0]));
        assert(received.push(batch[0].bytes@) + rest.map_values(bytes) =~= received
            + batch.map_values(bytes));
        if forall|i: int| 0 <= i < batch.len() ==> sound_item(#[trigger] batch[i]) {
            assert forall|i: int| 0 <= i < rest.len() implies sound_item(#[trigger] rest[i]) by {
                assert(sound_item(batch[i + 1]));
            }
        }
        if with_items(received, batch) is Ok {
            assert forall|i: int| 0 <= i < batch.len() implies sound_item(#[trigger] batch[i]) by {
                if i > 0 {
                    assert(sound_item(rest[i - 1]));
                }
            }
        }
    }
}

/// What is read from a claimed stream is judged: every message in it must be sound, the
/// stream must not end short of the corpus, and the corpus must be whole.
pub proof fn streamed_messages_are_judged(lane: LaneView, batch: Vec<StreamItem>, ended: bool)
    requires
        lane.busy(),
        lane.task() is ReadAll,
    ensures
        ({
            let count = lane.task()->ReadAll_count;
            let next = judged(lane, Reply::Items { batch, ended });
            let got = lane.received + batch@.map_values(|item: StreamItem| item.bytes@);
            let sound = forall|i: int|
                0 <= i < batch@.len() ==> sound_item(#[trigger] batch@[i]);
            if !sound {
                next.failure is Some
            } else if got.len() < count {
                if ended {
                    next.failure == Some(
                        "stream ended after "@ + decimal(got.len()) + " of "@ + decimal(
                            count as nat,
                        ) + " message(s)"@,
                    )
                } else {
                    next == LaneView { received: got, ..lane }
                }
            } else if whole(got, count as nat, false) {
                passed(lane, next)
            } else {
                next.failure is Some
            }
        }),
{
    lemma_moved(lane);
    lemma_with_items(lane.received, batch@);
    let got = lane.received + batch@.map_values(|item: StreamItem| item.bytes@);
    if all_verdict(got, lane.task()->ReadAll_count as nat) is Ok {
        assert forall|i: int| 0 <= i < got.len() implies intact(#[trigger] got[i]) by {}
    }
}

/// A streaming send or its feed that breaks off is a failure.
pub proof fn broken_streams_fail(lane: LaneView, error: Error, sent: u64)
    requires
        lane.busy(),
    ensures
        lane.task() is SendStream ==> judged(
            lane,
            Reply::StreamFailed { error, sent },
        ).failure == Some(
            "send-via-stream: "@ + described(error) + " after "@ + decimal(sent as nat)
                + " message(s)"@,
        ),
        lane.task() is FeedAll ==> judged(lane, Reply::Unwritten).failure == Some(
            if lane.round % 2 == 0 {
                "stream-message writer closed early"@
            } else {
                "payload writer closed early"@
            },
        ),
{
}

/// A lane that has failed or is through takes no notice of replies, and a failure is kept.
pub proof fn ended_lane_stays_ended(lane: LaneView, reply: Reply)
    requires
        lane.failure is Some || lane.at >= lane.tasks.len(),
    ensures
        judged(lane, reply) == lane,
{
}

/// No task is passed over that has something to do: past a task stands the next one, unless
/// that one has nothing to send, receive, add, feed or put back.
pub proof fn tasks_are_taken_in_turn(lane: LaneView, reply: Reply)
    requires
        lane.busy(),
        passed(lane, judged(lane, reply)),
    ensures
        ({
            let next = judged(lane, reply);
            &&& next.tasks == lane.tasks
            &&& next.at <= lane.tasks.len()
            &&& forall|k: int|
                lane.at < k < next.at ==> match #[trigger] lane.tasks[k] {
                    Task::Flood { count, .. } => count == 0,
                    Task::SendAll { count, .. } => count == 0,
                    Task::ReceiveAll { count, .. } => count == 0,
                    Task::FeedAll { count, .. } => count == 0,
                    Task::ReadAll { count, .. } => count == 0,
                    Task::Trickle(PeerRole::Offerer, _) => next.answered == 0,
                    Task::Trickle(PeerRole::Answerer, _) => next.offered == 0,
                    Task::ResetPolicy => !next.accepted,
                    _ => false,
                }
        }),
{
    let next = judged(lane, reply);
    let bare = LaneView {
        at: lane.at + 1,
        round: 0,
        received: Seq::empty(),
        states: Seq::empty(),
        ..lane
    };
    lemma_skipped(bare);
    lemma_skipped(LaneView { accepted: true, ..bare });
    lemma_skipped(LaneView { accepted: false, ..bare });
    if let Reply::Yielded(n) = reply {
        lemma_skipped(LaneView { offered: n as nat, ..bare });
        lemma_skipped(LaneView { answered: n as nat, ..bare });
    }
    assert(lane.failure is None);
}

/// The calls of a task go to the task's own peer, and carry what the task stands for: a
/// counted send carries the payload of its round, and a fed payload has its own header.
pub proof fn calls_are_those_of_their_tasks(task: Task, round: nat)
    requires
        round <= u32::MAX,
    ensures
        match task {
            Task::Do(call) => call_of(task, round) == call,
            Task::Succeed(call, _) => call_of(task, round) == call,
            Task::Refuse(call, _) => call_of(task, round) == call,
            Task::YieldNothing(call, _, _) => call_of(task, round) == call,
            Task::Drain(on, _, _) => call_of(task, round) == Call::Receive(on),
            Task::ReceiveAll { on, .. } => call_of(task, round) == Call::Receive(on),
            Task::Expect(on, _, _) => call_of(task, round) == Call::Receive(on),
            Task::AwaitSentinel(on) => call_of(task, round) == Call::Receive(on),
            Task::SendSentinel(on) => call_of(task, round) matches Call::Send(to, payload) && to
                == on && message_of(payload) == MessageView::Binary(SENTINEL@),
            Task::SendUntilClosed { on, .. } => call_of(task, round) matches Call::Send(to, _)
                && to == on,
            Task::SendAll { on, size, .. } => call_of(task, round) matches Call::Send(to, payload)
                && to == on && message_of(payload) == MessageView::Binary(
                crate::payload::payload(round as u32, size),
            ),
            Task::Flood { on, size, .. } => call_of(task, round) matches Call::Send(to, payload)
                && to == on && message_of(payload) is Binary && message_of(payload)->Binary_0.len()
                >= size,
            Task::Trickle(to, _) => call_of(task, round) == (Call::AddCandidate {
                to,
                index: round as u64,
            }),
            Task::Gather { on, .. } => call_of(task, round) == Call::CollectCandidates(on),
            Task::Adopt(on) => call_of(task, round) == Call::ReadIncoming(on),
            Task::CheckLabel(on) => call_of(task, round) == Call::Label(on),
            Task::FirstState(stream, _, _) => call_of(task, round) == Call::ReadStates(stream),
            Task::DrainStates(stream, _) => call_of(task, round) == Call::ReadStates(stream),
            Task::NoServers(_) => call_of(task, round) is GetServers,
            Task::CheckServers(_) => call_of(task, round) is GetServers,
            Task::PolicyIs(_, _) => call_of(task, round) is GetPolicy,
            Task::CheckRelay => call_of(task, round) is GetPolicy,
            Task::OfferServers(list) => call_of(task, round) == Call::SetServers(list),
            Task::RejectServers(list, _) => call_of(task, round) == Call::SetServers(list),
            Task::OfferRelay => call_of(task, round) == Call::SetPolicy(IceTransportPolicy::Relay),
            Task::ResetPolicy => call_of(task, round) == Call::SetPolicy(IceTransportPolicy::All),
            Task::SendStream(on) => call_of(task, round) == Call::SendViaStream(on),
            Task::ReadAll { on, .. } => call_of(task, round) == Call::ReadStream(on),
            Task::FeedAll { size, .. } => if round % 2 == 0 {
                call_of(task, round) matches Call::FeedHeader { length } && length
                    == crate::payload::payload((round / 2) as u32, size).len()
            } else {
                call_of(task, round) == (Call::FeedPayload { index: (round / 2) as u32, size })
            },
        },
{
}

/// A case passes exactly if none of its phases failed, in either lane.
pub proof fn verdict_is_that_of_every_phase(
    case: CaseView,
    ends: Seq<(Option<Seq<char>>, Option<Seq<char>>)>,
)
    requires
        ends.len() <= case.phases.len(),
    ensures
        run_through(RunView::start(case), ends).failure is None <==> forall|i: int|
            0 <= i < ends.len() ==> (#[trigger] ends[i]).0 is None && ends[i].1 is None,
    decreases ends.len(),
{
    if ends.len() > 0 {
        let less = ends.drop_last();
        verdict_is_that_of_every_phase(case, less);
        let before = run_through(RunView::start(case), less);
        if forall|i: int| 0 <= i < less.len() ==> (#[trigger] less[i]).0 is None && less[i].1
            is None {
            assert forall|i: int| 0 <= i < less.len() implies #[trigger] nth_failure(
                case,
                less,
                i,
            ) is None by {
                assert(less[i].0 is None && less[i].1 is None);
            }
            case_passes_if_every_phase_does(case, less);
            assert(ends[ends.len() - 1] == ends.last());
            if forall|i: int| 0 <= i < ends.len() ==> (#[trigger] ends[i]).0 is None && ends[i].1
                is None {
                assert(ends[ends.len() - 1].0 is None);
            }
            assert forall|i: int| 0 <= i < less.len() implies (#[trigger] ends[i]).0 is None
                && ends[i].1 is None by {
                assert(less[i].0 is None && less[i].1 is None);
            }
        } else {
            let i = choose|i: int|
                0 <= i < less.len() && !((#[trigger] less[i]).0 is None && less[i].1 is None);
            assert(ends[i] == less[i]);
            lemma_failure_is_kept(before, ends.last().0, ends.last().1);
        }
    }
}

proof fn lemma_failure_is_kept(run: RunView, left: Option<Seq<char>>, right: Option<Seq<char>>)
    ensures
        run.failure is Some ==> run.after(left, right).failure is Some,
{
}

/// Once a case has failed, no further phase of it is run, only its cleanup, and that only
/// if the phase that failed was guarded; and the cleanup does not change the verdict.
pub proof fn failed_case_runs_no_further(
    run: RunView,
    left: Option<Seq<char>>,
    right: Option<Seq<char>>,
    after_left: Option<Seq<char>>,
    after_right: Option<Seq<char>>,
)
    requires
        run.at < run.case.phases.len(),
        run.failure is None,
        left is Some || right is Some,
    ensures
        ({
            let next = run.after(left, right);
            &&& next.failure == left || next.failure == right
            &&& left is Some && right is Some ==> next.failure == if run.phase().right_first {
                right
            } else {
                left
            }
            &&& next.at >= run.case.phases.len()
            &&& next.running() <==> run.at >= run.case.guarded
            &&& next.running() ==> next.phase() == one(run.case.cleanup)
            &&& next.after(after_left, after_right).failure == next.failure
            &&& !next.after(after_left, after_right).running()
        }),
{
}

} // verus!
