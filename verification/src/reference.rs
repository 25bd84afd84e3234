//! The non-wasm reference peer: its ICE setup, its half of the handshake, and the
//! payload exchange and rendezvous it runs over the connected channel.

use vstd::prelude::*;
use vstd::utf8::encode_utf8;

use crate::exchange::{corpus_messages, exchange_phase, is_counted, sent_by_all};
use crate::json::{opt_view, result_object};
use crate::lab::PeerRole;
use crate::outcome::{is_result_line, reported, OutcomeView, TestOutcome};
use crate::payload::{
    byte_views, corpus, corpus_passes, in_place, in_turn_verdict, index_in, intact,
    ordered_check_is_exact, payload, verify_in_turn,
};
use crate::script::{bytes_of, whole};
use crate::signaling::Signal;
use crate::solo::{at_least, raise};
use crate::stimulus::{build_message, message_of, same_bytes, Payload, CHANNEL_LABEL, SENTINEL};
use crate::text::{debug_quoted, debug_text, same};
use crate::wire::{ConnectionState, DataChannelState, Message, MessageView};

verus! {

/// The bound on a whole run, in seconds.
pub const RUN_TIMEOUT_SECS: u64 = 120;

// ----- setup ---------------------------------------------------------------------------

/// A STUN or TURN server, as the reference peer's stack takes it.
#[derive(Debug, Clone)]
pub struct ReferenceServer {
    pub urls: Vec<String>,
    pub username: String,
    pub password: String,
}

/// How the reference peer's connection is configured.
#[derive(Debug, Clone)]
pub struct ReferenceSetup {
    pub ice_servers: Vec<ReferenceServer>,
    /// Whether candidates are gathered once rather than continually.
    pub gather_once: bool,
    /// Whether only relay candidates are used.
    pub relay_only: bool,
}

/// Configure the connection: one server if a URL is given, none otherwise.
pub fn setup(
    server_url: Option<String>,
    username: String,
    credential: String,
    relay_only: bool,
) -> (r: ReferenceSetup)
    ensures
        r.gather_once,
        r.relay_only == relay_only,
        match server_url {
            None => r.ice_servers@.len() == 0,
            Some(url) => {
                &&& r.ice_servers@.len() == 1
                &&& r.ice_servers@[0].urls@ == seq![url]
                &&& r.ice_servers@[0].username == username
                &&& r.ice_servers@[0].password == credential
            },
        },
{
    let mut ice_servers: Vec<ReferenceServer> = Vec::new();
    match server_url {
        None => {},
        Some(url) => {
            let urls: Vec<String> = vec![url];
            assert(urls@ =~= seq![url]);
            ice_servers.push(ReferenceServer { urls, username, password: credential });
        },
    }
    ReferenceSetup { ice_servers, gather_once: true, relay_only }
}

/// The options of a test's data channel.
#[derive(Debug, Clone, Copy, PartialEq, Eq, Structural)]
pub struct ChannelInit {
    pub ordered: bool,
    pub max_retransmits: Option<i32>,
}

/// The options of a test's data channel: ordered, and without retransmissions for
/// the test that asks for it.
pub fn channel_init(test_id: &str) -> (r: ChannelInit)
    ensures
        r.ordered,
        r.max_retransmits == if test_id@ == "max-retransmits-accepted"@ {
            Some(0i32)
        } else {
            None
        },
{
    ChannelInit {
        ordered: true,
        max_retransmits: if same(test_id, "max-retransmits-accepted") {
            Some(0)
        } else {
            None
        },
    }
}

// ----- candidates ----------------------------------------------------------------------

/// A candidate as the reference peer's stack holds it.
#[derive(Debug, Clone)]
pub struct RawCandidate {
    pub sdp_mid: String,
    pub sdp_mline_index: i32,
    pub candidate: String,
}

/// A candidate's contents.
pub struct RawCandidateView {
    pub sdp_mid: Seq<char>,
    pub sdp_mline_index: i32,
    pub candidate: Seq<char>,
}

impl View for RawCandidate {
    type V = RawCandidateView;

    open spec fn view(&self) -> RawCandidateView {
        RawCandidateView {
            sdp_mid: self.sdp_mid@,
            sdp_mline_index: self.sdp_mline_index,
            candidate: self.candidate@,
        }
    }
}

/// An index as signals carry it: none if it does not fit.
pub open spec fn narrowed(index: i32) -> Option<u16> {
    if 0 <= index <= 65535 {
        Some(index as u16)
    } else {
        None
    }
}

/// The signal that trickles a candidate.
pub open spec fn announced(candidate: RawCandidate) -> Signal {
    Signal::Candidate {
        candidate: candidate.candidate,
        sdp_mid: Some(candidate.sdp_mid),
        sdp_mline_index: narrowed(candidate.sdp_mline_index),
    }
}

/// The signal that trickles a candidate.
pub fn announce(candidate: RawCandidate) -> (r: Signal)
    ensures
        r == announced(candidate),
{
    let index = candidate.sdp_mline_index;
    Signal::Candidate {
        candidate: candidate.candidate,
        sdp_mid: Some(candidate.sdp_mid),
        sdp_mline_index: if 0 <= index && index <= 65535 {
            Some(index as u16)
        } else {
            None
        },
    }
}

/// The candidate a signal trickles: an absent media id is empty, an absent index is
/// 0.
pub open spec fn adopted(
    candidate: Seq<char>,
    sdp_mid: Option<Seq<char>>,
    sdp_mline_index: Option<u16>,
) -> RawCandidateView {
    RawCandidateView {
        sdp_mid: match sdp_mid {
            Some(mid) => mid,
            None => ""@,
        },
        sdp_mline_index: match sdp_mline_index {
            Some(index) => index as i32,
            None => 0,
        },
        candidate,
    }
}

/// The candidate a signal trickles.
pub fn adopt_candidate(
    candidate: String,
    sdp_mid: Option<String>,
    sdp_mline_index: Option<u16>,
) -> (r: RawCandidate)
    ensures
        r@ == adopted(candidate@, opt_view(sdp_mid), sdp_mline_index),
{
    RawCandidate {
        sdp_mid: match sdp_mid {
            Some(mid) => mid,
            None => "".to_owned(),
        },
        sdp_mline_index: match sdp_mline_index {
            Some(index) => index as i32,
            None => 0,
        },
        candidate,
    }
}

/// A candidate one reference peer trickles is the candidate the other adopts,
/// provided that its index fits a signal.
pub proof fn announced_candidate_arrives(candidate: RawCandidate)
    requires
        0 <= candidate.sdp_mline_index <= 65535,
    ensures
        announced(candidate) matches Signal::Candidate { candidate: text, sdp_mid, sdp_mline_index }
            && adopted(text@, opt_view(sdp_mid), sdp_mline_index) == candidate@,
{
}

// ----- waiting -------------------------------------------------------------------------

/// What a look at a state comes to.
#[derive(Debug)]
pub enum Look {
    /// What was waited for has come.
    Ready,
    /// It has not come yet.
    Wait,
    /// It will not come, for this reason.
    Failed(String),
}

/// What a look at a state comes to.
pub enum LookView {
    Ready,
    Wait,
    Failed(Seq<char>),
}

impl View for Look {
    type V = LookView;

    open spec fn view(&self) -> LookView {
        match self {
            Look::Ready => LookView::Ready,
            Look::Wait => LookView::Wait,
            Look::Failed(why) => LookView::Failed(why@),
        }
    }
}

/// What a connection's state means to a peer that waits for it to connect.
pub open spec fn connection_look(state: ConnectionState) -> LookView {
    match state {
        ConnectionState::Connected => LookView::Ready,
        ConnectionState::Failed => LookView::Failed("connection failed before connecting"@),
        ConnectionState::Closed => LookView::Failed("connection failed before connecting"@),
        _ => LookView::Wait,
    }
}

/// Look at a connection that is awaited.
pub fn look_connected(state: ConnectionState) -> (r: Look)
    ensures
        r@ == connection_look(state),
{
    match state {
        ConnectionState::Connected => Look::Ready,
        ConnectionState::Failed => Look::Failed("connection failed before connecting".to_owned()),
        ConnectionState::Closed => Look::Failed("connection failed before connecting".to_owned()),
        _ => Look::Wait,
    }
}

/// How often a channel that does not open is looked at.
pub const OPEN_POLLS: u32 = 1200;

/// The pause between two looks, in milliseconds.
pub const OPEN_PAUSE_MS: u64 = 25;

/// A wait for a channel to open.
#[derive(Debug)]
pub struct OpenWait {
    polls: u32,
}

impl OpenWait {
    /// How many looks have been taken.
    pub closed spec fn taken(self) -> nat {
        self.polls as nat
    }

    /// Begin to wait.
    pub fn new() -> (r: OpenWait)
        ensures
            r.taken() == 0,
    {
        OpenWait { polls: 0 }
    }

    /// Take a look. A channel that has only been connecting at every look is given up
    /// on at the look past the last.
    pub fn look(&mut self, state: DataChannelState) -> (r: Look)
        requires
            old(self).taken() <= OPEN_POLLS,
        ensures
            r@ == if old(self).taken() == OPEN_POLLS {
                LookView::Failed("channel did not open"@)
            } else {
                match state {
                    DataChannelState::Open => LookView::Ready,
                    DataChannelState::Closing => LookView::Failed("channel closed before open"@),
                    DataChannelState::Closed => LookView::Failed("channel closed before open"@),
                    DataChannelState::Connecting => LookView::Wait,
                }
            },
            final(self).taken() == if old(self).taken() == OPEN_POLLS {
                old(self).taken()
            } else {
                old(self).taken() + 1
            },
    {
        if self.polls == OPEN_POLLS {
            return Look::Failed("channel did not open".to_owned());
        }
        self.polls += 1;
        match state {
            DataChannelState::Open => Look::Ready,
            DataChannelState::Closing => Look::Failed("channel closed before open".to_owned()),
            DataChannelState::Closed => Look::Failed("channel closed before open".to_owned()),
            DataChannelState::Connecting => Look::Wait,
        }
    }
}

// ----- the payload exchange ------------------------------------------------------------

/// A call on the connected channel.
#[derive(Debug, Clone, Copy)]
pub enum PeerCall {
    /// Read the channel's label.
    Label,
    /// Send a message.
    Send(Payload),
    /// Take the next inbound item.
    Receive,
    /// Close the channel.
    Close,
    /// Pause for some milliseconds.
    Pause(u64),
}

/// What a call on the connected channel gave back.
#[derive(Debug)]
pub enum PeerReply {
    Done,
    /// A send failed, for this reason.
    SendFailed(String),
    /// A message came in.
    Message { binary: bool, data: Vec<u8> },
    /// The channel closed, or its inbound items ended.
    Ended,
    Label(String),
}

/// One step of the reference peer's exchange.
#[derive(Debug, Clone, Copy)]
pub enum PeerTask {
    /// The channel must have the suite's label.
    CheckLabel,
    /// Send one message.
    Send(Payload),
    /// Receive one particular message; the detail is for another one.
    Expect(Payload, &'static str),
    /// Send the corpus, with a pause behind each message if it is not 0.
    SendAll { count: u32, size: u32, pause_ms: u64 },
    /// Receive the corpus and verify it.
    ReceiveAll { count: u32, ordered: bool },
    /// Pause.
    Pause(u64),
    /// Close the channel.
    Close,
    /// Discard what comes in until the channel is closed.
    AwaitClose,
    /// The channel must be closed next.
    ExpectClose,
    /// Send the rendezvous message; where that fails the peer has already left, and
    /// the exchange is over.
    Announce,
    /// Discard what comes in until the rendezvous message, or a close.
    AwaitSentinel,
}

/// The state of an exchange.
pub struct PeerLaneView {
    pub tasks: Seq<PeerTask>,
    pub at: nat,
    /// How many calls of the task at hand have been answered, where they count.
    pub round: nat,
    pub received: Seq<Seq<u8>>,
    pub failure: Option<Seq<char>>,
}

/// How many calls a task makes, where that is counted; none if there is nothing to do.
pub open spec fn peer_rounds(task: PeerTask) -> nat {
    match task {
        PeerTask::SendAll { count, pause_ms, .. } => if pause_ms == 0 {
            count as nat
        } else {
            (2 * count) as nat
        },
        PeerTask::ReceiveAll { count, .. } => if count == 0 {
            0
        } else {
            1
        },
        _ => 1,
    }
}

/// The call a task makes in a round.
pub open spec fn peer_call(task: PeerTask, round: nat) -> PeerCall {
    match task {
        PeerTask::CheckLabel => PeerCall::Label,
        PeerTask::Send(payload) => PeerCall::Send(payload),
        PeerTask::Expect(_, _) => PeerCall::Receive,
        PeerTask::SendAll { size, pause_ms, .. } => if pause_ms == 0 {
            PeerCall::Send(Payload::Indexed { index: round as u32, size })
        } else if round % 2 == 0 {
            PeerCall::Send(Payload::Indexed { index: (round / 2) as u32, size })
        } else {
            PeerCall::Pause(pause_ms)
        },
        PeerTask::ReceiveAll { .. } => PeerCall::Receive,
        PeerTask::Pause(ms) => PeerCall::Pause(ms),
        PeerTask::Close => PeerCall::Close,
        PeerTask::AwaitClose => PeerCall::Receive,
        PeerTask::ExpectClose => PeerCall::Receive,
        PeerTask::Announce => PeerCall::Send(Payload::Sentinel),
        PeerTask::AwaitSentinel => PeerCall::Receive,
    }
}

/// The exchange at the next task that has something to do.
pub open spec fn peer_skipped(lane: PeerLaneView) -> PeerLaneView
    decreases lane.tasks.len() - lane.at,
{
    if lane.at < lane.tasks.len() && peer_rounds(lane.tasks[lane.at as int]) == 0 {
        peer_skipped(PeerLaneView { at: lane.at + 1, ..lane })
    } else {
        lane
    }
}

impl PeerLaneView {
    /// An exchange at its beginning.
    pub open spec fn start(tasks: Seq<PeerTask>) -> PeerLaneView {
        peer_skipped(
            PeerLaneView { tasks, at: 0, round: 0, received: Seq::empty(), failure: None },
        )
    }

    /// Whether there is a call to make.
    pub open spec fn busy(self) -> bool {
        self.failure is None && self.at < self.tasks.len()
    }

    /// The task at hand.
    pub open spec fn task(self) -> PeerTask {
        self.tasks[self.at as int]
    }

    /// Past the task at hand.
    pub open spec fn moved(self) -> PeerLaneView {
        peer_skipped(
            PeerLaneView { at: self.at + 1, round: 0, received: Seq::empty(), ..self },
        )
    }

    /// In the next round of the task at hand, or past it.
    pub open spec fn again(self) -> PeerLaneView {
        if self.round + 1 >= peer_rounds(self.task()) {
            self.moved()
        } else {
            PeerLaneView { round: self.round + 1, ..self }
        }
    }

    /// Failed.
    pub open spec fn failed(self, detail: Seq<char>) -> PeerLaneView {
        PeerLaneView { received: Seq::empty(), failure: Some(detail), ..self }
    }

    /// Over, without a failure.
    pub open spec fn through(self) -> PeerLaneView {
        PeerLaneView { at: self.tasks.len(), round: 0, received: Seq::empty(), ..self }
    }

    /// Past the task at hand, or failed with a check's detail.
    pub open spec fn verdict(self, check: Result<(), Seq<char>>) -> PeerLaneView {
        match check {
            Ok(()) => self.moved(),
            Err(detail) => self.failed(detail),
        }
    }

    /// A state that an exchange leads to.
    pub open spec fn valid(self) -> bool {
        &&& self.at <= self.tasks.len()
        &&& self.busy() ==> self.round < peer_rounds(self.task())
    }
}

/// Whether an inbound message is the one a payload stands for.
pub open spec fn is_payload(binary: bool, data: Seq<u8>, payload: Payload) -> bool {
    binary == (message_of(payload) is Binary) && data == bytes_of(message_of(payload))
}

/// The exchange after a reply to the call at hand. A reply that does not answer the
/// call leaves it as it is.
pub open spec fn peer_judged(lane: PeerLaneView, reply: PeerReply) -> PeerLaneView {
    if !lane.busy() {
        lane
    } else {
        match lane.task() {
            PeerTask::CheckLabel => match reply {
                PeerReply::Label(label) => if label@ == CHANNEL_LABEL@ {
                    lane.moved()
                } else {
                    lane.failed(
                        "label was "@ + debug_text(label@) + ", expected "@ + debug_text(
                            CHANNEL_LABEL@,
                        ),
                    )
                },
                _ => lane,
            },
            PeerTask::Send(_) => match reply {
                PeerReply::Done => lane.moved(),
                PeerReply::SendFailed(why) => lane.failed("send: "@ + why@),
                _ => lane,
            },
            PeerTask::Expect(payload, detail) => match reply {
                PeerReply::Message { binary, data } => if is_payload(binary, data@, payload) {
                    lane.moved()
                } else {
                    lane.failed(detail@)
                },
                PeerReply::Ended => lane.failed("receive: closed"@),
                _ => lane,
            },
            PeerTask::SendAll { .. } => match reply {
                PeerReply::Done => lane.again(),
                PeerReply::SendFailed(why) => lane.failed("send: "@ + why@),
                _ => lane,
            },
            PeerTask::ReceiveAll { count, ordered } => match reply {
                PeerReply::Message { data, .. } => {
                    let received = lane.received.push(data@);
                    if received.len() < count {
                        PeerLaneView { received, ..lane }
                    } else {
                        lane.verdict(in_turn_verdict(received, count as nat, ordered))
                    }
                },
                PeerReply::Ended => lane.failed("receive: closed"@),
                _ => lane,
            },
            PeerTask::Pause(_) => lane.moved(),
            PeerTask::Close => lane.moved(),
            PeerTask::AwaitClose => match reply {
                PeerReply::Ended => lane.moved(),
                _ => lane,
            },
            PeerTask::ExpectClose => match reply {
                PeerReply::Ended => lane.moved(),
                PeerReply::Message { .. } => lane.failed("received past the peer's close"@),
                _ => lane,
            },
            PeerTask::Announce => match reply {
                PeerReply::Done => lane.moved(),
                PeerReply::SendFailed(_) => lane.through(),
                _ => lane,
            },
            PeerTask::AwaitSentinel => match reply {
                PeerReply::Message { data, .. } => if data@ == bytes_of(
                    message_of(Payload::Sentinel),
                ) {
                    lane.moved()
                } else {
                    lane
                },
                PeerReply::Ended => lane.moved(),
                _ => lane,
            },
        }
    }
}

/// The reference peer's exchange as it runs.
#[derive(Debug)]
pub struct PeerLane {
    tasks: Vec<PeerTask>,
    at: usize,
    round: u64,
    received: Vec<Vec<u8>>,
    failure: Option<String>,
}

impl View for PeerLane {
    type V = PeerLaneView;

    closed spec fn view(&self) -> PeerLaneView {
        PeerLaneView {
            tasks: self.tasks@,
            at: self.at as nat,
            round: self.round as nat,
            received: byte_views(self.received@),
            failure: opt_view(self.failure),
        }
    }
}

fn rounds_of(task: PeerTask) -> (r: u64)
    ensures
        r == peer_rounds(task),
{
    match task {
        PeerTask::SendAll { count, pause_ms, .. } => if pause_ms == 0 {
            count as u64
        } else {
            2 * count as u64
        },
        PeerTask::ReceiveAll { count, .. } => if count == 0 {
            0
        } else {
            1
        },
        _ => 1,
    }
}

fn matches_payload(binary: bool, data: &[u8], payload: Payload) -> (r: bool)
    ensures
        r == is_payload(binary, data@, payload),
{
    match build_message(payload) {
        Message::Binary(bytes) => binary && same_bytes(data, bytes.as_slice()),
        Message::Text(text) => !binary && same_bytes(data, text.as_str().as_bytes()),
    }
}

impl PeerLane {
    fn skip(&mut self)
        requires
            old(self)@.at <= old(self)@.tasks.len(),
            old(self)@.round == 0,
        ensures
            final(self)@ == peer_skipped(old(self)@),
            final(self)@.valid(),
    {
        let ghost was = self@;
        while self.at < self.tasks.len() && rounds_of(self.tasks[self.at]) == 0
            invariant
                self@.at <= self@.tasks.len(),
                self@.round == 0,
                peer_skipped(self@) == peer_skipped(was),
            decreases self@.tasks.len() - self@.at,
        {
            self.at += 1;
        }
    }

    fn advance(&mut self)
        requires
            old(self)@.at < old(self)@.tasks.len(),
        ensures
            final(self)@ == old(self)@.moved(),
            final(self)@.valid(),
    {
        assert(self.at < self.tasks.len());
        self.at += 1;
        self.round = 0;
        self.received = Vec::new();
        assert(self@.received =~= Seq::<Seq<u8>>::empty());
        self.skip();
    }

    fn repeat(&mut self)
        requires
            old(self)@.valid(),
            old(self)@.busy(),
        ensures
            final(self)@ == old(self)@.again(),
            final(self)@.valid(),
    {
        if self.round + 1 >= rounds_of(self.tasks[self.at]) {
            self.advance();
        } else {
            self.round += 1;
        }
    }

    fn fail(&mut self, detail: String)
        requires
            old(self)@.valid(),
        ensures
            final(self)@ == old(self)@.failed(detail@),
            final(self)@.valid(),
    {
        self.received = Vec::new();
        assert(self@.received =~= Seq::<Seq<u8>>::empty());
        self.failure = Some(detail);
    }

    /// Begin an exchange.
    pub fn new(tasks: Vec<PeerTask>) -> (r: PeerLane)
        ensures
            r@ == PeerLaneView::start(tasks@),
            r@.valid(),
    {
        let mut lane = PeerLane { tasks, at: 0, round: 0, received: Vec::new(), failure: None };
        assert(lane@.received =~= Seq::<Seq<u8>>::empty());
        lane.skip();
        lane
    }

    /// The call to make next; none once the exchange is through or has failed.
    pub fn call(&self) -> (r: Option<PeerCall>)
        requires
            self@.valid(),
        ensures
            r is Some <==> self@.busy(),
            r matches Some(call) ==> call == peer_call(self@.task(), self@.round),
    {
        if self.failure.is_some() || self.at >= self.tasks.len() {
            return None;
        }
        let call = match self.tasks[self.at] {
            PeerTask::CheckLabel => PeerCall::Label,
            PeerTask::Send(payload) => PeerCall::Send(payload),
            PeerTask::Expect(_, _) => PeerCall::Receive,
            PeerTask::SendAll { size, pause_ms, .. } => if pause_ms == 0 {
                PeerCall::Send(Payload::Indexed { index: self.round as u32, size })
            } else if self.round % 2 == 0 {
                PeerCall::Send(Payload::Indexed { index: (self.round / 2) as u32, size })
            } else {
                PeerCall::Pause(pause_ms)
            },
            PeerTask::ReceiveAll { .. } => PeerCall::Receive,
            PeerTask::Pause(ms) => PeerCall::Pause(ms),
            PeerTask::Close => PeerCall::Close,
            PeerTask::AwaitClose => PeerCall::Receive,
            PeerTask::ExpectClose => PeerCall::Receive,
            PeerTask::Announce => PeerCall::Send(Payload::Sentinel),
            PeerTask::AwaitSentinel => PeerCall::Receive,
        };
        Some(call)
    }

    fn take_message(&mut self, data: Vec<u8>, binary: bool, count: u32, ordered: bool)
        requires
            old(self)@.valid(),
            old(self)@.busy(),
            old(self)@.task() == (PeerTask::ReceiveAll { count, ordered }),
        ensures
            final(self)@ == peer_judged(old(self)@, PeerReply::Message { binary, data }),
            final(self)@.valid(),
    {
        let ghost was = self@;
        let mut received: Vec<Vec<u8>> = Vec::new();
        std::mem::swap(&mut received, &mut self.received);
        received.push(data);
        assert(byte_views(received@) =~= was.received.push(data@));
        assert(byte_views(received@).len() == received@.len());
        if (received.len() as u64) < count as u64 {
            self.received = received;
        } else {
            match verify_in_turn(received.as_slice(), count, ordered) {
                Ok(()) => {
                    self.advance();
                },
                Err(detail) => {
                    self.fail(detail);
                },
            }
        }
    }

    /// Take the reply to the call at hand.
    pub fn reply(&mut self, reply: PeerReply)
        requires
            old(self)@.valid(),
        ensures
            final(self)@ == peer_judged(old(self)@, reply),
            final(self)@.valid(),
    {
        if self.failure.is_some() || self.at >= self.tasks.len() {
            return;
        }
        match (self.tasks[self.at], reply) {
            (PeerTask::CheckLabel, PeerReply::Label(label)) => {
                if same(label.as_str(), CHANNEL_LABEL) {
                    self.advance();
                } else {
                    self.fail(
                        "label was ".to_owned().concat(
                            debug_quoted(label.as_str()).as_str(),
                        ).concat(", expected ").concat(debug_quoted(CHANNEL_LABEL).as_str()),
                    );
                }
            },
            (PeerTask::Send(_), PeerReply::Done) => {
                self.advance();
            },
            (PeerTask::Send(_), PeerReply::SendFailed(why)) => {
                self.fail("send: ".to_owned().concat(why.as_str()));
            },
            (PeerTask::Expect(payload, detail), PeerReply::Message { binary, data }) => {
                if matches_payload(binary, data.as_slice(), payload) {
                    self.advance();
                } else {
                    self.fail(detail.to_owned());
                }
            },
            (PeerTask::Expect(_, _), PeerReply::Ended) => {
                self.fail("receive: closed".to_owned());
            },
            (PeerTask::SendAll { .. }, PeerReply::Done) => {
                self.repeat();
            },
            (PeerTask::SendAll { .. }, PeerReply::SendFailed(why)) => {
                self.fail("send: ".to_owned().concat(why.as_str()));
            },
            (PeerTask::ReceiveAll { count, ordered }, PeerReply::Message { binary, data }) => {
                self.take_message(data, binary, count, ordered);
            },
            (PeerTask::ReceiveAll { .. }, PeerReply::Ended) => {
                self.fail("receive: closed".to_owned());
            },
            (PeerTask::Pause(_), _) => {
                self.advance();
            },
            (PeerTask::Close, _) => {
                self.advance();
            },
            (PeerTask::AwaitClose, PeerReply::Ended) => {
                self.advance();
            },
            (PeerTask::ExpectClose, PeerReply::Ended) => {
                self.advance();
            },
            (PeerTask::ExpectClose, PeerReply::Message { .. }) => {
                self.fail("received past the peer's close".to_owned());
            },
            (PeerTask::Announce, PeerReply::Done) => {
                self.advance();
            },
            (PeerTask::Announce, PeerReply::SendFailed(_)) => {
                self.at = self.tasks.len();
                self.round = 0;
                self.received = Vec::new();
                assert(self@.received =~= Seq::<Seq<u8>>::empty());
            },
            (PeerTask::AwaitSentinel, PeerReply::Message { data, .. }) => {
                let is_sentinel = match build_message(Payload::Sentinel) {
                    Message::Binary(bytes) => same_bytes(data.as_slice(), bytes.as_slice()),
                    Message::Text(text) => same_bytes(data.as_slice(), text.as_str().as_bytes()),
                };
                if is_sentinel {
                    self.advance();
                }
            },
            (PeerTask::AwaitSentinel, PeerReply::Ended) => {
                self.advance();
            },
            (_, _) => {},
        }
    }

    /// The detail the exchange failed with, if it did.
    pub fn failure(self) -> (r: Option<String>)
        ensures
            opt_view(r) == self@.failure,
    {
        self.failure
    }
}

// ----- the exchange of each test -------------------------------------------------------

/// The payload exchange of a test, or the detail for a test without one.
pub open spec fn peer_exchange(id: Seq<char>, me: PeerRole, count: u32, size: u32) -> Result<
    Seq<PeerTask>,
    Seq<char>,
> {
    let n = at_least(count, 1);
    let s = at_least(size, 16);
    let large = Payload::Indexed { index: 0, size: at_least(size, 1024) };
    if id == "label-round-trip"@ {
        Ok(seq![PeerTask::CheckLabel])
    } else if id == "binary-message"@ {
        Ok(
            seq![
                PeerTask::Send(Payload::Digits),
                PeerTask::Expect(Payload::Digits, "binary payload mismatch"),
            ],
        )
    } else if id == "text-message"@ {
        Ok(
            seq![
                PeerTask::Send(Payload::Greeting),
                PeerTask::Expect(Payload::Greeting, "text payload mismatch"),
            ],
        )
    } else if id == "zero-length-message"@ {
        Ok(
            seq![
                PeerTask::Send(Payload::Empty),
                PeerTask::Send(Payload::EmptyText),
                PeerTask::Expect(Payload::Empty, "expected empty binary message"),
                PeerTask::Expect(Payload::EmptyText, "expected empty text message"),
            ],
        )
    } else if id == "large-message"@ {
        Ok(seq![PeerTask::Send(large), PeerTask::Expect(large, "large payload mismatch")])
    } else if id == "max-retransmits-accepted"@ {
        Ok(
            seq![
                PeerTask::Send(Payload::Countdown),
                PeerTask::Expect(Payload::Countdown, "unreliable channel payload mismatch"),
            ],
        )
    } else if is_counted(id) {
        Ok(
            seq![
                PeerTask::SendAll { count: n, size: s, pause_ms: 0 },
                PeerTask::ReceiveAll { count: n, ordered: id == "ordering"@ },
            ],
        )
    } else if id == "channel-close-flush"@ {
        match me {
            // The first pause lets the answerer's channel open; the short ones keep the
            // test about the close rather than about a whole burst; the last one keeps
            // the transport up while the answerer drains what was flushed.
            PeerRole::Offerer => Ok(
                seq![
                    PeerTask::Pause(250),
                    PeerTask::SendAll { count: n, size: s, pause_ms: 20 },
                    PeerTask::Close,
                    PeerTask::AwaitClose,
                    PeerTask::Pause(500),
                ],
            ),
            PeerRole::Answerer => Ok(
                seq![PeerTask::ReceiveAll { count: n, ordered: false }, PeerTask::ExpectClose],
            ),
        }
    } else {
        Err("unhandled test id "@ + debug_text(id))
    }
}

/// The tasks of a plan, or the detail.
pub open spec fn plan_view(r: Result<Vec<PeerTask>, String>) -> Result<Seq<PeerTask>, Seq<char>> {
    match r {
        Ok(tasks) => Ok(tasks@),
        Err(detail) => Err(detail@),
    }
}

/// The payload exchange of a test.
pub fn exchange(id: &str, me: PeerRole, count: u32, size: u32) -> (r: Result<
    Vec<PeerTask>,
    String,
>)
    ensures
        plan_view(r) == peer_exchange(id@, me, count, size),
{
    let n: u32 = raise(count, 1);
    let s: u32 = raise(size, 16);
    let large = Payload::Indexed { index: 0, size: raise(size, 1024) };
    let mut tasks: Vec<PeerTask> = Vec::new();
    if same(id, "label-round-trip") {
        tasks.push(PeerTask::CheckLabel);
    } else if same(id, "binary-message") {
        tasks.push(PeerTask::Send(Payload::Digits));
        tasks.push(PeerTask::Expect(Payload::Digits, "binary payload mismatch"));
    } else if same(id, "text-message") {
        tasks.push(PeerTask::Send(Payload::Greeting));
        tasks.push(PeerTask::Expect(Payload::Greeting, "text payload mismatch"));
    } else if same(id, "zero-length-message") {
        tasks.push(PeerTask::Send(Payload::Empty));
        tasks.push(PeerTask::Send(Payload::EmptyText));
        tasks.push(PeerTask::Expect(Payload::Empty, "expected empty binary message"));
        tasks.push(PeerTask::Expect(Payload::EmptyText, "expected empty text message"));
    } else if same(id, "large-message") {
        tasks.push(PeerTask::Send(large));
        tasks.push(PeerTask::Expect(large, "large payload mismatch"));
    } else if same(id, "max-retransmits-accepted") {
        tasks.push(PeerTask::Send(Payload::Countdown));
        tasks.push(PeerTask::Expect(Payload::Countdown, "unreliable channel payload mismatch"));
    } else if same(id, "concurrent-send-receive") || same(id, "message-boundaries") || same(
        id,
        "ordering",
    ) || same(id, "payload-integrity") || same(id, "interop-handshake") {
        tasks.push(PeerTask::SendAll { count: n, size: s, pause_ms: 0 });
        tasks.push(PeerTask::ReceiveAll { count: n, ordered: same(id, "ordering") });
    } else if same(id, "channel-close-flush") {
        match me {
            PeerRole::Offerer => {
                tasks.push(PeerTask::Pause(250));
                tasks.push(PeerTask::SendAll { count: n, size: s, pause_ms: 20 });
                tasks.push(PeerTask::Close);
                tasks.push(PeerTask::AwaitClose);
                tasks.push(PeerTask::Pause(500));
            },
            PeerRole::Answerer => {
                tasks.push(PeerTask::ReceiveAll { count: n, ordered: false });
                tasks.push(PeerTask::ExpectClose);
            },
        }
    } else {
        return Err("unhandled test id ".to_owned().concat(debug_quoted(id).as_str()));
    }
    assert(peer_exchange(id@, me, count, size) is Ok);
    assert(tasks@ =~= peer_exchange(id@, me, count, size)->Ok_0);
    Ok(tasks)
}

/// The final rendezvous: a close counts as the peer's half of it.
pub open spec fn peer_barrier() -> Seq<PeerTask> {
    seq![PeerTask::Announce, PeerTask::AwaitSentinel]
}

/// The final rendezvous.
pub fn barrier() -> (r: Vec<PeerTask>)
    ensures
        r@ == peer_barrier(),
{
    let tasks: Vec<PeerTask> = vec![PeerTask::Announce, PeerTask::AwaitSentinel];
    assert(tasks@ =~= peer_barrier());
    tasks
}

/// What the connected reference peer does in a test: the exchange, then the
/// rendezvous.
pub fn peer_plan(id: &str, me: PeerRole, count: u32, size: u32) -> (r: Result<
    Vec<PeerTask>,
    String,
>)
    ensures
        plan_view(r) == match peer_exchange(id@, me, count, size) {
            Ok(tasks) => Ok::<Seq<PeerTask>, Seq<char>>(tasks + peer_barrier()),
            Err(detail) => Err(detail),
        },
{
    match exchange(id, me, count, size) {
        Err(detail) => Err(detail),
        Ok(tasks) => {
            let ghost first = tasks@;
            let mut tasks = tasks;
            let mut last = barrier();
            tasks.append(&mut last);
            assert(tasks@ =~= first + peer_barrier());
            Ok(tasks)
        },
    }
}

// ----- the result ----------------------------------------------------------------------

/// How a run ended.
#[derive(Debug)]
pub enum PeerEnd {
    Passed,
    /// It failed with this error chain.
    Failed(String),
    /// It took longer than it may.
    TimedOut,
}

/// The outcome a run's end is.
pub open spec fn peer_outcome_of(end: PeerEnd) -> OutcomeView {
    match end {
        PeerEnd::Passed => OutcomeView::Pass,
        PeerEnd::Failed(error) => OutcomeView::Fail(error@),
        PeerEnd::TimedOut => OutcomeView::Fail("timed-out"@),
    }
}

/// The single line that reports a run on the reference peer's stdout.
pub fn result_line(end: PeerEnd) -> (r: String)
    ensures
        r@ == result_object(reported(peer_outcome_of(end)).0, reported(peer_outcome_of(end)).1),
        is_result_line(r@, peer_outcome_of(end)),
{
    let outcome = match end {
        PeerEnd::Passed => TestOutcome::Pass,
        PeerEnd::Failed(error) => TestOutcome::Fail(error),
        PeerEnd::TimedOut => TestOutcome::Fail("timed-out".to_owned()),
    };
    outcome.to_json_line()
}

// ----- laws ----------------------------------------------------------------------------

/// The exchange after some replies.
pub open spec fn run_peer(lane: PeerLaneView, replies: Seq<PeerReply>) -> PeerLaneView
    decreases replies.len(),
{
    if replies.len() == 0 {
        lane
    } else {
        run_peer(peer_judged(lane, replies[0]), replies.drop_first())
    }
}

/// The messages a task sends.
pub open spec fn peer_sent_by(task: PeerTask) -> Seq<MessageView> {
    match task {
        PeerTask::Send(payload) => seq![message_of(payload)],
        PeerTask::SendAll { count, size, .. } => corpus_messages(count as nat, size),
        _ => Seq::empty(),
    }
}

/// The messages an exchange sends.
pub open spec fn peer_sent_by_all(tasks: Seq<PeerTask>) -> Seq<MessageView>
    decreases tasks.len(),
{
    if tasks.len() == 0 {
        Seq::empty()
    } else {
        peer_sent_by(tasks[0]) + peer_sent_by_all(tasks.drop_first())
    }
}

/// The reference peer sends what a suite peer sends in the same half of the same
/// test: a suite peer cannot tell the two apart by their payloads.
#[verifier::spinoff_prover]
#[verifier::rlimit(50)]
pub proof fn reference_sends_what_the_suite_sends(
    id: Seq<char>,
    me: PeerRole,
    count: u32,
    size: u32,
)
    requires
        exchange_phase(id, me, count, size) is Some,
    ensures
        peer_exchange(id, me, count, size) is Ok,
        peer_sent_by_all(peer_exchange(id, me, count, size)->Ok_0) == sent_by_all(
            exchange_phase(id, me, count, size)->Some_0.left,
        ),
{
    let ours = peer_exchange(id, me, count, size)->Ok_0;
    let theirs = exchange_phase(id, me, count, size)->Some_0.left;
    reveal_with_fuel(peer_sent_by_all, 5);
    reveal_with_fuel(sent_by_all, 5);
    assert(peer_sent_by_all(ours) =~= sent_by_all(theirs));
}

/// Whether replies are those of a reliable, ordered channel with the negotiated
/// label: every send succeeds, and receives deliver `inbox` in order.
pub open spec fn peer_faithful(
    lane: PeerLaneView,
    replies: Seq<PeerReply>,
    inbox: Seq<MessageView>,
) -> bool
    decreases replies.len(),
{
    if replies.len() == 0 {
        true
    } else if !lane.busy() {
        false
    } else {
        let rest = replies.drop_first();
        let next = peer_judged(lane, replies[0]);
        match peer_call(lane.task(), lane.round) {
            PeerCall::Send(_) => replies[0] is Done && peer_faithful(next, rest, inbox),
            PeerCall::Receive => {
                &&& inbox.len() > 0
                &&& replies[0] matches PeerReply::Message { binary, data } && binary == (
                inbox[0] is Binary) && data@ == bytes_of(inbox[0])
                &&& peer_faithful(next, rest, inbox.drop_first())
            },
            PeerCall::Label => {
                &&& replies[0] matches PeerReply::Label(label) && label@ == CHANNEL_LABEL@
                &&& peer_faithful(next, rest, inbox)
            },
            _ => peer_faithful(next, rest, inbox),
        }
    }
}

spec fn peer_is_simple(task: PeerTask) -> bool {
    task is CheckLabel || task is Send || task is Expect
}

/// The messages a task expects one by one.
pub open spec fn peer_expected_by(task: PeerTask) -> Seq<MessageView> {
    match task {
        PeerTask::Expect(payload, _) => seq![message_of(payload)],
        _ => Seq::empty(),
    }
}

/// The messages an exchange expects one by one.
pub open spec fn peer_expected_by_all(tasks: Seq<PeerTask>) -> Seq<MessageView>
    decreases tasks.len(),
{
    if tasks.len() == 0 {
        Seq::empty()
    } else {
        peer_expected_by(tasks[0]) + peer_expected_by_all(tasks.drop_first())
    }
}

proof fn lemma_peer_simple(lane: PeerLaneView, replies: Seq<PeerReply>, inbox: Seq<MessageView>)
    requires
        forall|i: int| 0 <= i < lane.tasks.len() ==> peer_is_simple(#[trigger] lane.tasks[i]),
        lane.at <= lane.tasks.len(),
        lane.failure is None,
        lane.round == 0,
        peer_expected_by_all(lane.tasks.skip(lane.at as int)) == inbox,
        peer_faithful(lane, replies, inbox),
    ensures
        run_peer(lane, replies).failure is None,
        replies.len() == lane.tasks.len() - lane.at ==> run_peer(lane, replies).at
            == lane.tasks.len(),
    decreases replies.len(),
{
    if replies.len() > 0 {
        let next = peer_judged(lane, replies[0]);
        let here = lane.tasks.skip(lane.at as int);
        assert(here[0] == lane.task());
        assert(here.drop_first() =~= lane.tasks.skip((lane.at + 1) as int));
        assert(peer_is_simple(lane.task()));
        if lane.at + 1 < lane.tasks.len() {
            assert(peer_is_simple(lane.tasks[(lane.at + 1) as int]));
        }
        reveal_with_fuel(peer_skipped, 2);
        let rest = peer_expected_by_all(lane.tasks.skip((lane.at + 1) as int));
        match lane.task() {
            PeerTask::Expect(payload, _) => {
                assert(inbox == seq![message_of(payload)] + rest);
                assert(inbox[0] == message_of(payload));
                assert(inbox.drop_first() =~= rest);
                lemma_peer_simple(next, replies.drop_first(), inbox.drop_first());
            },
            _ => {
                assert(inbox =~= rest);
                lemma_peer_simple(next, replies.drop_first(), inbox);
            },
        }
    }
}

proof fn lemma_peer_collects(
    lane: PeerLaneView,
    replies: Seq<PeerReply>,
    count: u32,
    size: u32,
    ordered: bool,
    k: nat,
)
    requires
        lane.tasks.len() == 2,
        lane.tasks[1] == (PeerTask::ReceiveAll { count, ordered }),
        lane.at == 1,
        lane.failure is None,
        k < count,
        lane.received == corpus(k, size),
        peer_faithful(lane, replies, corpus_messages(count as nat, size).skip(k as int)),
    ensures
        run_peer(lane, replies).failure is None,
        replies.len() == count - k ==> run_peer(lane, replies).at == 2,
    decreases replies.len(),
{
    if replies.len() > 0 {
        let inbox = corpus_messages(count as nat, size).skip(k as int);
        let next = peer_judged(lane, replies[0]);
        reveal_with_fuel(peer_skipped, 2);
        reveal_with_fuel(peer_faithful, 2);
        reveal_with_fuel(run_peer, 2);
        assert(lane.task() == lane.tasks[1]);
        assert(inbox[0] == MessageView::Binary(payload(k as u32, size)));
        assert(lane.received.push(payload(k as u32, size)) =~= corpus(k + 1, size));
        if k + 1 < count {
            assert(inbox.drop_first() =~= corpus_messages(count as nat, size).skip((k + 1) as int));
            lemma_peer_collects(next, replies.drop_first(), count, size, ordered, k + 1);
        } else {
            corpus_passes(count as nat, size);
            assert(next.at == 2);
            assert(replies.drop_first().len() == 0);
        }
    }
}

proof fn lemma_peer_sends(
    lane: PeerLaneView,
    replies: Seq<PeerReply>,
    count: u32,
    size: u32,
    ordered: bool,
)
    requires
        lane.tasks == seq![
            PeerTask::SendAll { count, size, pause_ms: 0 },
            PeerTask::ReceiveAll { count, ordered },
        ],
        lane.at == 0,
        lane.failure is None,
        lane.round < count,
        lane.received == Seq::<Seq<u8>>::empty(),
        peer_faithful(lane, replies, corpus_messages(count as nat, size)),
    ensures
        run_peer(lane, replies).failure is None,
        replies.len() == 2 * count - lane.round ==> run_peer(lane, replies).at == 2,
    decreases replies.len(),
{
    if replies.len() > 0 {
        let next = peer_judged(lane, replies[0]);
        reveal_with_fuel(peer_skipped, 2);
        reveal_with_fuel(peer_faithful, 2);
        assert(lane.task() == lane.tasks[0]);
        if lane.round + 1 < count {
            lemma_peer_sends(next, replies.drop_first(), count, size, ordered);
        } else {
            assert(next.at == 1);
            assert(corpus_messages(count as nat, size).skip(0) =~= corpus_messages(
                count as nat,
                size,
            ));
            assert(corpus(0, size) =~= Seq::<Seq<u8>>::empty());
            lemma_peer_collects(next, replies.drop_first(), count, size, ordered, 0);
        }
    }
}

/// How many calls an exchange makes where every send succeeds and every receive
/// delivers.
pub open spec fn peer_calls_made(tasks: Seq<PeerTask>) -> nat
    decreases tasks.len(),
{
    if tasks.len() == 0 {
        0
    } else {
        peer_calls_made(tasks.drop_last()) + match tasks.last() {
            PeerTask::SendAll { .. } => peer_rounds(tasks.last()),
            PeerTask::ReceiveAll { count, .. } => count as nat,
            _ => 1,
        }
    }
}

/// The reference peer passes a suite peer: over a reliable, ordered channel that
/// delivers what the suite's other half sends, no part of the exchange fails, and an
/// exchange whose every call has been answered is through.
pub proof fn reference_passes_the_suite(
    id: Seq<char>,
    me: PeerRole,
    count: u32,
    size: u32,
    replies: Seq<PeerReply>,
)
    requires
        exchange_phase(id, me, count, size) is Some,
        peer_faithful(
            PeerLaneView::start(peer_exchange(id, me, count, size)->Ok_0),
            replies,
            sent_by_all(exchange_phase(id, me.across(), count, size)->Some_0.left),
        ),
    ensures
        ({
            let tasks = peer_exchange(id, me, count, size)->Ok_0;
            let ended = run_peer(PeerLaneView::start(tasks), replies);
            &&& peer_exchange(id, me, count, size) is Ok
            &&& ended.failure is None
            &&& replies.len() == peer_calls_made(tasks) ==> ended.at == tasks.len()
        }),
{
    let tasks = peer_exchange(id, me, count, size)->Ok_0;
    let theirs = exchange_phase(id, me.across(), count, size)->Some_0.left;
    let inbox = sent_by_all(theirs);
    let start = PeerLaneView::start(tasks);
    let n = at_least(count, 1);
    let s = at_least(size, 16);
    reference_sends_what_the_suite_sends(id, me.across(), count, size);
    reveal_with_fuel(peer_skipped, 2);
    if tasks[0] is SendAll {
        let d = tasks.drop_first();
        assert(peer_sent_by_all(tasks) =~= corpus_messages(n as nat, s)) by {
            reveal_with_fuel(peer_sent_by_all, 3);
        }
        assert(peer_exchange(id, me.across(), count, size)->Ok_0 == tasks);
        lemma_peer_sends(start, replies, n, s, id == "ordering"@);
        reveal_with_fuel(peer_calls_made, 3);
        assert(tasks.drop_last().drop_last() =~= Seq::<PeerTask>::empty());
        assert(tasks.drop_last().last() == tasks[0]);
    } else {
        assert forall|i: int| 0 <= i < tasks.len() implies peer_is_simple(
            #[trigger] tasks[i],
        ) by {}
        assert(tasks.skip(0) =~= tasks);
        assert(peer_expected_by_all(tasks) =~= peer_sent_by_all(tasks)) by {
            reveal_with_fuel(peer_expected_by_all, 5);
            reveal_with_fuel(peer_sent_by_all, 5);
        }
        assert(peer_exchange(id, me.across(), count, size)->Ok_0 == tasks);
        lemma_peer_simple(start, replies, inbox);
        lemma_simple_calls(tasks);
    }
}

proof fn lemma_simple_calls(tasks: Seq<PeerTask>)
    requires
        forall|i: int| 0 <= i < tasks.len() ==> peer_is_simple(#[trigger] tasks[i]),
    ensures
        peer_calls_made(tasks) == tasks.len(),
    decreases tasks.len(),
{
    if tasks.len() > 0 {
        assert(peer_is_simple(tasks.last()));
        assert forall|i: int| 0 <= i < tasks.drop_last().len() implies peer_is_simple(
            #[trigger] tasks.drop_last()[i],
        ) by {
            assert(peer_is_simple(tasks[i]));
        }
        lemma_simple_calls(tasks.drop_last());
    }
}

proof fn lemma_peer_skipped(lane: PeerLaneView)
    requires
        lane.at <= lane.tasks.len(),
    ensures
        peer_skipped(lane).at >= lane.at,
        peer_skipped(lane).at <= lane.tasks.len(),
        peer_skipped(lane) == (PeerLaneView { at: peer_skipped(lane).at, ..lane }),
        forall|k: int|
            lane.at <= k < peer_skipped(lane).at ==> peer_rounds(#[trigger] lane.tasks[k]) == 0,
    decreases lane.tasks.len() - lane.at,
{
    if lane.at < lane.tasks.len() && peer_rounds(lane.tasks[lane.at as int]) == 0 {
        lemma_peer_skipped(PeerLaneView { at: lane.at + 1, ..lane });
    }
}

proof fn lemma_peer_moved(lane: PeerLaneView)
    requires
        lane.at < lane.tasks.len(),
    ensures
        lane.moved().at > lane.at,
        lane.moved().at <= lane.tasks.len(),
        lane.moved().tasks == lane.tasks,
        lane.moved().failure == lane.failure,
        forall|k: int|
            lane.at < k < lane.moved().at ==> peer_rounds(#[trigger] lane.tasks[k]) == 0,
{
    lemma_peer_skipped(
        PeerLaneView { at: lane.at + 1, round: 0, received: Seq::empty(), ..lane },
    );
}

/// Whether an exchange has left the task it was at behind it, and has not failed.
pub open spec fn peer_passed(before: PeerLaneView, after: PeerLaneView) -> bool {
    after.failure is None && after.at > before.at
}

/// The end of the inbound items passes a task that waits for it, and the rendezvous; where a
/// message is still due, it is a failure.
pub proof fn peer_ends_are_judged(lane: PeerLaneView)
    requires
        lane.busy(),
    ensures
        ({
            let next = peer_judged(lane, PeerReply::Ended);
            match lane.task() {
                PeerTask::Expect(_, _) => next.failure == Some("receive: closed"@),
                PeerTask::ReceiveAll { .. } => next.failure == Some("receive: closed"@),
                PeerTask::AwaitClose => peer_passed(lane, next),
                PeerTask::ExpectClose => peer_passed(lane, next),
                PeerTask::AwaitSentinel => peer_passed(lane, next),
                PeerTask::Pause(_) => peer_passed(lane, next),
                PeerTask::Close => peer_passed(lane, next),
                _ => next == lane,
            }
        }),
{
    lemma_peer_moved(lane);
}

/// A message is judged by its contents: the one that is expected and no other is taken for
/// it, a corpus is passed with its last message if it is whole, none may come where the close
/// is due, and where a close or the rendezvous is awaited any other message is passed by.
pub proof fn peer_messages_are_judged(lane: PeerLaneView, binary: bool, data: Vec<u8>)
    requires
        lane.busy(),
    ensures
        ({
            let next = peer_judged(lane, PeerReply::Message { binary, data });
            let got = lane.received.push(data@);
            match lane.task() {
                PeerTask::Expect(payload, detail) => if match message_of(payload) {
                    MessageView::Binary(bytes) => binary && data@ == bytes,
                    MessageView::Text(text) => !binary && data@ == encode_utf8(text),
                } {
                    peer_passed(lane, next)
                } else {
                    next.failure == Some(detail@)
                },
                PeerTask::ReceiveAll { count, ordered } => if got.len() < count {
                    next == PeerLaneView { received: got, ..lane }
                } else if whole(got, count as nat, ordered) {
                    peer_passed(lane, next)
                } else {
                    next.failure is Some
                },
                PeerTask::ExpectClose => next.failure == Some("received past the peer's close"@),
                PeerTask::AwaitSentinel => if data@ == SENTINEL@ {
                    peer_passed(lane, next)
                } else {
                    next == lane
                },
                PeerTask::Pause(_) => peer_passed(lane, next),
                PeerTask::Close => peer_passed(lane, next),
                _ => next == lane,
            }
        }),
{
    lemma_peer_moved(lane);
    if let PeerTask::ReceiveAll { count, ordered } = lane.task() {
        lemma_in_turn_is_whole(lane.received.push(data@), count as nat, ordered);
    }
}

proof fn lemma_in_turn_is_whole(got: Seq<Seq<u8>>, count: nat, ordered: bool)
    ensures
        in_turn_verdict(got, count, ordered) is Ok <==> whole(got, count, ordered),
{
    ordered_check_is_exact(got, count);
    if whole(got, count, ordered) && ordered {
        assert(forall|i: int| 0 <= i < count ==> intact(#[trigger] got[i]) && in_place(got, i));
    }
    if in_turn_verdict(got, count, ordered) is Ok {
        assert forall|i: int| 0 <= i < got.len() implies intact(#[trigger] got[i]) && (ordered
            ==> index_in(got[i]) is Some && index_in(got[i])->Some_0 == i) by {
            if ordered {
                assert(in_place(got, i));
            }
        }
    }
}

/// A send that fails is a failure, except that of the rendezvous: there the peer has already
/// left, and the exchange is over. A send that succeeds leads on, the corpus only with its
/// last message and the pause behind it.
pub proof fn peer_sends_are_judged(lane: PeerLaneView, why: String)
    requires
        lane.busy(),
    ensures
        ({
            let failed = peer_judged(lane, PeerReply::SendFailed(why));
            match lane.task() {
                PeerTask::Send(_) => failed.failure == Some("send: "@ + why@),
                PeerTask::SendAll { .. } => failed.failure == Some("send: "@ + why@),
                PeerTask::Announce => failed.failure is None && failed.at == lane.tasks.len(),
                PeerTask::Pause(_) => peer_passed(lane, failed),
                PeerTask::Close => peer_passed(lane, failed),
                _ => failed == lane,
            }
        }),
        ({
            let done = peer_judged(lane, PeerReply::Done);
            match lane.task() {
                PeerTask::Send(_) => peer_passed(lane, done),
                PeerTask::SendAll { count, pause_ms, .. } => {
                    let calls = if pause_ms == 0 {
                        count as int
                    } else {
                        2 * count
                    };
                    if lane.round + 1 < calls {
                        done == PeerLaneView { round: lane.round + 1, ..lane }
                    } else {
                        peer_passed(lane, done)
                    }
                },
                PeerTask::Announce => peer_passed(lane, done),
                PeerTask::Pause(_) => peer_passed(lane, done),
                PeerTask::Close => peer_passed(lane, done),
                _ => done == lane,
            }
        }),
{
    lemma_peer_moved(lane);
}

/// The label must be the one that was negotiated.
pub proof fn peer_labels_are_judged(lane: PeerLaneView, label: String)
    requires
        lane.busy(),
        lane.task() is CheckLabel,
    ensures
        peer_passed(lane, peer_judged(lane, PeerReply::Label(label))) <==> label@ == "conformance"@,
        label@ != "conformance"@ ==> peer_judged(lane, PeerReply::Label(label)).failure == Some(
            "label was "@ + debug_text(label@) + ", expected "@ + debug_text("conformance"@),
        ),
{
    lemma_peer_moved(lane);
}

/// An exchange that has failed or is through takes no notice of replies.
pub proof fn ended_exchange_stays_ended(lane: PeerLaneView, replies: Seq<PeerReply>)
    requires
        lane.failure is Some || lane.at >= lane.tasks.len(),
    ensures
        run_peer(lane, replies) == lane,
    decreases replies.len(),
{
    if replies.len() > 0 {
        ended_exchange_stays_ended(lane, replies.drop_first());
    }
}

/// No task is passed over that has something to do, whatever the reply: past a task stands the
/// next one, unless that is an empty corpus, or the rendezvous found the peer gone.
pub proof fn peer_tasks_are_taken_in_turn(lane: PeerLaneView, reply: PeerReply)
    requires
        lane.busy(),
        peer_passed(lane, peer_judged(lane, reply)),
        !(lane.task() is Announce && reply is SendFailed),
    ensures
        ({
            let next = peer_judged(lane, reply);
            &&& next.tasks == lane.tasks
            &&& next.at <= lane.tasks.len()
            &&& forall|k: int|
                lane.at < k < next.at ==> match #[trigger] lane.tasks[k] {
                    PeerTask::SendAll { count, .. } => count == 0,
                    PeerTask::ReceiveAll { count, .. } => count == 0,
                    _ => false,
                }
        }),
{
    lemma_peer_moved(lane);
    let next = peer_judged(lane, reply);
    assert forall|k: int| lane.at < k < next.at implies match #[trigger] lane.tasks[k] {
        PeerTask::SendAll { count, .. } => count == 0,
        PeerTask::ReceiveAll { count, .. } => count == 0,
        _ => false,
    } by {
        assert(peer_rounds(lane.tasks[k]) == 0);
    }
}

/// The calls of a task are what it stands for: a corpus is sent payload by payload, each with
/// its place as its index.
pub proof fn peer_calls_are_those_of_their_tasks(task: PeerTask, round: nat)
    requires
        round <= u32::MAX,
    ensures
        match task {
            PeerTask::CheckLabel => peer_call(task, round) is Label,
            PeerTask::Send(payload) => peer_call(task, round) == PeerCall::Send(payload),
            PeerTask::SendAll { size, pause_ms, .. } => if pause_ms == 0 {
                peer_call(task, round) matches PeerCall::Send(sent) && message_of(sent)
                    == MessageView::Binary(payload(round as u32, size))
            } else if round % 2 == 0 {
                peer_call(task, round) matches PeerCall::Send(sent) && message_of(sent)
                    == MessageView::Binary(payload((round / 2) as u32, size))
            } else {
                peer_call(task, round) == PeerCall::Pause(pause_ms)
            },
            PeerTask::Announce => peer_call(task, round) matches PeerCall::Send(sent)
                && message_of(sent) == MessageView::Binary(SENTINEL@),
            PeerTask::Pause(ms) => peer_call(task, round) == PeerCall::Pause(ms),
            PeerTask::Close => peer_call(task, round) is Close,
            _ => peer_call(task, round) is Receive,
        },
{
}

/// The data of the messages among some replies, in order.
pub open spec fn data_in(replies: Seq<PeerReply>) -> Seq<Seq<u8>>
    decreases replies.len(),
{
    if replies.len() == 0 {
        Seq::empty()
    } else {
        match replies[0] {
            PeerReply::Message { data, .. } => seq![data@] + data_in(replies.drop_first()),
            _ => data_in(replies.drop_first()),
        }
    }
}

/// Whatever the replies, an exchange gets past a corpus only if the messages that came, before
/// the inbound items ended, are the whole of it.
pub proof fn receiving_takes_the_whole_corpus(lane: PeerLaneView, replies: Seq<PeerReply>)
    requires
        lane.busy(),
        lane.task() is ReceiveAll,
        lane.received.len() < lane.task()->ReceiveAll_count,
        peer_passed(lane, run_peer(lane, replies)),
    ensures
        exists|n: int|
            0 <= n <= replies.len() && whole(
                lane.received + data_in(#[trigger] replies.take(n)),
                lane.task()->ReceiveAll_count as nat,
                lane.task()->ReceiveAll_ordered,
            ) && forall|i: int| 0 <= i < n ==> !(#[trigger] replies[i] is Ended),
    decreases replies.len(),
{
    let count = lane.task()->ReceiveAll_count as nat;
    let ordered = lane.task()->ReceiveAll_ordered;
    if replies.len() > 0 {
        let first = replies[0];
        let rest = replies.drop_first();
        let next = peer_judged(lane, first);
        lemma_peer_moved(lane);
        if next.failure is Some {
            ended_exchange_stays_ended(next, rest);
        }
        if let PeerReply::Message { binary, data } = first {
            peer_messages_are_judged(lane, binary, data);
            if lane.received.len() + 1 >= count {
                assert(replies.take(1).drop_first() =~= Seq::<PeerReply>::empty());
                assert(data_in(replies.take(1)) =~= seq![data@]) by {
                    reveal_with_fuel(data_in, 2);
                }
                assert(lane.received + data_in(replies.take(1)) =~= lane.received.push(data@));
            } else {
                receiving_takes_the_whole_corpus(next, rest);
                let m = choose|n: int|
                    0 <= n <= rest.len() && whole(
                        next.received + data_in(#[trigger] rest.take(n)),
                        count,
                        ordered,
                    ) && forall|i: int| 0 <= i < n ==> !(#[trigger] rest[i] is Ended);
                lemma_one_more(replies, m);
                assert(lane.received + data_in(replies.take(m + 1)) =~= next.received + data_in(
                    rest.take(m),
                ));
            }
        } else {
            assert(next == lane);
            receiving_takes_the_whole_corpus(next, rest);
            let m = choose|n: int|
                0 <= n <= rest.len() && whole(
                    next.received + data_in(#[trigger] rest.take(n)),
                    count,
                    ordered,
                ) && forall|i: int| 0 <= i < n ==> !(#[trigger] rest[i] is Ended);
            lemma_one_more(replies, m);
        }
    }
}

proof fn lemma_one_more(replies: Seq<PeerReply>, m: int)
    requires
        0 <= m < replies.len(),
        !(replies[0] is Ended),
        forall|i: int| 0 <= i < m ==> !(#[trigger] replies.drop_first()[i] is Ended),
    ensures
        data_in(replies.take(m + 1)) == match replies[0] {
            PeerReply::Message { data, .. } => seq![data@] + data_in(replies.drop_first().take(m)),
            _ => data_in(replies.drop_first().take(m)),
        },
        forall|i: int| 0 <= i < m + 1 ==> !(#[trigger] replies[i] is Ended),
{
    assert(replies.take(m + 1).drop_first() =~= replies.drop_first().take(m));
    assert(replies.take(m + 1)[0] == replies[0]);
    assert forall|i: int| 0 <= i < m + 1 implies !(#[trigger] replies[i] is Ended) by {
        if i > 0 {
            assert(replies.drop_first()[i - 1] == replies[i]);
        }
    }
}

proof fn lemma_peer_flushed(lane: PeerLaneView, replies: Seq<PeerReply>, n: u32)
    requires
        lane.tasks == seq![
            PeerTask::ReceiveAll { count: n, ordered: false },
            PeerTask::ExpectClose,
        ],
        lane.at == 0,
        lane.failure is None,
        lane.received.len() < n,
        forall|i: int| 0 <= i < lane.received.len() ==> intact(#[trigger] lane.received[i]),
        replies.len() > 0,
        replies.last() is Ended,
        forall|i: int|
            0 <= i < replies.len() - 1 ==> (#[trigger] replies[i] matches PeerReply::Message {
                data,
                ..
            } && intact(data@)),
    ensures
        ({
            let k = lane.received.len() + replies.len() - 1;
            let ended = run_peer(lane, replies);
            &&& k < n ==> ended.failure == Some("receive: closed"@)
            &&& k == n ==> ended.failure is None && ended.at == 2
            &&& k > n ==> ended.failure is Some
        }),
    decreases replies.len(),
{
    let rest = replies.drop_first();
    let next = peer_judged(lane, replies[0]);
    reveal_with_fuel(peer_skipped, 2);
    assert(lane.task() == lane.tasks[0]);
    if replies.len() == 1 {
        assert(replies[0] is Ended);
        assert(run_peer(next, rest) == next);
    } else {
        assert(rest.last() == replies.last());
        assert forall|i: int| 0 <= i < rest.len() - 1 implies (
        #[trigger] rest[i] matches PeerReply::Message { data, .. } && intact(data@)) by {
            assert(rest[i] == replies[i + 1]);
        }
        let got = match replies[0] {
            PeerReply::Message { data, .. } => lane.received.push(data@),
            _ => lane.received,
        };
        assert(replies[0] is Message);
        if got.len() < n {
            lemma_peer_flushed(next, rest, n);
        } else {
            lemma_in_turn_is_whole(got, n as nat, false);
            assert(whole(got, n as nat, false));
            assert(next == lane.moved());
            assert(next.at == 1);
            assert(next.task() == lane.tasks[1]);
            let after = peer_judged(next, rest[0]);
            if rest.len() == 1 {
                assert(rest[0] is Ended);
                reveal_with_fuel(run_peer, 3);
                assert(rest.drop_first().len() == 0);
                assert(after.at == 2);
            } else {
                assert(rest[0] is Message);
                ended_exchange_stays_ended(after, rest.drop_first());
            }
        }
    }
}

/// The reference peer holds its partner to a close that flushes: an answerer that gets some
/// payloads and then the close passes exactly if they are as many as were sent.
pub proof fn reference_demands_the_flush(count: u32, size: u32, replies: Seq<PeerReply>)
    requires
        replies.len() > 0,
        replies.last() is Ended,
        forall|i: int|
            0 <= i < replies.len() - 1 ==> (#[trigger] replies[i] matches PeerReply::Message {
                data,
                ..
            } && intact(data@)),
    ensures
        ({
            let tasks = peer_exchange(
                "channel-close-flush"@,
                PeerRole::Answerer,
                count,
                size,
            )->Ok_0;
            let ended = run_peer(PeerLaneView::start(tasks), replies);
            let due = if count < 1 {
                1
            } else {
                count as int
            };
            &&& ended.failure is None <==> replies.len() - 1 == due
            &&& replies.len() - 1 == due ==> ended.at == tasks.len()
            &&& replies.len() - 1 < due ==> ended.failure == Some("receive: closed"@)
        }),
{
    reveal_strlit("channel-close-flush");
    reveal_strlit("label-round-trip");
    reveal_strlit("binary-message");
    reveal_strlit("text-message");
    reveal_strlit("zero-length-message");
    reveal_strlit("large-message");
    reveal_strlit("max-retransmits-accepted");
    reveal_strlit("concurrent-send-receive");
    reveal_strlit("message-boundaries");
    reveal_strlit("ordering");
    reveal_strlit("payload-integrity");
    reveal_strlit("interop-handshake");
    let n = at_least(count, 1);
    let id = "channel-close-flush"@;
    assert(id[0] == 'c' && id[1] == 'h');
    assert("concurrent-send-receive"@[1] == 'o');
    let tasks = peer_exchange(id, PeerRole::Answerer, count, size)->Ok_0;
    assert(tasks =~= seq![
        PeerTask::ReceiveAll { count: n, ordered: false },
        PeerTask::ExpectClose,
    ]);
    lemma_peer_flushed(PeerLaneView::start(tasks), replies, n);
}

/// How many messages a task takes in.
pub open spec fn peer_due(task: PeerTask) -> nat {
    match task {
        PeerTask::Expect(_, _) => 1,
        PeerTask::ReceiveAll { count, .. } => count as nat,
        _ => 0,
    }
}

/// How many messages an exchange takes in.
pub open spec fn peer_due_in_all(tasks: Seq<PeerTask>) -> nat
    decreases tasks.len(),
{
    if tasks.len() == 0 {
        0
    } else {
        peer_due(tasks[0]) + peer_due_in_all(tasks.drop_first())
    }
}

/// An exchange takes in as many messages as it sends, and each that it sends by itself is the
/// one it then expects, in the same order; a corpus must come in order where order is what is
/// tested.
pub proof fn reference_expects_what_it_sends(id: Seq<char>, me: PeerRole, count: u32, size: u32)
    requires
        exchange_phase(id, me, count, size) is Some,
    ensures
        ({
            let tasks = peer_exchange(id, me, count, size)->Ok_0;
            &&& peer_exchange(id, me, count, size) is Ok
            &&& peer_due_in_all(tasks) == peer_sent_by_all(tasks).len()
            &&& !(tasks[0] is SendAll) ==> peer_expected_by_all(tasks) == peer_sent_by_all(tasks)
            &&& forall|i: int|
                0 <= i < tasks.len() ==> (#[trigger] tasks[i] matches PeerTask::ReceiveAll {
                    ordered,
                    ..
                } ==> ordered == (id == "ordering"@))
            &&& id == "label-round-trip"@ ==> tasks.len() > 0 && tasks[0] is CheckLabel
            &&& id != "label-round-trip"@ ==> peer_due_in_all(tasks) > 0
        }),
{
    reference_sends_what_the_suite_sends(id, me, count, size);
    let tasks = peer_exchange(id, me, count, size)->Ok_0;
    reveal_with_fuel(peer_due_in_all, 5);
    reveal_with_fuel(peer_sent_by_all, 5);
    reveal_with_fuel(peer_expected_by_all, 5);
    if !(tasks[0] is SendAll) {
        assert(peer_expected_by_all(tasks) =~= peer_sent_by_all(tasks));
    }
}

/// A connection is ready once it is connected; it is given up on once it has failed or closed,
/// and waited for until then.
pub proof fn only_a_connected_connection_is_ready(state: ConnectionState)
    ensures
        connection_look(state) is Ready <==> state is Connected,
        connection_look(state) is Failed <==> state is Failed || state is Closed,
{
}

/// A run of the reference peer passes in one way only; a failure is reported with its error,
/// and a run that took too long as such.
pub proof fn reference_reports_how_it_ended(end: PeerEnd)
    ensures
        peer_outcome_of(end) is Pass <==> end is Passed,
        end matches PeerEnd::Failed(error) ==> peer_outcome_of(end) == OutcomeView::Fail(error@),
        end is TimedOut ==> peer_outcome_of(end) is Fail,
{
}

/// The rendezvous announces first and then waits, so that two peers that both hold it meet.
pub proof fn rendezvous_announces_before_it_waits()
    ensures
        peer_barrier().len() == 2,
        peer_barrier()[0] is Announce,
        peer_barrier()[1] is AwaitSentinel,
{
}

} // verus!
