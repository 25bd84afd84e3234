//! The reference peer's half of the handshake: from a fresh connection, over the
//! signaling mailbox, to a connected peer with an open data channel.
//!
//! Errors of the peer's own stack and of the mailbox arrive as text and are passed
//! on as they are.

use vstd::prelude::*;

use crate::json::opt_view;
use crate::lab::PeerRole;
use crate::reference::{
    adopt_candidate, adopted, announce, announced, connection_look, look_connected, Look, LookView,
    OpenWait, RawCandidate, RawCandidateView, OPEN_PAUSE_MS, OPEN_POLLS,
};
use crate::signaling::{not_an_offer, offer_missing, Signal};
use crate::wire::{ConnectionState, DataChannelState, SdpType};

verus! {

/// What to do next.
#[derive(Debug)]
pub enum PeerAsk {
    /// Create the test's data channel and forward what it receives.
    CreateChannel,
    /// Create an offer, or an answer.
    CreateDescription(SdpType),
    /// Set the description that was created as the local one.
    SetLocal,
    /// Read a remote description and set it.
    SetRemote(SdpType, String),
    /// Send a signal to the own mailbox.
    Send(Signal),
    /// Take the next gathered candidate.
    NextCandidate,
    /// Mark the own mailbox as done.
    MarkDone,
    /// Receive the next signal from the peer's mailbox.
    Receive,
    /// Read a remote candidate and add it.
    AddCandidate(RawCandidate),
    /// Take the channel the peer opened.
    Incoming,
    /// Look at the connection's state, now or, if it was looked at before, when it
    /// has changed.
    LookConnection { changed: bool },
    /// Look at the channel's state, after a pause of some milliseconds.
    LookChannel { pause_ms: u64 },
}

/// What came of it.
#[derive(Debug)]
pub enum PeerEvent {
    Done,
    /// It failed, for this reason.
    Failed(String),
    /// A description or a candidate could not be read, for this reason.
    Unparsable(String),
    /// A description was created, with this text.
    Described(String),
    /// The next gathered candidate; none once gathering is complete.
    Candidate(Option<RawCandidate>),
    /// The next signal; none once the peer's mailbox is done.
    Received(Option<Signal>),
    /// Whether the peer opened a channel.
    Opened(bool),
    /// The connection's state.
    Connection(ConnectionState),
    /// The connection's state can no longer be watched, for this reason.
    Unwatched(String),
    /// The channel's state.
    Channel(DataChannelState),
}

/// Where the handshake stands.
#[derive(Debug)]
pub enum PeerStage {
    Creating,
    AwaitingOffer,
    ApplyingOffer,
    Describing,
    Setting(String),
    PublishingDescription,
    Gathering,
    PublishingCandidate,
    PublishingEnd,
    Marking,
    Consuming,
    ApplyingAnswer,
    ApplyingCandidate,
    Adopting,
    Connecting,
    Opening(OpenWait),
    Over,
}

/// Where the handshake stands.
pub enum PeerStageView {
    Creating,
    AwaitingOffer,
    ApplyingOffer,
    Describing,
    Setting(Seq<char>),
    PublishingDescription,
    Gathering,
    PublishingCandidate,
    PublishingEnd,
    Marking,
    Consuming,
    ApplyingAnswer,
    ApplyingCandidate,
    Adopting,
    Connecting,
    /// So many looks at the channel have been taken.
    Opening(nat),
    Over,
}

impl View for PeerStage {
    type V = PeerStageView;

    open spec fn view(&self) -> PeerStageView {
        match self {
            PeerStage::Creating => PeerStageView::Creating,
            PeerStage::AwaitingOffer => PeerStageView::AwaitingOffer,
            PeerStage::ApplyingOffer => PeerStageView::ApplyingOffer,
            PeerStage::Describing => PeerStageView::Describing,
            PeerStage::Setting(sdp) => PeerStageView::Setting(sdp@),
            PeerStage::PublishingDescription => PeerStageView::PublishingDescription,
            PeerStage::Gathering => PeerStageView::Gathering,
            PeerStage::PublishingCandidate => PeerStageView::PublishingCandidate,
            PeerStage::PublishingEnd => PeerStageView::PublishingEnd,
            PeerStage::Marking => PeerStageView::Marking,
            PeerStage::Consuming => PeerStageView::Consuming,
            PeerStage::ApplyingAnswer => PeerStageView::ApplyingAnswer,
            PeerStage::ApplyingCandidate => PeerStageView::ApplyingCandidate,
            PeerStage::Adopting => PeerStageView::Adopting,
            PeerStage::Connecting => PeerStageView::Connecting,
            PeerStage::Opening(wait) => PeerStageView::Opening(wait.taken()),
            PeerStage::Over => PeerStageView::Over,
        }
    }
}

/// What follows an event.
#[derive(Debug)]
pub enum PeerMove {
    /// Do this next.
    Ask(PeerAsk),
    /// The peer is connected and its channel is open.
    Connected,
    /// The handshake failed with this error.
    Failed(String),
    /// The event answers nothing that was asked.
    Stay,
}

/// What to do next.
pub enum PeerAskView {
    CreateChannel,
    CreateDescription(SdpType),
    SetLocal,
    SetRemote(SdpType, Seq<char>),
    SendDescription(SdpType, Seq<char>),
    SendCandidate(Seq<char>, Option<Seq<char>>, Option<u16>),
    SendEnd,
    NextCandidate,
    MarkDone,
    Receive,
    AddCandidate(RawCandidateView),
    Incoming,
    LookConnection { changed: bool },
    LookChannel { pause_ms: u64 },
}

/// What follows an event.
pub enum PeerMoveView {
    Ask(PeerAskView),
    Connected,
    Failed(Seq<char>),
    Stay,
}

/// What sending a signal amounts to.
pub open spec fn send_view(signal: Signal) -> PeerAskView {
    match signal {
        Signal::Offer { sdp } => PeerAskView::SendDescription(SdpType::Offer, sdp@),
        Signal::Answer { sdp } => PeerAskView::SendDescription(SdpType::Answer, sdp@),
        Signal::Candidate { candidate, sdp_mid, sdp_mline_index } => PeerAskView::SendCandidate(
            candidate@,
            opt_view(sdp_mid),
            sdp_mline_index,
        ),
        Signal::EndOfCandidates => PeerAskView::SendEnd,
    }
}

impl View for PeerAsk {
    type V = PeerAskView;

    open spec fn view(&self) -> PeerAskView {
        match *self {
            PeerAsk::CreateChannel => PeerAskView::CreateChannel,
            PeerAsk::CreateDescription(kind) => PeerAskView::CreateDescription(kind),
            PeerAsk::SetLocal => PeerAskView::SetLocal,
            PeerAsk::SetRemote(kind, sdp) => PeerAskView::SetRemote(kind, sdp@),
            PeerAsk::Send(signal) => send_view(signal),
            PeerAsk::NextCandidate => PeerAskView::NextCandidate,
            PeerAsk::MarkDone => PeerAskView::MarkDone,
            PeerAsk::Receive => PeerAskView::Receive,
            PeerAsk::AddCandidate(candidate) => PeerAskView::AddCandidate(candidate@),
            PeerAsk::Incoming => PeerAskView::Incoming,
            PeerAsk::LookConnection { changed } => PeerAskView::LookConnection { changed },
            PeerAsk::LookChannel { pause_ms } => PeerAskView::LookChannel { pause_ms },
        }
    }
}

impl View for PeerMove {
    type V = PeerMoveView;

    open spec fn view(&self) -> PeerMoveView {
        match self {
            PeerMove::Ask(ask) => PeerMoveView::Ask(ask@),
            PeerMove::Connected => PeerMoveView::Connected,
            PeerMove::Failed(detail) => PeerMoveView::Failed(detail@),
            PeerMove::Stay => PeerMoveView::Stay,
        }
    }
}

/// What follows a look at an awaited connection.
pub open spec fn connection_move(state: ConnectionState) -> (PeerStageView, PeerMoveView) {
    match connection_look(state) {
        LookView::Ready => (
            PeerStageView::Opening(0),
            PeerMoveView::Ask(PeerAskView::LookChannel { pause_ms: 0 }),
        ),
        LookView::Wait => (
            PeerStageView::Connecting,
            PeerMoveView::Ask(PeerAskView::LookConnection { changed: true }),
        ),
        LookView::Failed(why) => (PeerStageView::Over, PeerMoveView::Failed(why)),
    }
}

/// What follows a look at a channel that has been looked at so often before.
pub open spec fn channel_move(taken: nat, state: DataChannelState) -> (
    PeerStageView,
    PeerMoveView,
) {
    if taken == OPEN_POLLS {
        (PeerStageView::Over, PeerMoveView::Failed("channel did not open"@))
    } else {
        match state {
            DataChannelState::Open => (PeerStageView::Over, PeerMoveView::Connected),
            DataChannelState::Connecting => (
                PeerStageView::Opening(taken + 1),
                PeerMoveView::Ask(PeerAskView::LookChannel { pause_ms: OPEN_PAUSE_MS }),
            ),
            _ => (PeerStageView::Over, PeerMoveView::Failed("channel closed before open"@)),
        }
    }
}

/// The words in front of a text that could not be read at a stage.
pub open spec fn parse_prefix(stage: PeerStageView) -> Option<Seq<char>> {
    match stage {
        PeerStageView::ApplyingOffer => Some("parse offer: "@),
        PeerStageView::ApplyingAnswer => Some("parse answer: "@),
        PeerStageView::ApplyingCandidate => Some("parse candidate: "@),
        _ => None,
    }
}

/// Whether an error can come at a stage.
pub open spec fn peer_can_fail(stage: PeerStageView) -> bool {
    match stage {
        PeerStageView::Gathering => false,
        PeerStageView::Adopting => false,
        PeerStageView::Connecting => false,
        PeerStageView::Opening(_) => false,
        PeerStageView::Over => false,
        _ => true,
    }
}

/// What follows an event at a stage.
pub open spec fn peer_stepped(role: PeerRole, stage: PeerStageView, event: PeerEvent) -> (
    PeerStageView,
    PeerMoveView,
) {
    match (stage, event) {
        (PeerStageView::Creating, PeerEvent::Done) => (
            PeerStageView::Describing,
            PeerMoveView::Ask(PeerAskView::CreateDescription(SdpType::Offer)),
        ),
        (PeerStageView::AwaitingOffer, PeerEvent::Received(Some(Signal::Offer { sdp }))) => (
            PeerStageView::ApplyingOffer,
            PeerMoveView::Ask(PeerAskView::SetRemote(SdpType::Offer, sdp@)),
        ),
        (PeerStageView::AwaitingOffer, PeerEvent::Received(other)) => (
            PeerStageView::Over,
            PeerMoveView::Failed(not_an_offer(other)),
        ),
        (PeerStageView::ApplyingOffer, PeerEvent::Done) => (
            PeerStageView::Describing,
            PeerMoveView::Ask(PeerAskView::CreateDescription(SdpType::Answer)),
        ),
        (PeerStageView::Describing, PeerEvent::Described(sdp)) => (
            PeerStageView::Setting(sdp@),
            PeerMoveView::Ask(PeerAskView::SetLocal),
        ),
        (PeerStageView::Setting(sdp), PeerEvent::Done) => (
            PeerStageView::PublishingDescription,
            PeerMoveView::Ask(
                PeerAskView::SendDescription(crate::handshake::own_kind(role), sdp),
            ),
        ),
        (PeerStageView::PublishingDescription, PeerEvent::Done) => (
            PeerStageView::Gathering,
            PeerMoveView::Ask(PeerAskView::NextCandidate),
        ),
        (PeerStageView::Gathering, PeerEvent::Candidate(Some(candidate))) => (
            PeerStageView::PublishingCandidate,
            PeerMoveView::Ask(send_view(announced(candidate))),
        ),
        (PeerStageView::Gathering, PeerEvent::Candidate(None)) => (
            PeerStageView::PublishingEnd,
            PeerMoveView::Ask(PeerAskView::SendEnd),
        ),
        (PeerStageView::PublishingCandidate, PeerEvent::Done) => (
            PeerStageView::Gathering,
            PeerMoveView::Ask(PeerAskView::NextCandidate),
        ),
        (PeerStageView::PublishingEnd, PeerEvent::Done) => (
            PeerStageView::Marking,
            PeerMoveView::Ask(PeerAskView::MarkDone),
        ),
        (PeerStageView::Marking, PeerEvent::Done) => (
            PeerStageView::Consuming,
            PeerMoveView::Ask(PeerAskView::Receive),
        ),
        (PeerStageView::Consuming, PeerEvent::Received(None)) => match role {
            PeerRole::Offerer => (
                PeerStageView::Connecting,
                PeerMoveView::Ask(PeerAskView::LookConnection { changed: false }),
            ),
            PeerRole::Answerer => (
                PeerStageView::Adopting,
                PeerMoveView::Ask(PeerAskView::Incoming),
            ),
        },
        (PeerStageView::Consuming, PeerEvent::Received(Some(Signal::Answer { sdp }))) => (
            PeerStageView::ApplyingAnswer,
            PeerMoveView::Ask(PeerAskView::SetRemote(SdpType::Answer, sdp@)),
        ),
        (PeerStageView::Consuming, PeerEvent::Received(Some(Signal::Offer { .. }))) => (
            PeerStageView::Over,
            PeerMoveView::Failed("unexpected second offer"@),
        ),
        (
            PeerStageView::Consuming,
            PeerEvent::Received(Some(Signal::Candidate { candidate, sdp_mid, sdp_mline_index })),
        ) => (
            PeerStageView::ApplyingCandidate,
            PeerMoveView::Ask(
                PeerAskView::AddCandidate(
                    adopted(candidate@, opt_view(sdp_mid), sdp_mline_index),
                ),
            ),
        ),
        (PeerStageView::Consuming, PeerEvent::Received(Some(Signal::EndOfCandidates))) => (
            PeerStageView::Consuming,
            PeerMoveView::Ask(PeerAskView::Receive),
        ),
        (PeerStageView::ApplyingAnswer, PeerEvent::Done) => (
            PeerStageView::Consuming,
            PeerMoveView::Ask(PeerAskView::Receive),
        ),
        (PeerStageView::ApplyingCandidate, PeerEvent::Done) => (
            PeerStageView::Consuming,
            PeerMoveView::Ask(PeerAskView::Receive),
        ),
        (PeerStageView::Adopting, PeerEvent::Opened(true)) => (
            PeerStageView::Connecting,
            PeerMoveView::Ask(PeerAskView::LookConnection { changed: false }),
        ),
        (PeerStageView::Adopting, PeerEvent::Opened(false)) => (
            PeerStageView::Over,
            PeerMoveView::Failed("no incoming data channel"@),
        ),
        (PeerStageView::Connecting, PeerEvent::Connection(state)) => connection_move(state),
        (PeerStageView::Connecting, PeerEvent::Unwatched(why)) => (
            PeerStageView::Over,
            PeerMoveView::Failed("connection state watch ended: "@ + why@),
        ),
        (PeerStageView::Opening(taken), PeerEvent::Channel(state)) => channel_move(taken, state),
        (stage, PeerEvent::Failed(why)) => if peer_can_fail(stage) {
            (PeerStageView::Over, PeerMoveView::Failed(why@))
        } else {
            (stage, PeerMoveView::Stay)
        },
        (stage, PeerEvent::Unparsable(why)) => match parse_prefix(stage) {
            Some(prefix) => (PeerStageView::Over, PeerMoveView::Failed(prefix + why@)),
            None => (stage, PeerMoveView::Stay),
        },
        (stage, _) => (stage, PeerMoveView::Stay),
    }
}

/// The reference peer's half of the handshake.
#[derive(Debug)]
pub struct Rendezvous {
    role: PeerRole,
    stage: PeerStage,
}

impl Rendezvous {
    /// The half this is.
    pub closed spec fn half(self) -> PeerRole {
        self.role
    }

    /// Where it stands.
    pub closed spec fn stands(self) -> PeerStageView {
        self.stage@
    }

    /// A state the handshake can be in.
    pub open spec fn valid(self) -> bool {
        self.stands() matches PeerStageView::Opening(taken) ==> taken <= OPEN_POLLS
    }

    /// Begin the handshake, with the first thing to do.
    pub fn begin(role: PeerRole) -> (r: (Rendezvous, PeerAsk))
        ensures
            r.0.half() == role,
            r.0.valid(),
            match role {
                PeerRole::Offerer => r.0.stands() is Creating && r.1@ is CreateChannel,
                PeerRole::Answerer => r.0.stands() is AwaitingOffer && r.1@ is Receive,
            },
    {
        match role {
            PeerRole::Offerer => (
                Rendezvous { role, stage: PeerStage::Creating },
                PeerAsk::CreateChannel,
            ),
            PeerRole::Answerer => (
                Rendezvous { role, stage: PeerStage::AwaitingOffer },
                PeerAsk::Receive,
            ),
        }
    }

    fn after_connection(state: ConnectionState) -> (r: (PeerStage, PeerMove))
        ensures
            (r.0@, r.1@) == connection_move(state),
    {
        match look_connected(state) {
            Look::Ready => (
                PeerStage::Opening(OpenWait::new()),
                PeerMove::Ask(PeerAsk::LookChannel { pause_ms: 0 }),
            ),
            Look::Wait => (
                PeerStage::Connecting,
                PeerMove::Ask(PeerAsk::LookConnection { changed: true }),
            ),
            Look::Failed(why) => (PeerStage::Over, PeerMove::Failed(why)),
        }
    }

    fn after_channel(wait: OpenWait, state: DataChannelState) -> (r: (PeerStage, PeerMove))
        requires
            wait.taken() <= OPEN_POLLS,
        ensures
            (r.0@, r.1@) == channel_move(wait.taken(), state),
    {
        let mut wait = wait;
        match wait.look(state) {
            Look::Ready => (PeerStage::Over, PeerMove::Connected),
            Look::Wait => (
                PeerStage::Opening(wait),
                PeerMove::Ask(PeerAsk::LookChannel { pause_ms: OPEN_PAUSE_MS }),
            ),
            Look::Failed(why) => (PeerStage::Over, PeerMove::Failed(why)),
        }
    }

    /// Take what came of what was asked.
    pub fn step(self, event: PeerEvent) -> (r: (Rendezvous, PeerMove))
        requires
            self.valid(),
        ensures
            r.0.valid(),
            r.0.half() == self.half(),
            (r.0.stands(), r.1@) == peer_stepped(self.half(), self.stands(), event),
    {
        let role = self.role;
        let (stage, next) = match (self.stage, event) {
            (PeerStage::Creating, PeerEvent::Done) => (
                PeerStage::Describing,
                PeerMove::Ask(PeerAsk::CreateDescription(SdpType::Offer)),
            ),
            (PeerStage::AwaitingOffer, PeerEvent::Received(Some(Signal::Offer { sdp }))) => (
                PeerStage::ApplyingOffer,
                PeerMove::Ask(PeerAsk::SetRemote(SdpType::Offer, sdp)),
            ),
            (PeerStage::AwaitingOffer, PeerEvent::Received(other)) => (
                PeerStage::Over,
                PeerMove::Failed(offer_missing(&other)),
            ),
            (PeerStage::ApplyingOffer, PeerEvent::Done) => (
                PeerStage::Describing,
                PeerMove::Ask(PeerAsk::CreateDescription(SdpType::Answer)),
            ),
            (PeerStage::Describing, PeerEvent::Described(sdp)) => (
                PeerStage::Setting(sdp),
                PeerMove::Ask(PeerAsk::SetLocal),
            ),
            (PeerStage::Setting(sdp), PeerEvent::Done) => (
                PeerStage::PublishingDescription,
                PeerMove::Ask(
                    PeerAsk::Send(
                        match role {
                            PeerRole::Offerer => Signal::Offer { sdp },
                            PeerRole::Answerer => Signal::Answer { sdp },
                        },
                    ),
                ),
            ),
            (PeerStage::PublishingDescription, PeerEvent::Done) => (
                PeerStage::Gathering,
                PeerMove::Ask(PeerAsk::NextCandidate),
            ),
            (PeerStage::Gathering, PeerEvent::Candidate(Some(candidate))) => (
                PeerStage::PublishingCandidate,
                PeerMove::Ask(PeerAsk::Send(announce(candidate))),
            ),
            (PeerStage::Gathering, PeerEvent::Candidate(None)) => (
                PeerStage::PublishingEnd,
                PeerMove::Ask(PeerAsk::Send(Signal::EndOfCandidates)),
            ),
            (PeerStage::PublishingCandidate, PeerEvent::Done) => (
                PeerStage::Gathering,
                PeerMove::Ask(PeerAsk::NextCandidate),
            ),
            (PeerStage::PublishingEnd, PeerEvent::Done) => (
                PeerStage::Marking,
                PeerMove::Ask(PeerAsk::MarkDone),
            ),
            (PeerStage::Marking, PeerEvent::Done) => (
                PeerStage::Consuming,
                PeerMove::Ask(PeerAsk::Receive),
            ),
            (PeerStage::Consuming, PeerEvent::Received(None)) => match role {
                PeerRole::Offerer => (
                    PeerStage::Connecting,
                    PeerMove::Ask(PeerAsk::LookConnection { changed: false }),
                ),
                PeerRole::Answerer => (PeerStage::Adopting, PeerMove::Ask(PeerAsk::Incoming)),
            },
            (PeerStage::Consuming, PeerEvent::Received(Some(Signal::Answer { sdp }))) => (
                PeerStage::ApplyingAnswer,
                PeerMove::Ask(PeerAsk::SetRemote(SdpType::Answer, sdp)),
            ),
            (PeerStage::Consuming, PeerEvent::Received(Some(Signal::Offer { .. }))) => (
                PeerStage::Over,
                PeerMove::Failed("unexpected second offer".to_owned()),
            ),
            (
                PeerStage::Consuming,
                PeerEvent::Received(
                    Some(Signal::Candidate { candidate, sdp_mid, sdp_mline_index }),
                ),
            ) => (
                PeerStage::ApplyingCandidate,
                PeerMove::Ask(
                    PeerAsk::AddCandidate(adopt_candidate(candidate, sdp_mid, sdp_mline_index)),
                ),
            ),
            (PeerStage::Consuming, PeerEvent::Received(Some(Signal::EndOfCandidates))) => (
                PeerStage::Consuming,
                PeerMove::Ask(PeerAsk::Receive),
            ),
            (PeerStage::ApplyingAnswer, PeerEvent::Done) => (
                PeerStage::Consuming,
                PeerMove::Ask(PeerAsk::Receive),
            ),
            (PeerStage::ApplyingCandidate, PeerEvent::Done) => (
                PeerStage::Consuming,
                PeerMove::Ask(PeerAsk::Receive),
            ),
            (PeerStage::Adopting, PeerEvent::Opened(true)) => (
                PeerStage::Connecting,
                PeerMove::Ask(PeerAsk::LookConnection { changed: false }),
            ),
            (PeerStage::Adopting, PeerEvent::Opened(false)) => (
                PeerStage::Over,
                PeerMove::Failed("no incoming data channel".to_owned()),
            ),
            (PeerStage::Connecting, PeerEvent::Connection(state)) => Rendezvous::after_connection(
                state,
            ),
            (PeerStage::Connecting, PeerEvent::Unwatched(why)) => (
                PeerStage::Over,
                PeerMove::Failed("connection state watch ended: ".to_owned().concat(why.as_str())),
            ),
            (PeerStage::Opening(wait), PeerEvent::Channel(state)) => Rendezvous::after_channel(
                wait,
                state,
            ),
            (PeerStage::Gathering, PeerEvent::Failed(_)) => (PeerStage::Gathering, PeerMove::Stay),
            (PeerStage::Adopting, PeerEvent::Failed(_)) => (PeerStage::Adopting, PeerMove::Stay),
            (PeerStage::Connecting, PeerEvent::Failed(_)) => (
                PeerStage::Connecting,
                PeerMove::Stay,
            ),
            (PeerStage::Opening(wait), PeerEvent::Failed(_)) => (
                PeerStage::Opening(wait),
                PeerMove::Stay,
            ),
            (PeerStage::Over, PeerEvent::Failed(_)) => (PeerStage::Over, PeerMove::Stay),
            (_, PeerEvent::Failed(why)) => (PeerStage::Over, PeerMove::Failed(why)),
            (PeerStage::ApplyingOffer, PeerEvent::Unparsable(why)) => (
                PeerStage::Over,
                PeerMove::Failed("parse offer: ".to_owned().concat(why.as_str())),
            ),
            (PeerStage::ApplyingAnswer, PeerEvent::Unparsable(why)) => (
                PeerStage::Over,
                PeerMove::Failed("parse answer: ".to_owned().concat(why.as_str())),
            ),
            (PeerStage::ApplyingCandidate, PeerEvent::Unparsable(why)) => (
                PeerStage::Over,
                PeerMove::Failed("parse candidate: ".to_owned().concat(why.as_str())),
            ),
            (stage, _) => (stage, PeerMove::Stay),
        };
        (Rendezvous { role, stage }, next)
    }
}

// ----- laws ----------------------------------------------------------------------------

/// A channel that stays in `connecting` is looked at a bounded number of times: from
/// the look taken so often on, that many more end the wait.
pub proof fn opening_is_bounded(role: PeerRole, taken: nat, looks: Seq<PeerStageView>)
    requires
        taken <= OPEN_POLLS,
        looks.len() == OPEN_POLLS - taken + 2,
        looks[0] == PeerStageView::Opening(taken),
        forall|i: int|
            0 <= i < looks.len() - 1 ==> #[trigger] looks[i + 1] == peer_stepped(
                role,
                looks[i],
                PeerEvent::Channel(DataChannelState::Connecting),
            ).0,
    ensures
        looks.last() is Over,
    decreases OPEN_POLLS - taken,
{
    assert(looks[0int + 1] == peer_stepped(
        role,
        looks[0],
        PeerEvent::Channel(DataChannelState::Connecting),
    ).0);
    if taken < OPEN_POLLS {
        let rest = looks.drop_first();
        assert forall|i: int| 0 <= i < rest.len() - 1 implies #[trigger] rest[i + 1]
            == peer_stepped(
            role,
            rest[i],
            PeerEvent::Channel(DataChannelState::Connecting),
        ).0 by {
            assert(looks[(i + 1) + 1] == peer_stepped(
                role,
                looks[i + 1],
                PeerEvent::Channel(DataChannelState::Connecting),
            ).0);
        }
        opening_is_bounded(role, taken + 1, rest);
    }
}

/// A handshake that is over stays over, whatever comes.
pub proof fn ended_rendezvous_stays_ended(role: PeerRole, event: PeerEvent)
    ensures
        peer_stepped(role, PeerStageView::Over, event) == (
            PeerStageView::Over,
            PeerMoveView::Stay,
        ),
{
}

/// The reference peer is connected in one way only: its channel is seen open, within the looks
/// that are allowed, after the connection was seen established.
pub proof fn rendezvous_connects_only_on_an_open_channel(
    role: PeerRole,
    stage: PeerStageView,
    event: PeerEvent,
)
    ensures
        peer_stepped(role, stage, event).1 is Connected <==> (stage matches PeerStageView::Opening(
            taken,
        ) && taken != OPEN_POLLS && event == PeerEvent::Channel(DataChannelState::Open)),
        peer_stepped(role, stage, event).0 is Opening && !(stage is Opening) ==> stage is Connecting
            && event == PeerEvent::Connection(ConnectionState::Connected),
        peer_stepped(role, stage, event).0 is Connecting && !(stage is Connecting) ==> {
            ||| role is Offerer && stage is Consuming && event == PeerEvent::Received(None)
            ||| stage is Adopting && event == PeerEvent::Opened(true)
        },
        stage is Opening && event is Channel && peer_stepped(role, stage, event).0 is Opening
            ==> event == PeerEvent::Channel(DataChannelState::Connecting),
{
}

/// A step that fails ends the handshake with the reason that was given, and so does what cannot
/// be read; the steps that cannot fail take no notice.
pub proof fn failures_end_the_rendezvous(role: PeerRole, stage: PeerStageView, why: String)
    ensures
        peer_stepped(role, stage, PeerEvent::Failed(why)) == match stage {
            PeerStageView::Gathering => (stage, PeerMoveView::Stay),
            PeerStageView::Adopting => (stage, PeerMoveView::Stay),
            PeerStageView::Connecting => (stage, PeerMoveView::Stay),
            PeerStageView::Opening(_) => (stage, PeerMoveView::Stay),
            PeerStageView::Over => (stage, PeerMoveView::Stay),
            _ => (PeerStageView::Over, PeerMoveView::Failed(why@)),
        },
        peer_stepped(role, stage, PeerEvent::Unparsable(why)) == match stage {
            PeerStageView::ApplyingOffer => (
                PeerStageView::Over,
                PeerMoveView::Failed("parse offer: "@ + why@),
            ),
            PeerStageView::ApplyingAnswer => (
                PeerStageView::Over,
                PeerMoveView::Failed("parse answer: "@ + why@),
            ),
            PeerStageView::ApplyingCandidate => (
                PeerStageView::Over,
                PeerMoveView::Failed("parse candidate: "@ + why@),
            ),
            _ => (stage, PeerMoveView::Stay),
        },
        stage is Connecting ==> peer_stepped(role, stage, PeerEvent::Unwatched(why)).1 is Failed,
{
}

/// A connection that fails or closes before it is established, a channel that closes before it
/// opens, and a channel that never comes, end the handshake as failed.
pub proof fn lost_connections_end_the_rendezvous(role: PeerRole, taken: nat)
    ensures
        forall|state: ConnectionState|
            (#[trigger] peer_stepped(
                role,
                PeerStageView::Connecting,
                PeerEvent::Connection(state),
            )).1 is Failed <==> state is Failed || state is Closed,
        forall|state: DataChannelState|
            taken < OPEN_POLLS ==> ((#[trigger] peer_stepped(
                role,
                PeerStageView::Opening(taken),
                PeerEvent::Channel(state),
            )).1 is Failed <==> state is Closing || state is Closed),
        peer_stepped(role, PeerStageView::Adopting, PeerEvent::Opened(false)).1 is Failed,
{
}

/// What is asked for is what the stage reached is waiting on.
pub proof fn rendezvous_waits_on_what_was_asked(
    role: PeerRole,
    stage: PeerStageView,
    event: PeerEvent,
)
    ensures
        ({
            let (next, follows) = peer_stepped(role, stage, event);
            match follows {
                PeerMoveView::Ask(ask) => match ask {
                    PeerAskView::CreateChannel => false,
                    PeerAskView::CreateDescription(kind) => next is Describing && kind == if stage
                        is Creating {
                        SdpType::Offer
                    } else {
                        SdpType::Answer
                    },
                    PeerAskView::SetLocal => event matches PeerEvent::Described(sdp) && next
                        == PeerStageView::Setting(sdp@),
                    PeerAskView::SetRemote(SdpType::Offer, _) => next is ApplyingOffer,
                    PeerAskView::SetRemote(SdpType::Answer, _) => next is ApplyingAnswer,
                    PeerAskView::SetRemote(_, _) => false,
                    PeerAskView::SendDescription(_, sdp) => next is PublishingDescription && stage
                        == PeerStageView::Setting(sdp),
                    PeerAskView::SendCandidate(_, _, _) => next is PublishingCandidate,
                    PeerAskView::SendEnd => next is PublishingEnd,
                    PeerAskView::NextCandidate => next is Gathering,
                    PeerAskView::MarkDone => next is Marking,
                    PeerAskView::Receive => next is Consuming,
                    PeerAskView::AddCandidate(_) => next is ApplyingCandidate,
                    PeerAskView::Incoming => next is Adopting,
                    PeerAskView::LookConnection { changed } => next is Connecting && changed == (
                    stage is Connecting),
                    PeerAskView::LookChannel { pause_ms } => next is Opening && (pause_ms == 0) == (
                    stage is Connecting),
                },
                PeerMoveView::Connected => next is Over,
                PeerMoveView::Failed(_) => next is Over,
                PeerMoveView::Stay => next == stage,
            }
        }),
{
}

/// Each stage is reached from the one before it and from nowhere else: no step of the
/// handshake can be left out.
pub proof fn rendezvous_leaves_no_step_out(role: PeerRole, stage: PeerStageView, event: PeerEvent)
    ensures
        ({
            let next = peer_stepped(role, stage, event).0;
            next == stage || match next {
                PeerStageView::Creating => false,
                PeerStageView::AwaitingOffer => false,
                PeerStageView::ApplyingOffer => stage is AwaitingOffer && event is Received,
                PeerStageView::Describing => (stage is Creating || stage is ApplyingOffer) && event
                    is Done,
                PeerStageView::Setting(_) => stage is Describing && event is Described,
                PeerStageView::PublishingDescription => stage is Setting && event is Done,
                PeerStageView::Gathering => (stage is PublishingDescription || stage
                    is PublishingCandidate) && event is Done,
                PeerStageView::PublishingCandidate => stage is Gathering && (
                event matches PeerEvent::Candidate(found) && found is Some),
                PeerStageView::PublishingEnd => stage is Gathering && event == PeerEvent::Candidate(
                    None,
                ),
                PeerStageView::Marking => stage is PublishingEnd && event is Done,
                PeerStageView::Consuming => (stage is Marking || stage is ApplyingAnswer || stage
                    is ApplyingCandidate) && event is Done,
                PeerStageView::ApplyingAnswer => stage is Consuming && event is Received,
                PeerStageView::ApplyingCandidate => stage is Consuming && event is Received,
                PeerStageView::Adopting => role is Answerer && stage is Consuming && event
                    == PeerEvent::Received(None),
                PeerStageView::Connecting => event == PeerEvent::Received(None) || event
                    == PeerEvent::Opened(true),
                PeerStageView::Opening(taken) => {
                    ||| taken == 0 && event is Connection
                    ||| stage matches PeerStageView::Opening(before) && taken == before + 1
                },
                PeerStageView::Over => true,
            }
        }),
{
}

/// The reference peer publishes its own description, in its own role, and each candidate it
/// gathers as it is gathered; it applies what the other half publishes as it comes, until the
/// other half is done.
pub proof fn rendezvous_publishes_and_applies(
    role: PeerRole,
    sdp: String,
    candidate: RawCandidate,
    signal: Signal,
)
    ensures
        peer_stepped(role, PeerStageView::Describing, PeerEvent::Described(sdp)) == (
            PeerStageView::Setting(sdp@),
            PeerMoveView::Ask(PeerAskView::SetLocal),
        ),
        peer_stepped(role, PeerStageView::Setting(sdp@), PeerEvent::Done).1 == PeerMoveView::Ask(
            PeerAskView::SendDescription(
                if role is Offerer {
                    SdpType::Offer
                } else {
                    SdpType::Answer
                },
                sdp@,
            ),
        ),
        peer_stepped(role, PeerStageView::Gathering, PeerEvent::Candidate(Some(candidate))).1
            == PeerMoveView::Ask(
            PeerAskView::SendCandidate(
                candidate.candidate@,
                Some(candidate.sdp_mid@),
                if 0 <= candidate.sdp_mline_index <= 65535 {
                    Some(candidate.sdp_mline_index as u16)
                } else {
                    None
                },
            ),
        ),
        peer_stepped(role, PeerStageView::PublishingCandidate, PeerEvent::Done).1
            == PeerMoveView::Ask(PeerAskView::NextCandidate),
        peer_stepped(role, PeerStageView::Gathering, PeerEvent::Candidate(None)).1
            == PeerMoveView::Ask(PeerAskView::SendEnd),
        peer_stepped(role, PeerStageView::PublishingEnd, PeerEvent::Done).1 == PeerMoveView::Ask(
            PeerAskView::MarkDone,
        ),
        peer_stepped(role, PeerStageView::Marking, PeerEvent::Done).1 == PeerMoveView::Ask(
            PeerAskView::Receive,
        ),
        ({
            let first = peer_stepped(
                role,
                PeerStageView::AwaitingOffer,
                PeerEvent::Received(Some(signal)),
            );
            let (next, follows) = peer_stepped(
                role,
                PeerStageView::Consuming,
                PeerEvent::Received(Some(signal)),
            );
            let receiving = (PeerStageView::Consuming, PeerMoveView::Ask(PeerAskView::Receive));
            match signal {
                Signal::Offer { sdp } => {
                    &&& first.1 == PeerMoveView::Ask(PeerAskView::SetRemote(SdpType::Offer, sdp@))
                    &&& peer_stepped(role, first.0, PeerEvent::Done).1 == PeerMoveView::Ask(
                        PeerAskView::CreateDescription(SdpType::Answer),
                    )
                    &&& follows is Failed
                },
                Signal::Answer { sdp } => {
                    &&& first.1 is Failed
                    &&& follows == PeerMoveView::Ask(PeerAskView::SetRemote(SdpType::Answer, sdp@))
                    &&& peer_stepped(role, next, PeerEvent::Done) == receiving
                },
                Signal::Candidate { candidate, sdp_mid, sdp_mline_index } => {
                    &&& first.1 is Failed
                    &&& follows matches PeerMoveView::Ask(PeerAskView::AddCandidate(added))
                    &&& added.candidate == candidate@
                    &&& sdp_mid matches Some(mid) ==> added.sdp_mid == mid@
                    &&& sdp_mline_index matches Some(index) ==> added.sdp_mline_index == index
                    &&& peer_stepped(role, next, PeerEvent::Done) == receiving
                },
                Signal::EndOfCandidates => {
                    &&& first.1 is Failed
                    &&& (next, follows) == receiving
                },
            }
        }),
        peer_stepped(role, PeerStageView::AwaitingOffer, PeerEvent::Received(None)).1 is Failed,
        peer_stepped(role, PeerStageView::Consuming, PeerEvent::Received(None)).1
            == PeerMoveView::Ask(
            if role is Offerer {
                PeerAskView::LookConnection { changed: false }
            } else {
                PeerAskView::Incoming
            },
        ),
        peer_stepped(role, PeerStageView::PublishingDescription, PeerEvent::Done).1
            == PeerMoveView::Ask(PeerAskView::NextCandidate),
        peer_stepped(role, PeerStageView::Creating, PeerEvent::Done).1 == PeerMoveView::Ask(
            PeerAskView::CreateDescription(SdpType::Offer),
        ),
{
}

} // verus!
