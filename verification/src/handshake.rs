//! One half of a pair's handshake: from a fresh peer connection, over the signaling
//! mailbox, to a connected peer with its data channel.
//!
//! The handshake names what to do next and takes what came of it. Whoever performs
//! the steps keeps the descriptions the connection created; their text travels
//! through here.

use vstd::prelude::*;

use crate::lab::PeerRole;
use crate::script::ChannelOptions;
use crate::signaling::{not_an_offer, offer_missing, trickle, trickled, Signal};
use crate::text::same;
use crate::wire::{describe, described, make_sdp, Error, IceCandidate, SdpType, SessionDescription};

verus! {

/// The options of a case's data channel: the suite's label, and no retransmissions
/// for the case that asks for it.
pub open spec fn options_for(id: Seq<char>) -> ChannelOptions {
    if id == "max-retransmits-accepted"@ {
        ChannelOptions::Unreliable
    } else {
        ChannelOptions::Labelled
    }
}

/// The detail of a case whose mailbox could not be opened.
pub fn mailbox_refused(error: &Error) -> (r: String)
    ensures
        r@ == "mailbox open: "@ + described(*error),
{
    "mailbox open: ".to_owned().concat(describe(error).as_str())
}

/// The options of a case's data channel.
pub fn channel_options(id: &str) -> (r: ChannelOptions)
    ensures
        r == options_for(id@),
{
    if same(id, "max-retransmits-accepted") {
        ChannelOptions::Unreliable
    } else {
        ChannelOptions::Labelled
    }
}

/// What to do next.
#[derive(Debug)]
pub enum Ask {
    /// Create the data channel.
    CreateChannel(ChannelOptions),
    /// Create an offer, or an answer.
    CreateDescription(SdpType),
    /// Set the description that was created as the local one.
    SetLocal,
    /// Set a remote description.
    SetRemote(SessionDescription),
    /// Publish a signal to the own mailbox.
    Publish(Signal),
    /// Take the local-candidates stream and read it to its end.
    CollectCandidates,
    /// Mark the own mailbox as done.
    MarkDone,
    /// Receive the next signal from the peer's mailbox.
    Receive,
    /// Add a remote candidate.
    AddCandidate(IceCandidate),
    /// Wait until the connection is established.
    WaitConnected,
    /// Take the incoming-channels stream and read its first channel.
    Adopt,
}

/// What came of it.
#[derive(Debug)]
pub enum Event {
    /// It succeeded.
    Done,
    /// It failed.
    Failed(Error),
    /// A description was created, with this text.
    Described(String),
    /// The candidates that were gathered.
    Gathered(Vec<IceCandidate>),
    /// The next signal, or none if the peer's mailbox is done.
    Received(Option<Signal>),
    /// A signal could not be written, for this reason.
    Unwritable(String),
    /// A blob could not be read as a signal, for this reason.
    Unreadable(String),
    /// Whether there was an incoming channel.
    Adopted(bool),
}

/// Where a handshake stands.
#[derive(Debug)]
pub enum Stage {
    /// The offerer creates its channel.
    Creating,
    /// The answerer waits for the offer.
    AwaitingOffer,
    /// The answerer applies the offer.
    ApplyingOffer,
    /// The own description is created.
    Describing,
    /// It is set, then published.
    Setting(String),
    /// It is published.
    PublishingDescription,
    /// The own candidates are gathered.
    Gathering,
    /// They are published, those that are left.
    Trickling(Vec<IceCandidate>),
    /// Their end is published.
    PublishingEnd,
    /// The own mailbox is marked done.
    Marking,
    /// The peer's next signal is received.
    Consuming,
    /// The peer's answer is applied.
    ApplyingAnswer,
    /// A candidate of the peer is applied.
    ApplyingCandidate,
    /// The connection is awaited.
    Waiting,
    /// The answerer adopts the channel.
    Adopting,
    /// The handshake has ended.
    Over,
}

/// Where a handshake stands.
pub enum StageView {
    Creating,
    AwaitingOffer,
    ApplyingOffer,
    Describing,
    Setting(Seq<char>),
    PublishingDescription,
    Gathering,
    Trickling(Seq<IceCandidate>),
    PublishingEnd,
    Marking,
    Consuming,
    ApplyingAnswer,
    ApplyingCandidate,
    Waiting,
    Adopting,
    Over,
}

impl View for Stage {
    type V = StageView;

    open spec fn view(&self) -> StageView {
        match self {
            Stage::Creating => StageView::Creating,
            Stage::AwaitingOffer => StageView::AwaitingOffer,
            Stage::ApplyingOffer => StageView::ApplyingOffer,
            Stage::Describing => StageView::Describing,
            Stage::Setting(sdp) => StageView::Setting(sdp@),
            Stage::PublishingDescription => StageView::PublishingDescription,
            Stage::Gathering => StageView::Gathering,
            Stage::Trickling(list) => StageView::Trickling(list@),
            Stage::PublishingEnd => StageView::PublishingEnd,
            Stage::Marking => StageView::Marking,
            Stage::Consuming => StageView::Consuming,
            Stage::ApplyingAnswer => StageView::ApplyingAnswer,
            Stage::ApplyingCandidate => StageView::ApplyingCandidate,
            Stage::Waiting => StageView::Waiting,
            Stage::Adopting => StageView::Adopting,
            Stage::Over => StageView::Over,
        }
    }
}

/// What follows an event.
#[derive(Debug)]
pub enum Move {
    /// Do this next.
    Ask(Ask),
    /// The peer is connected and has its channel.
    Connected,
    /// The handshake failed with this detail.
    Failed(String),
    /// The event answers nothing that was asked.
    Stay,
}

/// What follows an event.
pub enum MoveView {
    Ask(AskView),
    Connected,
    Failed(Seq<char>),
    Stay,
}

/// What to do next.
pub enum AskView {
    CreateChannel(ChannelOptions),
    CreateDescription(SdpType),
    SetLocal,
    SetRemote(SdpType, Seq<char>),
    PublishDescription(SdpType, Seq<char>),
    PublishCandidate(IceCandidate),
    PublishEnd,
    CollectCandidates,
    MarkDone,
    Receive,
    AddCandidate(IceCandidate),
    WaitConnected,
    Adopt,
}

/// What publishing a signal amounts to.
pub open spec fn publish_view(signal: Signal) -> AskView {
    match signal {
        Signal::Offer { sdp } => AskView::PublishDescription(SdpType::Offer, sdp@),
        Signal::Answer { sdp } => AskView::PublishDescription(SdpType::Answer, sdp@),
        Signal::Candidate { candidate, sdp_mid, sdp_mline_index } => AskView::PublishCandidate(
            IceCandidate { candidate, sdp_mid, sdp_mline_index },
        ),
        Signal::EndOfCandidates => AskView::PublishEnd,
    }
}

impl View for Ask {
    type V = AskView;

    open spec fn view(&self) -> AskView {
        match *self {
            Ask::CreateChannel(options) => AskView::CreateChannel(options),
            Ask::CreateDescription(kind) => AskView::CreateDescription(kind),
            Ask::SetLocal => AskView::SetLocal,
            Ask::SetRemote(description) => AskView::SetRemote(description.kind, description.sdp@),
            Ask::Publish(signal) => publish_view(signal),
            Ask::CollectCandidates => AskView::CollectCandidates,
            Ask::MarkDone => AskView::MarkDone,
            Ask::Receive => AskView::Receive,
            Ask::AddCandidate(candidate) => AskView::AddCandidate(candidate),
            Ask::WaitConnected => AskView::WaitConnected,
            Ask::Adopt => AskView::Adopt,
        }
    }
}

impl View for Move {
    type V = MoveView;

    open spec fn view(&self) -> MoveView {
        match self {
            Move::Ask(ask) => MoveView::Ask(ask@),
            Move::Connected => MoveView::Connected,
            Move::Failed(detail) => MoveView::Failed(detail@),
            Move::Stay => MoveView::Stay,
        }
    }
}

/// The kind of description a role creates.
pub open spec fn own_kind(role: PeerRole) -> SdpType {
    match role {
        PeerRole::Offerer => SdpType::Offer,
        PeerRole::Answerer => SdpType::Answer,
    }
}

/// The detail in front of an error at a stage.
pub open spec fn error_prefix(role: PeerRole, stage: StageView) -> Seq<char> {
    match stage {
        StageView::Creating => "create-data-channel: "@,
        StageView::AwaitingOffer => "mailbox recv: "@,
        StageView::ApplyingOffer => "set-remote-description offer: "@,
        StageView::Describing => match role {
            PeerRole::Offerer => "create-offer: "@,
            PeerRole::Answerer => "create-answer: "@,
        },
        StageView::Setting(_) => "set-local-description: "@,
        StageView::PublishingDescription => "mailbox send: "@,
        StageView::Trickling(_) => "mailbox send: "@,
        StageView::PublishingEnd => "mailbox send: "@,
        StageView::Marking => "mailbox done: "@,
        StageView::Consuming => "mailbox recv: "@,
        StageView::ApplyingAnswer => "set-remote-description answer: "@,
        StageView::ApplyingCandidate => "add-ice-candidate: "@,
        StageView::Waiting => "wait-connected: "@,
        _ => ""@,
    }
}

/// Whether an error can come at a stage.
pub open spec fn can_fail(stage: StageView) -> bool {
    !(stage is Gathering || stage is Adopting || stage is Over)
}

/// Whether a signal is written at a stage.
pub open spec fn writes(stage: StageView) -> bool {
    stage is PublishingDescription || stage is Trickling || stage is PublishingEnd
}

/// The stage that publishes the candidates that are left, and what to do at it: the
/// next one, or the end marker once none is left.
pub open spec fn trickling(left: Seq<IceCandidate>) -> (StageView, MoveView) {
    if left.len() == 0 {
        (StageView::PublishingEnd, MoveView::Ask(AskView::PublishEnd))
    } else {
        (
            StageView::Trickling(left.drop_first()),
            MoveView::Ask(AskView::PublishCandidate(left[0])),
        )
    }
}

/// What follows an event at a stage.
pub open spec fn stepped(role: PeerRole, stage: StageView, event: Event) -> (StageView, MoveView) {
    match (stage, event) {
        (StageView::Creating, Event::Done) => (
            StageView::Describing,
            MoveView::Ask(AskView::CreateDescription(SdpType::Offer)),
        ),
        (StageView::AwaitingOffer, Event::Received(Some(Signal::Offer { sdp }))) => (
            StageView::ApplyingOffer,
            MoveView::Ask(AskView::SetRemote(SdpType::Offer, sdp@)),
        ),
        (StageView::AwaitingOffer, Event::Received(other)) => (
            StageView::Over,
            MoveView::Failed(not_an_offer(other)),
        ),
        (StageView::ApplyingOffer, Event::Done) => (
            StageView::Describing,
            MoveView::Ask(AskView::CreateDescription(SdpType::Answer)),
        ),
        (StageView::Describing, Event::Described(sdp)) => (
            StageView::Setting(sdp@),
            MoveView::Ask(AskView::SetLocal),
        ),
        (StageView::Setting(sdp), Event::Done) => (
            StageView::PublishingDescription,
            MoveView::Ask(AskView::PublishDescription(own_kind(role), sdp)),
        ),
        (StageView::PublishingDescription, Event::Done) => (
            StageView::Gathering,
            MoveView::Ask(AskView::CollectCandidates),
        ),
        (StageView::Gathering, Event::Gathered(list)) => trickling(list@),
        (StageView::Trickling(left), Event::Done) => trickling(left),
        (StageView::PublishingEnd, Event::Done) => (
            StageView::Marking,
            MoveView::Ask(AskView::MarkDone),
        ),
        (StageView::Marking, Event::Done) => (
            StageView::Consuming,
            MoveView::Ask(AskView::Receive),
        ),
        (StageView::Consuming, Event::Received(None)) => (
            StageView::Waiting,
            MoveView::Ask(AskView::WaitConnected),
        ),
        (StageView::Consuming, Event::Received(Some(Signal::Answer { sdp }))) => (
            StageView::ApplyingAnswer,
            MoveView::Ask(AskView::SetRemote(SdpType::Answer, sdp@)),
        ),
        (StageView::Consuming, Event::Received(Some(Signal::Offer { .. }))) => (
            StageView::Over,
            MoveView::Failed("unexpected second offer"@),
        ),
        (
            StageView::Consuming,
            Event::Received(Some(Signal::Candidate { candidate, sdp_mid, sdp_mline_index })),
        ) => (
            StageView::ApplyingCandidate,
            MoveView::Ask(
                AskView::AddCandidate(IceCandidate { candidate, sdp_mid, sdp_mline_index }),
            ),
        ),
        (StageView::Consuming, Event::Received(Some(Signal::EndOfCandidates))) => (
            StageView::Consuming,
            MoveView::Ask(AskView::Receive),
        ),
        (StageView::ApplyingAnswer, Event::Done) => (
            StageView::Consuming,
            MoveView::Ask(AskView::Receive),
        ),
        (StageView::ApplyingCandidate, Event::Done) => (
            StageView::Consuming,
            MoveView::Ask(AskView::Receive),
        ),
        (StageView::Waiting, Event::Done) => match role {
            PeerRole::Offerer => (StageView::Over, MoveView::Connected),
            PeerRole::Answerer => (StageView::Adopting, MoveView::Ask(AskView::Adopt)),
        },
        (StageView::Adopting, Event::Adopted(true)) => (StageView::Over, MoveView::Connected),
        (StageView::Adopting, Event::Adopted(false)) => (
            StageView::Over,
            MoveView::Failed("no incoming data channel"@),
        ),
        (stage, Event::Failed(error)) => if can_fail(stage) {
            (StageView::Over, MoveView::Failed(error_prefix(role, stage) + described(error)))
        } else {
            (stage, MoveView::Stay)
        },
        (stage, Event::Unwritable(why)) => if writes(stage) {
            (StageView::Over, MoveView::Failed("encode signal: "@ + why@))
        } else {
            (stage, MoveView::Stay)
        },
        (stage, Event::Unreadable(why)) => if stage is AwaitingOffer || stage is Consuming {
            (StageView::Over, MoveView::Failed("decode signal: "@ + why@))
        } else {
            (stage, MoveView::Stay)
        },
        (stage, _) => (stage, MoveView::Stay),
    }
}

/// One half of a pair's handshake.
#[derive(Debug)]
pub struct Handshake {
    role: PeerRole,
    stage: Stage,
}

impl Handshake {
    /// The half this is.
    pub closed spec fn half(self) -> PeerRole {
        self.role
    }

    /// Where it stands.
    pub closed spec fn stands(self) -> StageView {
        self.stage@
    }

    /// Begin a handshake, with the first thing to do: the offerer creates the case's
    /// data channel, the answerer waits for the offer.
    pub fn begin(role: PeerRole, id: &str) -> (r: (Handshake, Ask))
        ensures
            r.0.half() == role,
            match role {
                PeerRole::Offerer => r.0.stands() is Creating && r.1@ == AskView::CreateChannel(
                    options_for(id@),
                ),
                PeerRole::Answerer => r.0.stands() is AwaitingOffer && r.1@ == AskView::Receive,
            },
    {
        match role {
            PeerRole::Offerer => (
                Handshake { role, stage: Stage::Creating },
                Ask::CreateChannel(channel_options(id)),
            ),
            PeerRole::Answerer => (Handshake { role, stage: Stage::AwaitingOffer }, Ask::Receive),
        }
    }

    fn prefix(&self) -> (r: &'static str)
        ensures
            r@ == error_prefix(self.half(), self.stands()),
    {
        match &self.stage {
            Stage::Creating => "create-data-channel: ",
            Stage::AwaitingOffer => "mailbox recv: ",
            Stage::ApplyingOffer => "set-remote-description offer: ",
            Stage::Describing => match self.role {
                PeerRole::Offerer => "create-offer: ",
                PeerRole::Answerer => "create-answer: ",
            },
            Stage::Setting(_) => "set-local-description: ",
            Stage::PublishingDescription => "mailbox send: ",
            Stage::Trickling(_) => "mailbox send: ",
            Stage::PublishingEnd => "mailbox send: ",
            Stage::Marking => "mailbox done: ",
            Stage::Consuming => "mailbox recv: ",
            Stage::ApplyingAnswer => "set-remote-description answer: ",
            Stage::ApplyingCandidate => "add-ice-candidate: ",
            Stage::Waiting => "wait-connected: ",
            _ => "",
        }
    }

    fn publish_next(left: Vec<IceCandidate>) -> (r: (Stage, Move))
        ensures
            (r.0@, r.1@) == trickling(left@),
    {
        let mut left = left;
        if left.len() == 0 {
            (Stage::PublishingEnd, Move::Ask(Ask::Publish(Signal::EndOfCandidates)))
        } else {
            let ghost all = left@;
            let candidate = left.remove(0);
            assert(left@ =~= all.drop_first());
            (Stage::Trickling(left), Move::Ask(Ask::Publish(trickle(candidate))))
        }
    }

    /// Take what came of what was asked.
    pub fn step(self, event: Event) -> (r: (Handshake, Move))
        ensures
            r.0.half() == self.half(),
            (r.0.stands(), r.1@) == stepped(self.half(), self.stands(), event),
    {
        let role = self.role;
        let prefix = self.prefix();
        let (stage, next) = match (self.stage, event) {
            (Stage::Creating, Event::Done) => (
                Stage::Describing,
                Move::Ask(Ask::CreateDescription(SdpType::Offer)),
            ),
            (Stage::AwaitingOffer, Event::Received(Some(Signal::Offer { sdp }))) => (
                Stage::ApplyingOffer,
                Move::Ask(Ask::SetRemote(make_sdp(SdpType::Offer, sdp))),
            ),
            (Stage::AwaitingOffer, Event::Received(other)) => (
                Stage::Over,
                Move::Failed(offer_missing(&other)),
            ),
            (Stage::ApplyingOffer, Event::Done) => (
                Stage::Describing,
                Move::Ask(Ask::CreateDescription(SdpType::Answer)),
            ),
            (Stage::Describing, Event::Described(sdp)) => (
                Stage::Setting(sdp),
                Move::Ask(Ask::SetLocal),
            ),
            (Stage::Setting(sdp), Event::Done) => (
                Stage::PublishingDescription,
                Move::Ask(
                    Ask::Publish(
                        match role {
                            PeerRole::Offerer => Signal::Offer { sdp },
                            PeerRole::Answerer => Signal::Answer { sdp },
                        },
                    ),
                ),
            ),
            (Stage::PublishingDescription, Event::Done) => (
                Stage::Gathering,
                Move::Ask(Ask::CollectCandidates),
            ),
            (Stage::Gathering, Event::Gathered(list)) => Handshake::publish_next(list),
            (Stage::Trickling(left), Event::Done) => Handshake::publish_next(left),
            (Stage::PublishingEnd, Event::Done) => (Stage::Marking, Move::Ask(Ask::MarkDone)),
            (Stage::Marking, Event::Done) => (Stage::Consuming, Move::Ask(Ask::Receive)),
            (Stage::Consuming, Event::Received(None)) => (
                Stage::Waiting,
                Move::Ask(Ask::WaitConnected),
            ),
            (Stage::Consuming, Event::Received(Some(Signal::Answer { sdp }))) => (
                Stage::ApplyingAnswer,
                Move::Ask(Ask::SetRemote(make_sdp(SdpType::Answer, sdp))),
            ),
            (Stage::Consuming, Event::Received(Some(Signal::Offer { .. }))) => (
                Stage::Over,
                Move::Failed("unexpected second offer".to_owned()),
            ),
            (
                Stage::Consuming,
                Event::Received(Some(Signal::Candidate { candidate, sdp_mid, sdp_mline_index })),
            ) => (
                Stage::ApplyingCandidate,
                Move::Ask(Ask::AddCandidate(IceCandidate { candidate, sdp_mid, sdp_mline_index })),
            ),
            (Stage::Consuming, Event::Received(Some(Signal::EndOfCandidates))) => (
                Stage::Consuming,
                Move::Ask(Ask::Receive),
            ),
            (Stage::ApplyingAnswer, Event::Done) => (Stage::Consuming, Move::Ask(Ask::Receive)),
            (Stage::ApplyingCandidate, Event::Done) => (Stage::Consuming, Move::Ask(Ask::Receive)),
            (Stage::Waiting, Event::Done) => match role {
                PeerRole::Offerer => (Stage::Over, Move::Connected),
                PeerRole::Answerer => (Stage::Adopting, Move::Ask(Ask::Adopt)),
            },
            (Stage::Adopting, Event::Adopted(true)) => (Stage::Over, Move::Connected),
            (Stage::Adopting, Event::Adopted(false)) => (
                Stage::Over,
                Move::Failed("no incoming data channel".to_owned()),
            ),
            (Stage::Gathering, Event::Failed(_)) => (Stage::Gathering, Move::Stay),
            (Stage::Adopting, Event::Failed(_)) => (Stage::Adopting, Move::Stay),
            (Stage::Over, Event::Failed(_)) => (Stage::Over, Move::Stay),
            (_, Event::Failed(error)) => (
                Stage::Over,
                Move::Failed(prefix.to_owned().concat(describe(&error).as_str())),
            ),
            (Stage::PublishingDescription, Event::Unwritable(why)) => (
                Stage::Over,
                Move::Failed("encode signal: ".to_owned().concat(why.as_str())),
            ),
            (Stage::Trickling(_), Event::Unwritable(why)) => (
                Stage::Over,
                Move::Failed("encode signal: ".to_owned().concat(why.as_str())),
            ),
            (Stage::PublishingEnd, Event::Unwritable(why)) => (
                Stage::Over,
                Move::Failed("encode signal: ".to_owned().concat(why.as_str())),
            ),
            (Stage::AwaitingOffer, Event::Unreadable(why)) => (
                Stage::Over,
                Move::Failed("decode signal: ".to_owned().concat(why.as_str())),
            ),
            (Stage::Consuming, Event::Unreadable(why)) => (
                Stage::Over,
                Move::Failed("decode signal: ".to_owned().concat(why.as_str())),
            ),
            (stage, _) => (stage, Move::Stay),
        };
        (Handshake { role, stage }, next)
    }
}

// ----- laws ----------------------------------------------------------------------------

/// The moves made from a stage on, one per event.
pub open spec fn moves_from(
    role: PeerRole,
    stage: StageView,
    events: Seq<Event>,
) -> Seq<MoveView>
    decreases events.len(),
{
    if events.len() == 0 {
        Seq::empty()
    } else {
        let (next, made) = stepped(role, stage, events[0]);
        seq![made] + moves_from(role, next, events.drop_first())
    }
}

proof fn lemma_trickles(role: PeerRole, left: Seq<IceCandidate>, events: Seq<Event>)
    requires
        events.len() == left.len() + 2,
        forall|i: int| 0 <= i < events.len() ==> #[trigger] events[i] is Done,
    ensures
        moves_from(role, StageView::Trickling(left), events) == left.map_values(
            |c: IceCandidate| MoveView::Ask(AskView::PublishCandidate(c)),
        ) + seq![MoveView::Ask(AskView::PublishEnd), MoveView::Ask(AskView::MarkDone)],
    decreases left.len(),
{
    let rest = events.drop_first();
    assert forall|i: int| 0 <= i < rest.len() implies #[trigger] rest[i] is Done by {
        assert(events[i + 1] is Done);
    }
    assert(events[0] is Done);
    let publish = |c: IceCandidate| MoveView::Ask(AskView::PublishCandidate(c));
    let end = seq![MoveView::Ask(AskView::PublishEnd), MoveView::Ask(AskView::MarkDone)];
    if left.len() == 0 {
        reveal_with_fuel(moves_from, 3);
        assert(rest[0] is Done);
        assert(rest.drop_first().len() == 0);
        assert(moves_from(role, StageView::Trickling(left), events) =~= left.map_values(publish)
            + end);
    } else {
        lemma_trickles(role, left.drop_first(), rest);
        assert(moves_from(role, StageView::Trickling(left), events) =~= left.map_values(publish)
            + end);
    }
}

/// However many candidates were gathered, each is published once and in order, then
/// the end marker, then the mailbox is marked done.
pub proof fn candidates_are_published_in_order(
    role: PeerRole,
    list: Vec<IceCandidate>,
    events: Seq<Event>,
)
    requires
        events.len() == list@.len() + 2,
        events[0] == Event::Gathered(list),
        forall|i: int| 1 <= i < events.len() ==> #[trigger] events[i] is Done,
    ensures
        moves_from(role, StageView::Gathering, events) == list@.map_values(
            |c: IceCandidate| MoveView::Ask(AskView::PublishCandidate(c)),
        ) + seq![MoveView::Ask(AskView::PublishEnd), MoveView::Ask(AskView::MarkDone)],
{
    let left = list@;
    let rest = events.drop_first();
    let publish = |c: IceCandidate| MoveView::Ask(AskView::PublishCandidate(c));
    let end = seq![MoveView::Ask(AskView::PublishEnd), MoveView::Ask(AskView::MarkDone)];
    assert forall|i: int| 0 <= i < rest.len() implies #[trigger] rest[i] is Done by {
        assert(events[i + 1] is Done);
    }
    if left.len() == 0 {
        reveal_with_fuel(moves_from, 3);
        assert(rest[0] is Done);
        assert(rest.drop_first().len() == 0);
    } else {
        lemma_trickles(role, left.drop_first(), rest);
    }
    assert(moves_from(role, StageView::Gathering, events) =~= left.map_values(publish) + end);
}

/// A candidate one half publishes is the candidate the other half adds.
pub proof fn trickled_candidate_arrives(role: PeerRole, candidate: IceCandidate)
    ensures
        publish_view(trickled(candidate)) == AskView::PublishCandidate(candidate),
        stepped(role, StageView::Consuming, Event::Received(Some(trickled(candidate)))) == (
            StageView::ApplyingCandidate,
            MoveView::Ask(AskView::AddCandidate(candidate)),
        ),
{
}

/// A handshake that is over stays over, whatever comes.
pub proof fn ended_handshake_stays_ended(role: PeerRole, event: Event)
    ensures
        stepped(role, StageView::Over, event) == (StageView::Over, MoveView::Stay),
{
}

/// A half is connected in two ways and no other: the offerer's connection is established,
/// or the answerer has adopted the channel that came in on it.
pub proof fn connects_only_once_established(role: PeerRole, stage: StageView, event: Event)
    ensures
        stepped(role, stage, event).1 is Connected <==> {
            ||| role is Offerer && stage is Waiting && event is Done
            ||| stage is Adopting && event == Event::Adopted(true)
        },
        stepped(role, stage, event).1 is Connected ==> stepped(role, stage, event).0 is Over,
{
}

/// An error is never passed over: whichever fallible step it came from, it ends the
/// handshake with a failure whose words end in the error's own. The steps that cannot fail
/// take no notice of one.
pub proof fn errors_end_the_handshake(role: PeerRole, stage: StageView, error: Error)
    ensures
        ({
            let (next, follows) = stepped(role, stage, Event::Failed(error));
            match stage {
                StageView::Gathering => next == stage && follows is Stay,
                StageView::Adopting => next == stage && follows is Stay,
                StageView::Over => next == stage && follows is Stay,
                _ => {
                    &&& next is Over
                    &&& follows matches MoveView::Failed(detail)
                    &&& detail.len() >= described(error).len()
                    &&& detail.skip(detail.len() - described(error).len()) == described(error)
                },
            }
        }),
{
    let (next, follows) = stepped(role, stage, Event::Failed(error));
    if let MoveView::Failed(detail) = follows {
        let prefix = error_prefix(role, stage);
        assert(detail == prefix + described(error));
        assert(detail.skip(detail.len() - described(error).len()) =~= described(error));
    }
}

/// A signal that cannot be written ends the handshake where one is published, and a blob
/// that is no signal ends it where one is received.
pub proof fn garbled_signals_end_the_handshake(role: PeerRole, stage: StageView, why: String)
    ensures
        stepped(role, stage, Event::Unwritable(why)) == match stage {
            StageView::PublishingDescription => (
                StageView::Over,
                MoveView::Failed("encode signal: "@ + why@),
            ),
            StageView::Trickling(_) => (
                StageView::Over,
                MoveView::Failed("encode signal: "@ + why@),
            ),
            StageView::PublishingEnd => (
                StageView::Over,
                MoveView::Failed("encode signal: "@ + why@),
            ),
            _ => (stage, MoveView::Stay),
        },
        stepped(role, stage, Event::Unreadable(why)) == match stage {
            StageView::AwaitingOffer => (
                StageView::Over,
                MoveView::Failed("decode signal: "@ + why@),
            ),
            StageView::Consuming => (StageView::Over, MoveView::Failed("decode signal: "@ + why@)),
            _ => (stage, MoveView::Stay),
        },
{
}

/// What is asked for is what the stage reached is waiting on, and an event that is not the
/// outcome of what was asked changes nothing.
pub proof fn stage_waits_on_what_was_asked(role: PeerRole, stage: StageView, event: Event)
    ensures
        ({
            let (next, follows) = stepped(role, stage, event);
            match follows {
                MoveView::Ask(ask) => match ask {
                    AskView::CreateChannel(_) => false,
                    AskView::CreateDescription(kind) => next is Describing && kind == if stage
                        is Creating {
                        SdpType::Offer
                    } else {
                        SdpType::Answer
                    },
                    AskView::SetLocal => event matches Event::Described(sdp) && next
                        == StageView::Setting(sdp@),
                    AskView::SetRemote(SdpType::Offer, _) => next is ApplyingOffer,
                    AskView::SetRemote(SdpType::Answer, _) => next is ApplyingAnswer,
                    AskView::SetRemote(_, _) => false,
                    AskView::PublishDescription(_, sdp) => next is PublishingDescription && stage
                        == StageView::Setting(sdp),
                    AskView::PublishCandidate(_) => next is Trickling,
                    AskView::PublishEnd => next is PublishingEnd,
                    AskView::CollectCandidates => next is Gathering,
                    AskView::MarkDone => next is Marking,
                    AskView::Receive => next is Consuming,
                    AskView::AddCandidate(_) => next is ApplyingCandidate,
                    AskView::WaitConnected => next is Waiting,
                    AskView::Adopt => next is Adopting,
                },
                MoveView::Connected => next is Over,
                MoveView::Failed(_) => next is Over,
                MoveView::Stay => next == stage,
            }
        }),
{
}

/// Each stage is reached from the one before it and from nowhere else: no step of the
/// handshake can be left out.
pub proof fn no_step_is_left_out(role: PeerRole, stage: StageView, event: Event)
    ensures
        ({
            let next = stepped(role, stage, event).0;
            next == stage || match next {
                StageView::Creating => false,
                StageView::AwaitingOffer => false,
                StageView::ApplyingOffer => stage is AwaitingOffer && event is Received,
                StageView::Describing => (stage is Creating || stage is ApplyingOffer) && event
                    is Done,
                StageView::Setting(_) => stage is Describing && event is Described,
                StageView::PublishingDescription => stage is Setting && event is Done,
                StageView::Gathering => stage is PublishingDescription && event is Done,
                StageView::Trickling(left) => {
                    ||| stage is Gathering && (event matches Event::Gathered(list) && left.len() + 1
                        == list@.len())
                    ||| stage is Trickling && event is Done && left.len() + 1
                        == stage->Trickling_0.len()
                },
                StageView::PublishingEnd => {
                    ||| stage is Gathering && (event matches Event::Gathered(list) && list@.len()
                        == 0)
                    ||| stage is Trickling && event is Done && stage->Trickling_0.len() == 0
                },
                StageView::Marking => stage is PublishingEnd && event is Done,
                StageView::Consuming => (stage is Marking || stage is ApplyingAnswer || stage
                    is ApplyingCandidate) && event is Done,
                StageView::ApplyingAnswer => stage is Consuming && event is Received,
                StageView::ApplyingCandidate => stage is Consuming && event is Received,
                StageView::Waiting => stage is Consuming && event == Event::Received(None),
                StageView::Adopting => role is Answerer && stage is Waiting && event is Done,
                StageView::Over => true,
            }
        }),
{
}

/// The offerer publishes, as an offer, the description it created and set; the answerer
/// sets the offer it received and publishes, as an answer, its own.
pub proof fn own_description_is_published(theirs: String, mine: String)
    ensures
        moves_from(
            PeerRole::Offerer,
            StageView::Creating,
            seq![Event::Done, Event::Described(mine), Event::Done, Event::Done],
        ) == seq![
            MoveView::Ask(AskView::CreateDescription(SdpType::Offer)),
            MoveView::Ask(AskView::SetLocal),
            MoveView::Ask(AskView::PublishDescription(SdpType::Offer, mine@)),
            MoveView::Ask(AskView::CollectCandidates),
        ],
        moves_from(
            PeerRole::Answerer,
            StageView::AwaitingOffer,
            seq![
                Event::Received(Some(Signal::Offer { sdp: theirs })),
                Event::Done,
                Event::Described(mine),
                Event::Done,
                Event::Done,
            ],
        ) == seq![
            MoveView::Ask(AskView::SetRemote(SdpType::Offer, theirs@)),
            MoveView::Ask(AskView::CreateDescription(SdpType::Answer)),
            MoveView::Ask(AskView::SetLocal),
            MoveView::Ask(AskView::PublishDescription(SdpType::Answer, mine@)),
            MoveView::Ask(AskView::CollectCandidates),
        ],
{
    reveal_with_fuel(moves_from, 6);
    let offering = seq![Event::Done, Event::Described(mine), Event::Done, Event::Done];
    assert(offering.drop_first() =~= seq![Event::Described(mine), Event::Done, Event::Done]);
    assert(offering.drop_first().drop_first() =~= seq![Event::Done, Event::Done]);
    assert(offering.drop_first().drop_first().drop_first() =~= seq![Event::Done]);
    let answering = seq![
        Event::Received(Some(Signal::Offer { sdp: theirs })),
        Event::Done,
        Event::Described(mine),
        Event::Done,
        Event::Done,
    ];
    assert(answering.drop_first() =~= offering);
}

/// What the peer published is applied in the order in which it comes, and receiving goes on
/// until the peer's mailbox is done; only then is the connection awaited. The answerer's
/// first signal must be the offer, and no second one may follow.
pub proof fn signals_are_applied_as_they_come(role: PeerRole, signal: Signal)
    ensures
        ({
            let first = stepped(role, StageView::AwaitingOffer, Event::Received(Some(signal)));
            let (next, follows) = stepped(
                role,
                StageView::Consuming,
                Event::Received(Some(signal)),
            );
            let receiving = (StageView::Consuming, MoveView::Ask(AskView::Receive));
            match signal {
                Signal::Offer { sdp } => {
                    &&& first.1 == MoveView::Ask(AskView::SetRemote(SdpType::Offer, sdp@))
                    &&& follows == MoveView::Failed("unexpected second offer"@)
                },
                Signal::Answer { sdp } => {
                    &&& first.1 == MoveView::Failed(not_an_offer(Some(signal)))
                    &&& follows == MoveView::Ask(AskView::SetRemote(SdpType::Answer, sdp@))
                    &&& stepped(role, next, Event::Done) == receiving
                },
                Signal::Candidate { candidate, sdp_mid, sdp_mline_index } => {
                    &&& first.1 == MoveView::Failed(not_an_offer(Some(signal)))
                    &&& follows == MoveView::Ask(
                        AskView::AddCandidate(
                            IceCandidate { candidate, sdp_mid, sdp_mline_index },
                        ),
                    )
                    &&& stepped(role, next, Event::Done) == receiving
                },
                Signal::EndOfCandidates => {
                    &&& first.1 == MoveView::Failed(not_an_offer(Some(signal)))
                    &&& (next, follows) == receiving
                },
            }
        }),
        stepped(role, StageView::Marking, Event::Done).1 == MoveView::Ask(AskView::Receive),
        stepped(role, StageView::AwaitingOffer, Event::Received(None)).1 == MoveView::Failed(
            not_an_offer(None),
        ),
        stepped(role, StageView::Consuming, Event::Received(None)).1 == MoveView::Ask(
            AskView::WaitConnected,
        ),
        stepped(PeerRole::Answerer, StageView::Waiting, Event::Done).1 == MoveView::Ask(
            AskView::Adopt,
        ),
        stepped(role, StageView::Adopting, Event::Adopted(false)).1 == MoveView::Failed(
            "no incoming data channel"@,
        ),
{
}

/// A channel is created without retransmissions exactly for the test that asks for it.
pub proof fn only_one_test_is_unreliable(id: Seq<char>)
    ensures
        options_for(id) is Unreliable <==> id == "max-retransmits-accepted"@,
        options_for(id) is Unreliable || options_for(id) is Labelled,
{
}

/// The failure of a step names the step.
pub proof fn failures_name_their_step(role: PeerRole, stage: StageView, error: Error)
    requires
        !(stage is Gathering || stage is Adopting || stage is Over),
    ensures
        stepped(role, stage, Event::Failed(error)).1 == MoveView::Failed(
            (match stage {
                StageView::Creating => "create-data-channel: "@,
                StageView::ApplyingOffer => "set-remote-description offer: "@,
                StageView::Describing => if role is Offerer {
                    "create-offer: "@
                } else {
                    "create-answer: "@
                },
                StageView::Setting(_) => "set-local-description: "@,
                StageView::Marking => "mailbox done: "@,
                StageView::ApplyingAnswer => "set-remote-description answer: "@,
                StageView::ApplyingCandidate => "add-ice-candidate: "@,
                StageView::Waiting => "wait-connected: "@,
                _ => if stage is AwaitingOffer || stage is Consuming {
                    "mailbox recv: "@
                } else {
                    "mailbox send: "@
                },
            }) + described(error),
        ),
{
}

} // verus!
