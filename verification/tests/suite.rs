//! The suite's cases, run against a well-behaved host and against broken ones.

use std::collections::VecDeque;

use rtc_conformance::corpus::{IN_PROCESS_TESTS, TWO_PEER_TESTS};
use rtc_conformance::exchange::pair;
use rtc_conformance::lab::PeerRole;
use rtc_conformance::payload::make_payload;
use rtc_conformance::script::{
    Call, Case, Description, ErrorKind, Lane, Phase, Refusal, Reply, Run, StreamItem, Task, Watched,
};
use rtc_conformance::solo::solo;
use rtc_conformance::stimulus::{build_message, build_servers, ServerList};
use rtc_conformance::wire::{
    ConfigError, ConnectionState, DataChannelState, Error, IceTransportPolicy, Message, Seen,
};

const BUFFER: usize = 512 * 1024;

#[derive(Default)]
struct Watch {
    last: Option<Seen>,
}

impl Watch {
    fn read(&mut self, now: Seen) -> Option<Reply> {
        if self.last != Some(now) {
            self.last = Some(now);
            Some(Reply::States { batch: vec![now], ended: false })
        } else if now.is_terminal() {
            Some(Reply::States { batch: Vec::new(), ended: true })
        } else {
            None
        }
    }
}

#[derive(Default)]
struct Peer {
    closed: bool,
    connected: bool,
    remote_set: bool,
    candidates_taken: bool,
    incoming_taken: bool,
    watch: Watch,
}

#[derive(Default)]
struct Channel {
    closed: bool,
    remote_closed: bool,
    inbox: VecDeque<Message>,
    popped: usize,
    bytes: usize,
    overflowed: bool,
    claimed: bool,
    watch: Watch,
}

/// What is wrong with a host.
#[derive(Clone, Copy, PartialEq)]
enum Flaw {
    Sound,
    Reorders,
    Corrupts,
    AcceptsBadSdp,
    NeverOverflows,
    ForgetsConnected,
    WrongLabel,
    NoCandidates,
    RepeatsStates,
    DropsTail,
    TextAsBinary,
}

struct World {
    flaw: Flaw,
    peers: [Peer; 2],
    channels: [Channel; 2],
    feed_ended: bool,
    servers: bool,
    policy: IceTransportPolicy,
}

fn index(role: PeerRole) -> usize {
    match role {
        PeerRole::Offerer => 0,
        PeerRole::Answerer => 1,
    }
}

fn size(message: &Message) -> usize {
    match message {
        Message::Binary(bytes) => bytes.len(),
        Message::Text(text) => text.len(),
    }
}

impl World {
    fn new(flaw: Flaw) -> World {
        World {
            flaw,
            peers: Default::default(),
            channels: Default::default(),
            feed_ended: false,
            servers: false,
            policy: IceTransportPolicy::All,
        }
    }

    fn close_channel(&mut self, role: PeerRole) {
        self.channels[index(role)].closed = true;
        self.channels[index(role)].inbox.clear();
        self.channels[index(role.other())].remote_closed = true;
    }

    fn deliver(&mut self, from: PeerRole, message: Message) -> Reply {
        let own = &self.channels[index(from)];
        if own.closed || own.remote_closed {
            return Reply::Failed(Error::Closed);
        }
        let message = match (self.flaw, message) {
            (Flaw::DropsTail, Message::Binary(bytes)) if bytes.len() == 256 && bytes[0] == 3 => {
                return Reply::Done;
            }
            (Flaw::Corrupts, Message::Binary(mut bytes)) if bytes.len() > 4 => {
                bytes[4] ^= 1;
                Message::Binary(bytes)
            }
            (Flaw::TextAsBinary, Message::Text(text)) => Message::Binary(text.into_bytes()),
            (_, message) => message,
        };
        let never = self.flaw == Flaw::NeverOverflows;
        let reorders = self.flaw == Flaw::Reorders;
        let other = &mut self.channels[index(from.other())];
        other.bytes += size(&message);
        if other.bytes > BUFFER && !never {
            other.overflowed = true;
            self.channels[index(from)].remote_closed = true;
        } else if reorders && !other.inbox.is_empty() {
            other.inbox.push_front(message);
        } else {
            other.inbox.push_back(message);
        }
        Reply::Done
    }

    fn perform(&mut self, call: Call) -> Option<Reply> {
        let failed = |closed: bool| {
            if closed {
                Some(Reply::Failed(Error::Closed))
            } else {
                Some(Reply::Done)
            }
        };
        match call {
            Call::NewPeer(_) | Call::NewConfig | Call::NewConfiguredPeer => Some(Reply::Done),
            Call::GetServers => Some(Reply::Servers(if self.servers {
                build_servers(ServerList::Stun)
            } else {
                Vec::new()
            })),
            Call::SetServers(ServerList::Stun) => {
                self.servers = true;
                Some(Reply::Done)
            }
            Call::SetServers(_) => Some(Reply::Refused(ConfigError::Invalid("bad".to_string()))),
            Call::GetPolicy => Some(Reply::Policy(self.policy)),
            Call::SetPolicy(policy) => {
                self.policy = policy;
                Some(Reply::Done)
            }
            Call::CreateChannel(role, _) | Call::CreateOffer(role) | Call::CreateAnswer(role) => {
                failed(self.peers[index(role)].closed)
            }
            Call::SetLocal(role, _) => failed(self.peers[index(role)].closed),
            Call::SetRemote(role, description) => {
                let accepts = self.flaw == Flaw::AcceptsBadSdp;
                let peer = &mut self.peers[index(role)];
                match description {
                    _ if peer.closed => Some(Reply::Failed(Error::Closed)),
                    Description::Fixed(_, text) if !accepts => {
                        Some(Reply::Failed(Error::InvalidSignaling(text.to_string())))
                    }
                    _ => {
                        peer.remote_set = true;
                        Some(Reply::Done)
                    }
                }
            }
            Call::CollectCandidates(role) => {
                let peer = &mut self.peers[index(role)];
                let taken = peer.candidates_taken || self.flaw == Flaw::NoCandidates;
                peer.candidates_taken = true;
                Some(Reply::Yielded(if taken { 0 } else { 1 }))
            }
            Call::AddCandidate { to, .. } => failed(self.peers[index(to)].closed),
            Call::AddFixedCandidate(role, text) => {
                if self.peers[index(role)].closed {
                    Some(Reply::Failed(Error::Closed))
                } else {
                    Some(Reply::Failed(Error::InvalidSignaling(text.to_string())))
                }
            }
            Call::WaitConnected(role) => {
                let forgets = self.flaw == Flaw::ForgetsConnected;
                let peer = &mut self.peers[index(role)];
                if peer.connected && !(forgets && peer.closed) {
                    Some(Reply::Done)
                } else if peer.closed {
                    Some(Reply::Failed(Error::Closed))
                } else if peer.remote_set {
                    peer.connected = true;
                    Some(Reply::Done)
                } else {
                    Some(Reply::Failed(Error::TimedOut))
                }
            }
            Call::ReadIncoming(role) => {
                let peer = &mut self.peers[index(role)];
                let taken = peer.incoming_taken;
                peer.incoming_taken = true;
                Some(Reply::Yielded(if taken { 0 } else { 1 }))
            }
            Call::ClosePeer(role) => {
                self.peers[index(role)].closed = true;
                self.close_channel(role);
                Some(Reply::Done)
            }
            Call::Label(_) => Some(Reply::Label(if self.flaw == Flaw::WrongLabel {
                "other".to_string()
            } else {
                "conformance".to_string()
            })),
            Call::Send(role, payload) => Some(self.deliver(role, build_message(payload))),
            Call::Receive(role) => {
                let reorders = self.flaw == Flaw::Reorders;
                let channel = &mut self.channels[index(role)];
                if reorders && channel.inbox.len() == 1 && channel.popped % 2 == 0 {
                    // Held back until the next one overtakes it.
                    None
                } else if channel.claimed {
                    Some(Reply::Failed(Error::ReceivingViaStream))
                } else if channel.closed {
                    Some(Reply::Failed(Error::Closed))
                } else if let Some(message) = channel.inbox.pop_front() {
                    channel.popped += 1;
                    Some(Reply::Message(message))
                } else if channel.overflowed {
                    Some(Reply::Failed(Error::ReceiveBufferOverflow))
                } else if channel.remote_closed {
                    Some(Reply::Failed(Error::Closed))
                } else {
                    None
                }
            }
            Call::ReceiveViaStream(role) => {
                let channel = &mut self.channels[index(role)];
                if channel.closed {
                    Some(Reply::Failed(Error::Closed))
                } else if channel.claimed {
                    Some(Reply::Failed(Error::ReceivingViaStream))
                } else {
                    channel.claimed = true;
                    Some(Reply::Done)
                }
            }
            Call::ReadStream(role) => {
                let channel = &mut self.channels[index(role)];
                match channel.inbox.pop_front() {
                    Some(Message::Binary(bytes)) => Some(Reply::Items {
                        batch: vec![StreamItem {
                            is_text: false,
                            declared: bytes.len() as u32,
                            bytes,
                        }],
                        ended: false,
                    }),
                    Some(Message::Text(text)) => Some(Reply::Items {
                        batch: vec![StreamItem {
                            is_text: true,
                            declared: text.len() as u32,
                            bytes: text.into_bytes(),
                        }],
                        ended: false,
                    }),
                    None if channel.closed || channel.remote_closed => {
                        Some(Reply::Items { batch: Vec::new(), ended: true })
                    }
                    None => None,
                }
            }
            Call::SendViaStream(_) => {
                if self.feed_ended {
                    Some(Reply::Done)
                } else {
                    None
                }
            }
            Call::FeedHeader { .. } => Some(Reply::Done),
            Call::FeedPayload { index, size } => {
                let message = Message::Binary(make_payload(index, size));
                Some(self.deliver(PeerRole::Offerer, message))
            }
            Call::EndFeed => {
                self.feed_ended = true;
                Some(Reply::Done)
            }
            Call::CloseChannel(role) | Call::DropChannel(role) => {
                self.close_channel(role);
                Some(Reply::Done)
            }
            Call::TakeStates(_) => Some(Reply::Done),
            Call::ReadStates(stream) => {
                if !stream.first {
                    return Some(Reply::States { batch: Vec::new(), ended: true });
                }
                let repeats = self.flaw == Flaw::RepeatsStates;
                let reply = match stream.of {
                    Watched::Connection(role) => {
                        let peer = &mut self.peers[index(role)];
                        let state = if peer.closed {
                            ConnectionState::Closed
                        } else if peer.connected {
                            ConnectionState::Connected
                        } else {
                            ConnectionState::New
                        };
                        peer.watch.read(Seen::Connection(state))
                    }
                    Watched::Channel(role) => {
                        let channel = &mut self.channels[index(role)];
                        let state = if channel.closed || channel.remote_closed {
                            DataChannelState::Closed
                        } else {
                            DataChannelState::Open
                        };
                        channel.watch.read(Seen::Channel(state))
                    }
                };
                match reply {
                    Some(Reply::States { batch, ended }) if repeats && !batch.is_empty() => {
                        Some(Reply::States { batch: vec![batch[0], batch[0]], ended })
                    }
                    reply => reply,
                }
            }
        }
    }
}

/// Run instances over one world until each has come to its end.
fn run(cases: Vec<Case>, world: &mut World) -> Vec<Result<(), String>> {
    let mut runs: Vec<(Run, Option<(Lane, Lane)>)> = cases
        .into_iter()
        .map(|case| {
            let run = Run::new(case);
            let lanes = run.lanes();
            (run, lanes)
        })
        .collect();
    loop {
        let mut moved = false;
        let mut open = false;
        for (run, lanes) in &mut runs {
            let Some((left, right)) = lanes else { continue };
            open = true;
            for lane in [&mut *left, &mut *right] {
                if let Some(call) = lane.call() {
                    if let Some(reply) = world.perform(call) {
                        lane.reply(reply);
                        moved = true;
                    }
                }
            }
            if left.call().is_none() && right.call().is_none() {
                let (left, right) = lanes.take().unwrap();
                run.phase_done(left.failure(), right.failure());
                *lanes = run.lanes();
                moved = true;
            }
        }
        if !open {
            break;
        }
        assert!(moved, "the instances wait for each other");
    }
    runs.into_iter().map(|(run, _)| run.verdict()).collect()
}

fn run_solo(id: &str, flaw: Flaw) -> Result<(), String> {
    run(vec![solo(id)], &mut World::new(flaw)).remove(0)
}

fn run_pair(id: &str, flaw: Flaw) -> (Result<(), String>, Result<(), String>) {
    let cases =
        vec![pair(id, PeerRole::Offerer).unwrap(), pair(id, PeerRole::Answerer).unwrap()];
    let mut ends = run(cases, &mut World::new(flaw));
    let answerer = ends.remove(1);
    (ends.remove(0), answerer)
}

#[test]
fn every_solo_case_passes_on_a_sound_host() {
    for id in IN_PROCESS_TESTS {
        assert_eq!(run_solo(id, Flaw::Sound), Ok(()), "{id}");
    }
}

#[test]
fn every_pair_case_passes_on_a_sound_host() {
    for id in TWO_PEER_TESTS {
        assert_eq!(run_pair(id, Flaw::Sound), (Ok(()), Ok(())), "{id}");
    }
}

#[test]
fn accepted_bad_sdp_is_found() {
    assert_eq!(
        run_solo("peer-invalid-sdp", Flaw::AcceptsBadSdp),
        Err("malformed SDP was accepted".to_string())
    );
}

#[test]
fn unbounded_buffers_are_found() {
    let mut world = World::new(Flaw::NeverOverflows);
    world.channels[0].remote_closed = false;
    let case = solo("receive-buffer-overflow");
    let run = Run::new(case);
    assert!(run.lanes().is_some());
    // The flooding side would wait for ever: nothing closes towards it.
    let mut lane = Lane::new(vec![
        Task::Flood { on: PeerRole::Offerer, count: 64, size: 16384 },
        Task::Refuse(
            Call::Receive(PeerRole::Offerer),
            Refusal {
                kind: ErrorKind::ClosedOrOverflow,
                on_success: "delivered",
                on_other: "other: ",
            },
        ),
    ]);
    let mut sends = 0;
    while let Some(call) = lane.call() {
        match world.perform(call) {
            Some(reply) => lane.reply(reply),
            None => break,
        }
        sends += 1;
    }
    assert_eq!(sends, 64);
    assert!(matches!(lane.call(), Some(Call::Receive(PeerRole::Offerer))));
}

#[test]
fn forgotten_connections_are_found() {
    assert_eq!(
        run_solo("peer-wait-connected-latch", Flaw::ForgetsConnected),
        Err("wait-connected after close: expected ok (connected is latched), got closed"
            .to_string())
    );
}

#[test]
fn ungathered_candidates_are_found() {
    assert_eq!(
        run_solo("peer-local-ice-candidates", Flaw::NoCandidates),
        Err("no local ICE candidates were gathered".to_string())
    );
    assert_eq!(run_solo("peer-offer-answer", Flaw::NoCandidates), Ok(()));
}

#[test]
fn repeated_states_are_found() {
    assert_eq!(
        run_solo("connection-state-changes", Flaw::RepeatsStates),
        Err("consecutive duplicate state ConnectionState::Closed".to_string())
    );
}

#[test]
fn corruption_is_found() {
    let expected = Err("payload failed integrity check".to_string());
    assert_eq!(run_pair("payload-integrity", Flaw::Corrupts), (expected.clone(), expected));
    let expected = Err("binary payload mismatch".to_string());
    assert_eq!(run_pair("binary-message", Flaw::Corrupts), (expected.clone(), expected));
}

#[test]
fn reordering_is_found_where_order_is_asked_for() {
    let (offerer, _) = run_pair("ordering", Flaw::Reorders);
    let detail = offerer.unwrap_err();
    assert!(detail.starts_with("message ") && detail.contains(" carried index "), "{detail}");
}

#[test]
fn wrong_labels_are_found() {
    let expected = Err("label was \"other\", expected \"conformance\"".to_string());
    assert_eq!(run_pair("label-round-trip", Flaw::WrongLabel), (expected.clone(), expected));
}

#[test]
fn text_sent_as_binary_is_found() {
    let expected = Err("text message arrived as binary".to_string());
    assert_eq!(run_pair("text-message", Flaw::TextAsBinary), (expected.clone(), expected));
}

#[test]
fn close_that_loses_the_tail_is_found() {
    let (_, answerer) = run_pair("channel-close-flush", Flaw::DropsTail);
    let detail = answerer.unwrap_err();
    assert!(detail.ends_with("closed"), "{detail}");
}

#[test]
fn unknown_pair_case_is_an_error() {
    assert_eq!(
        pair("no-such-test", PeerRole::Offerer).err().unwrap(),
        "unhandled test id \"no-such-test\""
    );
}

#[test]
fn first_failure_is_what_a_case_reports() {
    let phase = |message: &'static str| {
        Phase::one(vec![Task::Succeed(Call::CreateOffer(PeerRole::Offerer), message)])
    };
    let mut run = Run::new(Case::plain(vec![phase("a: "), phase("b: ")]));
    assert!(run.lanes().is_some());
    run.phase_done(Some("a: closed".to_string()), None);
    assert!(run.lanes().is_none());
    assert_eq!(run.verdict(), Err("a: closed".to_string()));
}

#[test]
fn right_lane_is_reported_first_where_asked() {
    let tasks = || vec![Task::Do(Call::NewConfig)];
    let mut run = Run::new(Case::plain(vec![Phase::two_right_first(tasks(), tasks())]));
    run.phase_done(Some("left".to_string()), Some("right".to_string()));
    assert_eq!(run.verdict(), Err("right".to_string()));
    let mut run = Run::new(Case::plain(vec![Phase::two(tasks(), tasks())]));
    run.phase_done(Some("left".to_string()), Some("right".to_string()));
    assert_eq!(run.verdict(), Err("left".to_string()));
}

#[test]
fn cleanup_runs_after_a_guarded_failure() {
    let mut world = World::new(Flaw::Sound);
    world.peers[0].remote_set = true;
    let ends = run(vec![solo("error-timed-out")], &mut world);
    assert_eq!(
        ends[0],
        Err("wait-connected resolved without a remote peer".to_string())
    );
    assert!(world.peers[0].closed);
}

#[test]
fn stream_items_are_checked() {
    let read = |item: StreamItem| {
        let mut lane = Lane::new(vec![Task::ReadAll { on: PeerRole::Answerer, count: 1 }]);
        lane.reply(Reply::Items { batch: vec![item], ended: false });
        lane.failure()
    };
    assert_eq!(
        read(StreamItem { is_text: false, declared: 9, bytes: vec![0; 8] }),
        Some("stream-message declared 9 bytes but carried 8".to_string())
    );
    assert_eq!(
        read(StreamItem { is_text: true, declared: 1, bytes: vec![0xff] }),
        Some("text stream-message payload is not UTF-8".to_string())
    );
    assert_eq!(
        read(StreamItem { is_text: false, declared: 3, bytes: vec![0; 3] }),
        Some("payload failed integrity check".to_string())
    );
    assert_eq!(
        read(StreamItem { is_text: false, declared: 16, bytes: make_payload(0, 16) }),
        None
    );
    let mut lane = Lane::new(vec![Task::ReadAll { on: PeerRole::Answerer, count: 2 }]);
    lane.reply(Reply::Items { batch: Vec::new(), ended: true });
    assert_eq!(lane.failure(), Some("stream ended after 0 of 2 message(s)".to_string()));
}

#[test]
fn batches_of_states_do_not_matter() {
    let stream = rtc_conformance::script::StateStream {
        of: Watched::Channel(PeerRole::Offerer),
        first: true,
    };
    let task = || {
        vec![Task::DrainStates(
            stream,
            rtc_conformance::script::StreamEnd::Closed("expected closed, got "),
        )]
    };
    let open = Seen::Channel(DataChannelState::Open);
    let closing = Seen::Channel(DataChannelState::Closing);
    let closed = Seen::Channel(DataChannelState::Closed);
    let mut whole = Lane::new(task());
    whole.reply(Reply::States { batch: vec![open, closing, closed], ended: true });
    assert_eq!(whole.failure(), None);
    let mut parts = Lane::new(task());
    parts.reply(Reply::States { batch: vec![open], ended: false });
    parts.reply(Reply::States { batch: vec![closing, closed], ended: false });
    parts.reply(Reply::States { batch: Vec::new(), ended: true });
    assert_eq!(parts.failure(), None);
    let mut late = Lane::new(task());
    late.reply(Reply::States { batch: vec![closed, open], ended: true });
    assert_eq!(
        late.failure().unwrap(),
        "state DataChannelState::Open delivered after a terminal state"
    );
    let mut short = Lane::new(task());
    short.reply(Reply::States { batch: vec![open], ended: true });
    assert_eq!(short.failure().unwrap(), "expected closed, got [DataChannelState::Open]");
}
