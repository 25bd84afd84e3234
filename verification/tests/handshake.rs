//! The handshakes of the suite's peer and of the reference peer, over an in-memory room.

use std::collections::VecDeque;

use rtc_conformance::handshake::{channel_options, mailbox_refused, Ask, Event, Handshake, Move};
use rtc_conformance::lab::PeerRole;
use rtc_conformance::reference::{adopt_candidate, announce, RawCandidate};
use rtc_conformance::rendezvous::{PeerAsk, PeerEvent, PeerMove, Rendezvous};
use rtc_conformance::script::ChannelOptions;
use rtc_conformance::signaling::{
    offer_missing, posted, recv_refused, show_signal, trickle, Mailbox, Polled, Signal,
};
use rtc_conformance::wire::{
    ConnectionState, DataChannelState, Error, IceCandidate, SdpType,
};

/// One side's mailbox.
#[derive(Default)]
struct Inbox {
    signals: VecDeque<Signal>,
    done: bool,
}

/// A peer of either kind.
enum Side {
    Suite(Option<Handshake>, Option<Ask>),
    Reference(Option<Rendezvous>, Option<PeerAsk>, usize),
    Over(Result<(), String>),
}

fn candidate(name: &str) -> IceCandidate {
    IceCandidate {
        candidate: name.to_string(),
        sdp_mid: Some("0".to_string()),
        sdp_mline_index: Some(0),
    }
}

/// What a peer was asked to apply.
#[derive(Default, Debug)]
struct Seen {
    remote: Vec<(SdpType, String)>,
    candidates: Vec<String>,
    looks: usize,
}

fn next_signal(inbox: &mut Inbox) -> Option<Option<Signal>> {
    match inbox.signals.pop_front() {
        Some(signal) => Some(Some(signal)),
        None if inbox.done => Some(None),
        None => None,
    }
}

/// Perform one step of a side; whether it moved.
fn step(side: &mut Side, own: &mut Inbox, other: &mut Inbox, seen: &mut Seen, name: &str) -> bool {
    match side {
        Side::Over(_) => false,
        Side::Suite(handshake, ask) => {
            let event = match ask.take().unwrap() {
                Ask::CreateDescription(kind) => Event::Described(format!("{name} {kind:?}")),
                Ask::SetRemote(description) => {
                    seen.remote.push((description.kind, description.sdp));
                    Event::Done
                }
                Ask::Publish(signal) => {
                    own.signals.push_back(signal);
                    Event::Done
                }
                Ask::CollectCandidates => {
                    Event::Gathered(vec![candidate(&format!("{name}-1")), candidate(&format!("{name}-2"))])
                }
                Ask::MarkDone => {
                    own.done = true;
                    Event::Done
                }
                Ask::Receive => match next_signal(other) {
                    Some(signal) => Event::Received(signal),
                    None => {
                        *ask = Some(Ask::Receive);
                        return false;
                    }
                },
                Ask::AddCandidate(candidate) => {
                    seen.candidates.push(candidate.candidate);
                    Event::Done
                }
                Ask::Adopt => Event::Adopted(true),
                Ask::CreateChannel(_) | Ask::SetLocal | Ask::WaitConnected => Event::Done,
            };
            let (next, what) = handshake.take().unwrap().step(event);
            *side = match what {
                Move::Ask(ask) => Side::Suite(Some(next), Some(ask)),
                Move::Connected => Side::Over(Ok(())),
                Move::Failed(detail) => Side::Over(Err(detail)),
                Move::Stay => panic!("{name} was given an answer to nothing"),
            };
            true
        }
        Side::Reference(rendezvous, ask, gathered) => {
            let event = match ask.take().unwrap() {
                PeerAsk::CreateDescription(kind) => {
                    PeerEvent::Described(format!("{name} {kind:?}"))
                }
                PeerAsk::SetRemote(kind, sdp) => {
                    seen.remote.push((kind, sdp));
                    PeerEvent::Done
                }
                PeerAsk::Send(signal) => {
                    own.signals.push_back(signal);
                    PeerEvent::Done
                }
                PeerAsk::NextCandidate => {
                    *gathered += 1;
                    PeerEvent::Candidate(if *gathered <= 2 {
                        Some(RawCandidate {
                            sdp_mid: "0".to_string(),
                            sdp_mline_index: 0,
                            candidate: format!("{name}-{gathered}"),
                        })
                    } else {
                        None
                    })
                }
                PeerAsk::MarkDone => {
                    own.done = true;
                    PeerEvent::Done
                }
                PeerAsk::Receive => match next_signal(other) {
                    Some(signal) => PeerEvent::Received(signal),
                    None => {
                        *ask = Some(PeerAsk::Receive);
                        return false;
                    }
                },
                PeerAsk::AddCandidate(candidate) => {
                    seen.candidates.push(candidate.candidate);
                    PeerEvent::Done
                }
                PeerAsk::Incoming => PeerEvent::Opened(true),
                PeerAsk::LookConnection { changed } => PeerEvent::Connection(if changed {
                    ConnectionState::Connected
                } else {
                    ConnectionState::Connecting
                }),
                PeerAsk::LookChannel { .. } => {
                    seen.looks += 1;
                    PeerEvent::Channel(if seen.looks < 3 {
                        DataChannelState::Connecting
                    } else {
                        DataChannelState::Open
                    })
                }
                PeerAsk::CreateChannel | PeerAsk::SetLocal => PeerEvent::Done,
            };
            let gathered = *gathered;
            let (next, what) = rendezvous.take().unwrap().step(event);
            *side = match what {
                PeerMove::Ask(ask) => Side::Reference(Some(next), Some(ask), gathered),
                PeerMove::Connected => Side::Over(Ok(())),
                PeerMove::Failed(detail) => Side::Over(Err(detail)),
                PeerMove::Stay => panic!("{name} was given an answer to nothing"),
            };
            true
        }
    }
}

fn suite(role: PeerRole) -> Side {
    let (handshake, ask) = Handshake::begin(role, "ordering");
    Side::Suite(Some(handshake), Some(ask))
}

fn reference(role: PeerRole) -> Side {
    let (rendezvous, ask) = Rendezvous::begin(role);
    Side::Reference(Some(rendezvous), Some(ask), 0)
}

/// Let two sides meet; what either saw.
fn meet(mut a: Side, mut b: Side) -> (Seen, Seen) {
    let (mut to_b, mut to_a) = (Inbox::default(), Inbox::default());
    let (mut at_a, mut at_b) = (Seen::default(), Seen::default());
    loop {
        let first = step(&mut a, &mut to_b, &mut to_a, &mut at_a, "a");
        let second = step(&mut b, &mut to_a, &mut to_b, &mut at_b, "b");
        if !first && !second {
            break;
        }
    }
    assert!(matches!(a, Side::Over(Ok(()))));
    assert!(matches!(b, Side::Over(Ok(()))));
    (at_a, at_b)
}

fn met(a: Side, b: Side) {
    let (at_a, at_b) = meet(a, b);
    assert_eq!(at_b.remote, [(SdpType::Offer, "a Offer".to_string())]);
    assert_eq!(at_a.remote, [(SdpType::Answer, "b Answer".to_string())]);
    assert_eq!(at_b.candidates, ["a-1", "a-2"]);
    assert_eq!(at_a.candidates, ["b-1", "b-2"]);
}

#[test]
fn suite_peers_meet() {
    met(suite(PeerRole::Offerer), suite(PeerRole::Answerer));
}

#[test]
fn reference_peers_meet() {
    met(reference(PeerRole::Offerer), reference(PeerRole::Answerer));
}

#[test]
fn suite_and_reference_peers_meet() {
    met(suite(PeerRole::Offerer), reference(PeerRole::Answerer));
    met(reference(PeerRole::Offerer), suite(PeerRole::Answerer));
}

fn answerer_told(signal: Option<Signal>) -> Move {
    let (handshake, ask) = Handshake::begin(PeerRole::Answerer, "ordering");
    assert!(matches!(ask, Ask::Receive));
    handshake.step(Event::Received(signal)).1
}

#[test]
fn answerer_insists_on_an_offer() {
    let told = answerer_told(Some(Signal::EndOfCandidates));
    assert!(
        matches!(told, Move::Failed(detail) if detail == "expected offer, got Some(EndOfCandidates)")
    );
    let told = answerer_told(None);
    assert!(matches!(told, Move::Failed(detail) if detail == "expected offer, got None"));
    let told = answerer_told(Some(Signal::Offer { sdp: "x".to_string() }));
    assert!(matches!(told, Move::Ask(Ask::SetRemote(d)) if d.kind == SdpType::Offer && d.sdp == "x"));
}

#[test]
fn second_offer_is_refused() {
    let (handshake, _) = Handshake::begin(PeerRole::Offerer, "ordering");
    let (handshake, _) = handshake.step(Event::Done);
    let (handshake, _) = handshake.step(Event::Described("sdp".to_string()));
    let (handshake, _) = handshake.step(Event::Done);
    let (handshake, _) = handshake.step(Event::Done);
    let (handshake, what) = handshake.step(Event::Gathered(Vec::new()));
    assert!(matches!(what, Move::Ask(Ask::Publish(Signal::EndOfCandidates))));
    let (handshake, what) = handshake.step(Event::Done);
    assert!(matches!(what, Move::Ask(Ask::MarkDone)));
    let (handshake, what) = handshake.step(Event::Done);
    assert!(matches!(what, Move::Ask(Ask::Receive)));
    let (handshake, what) =
        handshake.step(Event::Received(Some(Signal::Offer { sdp: "again".to_string() })));
    assert!(matches!(what, Move::Failed(detail) if detail == "unexpected second offer"));
    let (_, what) = handshake.step(Event::Done);
    assert!(matches!(what, Move::Stay));
}

#[test]
fn failures_name_the_step() {
    let (handshake, ask) = Handshake::begin(PeerRole::Offerer, "max-retransmits-accepted");
    assert!(matches!(ask, Ask::CreateChannel(ChannelOptions::Unreliable)));
    let (_, what) = handshake.step(Event::Failed(Error::Other("no".to_string())));
    assert!(matches!(what, Move::Failed(detail) if detail == "create-data-channel: other: no"));
    assert_eq!(mailbox_refused(&Error::TimedOut), "mailbox open: timed-out");
    assert!(matches!(channel_options("ordering"), ChannelOptions::Labelled));
}

#[test]
fn reference_peer_gives_up_on_a_channel_that_does_not_open() {
    let (rendezvous, _) = Rendezvous::begin(PeerRole::Offerer);
    let (rendezvous, _) = rendezvous.step(PeerEvent::Done);
    let (rendezvous, _) = rendezvous.step(PeerEvent::Described("sdp".to_string()));
    let (rendezvous, _) = rendezvous.step(PeerEvent::Done);
    let (rendezvous, _) = rendezvous.step(PeerEvent::Done);
    let (rendezvous, _) = rendezvous.step(PeerEvent::Candidate(None));
    let (rendezvous, _) = rendezvous.step(PeerEvent::Done);
    let (rendezvous, _) = rendezvous.step(PeerEvent::Done);
    let (rendezvous, _) = rendezvous.step(PeerEvent::Received(None));
    let (mut rendezvous, _) = rendezvous.step(PeerEvent::Connection(ConnectionState::Connected));
    let mut looks = 0;
    loop {
        looks += 1;
        let (next, what) = rendezvous.step(PeerEvent::Channel(DataChannelState::Connecting));
        rendezvous = next;
        match what {
            PeerMove::Ask(PeerAsk::LookChannel { pause_ms: 25 }) => {}
            PeerMove::Failed(detail) => {
                assert_eq!(detail, "channel did not open");
                break;
            }
            other => panic!("{other:?}"),
        }
    }
    // The last of the looks is followed by a pause, too.
    assert_eq!(looks, 1201);
}

#[test]
fn candidates_cross_the_mailbox() {
    let raw = RawCandidate {
        sdp_mid: "audio".to_string(),
        sdp_mline_index: 7,
        candidate: "candidate:1".to_string(),
    };
    let Signal::Candidate { candidate, sdp_mid, sdp_mline_index } = announce(raw) else {
        panic!("not a candidate");
    };
    assert_eq!((sdp_mid.as_deref(), sdp_mline_index), (Some("audio"), Some(7)));
    let back = adopt_candidate(candidate, sdp_mid, sdp_mline_index);
    assert_eq!((back.sdp_mid.as_str(), back.sdp_mline_index), ("audio", 7));
    assert_eq!(back.candidate, "candidate:1");
    let blank = adopt_candidate("c".to_string(), None, None);
    assert_eq!((blank.sdp_mid.as_str(), blank.sdp_mline_index), ("", 0));
    let odd = announce(RawCandidate {
        sdp_mid: String::new(),
        sdp_mline_index: -1,
        candidate: String::new(),
    });
    assert!(matches!(odd, Signal::Candidate { sdp_mline_index: None, .. }));
}

#[test]
fn signals_are_shown_in_details() {
    assert_eq!(
        show_signal(&trickle(candidate("c"))),
        "Candidate { candidate: \"c\", sdp_mid: Some(\"0\"), sdp_mline_index: Some(0) }"
    );
    assert_eq!(
        offer_missing(&Some(Signal::Answer { sdp: "a\n".to_string() })),
        "expected offer, got Some(Answer { sdp: \"a\\n\" })"
    );
}

#[test]
fn mailboxes_name_each_other() {
    let mut ours = Mailbox::new("http://h:1//", "room", "offerer");
    let theirs = Mailbox::new("http://h:1", "room", "answerer");
    assert_eq!(ours.send_url(), "http://h:1/rooms/room/offerer");
    assert_eq!(ours.done_url(), "http://h:1/rooms/room/offerer/done");
    assert_eq!(theirs.recv_url(), "http://h:1/rooms/room/offerer?seq=0&wait=10000");
    assert!(ours.recv_status(304) == Polled::Again);
    assert_eq!(ours.recv_url(), "http://h:1/rooms/room/answerer?seq=0&wait=10000");
    assert!(ours.recv_status(200) == Polled::Signal);
    assert_eq!(ours.recv_url(), "http://h:1/rooms/room/answerer?seq=1&wait=10000");
    assert!(ours.recv_status(204) == Polled::Done);
    assert!(ours.recv_status(500) == Polled::Refused(500));
    assert_eq!(recv_refused(500), "mailbox recv: HTTP 500");
    assert_eq!(posted("send", 204, "204 No Content"), Ok(()));
    assert_eq!(
        posted("done", 404, "404 Not Found"),
        Err("mailbox done: HTTP 404 Not Found".to_string())
    );
}
