//! The reference peer's exchanges, over an in-memory channel.

use std::collections::VecDeque;

use rtc_conformance::corpus::{params_for, TWO_PEER_TESTS};
use rtc_conformance::lab::PeerRole;
use rtc_conformance::reference::{
    barrier, channel_init, exchange, look_connected, peer_plan, result_line, setup, Look, OpenWait,
    PeerCall, PeerEnd, PeerLane, PeerReply, PeerTask,
};
use rtc_conformance::stimulus::{build_message, Payload};
use rtc_conformance::wire::{ConnectionState, DataChannelState, Message};

#[derive(Default)]
struct End {
    inbox: VecDeque<(bool, Vec<u8>)>,
    closed: bool,
    close_seen: bool,
    pauses: Vec<u64>,
}

fn perform(call: PeerCall, own: &mut End, other: &mut End) -> Option<PeerReply> {
    match call {
        PeerCall::Label => Some(PeerReply::Label("conformance".to_string())),
        PeerCall::Send(payload) => {
            if own.closed || other.closed {
                return Some(PeerReply::SendFailed("closed".to_string()));
            }
            other.inbox.push_back(match build_message(payload) {
                Message::Binary(bytes) => (true, bytes),
                Message::Text(text) => (false, text.into_bytes()),
            });
            Some(PeerReply::Done)
        }
        PeerCall::Receive => match own.inbox.pop_front() {
            Some((binary, data)) => Some(PeerReply::Message { binary, data }),
            None if own.closed || other.closed => {
                own.close_seen = true;
                Some(PeerReply::Ended)
            }
            None => None,
        },
        PeerCall::Close => {
            own.closed = true;
            Some(PeerReply::Done)
        }
        PeerCall::Pause(ms) => {
            own.pauses.push(ms);
            Some(PeerReply::Done)
        }
    }
}

fn run(offerer: Vec<PeerTask>, answerer: Vec<PeerTask>) -> (End, End, [Option<String>; 2]) {
    let (mut a, mut b) = (PeerLane::new(offerer), PeerLane::new(answerer));
    let (mut at_a, mut at_b) = (End::default(), End::default());
    loop {
        let mut moved = false;
        if let Some(call) = a.call() {
            if let Some(reply) = perform(call, &mut at_a, &mut at_b) {
                a.reply(reply);
                moved = true;
            }
        }
        if let Some(call) = b.call() {
            if let Some(reply) = perform(call, &mut at_b, &mut at_a) {
                b.reply(reply);
                moved = true;
            }
        }
        if !moved {
            assert!(a.call().is_none() && b.call().is_none(), "the peers wait for each other");
            return (at_a, at_b, [a.failure(), b.failure()]);
        }
    }
}

#[test]
fn reference_peers_pass_every_test() {
    for id in TWO_PEER_TESTS {
        let (count, size) = params_for(id);
        let (_, _, failures) = run(
            peer_plan(id, PeerRole::Offerer, count, size).unwrap(),
            peer_plan(id, PeerRole::Answerer, count, size).unwrap(),
        );
        assert_eq!(failures, [None, None], "{id}");
    }
}

#[test]
fn close_flush_is_paced() {
    let (offerer, _, failures) = run(
        peer_plan("channel-close-flush", PeerRole::Offerer, 2, 16).unwrap(),
        peer_plan("channel-close-flush", PeerRole::Answerer, 2, 16).unwrap(),
    );
    assert_eq!(failures, [None, None]);
    assert_eq!(offerer.pauses, [250, 20, 20, 500]);
}

#[test]
fn unknown_test_is_unhandled() {
    assert_eq!(
        exchange("nope", PeerRole::Offerer, 1, 16).unwrap_err(),
        "unhandled test id \"nope\""
    );
}

fn judge(tasks: Vec<PeerTask>, replies: Vec<PeerReply>) -> Option<String> {
    let mut lane = PeerLane::new(tasks);
    for reply in replies {
        assert!(lane.call().is_some());
        lane.reply(reply);
    }
    lane.failure()
}

#[test]
fn failures_are_told() {
    let binary = || exchange("binary-message", PeerRole::Offerer, 1, 16).unwrap();
    assert_eq!(
        judge(binary(), vec![PeerReply::SendFailed("gone".to_string())]),
        Some("send: gone".to_string())
    );
    assert_eq!(
        judge(binary(), vec![PeerReply::Done, PeerReply::Ended]),
        Some("receive: closed".to_string())
    );
    assert_eq!(
        judge(
            binary(),
            vec![PeerReply::Done, PeerReply::Message { binary: false, data: vec![0, 1, 2, 3, 4, 5] }]
        ),
        Some("binary payload mismatch".to_string())
    );
    assert_eq!(
        judge(
            exchange("label-round-trip", PeerRole::Offerer, 1, 16).unwrap(),
            vec![PeerReply::Label("x".to_string())]
        ),
        Some("label was \"x\", expected \"conformance\"".to_string())
    );
}

#[test]
fn barrier_ends_with_a_close() {
    assert_eq!(judge(barrier(), vec![PeerReply::SendFailed("closed".to_string())]), None);
    assert_eq!(judge(barrier(), vec![PeerReply::Done, PeerReply::Ended]), None);
    let Message::Binary(sentinel) = build_message(Payload::Sentinel) else {
        panic!("the sentinel is binary");
    };
    let noise = PeerReply::Message { binary: true, data: vec![1] };
    let end = PeerReply::Message { binary: true, data: sentinel };
    assert_eq!(judge(barrier(), vec![PeerReply::Done, noise, end]), None);
}

#[test]
fn channel_options_follow_the_test() {
    assert!(channel_init("ordering").ordered);
    assert_eq!(channel_init("ordering").max_retransmits, None);
    assert_eq!(channel_init("max-retransmits-accepted").max_retransmits, Some(0));
}

#[test]
fn ice_setup_follows_the_flags() {
    let plain = setup(None, String::new(), String::new(), false);
    assert!(plain.ice_servers.is_empty() && plain.gather_once && !plain.relay_only);
    let turn = setup(
        Some("turn:h:1".to_string()),
        "user".to_string(),
        "SECRET-REDACTED".to_string(),
        true,
    );
    assert_eq!(turn.ice_servers[0].urls, ["turn:h:1"]);
    assert_eq!(turn.ice_servers[0].username, "user");
    assert_eq!(turn.ice_servers[0].password, "SECRET-REDACTED");
    assert!(turn.relay_only);
}

#[test]
fn waits_look_at_states() {
    assert!(matches!(look_connected(ConnectionState::Connected), Look::Ready));
    assert!(matches!(look_connected(ConnectionState::Disconnected), Look::Wait));
    assert!(matches!(
        look_connected(ConnectionState::Failed),
        Look::Failed(error) if error == "connection failed before connecting"
    ));
    let mut wait = OpenWait::new();
    assert!(matches!(wait.look(DataChannelState::Connecting), Look::Wait));
    assert!(matches!(
        wait.look(DataChannelState::Closing),
        Look::Failed(error) if error == "channel closed before open"
    ));
    assert!(matches!(OpenWait::new().look(DataChannelState::Open), Look::Ready));
}

#[test]
fn results_are_lines_of_json() {
    assert_eq!(result_line(PeerEnd::Passed), "{\"tag\":\"pass\"}");
    assert_eq!(result_line(PeerEnd::TimedOut), "{\"tag\":\"fail\",\"val\":\"timed-out\"}");
    assert_eq!(
        result_line(PeerEnd::Failed("parse offer: \"x\"".to_string())),
        "{\"tag\":\"fail\",\"val\":\"parse offer: \\\"x\\\"\"}"
    );
}
