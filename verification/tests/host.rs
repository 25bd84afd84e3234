//! The native host's data channel: its buffer, its pump and its close.

use rtc_conformance::corpus::{params_for, CONFORMANCE_MAX_INBOUND_BUFFER_BYTES};
use rtc_conformance::environment::Variable;
use rtc_conformance::host::{
    max_inbound_buffer_bytes_from_env, ChanState, ChannelPump, CloseSignal, Connection, DataChannel, FeedAction,
    FeedEvent, HostMessage, InboundBudget, InboundQueue, PumpAction, Taken, TransportEvent,
    CLOSE_FLUSH_BOUND_MS, DEFAULT_MAX_INBOUND_BUFFER_BYTES, FLUSH_PAUSE_MS,
};

fn message(len: usize) -> HostMessage {
    HostMessage { is_string: false, data: vec![7; len] }
}

#[test]
fn bound_is_read_from_the_environment() {
    let text = |value: &str| {
        max_inbound_buffer_bytes_from_env(Variable::Text(value.to_string()))
    };
    assert_eq!(max_inbound_buffer_bytes_from_env(Variable::Unset), Ok(None));
    assert_eq!(text(""), Ok(None));
    assert_eq!(text("524288"), Ok(Some(524288)));
    assert_eq!(text("+7"), Ok(Some(7)));
    for bad in ["0", "-1", "8MiB", " 1", "+", "99999999999999999999999"] {
        assert_eq!(
            text(bad),
            Err(format!(
                "invalid WEBRTC_MAX_INBOUND_BUFFER_BYTES {bad:?}: expected a positive byte count"
            ))
        );
    }
    assert_eq!(
        max_inbound_buffer_bytes_from_env(Variable::NotText("\"\\xFF\"".to_string())),
        Err("invalid WEBRTC_MAX_INBOUND_BUFFER_BYTES \"\\xFF\": expected a positive byte count"
            .to_string())
    );
    assert_eq!(DEFAULT_MAX_INBOUND_BUFFER_BYTES, 8 * 1024 * 1024);
}

#[test]
fn budget_latches_its_overflow() {
    let mut budget = InboundBudget::new(10);
    assert!(budget.reserve(10));
    assert!(!budget.reserve(1));
    assert!(budget.overflowed());
    budget.release(10);
    assert!(!budget.reserve(1));
    let mut huge = InboundBudget::new(usize::MAX);
    assert!(huge.reserve(1));
    assert!(huge.reserve(usize::MAX - 1));
}

#[test]
fn queue_delivers_its_backlog_and_then_its_end() {
    let mut queue = InboundQueue::new(10);
    assert!(queue.arrive(message(4)));
    assert!(queue.arrive(message(0)));
    assert!(matches!(queue.next(), Taken::Message(m) if m.data.len() == 4));
    assert!(queue.arrive(message(10)));
    assert!(!queue.arrive(message(1)));
    assert!(queue.overflowed());
    assert!(matches!(queue.next(), Taken::Message(m) if m.data.is_empty()));
    assert!(matches!(queue.next(), Taken::Message(m) if m.data.len() == 10));
    assert!(matches!(queue.next(), Taken::Pending));
    queue.end();
    assert!(matches!(queue.next(), Taken::Overflowed));
    let mut closed = InboundQueue::new(1);
    closed.end();
    assert!(matches!(closed.next(), Taken::Closed));
}

#[test]
fn pump_opens_once_and_closes_on_overflow() {
    let mut pump = ChannelPump::new(5);
    assert!(matches!(pump.event(TransportEvent::Open), PumpAction::SignalOpen));
    assert!(matches!(pump.event(TransportEvent::Open), PumpAction::Continue));
    assert!(matches!(pump.event(TransportEvent::Other), PumpAction::Continue));
    assert!(matches!(pump.event(TransportEvent::Message(message(5))), PumpAction::Continue));
    assert!(matches!(pump.event(TransportEvent::Message(message(1))), PumpAction::CloseChannel));
    assert!(matches!(pump.event(TransportEvent::Message(message(0))), PumpAction::CloseChannel));
    assert!(matches!(pump.event(TransportEvent::Close), PumpAction::Stop));
    assert!(pump.wired());
    assert!(matches!(pump.incoming.next(), Taken::Message(m) if m.data.len() == 5));
    assert!(matches!(pump.incoming.next(), Taken::Overflowed));
    let mut stillborn = ChannelPump::new(5);
    assert!(matches!(stillborn.event(TransportEvent::End), PumpAction::Stop));
    assert!(!stillborn.wired());
}

#[test]
fn close_signals_fire_once() {
    let mut signal = CloseSignal::new();
    assert!(!signal.is_closed());
    assert!(signal.fire());
    assert!(!signal.fire());
    assert!(signal.is_closed());
}

#[test]
fn local_close_flushes_before_it_closes() {
    let mut dc = DataChannel::deferred("l".to_string());
    assert!(dc.state() == ChanState::Connecting);
    assert!(matches!(dc.feed(FeedEvent::Wired(true)), FeedAction::AwaitClose));
    assert!(dc.state() == ChanState::Open);
    assert!(dc.close());
    assert!(!dc.close());
    assert!(dc.is_locally_closed() && dc.state() == ChanState::Closing);
    assert!(matches!(
        dc.feed(FeedEvent::LocallyClosed(100)),
        FeedAction::LookAtTime { pause_ms: 0 }
    ));
    assert!(matches!(dc.feed(FeedEvent::Time(101)), FeedAction::LookAtOutstanding));
    assert!(matches!(
        dc.feed(FeedEvent::Outstanding(Some(9))),
        FeedAction::LookAtTime { pause_ms: FLUSH_PAUSE_MS }
    ));
    assert!(matches!(dc.feed(FeedEvent::Time(111)), FeedAction::LookAtOutstanding));
    assert!(matches!(dc.feed(FeedEvent::Outstanding(Some(0))), FeedAction::CloseTransport));
    assert!(dc.state() == ChanState::Closing);
    assert!(matches!(dc.feed(FeedEvent::TransportCloseDone), FeedAction::Stop));
    assert!(dc.state() == ChanState::Closed);
}

#[test]
fn flush_gives_up_at_its_deadline() {
    let mut dc = DataChannel::deferred("l".to_string());
    dc.feed(FeedEvent::Wired(true));
    dc.close();
    dc.feed(FeedEvent::LocallyClosed(100));
    assert!(matches!(
        dc.feed(FeedEvent::Time(100 + CLOSE_FLUSH_BOUND_MS)),
        FeedAction::CloseTransport
    ));
    let mut lost = DataChannel::deferred("l".to_string());
    lost.feed(FeedEvent::Wired(true));
    lost.close();
    lost.feed(FeedEvent::LocallyClosed(100));
    lost.feed(FeedEvent::Time(100));
    assert!(matches!(lost.feed(FeedEvent::Outstanding(None)), FeedAction::CloseTransport));
}

#[test]
fn closed_channels_stay_closed() {
    let mut dc = DataChannel::deferred("l".to_string());
    assert!(matches!(dc.feed(FeedEvent::Wired(false)), FeedAction::Stop));
    assert!(dc.state() == ChanState::Closed);
    assert!(dc.close());
    assert!(dc.state() == ChanState::Closed);
    assert!(matches!(dc.feed(FeedEvent::Wired(true)), FeedAction::Stop));
    assert!(dc.state() == ChanState::Closed);
}

#[test]
fn connection_close_is_a_local_close() {
    let mut dc = DataChannel::deferred("l".to_string());
    dc.feed(FeedEvent::Wired(true));
    assert!(!dc.is_locally_closed());
    assert!(dc.connection_closed());
    assert!(!dc.connection_closed());
    assert!(dc.is_locally_closed());
    assert!(matches!(dc.feed(FeedEvent::ConnectionClosed), FeedAction::Stop));
    let mut remote = DataChannel::deferred("l".to_string());
    remote.feed(FeedEvent::Wired(true));
    assert!(matches!(remote.feed(FeedEvent::TransportClosed), FeedAction::Stop));
    assert!(!remote.is_locally_closed());
}

#[test]
fn host_streams_are_taken_once() {
    let mut dc = DataChannel::deferred("label".to_string());
    assert_eq!(dc.label(), "label");
    assert!(dc.take_state_stream());
    assert!(!dc.take_state_stream());
    assert!(!dc.is_stream_receiving());
    assert!(dc.begin_stream_receiving());
    assert!(!dc.begin_stream_receiving());
    assert!(dc.is_stream_receiving());
}

#[test]
fn corpus_flood_overflows_the_configured_bound() {
    let bound = CONFORMANCE_MAX_INBOUND_BUFFER_BYTES as usize;
    let (count, size) = params_for("receive-buffer-overflow");
    let mut queue = InboundQueue::new(bound);
    let fitted = (0..count).filter(|_| queue.arrive(message(size as usize))).count();
    assert_eq!(fitted, bound / size as usize);
    assert!(queue.overflowed());
    let (count, size) = params_for("ordering");
    let mut queue = InboundQueue::new(bound);
    assert!((0..count).all(|_| queue.arrive(message(size as usize))));
    assert!(!queue.overflowed());
}

#[test]
fn connection_close_reaches_every_channel() {
    let mut connection = Connection::new();
    assert_eq!(connection.add_channel("a".to_string()), 0);
    assert_eq!(connection.add_channel("b".to_string()), 1);
    assert!(connection.channels.iter().all(|channel| !channel.is_locally_closed()));
    assert!(connection.close());
    assert!(!connection.close());
    assert!(connection.channels.iter().all(|channel| channel.is_locally_closed()));
    let late = connection.add_channel("c".to_string());
    assert!(connection.channels[late].is_locally_closed());
    assert_eq!(connection.channels[late].label(), "c");
}
