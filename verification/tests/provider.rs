//! The exported resources: options, channels, connections and their streams.

use rtc_conformance::environment::Variable;
use rtc_conformance::provider::{
    applied, bind_error, bind_ip, bound, connect_deadline, created_description, sent, Awaited, Bind,
    Channel, DataChannel, DataChannelOptions, DcConfig, Incoming, InboundMessage, NextStreamed,
    PayloadDrain, PeerConnection, PeerConnectionConfig, Received, RemoteKind, Shared, StatePump,
    StateStreamStart, StreamSend,
};
use rtc_conformance::stimulus::{build_servers, ServerList};
use rtc_conformance::wire::{
    make_sdp, ConfigError, ConnectionState, DataChannelState, Error, IceCandidate,
    IceTransportPolicy, Message, MessageKind, SdpType, Seen,
};

fn arrive(shared: &mut Shared, id: u16, text: bool, data: &[u8]) {
    let at = shared.find(id).unwrap();
    shared.channels[at].inbox.push_back(InboundMessage { text, data: data.to_vec() });
    shared.channels[at].inbox_bytes += data.len();
}

fn open(ids: &[u16]) -> Shared {
    let mut shared = Shared::new();
    for id in ids {
        shared.channels.push(Channel::new(*id, format!("c{id}")));
    }
    shared
}

#[test]
fn bind_address_defaults_to_loopback() {
    let text = |value: &str| bind_ip(Variable::Text(value.to_string()));
    assert!(matches!(bind_ip(Variable::Unset), Ok(Bind::Loopback)));
    assert!(matches!(text(""), Ok(Bind::Loopback)));
    assert!(matches!(text("10.0.0.1"), Ok(Bind::Named(ip)) if ip == "10.0.0.1"));
    assert!(matches!(
        bind_ip(Variable::NotText("\"\\xFF\"".to_string())),
        Err(error) if error == "invalid WEBRTC_UDP_BIND_ADDR \"\\xFF\": not text"
    ));
    assert_eq!(bind_error("x", "bad"), "invalid WEBRTC_UDP_BIND_ADDR \"x\": bad");
}

#[test]
fn options_have_defaults_and_setters() {
    let mut options = DataChannelOptions::new();
    assert_eq!(options.label(), "");
    assert!(options.ordered());
    assert_eq!(options.max_retransmits(), None);
    options.set_label("l".to_string());
    options.set_ordered(false);
    options.set_max_retransmits(Some(3));
    let snapshot = options.snapshot();
    assert_eq!((snapshot.label.as_str(), snapshot.ordered), ("l", false));
    assert_eq!(snapshot.max_retransmits, Some(3));
}

#[test]
fn config_takes_no_servers_and_no_relay() {
    let mut config = PeerConnectionConfig::new();
    assert!(config.ice_servers().is_empty());
    assert!(matches!(
        config.set_ice_servers(build_servers(ServerList::Stun)),
        Err(ConfigError::NotSupported)
    ));
    assert!(matches!(
        config.set_ice_transport_policy(IceTransportPolicy::Relay),
        Err(ConfigError::NotSupported)
    ));
    assert!(config.set_ice_transport_policy(IceTransportPolicy::All).is_ok());
    assert!(config.ice_transport_policy() == IceTransportPolicy::All);
}

#[test]
fn backlog_is_received_before_the_end() {
    let mut shared = open(&[1]);
    let dc = DataChannel::new(1, "l".to_string());
    arrive(&mut shared, 1, false, &[1, 2]);
    arrive(&mut shared, 1, true, b"caf\xc3\xa9");
    arrive(&mut shared, 1, true, b"\xff");
    shared.channels[0].closed = true;
    assert!(matches!(
        dc.receive(&mut shared),
        Received::Message(Message::Binary(bytes)) if bytes == [1, 2]
    ));
    assert!(matches!(
        dc.receive(&mut shared),
        Received::Message(Message::Text(text)) if text == "caf\u{e9}"
    ));
    assert!(matches!(
        dc.receive(&mut shared),
        Received::Message(Message::Text(text)) if text == "\u{fffd}"
    ));
    assert!(matches!(dc.receive(&mut shared), Received::Failed(Error::Closed)));
    shared.channels[0].overflowed = true;
    assert!(matches!(dc.receive(&mut shared), Received::Failed(Error::ReceiveBufferOverflow)));
}

#[test]
fn close_discards_and_is_idempotent() {
    let mut shared = open(&[1]);
    let dc = DataChannel::new(1, "l".to_string());
    arrive(&mut shared, 1, false, &[1, 2]);
    assert!(dc.close_impl(&mut shared, 500));
    assert!(!dc.close_impl(&mut shared, 900));
    assert_eq!(shared.channels[0].close_flush_deadline, Some(500));
    assert_eq!(shared.channels[0].inbox_bytes, 0);
    assert!(matches!(dc.receive(&mut shared), Received::Failed(Error::Closed)));
    assert!(matches!(dc.when_open(&shared), Some(Err(Error::Closed))));
    assert!(matches!(dc.receive_via_stream(&mut shared), Err(Error::Closed)));
    assert!(dc.watched(&shared) == DataChannelState::Closing);
    shared.channels[0].local_close_pending = false;
    assert!(dc.watched(&shared) == DataChannelState::Closed);
}

#[test]
fn close_before_the_open_is_kept() {
    let mut shared = open(&[]);
    let dc = DataChannel::new(7, "l".to_string());
    assert!(dc.when_open(&shared).is_none());
    assert!(dc.watched(&shared) == DataChannelState::Connecting);
    assert!(dc.close_impl(&mut shared, 1));
    assert!(!dc.close_impl(&mut shared, 1));
    assert_eq!(shared.pending_closes, [7]);
    shared.failed = true;
    assert!(matches!(dc.when_open(&shared), Some(Err(Error::Closed))));
}

#[test]
fn claims_are_exclusive() {
    let mut shared = open(&[1]);
    let dc = DataChannel::new(1, "l".to_string());
    arrive(&mut shared, 1, true, b"hey");
    assert!(dc.receive_via_stream(&mut shared).is_ok());
    assert!(matches!(dc.receive_via_stream(&mut shared), Err(Error::ReceivingViaStream)));
    assert!(matches!(dc.receive(&mut shared), Received::Failed(Error::ReceivingViaStream)));
    assert!(matches!(
        dc.next_streamed(&mut shared),
        NextStreamed::Message(m) if m.kind == MessageKind::Text && m.length == 3 && m.data == b"hey"
    ));
    assert!(matches!(dc.next_streamed(&mut shared), NextStreamed::Wait));
    shared.channels[0].closed = true;
    assert!(matches!(dc.next_streamed(&mut shared), NextStreamed::Done));
    let early = DataChannel::new(9, "e".to_string());
    assert!(early.receive_via_stream(&mut shared).is_ok());
    assert!(matches!(early.receive_via_stream(&mut shared), Err(Error::ReceivingViaStream)));
    assert!(matches!(early.receive(&mut shared), Received::Failed(Error::ReceivingViaStream)));
}

#[test]
fn streaming_sends_count() {
    let mut send = StreamSend::new();
    assert!(send.settled(Ok(())).is_ok());
    assert!(send.settled(Ok(())).is_ok());
    let error = send.settled(Err(Error::Closed)).unwrap_err();
    assert_eq!(error.sent, 2);
    assert!(matches!(error.error, Error::Closed));
    assert!(matches!(
        StreamSend::message(MessageKind::Text, b"a\xffb".to_vec()),
        Message::Text(text) if text == "a\u{fffd}b"
    ));
    assert!(matches!(
        StreamSend::message(MessageKind::Binary, vec![255]),
        Message::Binary(bytes) if bytes == [255]
    ));
}

#[test]
fn payloads_are_read_to_their_length() {
    let mut drain = PayloadDrain::new(5);
    assert_eq!(drain.want(), Some(5));
    drain.push(vec![1, 2], false);
    assert_eq!(drain.want(), Some(3));
    drain.push(vec![3, 4, 5], false);
    assert_eq!(drain.want(), None);
    assert_eq!(drain.finish(), [1, 2, 3, 4, 5]);
    let mut short = PayloadDrain::new(5);
    short.push(vec![1], true);
    assert_eq!(short.want(), None);
    let mut empty = PayloadDrain::new(0);
    assert_eq!(empty.want(), Some(1));
    empty.push(Vec::new(), true);
    assert_eq!(empty.want(), None);
}

#[test]
fn watches_coalesce() {
    let connected = Seen::Connection(ConnectionState::Connected);
    let closed = Seen::Connection(ConnectionState::Closed);
    let mut pump = StatePump::new();
    assert_eq!(pump.look(connected), Some(connected));
    assert_eq!(pump.look(connected), None);
    assert!(!pump.over());
    assert_eq!(pump.look(closed), Some(closed));
    assert!(pump.over());
    assert_eq!(pump.look(connected), None);
}

#[test]
fn incoming_channels_are_the_remote_ones() {
    let mut shared = open(&[1, 2, 3]);
    shared.local_channels.push(2);
    let (cursor, first) = shared.next_incoming(0);
    assert!(matches!(first, Incoming::Channel(dc) if dc.id() == 1 && dc.label() == "c1"));
    let (cursor, second) = shared.next_incoming(cursor);
    assert!(matches!(second, Incoming::Channel(dc) if dc.id() == 3));
    let (cursor, wait) = shared.next_incoming(cursor);
    assert!(matches!(wait, Incoming::Wait));
    shared.closed = true;
    assert!(matches!(shared.next_incoming(cursor).1, Incoming::Done));
}

#[test]
fn connections_take_their_streams_once() {
    let mut connection = PeerConnection::new(Some("candidate:host".to_string()));
    assert!(connection.ensure_pump());
    assert!(!connection.ensure_pump());
    let candidate = connection.local_ice_candidates().unwrap();
    assert_eq!(candidate.candidate, "candidate:host");
    assert!(connection.local_ice_candidates().is_none());
    assert!(connection.incoming_data_channels());
    assert!(!connection.incoming_data_channels());
    assert!(connection.state_changes() == StateStreamStart::Watch);
    assert!(connection.state_changes() == StateStreamStart::Ended);
    assert!(connection.close());
}

#[test]
fn dead_connections_are_closed() {
    let mut dead = PeerConnection::new(None);
    assert!(matches!(dead.live(), Err(Error::Closed)));
    assert!(!dead.ensure_pump() && !dead.close());
    assert!(dead.state_changes() == StateStreamStart::Dead);
    assert!(dead.local_ice_candidates().is_none());
    assert!(!dead.incoming_data_channels());
    let remote = dead.set_remote_description(make_sdp(SdpType::Rollback, String::new()));
    assert!(!remote.start_pump && matches!(remote.served, Err(Error::Closed)));
    let begun = dead.begin_wait_connected();
    assert!(!begun.start_pump && matches!(begun.served, Err(Error::Closed)));
    assert!(matches!(dead.wait_connected(0, 1), Awaited::Failed(Error::Closed)));
    assert!(matches!(
        dead.created_data_channel(DcConfig::default(), Ok(1)),
        Err(Error::Closed)
    ));
}

#[test]
fn created_channels_are_local() {
    let mut connection = PeerConnection::new(Some(String::new()));
    let config = DcConfig { label: "l".to_string(), ordered: true, max_retransmits: None };
    let dc = connection.created_data_channel(config, Ok(4)).unwrap();
    assert_eq!((dc.id(), dc.label().as_str()), (4, "l"));
    assert_eq!(connection.inner.as_ref().unwrap().shared.local_channels, [4]);
    assert!(matches!(
        connection.created_data_channel(DcConfig::default(), Err("full".to_string())),
        Err(Error::Other(why)) if why == "full"
    ));
}

#[test]
fn remote_descriptions_are_sorted_by_kind() {
    let mut connection = PeerConnection::new(Some(String::new()));
    let mut served = |kind| {
        let description = make_sdp(kind, "v=0".to_string());
        connection.set_remote_description(description).served
    };
    assert!(matches!(served(SdpType::Offer), Ok((RemoteKind::Offer, sdp)) if sdp == "v=0"));
    assert!(matches!(served(SdpType::Answer), Ok((RemoteKind::Answer, sdp)) if sdp == "v=0"));
    assert!(matches!(served(SdpType::Pranswer), Ok((RemoteKind::Answer, _))));
    assert!(matches!(
        served(SdpType::Rollback),
        Err(Error::InvalidSignaling(why)) if why == "rollback is not supported"
    ));
}

#[test]
fn methods_start_the_pump_once_and_are_gated() {
    let mut connection = PeerConnection::new(Some(String::new()));
    let mut options = DataChannelOptions::new();
    options.set_label("chat".to_string());
    assert_eq!(connection.create_data_channel(&options).unwrap().label, "chat");
    let offer = connection.create_offer();
    assert!(offer.start_pump && offer.served.is_ok());
    let answer = connection.create_answer();
    assert!(!answer.start_pump && answer.served.is_ok());
    let candidate = |text: &str| IceCandidate {
        candidate: text.to_string(),
        sdp_mid: None,
        sdp_mline_index: None,
    };
    assert_eq!(connection.add_ice_candidate(candidate("c")).served.unwrap(), "c");
    assert!(connection.set_local_description().served.is_ok());
    connection.inner.as_mut().unwrap().shared.failed = true;
    assert!(matches!(connection.create_data_channel(&options), Err(Error::Closed)));
    assert!(matches!(connection.create_offer().served, Err(Error::Closed)));
    assert!(matches!(connection.create_answer().served, Err(Error::Closed)));
    assert!(matches!(connection.set_local_description().served, Err(Error::Closed)));
    assert!(matches!(connection.add_ice_candidate(candidate("c")).served, Err(Error::Closed)));
}

#[test]
fn waiting_is_latched_and_bounded() {
    let mut connection = PeerConnection::new(Some(String::new()));
    let begun = connection.begin_wait_connected();
    assert!(begun.start_pump && begun.served.is_ok());
    assert!(!connection.begin_wait_connected().start_pump);
    let deadline = connect_deadline(5);
    assert_eq!(deadline, 20_000_000_005);
    assert!(matches!(
        connection.wait_connected(10, deadline),
        Awaited::Wait { remaining: 19_999_999_995 }
    ));
    assert!(matches!(
        connection.wait_connected(deadline, deadline),
        Awaited::Failed(Error::TimedOut)
    ));
    let shared = &mut connection.inner.as_mut().unwrap().shared;
    shared.closed = true;
    assert!(shared.connection_state() == ConnectionState::Closed);
    assert!(connection.begin_wait_connected().served.is_ok());
    assert!(matches!(connection.wait_connected(0, deadline), Awaited::Failed(Error::Closed)));
    connection.inner.as_mut().unwrap().shared.connected = true;
    assert!(matches!(connection.wait_connected(0, deadline), Awaited::Connected));
}

#[test]
fn answers_of_the_core_are_mapped() {
    let why = || Err("why".to_string());
    assert!(sent(Ok(())).is_ok());
    assert!(matches!(sent(why()), Err(Error::Other(w)) if w == "why"));
    assert!(matches!(applied(why()), Err(Error::InvalidSignaling(w)) if w == "why"));
    let made = created_description(SdpType::Offer, Ok("sdp".to_string())).unwrap();
    assert!(made.kind == SdpType::Offer && made.sdp == "sdp");
    let refused = created_description(SdpType::Offer, Err("why".to_string()));
    assert!(matches!(refused, Err(Error::Other(w)) if w == "why"));
}

#[test]
fn unusable_addresses_leave_a_dead_connection() {
    assert_eq!(bound("10.0.0.1", Ok(())), Ok(()));
    let error = bound("here", Err("invalid IP address syntax".to_string())).unwrap_err();
    assert_eq!(error, "invalid WEBRTC_UDP_BIND_ADDR \"here\": invalid IP address syntax");
    let (dead, report) = PeerConnection::construct(Err(error));
    assert!(matches!(dead.live(), Err(Error::Closed)));
    assert_eq!(
        report.unwrap(),
        "peer-connection construction failed: invalid WEBRTC_UDP_BIND_ADDR \"here\": \
         invalid IP address syntax"
    );
    let (mut alive, report) = PeerConnection::construct(Ok("candidate:1".to_string()));
    assert!(report.is_none() && alive.live().is_ok());
    assert_eq!(alive.local_ice_candidates().unwrap().candidate, "candidate:1");
}
