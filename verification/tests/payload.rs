//! Indexed payloads and the checks on what was received.

use rtc_conformance::payload::{
    make_payload, payload_index, verify_all, verify_in_turn, verify_ordered, verify_payload,
};
use rtc_conformance::stimulus::{
    build_message, build_servers, same_bytes, same_message, Payload, ServerList, SENTINEL,
};
use rtc_conformance::wire::Message;

#[test]
fn payload_carries_index_and_pattern() {
    let payload = make_payload(0x0102_0304, 8);
    // 0x01020304 % 251 == 194.
    assert_eq!(payload, [4, 3, 2, 1, 194, 195, 196, 197]);
    assert_eq!(make_payload(250, 7), [250, 0, 0, 0, 250, 0, 1]);
    assert_eq!(make_payload(7, 0), [7, 0, 0, 0]);
    assert_eq!(payload_index(&payload), Some(0x0102_0304));
    assert_eq!(payload_index(&[1, 2, 3]), None);
    assert!(verify_payload(&payload));
    assert!(!verify_payload(&[1, 2, 3]));
    assert!(!verify_payload(&[4, 3, 2, 1, 194, 196]));
}

#[test]
fn corpora_pass_and_flaws_do_not() {
    let corpus: Vec<Vec<u8>> = (0..16).map(|i| make_payload(i, 512)).collect();
    assert_eq!(verify_all(&corpus, 16), Ok(()));
    assert_eq!(verify_ordered(&corpus, 16), Ok(()));
    assert_eq!(
        verify_all(&corpus, 17),
        Err("received 16 messages, expected 17".to_string())
    );
    let mut swapped = corpus.clone();
    swapped.swap(2, 5);
    assert_eq!(verify_all(&swapped, 16), Ok(()));
    assert_eq!(
        verify_ordered(&swapped, 16),
        Err("message 2 carried index 5".to_string())
    );
    let mut broken = swapped;
    broken[9][100] ^= 1;
    assert_eq!(
        verify_ordered(&broken, 16),
        Err("payload failed integrity check".to_string())
    );
}

#[test]
fn checks_in_turn_report_the_first_flaw() {
    let mut received: Vec<Vec<u8>> = (0..4).map(|i| make_payload(i, 16)).collect();
    received.swap(0, 1);
    received[3][8] ^= 1;
    assert_eq!(
        verify_in_turn(&received, 4, true),
        Err("message 0 carried index 1".to_string())
    );
    assert_eq!(
        verify_in_turn(&received, 4, false),
        Err("payload failed integrity check".to_string())
    );
    assert_eq!(
        verify_ordered(&received, 4),
        Err("payload failed integrity check".to_string())
    );
}

#[test]
fn stimuli_are_fixed() {
    let binary = |payload| match build_message(payload) {
        Message::Binary(bytes) => bytes,
        Message::Text(text) => panic!("text {text}"),
    };
    assert_eq!(binary(Payload::Digits), [0, 1, 2, 3, 4, 5]);
    assert_eq!(binary(Payload::Countdown), [9, 8, 7, 6]);
    assert!(binary(Payload::Empty).is_empty());
    assert_eq!(binary(Payload::Sentinel), b"__conformance_barrier__");
    assert_eq!(SENTINEL, *b"__conformance_barrier__");
    assert_eq!(binary(Payload::Indexed { index: 3, size: 20 }), make_payload(3, 20));
    assert!(matches!(
        build_message(Payload::Greeting),
        Message::Text(text) if text == "conformance text message"
    ));
    assert!(matches!(build_message(Payload::EmptyText), Message::Text(text) if text.is_empty()));
}

#[test]
fn messages_are_compared_with_their_kind() {
    let text = Message::Text("ab".to_string());
    let binary = Message::Binary(b"ab".to_vec());
    assert!(same_message(&text, &Message::Text("ab".to_string())));
    assert!(!same_message(&text, &binary));
    assert!(!same_message(&binary, &Message::Binary(b"ac".to_vec())));
    assert!(same_bytes(b"ab", b"ab") && !same_bytes(b"ab", b"abc"));
}

#[test]
fn server_lists_are_fixed() {
    let stun = build_servers(ServerList::Stun);
    assert_eq!(stun.len(), 1);
    assert_eq!(stun[0].urls, ["stun:192.0.2.1:3478"]);
    assert!(build_servers(ServerList::WithoutUrls)[0].urls.is_empty());
    assert_eq!(build_servers(ServerList::ForeignScheme)[0].urls, ["http://example.com"]);
}
