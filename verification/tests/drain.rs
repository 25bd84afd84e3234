//! Streams that are read to their end, and the text behind details.

use rtc_conformance::drain::{Drain, CANDIDATE_CHUNK, PAYLOAD_CHUNK};
use rtc_conformance::text::{
    decimal_text, drop_trailing_slashes, find_closing_line, find_last_line, join, last_segment,
    parse_unsigned, precedes, sorted, trim,
};
use rtc_conformance::wire::{
    describe, show_config_error, show_message, ConfigError, Error, Message,
};

#[test]
fn streams_are_read_in_order() {
    let mut drain: Drain<u8> = Drain::new(PAYLOAD_CHUNK);
    assert_eq!(drain.want(), Some(8192));
    drain.push(vec![1, 2], false);
    drain.push(Vec::new(), false);
    drain.push(vec![3], true);
    assert_eq!(drain.want(), None);
    drain.push(vec![4], false);
    assert_eq!(drain.finish(), [1, 2, 3]);
    let candidates: Drain<u8> = Drain::new(CANDIDATE_CHUNK);
    assert_eq!(candidates.want(), Some(4));
}

#[test]
fn numbers_are_decimal() {
    assert_eq!(decimal_text(0), "0");
    assert_eq!(decimal_text(90210), "90210");
    assert_eq!(decimal_text(u64::MAX), "18446744073709551615");
    assert_eq!(parse_unsigned("0042"), Some(42));
    assert_eq!(parse_unsigned(&decimal_text(90210)), Some(90210));
    assert_eq!(parse_unsigned(""), None);
}

#[test]
fn lines_are_found_as_they_are_printed() {
    assert_eq!(find_last_line("a\r\nb\r\n\u{a0}\n"), Some("b"));
    assert_eq!(find_last_line(" \n"), None);
    assert_eq!(find_closing_line("a\nb\r\n"), "b");
    assert_eq!(find_closing_line("a\n\n"), "");
    assert_eq!(find_closing_line(""), "");
    assert_eq!(trim("\u{2003} x y\t"), "x y");
}

#[test]
fn paths_and_lists_are_cut_and_joined() {
    assert_eq!(drop_trailing_slashes("http://h//"), "http://h");
    assert_eq!(last_segment("pair/ordering"), "ordering");
    assert_eq!(last_segment("ordering"), "ordering");
    assert_eq!(last_segment("pair/"), "");
    let parts = vec!["a".to_string(), "b".to_string()];
    assert_eq!(join(&parts, ", "), "a, b");
    assert!(precedes("a", "ab") && precedes("Z", "a") && !precedes("a", "a"));
    let names: Vec<String> = ["b", "a", "a"].iter().map(|s| s.to_string()).collect();
    assert_eq!(sorted(&names), ["a", "a", "b"]);
}

#[test]
fn errors_have_short_descriptions() {
    assert_eq!(describe(&Error::Closed), "closed");
    assert_eq!(describe(&Error::TimedOut), "timed-out");
    assert_eq!(describe(&Error::InvalidSignaling("x".to_string())), "invalid-signaling: x");
    assert_eq!(describe(&Error::ReceivingViaStream), "receiving-via-stream");
    assert_eq!(describe(&Error::ReceiveBufferOverflow), "receive-buffer-overflow");
    assert_eq!(describe(&Error::Other("x".to_string())), "other: x");
}

#[test]
fn messages_are_shown_in_details() {
    assert_eq!(show_message(&Message::Binary(vec![1, 255])), "Message::Binary([1, 255])");
    assert_eq!(show_message(&Message::Text("a\"".to_string())), "Message::String(\"a\\\"\")");
    assert_eq!(
        show_config_error(&ConfigError::Invalid("u".to_string())),
        "ConfigError::Invalid(\"u\")"
    );
}
