//! What the case bodies send and compare: the suite's fixed messages and
//! configuration values.

use vstd::prelude::*;
use vstd::slice::slice_to_vec;

use crate::payload::{make_payload, payload};
use crate::text::{same, views};
use crate::wire::{IceServer, Message, MessageView};

verus! {

/// The label every data channel of the suite is negotiated with.
pub const CHANNEL_LABEL: &'static str = "conformance";

/// The end-of-test rendezvous message, `__conformance_barrier__`.
pub const SENTINEL: [u8; 23] = [
    95,
    95,
    99,
    111,
    110,
    102,
    111,
    114,
    109,
    97,
    110,
    99,
    101,
    95,
    98,
    97,
    114,
    114,
    105,
    101,
    114,
    95,
    95,
];

/// The text of the text-message case.
pub const GREETING: &'static str = "conformance text message";

/// The URL of a valid STUN server on an unroutable address.
pub const STUN_URL: &'static str = "stun:192.0.2.1:3478";

/// The URL of something that is no ICE server.
pub const FOREIGN_URL: &'static str = "http://example.com";

/// A message of the suite, by what it is for.
#[derive(Debug, Clone, Copy)]
pub enum Payload {
    /// The binary-message case's six bytes.
    Digits,
    /// The text-message case's text.
    Greeting,
    /// A binary message without bytes.
    Empty,
    /// A text message without characters.
    EmptyText,
    /// The unreliable channel's four bytes.
    Countdown,
    /// The first half of a round trip.
    Ping,
    /// The second half of a round trip.
    Pong,
    /// The probe sent before or after a close.
    Probe,
    /// The message sent on a closed channel.
    Late,
    /// The end-of-test rendezvous message.
    Sentinel,
    /// An indexed payload.
    Indexed { index: u32, size: u32 },
    /// One message of a flood.
    Filler { size: u32 },
}

/// The message a payload stands for.
pub open spec fn message_of(payload: Payload) -> MessageView {
    match payload {
        Payload::Digits => MessageView::Binary(seq![0u8, 1, 2, 3, 4, 5]),
        Payload::Greeting => MessageView::Text(GREETING@),
        Payload::Empty => MessageView::Binary(Seq::empty()),
        Payload::EmptyText => MessageView::Text(""@),
        Payload::Countdown => MessageView::Binary(seq![9u8, 8, 7, 6]),
        Payload::Ping => MessageView::Binary(seq![1u8, 2, 3]),
        Payload::Pong => MessageView::Binary(seq![4u8, 5, 6]),
        Payload::Probe => MessageView::Binary(seq![7u8, 7, 7, 7, 7, 7, 7, 7]),
        Payload::Late => MessageView::Binary(seq![4u8]),
        Payload::Sentinel => MessageView::Binary(SENTINEL@),
        Payload::Indexed { index, size } => MessageView::Binary(
            crate::payload::payload(index, size),
        ),
        Payload::Filler { size } => MessageView::Binary(
            Seq::new(
                if size > 1 {
                    size as nat
                } else {
                    1
                },
                |k: int| 0xABu8,
            ),
        ),
    }
}

fn filler(size: u32) -> (r: Vec<u8>)
    ensures
        r@ == Seq::new(
            if size > 1 {
                size as nat
            } else {
                1
            },
            |k: int| 0xABu8,
        ),
{
    let size: u32 = if size > 1 { size } else { 1 };
    let mut bytes: Vec<u8> = Vec::new();
    let mut i: u32 = 0;
    while i < size
        invariant
            i <= size,
            bytes@ == Seq::new(i as nat, |k: int| 0xABu8),
        decreases size - i,
    {
        bytes.push(0xAB);
        i += 1;
        assert(bytes@ =~= Seq::new(i as nat, |k: int| 0xABu8));
    }
    bytes
}

/// Build the message a payload stands for.
pub fn build_message(payload: Payload) -> (r: Message)
    ensures
        r@ == message_of(payload),
{
    match payload {
        Payload::Digits => {
            let bytes: Vec<u8> = vec![0, 1, 2, 3, 4, 5];
            assert(bytes@ =~= seq![0u8, 1, 2, 3, 4, 5]);
            Message::Binary(bytes)
        },
        Payload::Greeting => Message::Text(GREETING.to_owned()),
        Payload::Empty => Message::Binary(Vec::new()),
        Payload::EmptyText => Message::Text("".to_owned()),
        Payload::Countdown => {
            let bytes: Vec<u8> = vec![9, 8, 7, 6];
            assert(bytes@ =~= seq![9u8, 8, 7, 6]);
            Message::Binary(bytes)
        },
        Payload::Ping => {
            let bytes: Vec<u8> = vec![1, 2, 3];
            assert(bytes@ =~= seq![1u8, 2, 3]);
            Message::Binary(bytes)
        },
        Payload::Pong => {
            let bytes: Vec<u8> = vec![4, 5, 6];
            assert(bytes@ =~= seq![4u8, 5, 6]);
            Message::Binary(bytes)
        },
        Payload::Probe => {
            let bytes: Vec<u8> = vec![7, 7, 7, 7, 7, 7, 7, 7];
            assert(bytes@ =~= seq![7u8, 7, 7, 7, 7, 7, 7, 7]);
            Message::Binary(bytes)
        },
        Payload::Late => {
            let bytes: Vec<u8> = vec![4];
            assert(bytes@ =~= seq![4u8]);
            Message::Binary(bytes)
        },
        Payload::Sentinel => {
            let bytes = SENTINEL;
            Message::Binary(slice_to_vec(&bytes))
        },
        Payload::Indexed { index, size } => Message::Binary(make_payload(index, size)),
        Payload::Filler { size } => Message::Binary(filler(size)),
    }
}

/// Whether two byte strings are equal.
pub fn same_bytes(a: &[u8], b: &[u8]) -> (r: bool)
    ensures
        r == (a@ == b@),
{
    if a.len() != b.len() {
        return false;
    }
    let mut i: usize = 0;
    while i < a.len()
        invariant
            i <= a@.len(),
            a@.len() == b@.len(),
            forall|k: int| 0 <= k < i ==> a@[k] == b@[k],
        decreases a@.len() - i,
    {
        if a[i] != b[i] {
            return false;
        }
        i += 1;
    }
    assert(a@ =~= b@);
    true
}

/// Whether two messages are of one kind and hold the same.
pub fn same_message(a: &Message, b: &Message) -> (r: bool)
    ensures
        r == (a@ == b@),
{
    match (a, b) {
        (Message::Binary(x), Message::Binary(y)) => same_bytes(x.as_slice(), y.as_slice()),
        (Message::Text(x), Message::Text(y)) => same(x.as_str(), y.as_str()),
        (_, _) => false,
    }
}

/// A list of ICE servers a configuration case sets.
#[derive(Debug, Clone, Copy)]
pub enum ServerList {
    /// One valid STUN server.
    Stun,
    /// One server without URLs.
    WithoutUrls,
    /// One server whose URL has no ICE scheme.
    ForeignScheme,
}

/// The URLs of the one server of a list.
pub open spec fn server_urls(list: ServerList) -> Seq<Seq<char>> {
    match list {
        ServerList::Stun => seq![STUN_URL@],
        ServerList::WithoutUrls => seq![],
        ServerList::ForeignScheme => seq![FOREIGN_URL@],
    }
}

/// The URLs of the one server of a list.
pub fn urls_of(list: ServerList) -> (r: Vec<String>)
    ensures
        views(r@) == server_urls(list),
{
    let mut urls: Vec<String> = Vec::new();
    match list {
        ServerList::Stun => {
            urls.push(STUN_URL.to_owned());
        },
        ServerList::WithoutUrls => {},
        ServerList::ForeignScheme => {
            urls.push(FOREIGN_URL.to_owned());
        },
    }
    assert(views(urls@) =~= server_urls(list));
    urls
}

/// Build the servers of a list: one server, without credentials.
pub fn build_servers(list: ServerList) -> (r: Vec<IceServer>)
    ensures
        r@.len() == 1,
        views(r@[0].urls@) == server_urls(list),
        r@[0].username@ == ""@,
        r@[0].credential@ == ""@,
{
    vec![IceServer { urls: urls_of(list), username: "".to_owned(), credential: "".to_owned() }]
}

// ----- laws ----------------------------------------------------------------------------

/// The suite's fixed messages differ, so that one that arrives in another's place is found; the
/// two empty ones differ in their kind alone.
pub proof fn messages_are_told_apart()
    ensures
        message_of(Payload::Empty) == MessageView::Binary(Seq::empty()),
        message_of(Payload::EmptyText) == MessageView::Text(""@),
        message_of(Payload::Greeting) is Text,
        message_of(Payload::Greeting) != message_of(Payload::EmptyText),
        message_of(Payload::Ping) != message_of(Payload::Pong),
        message_of(Payload::Ping) != message_of(Payload::Late),
        message_of(Payload::Pong) != message_of(Payload::Late),
        message_of(Payload::Digits) != message_of(Payload::Countdown),
        message_of(Payload::Sentinel) is Binary,
        message_of(Payload::Sentinel) != message_of(Payload::Empty),
        message_of(Payload::Digits) is Binary && message_of(Payload::Countdown) is Binary
            && message_of(Payload::Probe) is Binary,
{
    reveal_strlit("");
    reveal_strlit("conformance text message");
    assert(GREETING@.len() == 24);
    assert(message_of(Payload::Ping)->Binary_0[0] == 1u8);
    assert(message_of(Payload::Pong)->Binary_0[0] == 4u8);
    assert(message_of(Payload::Late)->Binary_0.len() == 1);
    assert(message_of(Payload::Digits)->Binary_0.len() == 6);
    assert(message_of(Payload::Countdown)->Binary_0.len() == 4);
    assert(SENTINEL@.len() == 23);
}

/// The servers the configuration cases set are what they are for: one STUN server, one server
/// without a URL, and one whose URL is none of an ICE server.
pub proof fn server_lists_are_what_they_are_for()
    ensures
        server_urls(ServerList::Stun).len() == 1 && server_urls(ServerList::Stun)[0].take(5)
            == "stun:"@,
        server_urls(ServerList::WithoutUrls).len() == 0,
        server_urls(ServerList::ForeignScheme).len() == 1 && server_urls(
            ServerList::ForeignScheme,
        )[0].take(5) != "stun:"@ && server_urls(ServerList::ForeignScheme)[0].take(5) != "turn:"@,
{
    reveal_strlit("stun:192.0.2.1:3478");
    reveal_strlit("http://example.com");
    reveal_strlit("stun:");
    reveal_strlit("turn:");
    assert(STUN_URL@.take(5) =~= "stun:"@);
    assert(FOREIGN_URL@.take(5)[0] == 'h');
    assert("stun:"@[0] == 's');
    assert("turn:"@[0] == 't');
}

} // verus!
