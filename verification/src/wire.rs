//! What crosses the data-channel interface: errors, messages, descriptions,
//! candidates and lifecycle states, and the words failure details show them in.

use vstd::prelude::*;

use crate::text::{debug_quoted, debug_text, decimal, decimal_text, join, joined, views};

verus! {

// ----- errors --------------------------------------------------------------------------

/// Why an operation of the interface failed.
#[derive(Debug, Clone)]
pub enum Error {
    Closed,
    TimedOut,
    InvalidSignaling(String),
    ReceivingViaStream,
    ReceiveBufferOverflow,
    Other(String),
}

/// A short description of an error.
pub open spec fn described(error: Error) -> Seq<char> {
    match error {
        Error::Closed => "closed"@,
        Error::TimedOut => "timed-out"@,
        Error::InvalidSignaling(detail) => "invalid-signaling: "@ + detail@,
        Error::ReceivingViaStream => "receiving-via-stream"@,
        Error::ReceiveBufferOverflow => "receive-buffer-overflow"@,
        Error::Other(detail) => "other: "@ + detail@,
    }
}

/// A short description of an error, for failure details.
pub fn describe(error: &Error) -> (r: String)
    ensures
        r@ == described(*error),
{
    match error {
        Error::Closed => "closed".to_owned(),
        Error::TimedOut => "timed-out".to_owned(),
        Error::InvalidSignaling(detail) => "invalid-signaling: ".to_owned().concat(
            detail.as_str(),
        ),
        Error::ReceivingViaStream => "receiving-via-stream".to_owned(),
        Error::ReceiveBufferOverflow => "receive-buffer-overflow".to_owned(),
        Error::Other(detail) => "other: ".to_owned().concat(detail.as_str()),
    }
}

/// Why a configuration setter did not take a value.
#[derive(Debug, Clone)]
pub enum ConfigError {
    NotSupported,
    Invalid(String),
}

/// A configuration error as failure details show it.
pub open spec fn config_error_shown(error: ConfigError) -> Seq<char> {
    match error {
        ConfigError::NotSupported => "ConfigError::NotSupported"@,
        ConfigError::Invalid(detail) => "ConfigError::Invalid("@ + debug_text(detail@) + ")"@,
    }
}

/// Show a configuration error.
pub fn show_config_error(error: &ConfigError) -> (r: String)
    ensures
        r@ == config_error_shown(*error),
{
    match error {
        ConfigError::NotSupported => "ConfigError::NotSupported".to_owned(),
        ConfigError::Invalid(detail) => "ConfigError::Invalid(".to_owned().concat(
            debug_quoted(detail.as_str()).as_str(),
        ).concat(")"),
    }
}

// ----- messages ------------------------------------------------------------------------

/// How a message is marked on the wire.
#[derive(Debug, Clone, Copy, PartialEq, Eq, Structural)]
pub enum MessageKind {
    Binary,
    Text,
}

/// One data-channel message.
#[derive(Debug, Clone)]
pub enum Message {
    Binary(Vec<u8>),
    Text(String),
}

/// A message's contents.
pub enum MessageView {
    Binary(Seq<u8>),
    Text(Seq<char>),
}

impl View for Message {
    type V = MessageView;

    open spec fn view(&self) -> MessageView {
        match self {
            Message::Binary(bytes) => MessageView::Binary(bytes@),
            Message::Text(text) => MessageView::Text(text@),
        }
    }
}

/// The decimal numerals of some bytes.
pub open spec fn byte_numerals(bytes: Seq<u8>) -> Seq<Seq<char>> {
    bytes.map_values(|b: u8| decimal(b as nat))
}

/// Bytes as failure details show them.
pub open spec fn bytes_shown(bytes: Seq<u8>) -> Seq<char> {
    "["@ + joined(byte_numerals(bytes), ", "@) + "]"@
}

/// Show bytes as a list of decimal numerals.
pub fn show_bytes(bytes: &[u8]) -> (r: String)
    ensures
        r@ == bytes_shown(bytes@),
{
    let mut numerals: Vec<String> = Vec::new();
    let mut i: usize = 0;
    while i < bytes.len()
        invariant
            i <= bytes@.len(),
            numerals@.len() == i,
            forall|k: int| 0 <= k < i ==> (#[trigger] numerals@[k])@ == decimal(bytes@[k] as nat),
        decreases bytes@.len() - i,
    {
        numerals.push(decimal_text(bytes[i] as u64));
        i += 1;
    }
    assert(views(numerals@) =~= byte_numerals(bytes@));
    "[".to_owned().concat(join(&numerals, ", ").as_str()).concat("]")
}

/// A message as failure details show it.
pub open spec fn message_shown(message: MessageView) -> Seq<char> {
    match message {
        MessageView::Binary(bytes) => "Message::Binary("@ + bytes_shown(bytes) + ")"@,
        MessageView::Text(text) => "Message::String("@ + debug_text(text) + ")"@,
    }
}

/// Show a message.
pub fn show_message(message: &Message) -> (r: String)
    ensures
        r@ == message_shown(message@),
{
    match message {
        Message::Binary(bytes) => "Message::Binary(".to_owned().concat(
            show_bytes(bytes.as_slice()).as_str(),
        ).concat(")"),
        Message::Text(text) => "Message::String(".to_owned().concat(
            debug_quoted(text.as_str()).as_str(),
        ).concat(")"),
    }
}

// ----- descriptions, candidates, configuration -----------------------------------------

/// What a session description is for.
#[derive(Debug, Clone, Copy, PartialEq, Eq, Structural)]
pub enum SdpType {
    Offer,
    Pranswer,
    Answer,
    Rollback,
}

/// A session description.
#[derive(Debug, Clone)]
pub struct SessionDescription {
    pub kind: SdpType,
    pub sdp: String,
}

/// Build a session description from its kind and text.
pub fn make_sdp(kind: SdpType, sdp: String) -> (r: SessionDescription)
    ensures
        r.kind == kind,
        r.sdp == sdp,
{
    SessionDescription { kind, sdp }
}

/// An ICE candidate.
#[derive(Debug, Clone)]
pub struct IceCandidate {
    pub candidate: String,
    pub sdp_mid: Option<String>,
    pub sdp_mline_index: Option<u16>,
}

/// A STUN or TURN server.
#[derive(Debug, Clone)]
pub struct IceServer {
    pub urls: Vec<String>,
    pub username: String,
    pub credential: String,
}

/// Which candidates ICE may use.
#[derive(Debug, Clone, Copy, PartialEq, Eq, Structural)]
pub enum IceTransportPolicy {
    All,
    Relay,
}

// ----- lifecycle states ----------------------------------------------------------------

/// A connection's lifecycle.
#[derive(Debug, Clone, Copy, PartialEq, Eq, Structural)]
pub enum ConnectionState {
    New,
    Connecting,
    Connected,
    Disconnected,
    Failed,
    Closed,
}

/// A channel's lifecycle.
#[derive(Debug, Clone, Copy, PartialEq, Eq, Structural)]
pub enum DataChannelState {
    Connecting,
    Open,
    Closing,
    Closed,
}

/// A state read from a connection's or a channel's state stream.
#[derive(Debug, Clone, Copy, PartialEq, Eq, Structural)]
pub enum Seen {
    Connection(ConnectionState),
    Channel(DataChannelState),
}

impl Seen {
    /// Whether nothing follows this state: a connection ends failed or closed, a
    /// channel ends closed.
    pub open spec fn ends(self) -> bool {
        match self {
            Seen::Connection(state) => state == ConnectionState::Failed || state
                == ConnectionState::Closed,
            Seen::Channel(state) => state == DataChannelState::Closed,
        }
    }

    /// Whether nothing follows this state.
    pub fn is_terminal(self) -> (r: bool)
        ensures
            r == self.ends(),
    {
        match self {
            Seen::Connection(ConnectionState::Failed) => true,
            Seen::Connection(ConnectionState::Closed) => true,
            Seen::Connection(_) => false,
            Seen::Channel(DataChannelState::Closed) => true,
            Seen::Channel(_) => false,
        }
    }

    /// A state as failure details show it.
    pub open spec fn shown(self) -> Seq<char> {
        match self {
            Seen::Connection(ConnectionState::New) => "ConnectionState::New"@,
            Seen::Connection(ConnectionState::Connecting) => "ConnectionState::Connecting"@,
            Seen::Connection(ConnectionState::Connected) => "ConnectionState::Connected"@,
            Seen::Connection(ConnectionState::Disconnected) => "ConnectionState::Disconnected"@,
            Seen::Connection(ConnectionState::Failed) => "ConnectionState::Failed"@,
            Seen::Connection(ConnectionState::Closed) => "ConnectionState::Closed"@,
            Seen::Channel(DataChannelState::Connecting) => "DataChannelState::Connecting"@,
            Seen::Channel(DataChannelState::Open) => "DataChannelState::Open"@,
            Seen::Channel(DataChannelState::Closing) => "DataChannelState::Closing"@,
            Seen::Channel(DataChannelState::Closed) => "DataChannelState::Closed"@,
        }
    }

    /// Show a state.
    pub fn show(self) -> (r: &'static str)
        ensures
            r@ == self.shown(),
    {
        match self {
            Seen::Connection(ConnectionState::New) => "ConnectionState::New",
            Seen::Connection(ConnectionState::Connecting) => "ConnectionState::Connecting",
            Seen::Connection(ConnectionState::Connected) => "ConnectionState::Connected",
            Seen::Connection(ConnectionState::Disconnected) => "ConnectionState::Disconnected",
            Seen::Connection(ConnectionState::Failed) => "ConnectionState::Failed",
            Seen::Connection(ConnectionState::Closed) => "ConnectionState::Closed",
            Seen::Channel(DataChannelState::Connecting) => "DataChannelState::Connecting",
            Seen::Channel(DataChannelState::Open) => "DataChannelState::Open",
            Seen::Channel(DataChannelState::Closing) => "DataChannelState::Closing",
            Seen::Channel(DataChannelState::Closed) => "DataChannelState::Closed",
        }
    }
}

/// A list of states as failure details show it.
pub open spec fn states_shown(states: Seq<Seen>) -> Seq<char> {
    "["@ + joined(states.map_values(|s: Seen| s.shown()), ", "@) + "]"@
}

/// Show a list of states.
pub fn show_states(states: &[Seen]) -> (r: String)
    ensures
        r@ == states_shown(states@),
{
    let mut names: Vec<String> = Vec::new();
    let mut i: usize = 0;
    while i < states.len()
        invariant
            i <= states@.len(),
            names@.len() == i,
            forall|k: int| 0 <= k < i ==> (#[trigger] names@[k])@ == states@[k].shown(),
        decreases states@.len() - i,
    {
        names.push(states[i].show().to_owned());
        i += 1;
    }
    assert(views(names@) =~= states@.map_values(|s: Seen| s.shown()));
    "[".to_owned().concat(join(&names, ", ").as_str()).concat("]")
}

/// Errors are told apart by how they are described: two that read the same are of one kind, and
/// carry the same detail.
pub proof fn errors_are_described_apart(error: Error, other: Error)
    requires
        described(error) == described(other),
    ensures
        error is Closed <==> other is Closed,
        error is TimedOut <==> other is TimedOut,
        error is InvalidSignaling <==> other is InvalidSignaling,
        error is ReceivingViaStream <==> other is ReceivingViaStream,
        error is ReceiveBufferOverflow <==> other is ReceiveBufferOverflow,
        error matches Error::InvalidSignaling(detail) ==> (other matches Error::InvalidSignaling(
            same,
        ) && detail@ == same@),
        error matches Error::Other(detail) ==> (other matches Error::Other(same) && detail@
            == same@),
{
    reveal_strlit("closed");
    reveal_strlit("timed-out");
    reveal_strlit("invalid-signaling: ");
    reveal_strlit("receiving-via-stream");
    reveal_strlit("receive-buffer-overflow");
    reveal_strlit("other: ");
    let shown = described(error);
    assert(shown.len() >= 6);
    assert(shown[0] == described(other)[0]);
    assert(shown.len() > 6 ==> shown[6] == described(other)[6]);
    if let Error::InvalidSignaling(detail) = error {
        if let Error::InvalidSignaling(same) = other {
            assert(shown.skip(19) =~= detail@);
            assert(described(other).skip(19) =~= same@);
        }
    }
    if let Error::Other(detail) = error {
        if let Error::Other(same) = other {
            assert(shown.skip(7) =~= detail@);
            assert(described(other).skip(7) =~= same@);
        }
    }
}

/// A connection ends failed or closed, a channel ends closed, and no other state is an end.
pub proof fn only_these_states_end(state: Seen)
    ensures
        state.ends() <==> {
            ||| state == Seen::Connection(ConnectionState::Failed)
            ||| state == Seen::Connection(ConnectionState::Closed)
            ||| state == Seen::Channel(DataChannelState::Closed)
        },
{
}

} // verus!
