//! The in-guest provider: what its resources decide over the state they share with
//! the runtime that drives the sans-I/O core.
//!
//! The core makes and applies descriptions, sends, and reports what happens to the
//! shared state. What is asked of a resource, and what it answers, is decided here.

use std::collections::VecDeque;
use vstd::prelude::*;

use crate::environment::Variable;
use crate::script::{
    batches_do_not_matter, coalesced, drains_exactly_coalesced, with_state, with_states,
};
use crate::text::{debug_quoted, debug_text, lossy_text, text_lossy};
use crate::wire::{
    make_sdp, ConfigError, ConnectionState, DataChannelState, Error, IceCandidate, IceServer,
    IceTransportPolicy, Message, MessageKind, MessageView, SdpType, Seen, SessionDescription,
};

verus! {

/// The component whose resources these are.
pub struct Component;

// ----- the address to bind -------------------------------------------------------------

/// The variable that names the address a connection binds.
pub const BIND_ADDR_ENV: &'static str = "WEBRTC_UDP_BIND_ADDR";

/// The address a connection binds.
#[derive(Debug, Clone)]
pub enum Bind {
    /// IPv4 loopback.
    Loopback,
    /// The address this text names.
    Named(String),
}

/// The error for a value that is no address.
pub open spec fn not_an_address(shown: Seq<char>, why: Seq<char>) -> Seq<char> {
    "invalid "@ + BIND_ADDR_ENV@ + " "@ + shown + ": "@ + why
}

/// The address chosen through the environment: loopback where the variable is unset
/// or empty. A value that is no text is an error, rather than loopback.
pub fn bind_ip(value: Variable) -> (r: Result<Bind, String>)
    ensures
        match value {
            Variable::Unset => r == Ok::<Bind, String>(Bind::Loopback),
            Variable::Text(text) => r == Ok::<Bind, String>(
                if text@.len() == 0 {
                    Bind::Loopback
                } else {
                    Bind::Named(text)
                },
            ),
            Variable::NotText(shown) => r matches Err(error) && error@ == not_an_address(
                shown@,
                "not text"@,
            ),
        },
{
    match value {
        Variable::Unset => Ok(Bind::Loopback),
        Variable::Text(text) => if text.as_str().unicode_len() == 0 {
            Ok(Bind::Loopback)
        } else {
            Ok(Bind::Named(text))
        },
        Variable::NotText(shown) => Err(
            "invalid ".to_owned().concat(BIND_ADDR_ENV).concat(" ").concat(shown.as_str()).concat(
                ": ",
            ).concat("not text"),
        ),
    }
}

/// The error for a name that is no address.
pub fn bind_error(value: &str, why: &str) -> (r: String)
    ensures
        r@ == not_an_address(debug_text(value@), why@),
{
    "invalid ".to_owned().concat(BIND_ADDR_ENV).concat(" ").concat(
        debug_quoted(value).as_str(),
    ).concat(": ").concat(why)
}

/// Take what came of parsing the address that a value names: a value that names none is the
/// error, rather than loopback.
pub fn bound(value: &str, parsed: Result<(), String>) -> (r: Result<(), String>)
    ensures
        match parsed {
            Ok(()) => r == Ok::<(), String>(()),
            Err(why) => r matches Err(error) && error@ == not_an_address(
                debug_text(value@),
                why@,
            ),
        },
{
    match parsed {
        Ok(()) => Ok(()),
        Err(why) => Err(bind_error(value, why.as_str())),
    }
}

// ----- data-channel-options ------------------------------------------------------------

/// The configuration a data channel is created with.
#[derive(Debug, Clone)]
pub struct DcConfig {
    pub label: String,
    pub ordered: bool,
    pub max_retransmits: Option<u16>,
}

/// A data channel's configuration.
pub struct DcConfigView {
    pub label: Seq<char>,
    pub ordered: bool,
    pub max_retransmits: Option<u16>,
}

impl View for DcConfig {
    type V = DcConfigView;

    open spec fn view(&self) -> DcConfigView {
        DcConfigView {
            label: self.label@,
            ordered: self.ordered,
            max_retransmits: self.max_retransmits,
        }
    }
}

impl Default for DcConfig {
    /// An empty label, ordered delivery, no limit on retransmissions.
    fn default() -> (r: DcConfig)
        ensures
            r@ == (DcConfigView { label: ""@, ordered: true, max_retransmits: None }),
    {
        DcConfig { label: "".to_owned(), ordered: true, max_retransmits: None }
    }
}

/// The `data-channel-options` builder.
#[derive(Debug)]
pub struct DataChannelOptions {
    config: DcConfig,
}

impl View for DataChannelOptions {
    type V = DcConfigView;

    closed spec fn view(&self) -> DcConfigView {
        self.config@
    }
}

impl DataChannelOptions {
    /// Begin with the defaults.
    pub fn new() -> (r: DataChannelOptions)
        ensures
            r@ == (DcConfigView { label: ""@, ordered: true, max_retransmits: None }),
    {
        DataChannelOptions { config: DcConfig::default() }
    }

    /// The configuration as it is now.
    pub fn snapshot(&self) -> (r: DcConfig)
        ensures
            r@ == self@,
    {
        DcConfig {
            label: self.config.label.clone(),
            ordered: self.config.ordered,
            max_retransmits: self.config.max_retransmits,
        }
    }

    /// The label a channel created with these options carries.
    pub fn label(&self) -> (r: String)
        ensures
            r@ == self@.label,
    {
        self.config.label.clone()
    }

    /// Sets the label.
    pub fn set_label(&mut self, label: String)
        ensures
            final(self)@ == (DcConfigView { label: label@, ..old(self)@ }),
    {
        self.config.label = label;
    }

    /// Whether messages are delivered in order.
    pub fn ordered(&self) -> (r: bool)
        ensures
            r == self@.ordered,
    {
        self.config.ordered
    }

    /// Sets whether messages are delivered in order.
    pub fn set_ordered(&mut self, ordered: bool)
        ensures
            final(self)@ == (DcConfigView { ordered, ..old(self)@ }),
    {
        self.config.ordered = ordered;
    }

    /// How often a message is sent again, where that is limited.
    pub fn max_retransmits(&self) -> (r: Option<u16>)
        ensures
            r == self@.max_retransmits,
    {
        self.config.max_retransmits
    }

    /// Sets or lifts the limit on retransmissions.
    pub fn set_max_retransmits(&mut self, max_retransmits: Option<u16>)
        ensures
            final(self)@ == (DcConfigView { max_retransmits, ..old(self)@ }),
    {
        self.config.max_retransmits = max_retransmits;
    }
}

// ----- peer-connection-config ----------------------------------------------------------

/// The `peer-connection-config` builder.
///
/// The sans-I/O stack has neither a STUN nor a TURN client, so ICE servers and the
/// relay policy are not supported. That surfaces at the setter: a configuration that
/// was accepted is always honored. The policy is `all` in every configuration there is.
#[derive(Debug)]
pub struct PeerConnectionConfig {
    policy: IceTransportPolicy,
}

impl PeerConnectionConfig {
    #[verifier::type_invariant]
    spec fn only_defaults(self) -> bool {
        self.policy == IceTransportPolicy::All
    }

    /// The policy that is set.
    pub closed spec fn policy_set(self) -> IceTransportPolicy {
        self.policy
    }

    /// Begin with the defaults.
    pub fn new() -> (r: PeerConnectionConfig)
        ensures
            r.policy_set() == IceTransportPolicy::All,
    {
        PeerConnectionConfig { policy: IceTransportPolicy::All }
    }

    /// The servers that are set: none ever is.
    pub fn ice_servers(&self) -> (r: Vec<IceServer>)
        ensures
            r@.len() == 0,
    {
        Vec::new()
    }

    /// Set the servers, which is not supported.
    pub fn set_ice_servers(&mut self, _servers: Vec<IceServer>) -> (r: Result<(), ConfigError>)
        ensures
            r == Err::<(), ConfigError>(ConfigError::NotSupported),
            final(self).policy_set() == old(self).policy_set(),
            final(self).policy_set() == IceTransportPolicy::All,
    {
        proof {
            use_type_invariant(&*self);
        }
        Err(ConfigError::NotSupported)
    }

    /// Which candidates the connection may use: any, since no other policy is accepted.
    pub fn ice_transport_policy(&self) -> (r: IceTransportPolicy)
        ensures
            r == self.policy_set(),
            r == IceTransportPolicy::All,
    {
        proof {
            use_type_invariant(self);
        }
        self.policy
    }

    /// Set the policy. Relaying needs TURN, so the relay policy is not supported.
    pub fn set_ice_transport_policy(&mut self, policy: IceTransportPolicy) -> (r: Result<
        (),
        ConfigError,
    >)
        ensures
            match policy {
                IceTransportPolicy::All => r is Ok && final(self).policy_set() == policy,
                IceTransportPolicy::Relay => r == Err::<(), ConfigError>(ConfigError::NotSupported)
                    && final(self).policy_set() == old(self).policy_set(),
            },
            final(self).policy_set() == IceTransportPolicy::All,
    {
        proof {
            use_type_invariant(&*self);
        }
        match policy {
            IceTransportPolicy::All => {
                self.policy = policy;
                Ok(())
            },
            IceTransportPolicy::Relay => Err(ConfigError::NotSupported),
        }
    }
}

// ----- the shared state ----------------------------------------------------------------

/// One message waiting to be received.
#[derive(Debug, Clone)]
pub struct InboundMessage {
    /// Whether it was sent as text.
    pub text: bool,
    pub data: Vec<u8>,
}

/// One message waiting to be received.
pub struct InboundView {
    pub text: bool,
    pub data: Seq<u8>,
}

impl View for InboundMessage {
    type V = InboundView;

    open spec fn view(&self) -> InboundView {
        InboundView { text: self.text, data: self.data@ }
    }
}

/// The contents of each waiting message.
pub open spec fn inbox_view(inbox: Seq<InboundMessage>) -> Seq<InboundView> {
    inbox.map_values(|m: InboundMessage| m@)
}

/// The payload bytes of waiting messages.
pub open spec fn waiting_bytes(inbox: Seq<InboundView>) -> nat
    decreases inbox.len(),
{
    if inbox.len() == 0 {
        0
    } else {
        inbox[0].data.len() + waiting_bytes(inbox.drop_first())
    }
}

/// A channel that is open, or was.
#[derive(Debug)]
pub struct Channel {
    pub id: u16,
    pub label: String,
    pub closed: bool,
    /// What has arrived and was not received yet.
    pub inbox: VecDeque<InboundMessage>,
    /// The payload bytes in `inbox`.
    pub inbox_bytes: usize,
    /// Whether a message did not fit the inbound buffer.
    pub overflowed: bool,
    /// Whether the inbound messages were claimed as a stream.
    pub stream_claimed: bool,
    /// Whether a local close still has to flush.
    pub local_close_pending: bool,
    /// When a flushing close proceeds in any case.
    pub close_flush_deadline: Option<u64>,
}

/// A channel that is open, or was.
pub struct ChannelView {
    pub id: u16,
    pub label: Seq<char>,
    pub closed: bool,
    pub inbox: Seq<InboundView>,
    pub overflowed: bool,
    pub stream_claimed: bool,
    pub local_close_pending: bool,
    pub close_flush_deadline: Option<u64>,
}

impl View for Channel {
    type V = ChannelView;

    open spec fn view(&self) -> ChannelView {
        ChannelView {
            id: self.id,
            label: self.label@,
            closed: self.closed,
            inbox: inbox_view(self.inbox@),
            overflowed: self.overflowed,
            stream_claimed: self.stream_claimed,
            local_close_pending: self.local_close_pending,
            close_flush_deadline: self.close_flush_deadline,
        }
    }
}

impl Channel {
    /// The count of buffered bytes is that of the inbox.
    pub open spec fn wf(self) -> bool {
        self.inbox_bytes == waiting_bytes(inbox_view(self.inbox@))
    }

    /// A channel that has just opened.
    pub fn new(id: u16, label: String) -> (r: Channel)
        ensures
            r.wf(),
            r@ == (ChannelView {
                id,
                label: label@,
                closed: false,
                inbox: Seq::empty(),
                overflowed: false,
                stream_claimed: false,
                local_close_pending: false,
                close_flush_deadline: None,
            }),
    {
        let channel = Channel {
            id,
            label,
            closed: false,
            inbox: VecDeque::new(),
            inbox_bytes: 0,
            overflowed: false,
            stream_claimed: false,
            local_close_pending: false,
            close_flush_deadline: None,
        };
        assert(inbox_view(channel.inbox@) =~= Seq::<InboundView>::empty());
        channel
    }

    /// Take the oldest waiting message.
    pub fn pop(&mut self) -> (r: Option<InboundMessage>)
        requires
            old(self).wf(),
        ensures
            final(self).wf(),
            r is Some <==> old(self)@.inbox.len() > 0,
            match r {
                Some(message) => {
                    &&& message@ == old(self)@.inbox[0]
                    &&& final(self)@ == (ChannelView {
                        inbox: old(self)@.inbox.drop_first(),
                        ..old(self)@
                    })
                },
                None => final(self)@ == old(self)@,
            },
    {
        let ghost was = self@.inbox;
        match self.inbox.pop_front() {
            Some(message) => {
                assert(inbox_view(self.inbox@) =~= was.drop_first());
                assert(was[0] == message@);
                self.inbox_bytes = self.inbox_bytes - message.data.len();
                Some(message)
            },
            None => {
                assert(inbox_view(self.inbox@) =~= was);
                None
            },
        }
    }
}

/// The state the resources of a connection share with its runtime.
#[derive(Debug)]
pub struct Shared {
    pub connected: bool,
    pub failed: bool,
    pub closed: bool,
    /// The channels whose open has been observed, in that order.
    pub channels: Vec<Channel>,
    /// The channels that were closed before their open was observed.
    pub pending_closes: Vec<u16>,
    /// The channels whose messages were claimed before their open was observed.
    pub pending_stream_claims: Vec<u16>,
    /// The channels that were created here.
    pub local_channels: Vec<u16>,
}

/// The state the resources of a connection share with its runtime.
pub struct SharedView {
    pub connected: bool,
    pub failed: bool,
    pub closed: bool,
    pub channels: Seq<ChannelView>,
    pub pending_closes: Seq<u16>,
    pub pending_stream_claims: Seq<u16>,
    pub local_channels: Seq<u16>,
}

/// Each channel.
pub open spec fn channel_views(channels: Seq<Channel>) -> Seq<ChannelView> {
    channels.map_values(|c: Channel| c@)
}

impl View for Shared {
    type V = SharedView;

    open spec fn view(&self) -> SharedView {
        SharedView {
            connected: self.connected,
            failed: self.failed,
            closed: self.closed,
            channels: channel_views(self.channels@),
            pending_closes: self.pending_closes@,
            pending_stream_claims: self.pending_stream_claims@,
            local_channels: self.local_channels@,
        }
    }
}

/// The first channel with an id, from a position on.
pub open spec fn found_from(channels: Seq<ChannelView>, id: u16, from: int) -> Option<int>
    decreases channels.len() - from,
{
    if from >= channels.len() {
        None
    } else if channels[from].id == id {
        Some(from)
    } else {
        found_from(channels, id, from + 1)
    }
}

/// A channel's state as observed through the shared state.
#[derive(Debug, Clone, Copy, PartialEq, Eq, Structural)]
pub enum ChannelState {
    /// It opened and has not closed.
    Open,
    /// Its open has not been observed yet, and its connection is alive.
    Opening,
    /// It, or its connection, closed or failed.
    Closed,
}

impl SharedView {
    /// Whether the connection is over.
    pub open spec fn dead(self) -> bool {
        self.closed || self.failed
    }

    /// The channel with an id.
    pub open spec fn found(self, id: u16) -> Option<int> {
        found_from(self.channels, id, 0)
    }

    /// A channel's observed state.
    pub open spec fn observed(self, id: u16) -> ChannelState {
        match self.found(id) {
            Some(i) => if self.channels[i].closed {
                ChannelState::Closed
            } else {
                ChannelState::Open
            },
            None => if self.dead() {
                ChannelState::Closed
            } else {
                ChannelState::Opening
            },
        }
    }

    /// With one channel changed.
    pub open spec fn with(self, i: int, channel: ChannelView) -> SharedView {
        SharedView { channels: self.channels.update(i, channel), ..self }
    }
}

proof fn lemma_found(channels: Seq<ChannelView>, id: u16, from: int)
    requires
        0 <= from,
    ensures
        match found_from(channels, id, from) {
            Some(i) => from <= i < channels.len() && channels[i].id == id && forall|k: int|
                from <= k < i ==> (#[trigger] channels[k]).id != id,
            None => forall|k: int| from <= k < channels.len() ==> (#[trigger] channels[k]).id != id,
        },
    decreases channels.len() - from,
{
    if from < channels.len() && channels[from].id != id {
        lemma_found(channels, id, from + 1);
    }
}

proof fn lemma_found_is(channels: Seq<ChannelView>, id: u16, from: int, i: int)
    requires
        0 <= from <= i < channels.len(),
        channels[i].id == id,
        forall|k: int| from <= k < i ==> (#[trigger] channels[k]).id != id,
    ensures
        found_from(channels, id, from) == Some(i),
    decreases i - from,
{
    if from < i {
        lemma_found_is(channels, id, from + 1, i);
    }
}

fn holds_id(ids: &Vec<u16>, id: u16) -> (r: bool)
    ensures
        r == ids@.contains(id),
{
    let mut i: usize = 0;
    while i < ids.len()
        invariant
            i <= ids@.len(),
            forall|k: int| 0 <= k < i ==> ids@[k] != id,
        decreases ids@.len() - i,
    {
        if ids[i] == id {
            return true;
        }
        i += 1;
    }
    false
}

impl Shared {
    /// Every channel keeps count of its buffered bytes.
    pub open spec fn wf(self) -> bool {
        forall|i: int| 0 <= i < self.channels@.len() ==> (#[trigger] self.channels@[i]).wf()
    }

    /// A connection that has just been made.
    pub fn new() -> (r: Shared)
        ensures
            r.wf(),
            r@ == (SharedView {
                connected: false,
                failed: false,
                closed: false,
                channels: Seq::empty(),
                pending_closes: Seq::empty(),
                pending_stream_claims: Seq::empty(),
                local_channels: Seq::empty(),
            }),
    {
        let shared = Shared {
            connected: false,
            failed: false,
            closed: false,
            channels: Vec::new(),
            pending_closes: Vec::new(),
            pending_stream_claims: Vec::new(),
            local_channels: Vec::new(),
        };
        assert(channel_views(shared.channels@) =~= Seq::<ChannelView>::empty());
        shared
    }

    /// Where the channel with an id is.
    pub fn find(&self, id: u16) -> (r: Option<usize>)
        ensures
            match r {
                Some(i) => self@.found(id) == Some(i as int) && i < self.channels@.len(),
                None => self@.found(id) is None,
            },
    {
        let mut i: usize = 0;
        while i < self.channels.len()
            invariant
                i <= self.channels@.len(),
                self@.found(id) == found_from(self@.channels, id, i as int),
            decreases self.channels@.len() - i,
        {
            assert(self@.channels[i as int] == self.channels@[i as int]@);
            if self.channels[i].id == id {
                return Some(i);
            }
            i += 1;
        }
        None
    }

    /// A channel's observed state. A channel is tracked only once its open has been
    /// observed, so one created here is `Opening`, not closed, until then, or until
    /// the connection itself dies.
    pub fn channel_state(&self, id: u16) -> (r: ChannelState)
        ensures
            r == self@.observed(id),
    {
        match self.find(id) {
            Some(i) => {
                assert(self@.channels[i as int] == self.channels@[i as int]@);
                if self.channels[i].closed {
                    ChannelState::Closed
                } else {
                    ChannelState::Open
                }
            },
            None => if self.closed || self.failed {
                ChannelState::Closed
            } else {
                ChannelState::Opening
            },
        }
    }
}

// ----- data-channel --------------------------------------------------------------------

/// The state after a channel is closed, and whether anything changed: a close is
/// marked at once and discards what was not received; the transport's close waits
/// for pending sends to flush, until a deadline. A channel whose open has not been
/// observed is closed when it is.
pub open spec fn after_close(s: SharedView, id: u16, deadline: u64) -> (SharedView, bool) {
    match s.found(id) {
        Some(i) => if s.channels[i].closed {
            (s, false)
        } else {
            (
                s.with(
                    i,
                    ChannelView {
                        closed: true,
                        inbox: Seq::empty(),
                        local_close_pending: true,
                        close_flush_deadline: Some(deadline),
                        ..s.channels[i]
                    },
                ),
                true,
            )
        },
        None => if s.pending_closes.contains(id) {
            (s, false)
        } else {
            (SharedView { pending_closes: s.pending_closes.push(id), ..s }, true)
        },
    }
}

/// What a receive comes to.
#[derive(Debug)]
pub enum Received {
    Message(Message),
    Failed(Error),
    /// Nothing yet; look again when the state has changed.
    Wait,
}

/// What a receive comes to.
pub enum ReceivedView {
    Message(MessageView),
    Failed(Error),
    Wait,
}

impl View for Received {
    type V = ReceivedView;

    open spec fn view(&self) -> ReceivedView {
        match *self {
            Received::Message(message) => ReceivedView::Message(message@),
            Received::Failed(error) => ReceivedView::Failed(error),
            Received::Wait => ReceivedView::Wait,
        }
    }
}

/// The message a waiting message is delivered as.
pub open spec fn delivered(message: InboundView) -> MessageView {
    if message.text {
        MessageView::Text(lossy_text(message.data))
    } else {
        MessageView::Binary(message.data)
    }
}

/// The state after a receive, and what it comes to. Messages that were claimed as a
/// stream are not received. What is waiting is delivered first, then an overflow is
/// reported, then a close.
pub open spec fn after_receive(s: SharedView, id: u16) -> (SharedView, ReceivedView) {
    match s.found(id) {
        Some(i) => {
            let c = s.channels[i];
            if c.stream_claimed {
                (s, ReceivedView::Failed(Error::ReceivingViaStream))
            } else if c.inbox.len() > 0 {
                (
                    s.with(i, ChannelView { inbox: c.inbox.drop_first(), ..c }),
                    ReceivedView::Message(delivered(c.inbox[0])),
                )
            } else if c.overflowed {
                (s, ReceivedView::Failed(Error::ReceiveBufferOverflow))
            } else if c.closed {
                (s, ReceivedView::Failed(Error::Closed))
            } else {
                (s, ReceivedView::Wait)
            }
        },
        None => if s.pending_stream_claims.contains(id) {
            (s, ReceivedView::Failed(Error::ReceivingViaStream))
        } else if s.dead() {
            (s, ReceivedView::Failed(Error::Closed))
        } else {
            (s, ReceivedView::Wait)
        },
    }
}

/// The state after a channel's messages are claimed as a stream, and what the claim
/// comes to: the first one succeeds.
pub open spec fn after_claim(s: SharedView, id: u16) -> (SharedView, Result<(), Error>) {
    match s.observed(id) {
        ChannelState::Closed => (s, Err(Error::Closed)),
        ChannelState::Open => {
            let i = s.found(id)->Some_0;
            if s.channels[i].stream_claimed {
                (s, Err(Error::ReceivingViaStream))
            } else {
                (s.with(i, ChannelView { stream_claimed: true, ..s.channels[i] }), Ok(()))
            }
        },
        ChannelState::Opening => if s.pending_stream_claims.contains(id) {
            (s, Err(Error::ReceivingViaStream))
        } else {
            (
                SharedView { pending_stream_claims: s.pending_stream_claims.push(id), ..s },
                Ok(()),
            )
        },
    }
}

/// One message of a stream, with its payload.
#[derive(Debug)]
pub struct Streamed {
    pub kind: MessageKind,
    pub length: u32,
    pub data: Vec<u8>,
}

/// What a claimed stream is fed next.
#[derive(Debug)]
pub enum NextStreamed {
    Message(Streamed),
    /// Nothing yet; look again when the state has changed.
    Wait,
    /// The stream ends.
    Done,
}

/// What a claimed stream is fed next.
pub enum NextStreamedView {
    Message { kind: MessageKind, length: nat, data: Seq<u8> },
    Wait,
    Done,
}

impl View for NextStreamed {
    type V = NextStreamedView;

    open spec fn view(&self) -> NextStreamedView {
        match self {
            NextStreamed::Message(m) => NextStreamedView::Message {
                kind: m.kind,
                length: m.length as nat,
                data: m.data@,
            },
            NextStreamed::Wait => NextStreamedView::Wait,
            NextStreamed::Done => NextStreamedView::Done,
        }
    }
}

/// The kind a waiting message has.
pub open spec fn kind_of(text: bool) -> MessageKind {
    if text {
        MessageKind::Text
    } else {
        MessageKind::Binary
    }
}

/// The state after a claimed stream takes its next message, and what it is fed. The
/// length is declared in 32 bits.
pub open spec fn after_stream(s: SharedView, id: u16) -> (SharedView, NextStreamedView) {
    match s.found(id) {
        Some(i) => {
            let c = s.channels[i];
            if c.inbox.len() > 0 {
                (
                    s.with(i, ChannelView { inbox: c.inbox.drop_first(), ..c }),
                    NextStreamedView::Message {
                        kind: kind_of(c.inbox[0].text),
                        length: c.inbox[0].data.len() % 0x1_0000_0000,
                        data: c.inbox[0].data,
                    },
                )
            } else if c.closed {
                (s, NextStreamedView::Done)
            } else {
                (s, NextStreamedView::Wait)
            }
        },
        None => if s.dead() {
            (s, NextStreamedView::Done)
        } else {
            (s, NextStreamedView::Wait)
        },
    }
}

/// The state a channel's watch reports: a local close that still flushes is
/// `closing`, and `closed` once it has flushed.
pub open spec fn watched_channel(s: SharedView, id: u16) -> DataChannelState {
    match s.observed(id) {
        ChannelState::Opening => DataChannelState::Connecting,
        ChannelState::Open => DataChannelState::Open,
        ChannelState::Closed => if s.found(id) matches Some(i) && s.channels[i].local_close_pending {
            DataChannelState::Closing
        } else {
            DataChannelState::Closed
        },
    }
}

/// A handle onto a channel of a connection.
#[derive(Debug)]
pub struct DataChannel {
    id: u16,
    label: String,
    state_taken: bool,
}

impl DataChannel {
    /// The channel's id.
    pub closed spec fn channel(self) -> u16 {
        self.id
    }

    /// The channel's label.
    pub closed spec fn labelled(self) -> Seq<char> {
        self.label@
    }

    /// Whether the state stream has been taken.
    pub closed spec fn taken(self) -> bool {
        self.state_taken
    }

    /// A handle onto a channel.
    pub fn new(id: u16, label: String) -> (r: DataChannel)
        ensures
            r.channel() == id,
            r.labelled() == label@,
            !r.taken(),
    {
        DataChannel { id, label, state_taken: false }
    }

    /// The channel's id, by which the core knows it.
    pub fn id(&self) -> (r: u16)
        ensures
            r == self.channel(),
    {
        self.id
    }

    /// The channel's label.
    pub fn label(&self) -> (r: String)
        ensures
            r@ == self.labelled(),
    {
        self.label.clone()
    }

    /// Close the channel. Returns whether anything changed: then the watchers are
    /// woken and the pump is nudged, so that the close flushes. Dropping the handle
    /// closes in the same way.
    pub fn close_impl(&self, s: &mut Shared, deadline: u64) -> (r: bool)
        requires
            old(s).wf(),
        ensures
            final(s).wf(),
            (final(s)@, r) == after_close(old(s)@, self.channel(), deadline),
    {
        let ghost was = s@;
        match s.find(self.id) {
            Some(i) => {
                assert(s@.channels[i as int] == s.channels@[i as int]@);
                if s.channels[i].closed {
                    return false;
                }
                s.channels[i].closed = true;
                s.channels[i].inbox.clear();
                s.channels[i].inbox_bytes = 0;
                s.channels[i].local_close_pending = true;
                s.channels[i].close_flush_deadline = Some(deadline);
                proof {
                    assert(inbox_view(s.channels@[i as int].inbox@) =~= Seq::<InboundView>::empty());
                    assert(s@.channels =~= after_close(was, self.id, deadline).0.channels);
                }
                true
            },
            None => {
                if holds_id(&s.pending_closes, self.id) {
                    return false;
                }
                s.pending_closes.push(self.id);
                true
            },
        }
    }

    /// Whether an operation may run now, must fail, or has to wait for the channel to
    /// open.
    pub fn when_open(&self, s: &Shared) -> (r: Option<Result<(), Error>>)
        ensures
            r == match s@.observed(self.channel()) {
                ChannelState::Open => Some(Ok::<(), Error>(())),
                ChannelState::Closed => Some(Err(Error::Closed)),
                ChannelState::Opening => None,
            },
    {
        match s.channel_state(self.id) {
            ChannelState::Open => Some(Ok(())),
            ChannelState::Closed => Some(Err(Error::Closed)),
            ChannelState::Opening => None,
        }
    }

    /// Receive the next message, if there is one.
    pub fn receive(&self, s: &mut Shared) -> (r: Received)
        requires
            old(s).wf(),
        ensures
            final(s).wf(),
            (final(s)@, r@) == after_receive(old(s)@, self.channel()),
    {
        let ghost was = s@;
        match s.find(self.id) {
            Some(i) => {
                assert(s@.channels[i as int] == s.channels@[i as int]@);
                assert(s.channels@[i as int].wf());
                if s.channels[i].stream_claimed {
                    return Received::Failed(Error::ReceivingViaStream);
                }
                let popped = s.channels[i].pop();
                match popped {
                    Some(message) => {
                        assert(s@.channels =~= after_receive(was, self.id).0.channels);
                        if message.text {
                            Received::Message(Message::Text(text_lossy(message.data.as_slice())))
                        } else {
                            Received::Message(Message::Binary(message.data))
                        }
                    },
                    None => {
                        assert(s@.channels =~= was.channels);
                        if s.channels[i].overflowed {
                            Received::Failed(Error::ReceiveBufferOverflow)
                        } else if s.channels[i].closed {
                            Received::Failed(Error::Closed)
                        } else {
                            Received::Wait
                        }
                    },
                }
            },
            None => if holds_id(&s.pending_stream_claims, self.id) {
                Received::Failed(Error::ReceivingViaStream)
            } else if s.closed || s.failed {
                Received::Failed(Error::Closed)
            } else {
                Received::Wait
            },
        }
    }

    /// Claim the channel's messages as a stream. On success the watchers are woken, so
    /// that pending receives fail.
    pub fn receive_via_stream(&self, s: &mut Shared) -> (r: Result<(), Error>)
        requires
            old(s).wf(),
        ensures
            final(s).wf(),
            (final(s)@, r) == after_claim(old(s)@, self.channel()),
    {
        let ghost was = s@;
        match s.find(self.id) {
            Some(i) => {
                assert(s@.channels[i as int] == s.channels@[i as int]@);
                assert(s.channels@[i as int].wf());
                if s.channels[i].closed {
                    return Err(Error::Closed);
                }
                if s.channels[i].stream_claimed {
                    return Err(Error::ReceivingViaStream);
                }
                s.channels[i].stream_claimed = true;
                assert(s@.channels =~= after_claim(was, self.id).0.channels);
                Ok(())
            },
            None => {
                if s.closed || s.failed {
                    return Err(Error::Closed);
                }
                if holds_id(&s.pending_stream_claims, self.id) {
                    return Err(Error::ReceivingViaStream);
                }
                s.pending_stream_claims.push(self.id);
                Ok(())
            },
        }
    }

    /// What the claimed stream is fed next.
    pub fn next_streamed(&self, s: &mut Shared) -> (r: NextStreamed)
        requires
            old(s).wf(),
        ensures
            final(s).wf(),
            (final(s)@, r@) == after_stream(old(s)@, self.channel()),
    {
        let ghost was = s@;
        match s.find(self.id) {
            Some(i) => {
                assert(s@.channels[i as int] == s.channels@[i as int]@);
                assert(s.channels@[i as int].wf());
                let popped = s.channels[i].pop();
                match popped {
                    Some(message) => {
                        assert(s@.channels =~= after_stream(was, self.id).0.channels);
                        let kind = if message.text {
                            MessageKind::Text
                        } else {
                            MessageKind::Binary
                        };
                        let length: u32 = (message.data.len() as u64 % 0x1_0000_0000) as u32;
                        NextStreamed::Message(Streamed { kind, length, data: message.data })
                    },
                    None => {
                        assert(s@.channels =~= was.channels);
                        if s.channels[i].closed {
                            NextStreamed::Done
                        } else {
                            NextStreamed::Wait
                        }
                    },
                }
            },
            None => if s.closed || s.failed {
                NextStreamed::Done
            } else {
                NextStreamed::Wait
            },
        }
    }

    /// Take the state stream: whether this is the first call, whose stream is fed.
    pub fn state_changes(&mut self) -> (r: bool)
        ensures
            r == !old(self).taken(),
            final(self).taken(),
            final(self).channel() == old(self).channel(),
            final(self).labelled() == old(self).labelled(),
    {
        let first = !self.state_taken;
        self.state_taken = true;
        first
    }

    /// The state the channel's watch reports.
    pub fn watched(&self, s: &Shared) -> (r: DataChannelState)
        ensures
            r == watched_channel(s@, self.channel()),
    {
        match s.channel_state(self.id) {
            ChannelState::Opening => DataChannelState::Connecting,
            ChannelState::Open => DataChannelState::Open,
            ChannelState::Closed => match s.find(self.id) {
                Some(i) => {
                    assert(s@.channels[i as int] == s.channels@[i as int]@);
                    if s.channels[i].local_close_pending {
                        DataChannelState::Closing
                    } else {
                        DataChannelState::Closed
                    }
                },
                None => DataChannelState::Closed,
            },
        }
    }
}

// ----- streams -------------------------------------------------------------------------

/// Why a streaming send stopped, and after how many messages.
#[derive(Debug)]
pub struct SendViaStreamError {
    pub error: Error,
    pub sent: u64,
}

/// A streaming send.
#[derive(Debug)]
pub struct StreamSend {
    sent: u64,
}

impl StreamSend {
    /// How many messages have been sent.
    pub closed spec fn count(self) -> nat {
        self.sent as nat
    }

    /// A send of which nothing has been read.
    pub fn new() -> (r: StreamSend)
        ensures
            r.count() == 0,
    {
        StreamSend { sent: 0 }
    }

    /// The message to send for what was read from the stream.
    pub fn message(kind: MessageKind, bytes: Vec<u8>) -> (r: Message)
        ensures
            r@ == delivered(InboundView { text: kind == MessageKind::Text, data: bytes@ }),
    {
        match kind {
            MessageKind::Text => Message::Text(text_lossy(bytes.as_slice())),
            MessageKind::Binary => Message::Binary(bytes),
        }
    }

    /// Take the result of sending a message: the first failure ends the send, and
    /// reports how many messages went out before.
    pub fn settled(&mut self, result: Result<(), Error>) -> (r: Result<(), SendViaStreamError>)
        requires
            old(self).count() < u64::MAX,
        ensures
            match result {
                Ok(()) => r is Ok && final(self).count() == old(self).count() + 1,
                Err(error) => r == Err::<(), SendViaStreamError>(
                    SendViaStreamError { error, sent: old(self).count() as u64 },
                ) && final(self).count() == old(self).count(),
            },
    {
        match result {
            Ok(()) => {
                self.sent += 1;
                Ok(())
            },
            Err(error) => Err(SendViaStreamError { error, sent: self.sent }),
        }
    }
}

/// The payload of a stream message while it is read: to its declared length, or to
/// the end of its stream if that comes first. One declared empty is read to the end.
#[derive(Debug)]
pub struct PayloadDrain {
    length: usize,
    out: Vec<u8>,
    ended: bool,
}

/// How far a payload has been read.
pub struct PayloadDrainView {
    pub length: nat,
    pub out: Seq<u8>,
    pub ended: bool,
}

impl View for PayloadDrain {
    type V = PayloadDrainView;

    closed spec fn view(&self) -> PayloadDrainView {
        PayloadDrainView { length: self.length as nat, out: self.out@, ended: self.ended }
    }
}

impl PayloadDrainView {
    /// Whether the payload has been read.
    pub open spec fn over(self) -> bool {
        self.ended || (self.length != 0 && self.out.len() >= self.length)
    }
}

impl PayloadDrain {
    /// A drain of a stream of the given length.
    pub fn new(length: usize) -> (r: PayloadDrain)
        ensures
            r@ == (PayloadDrainView { length: length as nat, out: Seq::empty(), ended: false }),
    {
        PayloadDrain { length, out: Vec::new(), ended: false }
    }

    /// How many bytes to read next; none once the payload has been read.
    pub fn want(&self) -> (r: Option<usize>)
        ensures
            r is None <==> self@.over(),
            r matches Some(n) ==> n == if self@.length > self@.out.len() {
                self@.length - self@.out.len()
            } else {
                1
            },
    {
        if self.ended || (self.length != 0 && self.out.len() >= self.length) {
            None
        } else if self.length > self.out.len() {
            Some(self.length - self.out.len())
        } else {
            Some(1)
        }
    }

    /// Take what was read, and whether the stream ended with it.
    pub fn push(&mut self, chunk: Vec<u8>, ended: bool)
        ensures
            final(self)@ == (PayloadDrainView {
                out: old(self)@.out + chunk@,
                ended: old(self)@.ended || ended,
                ..old(self)@
            }),
    {
        let mut chunk = chunk;
        self.out.append(&mut chunk);
        self.ended = self.ended || ended;
    }

    /// What was read.
    pub fn finish(self) -> (r: Vec<u8>)
        ensures
            r@ == self@.out,
    {
        self.out
    }
}

/// A coalescing watch that feeds a state stream: it yields the current state where
/// that differs from what it yielded last, and ends after a terminal state.
#[derive(Debug)]
pub struct StatePump {
    last: Option<Seen>,
}

/// What a watch that yielded `last` yields for the current state.
pub open spec fn pumped(last: Option<Seen>, state: Seen) -> Option<Seen> {
    if last == Some(state) || (last matches Some(seen) && seen.ends()) {
        None
    } else {
        Some(state)
    }
}

impl StatePump {
    /// What was yielded last.
    pub closed spec fn yielded(self) -> Option<Seen> {
        self.last
    }

    /// Whether the stream ends.
    pub open spec fn is_over(self) -> bool {
        self.yielded() matches Some(seen) && seen.ends()
    }

    /// A pump that has emitted nothing.
    pub fn new() -> (r: StatePump)
        ensures
            r.yielded() is None,
    {
        StatePump { last: None }
    }

    /// Take the current state: what to yield for it, if anything.
    pub fn look(&mut self, state: Seen) -> (r: Option<Seen>)
        ensures
            r == pumped(old(self).yielded(), state),
            final(self).yielded() == if r is Some {
                r
            } else {
                old(self).yielded()
            },
    {
        match self.last {
            Some(seen) => {
                if seen == state || seen.is_terminal() {
                    return None;
                }
            },
            None => {},
        }
        self.last = Some(state);
        Some(state)
    }

    /// Whether the stream ends.
    pub fn over(&self) -> (r: bool)
        ensures
            r == self.is_over(),
    {
        match self.last {
            Some(seen) => seen.is_terminal(),
            None => false,
        }
    }
}

// ----- peer-connection -----------------------------------------------------------------

/// The first channel from a position on that was not created here.
pub open spec fn next_remote(channels: Seq<ChannelView>, local: Seq<u16>, cursor: int) -> Option<
    int,
>
    decreases channels.len() - cursor,
{
    if cursor >= channels.len() {
        None
    } else if !local.contains(channels[cursor].id) {
        Some(cursor)
    } else {
        next_remote(channels, local, cursor + 1)
    }
}

/// What the incoming-channels stream is fed next.
#[derive(Debug)]
pub enum Incoming {
    Channel(DataChannel),
    /// Nothing yet; look again when the state has changed.
    Wait,
    /// The stream ends.
    Done,
}

/// The connection's lifecycle as observed through the shared state. A close wins over
/// a failure.
pub open spec fn watched_connection(s: SharedView) -> ConnectionState {
    if s.closed {
        ConnectionState::Closed
    } else if s.failed {
        ConnectionState::Failed
    } else if s.connected {
        ConnectionState::Connected
    } else {
        ConnectionState::New
    }
}

impl Shared {
    /// The connection's lifecycle.
    pub fn connection_state(&self) -> (r: ConnectionState)
        ensures
            r == watched_connection(self@),
    {
        if self.closed {
            ConnectionState::Closed
        } else if self.failed {
            ConnectionState::Failed
        } else if self.connected {
            ConnectionState::Connected
        } else {
            ConnectionState::New
        }
    }

    /// What the incoming-channels stream is fed next, and where to look from then on:
    /// every channel the peer opened, until the connection is over.
    pub fn next_incoming(&self, cursor: usize) -> (r: (usize, Incoming))
        requires
            cursor <= self@.channels.len(),
        ensures
            r.0 <= self@.channels.len(),
            match next_remote(self@.channels, self@.local_channels, cursor as int) {
                Some(i) => {
                    &&& r.0 == i + 1
                    &&& r.1 matches Incoming::Channel(dc) && dc.channel() == self@.channels[i].id
                        && dc.labelled() == self@.channels[i].label && !dc.taken()
                },
                None => {
                    &&& r.0 == self@.channels.len()
                    &&& if self@.dead() {
                        r.1 is Done
                    } else {
                        r.1 is Wait
                    }
                },
            },
    {
        let mut i: usize = cursor;
        assert(self@.channels.len() == self.channels@.len());
        while i < self.channels.len()
            invariant
                cursor <= i <= self.channels@.len(),
                self@.channels.len() == self.channels@.len(),
                next_remote(self@.channels, self@.local_channels, cursor as int) == next_remote(
                    self@.channels,
                    self@.local_channels,
                    i as int,
                ),
            decreases self.channels@.len() - i,
        {
            assert(self@.channels[i as int] == self.channels@[i as int]@);
            if !holds_id(&self.local_channels, self.channels[i].id) {
                let dc = DataChannel::new(self.channels[i].id, self.channels[i].label.clone());
                return (i + 1, Incoming::Channel(dc));
            }
            i += 1;
        }
        if self.closed || self.failed {
            (i, Incoming::Done)
        } else {
            (i, Incoming::Wait)
        }
    }
}

/// The state of a connection that was constructed.
#[derive(Debug)]
pub struct PeerState {
    pub shared: Shared,
    /// The host candidate, delivered once.
    pub local_candidate: String,
    pub candidate_taken: bool,
    pub incoming_taken: bool,
    pub state_taken: bool,
    /// Whether the pump runs.
    pub started_pump: bool,
}

/// The exported `peer-connection`. One whose construction failed is dead: every
/// method observes it as closed.
#[derive(Debug)]
pub struct PeerConnection {
    pub inner: Option<PeerState>,
}

/// The state of a connection that was constructed.
pub struct PeerStateView {
    pub shared: SharedView,
    pub local_candidate: Seq<char>,
    pub candidate_taken: bool,
    pub incoming_taken: bool,
    pub state_taken: bool,
    pub started_pump: bool,
}

impl View for PeerState {
    type V = PeerStateView;

    open spec fn view(&self) -> PeerStateView {
        PeerStateView {
            shared: self.shared@,
            local_candidate: self.local_candidate@,
            candidate_taken: self.candidate_taken,
            incoming_taken: self.incoming_taken,
            state_taken: self.state_taken,
            started_pump: self.started_pump,
        }
    }
}

impl View for PeerConnection {
    type V = Option<PeerStateView>;

    open spec fn view(&self) -> Option<PeerStateView> {
        match self.inner {
            Some(state) => Some(state@),
            None => None,
        }
    }
}

/// How a state-changes call is answered.
#[derive(Debug, Clone, Copy, PartialEq, Eq, Structural)]
pub enum StateStreamStart {
    /// Feed the stream from the connection's watch.
    Watch,
    /// End it at once: it was taken before.
    Ended,
    /// Yield `closed` and end it: the connection is dead.
    Dead,
}

/// Where a description goes.
#[derive(Debug, Clone, Copy, PartialEq, Eq, Structural)]
pub enum RemoteKind {
    Offer,
    Answer,
}

/// What a remote description comes to before the core sees it.
pub enum RemoteGate {
    /// It is refused with `closed`.
    Closed,
    /// Its kind is refused.
    Unsupported,
    /// It is handed to the core.
    To(RemoteKind),
}

/// What a remote description comes to before the core sees it: a closed connection
/// refuses it first, then its kind is looked at.
pub open spec fn remote_gate(s: Option<PeerStateView>, kind: SdpType) -> RemoteGate {
    if !open_for_business(s) {
        RemoteGate::Closed
    } else {
        match kind {
            SdpType::Offer => RemoteGate::To(RemoteKind::Offer),
            SdpType::Answer => RemoteGate::To(RemoteKind::Answer),
            SdpType::Pranswer => RemoteGate::To(RemoteKind::Answer),
            SdpType::Rollback => RemoteGate::Unsupported,
        }
    }
}

/// Whether a connection's methods are served: it was constructed, and is neither
/// closed nor failed.
pub open spec fn open_for_business(s: Option<PeerStateView>) -> bool {
    s matches Some(state) && !state.shared.dead()
}

/// The connection once its pump runs.
pub open spec fn pumping(s: Option<PeerStateView>) -> Option<PeerStateView> {
    match s {
        Some(state) => Some(PeerStateView { started_pump: true, ..state }),
        None => None,
    }
}

/// A connection that has just been built, with its host candidate.
pub open spec fn just_built(candidate: Seq<char>) -> PeerStateView {
    PeerStateView {
        shared: SharedView {
            connected: false,
            failed: false,
            closed: false,
            channels: Seq::empty(),
            pending_closes: Seq::empty(),
            pending_stream_claims: Seq::empty(),
            local_channels: Seq::empty(),
        },
        local_candidate: candidate,
        candidate_taken: false,
        incoming_taken: false,
        state_taken: false,
        started_pump: false,
    }
}

/// Whether the pump has to be started.
pub open spec fn starts_pump(s: Option<PeerStateView>) -> bool {
    s matches Some(state) && !state.started_pump
}

/// Whether a connection's method is served, or fails with `closed`.
pub open spec fn gate(s: Option<PeerStateView>) -> Result<(), Error> {
    if open_for_business(s) {
        Ok(())
    } else {
        Err(Error::Closed)
    }
}

/// How a method of a connection begins.
#[derive(Debug)]
pub struct Begun<T> {
    /// Whether the pump has to be started first.
    pub start_pump: bool,
    /// What to ask of the core, or how the method fails without it.
    pub served: Result<T, Error>,
}

/// How long a connection may take to establish, in nanoseconds.
pub const CONNECT_TIMEOUT_NANOS: u64 = 20_000_000_000;

/// What a look at a connection that is awaited comes to.
#[derive(Debug)]
pub enum Awaited {
    Connected,
    Failed(Error),
    /// Look again when the state has changed, or in so many nanoseconds.
    Wait { remaining: u64 },
}

/// What a look at a connection that is awaited comes to. One that has ever connected
/// counts as connected; then a close, then the deadline.
pub open spec fn awaited(s: SharedView, now: u64, deadline: u64) -> Awaited {
    if s.connected {
        Awaited::Connected
    } else if s.dead() {
        Awaited::Failed(Error::Closed)
    } else if now >= deadline {
        Awaited::Failed(Error::TimedOut)
    } else {
        Awaited::Wait { remaining: (deadline - now) as u64 }
    }
}

/// When a connection that is awaited from now on has timed out.
pub fn connect_deadline(now: u64) -> (r: u64)
    requires
        now + CONNECT_TIMEOUT_NANOS <= u64::MAX,
    ensures
        r == now + CONNECT_TIMEOUT_NANOS,
{
    now + CONNECT_TIMEOUT_NANOS
}

impl PeerConnection {
    /// Every channel keeps count of its buffered bytes.
    pub open spec fn wf(self) -> bool {
        self.inner matches Some(state) ==> state.shared.wf()
    }

    /// Construct a connection from the host candidate its socket gave, or a dead one if
    /// it could not be constructed.
    pub fn new(local_candidate: Option<String>) -> (r: PeerConnection)
        ensures
            r.wf(),
            match local_candidate {
                None => r@ is None,
                Some(candidate) => r@ == Some(just_built(candidate@)),
            },
    {
        match local_candidate {
            None => PeerConnection { inner: None },
            Some(candidate) => PeerConnection {
                inner: Some(
                    PeerState {
                        shared: Shared::new(),
                        local_candidate: candidate,
                        candidate_taken: false,
                        incoming_taken: false,
                        state_taken: false,
                        started_pump: false,
                    },
                ),
            },
        }
    }

    /// Construct a connection from what came of building it: the host candidate that its
    /// socket gave, or the error for which it could not be built, such as an address that
    /// names none. The error cannot be returned; it is reported, and the connection is dead.
    pub fn construct(built: Result<String, String>) -> (r: (PeerConnection, Option<String>))
        ensures
            r.0.wf(),
            match built {
                Ok(candidate) => {
                    &&& r.1 is None
                    &&& r.0@ == Some(just_built(candidate@))
                },
                Err(error) => {
                    &&& r.1 matches Some(report) && report@
                        == "peer-connection construction failed: "@ + error@
                    &&& r.0@ is None
                },
            },
    {
        match built {
            Ok(candidate) => (PeerConnection::new(Some(candidate)), None),
            Err(error) => (
                PeerConnection::new(None),
                Some("peer-connection construction failed: ".to_owned().concat(error.as_str())),
            ),
        }
    }

    /// Make sure the pump runs: whether it has to be started now. A dead connection has
    /// none.
    pub fn ensure_pump(&mut self) -> (r: bool)
        requires
            old(self).wf(),
        ensures
            final(self).wf(),
            final(self)@ == pumping(old(self)@),
            r == starts_pump(old(self)@),
    {
        match self.inner.take() {
            None => false,
            Some(state) => {
                let mut state = state;
                let start = !state.started_pump;
                state.started_pump = true;
                self.inner = Some(state);
                start
            },
        }
    }

    /// Whether a method is served: one of a dead, closed or failed connection fails with
    /// `closed`, before it looks at what it was given.
    pub fn live(&self) -> (r: Result<(), Error>)
        ensures
            r == gate(self@),
    {
        match &self.inner {
            None => Err(Error::Closed),
            Some(state) => if state.shared.closed || state.shared.failed {
                Err(Error::Closed)
            } else {
                Ok(())
            },
        }
    }

    /// Take what the core answered to a request for a data channel. The channel is
    /// recorded as created here, so that it is never delivered as an incoming one.
    pub fn created_data_channel(&mut self, config: DcConfig, created: Result<u16, String>) -> (r:
        Result<DataChannel, Error>)
        requires
            old(self).wf(),
        ensures
            final(self).wf(),
            match (old(self)@, created) {
                (None, _) => r == Err::<DataChannel, Error>(Error::Closed) && final(self)@ is None,
                (Some(state), Err(why)) => r == Err::<DataChannel, Error>(Error::Other(why))
                    && final(self)@ == old(self)@,
                (Some(state), Ok(id)) => {
                    &&& r matches Ok(dc) && dc.channel() == id && dc.labelled() == config@.label
                        && !dc.taken()
                    &&& final(self)@ == Some(
                        PeerStateView {
                            shared: SharedView {
                                local_channels: state.shared.local_channels.push(id),
                                ..state.shared
                            },
                            ..state
                        },
                    )
                },
            },
    {
        match self.inner.take() {
            None => Err(Error::Closed),
            Some(state) => {
                let mut state = state;
                match created {
                    Err(why) => {
                        self.inner = Some(state);
                        Err(Error::Other(why))
                    },
                    Ok(id) => {
                        state.shared.local_channels.push(id);
                        self.inner = Some(state);
                        Ok(DataChannel::new(id, config.label))
                    },
                }
            },
        }
    }

    /// Take the incoming-channels stream: whether it is fed. A later call, or a call on a
    /// dead connection, gets a stream that ends at once.
    pub fn incoming_data_channels(&mut self) -> (r: bool)
        requires
            old(self).wf(),
        ensures
            final(self).wf(),
            r <==> (old(self)@ matches Some(state) && !state.incoming_taken),
            final(self)@ == match old(self)@ {
                Some(state) => Some(PeerStateView { incoming_taken: true, ..state }),
                None => None,
            },
    {
        match self.inner.take() {
            None => false,
            Some(state) => {
                let mut state = state;
                let first = !state.incoming_taken;
                state.incoming_taken = true;
                self.inner = Some(state);
                first
            },
        }
    }

    /// Take the state stream.
    pub fn state_changes(&mut self) -> (r: StateStreamStart)
        requires
            old(self).wf(),
        ensures
            final(self).wf(),
            match old(self)@ {
                None => r == StateStreamStart::Dead && final(self)@ is None,
                Some(state) => {
                    &&& r == if state.state_taken {
                        StateStreamStart::Ended
                    } else {
                        StateStreamStart::Watch
                    }
                    &&& final(self)@ == Some(PeerStateView { state_taken: true, ..state })
                },
            },
    {
        match self.inner.take() {
            None => StateStreamStart::Dead,
            Some(state) => {
                let mut state = state;
                let first = !state.state_taken;
                state.state_taken = true;
                self.inner = Some(state);
                if first {
                    StateStreamStart::Watch
                } else {
                    StateStreamStart::Ended
                }
            },
        }
    }

    /// Take the local-candidates stream: the one candidate it yields, if it yields any.
    pub fn local_ice_candidates(&mut self) -> (r: Option<IceCandidate>)
        requires
            old(self).wf(),
        ensures
            final(self).wf(),
            r is Some <==> (old(self)@ matches Some(state) && !state.candidate_taken),
            r matches Some(candidate) ==> {
                &&& candidate.candidate@ == old(self)@->Some_0.local_candidate
                &&& candidate.sdp_mid is None
                &&& candidate.sdp_mline_index is None
            },
            final(self)@ == match old(self)@ {
                Some(state) => Some(PeerStateView { candidate_taken: true, ..state }),
                None => None,
            },
    {
        match self.inner.take() {
            None => None,
            Some(state) => {
                let mut state = state;
                let candidate = if state.candidate_taken {
                    None
                } else {
                    Some(
                        IceCandidate {
                            candidate: state.local_candidate.clone(),
                            sdp_mid: None,
                            sdp_mline_index: None,
                        },
                    )
                };
                state.candidate_taken = true;
                self.inner = Some(state);
                candidate
            },
        }
    }

    /// Begin a method: make sure the pump runs, then see whether the method is served.
    fn begin(&mut self) -> (r: Begun<()>)
        requires
            old(self).wf(),
        ensures
            final(self).wf(),
            final(self)@ == pumping(old(self)@),
            r.start_pump == starts_pump(old(self)@),
            r.served == gate(old(self)@),
    {
        let start_pump = self.ensure_pump();
        Begun { start_pump, served: self.live() }
    }

    /// Begin the creation of a data channel: the configuration to ask the core for.
    pub fn create_data_channel(&self, options: &DataChannelOptions) -> (r: Result<
        DcConfig,
        Error,
    >)
        ensures
            match gate(self@) {
                Ok(()) => r matches Ok(config) && config@ == options@,
                Err(error) => r == Err::<DcConfig, Error>(error),
            },
    {
        match self.live() {
            Ok(()) => Ok(options.snapshot()),
            Err(error) => Err(error),
        }
    }

    /// Begin to create an offer, which the core makes and applies.
    pub fn create_offer(&mut self) -> (r: Begun<()>)
        requires
            old(self).wf(),
        ensures
            final(self).wf(),
            final(self)@ == pumping(old(self)@),
            r.start_pump == starts_pump(old(self)@),
            r.served == gate(old(self)@),
    {
        self.begin()
    }

    /// Begin to create an answer, which the core makes and applies.
    pub fn create_answer(&mut self) -> (r: Begun<()>)
        requires
            old(self).wf(),
        ensures
            final(self).wf(),
            final(self)@ == pumping(old(self)@),
            r.start_pump == starts_pump(old(self)@),
            r.served == gate(old(self)@),
    {
        self.begin()
    }

    /// Set the local description. The core has applied it when it made it, so nothing is
    /// left to do, but on a closed connection it fails all the same.
    pub fn set_local_description(&mut self) -> (r: Begun<()>)
        requires
            old(self).wf(),
        ensures
            final(self).wf(),
            final(self)@ == pumping(old(self)@),
            r.start_pump == starts_pump(old(self)@),
            r.served == gate(old(self)@),
    {
        self.begin()
    }

    /// Begin to set a remote description: what to hand to the core, as an offer or as an
    /// answer.
    pub fn set_remote_description(&mut self, description: SessionDescription) -> (r: Begun<
        (RemoteKind, String),
    >)
        requires
            old(self).wf(),
        ensures
            final(self).wf(),
            final(self)@ == pumping(old(self)@),
            r.start_pump == starts_pump(old(self)@),
            match remote_gate(old(self)@, description.kind) {
                RemoteGate::Closed => r.served == Err::<(RemoteKind, String), Error>(Error::Closed),
                RemoteGate::Unsupported => r.served matches Err(Error::InvalidSignaling(why))
                    && why@ == "rollback is not supported"@,
                RemoteGate::To(to) => r.served == Ok::<_, Error>((to, description.sdp)),
            },
    {
        let begun = self.begin();
        let served = match begun.served {
            Err(error) => Err(error),
            Ok(()) => match description.kind {
                SdpType::Offer => Ok((RemoteKind::Offer, description.sdp)),
                SdpType::Answer => Ok((RemoteKind::Answer, description.sdp)),
                SdpType::Pranswer => Ok((RemoteKind::Answer, description.sdp)),
                SdpType::Rollback => Err(
                    Error::InvalidSignaling("rollback is not supported".to_owned()),
                ),
            },
        };
        Begun { start_pump: begun.start_pump, served }
    }

    /// Begin to add a remote candidate: what to hand to the core.
    pub fn add_ice_candidate(&mut self, candidate: IceCandidate) -> (r: Begun<String>)
        requires
            old(self).wf(),
        ensures
            final(self).wf(),
            final(self)@ == pumping(old(self)@),
            r.start_pump == starts_pump(old(self)@),
            r.served == match gate(old(self)@) {
                Ok(()) => Ok::<String, Error>(candidate.candidate),
                Err(error) => Err(error),
            },
    {
        let begun = self.begin();
        let served = match begun.served {
            Ok(()) => Ok(candidate.candidate),
            Err(error) => Err(error),
        };
        Begun { start_pump: begun.start_pump, served }
    }

    /// Begin to await the connection: make sure the pump runs. Only a dead connection fails
    /// here; whether another one is over is seen by the looks that follow, behind whether it
    /// ever connected.
    pub fn begin_wait_connected(&mut self) -> (r: Begun<()>)
        requires
            old(self).wf(),
        ensures
            final(self).wf(),
            final(self)@ == pumping(old(self)@),
            r.start_pump == starts_pump(old(self)@),
            r.served == if old(self)@ is Some {
                Ok::<(), Error>(())
            } else {
                Err(Error::Closed)
            },
    {
        let served = if self.inner.is_some() {
            Ok(())
        } else {
            Err(Error::Closed)
        };
        let start_pump = self.ensure_pump();
        Begun { start_pump, served }
    }

    /// Look at a connection that is awaited. A dead one fails with `closed`.
    pub fn wait_connected(&self, now: u64, deadline: u64) -> (r: Awaited)
        ensures
            r == match self@ {
                None => Awaited::Failed(Error::Closed),
                Some(state) => awaited(state.shared, now, deadline),
            },
    {
        match &self.inner {
            None => Awaited::Failed(Error::Closed),
            Some(state) => if state.shared.connected {
                Awaited::Connected
            } else if state.shared.failed || state.shared.closed {
                Awaited::Failed(Error::Closed)
            } else if now >= deadline {
                Awaited::Failed(Error::TimedOut)
            } else {
                Awaited::Wait { remaining: deadline - now }
            },
        }
    }

    /// Whether a close has anything to close: a dead connection is already over.
    pub fn close(&self) -> (r: bool)
        ensures
            r == (self@ is Some),
    {
        self.inner.is_some()
    }
}

/// The description the core made, or the error for what it answered instead.
pub fn created_description(kind: SdpType, made: Result<String, String>) -> (r: Result<
    SessionDescription,
    Error,
>)
    ensures
        match made {
            Ok(sdp) => r == Ok::<SessionDescription, Error>(SessionDescription { kind, sdp }),
            Err(why) => r == Err::<SessionDescription, Error>(Error::Other(why)),
        },
{
    match made {
        Ok(sdp) => Ok(make_sdp(kind, sdp)),
        Err(why) => Err(Error::Other(why)),
    }
}

/// What the core's answer to a send comes to.
pub fn sent(answer: Result<(), String>) -> (r: Result<(), Error>)
    ensures
        match answer {
            Ok(()) => r == Ok::<(), Error>(()),
            Err(why) => r == Err::<(), Error>(Error::Other(why)),
        },
{
    match answer {
        Ok(()) => Ok(()),
        Err(why) => Err(Error::Other(why)),
    }
}

/// What the core's answer to a remote description or candidate comes to.
pub fn applied(answer: Result<(), String>) -> (r: Result<(), Error>)
    ensures
        match answer {
            Ok(()) => r == Ok::<(), Error>(()),
            Err(why) => r == Err::<(), Error>(Error::InvalidSignaling(why)),
        },
{
    match answer {
        Ok(()) => Ok(()),
        Err(why) => Err(Error::InvalidSignaling(why)),
    }
}

// ----- laws ----------------------------------------------------------------------------

proof fn lemma_found_kept(s: SharedView, id: u16, i: int, channel: ChannelView)
    requires
        s.found(id) == Some(i),
        channel.id == id,
    ensures
        0 <= i < s.channels.len(),
        s.with(i, channel).found(id) == Some(i),
        s.with(i, channel).channels[i] == channel,
{
    lemma_found(s.channels, id, 0);
    let now = s.with(i, channel).channels;
    assert forall|k: int| 0 <= k < i implies (#[trigger] now[k]).id != id by {
        assert(now[k] == s.channels[k]);
    }
    lemma_found_is(now, id, 0, i);
}

/// Closing a channel again changes nothing.
pub proof fn close_is_idempotent(s: SharedView, id: u16, first: u64, second: u64)
    ensures
        ({
            let once = after_close(s, id, first).0;
            after_close(once, id, second) == (once, false)
        }),
{
    lemma_found(s.channels, id, 0);
    match s.found(id) {
        Some(i) => {
            if !s.channels[i].closed {
                lemma_found_kept(s, id, i, after_close(s, id, first).0.channels[i]);
            }
        },
        None => {
            let once = after_close(s, id, first).0;
            assert(once.pending_closes.contains(id)) by {
                if !s.pending_closes.contains(id) {
                    assert(once.pending_closes.last() == id);
                }
            }
        },
    }
}

/// Past a local close of a tracked channel nothing is received, nothing can be
/// claimed, no operation runs, and the watch reads `closing` until the close has
/// flushed.
pub proof fn closed_channel_is_closed(s: SharedView, id: u16, deadline: u64)
    requires
        s.observed(id) == ChannelState::Open,
    ensures
        ({
            let closed = after_close(s, id, deadline).0;
            &&& closed.observed(id) == ChannelState::Closed
            &&& after_receive(closed, id).1 is Failed
            &&& !s.channels[s.found(id)->Some_0].stream_claimed && !s.channels[s.found(
                id,
            )->Some_0].overflowed ==> after_receive(closed, id).1 == ReceivedView::Failed(
                Error::Closed,
            )
            &&& after_claim(closed, id) == (closed, Err::<(), Error>(Error::Closed))
            &&& watched_channel(closed, id) == DataChannelState::Closing
        }),
{
    lemma_found(s.channels, id, 0);
    let i = s.found(id)->Some_0;
    lemma_found_kept(s, id, i, after_close(s, id, deadline).0.channels[i]);
}

/// The first claim of a channel's messages is the only one, and no receive gets a
/// message past it.
pub proof fn claim_is_exclusive(s: SharedView, id: u16)
    requires
        after_claim(s, id).1 is Ok,
    ensures
        ({
            let claimed = after_claim(s, id).0;
            &&& after_claim(claimed, id) == (
                claimed,
                Err::<(), Error>(Error::ReceivingViaStream),
            )
            &&& after_receive(claimed, id) == (
                claimed,
                ReceivedView::Failed(Error::ReceivingViaStream),
            )
        }),
{
    lemma_found(s.channels, id, 0);
    match s.found(id) {
        Some(i) => {
            lemma_found_kept(s, id, i, after_claim(s, id).0.channels[i]);
        },
        None => {
            let claimed = after_claim(s, id).0;
            assert(claimed.pending_stream_claims.last() == id);
            assert(claimed.pending_stream_claims.contains(id));
        },
    }
}

/// The state after some receives.
pub open spec fn after_receives(s: SharedView, id: u16, n: nat) -> SharedView
    decreases n,
{
    if n == 0 {
        s
    } else {
        after_receives(after_receive(s, id).0, id, (n - 1) as nat)
    }
}

/// What is waiting on a channel is received in the order in which it came, also if the
/// channel has closed or overflowed since; only then does a receive report that.
pub proof fn backlog_is_received_first(s: SharedView, id: u16, n: nat)
    requires
        s.found(id) is Some,
        !s.channels[s.found(id)->Some_0].stream_claimed,
        n <= s.channels[s.found(id)->Some_0].inbox.len(),
    ensures
        ({
            let c = s.channels[s.found(id)->Some_0];
            let later = after_receives(s, id, n);
            after_receive(later, id).1 == if n < c.inbox.len() {
                ReceivedView::Message(delivered(c.inbox[n as int]))
            } else if c.overflowed {
                ReceivedView::Failed(Error::ReceiveBufferOverflow)
            } else if c.closed {
                ReceivedView::Failed(Error::Closed)
            } else {
                ReceivedView::Wait
            }
        }),
    decreases n,
{
    lemma_found(s.channels, id, 0);
    let i = s.found(id)->Some_0;
    let c = s.channels[i];
    if n > 0 {
        let next = after_receive(s, id).0;
        lemma_found_kept(s, id, i, ChannelView { inbox: c.inbox.drop_first(), ..c });
        backlog_is_received_first(next, id, (n - 1) as nat);
    }
}

/// The state after a channel's stream was asked for its next message some times in a row.
pub open spec fn after_streams(s: SharedView, id: u16, n: nat) -> SharedView
    decreases n,
{
    if n == 0 {
        s
    } else {
        after_streams(after_stream(s, id).0, id, (n - 1) as nat)
    }
}

/// What is waiting on a channel is streamed in the order in which it came, each message with
/// its kind, its length and its bytes, also if the channel has closed or overflowed since;
/// only then does the stream end, and it ends only if the channel is closed.
pub proof fn backlog_is_streamed_first(s: SharedView, id: u16, n: nat)
    requires
        s.found(id) is Some,
        n <= s.channels[s.found(id)->Some_0].inbox.len(),
    ensures
        ({
            let c = s.channels[s.found(id)->Some_0];
            let later = after_streams(s, id, n);
            after_stream(later, id).1 == if n < c.inbox.len() {
                NextStreamedView::Message {
                    kind: if c.inbox[n as int].text {
                        MessageKind::Text
                    } else {
                        MessageKind::Binary
                    },
                    length: c.inbox[n as int].data.len() % 0x1_0000_0000,
                    data: c.inbox[n as int].data,
                }
            } else if c.closed {
                NextStreamedView::Done
            } else {
                NextStreamedView::Wait
            }
        }),
    decreases n,
{
    lemma_found(s.channels, id, 0);
    let i = s.found(id)->Some_0;
    let c = s.channels[i];
    if n > 0 {
        let next = after_stream(s, id).0;
        lemma_found_kept(s, id, i, ChannelView { inbox: c.inbox.drop_first(), ..c });
        backlog_is_streamed_first(next, id, (n - 1) as nat);
    }
}

/// Whether a channel was not created here.
pub open spec fn is_remote(local: Seq<u16>, channel: ChannelView) -> bool {
    !local.contains(channel.id)
}

/// The incoming-channels stream delivers every channel that was not created here, each
/// once and in the order in which they opened: what is left to deliver from a position
/// on is what the next look delivers, then what is left from behind it.
pub proof fn incoming_delivers_each_remote_channel_once(
    channels: Seq<ChannelView>,
    local: Seq<u16>,
    cursor: int,
)
    requires
        0 <= cursor <= channels.len(),
    ensures
        ({
            let left = |from: int| channels.skip(from).filter(|c: ChannelView| is_remote(local, c));
            match next_remote(channels, local, cursor) {
                Some(i) => cursor <= i < channels.len() && left(cursor) == seq![channels[i]] + left(
                    i + 1,
                ),
                None => left(cursor) == Seq::<ChannelView>::empty(),
            }
        }),
    decreases channels.len() - cursor,
{
    let pred = |c: ChannelView| is_remote(local, c);
    let here = channels.skip(cursor);
    if cursor >= channels.len() {
        assert(here =~= Seq::<ChannelView>::empty());
        reveal(Seq::filter);
        assert(here.filter(pred) =~= Seq::<ChannelView>::empty());
    } else {
        let rest = channels.skip(cursor + 1);
        assert(here =~= seq![channels[cursor]] + rest);
        Seq::filter_distributes_over_add(seq![channels[cursor]], rest, pred);
        let head = seq![channels[cursor]].filter(pred);
        assert(head =~= if pred(channels[cursor]) {
            seq![channels[cursor]]
        } else {
            Seq::<ChannelView>::empty()
        }) by {
            reveal(Seq::filter);
            assert(seq![channels[cursor]].drop_last() =~= Seq::<ChannelView>::empty());
            assert(Seq::<ChannelView>::empty().filter(pred) =~= Seq::<ChannelView>::empty());
            assert(seq![channels[cursor]].last() == channels[cursor]);
        }
        if local.contains(channels[cursor].id) {
            incoming_delivers_each_remote_channel_once(channels, local, cursor + 1);
            assert(here.filter(pred) =~= rest.filter(pred));
        }
    }
}

/// What a watch yields for the states it looks at in turn.
pub open spec fn pump_run(last: Option<Seen>, looks: Seq<Seen>) -> Seq<Seen>
    decreases looks.len(),
{
    if looks.len() == 0 {
        Seq::empty()
    } else {
        match pumped(last, looks[0]) {
            Some(state) => seq![state] + pump_run(Some(state), looks.drop_first()),
            None => pump_run(last, looks.drop_first()),
        }
    }
}

proof fn lemma_pump(before: Seq<Seen>, last: Option<Seen>, looks: Seq<Seen>)
    requires
        with_states(Seq::empty(), before) == Ok::<Seq<Seen>, Seq<char>>(before),
        match last {
            Some(seen) => before.len() > 0 && before.last() == seen,
            None => before.len() == 0,
        },
    ensures
        with_states(before, pump_run(last, looks)) == Ok::<Seq<Seen>, Seq<char>>(
            before + pump_run(last, looks),
        ),
    decreases looks.len(),
{
    if looks.len() == 0 {
        assert(before + Seq::<Seen>::empty() =~= before);
    } else {
        match pumped(last, looks[0]) {
            Some(state) => {
                let rest = pump_run(Some(state), looks.drop_first());
                let more = before.push(state);
                let all = seq![state] + rest;
                batches_do_not_matter(Seq::empty(), before, seq![state]);
                assert(before + seq![state] =~= more);
                assert(all[0] == state);
                assert(all.drop_first() =~= rest);
                assert(with_state(before, state) == Ok::<Seq<Seen>, Seq<char>>(more));
                assert(seq![state].drop_first() =~= Seq::<Seen>::empty());
                reveal_with_fuel(with_states, 2);
                assert(with_states(Seq::empty(), more) == Ok::<Seq<Seen>, Seq<char>>(more));
                lemma_pump(more, Some(state), looks.drop_first());
                assert(more + rest =~= before + all);
            },
            None => {
                lemma_pump(before, last, looks.drop_first());
            },
        }
    }
}

/// Whatever states a watch looks at, what it yields is what the suite accepts of a
/// state stream: no state twice in a row, and nothing past a terminal one.
pub proof fn watch_is_coalescing(looks: Seq<Seen>)
    ensures
        coalesced(pump_run(None, looks)),
        with_states(Seq::empty(), pump_run(None, looks)) == Ok::<Seq<Seen>, Seq<char>>(
            pump_run(None, looks),
        ),
{
    lemma_pump(Seq::empty(), None, looks);
    assert(Seq::<Seen>::empty() + pump_run(None, looks) =~= pump_run(None, looks));
    drains_exactly_coalesced(pump_run(None, looks));
}

/// A connection that has ever connected is connected to whoever awaits it, at any time
/// and also past its close.
pub proof fn connected_is_latched(s: SharedView, now: u64, deadline: u64)
    requires
        s.connected,
    ensures
        awaited(s, now, deadline) == Awaited::Connected,
        awaited(SharedView { closed: true, ..s }, now, deadline) == Awaited::Connected,
{
}

/// A closed connection refuses a remote description as closed, whatever its kind.
pub proof fn gate_precedes_validation(s: Option<PeerStateView>, kind: SdpType)
    requires
        !open_for_business(s),
    ensures
        remote_gate(s, kind) is Closed,
{
}

/// A channel is found by its id: the first that has it, and none only if no channel has it.
pub proof fn channels_are_found_by_id(s: SharedView, id: u16)
    ensures
        match s.found(id) {
            Some(i) => {
                &&& 0 <= i < s.channels.len()
                &&& s.channels[i].id == id
                &&& forall|k: int| 0 <= k < i ==> (#[trigger] s.channels[k]).id != id
            },
            None => forall|k: int|
                0 <= k < s.channels.len() ==> (#[trigger] s.channels[k]).id != id,
        },
{
    lemma_found(s.channels, id, 0);
}

/// A channel is open exactly while it is tracked and not closed, opening while its connection
/// is alive and it is not tracked yet, and closed otherwise.
pub proof fn channel_state_is_exact(s: SharedView, id: u16)
    ensures
        s.observed(id) is Open <==> s.found(id) is Some && !s.channels[s.found(id)->Some_0].closed,
        s.observed(id) is Opening <==> s.found(id) is None && !s.closed && !s.failed,
        watched_channel(s, id) is Open <==> s.observed(id) is Open,
        watched_channel(s, id) is Connecting <==> s.observed(id) is Opening,
        watched_channel(s, id) is Closing <==> s.found(id) is Some && s.channels[s.found(
            id,
        )->Some_0].closed && s.channels[s.found(id)->Some_0].local_close_pending,
{
}

/// Whether two states differ in one channel's state at most.
pub open spec fn same_but_for(before: SharedView, after: SharedView, id: u16) -> bool {
    &&& after.connected == before.connected
    &&& after.failed == before.failed
    &&& after.closed == before.closed
    &&& after.local_channels == before.local_channels
    &&& after.channels.len() == before.channels.len()
    &&& forall|k: int|
        0 <= k < before.channels.len() && before.found(id) != Some(k)
            ==> #[trigger] after.channels[k] == before.channels[k]
    &&& forall|k: int|
        0 <= k < before.channels.len() ==> (#[trigger] after.channels[k]).id
            == before.channels[k].id && after.channels[k].label == before.channels[k].label
}

/// Channels are independent: closing one, receiving on it, claiming its messages or streaming
/// them leaves every other channel, and the connection, as it is.
pub proof fn channels_are_independent(s: SharedView, id: u16, other: u16, deadline: u64)
    requires
        id != other,
    ensures
        same_but_for(s, after_close(s, id, deadline).0, id),
        same_but_for(s, after_receive(s, id).0, id),
        same_but_for(s, after_claim(s, id).0, id),
        same_but_for(s, after_stream(s, id).0, id),
        after_close(s, id, deadline).0.observed(other) == s.observed(other),
        after_receive(s, id).0.observed(other) == s.observed(other),
        after_claim(s, id).0.observed(other) == s.observed(other),
        after_stream(s, id).0.observed(other) == s.observed(other),
        after_close(s, id, deadline).0.pending_stream_claims == s.pending_stream_claims,
        after_claim(s, id).0.pending_closes == s.pending_closes,
        after_claim(s, id).0.pending_stream_claims.contains(other)
            <==> s.pending_stream_claims.contains(other),
        after_close(s, id, deadline).0.pending_closes.contains(other)
            <==> s.pending_closes.contains(other),
{
    lemma_found(s.channels, id, 0);
    lemma_same_found(s, after_close(s, id, deadline).0, id, other);
    lemma_same_found(s, after_receive(s, id).0, id, other);
    lemma_same_found(s, after_claim(s, id).0, id, other);
    lemma_same_found(s, after_stream(s, id).0, id, other);
    lemma_pushed(s.pending_stream_claims, id, other);
    lemma_pushed(s.pending_closes, id, other);
}

proof fn lemma_pushed(list: Seq<u16>, id: u16, other: u16)
    requires
        id != other,
    ensures
        list.push(id).contains(other) <==> list.contains(other),
{
    if list.contains(other) {
        let k = choose|k: int| 0 <= k < list.len() && list[k] == other;
        assert(list.push(id)[k] == other);
    }
}

proof fn lemma_same_found(before: SharedView, after: SharedView, id: u16, other: u16)
    requires
        id != other,
        same_but_for(before, after, id),
    ensures
        after.observed(other) == before.observed(other),
{
    lemma_found(before.channels, id, 0);
    lemma_found(before.channels, other, 0);
    lemma_found(after.channels, other, 0);
    match before.found(other) {
        Some(i) => {
            assert(after.channels[i].id == other);
            assert forall|k: int| 0 <= k < i implies (#[trigger] after.channels[k]).id
                != other by {
                assert(before.channels[k].id != other);
            }
            lemma_found_is(after.channels, other, 0, i);
            assert(after.channels[i] == before.channels[i]);
        },
        None => {
            assert forall|k: int| 0 <= k < after.channels.len() implies (
            #[trigger] after.channels[k]).id != other by {
                assert(before.channels[k].id != other);
            }
        },
    }
}

/// A receive that delivers nothing changes nothing; one that delivers takes the message that
/// came first, and nothing else of the channel.
pub proof fn receive_takes_one_message(s: SharedView, id: u16)
    ensures
        !(after_receive(s, id).1 is Message) ==> after_receive(s, id).0 == s,
        !(after_stream(s, id).1 is Message) ==> after_stream(s, id).0 == s,
        s.found(id) matches Some(i) ==> {
            let c = s.channels[i];
            let took = after_receive(s, id).0.channels[i];
            &&& after_receive(s, id).1 is Message <==> !c.stream_claimed && c.inbox.len() > 0
            &&& after_receive(s, id).1 is Message ==> c.inbox == seq![c.inbox[0]] + took.inbox
            &&& took.closed == c.closed && took.overflowed == c.overflowed && took.stream_claimed
                == c.stream_claimed && took.local_close_pending == c.local_close_pending
                && took.close_flush_deadline == c.close_flush_deadline
        },
{
    lemma_found(s.channels, id, 0);
    if let Some(i) = s.found(id) {
        let c = s.channels[i];
        if c.inbox.len() > 0 {
            assert(c.inbox =~= seq![c.inbox[0]] + c.inbox.drop_first());
        }
    }
}

/// On a channel that is not tracked yet nothing is delivered: a receive waits while the
/// connection is alive, unless a claim is pending, and a stream ends once it is over.
pub proof fn untracked_channel_delivers_nothing(s: SharedView, id: u16)
    requires
        s.found(id) is None,
    ensures
        after_receive(s, id).1 == if s.pending_stream_claims.contains(id) {
            ReceivedView::Failed(Error::ReceivingViaStream)
        } else if s.closed || s.failed {
            ReceivedView::Failed(Error::Closed)
        } else {
            ReceivedView::Wait
        },
        after_stream(s, id).1 is Done <==> s.closed || s.failed,
        after_stream(s, id).1 is Wait <==> !s.closed && !s.failed,
{
}

/// A close is marked at once, discards what was not received, and has until its deadline to
/// flush; a channel that is not tracked is remembered for a close, once.
pub proof fn close_discards_and_flushes(s: SharedView, id: u16, deadline: u64)
    ensures
        ({
            let (closed, changed) = after_close(s, id, deadline);
            match s.found(id) {
                Some(i) => {
                    &&& closed.channels[i].closed
                    &&& changed == !s.channels[i].closed
                    &&& changed ==> closed.channels[i].inbox.len() == 0
                        && closed.channels[i].local_close_pending
                        && closed.channels[i].close_flush_deadline == Some(deadline)
                        && closed.channels[i].overflowed == s.channels[i].overflowed
                        && closed.channels[i].stream_claimed == s.channels[i].stream_claimed
                    &&& !changed ==> closed == s
                    &&& closed.pending_closes == s.pending_closes
                },
                None => {
                    &&& closed.channels == s.channels
                    &&& closed.pending_closes.contains(id)
                    &&& changed == !s.pending_closes.contains(id)
                    &&& !changed ==> closed == s
                },
            }
        }),
{
    lemma_found(s.channels, id, 0);
    if s.found(id) is None && !s.pending_closes.contains(id) {
        assert(s.pending_closes.push(id).last() == id);
    }
}

/// A claim succeeds exactly if the channel is not closed and its messages were not claimed
/// before, whether or not it has opened yet; one that fails changes nothing.
pub proof fn claim_is_exact(s: SharedView, id: u16)
    ensures
        ({
            let claimed_before = match s.found(id) {
                Some(i) => s.channels[i].stream_claimed,
                None => s.pending_stream_claims.contains(id),
            };
            let closed = match s.found(id) {
                Some(i) => s.channels[i].closed,
                None => s.closed || s.failed,
            };
            &&& after_claim(s, id).1 is Ok <==> !closed && !claimed_before
            &&& closed ==> after_claim(s, id).1 == Err::<(), Error>(Error::Closed)
            &&& !closed && claimed_before ==> after_claim(s, id).1 == Err::<(), Error>(
                Error::ReceivingViaStream,
            )
            &&& after_claim(s, id).1 is Err ==> after_claim(s, id).0 == s
            &&& after_claim(s, id).1 is Ok ==> (s.found(id) matches Some(i) ==> after_claim(
                s,
                id,
            ).0.channels[i].inbox == s.channels[i].inbox && !after_claim(
                s,
                id,
            ).0.channels[i].closed)
        }),
{
    lemma_found(s.channels, id, 0);
}

/// A connection that never connected is refused as closed once it is over, else as timed out
/// from its deadline on, and until then is waited for as long as is left.
pub proof fn waiting_is_exact(s: SharedView, now: u64, deadline: u64)
    ensures
        awaited(s, now, deadline) is Connected <==> s.connected,
        awaited(s, now, deadline) == Awaited::Failed(Error::Closed) <==> !s.connected && (s.closed
            || s.failed),
        awaited(s, now, deadline) == Awaited::Failed(Error::TimedOut) <==> !s.connected && !s.closed
            && !s.failed && now >= deadline,
        awaited(s, now, deadline) matches Awaited::Wait { remaining } ==> now + remaining
            == deadline && remaining > 0,
        awaited(s, now, deadline) is Wait <==> !s.connected && !s.closed && !s.failed && now
            < deadline,
{
}

/// A method is served exactly if the connection was constructed and is neither closed nor
/// failed; a remote description must then be an offer or an answer, final or not.
pub proof fn gates_are_exact(s: Option<PeerStateView>, kind: SdpType)
    ensures
        gate(s) is Ok <==> (s matches Some(state) && !state.shared.closed && !state.shared.failed),
        gate(s) is Err ==> gate(s) == Err::<(), Error>(Error::Closed),
        remote_gate(s, kind) is Closed <==> gate(s) is Err,
        gate(s) is Ok ==> match kind {
            SdpType::Offer => remote_gate(s, kind) == RemoteGate::To(RemoteKind::Offer),
            SdpType::Answer => remote_gate(s, kind) == RemoteGate::To(RemoteKind::Answer),
            SdpType::Pranswer => remote_gate(s, kind) == RemoteGate::To(RemoteKind::Answer),
            SdpType::Rollback => remote_gate(s, kind) is Unsupported,
        },
{
}

/// The connection's watch reads closed exactly if it was closed, failed if it failed and was
/// not closed, connected if it is neither and has connected, and new before.
pub proof fn connection_state_is_exact(s: SharedView)
    ensures
        watched_connection(s) is Closed <==> s.closed,
        watched_connection(s) is Failed <==> s.failed && !s.closed,
        watched_connection(s) is Connected <==> s.connected && !s.failed && !s.closed,
        watched_connection(s) is New <==> !s.connected && !s.failed && !s.closed,
{
}

/// A watch does not fall behind: once it has looked, the last state it yielded is the one it
/// saw last, unless it has ended in a terminal one. It yields only states it has seen.
pub proof fn watch_is_current(last: Option<Seen>, looks: Seq<Seen>)
    requires
        looks.len() > 0,
        last matches Some(seen) ==> !seen.ends(),
    ensures
        ({
            let yields = pump_run(last, looks);
            let now = if yields.len() > 0 {
                Some(yields.last())
            } else {
                last
            };
            &&& now is Some
            &&& now->Some_0 == looks.last() || now->Some_0.ends()
            &&& forall|i: int| 0 <= i < yields.len() ==> looks.contains(#[trigger] yields[i])
        }),
    decreases looks.len(),
{
    let rest = looks.drop_first();
    let next = match pumped(last, looks[0]) {
        Some(state) => Some(state),
        None => last,
    };
    let later = pump_run(next, rest);
    let yields = pump_run(last, looks);
    assert(looks.contains(looks[0]));
    if rest.len() > 0 {
        assert(rest.last() == looks.last());
        if next->Some_0.ends() {
            lemma_ended_pump(next, rest);
        } else {
            watch_is_current(next, rest);
        }
        assert forall|i: int| 0 <= i < later.len() implies looks.contains(#[trigger] later[i]) by {
            assert(rest.contains(later[i]));
            let k = choose|k: int| 0 <= k < rest.len() && rest[k] == later[i];
            assert(looks[k + 1] == later[i]);
        }
    }
    if pumped(last, looks[0]) is Some {
        assert(yields =~= seq![looks[0]] + later);
        if later.len() > 0 {
            assert(yields.last() == later.last());
        }
    } else {
        assert(yields == later);
    }
    assert forall|i: int| 0 <= i < yields.len() implies looks.contains(#[trigger] yields[i]) by {
        if pumped(last, looks[0]) is Some && i > 0 {
            assert(yields[i] == later[i - 1]);
        }
    }
}

proof fn lemma_ended_pump(last: Option<Seen>, looks: Seq<Seen>)
    requires
        last matches Some(seen) && seen.ends(),
    ensures
        pump_run(last, looks).len() == 0,
    decreases looks.len(),
{
    if looks.len() > 0 {
        lemma_ended_pump(last, looks.drop_first());
    }
}

/// A connection that has just been built serves its methods, is new, has no channel, and waits
/// for its peer; its pump has not been started.
pub proof fn fresh_connection_is_new(candidate: Seq<char>, id: u16, now: u64, deadline: u64)
    requires
        now < deadline,
    ensures
        ({
            let s = just_built(candidate);
            &&& gate(Some(s)) is Ok
            &&& watched_connection(s.shared) is New
            &&& awaited(s.shared, now, deadline) is Wait
            &&& s.shared.observed(id) is Opening
            &&& s.shared.channels.len() == 0 && s.shared.local_channels.len() == 0
            &&& s.local_candidate == candidate
            &&& !s.candidate_taken && !s.incoming_taken && !s.state_taken
            &&& starts_pump(Some(s))
            &&& after_claim(s.shared, id).1 is Ok
            &&& after_receive(s.shared, id).1 is Wait
        }),
{
}

/// The pump is started once, and starting it changes nothing else.
pub proof fn pump_is_started_once(s: Option<PeerStateView>)
    ensures
        !starts_pump(pumping(s)),
        starts_pump(s) <==> s is Some && pumping(s) != s,
        pumping(s) is Some <==> s is Some,
        gate(pumping(s)) == gate(s),
        s matches Some(state) ==> pumping(s)->Some_0.shared == state.shared
            && pumping(s)->Some_0.candidate_taken == state.candidate_taken
            && pumping(s)->Some_0.incoming_taken == state.incoming_taken
            && pumping(s)->Some_0.state_taken == state.state_taken
            && pumping(s)->Some_0.local_candidate == state.local_candidate,
{
}

/// A message is delivered as what it was sent as: binary with its very bytes, text as the text
/// that its bytes are read as.
pub proof fn messages_are_delivered_as_sent(message: InboundView)
    ensures
        message.text ==> delivered(message) == MessageView::Text(lossy_text(message.data)),
        !message.text ==> delivered(message) == MessageView::Binary(message.data),
{
}

/// A payload is read to its declared length, or to the end of its stream if that comes first;
/// one that is declared empty is read to the end.
pub proof fn payload_is_read_to_its_length(drain: PayloadDrainView)
    ensures
        drain.ended ==> drain.over(),
        !drain.ended && drain.length == 0 ==> !drain.over(),
        !drain.ended && drain.length > 0 ==> (drain.over() <==> drain.out.len() >= drain.length),
{
}

} // verus!
