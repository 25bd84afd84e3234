//! The native host's data channel: its bounded inbound buffer, the pump that fills
//! it, its close signals and lifecycle, and the claim of its messages as a stream.

use std::collections::VecDeque;
use vstd::prelude::*;

use crate::corpus::MAX_INBOUND_BUFFER_ENV;
use crate::environment::{Variable, VariableView};
use crate::text::{debug_quoted, debug_text, parse_unsigned, unsigned_value};

verus! {

// ----- the bound on the inbound buffer -------------------------------------------------

/// The default bound on inbound payload bytes buffered per channel, 8 MiB. There is
/// no inbound backpressure on the wire, so this bound is what protects the host's
/// memory from a slow reader.
pub const DEFAULT_MAX_INBOUND_BUFFER_BYTES: usize = 8 * 1024 * 1024;

/// The bound an environment names, or the error for one that names none: an unset or
/// empty variable leaves the default, and anything but a positive count is refused.
pub open spec fn bound_named(value: VariableView) -> Result<Option<usize>, Seq<char>> {
    match value {
        VariableView::Unset => Ok(None),
        VariableView::Text(text) => if text.len() == 0 {
            Ok(None)
        } else {
            match unsigned_value(text) {
                Some(bytes) => if bytes > 0 {
                    Ok(Some(bytes))
                } else {
                    Err(not_a_bound(debug_text(text)))
                },
                None => Err(not_a_bound(debug_text(text))),
            }
        },
        VariableView::NotText(shown) => Err(not_a_bound(shown)),
    }
}

/// The error for a value that is no bound.
pub open spec fn not_a_bound(shown: Seq<char>) -> Seq<char> {
    "invalid "@ + MAX_INBOUND_BUFFER_ENV@ + " "@ + shown + ": expected a positive byte count"@
}

fn bound_error(shown: &str) -> (r: String)
    ensures
        r@ == not_a_bound(shown@),
{
    "invalid ".to_owned().concat(MAX_INBOUND_BUFFER_ENV).concat(" ").concat(shown).concat(
        ": expected a positive byte count",
    )
}

/// Read the bound from the value of the environment's variable. A malformed value is
/// an error rather than the default, also one that is no text: it is mostly set by tests,
/// which the default would invalidate.
pub fn max_inbound_buffer_bytes_from_env(value: Variable) -> (r: Result<Option<usize>, String>)
    ensures
        match r {
            Ok(bound) => bound_named(value@) == Ok::<_, Seq<char>>(bound),
            Err(error) => bound_named(value@) == Err::<Option<usize>, _>(error@),
        },
{
    match value {
        Variable::Unset => Ok(None),
        Variable::Text(text) => {
            if text.as_str().unicode_len() == 0 {
                return Ok(None);
            }
            match parse_unsigned(text.as_str()) {
                Some(bytes) => {
                    if bytes > 0 {
                        return Ok(Some(bytes));
                    }
                },
                None => {},
            }
            Err(bound_error(debug_quoted(text.as_str()).as_str()))
        },
        Variable::NotText(shown) => Err(bound_error(shown.as_str())),
    }
}

/// The bound is the default exactly where the variable is unset or empty: no value that is
/// set and malformed falls back to it.
pub proof fn only_an_absent_bound_is_the_default(value: VariableView)
    ensures
        bound_named(value) == Ok::<Option<usize>, Seq<char>>(None) <==> (value is Unset || value
            == VariableView::Text(Seq::empty())),
        bound_named(value) is Ok ==> value !is NotText,
{
    if let VariableView::Text(text) = value {
        if text.len() == 0 {
            assert(text =~= Seq::empty());
        }
    }
}

// ----- the inbound buffer --------------------------------------------------------------

/// The account of buffered bytes that a channel's pump and its readers share.
#[derive(Debug)]
pub struct InboundBudget {
    limit: usize,
    buffered: usize,
    overflowed: bool,
}

/// The account of buffered bytes.
pub struct BudgetView {
    /// The bound on buffered payload bytes.
    pub limit: usize,
    /// Payload bytes buffered and not consumed yet.
    pub buffered: usize,
    /// Whether a message would have exceeded the bound.
    pub overflowed: bool,
}

impl View for InboundBudget {
    type V = BudgetView;

    closed spec fn view(&self) -> BudgetView {
        BudgetView { limit: self.limit, buffered: self.buffered, overflowed: self.overflowed }
    }
}

impl BudgetView {
    /// Whether so many more bytes fit.
    pub open spec fn fits(self, len: nat) -> bool {
        !self.overflowed && self.buffered + len <= self.limit
    }

    /// The account after an attempt to reserve so many bytes: one that does not fit is
    /// latched as an overflow.
    pub open spec fn reserved(self, len: nat) -> BudgetView {
        if self.fits(len) {
            BudgetView { buffered: (self.buffered + len) as usize, ..self }
        } else {
            BudgetView { overflowed: true, ..self }
        }
    }
}

impl InboundBudget {
    /// An account bounded at `limit` bytes.
    pub fn new(limit: usize) -> (r: InboundBudget)
        ensures
            r@ == (BudgetView { limit, buffered: 0, overflowed: false }),
    {
        InboundBudget { limit, buffered: 0, overflowed: false }
    }

    /// Reserve `len` bytes: whether they fit. Once something did not, nothing does.
    pub fn reserve(&mut self, len: usize) -> (r: bool)
        ensures
            r == old(self)@.fits(len as nat),
            final(self)@ == old(self)@.reserved(len as nat),
    {
        if self.overflowed {
            return false;
        }
        if self.buffered > self.limit || len > self.limit - self.buffered {
            self.overflowed = true;
            return false;
        }
        self.buffered += len;
        true
    }

    /// Release `len` bytes that were reserved.
    pub fn release(&mut self, len: usize)
        requires
            len <= old(self)@.buffered,
        ensures
            final(self)@ == (BudgetView {
                buffered: (old(self)@.buffered - len) as usize,
                ..old(self)@
            }),
    {
        self.buffered -= len;
    }

    /// Whether a message overflowed the bound.
    pub fn overflowed(&self) -> (r: bool)
        ensures
            r == self@.overflowed,
    {
        self.overflowed
    }
}

/// One inbound message.
#[derive(Debug, Clone)]
pub struct HostMessage {
    /// Whether it was sent as text.
    pub is_string: bool,
    pub data: Vec<u8>,
}

/// The payload bytes of messages.
pub open spec fn total(messages: Seq<HostMessage>) -> nat
    decreases messages.len(),
{
    if messages.len() == 0 {
        0
    } else {
        total(messages.drop_last()) + messages.last().data@.len()
    }
}

proof fn lemma_total_first(messages: Seq<HostMessage>)
    requires
        messages.len() > 0,
    ensures
        total(messages) == messages[0].data@.len() + total(messages.drop_first()),
    decreases messages.len(),
{
    if messages.len() > 1 {
        lemma_total_first(messages.drop_last());
        assert(messages.drop_last().drop_first() =~= messages.drop_first().drop_last());
    } else {
        assert(messages.drop_first() =~= Seq::<HostMessage>::empty());
        assert(messages.drop_last() =~= Seq::<HostMessage>::empty());
    }
}

/// A channel's inbound messages: what the pump has buffered and no reader has taken.
#[derive(Debug)]
pub struct InboundQueue {
    messages: VecDeque<HostMessage>,
    budget: InboundBudget,
    ended: bool,
}

/// A channel's inbound messages.
pub struct QueueView {
    pub messages: Seq<HostMessage>,
    pub budget: BudgetView,
    /// Whether the pump has stopped.
    pub ended: bool,
}

impl View for InboundQueue {
    type V = QueueView;

    closed spec fn view(&self) -> QueueView {
        QueueView { messages: self.messages@, budget: self.budget@, ended: self.ended }
    }
}

impl QueueView {
    /// The account is that of the messages, and within its bound.
    pub open spec fn valid(self) -> bool {
        &&& self.budget.buffered == total(self.messages)
        &&& self.budget.buffered <= self.budget.limit
    }

    /// The queue after a message arrived: one that does not fit is discarded.
    pub open spec fn arrived(self, message: HostMessage) -> QueueView {
        QueueView {
            messages: if self.budget.fits(message.data@.len()) {
                self.messages.push(message)
            } else {
                self.messages
            },
            budget: self.budget.reserved(message.data@.len()),
            ..self
        }
    }
}

/// What a reader gets.
#[derive(Debug)]
pub enum Taken {
    Message(HostMessage),
    /// Nothing yet.
    Pending,
    /// The pump has stopped and nothing is left: the channel closed, or its buffer
    /// overflowed.
    Closed,
    Overflowed,
}

/// The queue after a reader took what comes next, and what that is: what is buffered first,
/// then nothing until the pump has stopped, then why it has.
pub open spec fn after_take(queue: QueueView) -> (QueueView, Taken) {
    if queue.messages.len() > 0 {
        (
            QueueView {
                messages: queue.messages.drop_first(),
                budget: BudgetView {
                    buffered: (queue.budget.buffered - queue.messages[0].data@.len()) as usize,
                    ..queue.budget
                },
                ..queue
            },
            Taken::Message(queue.messages[0]),
        )
    } else if !queue.ended {
        (queue, Taken::Pending)
    } else if queue.budget.overflowed {
        (queue, Taken::Overflowed)
    } else {
        (queue, Taken::Closed)
    }
}

impl InboundQueue {
    /// An empty queue.
    pub fn new(limit: usize) -> (r: InboundQueue)
        ensures
            r@ == (QueueView {
                messages: Seq::empty(),
                budget: BudgetView { limit, buffered: 0, overflowed: false },
                ended: false,
            }),
            r@.valid(),
    {
        InboundQueue { messages: VecDeque::new(), budget: InboundBudget::new(limit), ended: false }
    }

    /// Buffer a message: whether it fit. Where it did not, the channel has to be closed.
    pub fn arrive(&mut self, message: HostMessage) -> (r: bool)
        requires
            old(self)@.valid(),
        ensures
            final(self)@.valid(),
            final(self)@ == old(self)@.arrived(message),
            r == old(self)@.budget.fits(message.data@.len()),
    {
        let ghost was = self@;
        let fits = self.budget.reserve(message.data.len());
        if fits {
            self.messages.push_back(message);
            assert(self@.messages.drop_last() =~= was.messages);
            assert(self@.messages =~= was.messages.push(message));
        }
        fits
    }

    /// The pump has stopped.
    pub fn end(&mut self)
        ensures
            final(self)@ == (QueueView { ended: true, ..old(self)@ }),
    {
        self.ended = true;
    }

    /// Take the next message, and release its bytes.
    pub fn next(&mut self) -> (r: Taken)
        requires
            old(self)@.valid(),
        ensures
            final(self)@.valid(),
            (final(self)@, r) == after_take(old(self)@),
            if old(self)@.messages.len() > 0 {
                &&& r == Taken::Message(old(self)@.messages[0])
                &&& final(self)@ == (QueueView {
                    messages: old(self)@.messages.drop_first(),
                    budget: BudgetView {
                        buffered: (old(self)@.budget.buffered
                            - old(self)@.messages[0].data@.len()) as usize,
                        ..old(self)@.budget
                    },
                    ..old(self)@
                })
            } else {
                &&& final(self)@ == old(self)@
                &&& if !old(self)@.ended {
                    r is Pending
                } else if old(self)@.budget.overflowed {
                    r is Overflowed
                } else {
                    r is Closed
                }
            },
    {
        let ghost was = self@;
        match self.messages.pop_front() {
            Some(message) => {
                proof {
                    lemma_total_first(was.messages);
                }
                self.budget.release(message.data.len());
                assert(self@.messages =~= was.messages.drop_first());
                Taken::Message(message)
            },
            None => if !self.ended {
                Taken::Pending
            } else if self.budget.overflowed() {
                Taken::Overflowed
            } else {
                Taken::Closed
            },
        }
    }

    /// Whether the buffer overflowed.
    pub fn overflowed(&self) -> (r: bool)
        ensures
            r == self@.budget.overflowed,
    {
        self.budget.overflowed()
    }
}

// ----- the pump ------------------------------------------------------------------------

/// What a channel's transport reports.
#[derive(Debug)]
pub enum TransportEvent {
    Open,
    Message(HostMessage),
    Close,
    /// It reports no more.
    End,
    /// Anything else.
    Other,
}

/// What the pump does about it.
#[derive(Debug, Clone, Copy, PartialEq, Eq, Structural)]
pub enum PumpAction {
    /// Signal that the channel is open.
    SignalOpen,
    /// Close the channel: its buffer overflowed.
    CloseChannel,
    /// Nothing more than to go on.
    Continue,
    /// Signal that the transport closed, and stop.
    Stop,
}

/// A channel's pump.
#[derive(Debug)]
pub struct ChannelPump {
    pub incoming: InboundQueue,
    /// Whether the open has been signalled.
    pub opened: bool,
}

impl ChannelPump {
    /// Whether the open has been signalled.
    pub open spec fn has_opened(self) -> bool {
        self.opened
    }

    /// What is buffered.
    pub open spec fn queue(self) -> QueueView {
        self.incoming@
    }

    /// A pump of a channel that has not opened, with nothing buffered, bounded as given.
    pub fn new(max_inbound_buffer_bytes: usize) -> (r: ChannelPump)
        ensures
            !r.has_opened(),
            r.queue().valid(),
            r.queue() == (QueueView {
                messages: Seq::empty(),
                budget: BudgetView {
                    limit: max_inbound_buffer_bytes,
                    buffered: 0,
                    overflowed: false,
                },
                ended: false,
            }),
    {
        ChannelPump { incoming: InboundQueue::new(max_inbound_buffer_bytes), opened: false }
    }

    /// Take what the transport reports. The open is signalled once. A message that does
    /// not fit closes the channel and is discarded, as is every later one; what was
    /// buffered before stays for the readers.
    pub fn event(&mut self, event: TransportEvent) -> (r: PumpAction)
        requires
            old(self).queue().valid(),
        ensures
            final(self).queue().valid(),
            final(self).has_opened() == (old(self).has_opened() || event is Open),
            match event {
                TransportEvent::Open => {
                    &&& r == if old(self).has_opened() {
                        PumpAction::Continue
                    } else {
                        PumpAction::SignalOpen
                    }
                    &&& final(self).queue() == old(self).queue()
                },
                TransportEvent::Message(message) => {
                    &&& r == if old(self).queue().budget.fits(message.data@.len()) {
                        PumpAction::Continue
                    } else {
                        PumpAction::CloseChannel
                    }
                    &&& final(self).queue() == old(self).queue().arrived(message)
                },
                TransportEvent::Close => r == PumpAction::Stop && final(self).queue() == (
                QueueView { ended: true, ..old(self).queue() }),
                TransportEvent::End => r == PumpAction::Stop && final(self).queue() == (
                QueueView { ended: true, ..old(self).queue() }),
                TransportEvent::Other => r == PumpAction::Continue && final(self).queue()
                    == old(self).queue(),
            },
    {
        match event {
            TransportEvent::Open => {
                if self.opened {
                    PumpAction::Continue
                } else {
                    self.opened = true;
                    PumpAction::SignalOpen
                }
            },
            TransportEvent::Message(message) => {
                if self.incoming.arrive(message) {
                    PumpAction::Continue
                } else {
                    PumpAction::CloseChannel
                }
            },
            TransportEvent::Close => {
                self.incoming.end();
                PumpAction::Stop
            },
            TransportEvent::End => {
                self.incoming.end();
                PumpAction::Stop
            },
            TransportEvent::Other => PumpAction::Continue,
        }
    }

    /// Whether a channel whose pump has stopped was ever wired: it was if it opened
    /// first, and otherwise its wiring resolves as closed.
    pub fn wired(&self) -> (r: bool)
        ensures
            r == self.has_opened(),
    {
        self.opened
    }
}

// ----- close signals -------------------------------------------------------------------

/// A close signal: it fires once and stays fired.
#[derive(Debug)]
pub struct CloseSignal {
    flag: bool,
}

impl CloseSignal {
    /// Whether it has fired.
    pub closed spec fn is_fired(self) -> bool {
        self.flag
    }

    /// A signal that has not been raised.
    pub fn new() -> (r: CloseSignal)
        ensures
            !r.is_fired(),
    {
        CloseSignal { flag: false }
    }

    /// Whether the signal has been raised.
    pub fn is_closed(&self) -> (r: bool)
        ensures
            r == self.is_fired(),
    {
        self.flag
    }

    /// Fire: whether waiters have to be woken, which is the first time only.
    pub fn fire(&mut self) -> (r: bool)
        ensures
            final(self).is_fired(),
            r == !old(self).is_fired(),
    {
        let first = !self.flag;
        self.flag = true;
        first
    }
}

/// A channel's lifecycle as the host observes it.
#[derive(Debug, Clone, Copy, PartialEq, Eq, Structural)]
pub enum ChanState {
    Connecting,
    Open,
    Closing,
    Closed,
}

/// The state after another one is set: a closed channel stays closed.
pub open spec fn set_state(state: ChanState, next: ChanState) -> ChanState {
    if state == ChanState::Closed {
        state
    } else {
        next
    }
}

// ----- the lifecycle of a channel ------------------------------------------------------

/// How long a local close may flush, in milliseconds.
pub const CLOSE_FLUSH_BOUND_MS: u64 = 1000;

/// The pause between two looks at what is outstanding, in milliseconds.
pub const FLUSH_PAUSE_MS: u64 = 10;

/// Where a channel's lifecycle stands.
#[derive(Debug, Clone, Copy, PartialEq, Eq, Structural)]
pub enum Feeding {
    /// The channel is not wired yet.
    Wiring,
    /// It is open.
    Open,
    /// A local close flushes: the time is looked at next.
    Flushing { deadline: u64 },
    /// A local close flushes: what is outstanding is looked at next.
    Checking { deadline: u64 },
    /// The transport's close runs.
    Closing,
    /// It is closed.
    Closed,
}

/// What moves a channel's lifecycle.
#[derive(Debug, Clone, Copy, PartialEq, Eq, Structural)]
pub enum FeedEvent {
    /// The wiring resolved, successfully or not.
    Wired(bool),
    /// The transport closed.
    TransportClosed,
    /// The connection closed.
    ConnectionClosed,
    /// The channel was closed locally, at this time.
    LocallyClosed(u64),
    /// The time, in milliseconds.
    Time(u64),
    /// So many bytes are outstanding; none if they could not be counted.
    Outstanding(Option<u64>),
    /// The transport's close has run.
    TransportCloseDone,
}

/// What to do next.
#[derive(Debug, Clone, Copy, PartialEq, Eq, Structural)]
pub enum FeedAction {
    /// Wait for what comes first: the wiring, the connection's close, a local close.
    AwaitWiring,
    /// Wait for what comes first: the transport's close, the connection's close, a local
    /// close.
    AwaitClose,
    /// Look at the time, after a pause of some milliseconds.
    LookAtTime { pause_ms: u64 },
    /// Look at what is outstanding.
    LookAtOutstanding,
    /// Close the transport.
    CloseTransport,
    /// Nothing more.
    Stop,
}

/// What follows an event, and the state to report, if any. A local close waits for what
/// was sent to reach the wire, no longer than the deadline, before it closes the
/// transport; `closed` is reported only past that.
pub open spec fn fed(feeding: Feeding, event: FeedEvent) -> (
    Feeding,
    FeedAction,
    Option<ChanState>,
) {
    match (feeding, event) {
        (Feeding::Wiring, FeedEvent::Wired(true)) => (
            Feeding::Open,
            FeedAction::AwaitClose,
            Some(ChanState::Open),
        ),
        (Feeding::Wiring, FeedEvent::Wired(false)) => ended(),
        (Feeding::Wiring, FeedEvent::ConnectionClosed) => ended(),
        (Feeding::Wiring, FeedEvent::LocallyClosed(_)) => ended(),
        (Feeding::Open, FeedEvent::TransportClosed) => ended(),
        (Feeding::Open, FeedEvent::ConnectionClosed) => ended(),
        (Feeding::Open, FeedEvent::LocallyClosed(now)) => (
            Feeding::Flushing { deadline: flush_deadline(now) },
            FeedAction::LookAtTime { pause_ms: 0 },
            None,
        ),
        (Feeding::Flushing { deadline }, FeedEvent::Time(now)) => if now < deadline {
            (Feeding::Checking { deadline }, FeedAction::LookAtOutstanding, None)
        } else {
            (Feeding::Closing, FeedAction::CloseTransport, None)
        },
        (Feeding::Checking { deadline }, FeedEvent::Outstanding(Some(bytes))) => if bytes == 0 {
            (Feeding::Closing, FeedAction::CloseTransport, None)
        } else {
            (
                Feeding::Flushing { deadline },
                FeedAction::LookAtTime { pause_ms: FLUSH_PAUSE_MS },
                None,
            )
        },
        (Feeding::Checking { .. }, FeedEvent::Outstanding(None)) => (
            Feeding::Closing,
            FeedAction::CloseTransport,
            None,
        ),
        (Feeding::Closing, FeedEvent::TransportCloseDone) => ended(),
        (feeding, _) => (feeding, pending(feeding), None),
    }
}

/// The channel is closed.
pub open spec fn ended() -> (Feeding, FeedAction, Option<ChanState>) {
    (Feeding::Closed, FeedAction::Stop, Some(ChanState::Closed))
}

/// When a close that begins now stops flushing.
pub open spec fn flush_deadline(now: u64) -> u64 {
    if now + CLOSE_FLUSH_BOUND_MS <= u64::MAX {
        (now + CLOSE_FLUSH_BOUND_MS) as u64
    } else {
        u64::MAX
    }
}

/// What is still to be done where an event changes nothing.
pub open spec fn pending(feeding: Feeding) -> FeedAction {
    match feeding {
        Feeding::Wiring => FeedAction::AwaitWiring,
        Feeding::Open => FeedAction::AwaitClose,
        Feeding::Flushing { .. } => FeedAction::LookAtTime { pause_ms: 0 },
        Feeding::Checking { .. } => FeedAction::LookAtOutstanding,
        Feeding::Closing => FeedAction::CloseTransport,
        Feeding::Closed => FeedAction::Stop,
    }
}

impl Feeding {
    /// Take an event: what follows it, what to do next, and the state to report.
    pub fn step(self, event: FeedEvent) -> (r: (Feeding, FeedAction, Option<ChanState>))
        ensures
            r == fed(self, event),
    {
        let over = (Feeding::Closed, FeedAction::Stop, Some(ChanState::Closed));
        match (self, event) {
            (Feeding::Wiring, FeedEvent::Wired(true)) => (
                Feeding::Open,
                FeedAction::AwaitClose,
                Some(ChanState::Open),
            ),
            (Feeding::Wiring, FeedEvent::Wired(false)) => over,
            (Feeding::Wiring, FeedEvent::ConnectionClosed) => over,
            (Feeding::Wiring, FeedEvent::LocallyClosed(_)) => over,
            (Feeding::Open, FeedEvent::TransportClosed) => over,
            (Feeding::Open, FeedEvent::ConnectionClosed) => over,
            (Feeding::Open, FeedEvent::LocallyClosed(now)) => (
                Feeding::Flushing { deadline: now.saturating_add(CLOSE_FLUSH_BOUND_MS) },
                FeedAction::LookAtTime { pause_ms: 0 },
                None,
            ),
            (Feeding::Flushing { deadline }, FeedEvent::Time(now)) => if now < deadline {
                (Feeding::Checking { deadline }, FeedAction::LookAtOutstanding, None)
            } else {
                (Feeding::Closing, FeedAction::CloseTransport, None)
            },
            (Feeding::Checking { deadline }, FeedEvent::Outstanding(Some(bytes))) => if bytes == 0 {
                (Feeding::Closing, FeedAction::CloseTransport, None)
            } else {
                (
                    Feeding::Flushing { deadline },
                    FeedAction::LookAtTime { pause_ms: FLUSH_PAUSE_MS },
                    None,
                )
            },
            (Feeding::Checking { .. }, FeedEvent::Outstanding(None)) => (
                Feeding::Closing,
                FeedAction::CloseTransport,
                None,
            ),
            (Feeding::Closing, FeedEvent::TransportCloseDone) => over,
            (Feeding::Wiring, _) => (self, FeedAction::AwaitWiring, None),
            (Feeding::Open, _) => (self, FeedAction::AwaitClose, None),
            (Feeding::Flushing { .. }, _) => (self, FeedAction::LookAtTime { pause_ms: 0 }, None),
            (Feeding::Checking { .. }, _) => (self, FeedAction::LookAtOutstanding, None),
            (Feeding::Closing, _) => (self, FeedAction::CloseTransport, None),
            (Feeding::Closed, _) => (self, FeedAction::Stop, None),
        }
    }
}

/// The state behind a `data-channel` resource.
#[derive(Debug)]
pub struct DataChannel {
    label: String,
    feeding: Feeding,
    state: ChanState,
    state_taken: bool,
    stream_receiving: bool,
    conn_closed: CloseSignal,
    local_closed: CloseSignal,
}

/// The state behind a `data-channel` resource.
pub struct DataChannelView {
    pub label: Seq<char>,
    pub feeding: Feeding,
    /// The lifecycle, as it is reported.
    pub state: ChanState,
    pub state_taken: bool,
    /// Whether the inbound messages were claimed as a stream.
    pub stream_receiving: bool,
    pub conn_closed: bool,
    pub local_closed: bool,
}

impl View for DataChannel {
    type V = DataChannelView;

    closed spec fn view(&self) -> DataChannelView {
        DataChannelView {
            label: self.label@,
            feeding: self.feeding,
            state: self.state,
            state_taken: self.state_taken,
            stream_receiving: self.stream_receiving,
            conn_closed: self.conn_closed.is_fired(),
            local_closed: self.local_closed.is_fired(),
        }
    }
}

impl DataChannelView {
    /// The channel after its lifecycle has moved.
    pub open spec fn moved(self, event: FeedEvent) -> DataChannelView {
        let (feeding, _, state) = fed(self.feeding, event);
        DataChannelView {
            feeding,
            state: match state {
                Some(next) => set_state(self.state, next),
                None => self.state,
            },
            ..self
        }
    }
}

impl DataChannel {
    /// A channel whose transport is wired later.
    pub fn deferred(label: String) -> (r: DataChannel)
        ensures
            r@ == (DataChannelView {
                label: label@,
                feeding: Feeding::Wiring,
                state: ChanState::Connecting,
                state_taken: false,
                stream_receiving: false,
                conn_closed: false,
                local_closed: false,
            }),
    {
        DataChannel {
            label,
            feeding: Feeding::Wiring,
            state: ChanState::Connecting,
            state_taken: false,
            stream_receiving: false,
            conn_closed: CloseSignal::new(),
            local_closed: CloseSignal::new(),
        }
    }

    /// Move the channel's lifecycle: what to do next.
    pub fn feed(&mut self, event: FeedEvent) -> (r: FeedAction)
        ensures
            final(self)@ == old(self)@.moved(event),
            r == fed(old(self)@.feeding, event).1,
    {
        let (feeding, action, state) = self.feeding.step(event);
        self.feeding = feeding;
        match state {
            Some(next) => {
                if self.state != ChanState::Closed {
                    self.state = next;
                }
            },
            None => {},
        }
        action
    }

    /// Close the channel: whether the close has to be signalled, which is the first time
    /// only. Operations fail at once, and the state reads `closing` until the close has
    /// flushed. Dropping the resource closes in the same way.
    pub fn close(&mut self) -> (r: bool)
        ensures
            r == !old(self)@.local_closed,
            final(self)@ == if old(self)@.local_closed {
                old(self)@
            } else {
                DataChannelView {
                    state: set_state(old(self)@.state, ChanState::Closing),
                    local_closed: true,
                    ..old(self)@
                }
            },
    {
        if self.local_closed.is_closed() {
            return false;
        }
        if self.state != ChanState::Closed {
            self.state = ChanState::Closing;
        }
        self.local_closed.fire()
    }

    /// The owning connection closed: whether waiters have to be woken.
    pub fn connection_closed(&mut self) -> (r: bool)
        ensures
            r == !old(self)@.conn_closed,
            final(self)@ == (DataChannelView { conn_closed: true, ..old(self)@ }),
    {
        self.conn_closed.fire()
    }

    /// Whether operations fail as closed at once, with the unread backlog discarded: the
    /// channel was closed locally, or its connection was. A close of the transport is
    /// none of these; its backlog stays deliverable.
    pub fn is_locally_closed(&self) -> (r: bool)
        ensures
            r == (self@.local_closed || self@.conn_closed),
    {
        self.local_closed.is_closed() || self.conn_closed.is_closed()
    }

    /// The lifecycle, as it is reported.
    pub fn state(&self) -> (r: ChanState)
        ensures
            r == self@.state,
    {
        self.state
    }

    /// Take the state stream: whether this is the first call.
    pub fn take_state_stream(&mut self) -> (r: bool)
        ensures
            r == !old(self)@.state_taken,
            final(self)@ == (DataChannelView { state_taken: true, ..old(self)@ }),
    {
        let first = !self.state_taken;
        self.state_taken = true;
        first
    }

    /// The channel's label.
    pub fn label(&self) -> (r: String)
        ensures
            r@ == self@.label,
    {
        self.label.clone()
    }

    /// Claim the inbound messages as a stream: whether this is the first claim. On the
    /// first one, pending receives are woken, and fail.
    pub fn begin_stream_receiving(&mut self) -> (r: bool)
        ensures
            r == !old(self)@.stream_receiving,
            final(self)@ == (DataChannelView { stream_receiving: true, ..old(self)@ }),
    {
        let first = !self.stream_receiving;
        self.stream_receiving = true;
        first
    }

    /// Whether the inbound messages were claimed.
    pub fn is_stream_receiving(&self) -> (r: bool)
        ensures
            r == self@.stream_receiving,
    {
        self.stream_receiving
    }
}

// ----- the channels of a connection -----------------------------------------------------

/// A connection's channels, and its close.
#[derive(Debug)]
pub struct Connection {
    pub channels: Vec<DataChannel>,
    pub closed: CloseSignal,
}

impl Connection {
    /// Every channel has observed the connection's close exactly if it has fired.
    pub open spec fn wf(self) -> bool {
        forall|i: int|
            0 <= i < self.channels@.len() ==> (#[trigger] self.channels@[i])@.conn_closed
                == self.closed.is_fired()
    }

    /// A connection without channels.
    pub fn new() -> (r: Connection)
        ensures
            r.wf(),
            r.channels@.len() == 0,
            !r.closed.is_fired(),
    {
        Connection { channels: Vec::new(), closed: CloseSignal::new() }
    }

    /// Add a channel whose transport is wired later, and where it stands. It shares the
    /// connection's close, also one that came before.
    pub fn add_channel(&mut self, label: String) -> (r: usize)
        requires
            old(self).wf(),
        ensures
            final(self).wf(),
            r == old(self).channels@.len(),
            final(self).closed == old(self).closed,
            final(self).channels@.len() == old(self).channels@.len() + 1,
            final(self).channels@.drop_last() == old(self).channels@,
            final(self).channels@.last()@ == (DataChannelView {
                label: label@,
                feeding: Feeding::Wiring,
                state: ChanState::Connecting,
                state_taken: false,
                stream_receiving: false,
                conn_closed: old(self).closed.is_fired(),
                local_closed: false,
            }),
    {
        let at = self.channels.len();
        let mut channel = DataChannel::deferred(label);
        if self.closed.is_closed() {
            channel.connection_closed();
        }
        self.channels.push(channel);
        assert(self.channels@.drop_last() =~= old(self).channels@);
        at
    }

    /// Close the connection: whether waiters have to be woken, which is the first time only.
    /// The close reaches every channel: its operations fail as closed from then on.
    pub fn close(&mut self) -> (r: bool)
        requires
            old(self).wf(),
        ensures
            final(self).wf(),
            r == !old(self).closed.is_fired(),
            final(self).closed.is_fired(),
            final(self).channels@.len() == old(self).channels@.len(),
            forall|i: int|
                0 <= i < final(self).channels@.len() ==> (#[trigger] final(self).channels@[i])@ == (
                DataChannelView { conn_closed: true, ..old(self).channels@[i]@ }),
    {
        let first = self.closed.fire();
        let mut i: usize = 0;
        while i < self.channels.len()
            invariant
                i <= self.channels@.len(),
                self.closed.is_fired(),
                self.channels@.len() == old(self).channels@.len(),
                forall|k: int|
                    0 <= k < i ==> (#[trigger] self.channels@[k])@ == (DataChannelView {
                        conn_closed: true,
                        ..old(self).channels@[k]@
                    }),
                forall|k: int|
                    i <= k < self.channels@.len() ==> #[trigger] self.channels@[k] == old(
                        self,
                    ).channels@[k],
            decreases self.channels@.len() - i,
        {
            self.channels[i].connection_closed();
            i += 1;
        }
        first
    }
}

// ----- laws ----------------------------------------------------------------------------

/// The queue after some messages arrived.
pub open spec fn arrived_all(queue: QueueView, messages: Seq<HostMessage>) -> QueueView
    decreases messages.len(),
{
    if messages.len() == 0 {
        queue
    } else {
        arrived_all(queue, messages.drop_last()).arrived(messages.last())
    }
}

/// However many messages arrive, no more bytes are buffered than the bound allows, and
/// what was buffered before stays in front, in order: an overflow never displaces the
/// backlog.
pub proof fn buffer_is_bounded(queue: QueueView, messages: Seq<HostMessage>)
    requires
        queue.valid(),
    ensures
        arrived_all(queue, messages).valid(),
        arrived_all(queue, messages).budget.limit == queue.budget.limit,
        total(arrived_all(queue, messages).messages) <= queue.budget.limit,
        queue.messages.is_prefix_of(arrived_all(queue, messages).messages),
    decreases messages.len(),
{
    if messages.len() > 0 {
        let before = arrived_all(queue, messages.drop_last());
        let message = messages.last();
        buffer_is_bounded(queue, messages.drop_last());
        if before.budget.fits(message.data@.len()) {
            assert(before.messages.push(message).drop_last() =~= before.messages);
        }
    }
}

/// An overflow is latched: past it, whatever arrives is discarded and the overflow stays.
pub proof fn overflow_is_latched(queue: QueueView, messages: Seq<HostMessage>)
    requires
        queue.budget.overflowed,
    ensures
        arrived_all(queue, messages) == queue,
    decreases messages.len(),
{
    if messages.len() > 0 {
        overflow_is_latched(queue, messages.drop_last());
    }
}

proof fn lemma_flooded(queue: QueueView, messages: Seq<HostMessage>)
    requires
        queue.valid(),
        !queue.budget.overflowed,
    ensures
        arrived_all(queue, messages).budget.limit == queue.budget.limit,
        !arrived_all(queue, messages).budget.overflowed ==> arrived_all(
            queue,
            messages,
        ).budget.buffered == total(queue.messages) + total(messages),
    decreases messages.len(),
{
    if messages.len() > 0 {
        lemma_flooded(queue, messages.drop_last());
    }
}

/// What arrives unread overflows the buffer exactly if it exceeds the bound together with
/// what was buffered before; short of that, all of it is buffered, in order.
pub proof fn flood_overflows_past_the_bound(queue: QueueView, messages: Seq<HostMessage>)
    requires
        queue.valid(),
        !queue.budget.overflowed,
    ensures
        arrived_all(queue, messages).budget.overflowed <==> total(queue.messages) + total(messages)
            > queue.budget.limit,
        !arrived_all(queue, messages).budget.overflowed ==> arrived_all(queue, messages).messages
            == queue.messages + messages,
    decreases messages.len(),
{
    if messages.len() == 0 {
        assert(queue.messages + messages =~= queue.messages);
    } else {
        let before = arrived_all(queue, messages.drop_last());
        flood_overflows_past_the_bound(queue, messages.drop_last());
        lemma_flooded(queue, messages.drop_last());
        if !before.budget.overflowed {
            assert((queue.messages + messages.drop_last()).push(messages.last())
                =~= queue.messages + messages);
        }
    }
}

/// A flushing close closes the transport only once nothing is outstanding, or that can
/// no longer be told, or the deadline has passed; and `closed` is not reported before
/// the transport has closed.
pub proof fn close_waits_for_the_flush(deadline: u64, event: FeedEvent)
    ensures
        fed(Feeding::Flushing { deadline }, event).0 is Closing <==> (event matches FeedEvent::Time(
            now,
        ) && now >= deadline),
        fed(Feeding::Checking { deadline }, event).0 is Closing <==> (event
            matches FeedEvent::Outstanding(bytes) && (bytes is None || bytes == Some(0u64))),
        fed(Feeding::Flushing { deadline }, event).2 is None,
        fed(Feeding::Checking { deadline }, event).2 is None,
        fed(Feeding::Closing, event).2 is Some <==> event is TransportCloseDone,
{
}

/// A peer that never acknowledges cannot hold a close open: at the deadline the
/// transport is closed, whatever is outstanding.
pub proof fn flush_is_bounded(deadline: u64, now: u64, outstanding: u64)
    requires
        now >= deadline,
    ensures
        ({
            let (next, _, _) = fed(
                Feeding::Checking { deadline },
                FeedEvent::Outstanding(Some(outstanding)),
            );
            next is Closing || fed(next, FeedEvent::Time(now)) == (
                Feeding::Closing,
                FeedAction::CloseTransport,
                None::<ChanState>,
            )
        }),
{
}

/// A closed channel stays closed, whatever happens to it: its lifecycle has ended, and no
/// state is reported past `closed`.
pub proof fn closed_is_terminal(channel: DataChannelView, event: FeedEvent)
    ensures
        channel.feeding is Closed ==> channel.moved(event) == channel,
        channel.state is Closed ==> channel.moved(event).state is Closed,
{
}

/// A channel is reported open exactly when its wiring resolves, and closed exactly when it can
/// no longer open, when the other side or the connection closes it, or when its own close has
/// run to its end. Nothing else is reported.
pub proof fn lifecycle_is_reported_exactly(feeding: Feeding, event: FeedEvent)
    ensures
        ({
            let reported = fed(feeding, event).2;
            &&& reported == Some(ChanState::Open) <==> feeding is Wiring && event
                == FeedEvent::Wired(true)
            &&& reported == Some(ChanState::Closed) <==> {
                ||| feeding is Wiring && (event == FeedEvent::Wired(false) || event
                    is ConnectionClosed || event is LocallyClosed)
                ||| feeding is Open && (event is TransportClosed || event is ConnectionClosed)
                ||| feeding is Closing && event is TransportCloseDone
            }
            &&& reported != Some(ChanState::Connecting)
            &&& reported != Some(ChanState::Closing)
            &&& reported == Some(ChanState::Open) ==> fed(feeding, event).0 is Open
            &&& reported == Some(ChanState::Closed) ==> fed(feeding, event).0 is Closed
        }),
{
}

/// What is to be done next is what the lifecycle has come to, and an event that does not bear
/// on it leaves it where it stands.
pub proof fn lifecycle_asks_for_what_is_next(feeding: Feeding, event: FeedEvent)
    ensures
        ({
            let (next, action, reported) = fed(feeding, event);
            &&& match next {
                Feeding::Wiring => action is AwaitWiring,
                Feeding::Open => action is AwaitClose,
                Feeding::Flushing { .. } => action is LookAtTime,
                Feeding::Checking { .. } => action is LookAtOutstanding,
                Feeding::Closing => action is CloseTransport,
                Feeding::Closed => action is Stop,
            }
            &&& next == feeding && !(feeding is Closed) ==> reported is None
            &&& next is Wiring ==> feeding is Wiring
            &&& next is Open && !(feeding is Open) ==> feeding is Wiring
            &&& next is Closing && !(feeding is Closing) ==> feeding is Flushing || feeding
                is Checking
        }),
{
}

/// A local close of an open channel flushes: it looks at the time and at what is outstanding in
/// turn, against one deadline a second away, and pauses between two looks.
pub proof fn flush_keeps_its_deadline(now: u64, deadline: u64, outstanding: u64)
    ensures
        fed(Feeding::Open, FeedEvent::LocallyClosed(now)).0 matches Feeding::Flushing {
            deadline: until,
        } && until == if now + 1000 <= u64::MAX {
            now + 1000
        } else {
            u64::MAX as int
        },
        now < deadline ==> fed(Feeding::Flushing { deadline }, FeedEvent::Time(now)).0 == (
        Feeding::Checking { deadline }),
        outstanding > 0 ==> fed(
            Feeding::Checking { deadline },
            FeedEvent::Outstanding(Some(outstanding)),
        ) == (
            Feeding::Flushing { deadline },
            FeedAction::LookAtTime { pause_ms: 10 },
            None::<ChanState>,
        ),
{
}

/// A message is buffered exactly if nothing has overflowed yet and it fits the bound together
/// with what is buffered; one that is not is an overflow, and changes nothing else.
pub proof fn arrival_is_exact(queue: QueueView, message: HostMessage)
    requires
        queue.valid(),
    ensures
        ({
            let next = queue.arrived(message);
            let taken = !queue.budget.overflowed && total(queue.messages) + message.data@.len()
                <= queue.budget.limit;
            &&& next.messages == if taken {
                queue.messages.push(message)
            } else {
                queue.messages
            }
            &&& next.budget.overflowed == !taken
            &&& next.budget.limit == queue.budget.limit
            &&& next.ended == queue.ended
            &&& next.valid()
        }),
{
    if queue.budget.fits(message.data@.len()) {
        assert(queue.messages.push(message).drop_last() =~= queue.messages);
    }
}

/// What a channel reports follows its lifecycle, and nothing else of it changes with it: it
/// reads what was reported last, unless it already reads closed.
pub proof fn channel_reads_what_was_reported(channel: DataChannelView, event: FeedEvent)
    ensures
        ({
            let next = channel.moved(event);
            &&& next.feeding == fed(channel.feeding, event).0
            &&& next.label == channel.label
            &&& next.state_taken == channel.state_taken
            &&& next.stream_receiving == channel.stream_receiving
            &&& next.conn_closed == channel.conn_closed
            &&& next.local_closed == channel.local_closed
            &&& fed(channel.feeding, event).2 is None ==> next.state == channel.state
            &&& !(channel.state is Closed) ==> (fed(channel.feeding, event).2 matches Some(state)
                ==> next.state == state)
            &&& channel.state is Closed ==> next.state is Closed
        }),
{
}

/// The queue after a reader took some times in a row.
pub open spec fn after_takes(queue: QueueView, n: nat) -> QueueView
    decreases n,
{
    if n == 0 {
        queue
    } else {
        after_takes(after_take(queue).0, (n - 1) as nat)
    }
}

/// A reader gets what is buffered in the order in which it came, also if the pump has stopped or
/// the buffer overflowed since; only then does it learn of that, of an overflow rather than of a
/// close. What it took makes room again.
pub proof fn backlog_is_taken_first(queue: QueueView, n: nat)
    requires
        queue.valid(),
        n <= queue.messages.len(),
    ensures
        after_take(after_takes(queue, n)).1 == if n < queue.messages.len() {
            Taken::Message(queue.messages[n as int])
        } else if !queue.ended {
            Taken::Pending
        } else if queue.budget.overflowed {
            Taken::Overflowed
        } else {
            Taken::Closed
        },
        after_takes(queue, n).messages == queue.messages.skip(n as int),
        after_takes(queue, n).valid(),
        after_takes(queue, n).budget.limit == queue.budget.limit,
        after_takes(queue, n).budget.overflowed == queue.budget.overflowed,
    decreases n,
{
    if n == 0 {
        assert(queue.messages.skip(0) =~= queue.messages);
    } else {
        lemma_total_first(queue.messages);
        let next = after_take(queue).0;
        backlog_is_taken_first(next, (n - 1) as nat);
        assert(next.messages.skip(n - 1) =~= queue.messages.skip(n as int));
    }
}

} // verus!
