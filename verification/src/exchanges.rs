//! The rules of a venue's feed connector: what it does on each thing that
//! happens to its connection, and how long it waits before it connects again.
//!
//! The connector itself owns a socket and timers, which live outside this
//! library. It reports each event here and carries out the step it gets back.

use crate::decimal::Decimal;
use crate::orderbook::{Exchange, OrderBookUpdate, OrderBookUpdateView, OrderLevel};
use vstd::prelude::*;
use vstd::string::*;

verus! {

/// Seconds between two heartbeats on a live connection.
pub const HEARTBEAT_INTERVAL_SECS: u64 = 15;

/// Seconds of waiting added for each failure in a row.
pub const BACKOFF_STEP_SECS: u64 = 5;

/// Failures in a row after which the wait no longer grows.
pub const BACKOFF_MAX_STEPS: u32 = 5;

/// The part of the wait that grows with the failures in a row: five seconds
/// for each, up to twenty-five.
pub open spec fn backoff_base(attempt: u32) -> int {
    if attempt < BACKOFF_MAX_STEPS {
        attempt * BACKOFF_STEP_SECS
    } else {
        BACKOFF_MAX_STEPS * BACKOFF_STEP_SECS
    }
}

/// The wait after `attempt` failures in a row, with a jitter of up to four
/// seconds taken from `random`.
pub open spec fn backoff_seconds(attempt: u32, random: u64) -> int {
    backoff_base(attempt) + random % BACKOFF_STEP_SECS
}

/// One more failure, up to the largest count that can be held.
pub open spec fn next_attempt(attempt: u32) -> u32 {
    if attempt < u32::MAX {
        (attempt + 1) as u32
    } else {
        attempt
    }
}

/// The wait before the next connection attempt, in seconds.
pub fn backoff_delay(attempt: u32, random: u64) -> (seconds: u64)
    ensures
        seconds == backoff_seconds(attempt, random),
        backoff_base(attempt) <= seconds < backoff_base(attempt) + BACKOFF_STEP_SECS,
{
    let steps: u64 = if attempt < BACKOFF_MAX_STEPS {
        attempt as u64
    } else {
        BACKOFF_MAX_STEPS as u64
    };
    steps * BACKOFF_STEP_SECS + random % BACKOFF_STEP_SECS
}

/// The growing part of the wait never shrinks as failures add up, and stays
/// at twenty-five seconds from the fifth failure on.
pub proof fn lemma_backoff_base_rises(earlier: u32, later: u32)
    requires
        earlier <= later,
    ensures
        backoff_base(earlier) <= backoff_base(later),
        later >= BACKOFF_MAX_STEPS ==> backoff_base(later) == 25,
        backoff_base(later) <= 25,
{
}

/// Where a venue's public feed is served.
pub open spec fn endpoint_of(exchange: Exchange) -> Seq<char> {
    match exchange {
        Exchange::Okex => "wss://ws.okx.com:8443/ws/v5/public"@,
        Exchange::Deribit => "wss://www.deribit.com/ws/api/v2"@,
    }
}

/// Where a venue's public feed is served.
pub fn endpoint(exchange: Exchange) -> (r: &'static str)
    ensures
        r@ == endpoint_of(exchange),
{
    match exchange {
        Exchange::Okex => "wss://ws.okx.com:8443/ws/v5/public",
        Exchange::Deribit => "wss://www.deribit.com/ws/api/v2",
    }
}

/// The second venue's channel for a symbol's book: ungrouped, twenty levels
/// deep, sent every 100 ms.
pub fn book_channel(symbol: &str) -> (r: String)
    ensures
        r@ == "book."@ + symbol@ + ".none.20.100ms"@,
{
    let mut channel = String::from_str("book.");
    channel.append(symbol);
    channel.append(".none.20.100ms");
    channel
}

/// The level that an entry of the first venue's lists gives: its first two
/// fields are price and quantity; an entry with fewer fields, or with one of
/// the two unreadable, gives none.
pub open spec fn okex_level(entry: Seq<Option<Decimal>>) -> Option<OrderLevel> {
    if entry.len() >= 2 && entry[0] is Some && entry[1] is Some {
        Some(OrderLevel { price: entry[0]->0, quantity: entry[1]->0 })
    } else {
        None
    }
}

/// The levels of the first venue's list, in order, without the entries that
/// give none.
pub open spec fn okex_levels(entries: Seq<Vec<Option<Decimal>>>) -> Seq<OrderLevel>
    decreases entries.len(),
{
    if entries.len() == 0 {
        Seq::empty()
    } else {
        match okex_level(entries.last()@) {
            Some(level) => okex_levels(entries.drop_last()).push(level),
            None => okex_levels(entries.drop_last()),
        }
    }
}

/// The level that a pair of the second venue's lists gives, if both numbers
/// are readable.
pub open spec fn deribit_level(pair: (Option<Decimal>, Option<Decimal>)) -> Option<OrderLevel> {
    if pair.0 is Some && pair.1 is Some {
        Some(OrderLevel { price: pair.0->0, quantity: pair.1->0 })
    } else {
        None
    }
}

/// The levels of the second venue's list, in order, without the pairs that
/// give none.
pub open spec fn deribit_levels(pairs: Seq<(Option<Decimal>, Option<Decimal>)>) -> Seq<
    OrderLevel,
>
    decreases pairs.len(),
{
    if pairs.len() == 0 {
        Seq::empty()
    } else {
        match deribit_level(pairs.last()) {
            Some(level) => deribit_levels(pairs.drop_last()).push(level),
            None => deribit_levels(pairs.drop_last()),
        }
    }
}

/// Turns one list of a frame of the first venue into levels. A field is `None`
/// where its text was no number.
pub fn parse_okex_levels(levels: Vec<Vec<Option<Decimal>>>) -> (r: Vec<OrderLevel>)
    ensures
        r@ == okex_levels(levels@),
{
    let mut out: Vec<OrderLevel> = Vec::new();
    let mut k: usize = 0;
    while k < levels.len()
        invariant
            k <= levels.len(),
            out@ == okex_levels(levels@.take(k as int)),
        decreases levels.len() - k,
    {
        proof {
            assert(levels@.take(k + 1).drop_last() =~= levels@.take(k as int));
        }
        let entry = &levels[k];
        if entry.len() >= 2 {
            match (entry[0], entry[1]) {
                (Some(price), Some(quantity)) => {
                    out.push(OrderLevel { price, quantity });
                },
                _ => {},
            }
        }
        k += 1;
    }
    proof {
        assert(levels@.take(levels.len() as int) =~= levels@);
    }
    out
}

/// Turns one list of a frame of the second venue into levels. A number is
/// `None` where no decimal can hold it.
pub fn parse_deribit_levels(levels: Vec<(Option<Decimal>, Option<Decimal>)>) -> (r: Vec<
    OrderLevel,
>)
    ensures
        r@ == deribit_levels(levels@),
{
    let mut out: Vec<OrderLevel> = Vec::new();
    let mut k: usize = 0;
    while k < levels.len()
        invariant
            k <= levels.len(),
            out@ == deribit_levels(levels@.take(k as int)),
        decreases levels.len() - k,
    {
        proof {
            assert(levels@.take(k + 1).drop_last() =~= levels@.take(k as int));
        }
        match levels[k] {
            (Some(price), Some(quantity)) => {
                out.push(OrderLevel { price, quantity });
            },
            _ => {},
        }
        k += 1;
    }
    proof {
        assert(levels@.take(levels.len() as int) =~= levels@);
    }
    out
}

/// `rand::random::<u64>`: any number may come back.
#[verifier::external_body]
fn random_u64() -> u64 {
    rand::random::<u64>()
}

/// Where a connector stands.
#[derive(Debug, Clone, Copy, PartialEq, Eq, Structural)]
pub enum ConnectorPhase {
    /// About to open the connection, or opening it.
    Connecting,
    /// Connected; the subscribe request is on its way.
    Subscribing,
    /// Subscribed: frames come in and heartbeats go out.
    Streaming,
    /// Disconnected, and waiting this many seconds before connecting again.
    Waiting { seconds: u64 },
}

/// What the connector is to do next.
#[derive(Debug, Clone, Copy, PartialEq, Eq, Structural)]
pub enum ConnectorAction {
    /// Open the connection.
    Connect,
    /// Send the venue's subscribe request.
    Subscribe,
    /// Go on reading frames, with the heartbeat timer running.
    Stream,
    /// Send one heartbeat, whether or not it arrives, and go on reading.
    Heartbeat,
    /// Sleep, then report that the wait is over.
    Wait { seconds: u64 },
}

/// What happened to the connection.
#[derive(Debug)]
pub enum ConnectorEvent {
    /// The connection is open.
    Connected,
    /// The connection could not be opened.
    ConnectFailed { detail: String },
    /// The subscribe request was sent.
    SubscribeSent,
    /// The subscribe request could not be sent.
    SubscribeFailed,
    /// A data frame was decoded. `wire_entries` counts the entries of its two
    /// lists as the venue sent them, before any was left out as unreadable.
    Frame { bids: Vec<OrderLevel>, asks: Vec<OrderLevel>, wire_entries: usize },
    /// A frame came that is no data frame, or could not be decoded.
    Unreadable,
    /// The venue closed the connection, perhaps with a reason.
    Closed { reason: Option<String> },
    /// Reading failed.
    ReadFailed { detail: String },
    /// The stream ended without a word.
    StreamEnded,
    /// The heartbeat timer fired.
    HeartbeatDue,
    /// The wait before reconnecting is over.
    WaitOver,
}

/// A [`ConnectorEvent`] with its text and levels as sequences.
pub enum ConnectorEventView {
    Connected,
    ConnectFailed { detail: Seq<char> },
    SubscribeSent,
    SubscribeFailed,
    Frame { bids: Seq<OrderLevel>, asks: Seq<OrderLevel>, wire_entries: usize },
    Unreadable,
    Closed { reason: Option<Seq<char>> },
    ReadFailed { detail: Seq<char> },
    StreamEnded,
    HeartbeatDue,
    WaitOver,
}

impl View for ConnectorEvent {
    type V = ConnectorEventView;

    open spec fn view(&self) -> ConnectorEventView {
        match self {
            ConnectorEvent::Connected => ConnectorEventView::Connected,
            ConnectorEvent::ConnectFailed { detail } => ConnectorEventView::ConnectFailed {
                detail: detail@,
            },
            ConnectorEvent::SubscribeSent => ConnectorEventView::SubscribeSent,
            ConnectorEvent::SubscribeFailed => ConnectorEventView::SubscribeFailed,
            ConnectorEvent::Frame { bids, asks, wire_entries } => ConnectorEventView::Frame {
                bids: bids@,
                asks: asks@,
                wire_entries: *wire_entries,
            },
            ConnectorEvent::Unreadable => ConnectorEventView::Unreadable,
            ConnectorEvent::Closed { reason } => ConnectorEventView::Closed {
                reason: text_of(*reason),
            },
            ConnectorEvent::ReadFailed { detail } => ConnectorEventView::ReadFailed {
                detail: detail@,
            },
            ConnectorEvent::StreamEnded => ConnectorEventView::StreamEnded,
            ConnectorEvent::HeartbeatDue => ConnectorEventView::HeartbeatDue,
            ConnectorEvent::WaitOver => ConnectorEventView::WaitOver,
        }
    }
}

/// The connector of one venue for one symbol.
#[derive(Debug)]
pub struct Connector {
    pub exchange: Exchange,
    pub symbol: String,
    /// Failures since the connection was last opened.
    pub attempt: u32,
    pub phase: ConnectorPhase,
}

/// A [`Connector`] with its symbol as a sequence of characters.
pub struct ConnectorView {
    pub exchange: Exchange,
    pub symbol: Seq<char>,
    pub attempt: u32,
    pub phase: ConnectorPhase,
}

impl View for Connector {
    type V = ConnectorView;

    open spec fn view(&self) -> ConnectorView {
        ConnectorView {
            exchange: self.exchange,
            symbol: self.symbol@,
            attempt: self.attempt,
            phase: self.phase,
        }
    }
}

/// What one event leads to: updates for the coordinator, in this order, and
/// the connector's next action.
#[derive(Debug)]
pub struct Step {
    pub emit: Vec<OrderBookUpdate>,
    pub next: ConnectorAction,
}

/// A [`Step`] with its updates as a sequence of views.
pub struct StepView {
    pub emit: Seq<OrderBookUpdateView>,
    pub next: ConnectorAction,
}

impl View for Step {
    type V = StepView;

    open spec fn view(&self) -> StepView {
        StepView { emit: self.emit@.map_values(|u: OrderBookUpdate| u@), next: self.next }
    }
}

/// The text, if there is one, as a sequence of characters.
pub open spec fn text_of(text: Option<String>) -> Option<Seq<char>> {
    match text {
        Some(text) => Some(text@),
        None => None,
    }
}

/// The action that resumes a phase.
pub open spec fn resume(phase: ConnectorPhase) -> ConnectorAction {
    match phase {
        ConnectorPhase::Connecting => ConnectorAction::Connect,
        ConnectorPhase::Subscribing => ConnectorAction::Subscribe,
        ConnectorPhase::Streaming => ConnectorAction::Stream,
        ConnectorPhase::Waiting { seconds } => ConnectorAction::Wait { seconds },
    }
}

/// The connection is lost or was not made: one more failure is counted and
/// the connector waits, after it has told the coordinator why, if it knows.
pub open spec fn lost(
    before: ConnectorView,
    error: Option<Seq<char>>,
    random: u64,
) -> (ConnectorView, StepView) {
    let attempt = next_attempt(before.attempt);
    let seconds = backoff_seconds(attempt, random) as u64;
    (
        ConnectorView { attempt, phase: ConnectorPhase::Waiting { seconds }, ..before },
        StepView {
            emit: match error {
                Some(text) => seq![
                    OrderBookUpdateView::ConnectionError { exchange: before.exchange, error: text },
                ],
                None => Seq::empty(),
            },
            next: ConnectorAction::Wait { seconds },
        },
    )
}

/// Nothing changes; the connector goes on with what it was doing.
pub open spec fn unchanged(before: ConnectorView) -> (ConnectorView, StepView) {
    (before, StepView { emit: Seq::empty(), next: resume(before.phase) })
}

/// The updates that a data frame gives: its bids, then its asks. The first
/// venue's frames with no entry at all give nothing.
pub open spec fn frame_updates(
    exchange: Exchange,
    symbol: Seq<char>,
    bids: Seq<OrderLevel>,
    asks: Seq<OrderLevel>,
    wire_entries: usize,
) -> Seq<OrderBookUpdateView> {
    if exchange == Exchange::Okex && wire_entries == 0 {
        Seq::empty()
    } else {
        seq![
            OrderBookUpdateView::Bids { exchange, symbol, levels: bids },
            OrderBookUpdateView::Asks { exchange, symbol, levels: asks },
        ]
    }
}

/// The connector's rules: the state after the event, and the step to take.
/// An event that cannot happen in the phase changes nothing.
pub open spec fn transition(
    before: ConnectorView,
    event: ConnectorEventView,
    random: u64,
) -> (ConnectorView, StepView) {
    match (before.phase, event) {
        (ConnectorPhase::Connecting, ConnectorEventView::Connected) => (
            ConnectorView { attempt: 0, phase: ConnectorPhase::Subscribing, ..before },
            StepView { emit: Seq::empty(), next: ConnectorAction::Subscribe },
        ),
        (ConnectorPhase::Connecting, ConnectorEventView::ConnectFailed { detail }) => lost(
            before,
            Some("Failed to connect: "@ + detail),
            random,
        ),
        (ConnectorPhase::Subscribing, ConnectorEventView::SubscribeSent) => (
            ConnectorView { phase: ConnectorPhase::Streaming, ..before },
            StepView { emit: Seq::empty(), next: ConnectorAction::Stream },
        ),
        (ConnectorPhase::Subscribing, ConnectorEventView::SubscribeFailed) => (
            ConnectorView { phase: ConnectorPhase::Connecting, ..before },
            StepView { emit: Seq::empty(), next: ConnectorAction::Connect },
        ),
        (ConnectorPhase::Streaming, ConnectorEventView::Frame { bids, asks, wire_entries }) => (
            before,
            StepView {
                emit: frame_updates(before.exchange, before.symbol, bids, asks, wire_entries),
                next: ConnectorAction::Stream,
            },
        ),
        (ConnectorPhase::Streaming, ConnectorEventView::Closed { reason }) => lost(
            before,
            Some(
                match reason {
                    Some(text) => text,
                    None => "Connection closed by server"@,
                },
            ),
            random,
        ),
        (ConnectorPhase::Streaming, ConnectorEventView::ReadFailed { detail }) => lost(
            before,
            Some("Websocket error: "@ + detail),
            random,
        ),
        (ConnectorPhase::Streaming, ConnectorEventView::StreamEnded) => lost(
            before,
            None,
            random,
        ),
        (ConnectorPhase::Streaming, ConnectorEventView::HeartbeatDue) => (
            before,
            StepView { emit: Seq::empty(), next: ConnectorAction::Heartbeat },
        ),
        (ConnectorPhase::Waiting { seconds }, ConnectorEventView::WaitOver) => (
            ConnectorView { phase: ConnectorPhase::Connecting, ..before },
            StepView { emit: Seq::empty(), next: ConnectorAction::Connect },
        ),
        _ => unchanged(before),
    }
}

/// The state and the step after a connection is opened, subscribed and then
/// lost to `failure`.
pub open spec fn connected_then_lost(
    before: ConnectorView,
    failure: ConnectorEventView,
    random: u64,
    jitter: u64,
) -> (ConnectorView, StepView) {
    let connected = transition(before, ConnectorEventView::Connected, random).0;
    let streaming = transition(connected, ConnectorEventView::SubscribeSent, random).0;
    transition(streaming, failure, jitter)
}

/// The action of waiting that many seconds.
pub open spec fn wait_of(seconds: int) -> ConnectorAction {
    ConnectorAction::Wait { seconds: seconds as u64 }
}

/// The first failure after a connection was opened waits the shortest time,
/// however many failures came before: the count starts again at each
/// successful connect, and at nothing else.
pub proof fn lemma_connect_resets_backoff(
    before: ConnectorView,
    failure: ConnectorEventView,
    random: u64,
    jitter: u64,
)
    requires
        before.phase == ConnectorPhase::Connecting,
        failure is Closed || failure is ReadFailed || failure is StreamEnded,
    ensures
        transition(before, ConnectorEventView::Connected, random).0.attempt == 0,
        connected_then_lost(before, failure, random, jitter).0.attempt == 1,
        connected_then_lost(before, failure, random, jitter).1.next == wait_of(5 + jitter % 5),
        backoff_seconds(1, jitter) == 5 + jitter % 5,
{
}

/// No event but a successful connect brings the count of failures back to
/// zero: not a subscribe that was sent, and not a frame that came.
pub proof fn lemma_only_connect_resets(
    before: ConnectorView,
    event: ConnectorEventView,
    random: u64,
)
    requires
        before.attempt > 0,
        transition(before, event, random).0.attempt == 0,
    ensures
        before.phase == ConnectorPhase::Connecting,
        event is Connected,
{
}

/// Every failure counts one more, and the wait that follows has a base that
/// is at least the base of the wait before it.
pub proof fn lemma_failures_lengthen_wait(
    before: ConnectorView,
    error: Option<Seq<char>>,
    random: u64,
)
    ensures
        lost(before, error, random).0.attempt == next_attempt(before.attempt),
        backoff_base(before.attempt) <= backoff_base(next_attempt(before.attempt)),
        lost(before, error, random).1.next == wait_of(
            backoff_seconds(next_attempt(before.attempt), random),
        ),
        backoff_base(next_attempt(before.attempt)) <= backoff_seconds(
            next_attempt(before.attempt),
            random,
        ),
        backoff_seconds(next_attempt(before.attempt), random) < backoff_base(
            next_attempt(before.attempt),
        ) + 5,
{
}

impl Connector {
    /// A connector that is about to connect for the first time.
    pub fn new(exchange: Exchange, symbol: String) -> (connector: Connector)
        ensures
            connector.exchange == exchange,
            connector.symbol@ == symbol@,
            connector.attempt == 0,
            connector.phase == ConnectorPhase::Connecting,
    {
        Connector { exchange, symbol, attempt: 0, phase: ConnectorPhase::Connecting }
    }

    /// What to do first, or after a step that was lost.
    pub fn pending(&self) -> (action: ConnectorAction)
        ensures
            action == resume(self.phase),
    {
        match self.phase {
            ConnectorPhase::Connecting => ConnectorAction::Connect,
            ConnectorPhase::Subscribing => ConnectorAction::Subscribe,
            ConnectorPhase::Streaming => ConnectorAction::Stream,
            ConnectorPhase::Waiting { seconds } => ConnectorAction::Wait { seconds },
        }
    }

    /// Takes one event, with a number drawn at random for the jitter of a wait.
    pub fn on_event(&mut self, event: ConnectorEvent) -> (step: Step)
        ensures
            exists|random: u64|
                #[trigger] transition(old(self)@, event@, random) == (final(self)@, step@),
    {
        let random = random_u64();
        self.step(event, random)
    }

    /// Takes one event; `random` gives the jitter if the event leads to a wait.
    pub fn step(&mut self, event: ConnectorEvent, random: u64) -> (step: Step)
        ensures
            (final(self)@, step@) == transition(old(self)@, event@, random),
    {
        let ghost before = self@;
        let step = match (self.phase, event) {
            (ConnectorPhase::Connecting, ConnectorEvent::Connected) => {
                self.attempt = 0;
                self.phase = ConnectorPhase::Subscribing;
                Step { emit: Vec::new(), next: ConnectorAction::Subscribe }
            },
            (ConnectorPhase::Connecting, ConnectorEvent::ConnectFailed { detail }) => {
                let mut error = String::from_str("Failed to connect: ");
                error.append(detail.as_str());
                self.lose(Some(error), random)
            },
            (ConnectorPhase::Subscribing, ConnectorEvent::SubscribeSent) => {
                self.phase = ConnectorPhase::Streaming;
                Step { emit: Vec::new(), next: ConnectorAction::Stream }
            },
            (ConnectorPhase::Subscribing, ConnectorEvent::SubscribeFailed) => {
                self.phase = ConnectorPhase::Connecting;
                Step { emit: Vec::new(), next: ConnectorAction::Connect }
            },
            (ConnectorPhase::Streaming, ConnectorEvent::Frame { bids, asks, wire_entries }) => {
                let mut emit: Vec<OrderBookUpdate> = Vec::new();
                let skip = match self.exchange {
                    Exchange::Okex => wire_entries == 0,
                    Exchange::Deribit => false,
                };
                if !skip {
                    emit.push(
                        OrderBookUpdate::Bids {
                            exchange: self.exchange,
                            symbol: self.symbol.clone(),
                            levels: bids,
                        },
                    );
                    emit.push(
                        OrderBookUpdate::Asks {
                            exchange: self.exchange,
                            symbol: self.symbol.clone(),
                            levels: asks,
                        },
                    );
                }
                Step { emit, next: ConnectorAction::Stream }
            },
            (ConnectorPhase::Streaming, ConnectorEvent::Closed { reason }) => {
                let error = match reason {
                    Some(text) => text,
                    None => String::from_str("Connection closed by server"),
                };
                self.lose(Some(error), random)
            },
            (ConnectorPhase::Streaming, ConnectorEvent::ReadFailed { detail }) => {
                let mut error = String::from_str("Websocket error: ");
                error.append(detail.as_str());
                self.lose(Some(error), random)
            },
            (ConnectorPhase::Streaming, ConnectorEvent::StreamEnded) => self.lose(None, random),
            (ConnectorPhase::Streaming, ConnectorEvent::HeartbeatDue) => Step {
                emit: Vec::new(),
                next: ConnectorAction::Heartbeat,
            },
            (ConnectorPhase::Waiting { seconds }, ConnectorEvent::WaitOver) => {
                self.phase = ConnectorPhase::Connecting;
                Step { emit: Vec::new(), next: ConnectorAction::Connect }
            },
            _ => Step { emit: Vec::new(), next: self.pending() },
        };
        proof {
            assert(step@.emit =~= transition(before, event@, random).1.emit);
        }
        step
    }

    fn lose(&mut self, error: Option<String>, random: u64) -> (step: Step)
        ensures
            (final(self)@, step@) == lost(old(self)@, text_of(error), random),
    {
        let ghost want = lost(old(self)@, text_of(error), random);
        if self.attempt < u32::MAX {
            self.attempt = self.attempt + 1;
        }
        let seconds = backoff_delay(self.attempt, random);
        self.phase = ConnectorPhase::Waiting { seconds };
        let mut emit: Vec<OrderBookUpdate> = Vec::new();
        match error {
            Some(text) => {
                emit.push(OrderBookUpdate::ConnectionError { exchange: self.exchange, error: text });
            },
            None => {},
        }
        let step = Step { emit, next: ConnectorAction::Wait { seconds } };
        proof {
            assert(step@.emit =~= want.1.emit);
        }
        step
    }
}

} // verus!
