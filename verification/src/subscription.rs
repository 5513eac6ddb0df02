//! How the flashblocks of an upstream are subscribed to: connecting, backing off, and decoding
//! what arrives.
//!
//! The socket and the clock belong to whoever runs the subscription. [`FlashblocksSubscriber`]
//! says what to do next and takes in what happened.

use std::io::Read;

use vstd::prelude::*;

pub use crate::flashblock::{Flashblock, Metadata};
use crate::metrics::{blank_metrics, counted, Metrics, MetricsView};

verus! {

/// Interval of liveness check of upstream, in milliseconds.
pub const PING_INTERVAL_MS: u64 = 15_000;

/// Max duration of backoff before reconnecting to upstream, in milliseconds.
pub const MAX_BACKOFF: u64 = 10_000;

/// Max duration of timeout for sending a ping to upstream, in milliseconds.
pub const PING_SEND_TIMEOUT_MS: u64 = 250;

/// Max duration of idle timeout before reconnecting to upstream, in milliseconds.
pub const IDLE_TIMEOUT_MS: u64 = 60_000;

/// Backoff before the first attempt to reconnect, in milliseconds.
pub const INITIAL_BACKOFF: u64 = 1_000;

/// Size of the buffer that compressed messages are read through.
pub const BROTLI_BUFFER_SIZE: usize = 4096;

/// Takes in the flashblocks of a subscription.
pub trait FlashblocksReceiver {
    fn on_flashblock_received(&self, flashblock: Flashblock);
}

/// A random number below `upper`.
///
/// Trusted: calls `fastrand::u64` on the range from zero to `upper`. It returns a number in that
/// range; which one is left to chance. The range must not be empty.
#[verifier::external_body]
fn random_below(upper: u64) -> (r: u64)
    requires
        upper > 0,
    ensures
        r < upper,
{
    fastrand::u64(0..upper)
}

/// The jitter of a duration is below this: half of it, but at least one.
pub open spec fn jitter_bound(ms: u64) -> u64 {
    if ms / 2 > 1 {
        ms / 2
    } else {
        1
    }
}

/// A duration with `extra` added, as far as the number goes.
pub open spec fn prolonged(ms: u64, extra: u64) -> u64 {
    if ms + extra <= u64::MAX {
        (ms + extra) as u64
    } else {
        u64::MAX
    }
}

/// The bound on the jitter of a duration.
pub fn jitter_upper(ms: u64) -> (r: u64)
    ensures
        r == jitter_bound(ms),
        r > 0,
{
    let half = ms / 2;
    if half > 1 {
        half
    } else {
        1
    }
}

/// A duration with the given jitter added.
pub fn jittered(ms: u64, jitter: u64) -> (r: u64)
    ensures
        r == prolonged(ms, jitter),
{
    ms.saturating_add(jitter)
}

/// A duration with a random jitter of up to half of it added.
pub fn jitter(ms: u64) -> (r: u64)
    ensures
        exists|extra: u64| #[trigger] prolonged(ms, extra) == r && extra < jitter_bound(ms),
{
    let extra = random_below(jitter_upper(ms));
    jittered(ms, extra)
}

/// The backoff after one more failed attempt: twice as long, capped at [`MAX_BACKOFF`].
pub open spec fn doubled(backoff: u64) -> u64 {
    if 2 * backoff <= MAX_BACKOFF {
        (2 * backoff) as u64
    } else {
        MAX_BACKOFF
    }
}

/// The backoff after one more failed attempt: twice as long, capped at [`MAX_BACKOFF`].
pub fn next_backoff(backoff: u64) -> (r: u64)
    ensures
        r == doubled(backoff),
{
    if backoff > MAX_BACKOFF / 2 {
        MAX_BACKOFF
    } else {
        backoff * 2
    }
}

/// The content of the brotli stream `bytes` when it is read through a buffer of `buffer_size`
/// bytes; nothing where it cannot be read to its end.
pub uninterp spec fn decompressed(bytes: Seq<u8>, buffer_size: usize) -> Option<Seq<u8>>;

/// Decompresses a brotli stream.
///
/// Trusted: reads a `brotli::Decompressor` over the bytes to its end. The result depends on the
/// bytes and on the size of the buffer alone.
#[verifier::external_body]
fn decompress(bytes: &Vec<u8>, buffer_size: usize) -> (content: Option<Vec<u8>>)
    ensures
        match content {
            Some(content) => decompressed(bytes@, buffer_size) == Some(content@),
            None => decompressed(bytes@, buffer_size) is None,
        },
{
    let mut content = Vec::new();
    brotli::Decompressor::new(bytes.as_slice(), buffer_size).read_to_end(&mut content).ok()?;
    Some(content)
}

/// What is left to do to decode a message.
pub enum Decoding {
    /// The message is decoded.
    Decoded(Flashblock),
    /// The message was compressed: its content is still to be parsed.
    Parse(Vec<u8>),
    /// The message is neither JSON nor compressed.
    Undecodable,
}

/// What is left to do for a message that is not plain JSON, given what it decompresses to.
pub fn decoding_of(content: Option<Vec<u8>>) -> (r: Decoding)
    ensures
        r == match content {
            Some(content) => Decoding::Parse(content),
            None => Decoding::Undecodable,
        },
{
    match content {
        Some(content) => Decoding::Parse(content),
        None => Decoding::Undecodable,
    }
}

/// Decodes a message, given what parsing it as plain JSON came to. Only a message that is not
/// plain JSON is decompressed.
pub fn try_decode_message(bytes: &Vec<u8>, plain: Option<Flashblock>) -> (r: Decoding)
    ensures
        match plain {
            Some(flashblock) => r == Decoding::Decoded(flashblock),
            None => match decompressed(bytes@, BROTLI_BUFFER_SIZE) {
                Some(content) => r matches Decoding::Parse(parsed) && parsed@ == content,
                None => r == Decoding::Undecodable,
            },
        },
{
    match plain {
        Some(flashblock) => Decoding::Decoded(flashblock),
        None => decoding_of(decompress(bytes, BROTLI_BUFFER_SIZE)),
    }
}

/// What came of sending a ping.
#[derive(Clone, Copy, Debug)]
pub enum PingOutcome {
    Sent,
    Failed,
    TimedOut,
}

impl PingOutcome {
    /// Whether to go on with pings. A ping that was not sent ends them, and the subscription has
    /// to be told.
    pub fn keeps_pinging(&self) -> (r: bool)
        ensures
            r == (*self is Sent),
    {
        match self {
            PingOutcome::Sent => true,
            PingOutcome::Failed => false,
            PingOutcome::TimedOut => false,
        }
    }
}

/// A message of the upstream.
pub enum Message {
    Binary(Vec<u8>),
    Text,
    Close,
    Pong,
    /// Any other message.
    Other,
}

/// What happened to a subscription.
pub enum Event {
    /// The connection is established.
    Connected,
    /// The connection could not be established.
    ConnectFailed,
    /// The backoff is over.
    Slept,
    /// Nothing arrived for [`IDLE_TIMEOUT_MS`].
    IdleTimeout,
    /// A ping could not be sent.
    PingFailed,
    /// A message arrived.
    Received(Message),
    /// Receiving failed.
    ReceiveFailed,
    /// A message was decoded, or could not be.
    Decoded(Option<Flashblock>),
}

/// What to do next for a subscription.
pub enum Action {
    /// Connect to the upstream, dropping the connection where there is one.
    Connect,
    /// Sleep for so many milliseconds.
    Sleep(u64),
    /// Wait for the next message.
    Listen,
    /// Decode these bytes.
    Decode(Vec<u8>),
    /// Hand the flashblock to the receiver, and wait for the next message.
    Deliver(Flashblock),
}

/// What a subscription is waiting for.
#[derive(Clone, Copy, Debug, PartialEq, Eq, Structural)]
pub enum Phase {
    /// The connection.
    Connecting,
    /// The end of the backoff.
    Sleeping,
    /// The next message.
    Listening,
    /// What a message decodes to.
    Decoding,
}

impl Phase {
    /// Whether an event may happen in this phase.
    pub open spec fn expects(self, event: Event) -> bool {
        match event {
            Event::Connected | Event::ConnectFailed => self == Phase::Connecting,
            Event::Slept => self == Phase::Sleeping,
            Event::IdleTimeout | Event::PingFailed | Event::ReceiveFailed | Event::Received(_) =>
                self == Phase::Listening,
            Event::Decoded(_) => self == Phase::Decoding,
        }
    }
}

/// The phase that follows an action.
pub open spec fn phase_after(action: Action) -> Phase {
    match action {
        Action::Connect => Phase::Connecting,
        Action::Sleep(_) => Phase::Sleeping,
        Action::Listen | Action::Deliver(_) => Phase::Listening,
        Action::Decode(_) => Phase::Decoding,
    }
}

/// What to do when `event` happened under the given backoff, if `jitter` is added to a backoff.
///
/// A failed attempt to connect, an idle connection and a failed ping are slept on. A connection
/// that was closed or failed is replaced at once.
pub open spec fn action_for(event: Event, backoff: u64, jitter: u64) -> Action {
    match event {
        Event::ConnectFailed | Event::IdleTimeout | Event::PingFailed => Action::Sleep(
            prolonged(backoff, jitter),
        ),
        Event::Slept | Event::ReceiveFailed | Event::Received(Message::Close) => Action::Connect,
        Event::Received(Message::Binary(bytes)) => Action::Decode(bytes),
        Event::Decoded(Some(flashblock)) => Action::Deliver(flashblock),
        _ => Action::Listen,
    }
}

/// The backoff once `event` happened: a connection resets it, and each sleep doubles it.
pub open spec fn backoff_after(event: Event, backoff: u64) -> u64 {
    match event {
        Event::Connected => INITIAL_BACKOFF,
        Event::ConnectFailed | Event::IdleTimeout | Event::PingFailed => doubled(backoff),
        _ => backoff,
    }
}

/// What is reported once `event` happened. Whatever ends a connection, or keeps it from being
/// made, leads to an attempt to reconnect. A connection that is closed by the upstream, or that
/// fails, is an error of it. Whatever is received is a message, a failure to receive included.
pub open spec fn reported_after(event: Event, reported: MetricsView) -> MetricsView {
    match event {
        Event::ConnectFailed | Event::IdleTimeout | Event::PingFailed => MetricsView {
            reconnect_attempts: counted(reported.reconnect_attempts, 1),
            ..reported
        },
        Event::Received(Message::Close) | Event::ReceiveFailed => MetricsView {
            upstream_messages: counted(reported.upstream_messages, 1),
            upstream_errors: counted(reported.upstream_errors, 1),
            reconnect_attempts: counted(reported.reconnect_attempts, 1),
            ..reported
        },
        Event::Received(_) => MetricsView {
            upstream_messages: counted(reported.upstream_messages, 1),
            ..reported
        },
        _ => reported,
    }
}

/// Whether `event` starts the idle timer anew: a connection does, and whatever is received.
pub open spec fn is_sign_of_life(event: Event) -> bool {
    event is Connected || event is Received || event is ReceiveFailed
}

impl Event {
    /// Whether this starts the idle timer anew.
    pub fn restarts_idle_timer(&self) -> (r: bool)
        ensures
            r == is_sign_of_life(*self),
    {
        match self {
            Event::Connected => true,
            Event::Received(_) => true,
            Event::ReceiveFailed => true,
            _ => false,
        }
    }
}

/// A subscription to the flashblocks of an upstream.
pub struct FlashblocksSubscriber {
    ws_url: String,
    backoff: u64,
    phase: Phase,
    metrics: Metrics,
}

impl FlashblocksSubscriber {
    /// The URL of the upstream.
    pub closed spec fn url(&self) -> Seq<char> {
        self.ws_url@
    }

    /// The backoff before the next attempt to reconnect, in milliseconds.
    pub closed spec fn backoff(&self) -> u64 {
        self.backoff
    }

    /// What the subscription is waiting for.
    pub closed spec fn phase(&self) -> Phase {
        self.phase
    }

    /// What is reported and was not taken yet.
    pub closed spec fn reported(&self) -> MetricsView {
        self.metrics@
    }

    /// A subscription to the upstream at the given URL.
    pub fn new(ws_url: String) -> (r: Self)
        ensures
            r.url() == ws_url@,
            r.backoff() == INITIAL_BACKOFF,
            r.phase() == Phase::Connecting,
            r.reported() == blank_metrics(),
    {
        FlashblocksSubscriber {
            ws_url,
            backoff: INITIAL_BACKOFF,
            phase: Phase::Connecting,
            metrics: Metrics::default(),
        }
    }

    /// Starts the subscription, or starts it over.
    pub fn start(&mut self) -> (r: Action)
        ensures
            r == Action::Connect,
            final(self).url() == old(self).url(),
            final(self).backoff() == INITIAL_BACKOFF,
            final(self).phase() == Phase::Connecting,
            final(self).reported() == old(self).reported(),
    {
        self.backoff = INITIAL_BACKOFF;
        self.phase = Phase::Connecting;
        Action::Connect
    }

    /// The URL of the upstream.
    pub fn ws_url(&self) -> (r: &String)
        ensures
            r@ == self.url(),
    {
        &self.ws_url
    }

    /// The backoff before the next attempt to reconnect, in milliseconds.
    pub fn current_backoff(&self) -> (r: u64)
        ensures
            r == self.backoff(),
    {
        self.backoff
    }

    /// What the subscription is waiting for.
    pub fn current_phase(&self) -> (r: Phase)
        ensures
            r == self.phase(),
    {
        self.phase
    }

    /// Takes what was reported since this was called last.
    pub fn take_metrics(&mut self) -> (r: Metrics)
        ensures
            r@ == old(self).reported(),
            final(self).reported() == blank_metrics(),
            final(self).url() == old(self).url(),
            final(self).backoff() == old(self).backoff(),
            final(self).phase() == old(self).phase(),
    {
        let mut metrics = Metrics::default();
        std::mem::swap(&mut metrics, &mut self.metrics);
        metrics
    }

    /// Counts an attempt to reconnect, and says how long to sleep before it.
    fn sleep(&mut self, jitter: u64) -> (r: Action)
        ensures
            r == Action::Sleep(prolonged(old(self).backoff(), jitter)),
            final(self).url() == old(self).url(),
            final(self).backoff() == doubled(old(self).backoff()),
            final(self).phase() == Phase::Sleeping,
            final(self).reported() == (MetricsView {
                reconnect_attempts: counted(old(self).reported().reconnect_attempts, 1),
                ..old(self).reported()
            }),
    {
        self.metrics.reconnect_attempts.increment(1);
        let ms = jittered(self.backoff, jitter);
        self.backoff = next_backoff(self.backoff);
        self.phase = Phase::Sleeping;
        Action::Sleep(ms)
    }

    /// Counts an error of the upstream and an attempt to reconnect, which is made at once.
    fn reconnect(&mut self) -> (r: Action)
        ensures
            r == Action::Connect,
            final(self).url() == old(self).url(),
            final(self).backoff() == old(self).backoff(),
            final(self).phase() == Phase::Connecting,
            final(self).reported() == (MetricsView {
                upstream_errors: counted(old(self).reported().upstream_errors, 1),
                reconnect_attempts: counted(old(self).reported().reconnect_attempts, 1),
                ..old(self).reported()
            }),
    {
        self.metrics.upstream_errors.increment(1);
        self.metrics.reconnect_attempts.increment(1);
        self.phase = Phase::Connecting;
        Action::Connect
    }

    /// Takes in what happened, and says what to do next. A backoff gets the given jitter.
    pub fn on_event(&mut self, event: Event, jitter: u64) -> (r: Action)
        requires
            old(self).phase().expects(event),
        ensures
            r == action_for(event, old(self).backoff(), jitter),
            final(self).url() == old(self).url(),
            final(self).backoff() == backoff_after(event, old(self).backoff()),
            final(self).phase() == phase_after(r),
            final(self).reported() == reported_after(event, old(self).reported()),
    {
        match event {
            Event::Connected => {
                self.backoff = INITIAL_BACKOFF;
                self.phase = Phase::Listening;
                Action::Listen
            },
            Event::ConnectFailed => self.sleep(jitter),
            Event::IdleTimeout => self.sleep(jitter),
            Event::PingFailed => self.sleep(jitter),
            Event::Slept => {
                self.phase = Phase::Connecting;
                Action::Connect
            },
            Event::Received(message) => {
                self.metrics.upstream_messages.increment(1);
                match message {
                    Message::Binary(bytes) => {
                        self.phase = Phase::Decoding;
                        Action::Decode(bytes)
                    },
                    Message::Close => self.reconnect(),
                    _ => Action::Listen,
                }
            },
            Event::ReceiveFailed => {
                self.metrics.upstream_messages.increment(1);
                self.reconnect()
            },
            Event::Decoded(decoded) => {
                self.phase = Phase::Listening;
                match decoded {
                    Some(flashblock) => Action::Deliver(flashblock),
                    None => Action::Listen,
                }
            },
        }
    }

    /// Takes in what happened, and says what to do next. A backoff gets a random jitter of up to
    /// half of it.
    pub fn handle(&mut self, event: Event) -> (r: Action)
        requires
            old(self).phase().expects(event),
        ensures
            exists|extra: u64|
                extra < jitter_bound(old(self).backoff()) && r == #[trigger] action_for(
                    event,
                    old(self).backoff(),
                    extra,
                ),
            final(self).url() == old(self).url(),
            final(self).backoff() == backoff_after(event, old(self).backoff()),
            final(self).phase() == phase_after(r),
            final(self).reported() == reported_after(event, old(self).reported()),
    {
        let extra = random_below(jitter_upper(self.backoff));
        self.on_event(event, extra)
    }
}

/// The backoff after `n` failed attempts in a row since the last connection.
pub open spec fn backoff_after_failures(n: nat) -> u64
    decreases n,
{
    if n == 0 {
        INITIAL_BACKOFF
    } else {
        doubled(backoff_after_failures((n - 1) as nat))
    }
}

/// With each failed attempt the backoff doubles until it reaches [`MAX_BACKOFF`], and stays there.
pub proof fn law_backoff_doubles(n: nat)
    ensures
        INITIAL_BACKOFF <= backoff_after_failures(n) <= MAX_BACKOFF,
        backoff_after_failures(n) <= backoff_after_failures(n + 1),
        n >= 4 ==> backoff_after_failures(n) == MAX_BACKOFF,
        backoff_after_failures(n + 1) < MAX_BACKOFF ==> backoff_after_failures(n + 1) == 2
            * backoff_after_failures(n),
    decreases n,
{
    if n > 0 {
        law_backoff_doubles((n - 1) as nat);
        if n == 4 {
            reveal_with_fuel(backoff_after_failures, 5);
        }
    }
}

/// A sleep lasts at least as long as the backoff, and less than half as long again.
pub proof fn law_sleep_is_bounded(backoff: u64, extra: u64)
    requires
        2 <= backoff <= MAX_BACKOFF,
        extra < jitter_bound(backoff),
    ensures
        backoff <= prolonged(backoff, extra),
        2 * prolonged(backoff, extra) < 3 * backoff,
{
}

/// The backoff stays in its bounds, whatever happens.
pub proof fn law_backoff_stays_bounded(event: Event, backoff: u64)
    requires
        INITIAL_BACKOFF <= backoff <= MAX_BACKOFF,
    ensures
        INITIAL_BACKOFF <= backoff_after(event, backoff) <= MAX_BACKOFF,
{
}

/// The phase of a subscription once `events` happened to it.
pub open spec fn phase_of(events: Seq<Event>) -> Phase {
    if events.len() == 0 {
        Phase::Connecting
    } else {
        phase_after(action_for(events.last(), 0, 0))
    }
}

/// Whether `events` can happen to a subscription, one after the other.
pub open spec fn can_happen(events: Seq<Event>) -> bool
    decreases events.len(),
{
    events.len() == 0 || {
        &&& can_happen(events.drop_last())
        &&& phase_of(events.drop_last()).expects(events.last())
    }
}

/// What is reported of a subscription once `events` happened to it.
pub open spec fn reported_of(events: Seq<Event>) -> MetricsView
    decreases events.len(),
{
    if events.len() == 0 {
        blank_metrics()
    } else {
        reported_after(events.last(), reported_of(events.drop_last()))
    }
}

/// The number of attempts to connect that were begun once `events` happened, the first included.
pub open spec fn connection_attempts(events: Seq<Event>) -> nat
    decreases events.len(),
{
    if events.len() == 0 {
        1
    } else {
        connection_attempts(events.drop_last()) + if action_for(
            events.last(),
            0,
            0,
        ) is Connect {
            1nat
        } else {
            0nat
        }
    }
}

/// Neither the backoff nor the jitter changes what phase a subscription is in.
pub proof fn law_phase_by_event(event: Event, backoff: u64, jitter: u64)
    ensures
        phase_after(action_for(event, backoff, jitter)) == phase_after(action_for(event, 0, 0)),
{
}

/// All attempts to connect but the first are reported as attempts to reconnect, whatever they
/// were made for. The one that follows a backoff is reported when the backoff begins.
pub proof fn law_reconnects_are_counted(events: Seq<Event>)
    requires
        can_happen(events),
        events.len() < u64::MAX,
    ensures
        reported_of(events).reconnect_attempts == connection_attempts(events) - (if phase_of(events)
            == Phase::Sleeping {
            0int
        } else {
            1int
        }),
        1 <= connection_attempts(events) <= events.len() + 1,
    decreases events.len(),
{
    if events.len() > 0 {
        law_reconnects_are_counted(events.drop_last());
    }
}

/// Only a flashblock that a message decoded to is handed on.
pub proof fn law_only_decoded_is_delivered(
    event: Event,
    backoff: u64,
    jitter: u64,
    flashblock: Flashblock,
)
    ensures
        action_for(event, backoff, jitter) == Action::Deliver(flashblock) <==> event
            == Event::Decoded(Some(flashblock)),
{
}

/// A connection that cannot be made, that idles or that cannot be pinged is slept on for the
/// backoff with the jitter, and counts as an attempt to reconnect. The next backoff is twice as
/// long, up to ten seconds.
pub proof fn law_silence_is_slept_on(
    subscriber: &mut FlashblocksSubscriber,
    event: Event,
    jitter: u64,
    action: Action,
)
    requires
        event is ConnectFailed || event is IdleTimeout || event is PingFailed,
        call_ensures(FlashblocksSubscriber::on_event, (subscriber, event, jitter), action),
    ensures
        ({
            let backoff = old(subscriber).backoff();
            let before = old(subscriber).reported();
            let attempts = final(subscriber).reported().reconnect_attempts;
            &&& action matches Action::Sleep(ms) && {
                &&& backoff + jitter <= u64::MAX ==> ms == backoff + jitter
                &&& backoff + jitter > u64::MAX ==> ms == u64::MAX
            }
            &&& final(subscriber).phase() == Phase::Sleeping
            &&& final(subscriber).backoff() <= 10_000
            &&& backoff <= 5_000 ==> final(subscriber).backoff() == 2 * backoff
            &&& backoff > 5_000 ==> final(subscriber).backoff() == 10_000
            &&& before.reconnect_attempts < u64::MAX ==> attempts == before.reconnect_attempts + 1
            &&& final(subscriber).reported() == (MetricsView {
                reconnect_attempts: attempts,
                ..before
            })
        }),
{
}

/// Once slept on, a connection is attempted again, and nothing is reported. Once made, it is
/// listened to, and the backoff is a second again.
pub proof fn law_sleep_ends_in_an_attempt(
    subscriber: &mut FlashblocksSubscriber,
    event: Event,
    jitter: u64,
    action: Action,
)
    requires
        event is Slept || event is Connected,
        call_ensures(FlashblocksSubscriber::on_event, (subscriber, event, jitter), action),
    ensures
        event is Slept ==> {
            &&& action is Connect
            &&& final(subscriber).phase() == Phase::Connecting
            &&& final(subscriber).backoff() == old(subscriber).backoff()
        },
        event is Connected ==> {
            &&& action is Listen
            &&& final(subscriber).phase() == Phase::Listening
            &&& final(subscriber).backoff() == 1_000
        },
        final(subscriber).reported() == old(subscriber).reported(),
{
}

/// Whatever is received counts as a message. A binary one is decoded, all of it. A close, and a
/// failure to receive, is an error of the upstream, and another connection is attempted at once.
/// Anything else is passed over. The backoff stays.
pub proof fn law_messages_are_taken_in(
    subscriber: &mut FlashblocksSubscriber,
    event: Event,
    jitter: u64,
    action: Action,
)
    requires
        event is Received || event is ReceiveFailed,
        call_ensures(FlashblocksSubscriber::on_event, (subscriber, event, jitter), action),
    ensures
        ({
            let before = old(subscriber).reported();
            let after = final(subscriber).reported();
            let lost = event is ReceiveFailed || event == Event::Received(Message::Close);
            &&& lost ==> action is Connect
            &&& match event {
                Event::Received(Message::Binary(bytes)) => action == Action::Decode(bytes),
                _ => lost || action is Listen,
            }
            &&& final(subscriber).backoff() == old(subscriber).backoff()
            &&& before.upstream_messages < u64::MAX ==> after.upstream_messages
                == before.upstream_messages + 1
            &&& lost && before.upstream_errors < u64::MAX ==> after.upstream_errors
                == before.upstream_errors + 1
            &&& lost && before.reconnect_attempts < u64::MAX ==> after.reconnect_attempts
                == before.reconnect_attempts + 1
            &&& !lost ==> after.upstream_errors == before.upstream_errors
                && after.reconnect_attempts == before.reconnect_attempts
            &&& after == (MetricsView {
                upstream_messages: after.upstream_messages,
                upstream_errors: after.upstream_errors,
                reconnect_attempts: after.reconnect_attempts,
                ..before
            })
        }),
{
}

/// What a message decodes to is handed on as it is; nothing is where it does not decode. Either way
/// the subscription listens on.
pub proof fn law_decoded_is_delivered(
    subscriber: &mut FlashblocksSubscriber,
    decoded: Option<Flashblock>,
    jitter: u64,
    action: Action,
)
    requires
        call_ensures(
            FlashblocksSubscriber::on_event,
            (subscriber, Event::Decoded(decoded), jitter),
            action,
        ),
    ensures
        decoded matches Some(flashblock) ==> action == Action::Deliver(flashblock),
        decoded is None ==> action is Listen,
        final(subscriber).phase() == Phase::Listening,
        final(subscriber).backoff() == old(subscriber).backoff(),
        final(subscriber).reported() == old(subscriber).reported(),
{
}

/// A sleep that is decided on lasts at least as long as the backoff and less than half as long
/// again, whatever chance adds.
pub proof fn law_chance_adds_less_than_half(
    subscriber: &mut FlashblocksSubscriber,
    event: Event,
    ms: u64,
)
    requires
        1_000 <= old(subscriber).backoff() <= 10_000,
        call_ensures(FlashblocksSubscriber::handle, (subscriber, event), Action::Sleep(ms)),
    ensures
        event is ConnectFailed || event is IdleTimeout || event is PingFailed,
        old(subscriber).backoff() <= ms,
        2 * ms < 3 * old(subscriber).backoff(),
        1_000 <= final(subscriber).backoff() <= 10_000,
{
}

/// The jitter of a duration is less than half of it, and none where half of it is no more than a
/// millisecond.
pub proof fn law_jitter_is_bounded(ms: u64, prolonged: u64)
    requires
        ms < u64::MAX / 2,
        call_ensures(jitter, (ms,), prolonged),
    ensures
        ms <= prolonged,
        ms < 4 ==> prolonged == ms,
        ms >= 4 ==> prolonged < ms + ms / 2,
{
}

/// The idle timer starts anew with a connection and with whatever is received, that is with every
/// message that is counted, and with nothing else.
pub proof fn law_idle_timer_restarts(event: &Event, restarts: bool)
    requires
        call_ensures(Event::restarts_idle_timer, (event,), restarts),
    ensures
        restarts <==> {
            ||| event is Connected
            ||| event is Received
            ||| event is ReceiveFailed
        },
        restarts && !(event is Connected) <==> reported_after(
            *event,
            blank_metrics(),
        ).upstream_messages == 1,
{
}

/// A message that is plain JSON is decoded as that, and not decompressed. Any other is
/// decompressed, and what comes out is still to be parsed; where it cannot be decompressed it
/// cannot be decoded.
pub proof fn law_plain_messages_come_first(
    bytes: &Vec<u8>,
    plain: Option<Flashblock>,
    decoding: Decoding,
)
    requires
        call_ensures(try_decode_message, (bytes, plain), decoding),
    ensures
        plain matches Some(flashblock) ==> decoding == Decoding::Decoded(flashblock),
        plain is None ==> match decoding {
            Decoding::Parse(content) => decompressed(bytes@, 4096) == Some(content@),
            Decoding::Undecodable => decompressed(bytes@, 4096) is None,
            Decoding::Decoded(_) => false,
        },
{
}

/// After `n` failures in a row the backoff is a second doubled `n` times, up to ten seconds.
pub proof fn law_backoff_is_a_power_of_two(n: nat)
    ensures
        1_000 * vstd::arithmetic::power2::pow2(n) <= 10_000 ==> backoff_after_failures(n) == 1_000
            * vstd::arithmetic::power2::pow2(n),
        1_000 * vstd::arithmetic::power2::pow2(n) > 10_000 ==> backoff_after_failures(n) == 10_000,
    decreases n,
{
    if n == 0 {
        vstd::arithmetic::power2::lemma2_to64();
    } else {
        vstd::arithmetic::power2::lemma_pow2_unfold(n);
        law_backoff_is_a_power_of_two((n - 1) as nat);
    }
}

/// Whatever happens to a subscription, it reports as many messages as were received or failed to
/// be, and as many errors of the upstream as there were closes and failures to receive.
pub proof fn law_messages_and_errors_are_counted(events: Seq<Event>)
    requires
        events.len() < u64::MAX,
    ensures
        reported_of(events).upstream_messages == events.filter(
            |event: Event| event is Received || event is ReceiveFailed,
        ).len() <= events.len(),
        reported_of(events).upstream_errors == events.filter(
            |event: Event| event is ReceiveFailed || event == Event::Received(Message::Close),
        ).len() <= events.len(),
    decreases events.len(),
{
    reveal(Seq::filter);
    if events.len() > 0 {
        law_messages_and_errors_are_counted(events.drop_last());
    }
}

/// A ping that was sent is followed by others. One that was not, for whatever reason, is the last.
pub proof fn law_failed_ping_is_the_last(ping: &PingOutcome, keeps: bool)
    requires
        call_ensures(PingOutcome::keeps_pinging, (ping,), keeps),
    ensures
        keeps <==> !(ping is Failed || ping is TimedOut),
{
}

/// A subscription begins with an attempt to connect and a backoff of a second, with nothing
/// reported. To start it over is to begin again, and keeps what is reported.
pub proof fn law_subscription_begins_by_connecting(
    ws_url: String,
    made: FlashblocksSubscriber,
    subscriber: &mut FlashblocksSubscriber,
    action: Action,
)
    requires
        call_ensures(FlashblocksSubscriber::new, (ws_url,), made),
        call_ensures(FlashblocksSubscriber::start, (subscriber,), action),
    ensures
        made.url() == ws_url@,
        made.backoff() == 1_000,
        made.phase() == Phase::Connecting,
        made.reported() == blank_metrics(),
        action is Connect,
        final(subscriber).url() == old(subscriber).url(),
        final(subscriber).backoff() == 1_000,
        final(subscriber).phase() == Phase::Connecting,
        final(subscriber).reported() == old(subscriber).reported(),
{
}

} // verus!
