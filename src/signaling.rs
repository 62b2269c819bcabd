//! Decisions of the signaling link: what the writer task puts on the wire
//! for each event, what the reader task does with each inbound frame, and
//! the round-trip-time measurement of the application-level ping.
use vstd::prelude::*;
use vstd::string::StringExecFns;

verus! {

/// Seconds between transport-level keepalive pings.
pub const KEEPALIVE_INTERVAL_SECS: u64 = 30;

/// Seconds between application-level "ping" texts.
pub const RTT_PING_INTERVAL_SECS: u64 = 2;

/// The application-level ping text.
pub const PING_TEXT: &'static str = "ping";

/// The server's reply to `PING_TEXT`.
pub const PONG_TEXT: &'static str = "pong";

/// Milliseconds from `sent` to `now`; zero if the clock reads earlier.
pub open spec fn elapsed(sent: u64, now: u64) -> u64 {
    if now >= sent {
        (now - sent) as u64
    } else {
        0
    }
}

/// The send time of the outstanding application-level ping, in milliseconds
/// of a monotonic clock.
pub struct RttTracker {
    pub ping_sent_at: Option<u64>,
}

/// The measurement a pong yields, given the outstanding ping's send time.
pub open spec fn pong_sample(sent: Option<u64>, now: u64) -> Option<u64> {
    match sent {
        Some(t) => Some(elapsed(t, now)),
        None => None,
    }
}

impl RttTracker {
    /// A tracker with no ping outstanding.
    pub fn new() -> (r: RttTracker)
        ensures
            r.ping_sent_at is None,
    {
        RttTracker { ping_sent_at: None }
    }

    /// Records that a ping was sent at `now_ms`.
    pub fn on_ping_sent(&mut self, now_ms: u64)
        ensures
            final(self).ping_sent_at == Some(now_ms),
    {
        self.ping_sent_at = Some(now_ms);
    }

    /// Consumes the outstanding ping on a pong at `now_ms` and returns the
    /// round-trip time, or none when no ping was outstanding.
    pub fn on_pong(&mut self, now_ms: u64) -> (r: Option<u64>)
        ensures
            r == pong_sample(old(self).ping_sent_at, now_ms),
            final(self).ping_sent_at is None,
    {
        match self.ping_sent_at {
            Some(t) => {
                self.ping_sent_at = None;
                Some(if now_ms >= t { now_ms - t } else { 0 })
            },
            None => None,
        }
    }
}

/// A ping recorded at `sent` (which leaves `ping_sent_at == Some(sent)`)
/// and answered by a pong `delay` milliseconds later yields a round-trip
/// sample of exactly `delay`.
pub proof fn lemma_rtt_measures_delay(sent: u64, delay: u64)
    requires
        sent + delay <= u64::MAX,
    ensures
        pong_sample(Some(sent), (sent + delay) as u64) == Some(delay),
{
}

/// What the writer task is woken by.
pub enum WriterEvent {
    /// An outgoing message, already serialised to JSON text.
    Outgoing(String),
    /// The outgoing queue was closed by the orchestrator.
    QueueClosed,
    /// The keepalive interval elapsed.
    KeepaliveTick,
    /// The round-trip ping interval elapsed.
    RttTick,
}

/// A frame the writer puts on the connection.
pub enum WireFrame {
    Text(String),
    Ping,
}

/// What the writer task does next.
pub enum WriterAction {
    Send(WireFrame),
    Stop,
}

/// The writer's decision for `ev` at time `now_ms`. A round-trip tick records
/// the ping's send time before the ping is sent.
pub fn writer_step(rtt: &mut RttTracker, ev: WriterEvent, now_ms: u64) -> (r: WriterAction)
    ensures
        match ev {
            WriterEvent::Outgoing(text) => r == WriterAction::Send(WireFrame::Text(text)) && *final(rtt) == *old(rtt),
            WriterEvent::QueueClosed => r is Stop && *final(rtt) == *old(rtt),
            WriterEvent::KeepaliveTick => r == WriterAction::Send(WireFrame::Ping) && *final(rtt) == *old(rtt),
            WriterEvent::RttTick => {
                &&& r matches WriterAction::Send(WireFrame::Text(t)) && t@ == PING_TEXT@
                &&& final(rtt).ping_sent_at == Some(now_ms)
            },
        },
{
    match ev {
        WriterEvent::Outgoing(text) => WriterAction::Send(WireFrame::Text(text)),
        WriterEvent::QueueClosed => WriterAction::Stop,
        WriterEvent::KeepaliveTick => WriterAction::Send(WireFrame::Ping),
        WriterEvent::RttTick => {
            rtt.on_ping_sent(now_ms);
            WriterAction::Send(WireFrame::Text(String::from_str(PING_TEXT)))
        },
    }
}

/// A frame read from the connection.
pub enum InboundFrame {
    Text(String),
    /// A transport-level pong answering a keepalive.
    Pong,
    /// Any other frame (binary, ping, close).
    Other,
    /// The stream ended or failed.
    Closed,
}

/// What the reader task does with a frame.
pub enum ReaderAction {
    /// Publish a round-trip sample in milliseconds.
    EmitRtt(u64),
    /// Deserialise the text as a signaling message and forward it.
    Parse(String),
    /// Nothing to do.
    Ignore,
    /// End the session.
    Stop,
}

/// The reader's decision for `frame` at time `now_ms`: the literal text
/// "pong" completes a round-trip measurement and is never parsed as a
/// message; any other text is parsed; the end of the stream stops the reader.
pub fn reader_step(rtt: &mut RttTracker, frame: InboundFrame, now_ms: u64) -> (r: ReaderAction)
    ensures
        match frame {
            InboundFrame::Text(text) => if text@ == PONG_TEXT@ {
                &&& final(rtt).ping_sent_at is None
                &&& r == match pong_sample(old(rtt).ping_sent_at, now_ms) {
                    Some(ms) => ReaderAction::EmitRtt(ms),
                    None => ReaderAction::Ignore,
                }
            } else {
                r == ReaderAction::Parse(text) && *final(rtt) == *old(rtt)
            },
            InboundFrame::Pong | InboundFrame::Other => r is Ignore && *final(rtt) == *old(rtt),
            InboundFrame::Closed => r is Stop && *final(rtt) == *old(rtt),
        },
{
    match frame {
        InboundFrame::Text(text) => {
            let pong = String::from_str(PONG_TEXT);
            if text == pong {
                match rtt.on_pong(now_ms) {
                    Some(ms) => ReaderAction::EmitRtt(ms),
                    None => ReaderAction::Ignore,
                }
            } else {
                ReaderAction::Parse(text)
            }
        },
        InboundFrame::Pong | InboundFrame::Other => ReaderAction::Ignore,
        InboundFrame::Closed => ReaderAction::Stop,
    }
}

} // verus!
