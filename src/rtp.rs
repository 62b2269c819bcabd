//! RTP packetisation state of one outbound audio track.
use vstd::arithmetic::div_mod::lemma_add_mod_noop;
use vstd::prelude::*;

verus! {

/// RTP protocol version written in every header.
pub const RTP_VERSION: u8 = 2;

/// Dynamic payload type negotiated for Opus.
pub const OPUS_PAYLOAD_TYPE: u8 = 111;

/// Timestamp advance per packet: one 20 ms frame at the 48 kHz media clock.
pub const TIMESTAMP_STEP: u32 = 960;

/// The header fields of one outbound RTP packet.
#[derive(Clone, Copy, Debug, PartialEq, Eq, Structural)]
pub struct RtpHeader {
    pub version: u8,
    pub payload_type: u8,
    pub marker: bool,
    pub sequence_number: u16,
    pub timestamp: u32,
    pub ssrc: u32,
}

/// Sequence number, timestamp and SSRC of the next packet a track sends.
/// The SSRC never changes over the sender's lifetime.
#[derive(Clone, Copy, Debug, PartialEq, Eq, Structural)]
pub struct RtpSender {
    pub sequence_number: u16,
    pub timestamp: u32,
    pub ssrc: u32,
}

/// The header carried by the packet sent from state `s`.
pub open spec fn header_of(s: RtpSender) -> RtpHeader {
    RtpHeader {
        version: RTP_VERSION,
        payload_type: OPUS_PAYLOAD_TYPE,
        marker: false,
        sequence_number: s.sequence_number,
        timestamp: s.timestamp,
        ssrc: s.ssrc,
    }
}

/// The state after one packet has been sent from `s`.
pub open spec fn step(s: RtpSender) -> RtpSender {
    RtpSender {
        sequence_number: ((s.sequence_number + 1) % 0x1_0000) as u16,
        timestamp: ((s.timestamp + TIMESTAMP_STEP) % 0x1_0000_0000) as u32,
        ssrc: s.ssrc,
    }
}

/// The state after `n` packets have been sent from `s`.
pub open spec fn after_sends(s: RtpSender, n: nat) -> RtpSender
    decreases n,
{
    if n == 0 {
        s
    } else {
        step(after_sends(s, (n - 1) as nat))
    }
}

/// Relies on `rand::random`: nothing is known of the value drawn.
pub assume_specification<T>[ rand::random::<T> ]() -> T
    where
        rand::distributions::Standard: rand::distributions::Distribution<T>,
;

impl RtpSender {
    /// A sender whose first packet carries sequence number 0 and timestamp 0.
    pub fn new(ssrc: u32) -> (r: RtpSender)
        ensures
            r.sequence_number == 0,
            r.timestamp == 0,
            r.ssrc == ssrc,
    {
        RtpSender { sequence_number: 0, timestamp: 0, ssrc }
    }

    /// A sender with a randomly drawn SSRC.
    pub fn with_random_ssrc() -> (r: RtpSender)
        ensures
            r.sequence_number == 0,
            r.timestamp == 0,
    {
        let ssrc: u32 = rand::random::<u32>();
        RtpSender::new(ssrc)
    }

    /// Returns the header of the next packet and advances the counters:
    /// the sequence number by one modulo 2^16, the timestamp by 960 modulo 2^32.
    pub fn next_header(&mut self) -> (h: RtpHeader)
        ensures
            h == header_of(*old(self)),
            *final(self) == step(*old(self)),
    {
        let h = RtpHeader {
            version: RTP_VERSION,
            payload_type: OPUS_PAYLOAD_TYPE,
            marker: false,
            sequence_number: self.sequence_number,
            timestamp: self.timestamp,
            ssrc: self.ssrc,
        };
        self.sequence_number = self.sequence_number.wrapping_add(1);
        self.timestamp = self.timestamp.wrapping_add(TIMESTAMP_STEP);
        h
    }
}

/// Over any number of sends from one sender, the k-th packet carries the
/// starting sequence number plus k modulo 2^16, the starting timestamp plus
/// 960·k modulo 2^32, and the starting SSRC; so consecutive packets differ by
/// exactly one in sequence number and by 960 in timestamp, with wrap-around.
pub proof fn lemma_rtp_counters_consecutive(s: RtpSender, n: nat)
    ensures
        forall|k: nat|
            k <= n ==> {
                let h = header_of(#[trigger] after_sends(s, k));
                &&& h.sequence_number == (s.sequence_number + k) % 0x1_0000
                &&& h.timestamp == (s.timestamp + 960 * k) % 0x1_0000_0000
                &&& h.ssrc == s.ssrc
            },
        forall|k: nat|
            k < n ==> {
                let a = header_of(#[trigger] after_sends(s, k));
                let b = header_of(after_sends(s, k + 1));
                &&& b.sequence_number == (a.sequence_number + 1) % 0x1_0000
                &&& b.timestamp == (a.timestamp + 960) % 0x1_0000_0000
                &&& b.ssrc == a.ssrc
            },
    decreases n,
{
    if n > 0 {
        lemma_rtp_counters_consecutive(s, (n - 1) as nat);
        let p = after_sends(s, (n - 1) as nat);
        assert(after_sends(s, n) == step(p));
        lemma_add_mod_noop(s.sequence_number + (n - 1), 1, 0x1_0000);
        lemma_add_mod_noop(s.timestamp + 960 * (n - 1), 960, 0x1_0000_0000);
        assert((1int) % 0x1_0000 == 1);
        assert((960int) % 0x1_0000_0000 == 960);
        assert forall|k: nat| k <= n implies {
            let h = header_of(#[trigger] after_sends(s, k));
            &&& h.sequence_number == (s.sequence_number + k) % 0x1_0000
            &&& h.timestamp == (s.timestamp + 960 * k) % 0x1_0000_0000
            &&& h.ssrc == s.ssrc
        } by {
            if k == n {
                assert(after_sends(s, k) == step(p));
            }
        }
        assert forall|k: nat| k < n implies {
            let a = header_of(#[trigger] after_sends(s, k));
            let b = header_of(after_sends(s, k + 1));
            &&& b.sequence_number == (a.sequence_number + 1) % 0x1_0000
            &&& b.timestamp == (a.timestamp + 960) % 0x1_0000_0000
            &&& b.ssrc == a.ssrc
        } by {
            assert(after_sends(s, k + 1) == step(after_sends(s, k)));
        }
    }
}

} // verus!
