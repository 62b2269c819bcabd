//! Decisions of the capture and mic-test loops: which device samples are
//! buffered, when a 20 ms chunk is ready, when a level reading is due, and
//! the stop request of a running mic test.
use std::sync::atomic::{AtomicBool, Ordering};
use std::sync::Arc;
use vstd::prelude::*;
use crate::types::AudioDevice;

verus! {

/// Samples of one noise-suppression sub-frame; a 960-sample frame holds two.
pub const DENOISE_FRAME: usize = 480;

/// Frames between two level readings of the mic test (about every 50 ms).
pub const LEVEL_EVERY: u32 = 3;

/// Samples the input callback buffers out of `incoming` when the ring has
/// `vacant` free slots: none while muted, otherwise as many as fit.
pub open spec fn buffered_spec(muted: bool, incoming: nat, vacant: nat) -> nat {
    if muted {
        0
    } else if incoming <= vacant {
        incoming
    } else {
        vacant
    }
}

/// Samples the input callback buffers. Muted audio is discarded entirely, so
/// no frame is produced from it, not even a silent one.
pub fn buffered_samples(muted: bool, incoming: usize, vacant: usize) -> (r: usize)
    ensures
        r == buffered_spec(muted, incoming as nat, vacant as nat),
{
    if muted {
        0
    } else if incoming <= vacant {
        incoming
    } else {
        vacant
    }
}

/// Whether the ring holds a full 20 ms chunk of `chunk` interleaved samples.
pub fn chunk_ready(occupied: usize, chunk: usize) -> (r: bool)
    ensures
        r == (occupied >= chunk),
{
    occupied >= chunk
}

/// Ring occupancy after the input callbacks deliver `chunks`, in order,
/// with the mute flag at `muted` and nothing consumed meanwhile.
pub open spec fn occupancy_after(occupied: nat, capacity: nat, muted: bool, chunks: Seq<nat>) -> nat
    decreases chunks.len(),
{
    if chunks.len() == 0 {
        occupied
    } else {
        let o = occupancy_after(occupied, capacity, muted, chunks.drop_last());
        o + buffered_spec(muted, chunks.last(), (capacity - o) as nat)
    }
}

/// While muted, no input reaches the ring: whatever the callbacks deliver,
/// the occupancy stays where it was, so no frame is ever made of muted audio,
/// and a ring that held less than one chunk produces no frame at all. After
/// unmuting, one chunk's worth of input (20 ms) makes a chunk ready as long
/// as the ring has room for it.
pub proof fn lemma_mute_gates_frames(occupied: nat, capacity: nat, chunk: nat, chunks: Seq<nat>, incoming: nat)
    ensures
        occupancy_after(occupied, capacity, true, chunks) == occupied,
        occupied < chunk ==> occupancy_after(occupied, capacity, true, chunks) < chunk,
        incoming >= chunk && capacity >= occupied + chunk ==> occupied + buffered_spec(
            false,
            incoming,
            (capacity - occupied) as nat,
        ) >= chunk,
    decreases chunks.len(),
{
    if chunks.len() > 0 {
        lemma_mute_gates_frames(occupied, capacity, chunk, chunks.drop_last(), incoming);
    }
}

/// The device list for the microphone selector: one entry per device name,
/// in order, marked default exactly when its name is the default device's.
pub fn describe_devices(names: Vec<String>, default_name: Option<String>) -> (r: Vec<AudioDevice>)
    ensures
        r@.len() == names@.len(),
        forall|i: int|
            0 <= i < names@.len() ==> {
                &&& (#[trigger] r@[i]).name == names@[i]
                &&& r@[i].is_default == (default_name matches Some(d) && d@ == names@[i]@)
            },
{
    let mut r: Vec<AudioDevice> = Vec::new();
    let mut i: usize = 0;
    while i < names.len()
        invariant
            i <= names@.len(),
            r@.len() == i,
            forall|j: int|
                0 <= j < i ==> {
                    &&& (#[trigger] r@[j]).name == names@[j]
                    &&& r@[j].is_default == (default_name matches Some(d) && d@ == names@[j]@)
                },
        decreases names@.len() - i,
    {
        let name = names[i].clone();
        let is_default = match &default_name {
            Some(d) => *d == name,
            None => false,
        };
        r.push(AudioDevice { name, is_default });
        i = i + 1;
    }
    r
}

/// The mic test's cadence of level readings: one every `LEVEL_EVERY` frames.
pub struct LevelMeter {
    pub frames: u32,
}

impl LevelMeter {
    /// A meter at the start of a cadence.
    pub fn new() -> (r: LevelMeter)
        ensures
            r.frames == 0,
    {
        LevelMeter { frames: 0 }
    }

    /// Counts one processed frame; true when a level reading is due.
    pub fn tick(&mut self) -> (due: bool)
        requires
            old(self).frames < LEVEL_EVERY,
        ensures
            due == (old(self).frames + 1 >= LEVEL_EVERY),
            final(self).frames == if due { 0 } else { old(self).frames + 1 },
            final(self).frames < LEVEL_EVERY,
    {
        self.frames = self.frames + 1;
        if self.frames >= LEVEL_EVERY {
            self.frames = 0;
            true
        } else {
            false
        }
    }
}

/// Handle of a running mic test: a stop request shared with its loop. The
/// flag is a relaxed atomic; the loop sees it at its next frame.
pub struct MicTest {
    stop: Arc<AtomicBool>,
}

impl MicTest {
    /// A handle whose stop request is `stop`, the flag the loop polls.
    pub fn with_stop_flag(stop: Arc<AtomicBool>) -> (r: MicTest) {
        MicTest { stop }
    }

    /// Asks the mic-test loop to end.
    pub fn stop(&self) {
        self.stop.store(true, Ordering::Relaxed);
    }
}

impl Drop for MicTest {
    /// A dropped handle stops its mic test.
    fn drop(&mut self)
        opens_invariants none
        no_unwind
    {
        raise_flag(&self.stop);
    }
}

/// Relies on `AtomicBool::store`, which neither panics nor blocks: sets the
/// flag with relaxed ordering. A drop handler may only call code that cannot
/// unwind, which the general specification of `store` does not promise.
#[verifier::external_body]
fn raise_flag(flag: &AtomicBool)
    opens_invariants none
    no_unwind
{
    flag.store(true, Ordering::Relaxed);
}

} // verus!
