//! What the audio callback reports to ordinary threads, and the frame accounting of one
//! callback.
use vstd::prelude::*;
use std::sync::atomic::{AtomicBool, AtomicU64};

verus! {

/// Counters published by the audio callback and read by ordinary threads. Atomics only:
/// the callback must never block a reader, and a reader must never block the callback.
#[derive(Debug)]
pub struct OutputStats {
    /// Frames actually carrying decoded audio.
    pub frames_played: AtomicU64,
    /// Frames the callback had to fill with silence because the ring was dry.
    pub frames_underrun: AtomicU64,
    /// Set once the callback has consumed at least one real frame. This, not a successful
    /// HTTP response, is what confirms playback.
    pub started: AtomicBool,
    /// Set when the backend reports a stream error, so an output failure can be told
    /// apart from network starvation.
    pub output_failed: AtomicBool,
}

impl OutputStats {
    /// Counters at zero, nothing started, nothing failed.
    pub fn new() -> (r: Self) {
        OutputStats {
            frames_played: AtomicU64::new(0),
            frames_underrun: AtomicU64::new(0),
            started: AtomicBool::new(false),
            output_failed: AtomicBool::new(false),
        }
    }

    /// The four values as last published: frames played, frames underrun, started,
    /// failed. Each is read on its own; another thread may publish in between.
    pub fn snapshot(&self) -> (r: (u64, u64, bool, bool)) {
        (
            self.frames_played.load(std::sync::atomic::Ordering::Relaxed),
            self.frames_underrun.load(std::sync::atomic::Ordering::Relaxed),
            self.started.load(std::sync::atomic::Ordering::Relaxed),
            self.output_failed.load(std::sync::atomic::Ordering::Relaxed),
        )
    }
}

/// What one callback adds to the counters: the real frames as played, the rest of the
/// callback as underrun, and whether playback is now confirmed.
pub struct CallbackAccount {
    pub played: u64,
    pub underrun: u64,
    pub confirms_playback: bool,
}

/// Accounts for a callback that asked for `total_frames` and found `real_frames` of them
/// in the ring. A callback larger than the scratch buffer is silence throughout.
pub fn account_callback(total_frames: usize, real_frames: usize, oversized: bool) -> (r: CallbackAccount)
    requires
        real_frames <= total_frames,
    ensures
        oversized ==> r.played == 0 && r.underrun == total_frames && !r.confirms_playback,
        !oversized ==> r.played == real_frames && r.underrun == total_frames - real_frames
            && r.confirms_playback == (real_frames > 0),
{
    if oversized {
        return CallbackAccount { played: 0, underrun: total_frames as u64, confirms_playback: false };
    }
    CallbackAccount {
        played: real_frames as u64,
        underrun: (total_frames - real_frames) as u64,
        confirms_playback: real_frames > 0,
    }
}

} // verus!
