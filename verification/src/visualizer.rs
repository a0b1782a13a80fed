//! Pacing of the island equalizer.
//!
//! The shell captures the output mix, runs the spectrum analysis and smooths
//! the band levels (floating-point work that stays in the shell). Per frame it
//! tells this pacer whether the smoothed spectrum is silent and whether a band
//! moved visibly since the last frame sent; the pacer decides whether to send
//! the frame and how long to wait before the next one. Every frame sent makes
//! the transparent island recomposite, so silence is sent once and then the
//! analysis idles until sound returns.

use vstd::prelude::*;

verus! {

/// Consecutive silent frames after which the equalizer goes idle (~0.6 s).
pub open spec fn idle_after_frames() -> nat {
    30
}

/// The pacer's memory between frames.
pub struct VizPacer {
    quiet_frames: u32,
    sent_zero: bool,
}

/// The abstract state of the pacer.
pub struct VizPacerView {
    pub quiet_frames: nat,
    pub sent_zero: bool,
}

impl View for VizPacer {
    type V = VizPacerView;

    closed spec fn view(&self) -> VizPacerView {
        VizPacerView { quiet_frames: self.quiet_frames as nat, sent_zero: self.sent_zero }
    }
}

/// The decision for one frame.
#[derive(Debug, Clone, Copy, PartialEq, Eq, Structural)]
pub struct VizTick {
    /// Send this frame to the island.
    pub emit: bool,
    /// The equalizer is idle (silent long enough).
    pub idle: bool,
}

/// One frame: the silent-frame counter saturates at `u32::MAX` and restarts
/// on sound; once idle only one frame is sent (the zero frame), otherwise a
/// frame is sent when a band moved visibly.
pub open spec fn spec_frame(v: VizPacerView, quiet: bool, moved: bool) -> (VizPacerView, VizTick) {
    let quiet_frames = if quiet {
        if v.quiet_frames + 1 <= u32::MAX {
            v.quiet_frames + 1
        } else {
            v.quiet_frames
        }
    } else {
        0
    };
    let sent_zero = if quiet {
        v.sent_zero
    } else {
        false
    };
    let idle = quiet_frames > idle_after_frames();
    let emit = if idle {
        !sent_zero
    } else {
        moved
    };
    (VizPacerView { quiet_frames, sent_zero }, VizTick { emit, idle })
}

impl VizPacer {
    /// A pacer that has seen no frame.
    pub fn new() -> (r: VizPacer)
        ensures
            r@.quiet_frames == 0,
            !r@.sent_zero,
    {
        VizPacer { quiet_frames: 0, sent_zero: false }
    }

    /// Decide on one frame.
    pub fn frame(&mut self, quiet: bool, moved: bool) -> (r: VizTick)
        ensures
            (final(self)@, r) == spec_frame(old(self)@, quiet, moved),
    {
        if quiet {
            self.quiet_frames = self.quiet_frames.saturating_add(1);
        } else {
            self.quiet_frames = 0;
            self.sent_zero = false;
        }
        let idle = self.quiet_frames > 30;
        let emit = if idle {
            !self.sent_zero
        } else {
            moved
        };
        VizTick { emit, idle }
    }

    /// Record that the frame of `tick` reached the island.
    pub fn sent(&mut self, tick: VizTick)
        ensures
            final(self)@.quiet_frames == old(self)@.quiet_frames,
            final(self)@.sent_zero == (old(self)@.sent_zero || tick.idle),
    {
        if tick.idle {
            self.sent_zero = true;
        }
    }
}

/// Pause before the next analysis, in milliseconds: ~18 fps while active,
/// backing off hard when idle.
pub fn poll_delay_ms(idle: bool) -> (r: u64)
    ensures
        r == (if idle {
            200u64
        } else {
            55u64
        }),
{
    if idle {
        200
    } else {
        55
    }
}

/// Silence is sent once: after the zero frame went out, further silent frames
/// are not sent, however the bands move.
pub proof fn law_silence_sent_once(v: VizPacerView, moved: bool)
    requires
        v.quiet_frames > idle_after_frames(),
        v.sent_zero,
    ensures
        !spec_frame(v, true, moved).1.emit,
        spec_frame(v, true, moved).1.idle,
{
}

/// Sound ends idling at once: the next frame is sent exactly when a band moved.
pub proof fn law_sound_wakes_pacer(v: VizPacerView, moved: bool)
    ensures
        !spec_frame(v, false, moved).1.idle,
        spec_frame(v, false, moved).1.emit == moved,
        spec_frame(v, false, moved).0.quiet_frames == 0,
{
}

} // verus!
