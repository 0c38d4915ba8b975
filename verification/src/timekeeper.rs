//! Frame pacing in milliseconds. The clock is the caller's: every function
//! that needs the time takes the clock's reading as an argument.

use vstd::prelude::*;

verus! {

/// Frames per second that the engine aims at.
pub const FPS: u64 = 60;

/// Milliseconds that a frame should take.
pub const FRAME_TIME_TARGET: u64 = 1000 / FPS;

/// What a time keeper holds.
pub struct Timing {
    /// The clock's reading when the last frame began.
    pub ticks_last_frame: u64,
    /// Milliseconds between the last two frames.
    pub delta_time: u64,
    /// Milliseconds that a frame should take.
    pub frame_time_target: u64,
    /// Milliseconds still to wait before the next frame.
    pub wait_time: u64,
}

/// Milliseconds to wait at `current_ticks` for a frame that began at
/// `ticks_last_frame` to last `target`: the rest of the frame while there is
/// one, and without end if the clock has run backwards.
pub open spec fn wait_needed(ticks_last_frame: u64, target: u64, current_ticks: u64) -> u64 {
    if current_ticks < ticks_last_frame {
        u64::MAX
    } else if current_ticks - ticks_last_frame >= target {
        0
    } else {
        (target - (current_ticks - ticks_last_frame)) as u64
    }
}

/// Keeps the time of the last frame, and what was measured from it.
pub struct TimeKeeper {
    ticks_last_frame: u64,
    delta_time: u64,
    frame_time_target: u64,
    wait_time: u64,
}

impl View for TimeKeeper {
    type V = Timing;

    closed spec fn view(&self) -> Timing {
        Timing {
            ticks_last_frame: self.ticks_last_frame,
            delta_time: self.delta_time,
            frame_time_target: self.frame_time_target,
            wait_time: self.wait_time,
        }
    }
}

/// A time keeper at tick zero that aims at `FPS` frames a second.
pub open spec fn default_timing() -> Timing {
    Timing { ticks_last_frame: 0, delta_time: 0, frame_time_target: FRAME_TIME_TARGET, wait_time: 0 }
}

impl Default for TimeKeeper {
    fn default() -> (keeper: TimeKeeper)
        ensures
            keeper@ == default_timing(),
    {
        TimeKeeper {
            ticks_last_frame: 0,
            delta_time: 0,
            frame_time_target: FRAME_TIME_TARGET,
            wait_time: 0,
        }
    }
}

impl TimeKeeper {
    /// Records the clock's reading at which a frame begins.
    pub fn set_ticks(&mut self, ticks: u64)
        ensures
            final(self)@ == (Timing { ticks_last_frame: ticks, ..old(self)@ }),
    {
        self.ticks_last_frame = ticks;
    }

    /// The clock's reading when the last frame began.
    pub fn ticks(&self) -> (ticks: u64)
        ensures
            ticks == self@.ticks_last_frame,
    {
        self.ticks_last_frame
    }

    /// Milliseconds between the last two frames.
    pub fn delta_time(&self) -> (delta: u64)
        ensures
            delta == self@.delta_time,
    {
        self.delta_time
    }

    /// Records how long ago the last frame began. The clock must not have run
    /// backwards.
    pub fn calculate_delta(&mut self, current_ticks: u64)
        requires
            current_ticks >= old(self)@.ticks_last_frame,
        ensures
            final(self)@ == (Timing {
                delta_time: (current_ticks - old(self)@.ticks_last_frame) as u64,
                ..old(self)@
            }),
    {
        self.delta_time = current_ticks - self.ticks_last_frame;
    }

    /// Records how long the caller should still wait before the next frame.
    pub fn calculate_wait_time(&mut self, current_ticks: u64)
        ensures
            final(self)@ == (Timing {
                wait_time: wait_needed(
                    old(self)@.ticks_last_frame,
                    old(self)@.frame_time_target,
                    current_ticks,
                ),
                ..old(self)@
            }),
    {
        if let Some(w) = current_ticks.checked_sub(self.ticks_last_frame) {
            self.wait_time = self.frame_time_target.saturating_sub(w);
        } else {
            self.wait_time = u64::MAX;
        }
    }

    /// Milliseconds that a frame should take.
    pub fn frame_time(&self) -> (target: u64)
        ensures
            target == self@.frame_time_target,
    {
        self.frame_time_target
    }

    /// Milliseconds still to wait, as last recorded.
    pub fn wait_time(&self) -> (wait: u64)
        ensures
            wait == self@.wait_time,
    {
        self.wait_time
    }
}

} // verus!
