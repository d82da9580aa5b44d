use vstd::prelude::*;

verus! {

/// Whether enough ticks have passed since the previously recorded frame for
/// the next frame to begin: the timer has not gone backwards, and at least
/// `target` ticks lie between `prev` and `now`.
pub open spec fn pacing_elapsed(prev: u32, target: u32, now: u32) -> bool {
    now >= prev && now - prev >= target
}

/// The frame-pacing clock: the sole throttling mechanism of a session. It
/// holds the fixed minimum number of timer ticks a frame must last and the
/// tick count recorded when the previous frame's wait completed. The caller
/// polls `wait_done` with fresh tick readings, sleeping in small increments,
/// and calls `record` once the wait has elapsed.
pub struct FrameClock {
    target_ticks_per_frame: u32,
    ticks_at_previous_frame: u32,
}

impl FrameClock {
    /// The minimum number of ticks between two completed frames, fixed at
    /// construction.
    pub closed spec fn target(&self) -> u32 {
        self.target_ticks_per_frame
    }

    /// The tick count recorded when the previous frame's wait completed.
    pub closed spec fn prev(&self) -> u32 {
        self.ticks_at_previous_frame
    }

    pub fn new(target_ticks_per_frame: u32) -> (c: FrameClock)
        ensures
            c.target() == target_ticks_per_frame,
            c.prev() == 0,
    {
        FrameClock { target_ticks_per_frame, ticks_at_previous_frame: 0 }
    }

    /// Whether the pacing wait is over at tick count `now`. A reading from
    /// before the previously recorded frame counts as not yet elapsed.
    pub fn wait_done(&self, now: u32) -> (r: bool)
        ensures
            r == pacing_elapsed(self.prev(), self.target(), now),
    {
        now >= self.ticks_at_previous_frame
            && now - self.ticks_at_previous_frame >= self.target_ticks_per_frame
    }

    /// Record the completion of a frame's pacing wait at tick count `now`.
    /// May only be called once the wait has elapsed, which the caller's
    /// polling loop establishes by calling `wait_done`.
    pub fn record(&mut self, now: u32)
        requires
            pacing_elapsed(old(self).prev(), old(self).target(), now),
        ensures
            final(self).prev() == now,
            final(self).target() == old(self).target(),
    {
        self.ticks_at_previous_frame = now;
    }
}

/// The pacing lower bound: whenever a frame's wait completes at `now2` and
/// the previous frame's wait completed at `now1`, the two completions are at
/// least `target` ticks apart; equality is allowed, less never happens.
pub proof fn lemma_pacing_lower_bound(target: u32, now1: u32, now2: u32)
    requires
        pacing_elapsed(now1, target, now2),
    ensures
        now2 - now1 >= target,
{
}

} // verus!
