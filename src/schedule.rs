use vstd::prelude::*;

verus! {

/// Least time between two steps of the machine, in microseconds.
pub const STEP_INTERVAL_US: u64 = 2_000;

/// Least time between two presented frames, in microseconds.
pub const FRAME_INTERVAL_US: u64 = 16_000;

/// What the host loop is to do on one pass.
#[derive(Clone, Copy, Debug, PartialEq, Eq, Structural)]
pub struct Actions {
    /// Run one step of the machine.
    pub step: bool,
    /// Present the framebuffer.
    pub draw: bool,
}

/// The pacing of steps and frames against a clock that the host supplies,
/// in microseconds. Once a step has failed no further step is asked for;
/// frames go on.
#[derive(Clone, Copy, Debug, PartialEq, Eq, Structural)]
pub struct Scheduler {
    pub last_step: u64,
    pub last_frame: u64,
    pub halted: bool,
}

/// Whether at least `interval` has passed from `since` to `now`.
pub open spec fn interval_passed(since: u64, now: u64, interval: u64) -> bool {
    now >= since + interval
}

impl Scheduler {
    /// A scheduler that starts counting both intervals at `now`.
    pub fn new(now: u64) -> (r: Scheduler)
        ensures
            r == (Scheduler { last_step: now, last_frame: now, halted: false }),
    {
        Scheduler { last_step: now, last_frame: now, halted: false }
    }

    /// Decides one pass of the host loop at time `now`: a step when the
    /// machine has not halted and a step interval has passed since the last
    /// step, a frame when a frame interval has passed since the last frame.
    /// Each chosen action restarts its interval at `now`.
    pub fn tick(&mut self, now: u64) -> (r: Actions)
        ensures
            r.step == (!old(self).halted && interval_passed(old(self).last_step, now, STEP_INTERVAL_US)),
            r.draw == interval_passed(old(self).last_frame, now, FRAME_INTERVAL_US),
            final(self).last_step == if r.step {
                now
            } else {
                old(self).last_step
            },
            final(self).last_frame == if r.draw {
                now
            } else {
                old(self).last_frame
            },
            final(self).halted == old(self).halted,
    {
        let step = !self.halted && now >= self.last_step && now - self.last_step >= STEP_INTERVAL_US;
        let draw = now >= self.last_frame && now - self.last_frame >= FRAME_INTERVAL_US;
        if step {
            self.last_step = now;
        }
        if draw {
            self.last_frame = now;
        }
        Actions { step, draw }
    }

    /// Records how a step went: a failed step halts stepping for good.
    pub fn step_done(&mut self, succeeded: bool)
        ensures
            final(self).halted == (old(self).halted || !succeeded),
            final(self).last_step == old(self).last_step,
            final(self).last_frame == old(self).last_frame,
    {
        if !succeeded {
            self.halted = true;
        }
    }
}

} // verus!
