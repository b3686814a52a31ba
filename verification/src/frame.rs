use vstd::prelude::*;

verus! {

/// Simulation steps per second.
pub const FPS: u128 = 240;

/// Length of one simulation step, in nanoseconds.
pub const STEP_NS: u128 = 4166666;

/// A frame runs its steps until this many have been taken; the step that
/// goes over the budget still runs but ends the frame.
pub const MAX_STEPS: u32 = 8;

/// Fixed-rate stepping: the wall-clock time seen at the last frame, the time
/// not yet simulated, and the steps taken in the current frame.
pub struct FrameClock {
    pub prev_ns: u128,
    pub dt: u128,
    pub steps: u32,
}

/// The clock after a step is asked for, and whether one is due: a step is
/// due while more than one step of time is waiting, and it takes that time.
pub open spec fn spec_next_step(c: FrameClock) -> (FrameClock, bool) {
    if c.dt > STEP_NS {
        (FrameClock { dt: (c.dt - STEP_NS) as u128, ..c }, true)
    } else {
        (c, false)
    }
}

impl FrameClock {
    /// A clock started at time 0 with nothing waiting.
    pub fn new() -> (c: FrameClock)
        ensures
            c.prev_ns == 0 && c.dt == 0 && c.steps == 0,
    {
        FrameClock { prev_ns: 0, dt: 0, steps: 0 }
    }

    /// Starts a frame at time `ns` (nanoseconds since the clock started): the
    /// time since the last frame is added to the time waiting.
    pub fn begin_frame(&mut self, ns: u128)
        requires
            old(self).prev_ns <= ns,
            old(self).dt + (ns - old(self).prev_ns) <= u128::MAX,
        ensures
            final(self).dt == old(self).dt + (ns - old(self).prev_ns),
            final(self).prev_ns == ns,
            final(self).steps == 0,
    {
        self.dt = self.dt + (ns - self.prev_ns);
        self.prev_ns = ns;
        self.steps = 0;
    }

    /// Whether a simulation step is due now; a due step takes its time off the waiting time.
    pub fn next_step(&mut self) -> (due: bool)
        ensures
            (*final(self), due) == spec_next_step(*old(self)),
    {
        if self.dt > STEP_NS {
            self.dt = self.dt - STEP_NS;
            true
        } else {
            false
        }
    }

    /// Counts a finished step; returns whether the frame has used up its steps.
    pub fn end_step(&mut self) -> (over: bool)
        requires
            old(self).steps < u32::MAX,
        ensures
            final(self).steps == old(self).steps + 1,
            final(self).dt == old(self).dt,
            final(self).prev_ns == old(self).prev_ns,
            over == (final(self).steps > MAX_STEPS),
    {
        self.steps = self.steps + 1;
        self.steps > MAX_STEPS
    }
}

/// The round timer after a step: it runs while the round is neither over
/// nor still waiting in the start area.
pub fn count_round_time(ticks: &mut i32, ended: bool, waiting: bool)
    requires
        !ended && !waiting ==> *old(ticks) < i32::MAX,
    ensures
        *final(ticks) == if !ended && !waiting { *old(ticks) + 1 } else { *old(ticks) as int },
{
    if !ended {
        if !waiting {
            *ticks = *ticks + 1;
        }
    }
}

/// Stepping loses no time: a due step takes exactly one step of time off
/// the waiting time, and when no step is due at most one step of time waits.
pub proof fn lemma_stepping_keeps_time(c: FrameClock)
    ensures
        spec_next_step(c).1 ==> spec_next_step(c).0.dt + STEP_NS == c.dt,
        !spec_next_step(c).1 ==> spec_next_step(c).0.dt == c.dt && c.dt <= STEP_NS,
        spec_next_step(c).0.prev_ns == c.prev_ns && spec_next_step(c).0.steps == c.steps,
{
}

/// What a client sends to the server at a step besides its key events.
#[derive(Clone, Copy, Debug, PartialEq, Eq, Structural)]
pub struct SyncPlan {
    /// Ask for the whole world (every 32 steps).
    pub request_world: bool,
    /// Send its own player (every 12 steps).
    pub send_player: bool,
}

/// What a client sends at step number `step`.
pub fn sync_plan(step: u64) -> (p: SyncPlan)
    ensures
        p.request_world == (step % 32 == 0),
        p.send_player == (step % 12 == 0),
{
    SyncPlan { request_world: step % 32 == 0, send_player: step % 12 == 0 }
}

/// A step lasts a 240th of a second (rounded down to whole nanoseconds), and
/// one is due exactly when more than that much time is waiting.
pub proof fn lemma_step_due(c: FrameClock)
    ensures
        STEP_NS == 1_000_000_000u128 / 240,
        spec_next_step(c).1 <==> c.dt > 1_000_000_000u128 / 240,
{
}

} // verus!
