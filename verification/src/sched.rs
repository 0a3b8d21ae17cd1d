//! The cycle scheduler's decisions: what is due at a given clock reading.
//! The driving loop owns the clock and the pacing; this type owns the
//! decision of what to run at a given instant, so the cadence logic is
//! testable with any clock values.

use vstd::prelude::*;

verus! {

/// Nanoseconds between timer decrements: the 60 Hz cadence.
pub const TIMER_INTERVAL_NS: u128 = 16_666_667;

/// Decides, from clock readings, when the timers decrement and when an
/// instruction executes. Timers tick at the fixed cadence; instructions run
/// at the configured interval, or on an explicit manual trigger in
/// single-step mode.
pub struct Scheduler {
    /// Nanoseconds between instruction executions.
    pub instruction_interval: u128,
    /// Single-step mode: instructions run on the manual trigger alone.
    pub debug: bool,
    /// Clock reading at the last instruction execution.
    pub last_instruction: u128,
    /// Clock reading at the last timer decrement.
    pub last_timer_tick: u128,
}

impl Scheduler {
    /// A scheduler as of clock reading `now`, with nothing due yet.
    pub fn new(instruction_interval: u128, debug: bool, now: u128) -> (s: Scheduler)
        ensures
            s == (Scheduler {
                instruction_interval,
                debug,
                last_instruction: now,
                last_timer_tick: now,
            }),
    {
        Scheduler { instruction_interval, debug, last_instruction: now, last_timer_tick: now }
    }

    /// What is due at clock reading `now`: `r.0` says the timers decrement
    /// (elapsed time reached the cadence), `r.1` says one instruction
    /// executes (the manual trigger in single-step mode, elapsed time
    /// reaching the configured interval otherwise). Each granted part
    /// re-arms its own clock. The clock must not run backwards.
    pub fn plan(&mut self, now: u128, manual_step: bool) -> (r: (bool, bool))
        requires
            now >= old(self).last_instruction,
            now >= old(self).last_timer_tick,
        ensures
            r.0 == (now - old(self).last_timer_tick >= TIMER_INTERVAL_NS),
            r.1 == (if old(self).debug {
                manual_step
            } else {
                now - old(self).last_instruction >= old(self).instruction_interval
            }),
            final(self).last_timer_tick == (if r.0 {
                now
            } else {
                old(self).last_timer_tick
            }),
            final(self).last_instruction == (if r.1 && !old(self).debug {
                now
            } else {
                old(self).last_instruction
            }),
            final(self).instruction_interval == old(self).instruction_interval,
            final(self).debug == old(self).debug,
    {
        let run_timers = now - self.last_timer_tick >= TIMER_INTERVAL_NS;
        if run_timers {
            self.last_timer_tick = now;
        }
        let run_instruction = if self.debug {
            manual_step
        } else {
            now - self.last_instruction >= self.instruction_interval
        };
        if run_instruction && !self.debug {
            self.last_instruction = now;
        }
        (run_timers, run_instruction)
    }
}

} // verus!
