//! Countdown timers that gate firing and scrolling, in nanoseconds. Each
//! tick is computed by bevy's `Timer`.
use vstd::prelude::*;
use std::time::Duration;
use bevy::time as clock;

verus! {

#[derive(Clone, Copy, Debug, PartialEq, Eq, Structural)]
pub enum TimerMode {
    /// Runs up to its duration once and stays finished.
    Once,
    /// Starts over each time it reaches its duration.
    Repeating,
}

/// A timer of `duration_ns`, of which `elapsed_ns` have passed; `finished`
/// says whether it reached its duration (a one-shot timer: ever; a
/// repeating one: in the last tick).
#[derive(Clone, Copy, Debug, PartialEq, Eq, Structural)]
pub struct Timer {
    pub duration_ns: u64,
    pub elapsed_ns: u64,
    pub mode: TimerMode,
    pub finished: bool,
}

/// Nanoseconds in a millisecond.
pub const NANOS_PER_MILLI: u64 = 1_000_000;

/// Relies on bevy's `Timer::tick`, on a running timer made by `Timer::new`
/// and `Timer::set_elapsed` and read back by `elapsed` and `finished`: the
/// elapsed time grows by `delta`; the timer is finished when that reaches
/// the duration, and then a repeating timer keeps the remainder while a
/// one-shot timer stops at its duration.
#[verifier::external_body]
fn bevy_timer_tick(duration_ns: u64, elapsed_ns: u64, repeating: bool, delta_ns: u64) -> (r: (
    u64,
    bool,
))
    requires
        duration_ns > 0,
        elapsed_ns < duration_ns,
    ensures
        r.1 == (elapsed_ns + delta_ns >= duration_ns),
        repeating ==> r.0 == (elapsed_ns + delta_ns) % (duration_ns as int),
        !repeating ==> r.0 == if r.1 {
            duration_ns as int
        } else {
            elapsed_ns + delta_ns
        },
{
    let mode = if repeating { clock::TimerMode::Repeating } else { clock::TimerMode::Once };
    let mut t = clock::Timer::new(Duration::from_nanos(duration_ns), mode);
    t.set_elapsed(Duration::from_nanos(elapsed_ns));
    t.tick(Duration::from_nanos(delta_ns));
    (t.elapsed().as_nanos() as u64, t.finished())
}

impl Timer {
    pub open spec fn wf(self) -> bool {
        &&& self.duration_ns > 0
        &&& self.elapsed_ns <= self.duration_ns
        &&& self.mode == TimerMode::Repeating ==> self.elapsed_ns < self.duration_ns
        &&& self.mode == TimerMode::Once ==> (self.finished <==> self.elapsed_ns
            == self.duration_ns)
    }

    pub fn from_millis(duration_ms: u64, mode: TimerMode) -> (r: Timer)
        requires
            0 < duration_ms, duration_ms * NANOS_PER_MILLI <= u64::MAX,
        ensures
            r.wf(),
            r.duration_ns == duration_ms * NANOS_PER_MILLI,
            r.elapsed_ns == 0,
            r.mode == mode,
            !r.finished,
    {
        Timer { duration_ns: duration_ms * NANOS_PER_MILLI, elapsed_ns: 0, mode, finished: false }
    }

    pub fn finished(&self) -> (r: bool)
        ensures
            r == self.finished,
    {
        self.finished
    }

    /// Advances the timer by `delta_ns`; returns whether it reached its
    /// duration during this tick. A repeating timer keeps the remainder; a
    /// one-shot timer stops at its duration and does not finish again.
    pub fn tick(&mut self, delta_ns: u64) -> (just_finished: bool)
        requires
            old(self).wf(),
        ensures
            final(self).wf(),
            final(self).duration_ns == old(self).duration_ns,
            final(self).mode == old(self).mode,
            old(self).mode == TimerMode::Repeating ==> final(self).elapsed_ns == (
            old(self).elapsed_ns + delta_ns) % (old(self).duration_ns as int) && just_finished == (
            old(self).elapsed_ns + delta_ns >= old(self).duration_ns) && final(self).finished
                == just_finished,
            old(self).mode == TimerMode::Once ==> final(self).elapsed_ns == if old(self).elapsed_ns
                + delta_ns >= old(self).duration_ns {
                old(self).duration_ns as int
            } else {
                old(self).elapsed_ns + delta_ns
            } && just_finished == (old(self).elapsed_ns < old(self).duration_ns
                <= old(self).elapsed_ns + delta_ns),
    {
        if self.mode == TimerMode::Once && self.finished {
            return false;
        }
        let repeating = self.mode == TimerMode::Repeating;
        let (elapsed, finished) = bevy_timer_tick(
            self.duration_ns,
            self.elapsed_ns,
            repeating,
            delta_ns,
        );
        self.elapsed_ns = elapsed;
        self.finished = finished;
        finished
    }
}

} // verus!
