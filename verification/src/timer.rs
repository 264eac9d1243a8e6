//! Periodic timers, kept by the engine's `Timer`.

use vstd::prelude::*;

verus! {

/// The engine's timer, carried through as an opaque value.
#[verifier::external_type_specification]
#[verifier::external_body]
pub struct ExTimer(bevy::time::Timer);

/// Nanoseconds that a timer has run since it last fired: what
/// `Timer::elapsed` gives.
pub uninterp spec fn timer_elapsed(t: bevy::time::Timer) -> nat;

/// Nanoseconds between two firings of a timer: what `Timer::duration`
/// gives.
pub uninterp spec fn timer_period(t: bevy::time::Timer) -> nat;

/// Whether a timer is of the repeating mode and is not paused.
pub uninterp spec fn timer_repeats(t: bevy::time::Timer) -> bool;

/// Nanoseconds in one millisecond.
pub const NANOS_PER_MILLI: u64 = 1_000_000;

/// Nanoseconds in one microsecond.
pub const NANOS_PER_MICRO: u64 = 1_000;

/// `Timer::new` with `TimerMode::Repeating`: a running, repeating timer that
/// has not run yet and fires every `period_ms` milliseconds.
#[verifier::external_body]
pub(crate) fn new_repeating(period_ms: u32) -> (t: bevy::time::Timer)
    ensures
        timer_repeats(t),
        timer_elapsed(t) == 0,
        timer_period(t) == period_ms as nat * NANOS_PER_MILLI as nat,
{
    bevy::time::Timer::new(
        std::time::Duration::from_millis(period_ms as u64),
        bevy::time::TimerMode::Repeating,
    )
}

/// `Timer::tick` followed by `Timer::just_finished`, on a running repeating
/// timer: the time that has run grows by `delta_us` microseconds; the timer
/// fires when that reaches the period, and keeps the remainder. The call
/// does not panic.
#[verifier::external_body]
pub(crate) fn tick(t: &mut bevy::time::Timer, delta_us: u32) -> (fired: bool)
    requires
        timer_repeats(*old(t)),
        timer_elapsed(*old(t)) <= timer_period(*old(t)) <= u32::MAX as nat * NANOS_PER_MILLI as nat,
        timer_period(*old(t)) % NANOS_PER_MILLI as nat == 0,
    ensures
        timer_repeats(*final(t)),
        timer_period(*final(t)) == timer_period(*old(t)),
        fired == (timer_elapsed(*old(t)) + delta_us as nat * NANOS_PER_MICRO as nat
            >= timer_period(*old(t))),
        timer_period(*old(t)) == 0 ==> timer_elapsed(*final(t)) == 0,
        timer_period(*old(t)) > 0 ==> timer_elapsed(*final(t)) == (timer_elapsed(*old(t))
            + delta_us as nat * NANOS_PER_MICRO as nat) % timer_period(*old(t)),
    no_unwind
{
    t.tick(std::time::Duration::from_micros(delta_us as u64)).just_finished()
}

/// A timer that fires every so many milliseconds and carries what is left
/// over into the next period.
pub struct PeriodicTimer {
    timer: bevy::time::Timer,
}

impl PeriodicTimer {
    #[verifier::type_invariant]
    spec fn inv(self) -> bool {
        &&& timer_repeats(self.timer)
        &&& timer_elapsed(self.timer) <= timer_period(self.timer)
        &&& timer_period(self.timer) <= u32::MAX as nat * NANOS_PER_MILLI as nat
        &&& timer_period(self.timer) % NANOS_PER_MILLI as nat == 0
    }

    /// Nanoseconds run since the timer last fired.
    pub closed spec fn elapsed(self) -> nat {
        timer_elapsed(self.timer)
    }

    /// Nanoseconds between two firings.
    pub closed spec fn period(self) -> nat {
        timer_period(self.timer)
    }

    /// Whether the timer fires when `dt` microseconds pass.
    pub open spec fn fires(self, dt: u32) -> bool {
        self.elapsed() + dt as nat * NANOS_PER_MICRO as nat >= self.period()
    }

    /// Nanoseconds run since the last firing, once `dt` microseconds have
    /// passed.
    pub open spec fn elapsed_after(self, dt: u32) -> nat {
        if self.period() == 0 {
            0
        } else {
            (self.elapsed() + dt as nat * NANOS_PER_MICRO as nat) % self.period()
        }
    }

    /// A timer that fires every `period_ms` milliseconds, counted from now.
    pub fn new(period_ms: u32) -> (t: PeriodicTimer)
        ensures
            t.elapsed() == 0,
            t.period() == period_ms as nat * NANOS_PER_MILLI as nat,
    {
        let timer = new_repeating(period_ms);
        assert(timer_period(timer) % NANOS_PER_MILLI as nat == 0) by (nonlinear_arith)
            requires
                timer_period(timer) == period_ms as nat * NANOS_PER_MILLI as nat,
                NANOS_PER_MILLI == 1_000_000,
        ;
        assert(timer_period(timer) <= u32::MAX as nat * NANOS_PER_MILLI as nat) by (nonlinear_arith)
            requires
                timer_period(timer) == period_ms as nat * NANOS_PER_MILLI as nat,
                period_ms <= u32::MAX,
        ;
        PeriodicTimer { timer }
    }

    /// Lets `dt` microseconds pass and says whether the timer fired.
    pub fn tick(&mut self, dt: u32) -> (fired: bool)
        ensures
            fired == old(self).fires(dt),
            final(self).elapsed() == old(self).elapsed_after(dt),
            final(self).period() == old(self).period(),
    {
        proof {
            use_type_invariant(&*self);
        }
        let fired = tick(&mut self.timer, dt);
        proof {
            let period = timer_period(self.timer) as int;
            if period > 0 {
                let run = (timer_elapsed(old(self).timer) + dt as nat * NANOS_PER_MICRO as nat) as int;
                assert(0 <= run % period < period) by (nonlinear_arith)
                    requires
                        period > 0,
                ;
            }
        }
        fired
    }
}

} // verus!
