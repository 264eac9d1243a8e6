//! Countdown timers that gate attacks and skills, in microseconds.

use vstd::prelude::*;

verus! {

/// What is left of a cooldown of `remaining` after `dt` has passed: it stops
/// at zero.
pub open spec fn ticked(remaining: u32, dt: u32) -> u32 {
    if remaining > dt {
        (remaining - dt) as u32
    } else {
        0
    }
}

/// What is left of a cooldown after `n` ticks of `dt` each.
pub open spec fn ticked_times(remaining: u32, dt: u32, n: nat) -> u32
    decreases n,
{
    if n == 0 {
        remaining
    } else {
        ticked(ticked_times(remaining, dt, (n - 1) as nat), dt)
    }
}

/// Any number of ticks of no time leave a cooldown as it was.
pub proof fn lemma_tick_zero_is_noop(remaining: u32, n: nat)
    ensures
        ticked_times(remaining, 0, n) == remaining,
    decreases n,
{
    if n > 0 {
        lemma_tick_zero_is_noop(remaining, (n - 1) as nat);
    }
}

/// Two ticks count down as one tick of their sum does.
pub proof fn lemma_ticks_add(remaining: u32, a: u32, b: u32)
    requires
        a + b <= u32::MAX,
    ensures
        ticked(ticked(remaining, a), b) == ticked(remaining, (a + b) as u32),
{
}

/// A countdown: ready when nothing remains.
#[derive(Clone, Copy, Debug, PartialEq, Eq, Structural)]
pub struct Cooldown {
    pub remaining: u32,
}

impl Cooldown {
    /// A cooldown that is ready.
    pub fn new() -> (c: Cooldown)
        ensures
            c.remaining == 0,
    {
        Cooldown { remaining: 0 }
    }

    /// Counts down by `dt`, stopping at zero.
    pub fn tick(&mut self, dt: u32)
        ensures
            final(self).remaining == ticked(old(self).remaining, dt),
    {
        if self.remaining > dt {
            self.remaining = self.remaining - dt;
        } else {
            self.remaining = 0;
        }
    }

    pub fn is_ready(&self) -> (b: bool)
        ensures
            b == (self.remaining == 0),
    {
        self.remaining == 0
    }

    /// Starts the countdown at `duration`. It does not ask whether the
    /// cooldown is ready: callers do.
    pub fn trigger(&mut self, duration: u32)
        ensures
            final(self).remaining == duration,
    {
        self.remaining = duration;
    }
}

/// The cooldowns of one actor, one for each attack channel.
#[derive(Clone, Copy, Debug, PartialEq, Eq, Structural)]
pub struct AttackState {
    pub basic_cooldown: Cooldown,
    pub slash_cooldown: Cooldown,
}

impl AttackState {
    /// Both channels ready.
    pub fn new() -> (s: AttackState)
        ensures
            s.basic_cooldown.remaining == 0,
            s.slash_cooldown.remaining == 0,
    {
        AttackState { basic_cooldown: Cooldown::new(), slash_cooldown: Cooldown::new() }
    }

    /// Counts every channel down by `dt`.
    pub fn tick(&mut self, dt: u32)
        ensures
            final(self).basic_cooldown.remaining == ticked(old(self).basic_cooldown.remaining, dt),
            final(self).slash_cooldown.remaining == ticked(old(self).slash_cooldown.remaining, dt),
    {
        self.basic_cooldown.tick(dt);
        self.slash_cooldown.tick(dt);
    }
}

} // verus!
