//! Hit points of an actor, in thousandths of a hit point.

use vstd::prelude::*;

verus! {

/// Parts in the ratio of a full health bar.
pub const FULL_RATIO: u32 = 1_000_000;

/// Hit points of an actor. Damage may take `current` below zero until the
/// owner clamps it or removes the actor.
#[derive(Clone, Copy, Debug, PartialEq, Eq, Structural)]
pub struct Health {
    pub current: i64,
    pub max: i64,
}

impl Health {
    /// The maximum is positive and `current` lies between zero and it.
    pub open spec fn wf(self) -> bool {
        0 < self.max && 0 <= self.current <= self.max
    }

    /// This health after `amount` of damage, without clamping; it stops at
    /// the least value that the field can hold.
    pub open spec fn damaged(self, amount: u64) -> Health {
        Health {
            current: if self.current - amount >= i64::MIN {
                (self.current - amount) as i64
            } else {
                i64::MIN
            },
            max: self.max,
        }
    }

    /// This health with `current` brought into the range from zero to `max`.
    pub open spec fn clamped(self) -> Health {
        Health {
            current: if self.current > self.max {
                self.max
            } else if self.current < 0 {
                0
            } else {
                self.current
            },
            max: self.max,
        }
    }

    /// This health after each damage of `amounts` in turn, without clamping.
    pub open spec fn damaged_by_all(self, amounts: Seq<u64>) -> Health
        decreases amounts.len(),
    {
        if amounts.len() == 0 {
            self
        } else {
            self.damaged_by_all(amounts.drop_last()).damaged(amounts.last())
        }
    }

    /// The terminal condition: no hit points are left.
    pub open spec fn dead(self) -> bool {
        self.current <= 0
    }

    /// Damaged but alive: the state in which an actor shows a health bar.
    pub open spec fn damaged_alive(self) -> bool {
        0 < self.current < self.max
    }

    /// `current / max` in millionths, rounded down, between empty and full.
    pub open spec fn spec_ratio(self) -> int {
        if self.max <= 0 || self.current <= 0 {
            0
        } else if self.current >= self.max {
            FULL_RATIO as int
        } else {
            self.current * FULL_RATIO / (self.max as int)
        }
    }

    /// Full health of `max`.
    pub fn new(max: i64) -> (h: Health)
        ensures
            h == (Health { current: max, max }),
    {
        Health { current: max, max }
    }

    /// The health that a saved game gives: a maximum of at least one hit
    /// point, and `current` between zero and that.
    pub fn restored(current: i64, max: i64) -> (h: Health)
        ensures
            h.max == (if max < 1000 {
                1000
            } else {
                max
            }),
            h == (Health { current, max: h.max }).clamped(),
            h.wf(),
    {
        let mut h = Health { current, max: if max < 1000 { 1000 } else { max } };
        h.clamp();
        h
    }

    /// Takes `amount` off `current`, without clamping.
    pub fn apply_damage(&mut self, amount: u64)
        ensures
            *final(self) == old(self).damaged(amount),
    {
        let after: i128 = self.current as i128 - amount as i128;
        if after >= i64::MIN as i128 {
            self.current = after as i64;
        } else {
            self.current = i64::MIN;
        }
    }

    /// Brings `current` into the range from zero to `max`.
    pub fn clamp(&mut self)
        ensures
            *final(self) == old(self).clamped(),
            old(self).max > 0 ==> final(self).wf(),
    {
        if self.current > self.max {
            self.current = self.max;
        } else if self.current < 0 {
            self.current = 0;
        }
    }

    pub fn is_dead(&self) -> (b: bool)
        ensures
            b == self.dead(),
    {
        self.current <= 0
    }

    pub fn is_damaged_alive(&self) -> (b: bool)
        ensures
            b == self.damaged_alive(),
    {
        0 < self.current && self.current < self.max
    }

    /// `current / max` in millionths, rounded down, between empty and full.
    pub fn ratio(&self) -> (r: u32)
        ensures
            r == self.spec_ratio(),
            r <= FULL_RATIO,
    {
        if self.max <= 0 || self.current <= 0 {
            0
        } else if self.current >= self.max {
            FULL_RATIO
        } else {
            let scaled: u128 = self.current as u128 * FULL_RATIO as u128;
            let q: u128 = scaled / (self.max as u128);
            assert(q <= FULL_RATIO) by (nonlinear_arith)
                requires
                    q == (self.current * FULL_RATIO) / (self.max as int),
                    0 < self.current < self.max,
                    FULL_RATIO == 1_000_000,
            ;
            q as u32
        }
    }
}

/// Whatever damage has been applied, and in whatever order, the clamp step
/// leaves `current` between zero and `max`.
pub proof fn lemma_clamp_after_damage(h: Health, amounts: Seq<u64>)
    requires
        h.max > 0,
    ensures
        h.damaged_by_all(amounts).clamped().wf(),
        h.damaged_by_all(amounts).clamped().max == h.max,
    decreases amounts.len(),
{
    if amounts.len() > 0 {
        lemma_clamp_after_damage(h, amounts.drop_last());
    }
}

/// Damage never raises `current` and never changes `max`.
pub proof fn lemma_damage_lowers(h: Health, amount: u64)
    ensures
        h.damaged(amount).current <= h.current,
        h.damaged(amount).max == h.max,
{
}

} // verus!
