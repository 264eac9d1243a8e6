//! The skills of the game and the order in which they come round.

use vstd::prelude::*;

verus! {

#[derive(Clone, Copy, Debug, PartialEq, Eq, Hash, Structural)]
pub enum SkillId {
    Dash,
    Slash,
}

/// A skill's name and its cooldown in microseconds.
#[derive(Clone, Copy, Debug)]
pub struct SkillDef {
    pub id: SkillId,
    pub name: &'static str,
    pub cooldown: u32,
}

/// Cooldown of the dash skill.
pub const DASH_SKILL_COOLDOWN: u32 = 3_000_000;

/// Cooldown of the slash skill.
pub const SLASH_SKILL_COOLDOWN: u32 = 6_000_000;

/// The skills other than the dash, in the order of the rotation.
pub open spec fn non_dash_skills() -> Seq<SkillId> {
    seq![SkillId::Slash]
}

/// The skill that the rotation hands out at position `n`.
pub open spec fn rotation_at(n: nat) -> SkillId {
    non_dash_skills()[(n % non_dash_skills().len()) as int]
}

/// The cooldown that a skill starts when it is cast.
pub open spec fn skill_cooldown(id: SkillId) -> u32 {
    match id {
        SkillId::Dash => DASH_SKILL_COOLDOWN,
        SkillId::Slash => SLASH_SKILL_COOLDOWN,
    }
}

/// The position after `n` in the rotation's counter, which starts over
/// after its largest value.
pub open spec fn next_position(n: usize) -> usize {
    if n == usize::MAX {
        0
    } else {
        (n + 1) as usize
    }
}

/// The rotation never hands out the dash.
pub proof fn lemma_rotation_is_not_dash(n: nat)
    ensures
        rotation_at(n) != SkillId::Dash,
{
}

/// The round-robin source of the skills that fill the rotating slots.
#[derive(Debug)]
pub struct SkillPool {
    next_other: usize,
}

impl Default for SkillPool {
    fn default() -> (pool: SkillPool)
        ensures
            pool.position() == 0,
    {
        SkillPool { next_other: 0 }
    }
}

impl SkillPool {
    /// How many skills the pool has handed out, counted modulo the range of
    /// the counter.
    pub closed spec fn position(self) -> usize {
        self.next_other
    }

    /// The definition of `id`.
    pub fn def(&self, id: SkillId) -> (d: SkillDef)
        ensures
            d.id == id,
            d.cooldown == skill_cooldown(id),
            d.name@ == (match id {
                SkillId::Dash => "Dash"@,
                SkillId::Slash => "Slash"@,
            }),
    {
        match id {
            SkillId::Dash => SkillDef { id, name: "Dash", cooldown: DASH_SKILL_COOLDOWN },
            SkillId::Slash => SkillDef { id, name: "Slash", cooldown: SLASH_SKILL_COOLDOWN },
        }
    }

    /// Hands out the next skill of the rotation and moves on by one.
    pub fn next_non_dash(&mut self) -> (id: SkillId)
        ensures
            id == rotation_at(old(self).position() as nat),
            final(self).position() == next_position(old(self).position()),
    {
        let id = SkillId::Slash;
        self.next_other = if self.next_other == usize::MAX {
            0
        } else {
            self.next_other + 1
        };
        id
    }
}

} // verus!
