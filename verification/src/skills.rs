//! The skill bar: a dash that is always there, rotating slots that a timer
//! refills from the skill pool, and the casting of what a slot holds.

use vstd::prelude::*;
use crate::combat::{facing_or_up, skill_slash, struck, Actor, HitBox};
use crate::combat::{SLASH_DAMAGE, SLASH_LENGTH, SLASH_TOLERANCE, SLASH_WIDTH};
use crate::geometry::Vec2;
use crate::movement::PlayerDash;
use crate::pool::VfxPool;
use crate::timer::PeriodicTimer;
use crate::vfx::{free_after_vfx, spawn_slash_vfx, vfx_order, VfxOrder};
use crate::skills_pool::{next_position, rotation_at, skill_cooldown, SkillId, SkillPool};

verus! {

/// Number of slots of the skill bar, the dash slot included.
pub const MAX_SKILL_CARDS: usize = 3;

/// The slot of the dash.
pub const DASH_SLOT: usize = 0;

/// Milliseconds between two refills of the rotating slots.
pub const SKILL_SPAWN_PERIOD_MS: u32 = 3_000;

/// A skill equipped in a rotating slot.
#[derive(Clone, Copy, Debug, PartialEq, Eq, Structural)]
pub struct SkillCard {
    pub slot_index: usize,
    pub skill: SkillId,
}

/// What each slot of the skill bar holds. The dash slot holds no card: the
/// dash is always there.
#[derive(Clone, Copy, Debug)]
pub struct SkillSlots {
    pub cards: [Option<SkillId>; 3],
}

/// What is left of each slot's cooldown, in microseconds.
#[derive(Clone, Copy, Debug)]
pub struct SkillCooldowns {
    pub slot: [u32; 3],
}

/// The position of the rotation after `k` more skills were handed out.
pub open spec fn advanced(position: usize, k: nat) -> usize
    decreases k,
{
    if k == 0 {
        position
    } else {
        next_position(advanced(position, (k - 1) as nat))
    }
}

/// Number of empty rotating slots below slot `upto`.
pub open spec fn empties_below(cards: Seq<Option<SkillId>>, upto: int) -> nat
    decreases upto,
{
    if upto <= 1 {
        0
    } else {
        empties_below(cards, upto - 1) + if cards[upto - 1] is None {
            1nat
        } else {
            0nat
        }
    }
}

/// The slots after a refill that began at `position` of the rotation: a
/// slot that held a card keeps it, and the empty rotating slots get the next
/// skills of the rotation, lowest slot first. The dash slot is left alone.
pub open spec fn refilled(cards: Seq<Option<SkillId>>, position: usize) -> Seq<Option<SkillId>> {
    Seq::new(
        cards.len(),
        |i: int|
            if i >= 1 && cards[i] is None {
                Some(rotation_at(advanced(position, empties_below(cards, i)) as nat))
            } else {
                cards[i]
            },
    )
}

/// The cards that a refill brings, lowest slot first.
pub open spec fn new_cards(cards: Seq<Option<SkillId>>, position: usize, upto: int) -> Seq<SkillCard>
    decreases upto,
{
    if upto <= 1 {
        Seq::empty()
    } else if cards[upto - 1] is None {
        new_cards(cards, position, upto - 1).push(
            SkillCard {
                slot_index: (upto - 1) as usize,
                skill: rotation_at(advanced(position, empties_below(cards, upto - 1)) as nat),
            },
        )
    } else {
        new_cards(cards, position, upto - 1)
    }
}

impl SkillSlots {
    /// A skill bar with every rotating slot empty.
    pub fn new() -> (s: SkillSlots)
        ensures
            forall|i: int| 0 <= i < MAX_SKILL_CARDS ==> s.cards@[i] is None,
    {
        SkillSlots { cards: [None, None, None] }
    }

    /// The card in `slot`, if the slot is a rotating one and holds one.
    pub open spec fn spec_card(self, slot: usize) -> Option<SkillCard> {
        if 1 <= slot < MAX_SKILL_CARDS && self.cards@[slot as int] is Some {
            Some(SkillCard { slot_index: slot, skill: self.cards@[slot as int]->0 })
        } else {
            None
        }
    }

    /// The card in `slot`, if the slot is a rotating one and holds one.
    pub fn card(&self, slot: usize) -> (c: Option<SkillCard>)
        ensures
            c == self.spec_card(slot),
    {
        if 1 <= slot && slot < MAX_SKILL_CARDS {
            match self.cards[slot] {
                Some(skill) => Some(SkillCard { slot_index: slot, skill }),
                None => None,
            }
        } else {
            None
        }
    }
}

impl SkillCooldowns {
    /// Every slot ready.
    pub fn new() -> (c: SkillCooldowns)
        ensures
            forall|i: int| 0 <= i < MAX_SKILL_CARDS ==> c.slot@[i] == 0,
    {
        SkillCooldowns { slot: [0, 0, 0] }
    }

    /// Counts every slot's cooldown down by `dt`, stopping at zero.
    pub fn tick(&mut self, dt: u32)
        ensures
            forall|i: int|
                0 <= i < MAX_SKILL_CARDS ==> final(self).slot@[i] == crate::cooldown::ticked(
                    old(self).slot@[i],
                    dt,
                ),
    {
        let mut i: usize = 0;
        while i < MAX_SKILL_CARDS
            invariant
                i <= MAX_SKILL_CARDS,
                forall|j: int|
                    0 <= j < i ==> self.slot@[j] == crate::cooldown::ticked(old(self).slot@[j], dt),
                forall|j: int| i <= j < MAX_SKILL_CARDS ==> self.slot@[j] == old(self).slot@[j],
            decreases MAX_SKILL_CARDS - i,
        {
            let left = self.slot[i];
            self.slot[i] = if left > dt { left - dt } else { 0 };
            i += 1;
        }
    }
}

/// Fills every empty rotating slot with the next skill of the rotation,
/// lowest slot first, and returns the cards that it put in.
pub fn refill_empty_slots(pool: &mut SkillPool, slots: &mut SkillSlots) -> (added: Vec<SkillCard>)
    ensures
        final(slots).cards@ == refilled(old(slots).cards@, old(pool).position()),
        added@ == new_cards(old(slots).cards@, old(pool).position(), MAX_SKILL_CARDS as int),
        final(pool).position() == advanced(
            old(pool).position(),
            empties_below(old(slots).cards@, MAX_SKILL_CARDS as int),
        ),
{
    let mut added: Vec<SkillCard> = Vec::new();
    let mut i: usize = 1;
    while i < MAX_SKILL_CARDS
        invariant
            1 <= i <= MAX_SKILL_CARDS,
            added@ == new_cards(old(slots).cards@, old(pool).position(), i as int),
            pool.position() == advanced(
                old(pool).position(),
                empties_below(old(slots).cards@, i as int),
            ),
            forall|j: int|
                0 <= j < i ==> slots.cards@[j] == refilled(
                    old(slots).cards@,
                    old(pool).position(),
                )[j],
            forall|j: int| i <= j < MAX_SKILL_CARDS ==> slots.cards@[j] == old(slots).cards@[j],
        decreases MAX_SKILL_CARDS - i,
    {
        if slots.cards[i].is_none() {
            let skill = pool.next_non_dash();
            slots.cards[i] = Some(skill);
            added.push(SkillCard { slot_index: i, skill });
        }
        i += 1;
    }
    assert(slots.cards@ =~= refilled(old(slots).cards@, old(pool).position()));
    added
}

/// A new timer for the refills of the rotating slots.
pub fn skill_spawn_timer() -> (t: PeriodicTimer)
    ensures
        t.elapsed() == 0,
        t.period() == SKILL_SPAWN_PERIOD_MS as nat * crate::timer::NANOS_PER_MILLI as nat,
{
    PeriodicTimer::new(SKILL_SPAWN_PERIOD_MS)
}

/// Lets `dt` microseconds pass on the refill timer. When the timer fires,
/// every empty rotating slot is filled as `refill_empty_slots` does it;
/// else nothing changes. Returns the cards that were put in.
pub fn spawn_other_skills(
    timer: &mut PeriodicTimer,
    dt: u32,
    pool: &mut SkillPool,
    slots: &mut SkillSlots,
) -> (added: Vec<SkillCard>)
    ensures
        final(timer).elapsed() == old(timer).elapsed_after(dt),
        final(timer).period() == old(timer).period(),
        old(timer).fires(dt) ==> {
            &&& final(slots).cards@ == refilled(old(slots).cards@, old(pool).position())
            &&& added@ == new_cards(old(slots).cards@, old(pool).position(), MAX_SKILL_CARDS as int)
            &&& final(pool).position() == advanced(
                old(pool).position(),
                empties_below(old(slots).cards@, MAX_SKILL_CARDS as int),
            )
        },
        !old(timer).fires(dt) ==> {
            &&& final(slots).cards@ == old(slots).cards@
            &&& added@ == Seq::<SkillCard>::empty()
            &&& final(pool).position() == old(pool).position()
        },
{
    if timer.tick(dt) {
        refill_empty_slots(pool, slots)
    } else {
        Vec::new()
    }
}

/// What the activation of a slot came to.
#[derive(Clone, Copy, Debug, PartialEq, Eq, Structural)]
pub enum Activation {
    /// Nothing happened: the slot was empty, on cooldown or not there, or
    /// the dash could not begin.
    Nothing,
    /// A dash began.
    Dashed,
    /// The card was cast and has left its slot; the caller shows the effect
    /// if one is ordered.
    Cast { card: SkillCard, vfx: Option<VfxOrder> },
}

/// Whether the rotating slot `slot` can be cast: it holds a card and its
/// cooldown has run out.
pub open spec fn castable(slots: SkillSlots, cooldowns: SkillCooldowns, slot: usize) -> bool {
    slots.spec_card(slot) is Some && cooldowns.slot@[slot as int] == 0
}

/// Casts the card in the rotating slot `slot` from `origin` along `facing`.
/// Where the slot holds no card or is on cooldown, nothing happens. Else
/// the card leaves the slot, which the next refill may fill again; a slash
/// hits the enemies, starts the slot's cooldown and orders its effect.
pub fn cast_slot(
    slot: usize,
    slots: &mut SkillSlots,
    cooldowns: &mut SkillCooldowns,
    pool: &SkillPool,
    origin: &Vec2,
    facing: &Vec2,
    enemies: &mut Vec<Actor>,
    vfx_pool: &mut VfxPool,
) -> (outcome: Activation)
    ensures
        old(vfx_pool).wf() ==> final(vfx_pool).wf(),
        !castable(*old(slots), *old(cooldowns), slot) ==> {
            &&& outcome == Activation::Nothing
            &&& final(slots).cards@ == old(slots).cards@
            &&& final(cooldowns).slot@ == old(cooldowns).slot@
            &&& final(enemies)@ == old(enemies)@
            &&& final(vfx_pool).free@ == old(vfx_pool).free@
        },
        castable(*old(slots), *old(cooldowns), slot) ==> {
            &&& final(slots).cards@ == old(slots).cards@.update(slot as int, None)
            &&& outcome is Cast
            &&& outcome->card == old(slots).spec_card(slot)->0
        },
        castable(*old(slots), *old(cooldowns), slot) && old(slots).cards@[slot as int]
            == Some(SkillId::Slash) ==> {
            &&& outcome->vfx == vfx_order(old(vfx_pool).free@, *origin, *facing)
            &&& final(vfx_pool).free@ == free_after_vfx(old(vfx_pool).free@, *facing)
            &&& final(enemies)@ == struck(
                old(enemies)@,
                HitBox { length: SLASH_LENGTH, width: SLASH_WIDTH, tolerance: SLASH_TOLERANCE },
                *origin,
                facing_or_up(*facing),
                SLASH_DAMAGE,
            )
            &&& final(cooldowns).slot@ == old(cooldowns).slot@.update(
                slot as int,
                skill_cooldown(SkillId::Slash),
            )
        },
        castable(*old(slots), *old(cooldowns), slot) && old(slots).cards@[slot as int]
            == Some(SkillId::Dash) ==> {
            &&& outcome->vfx is None
            &&& final(vfx_pool).free@ == old(vfx_pool).free@
            &&& final(enemies)@ == old(enemies)@
            &&& final(cooldowns).slot@ == old(cooldowns).slot@
        },
{
    let card = match slots.card(slot) {
        Some(card) => card,
        None => {
            return Activation::Nothing;
        },
    };
    if cooldowns.slot[slot] > 0 {
        return Activation::Nothing;
    }
    let vfx = match card.skill {
        SkillId::Slash => {
            let vfx = spawn_slash_vfx(vfx_pool, origin, facing);
            skill_slash(origin, facing, enemies);
            cooldowns.slot[slot] = pool.def(SkillId::Slash).cooldown;
            vfx
        },
        SkillId::Dash => None,
    };
    slots.cards[slot] = None;
    assert(slots.cards@ =~= old(slots).cards@.update(slot as int, None));
    Activation::Cast { card, vfx }
}

/// Activates slot `slot_index` of the skill bar for a player at `origin`
/// who moves along `movement` and faces along `facing`. Slot 0 is the dash:
/// it begins if there is a direction to dash in, no dash is under way and
/// the dash is off cooldown, whatever card the slots hold. Any other slot
/// is cast as `cast_slot` does it. What cannot be done is left undone,
/// and nothing changes.
pub fn activate(
    slot_index: usize,
    slots: &mut SkillSlots,
    cooldowns: &mut SkillCooldowns,
    dash: &mut PlayerDash,
    pool: &SkillPool,
    origin: &Vec2,
    movement: &Vec2,
    facing: &Vec2,
    enemies: &mut Vec<Actor>,
    vfx_pool: &mut VfxPool,
) -> (outcome: Activation)
    ensures
        old(vfx_pool).wf() ==> final(vfx_pool).wf(),
        slot_index == DASH_SLOT ==> {
            &&& final(slots).cards@ == old(slots).cards@
            &&& final(cooldowns).slot@ == old(cooldowns).slot@
            &&& final(enemies)@ == old(enemies)@
            &&& final(vfx_pool).free@ == old(vfx_pool).free@
            &&& old(dash).can_dash(*movement) ==> outcome == Activation::Dashed && *final(dash)
                == PlayerDash::begun(*movement)
            &&& !old(dash).can_dash(*movement) ==> outcome == Activation::Nothing && *final(dash)
                == *old(dash)
        },
        slot_index != DASH_SLOT ==> *final(dash) == *old(dash),
        slot_index != DASH_SLOT && !castable(*old(slots), *old(cooldowns), slot_index) ==> {
            &&& outcome == Activation::Nothing
            &&& final(slots).cards@ == old(slots).cards@
            &&& final(cooldowns).slot@ == old(cooldowns).slot@
            &&& final(enemies)@ == old(enemies)@
            &&& final(vfx_pool).free@ == old(vfx_pool).free@
        },
        slot_index != DASH_SLOT && castable(*old(slots), *old(cooldowns), slot_index) ==> {
            &&& final(slots).cards@ == old(slots).cards@.update(slot_index as int, None)
            &&& outcome is Cast
            &&& outcome->card == old(slots).spec_card(slot_index)->0
        },
        slot_index != DASH_SLOT && castable(*old(slots), *old(cooldowns), slot_index) && old(
            slots,
        ).cards@[slot_index as int] == Some(SkillId::Slash) ==> {
            &&& outcome->vfx == vfx_order(old(vfx_pool).free@, *origin, *facing)
            &&& final(vfx_pool).free@ == free_after_vfx(old(vfx_pool).free@, *facing)
            &&& final(enemies)@ == struck(
                old(enemies)@,
                HitBox { length: SLASH_LENGTH, width: SLASH_WIDTH, tolerance: SLASH_TOLERANCE },
                *origin,
                facing_or_up(*facing),
                SLASH_DAMAGE,
            )
            &&& final(cooldowns).slot@ == old(cooldowns).slot@.update(
                slot_index as int,
                skill_cooldown(SkillId::Slash),
            )
        },
        slot_index != DASH_SLOT && castable(*old(slots), *old(cooldowns), slot_index) && old(
            slots,
        ).cards@[slot_index as int] == Some(SkillId::Dash) ==> {
            &&& outcome->vfx is None
            &&& final(vfx_pool).free@ == old(vfx_pool).free@
            &&& final(enemies)@ == old(enemies)@
            &&& final(cooldowns).slot@ == old(cooldowns).slot@
        },
{
    if slot_index == DASH_SLOT {
        if dash.try_dash(movement) {
            Activation::Dashed
        } else {
            Activation::Nothing
        }
    } else {
        cast_slot(slot_index, slots, cooldowns, pool, origin, facing, enemies, vfx_pool)
    }
}

} // verus!
