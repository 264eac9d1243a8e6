//! Melee attacks: an oriented rectangle in front of the attacker, and the
//! damage dealt to every actor in it.

use vstd::prelude::*;
use crate::geometry::{abs, lemma_unit_of_axis, unit_of, UnitVec, Vec2, UNIT_SCALE};
use crate::cooldown::AttackState;
use crate::equipment::{EquipmentSet, WeaponKind};
use crate::health::Health;
use crate::pool::{after_acquire, ProjectilePool};
use crate::projectile::{order_along, spawn_along, SpawnOrder};

verus! {

/// Length of the slash skill's rectangle against enemies.
pub const SLASH_LENGTH: u32 = 260_000;

/// Width of the slash skill's rectangle against enemies.
pub const SLASH_WIDTH: u32 = 100_000;

/// Damage of the slash skill against enemies.
pub const SLASH_DAMAGE: u64 = 60_000;

/// Tolerance by which the slash skill's rectangle reaches beyond its drawn
/// extent, behind the attacker too.
pub const SLASH_TOLERANCE: u32 = 6_000;

/// Length of the rectangle of a slash that an enemy aims at the player.
pub const ENEMY_SLASH_LENGTH: u32 = 160_000;

/// Width of the rectangle of a slash that an enemy aims at the player.
pub const ENEMY_SLASH_WIDTH: u32 = 80_000;

/// Damage of a slash that an enemy lands on the player.
pub const ENEMY_SLASH_DAMAGE: u64 = 25_000;

/// Anything with a place and hit points: the player or an enemy.
#[derive(Clone, Copy, Debug, PartialEq, Eq, Structural)]
pub struct Actor {
    pub handle: u64,
    pub position: Vec2,
    pub health: Health,
}

impl Actor {
    /// This actor after `amount` of damage.
    pub open spec fn damaged(self, amount: u64) -> Actor {
        Actor { health: self.health.damaged(amount), ..self }
    }
}

/// The projection of `target`, seen from `origin`, onto `axis`: thousandths
/// of a world unit times `UNIT_SCALE`.
pub open spec fn along(origin: Vec2, axis: UnitVec, target: Vec2) -> int {
    (target.x - origin.x) * axis.x + (target.y - origin.y) * axis.y
}

/// The projection of `target`, seen from `origin`, onto `axis`.
fn project(origin: &Vec2, axis: &UnitVec, target: &Vec2) -> (p: i128)
    requires
        axis.wf(),
    ensures
        p == along(*origin, *axis, *target),
        -0x2_0000_0000 * UNIT_SCALE <= p <= 0x2_0000_0000 * UNIT_SCALE,
{
    let dx: i128 = target.x as i128 - origin.x as i128;
    let dy: i128 = target.y as i128 - origin.y as i128;
    let ax: i128 = axis.x as i128;
    let ay: i128 = axis.y as i128;
    assert(-0x1_0000_0000 * UNIT_SCALE <= dx * ax <= 0x1_0000_0000 * UNIT_SCALE) by (nonlinear_arith)
        requires
            -0x1_0000_0000 <= dx <= 0x1_0000_0000,
            -UNIT_SCALE <= ax <= UNIT_SCALE,
            UNIT_SCALE == 1_000_000_000,
    ;
    assert(-0x1_0000_0000 * UNIT_SCALE <= dy * ay <= 0x1_0000_0000 * UNIT_SCALE) by (nonlinear_arith)
        requires
            -0x1_0000_0000 <= dy <= 0x1_0000_0000,
            -UNIT_SCALE <= ay <= UNIT_SCALE,
            UNIT_SCALE == 1_000_000_000,
    ;
    dx * ax + dy * ay
}

/// The rectangle that an attack covers, in the attacker's frame: from the
/// attacker `length` forward, `width` across, and `tolerance` more on every
/// side.
#[derive(Clone, Copy, Debug, PartialEq, Eq, Structural)]
pub struct HitBox {
    pub length: u32,
    pub width: u32,
    pub tolerance: u32,
}

impl HitBox {
    /// Whether the rectangle holds the point that lies `forward` along the
    /// attacker's facing and `side` across it, both in thousandths of a
    /// world unit times `UNIT_SCALE`. The rim belongs to the rectangle.
    pub open spec fn contains(self, forward: int, side: int) -> bool {
        &&& -(self.tolerance * UNIT_SCALE) <= forward
        &&& forward <= (self.length + self.tolerance) * UNIT_SCALE
        &&& 2 * abs(side) <= (self.width + 2 * self.tolerance) * UNIT_SCALE
    }

    /// Whether the rectangle, laid from `origin` along `forward`, holds
    /// `target`.
    pub open spec fn covers(self, origin: Vec2, forward: UnitVec, target: Vec2) -> bool {
        self.contains(along(origin, forward, target), along(origin, forward.spec_perp(), target))
    }

    /// The rectangle of a basic melee attack: no tolerance.
    pub fn melee(length: u32, width: u32) -> (b: HitBox)
        ensures
            b == (HitBox { length, width, tolerance: 0 }),
    {
        HitBox { length, width, tolerance: 0 }
    }

    /// The rectangle of the slash skill against enemies.
    pub fn slash() -> (b: HitBox)
        ensures
            b == (HitBox {
                length: SLASH_LENGTH,
                width: SLASH_WIDTH,
                tolerance: SLASH_TOLERANCE,
            }),
    {
        HitBox { length: SLASH_LENGTH, width: SLASH_WIDTH, tolerance: SLASH_TOLERANCE }
    }

    /// Whether the rectangle, laid from `origin` along `forward`, holds
    /// `target`.
    pub fn hits(&self, origin: &Vec2, forward: &UnitVec, target: &Vec2) -> (hit: bool)
        requires
            forward.wf(),
        ensures
            hit == self.covers(*origin, *forward, *target),
    {
        let right = forward.perp();
        let d_forward: i128 = project(origin, forward, target);
        let d_side: i128 = project(origin, &right, target);
        let scale: i128 = UNIT_SCALE as i128;
        let tol: i128 = self.tolerance as i128;
        let far: i128 = self.length as i128 + tol;
        let across: i128 = self.width as i128 + 2 * tol;
        assert(0 <= tol * scale <= 0xFFFF_FFFF * UNIT_SCALE && 0 <= far * scale <= 0x2_0000_0000
            * UNIT_SCALE && 0 <= across * scale <= 0x3_0000_0000 * UNIT_SCALE) by (nonlinear_arith)
            requires
                0 <= tol <= 0xFFFF_FFFF,
                0 <= far <= 0x2_0000_0000,
                0 <= across <= 0x3_0000_0000,
                scale == UNIT_SCALE,
                UNIT_SCALE == 1_000_000_000,
        ;
        let side_abs: i128 = if d_side >= 0 { d_side } else { -d_side };
        d_forward >= -(tol * scale) && d_forward <= far * scale && 2 * side_abs <= across * scale
    }
}

/// A point on the attacker's facing, halfway along the rectangle, is hit.
pub proof fn lemma_centre_is_hit(b: HitBox)
    ensures
        b.contains(b.length * UNIT_SCALE / 2, 0),
{
    assert(0 <= b.length * UNIT_SCALE <= (b.length + b.tolerance) * UNIT_SCALE
        && b.tolerance * UNIT_SCALE >= 0 && (b.width + 2 * b.tolerance) * UNIT_SCALE >= 0)
        by (nonlinear_arith)
        requires
            UNIT_SCALE == 1_000_000_000,
    ;
}

/// Without tolerance, a point further to either side than half the width is
/// not hit, however little further.
pub proof fn lemma_beside_is_missed(b: HitBox, forward: int, side: int)
    requires
        b.tolerance == 0,
        2 * abs(side) > b.width * UNIT_SCALE,
    ensures
        !b.contains(forward, side),
{
}

/// The rectangle is symmetric about the attacker's facing.
pub proof fn lemma_hit_box_symmetric(b: HitBox, forward: int, side: int)
    ensures
        b.contains(forward, side) == b.contains(forward, -side),
{
}

/// A point behind the attacker by half the tolerance is hit where there is
/// tolerance, and missed where there is none.
pub proof fn lemma_tolerance_reaches_behind(with: HitBox, without: HitBox)
    requires
        with.tolerance > 0,
        without.tolerance == 0,
    ensures
        with.contains(-(with.tolerance * UNIT_SCALE / 2), 0),
        !without.contains(-(with.tolerance * UNIT_SCALE / 2), 0),
{
    assert(with.tolerance * UNIT_SCALE >= UNIT_SCALE && (with.length + with.tolerance) * UNIT_SCALE
        >= 0 && (with.width + 2 * with.tolerance) * UNIT_SCALE >= 0) by (nonlinear_arith)
        requires
            with.tolerance > 0,
            UNIT_SCALE == 1_000_000_000,
    ;
    assert(without.tolerance * UNIT_SCALE == 0) by (nonlinear_arith)
        requires
            without.tolerance == 0,
    ;
}

/// For an attacker who faces along the positive x axis, the rectangle is
/// what it says: a target is hit if and only if it is no further ahead than
/// the length, no further behind than the tolerance, and no further to
/// either side than half the width and the tolerance.
pub proof fn lemma_box_along_x(area: HitBox, origin: Vec2, target: Vec2, d: int)
    requires
        d > 0,
    ensures
        area.covers(origin, unit_of(d, 0), target) <==> {
            &&& -area.tolerance <= target.x - origin.x <= area.length + area.tolerance
            &&& 2 * abs(target.y - origin.y) <= area.width + 2 * area.tolerance
        },
{
    lemma_unit_of_axis(d);
    let s = UNIT_SCALE as int;
    let f = target.x - origin.x;
    let w = target.y - origin.y;
    let forward = unit_of(d, 0);
    assert(forward.spec_perp() == (UnitVec { x: 0, y: UNIT_SCALE }));
    assert(along(origin, forward, target) == f * s) by (nonlinear_arith)
        requires
            along(origin, forward, target) == f * s + w * 0,
    ;
    assert(along(origin, forward.spec_perp(), target) == w * s) by (nonlinear_arith)
        requires
            along(origin, forward.spec_perp(), target) == f * 0 + w * s,
    ;
    assert(abs(w * s) == abs(w) * s) by (nonlinear_arith)
        requires
            s > 0,
    ;
    let tol = area.tolerance as int;
    let len = area.length as int;
    let wid = area.width as int;
    assert((-(tol * s) <= f * s) == (-tol <= f)) by (nonlinear_arith)
        requires
            s > 0,
    ;
    assert((f * s <= (len + tol) * s) == (f <= len + tol)) by (nonlinear_arith)
        requires
            s > 0,
    ;
    assert((2 * (abs(w) * s) <= (wid + 2 * tol) * s) == (2 * abs(w) <= wid + 2 * tol))
        by (nonlinear_arith)
        requires
            s > 0,
    ;
}

/// `actors` after an attack along `forward` from `origin`: everyone in the
/// rectangle takes `damage`, nobody else changes.
pub open spec fn struck(
    actors: Seq<Actor>,
    area: HitBox,
    origin: Vec2,
    forward: UnitVec,
    damage: u64,
) -> Seq<Actor> {
    Seq::new(
        actors.len(),
        |i: int|
            if area.covers(origin, forward, actors[i].position) {
                actors[i].damaged(damage)
            } else {
                actors[i]
            },
    )
}

/// Deals `damage` to every actor in the rectangle laid from `origin` along
/// `forward`.
pub fn strike(
    actors: &mut Vec<Actor>,
    area: &HitBox,
    origin: &Vec2,
    forward: &UnitVec,
    damage: u64,
)
    requires
        forward.wf(),
    ensures
        final(actors)@ == struck(old(actors)@, *area, *origin, *forward, damage),
{
    let n = actors.len();
    let mut i: usize = 0;
    while i < n
        invariant
            forward.wf(),
            i <= n,
            actors.len() == n,
            n == old(actors).len(),
            forall|j: int|
                0 <= j < i ==> actors@[j] == struck(
                    old(actors)@,
                    *area,
                    *origin,
                    *forward,
                    damage,
                )[j],
            forall|j: int| i <= j < n ==> actors@[j] == old(actors)@[j],
        decreases n - i,
    {
        let mut actor = actors[i];
        if area.hits(origin, forward, &actor.position) {
            actor.health.apply_damage(damage);
            actors.set(i, actor);
        }
        i += 1;
    }
    assert(actors@ =~= struck(old(actors)@, *area, *origin, *forward, damage));
}

/// `enemies` after a basic melee attack aimed along `dir`: an attack
/// without a direction hits nobody.
pub open spec fn after_melee(
    enemies: Seq<Actor>,
    origin: Vec2,
    dir: Vec2,
    length: u32,
    width: u32,
    damage: u64,
) -> Seq<Actor> {
    if dir.x == 0 && dir.y == 0 {
        enemies
    } else {
        struck(
            enemies,
            HitBox { length, width, tolerance: 0 },
            origin,
            unit_of(dir.x as int, dir.y as int),
            damage,
        )
    }
}

/// The facing of a skill cast along `dir`: up where there is no direction.
pub open spec fn facing_or_up(dir: Vec2) -> UnitVec {
    if dir.x == 0 && dir.y == 0 {
        UnitVec { x: 0, y: UNIT_SCALE }
    } else {
        unit_of(dir.x as int, dir.y as int)
    }
}

/// The facing of a skill cast along `dir`: up where there is no direction.
pub fn facing(dir: &Vec2) -> (forward: UnitVec)
    ensures
        forward == facing_or_up(*dir),
        forward.wf(),
{
    if dir.x == 0 && dir.y == 0 {
        UnitVec::up()
    } else {
        dir.normalize_or_zero()
    }
}

/// A basic melee attack from `origin` along `dir`: every enemy within
/// `length` ahead and half of `width` to either side takes `damage`.
pub fn perform_melee_attack(
    origin: &Vec2,
    dir: &Vec2,
    length: u32,
    width: u32,
    damage: u64,
    enemies: &mut Vec<Actor>,
)
    ensures
        final(enemies)@ == after_melee(old(enemies)@, *origin, *dir, length, width, damage),
{
    if dir.x == 0 && dir.y == 0 {
        return ;
    }
    let forward = dir.normalize_or_zero();
    strike(enemies, &HitBox::melee(length, width), origin, &forward, damage);
}

/// The slash skill cast from `origin` along `dir`, or upward where `dir` is
/// zero: every enemy in the skill's rectangle, tolerance included, takes the
/// skill's damage.
pub fn skill_slash(origin: &Vec2, dir: &Vec2, enemies: &mut Vec<Actor>)
    ensures
        final(enemies)@ == struck(
            old(enemies)@,
            HitBox { length: SLASH_LENGTH, width: SLASH_WIDTH, tolerance: SLASH_TOLERANCE },
            *origin,
            facing_or_up(*dir),
            SLASH_DAMAGE,
        ),
{
    let forward = facing(dir);
    strike(enemies, &HitBox::slash(), origin, &forward, SLASH_DAMAGE);
}

/// The player's health after an enemy at `origin` has slashed in the
/// direction `forward`: the damage is taken if the player stands in the
/// rectangle, and a slash without a direction hits nobody.
pub open spec fn after_enemy_slash(
    origin: Vec2,
    forward: UnitVec,
    player_pos: Vec2,
    player_hp: Health,
) -> Health {
    if !(forward.x == 0 && forward.y == 0) && (HitBox {
        length: ENEMY_SLASH_LENGTH,
        width: ENEMY_SLASH_WIDTH,
        tolerance: 0,
    }).covers(origin, forward, player_pos) {
        player_hp.damaged(ENEMY_SLASH_DAMAGE)
    } else {
        player_hp
    }
}

/// The player's health after an enemy at `origin` has slashed along `dir`.
pub open spec fn after_slash_on_player(
    origin: Vec2,
    dir: Vec2,
    player_pos: Vec2,
    player_hp: Health,
) -> Health {
    after_enemy_slash(origin, unit_of(dir.x as int, dir.y as int), player_pos, player_hp)
}

/// An enemy at `origin` slashes in the direction `forward`.
pub fn enemy_slash(origin: &Vec2, forward: &UnitVec, player_pos: &Vec2, player_hp: &mut Health)
    requires
        forward.wf(),
    ensures
        *final(player_hp) == after_enemy_slash(*origin, *forward, *player_pos, *old(player_hp)),
{
    if forward.is_zero() {
        return ;
    }
    let area = HitBox::melee(ENEMY_SLASH_LENGTH, ENEMY_SLASH_WIDTH);
    if area.hits(origin, forward, player_pos) {
        player_hp.apply_damage(ENEMY_SLASH_DAMAGE);
    }
}

/// An enemy at `origin` slashes along `dir`: the player takes the damage if
/// they stand in the rectangle. A slash without a direction hits nobody.
pub fn skill_slash_on_player(origin: &Vec2, dir: &Vec2, player_pos: &Vec2, player_hp: &mut Health)
    ensures
        *final(player_hp) == after_slash_on_player(*origin, *dir, *player_pos, *old(player_hp)),
{
    let forward = dir.normalize_or_zero();
    enemy_slash(origin, &forward, player_pos, player_hp);
}

/// What a basic attack came to.
#[derive(Clone, Copy, Debug, PartialEq, Eq, Structural)]
pub enum AttackOutcome {
    /// The cooldown was still running: nothing happened.
    NotReady,
    /// A melee weapon swung, whether or not it hit.
    Swung,
    /// A ranged weapon shot: the caller brings the projectile into the
    /// world.
    Shot(SpawnOrder),
}

/// Where a shot goes: along the aim where there is one, else the way the
/// attacker faces.
pub open spec fn shot_direction(movement: Vec2, aim: Vec2) -> UnitVec {
    if aim.x == 0 && aim.y == 0 {
        facing_or_up(movement)
    } else {
        unit_of(aim.x as int, aim.y as int)
    }
}

/// The basic attack of an actor at `origin` who moves along `movement` and
/// aims along `aim` (zero where there is no aim). Neither vector has to be
/// of unit length. While the basic cooldown runs nothing happens at all.
/// Otherwise a melee weapon deals its damage to every enemy in its
/// rectangle along the facing, a ranged weapon orders a projectile of its
/// damage along the aim, and the cooldown starts anew, hit or miss.
pub fn resolve_basic_attack(
    state: &mut AttackState,
    origin: &Vec2,
    movement: &Vec2,
    aim: &Vec2,
    equipment: &EquipmentSet,
    enemies: &mut Vec<Actor>,
    pool: &mut ProjectilePool,
) -> (outcome: AttackOutcome)
    ensures
        final(state).slash_cooldown == old(state).slash_cooldown,
        old(pool).wf() ==> final(pool).wf(),
        old(state).basic_cooldown.remaining > 0 ==> {
            &&& outcome == AttackOutcome::NotReady
            &&& *final(state) == *old(state)
            &&& final(enemies)@ == old(enemies)@
            &&& final(pool).free@ == old(pool).free@
        },
        old(state).basic_cooldown.remaining == 0 ==> final(state).basic_cooldown.remaining
            == equipment.weapon_attack_cooldown,
        old(state).basic_cooldown.remaining == 0 && equipment.weapon_kind == WeaponKind::Melee ==> {
            &&& outcome == AttackOutcome::Swung
            &&& final(enemies)@ == struck(
                old(enemies)@,
                HitBox { length: equipment.melee_range, width: equipment.melee_width, tolerance: 0 },
                *origin,
                facing_or_up(*movement),
                equipment.weapon_damage as u64,
            )
            &&& final(pool).free@ == old(pool).free@
        },
        old(state).basic_cooldown.remaining == 0 && equipment.weapon_kind == WeaponKind::Ranged ==> {
            &&& outcome == AttackOutcome::Shot(
                order_along(
                    old(pool).free@,
                    *origin,
                    shot_direction(*movement, *aim),
                    equipment.weapon_projectile_speed,
                    equipment.weapon_projectile_lifetime,
                    equipment.weapon_damage as u64,
                    true,
                ),
            )
            &&& final(enemies)@ == old(enemies)@
            &&& final(pool).free@ == after_acquire(old(pool).free@)
        },
{
    if !state.basic_cooldown.is_ready() {
        return AttackOutcome::NotReady;
    }
    let forward = facing(movement);
    let outcome = match equipment.weapon_kind {
        WeaponKind::Melee => {
            let damage: u64 = equipment.weapon_damage as u64;
            let area = HitBox::melee(equipment.melee_range, equipment.melee_width);
            strike(enemies, &area, origin, &forward, damage);
            AttackOutcome::Swung
        },
        WeaponKind::Ranged => {
            let direction = if aim.x == 0 && aim.y == 0 {
                forward
            } else {
                aim.normalize_or_zero()
            };
            let damage: u64 = equipment.weapon_damage as u64;
            AttackOutcome::Shot(
                spawn_along(
                    pool,
                    origin,
                    direction,
                    equipment.weapon_projectile_speed,
                    equipment.weapon_projectile_lifetime,
                    damage,
                    true,
                ),
            )
        },
    };
    state.basic_cooldown.trigger(equipment.weapon_attack_cooldown);
    outcome
}

} // verus!
