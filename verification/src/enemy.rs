//! Enemies: how they close in on the player, hurt on contact and cast their
//! skill at a player within reach.

use vstd::prelude::*;
use crate::combat::{after_enemy_slash, enemy_slash, Actor};
use crate::cooldown::ticked;
use crate::geometry::{norm_sq, unit_of, UnitVec, Vec2};
use crate::health::Health;
use crate::pool::VfxPool;
use crate::projectile::{moved, step_position};
use crate::skills_pool::{next_position, rotation_at, SkillId, SkillPool};
use crate::timer::PeriodicTimer;
use crate::vfx::{free_after_vfx_along, slash_vfx_along, vfx_order_along, VfxOrder};

verus! {

/// Distance within which an enemy casts its skill at the player.
pub const ENGAGE_RADIUS: u32 = 160_000;

/// Distance below which an enemy hurts the player by contact.
pub const CONTACT_RADIUS: u32 = 32_000;

/// Milliseconds between two casts of the enemies.
pub const ENEMY_CAST_PERIOD_MS: u32 = 1_200;

/// Milliseconds between two arrivals of a new enemy.
pub const ENEMY_SPAWN_PERIOD_MS: u32 = 2_500;

/// Distance from the player at which a new enemy arrives.
pub const ENEMY_SPAWN_RADIUS: u32 = 500_000;

/// Speed of an enemy, in thousandths of a world unit per second.
#[derive(Clone, Copy, Debug, PartialEq, Eq, Structural)]
pub struct EnemyMoveSpeed(pub u32);

/// What an enemy's touch costs the player.
#[derive(Clone, Copy, Debug, PartialEq, Eq, Structural)]
pub struct ContactDamage {
    pub damage_per_hit: u64,
}

/// The pause between two touches of one enemy: what is left of it and how
/// long it is, in microseconds.
#[derive(Clone, Copy, Debug, PartialEq, Eq, Structural)]
pub struct ContactCooldown {
    pub remaining: u32,
    pub cooldown: u32,
}

/// An enemy as the contact pass sees it.
#[derive(Clone, Copy, Debug, PartialEq, Eq, Structural)]
pub struct Toucher {
    pub position: Vec2,
    pub damage: ContactDamage,
    pub cooldown: ContactCooldown,
}

/// An enemy as the movement pass sees it.
#[derive(Clone, Copy, Debug, PartialEq, Eq, Structural)]
pub struct Chaser {
    pub position: Vec2,
    pub speed: EnemyMoveSpeed,
}

/// What a new enemy starts with.
#[derive(Clone, Copy, Debug, PartialEq, Eq, Structural)]
pub struct EnemyStats {
    pub health: Health,
    pub speed: EnemyMoveSpeed,
    pub damage: ContactDamage,
    pub cooldown: ContactCooldown,
}

/// What a new enemy starts with: a hundred hit points, a speed of eighty,
/// eight damage per touch and at most one touch in 0.8 seconds.
pub fn new_enemy_stats() -> (stats: EnemyStats)
    ensures
        stats == (EnemyStats {
            health: Health { current: 100_000, max: 100_000 },
            speed: EnemyMoveSpeed(80_000),
            damage: ContactDamage { damage_per_hit: 8_000 },
            cooldown: ContactCooldown { remaining: 0, cooldown: 800_000 },
        }),
{
    EnemyStats {
        health: Health::new(100_000),
        speed: EnemyMoveSpeed(80_000),
        damage: ContactDamage { damage_per_hit: 8_000 },
        cooldown: ContactCooldown { remaining: 0, cooldown: 800_000 },
    }
}

/// `chasers` after `dt`: each has gone straight toward `target` at its
/// speed.
pub open spec fn chased(chasers: Seq<Chaser>, target: Vec2, dt: u32) -> Seq<Chaser> {
    Seq::new(
        chasers.len(),
        |i: int|
            Chaser {
                position: moved(
                    chasers[i].position,
                    unit_of(
                        target.x - chasers[i].position.x,
                        target.y - chasers[i].position.y,
                    ),
                    chasers[i].speed.0,
                    dt,
                ),
                speed: chasers[i].speed,
            },
    )
}

/// Moves every enemy straight toward `target` for `dt`.
pub fn move_enemies_towards_player(dt: u32, target: &Vec2, enemies: &mut Vec<Chaser>)
    ensures
        final(enemies)@ == chased(old(enemies)@, *target, dt),
{
    let n = enemies.len();
    let mut i: usize = 0;
    while i < n
        invariant
            i <= n,
            n == enemies.len(),
            n == old(enemies).len(),
            forall|j: int| 0 <= j < i ==> enemies@[j] == chased(old(enemies)@, *target, dt)[j],
            forall|j: int| i <= j < n ==> enemies@[j] == old(enemies)@[j],
        decreases n - i,
    {
        let chaser = enemies[i];
        let dir = chaser.position.direction_to(target);
        let position = step_position(&chaser.position, &dir, chaser.speed.0, dt);
        enemies.set(i, Chaser { position, speed: chaser.speed });
        i += 1;
    }
    assert(enemies@ =~= chased(old(enemies)@, *target, dt));
}

/// Whether `toucher` hurts a player at `at` this frame: its pause is over
/// and the player is nearer than the contact radius.
pub open spec fn touches(toucher: Toucher, at: Vec2) -> bool {
    toucher.cooldown.remaining == 0 && norm_sq(
        toucher.position.x - at.x,
        toucher.position.y - at.y,
    ) < CONTACT_RADIUS * CONTACT_RADIUS
}

/// `toucher` after a frame of `dt` with the player at `at`: a pause that
/// runs counts down; a touch starts the pause anew.
pub open spec fn after_touch(toucher: Toucher, at: Vec2, dt: u32) -> Toucher {
    Toucher {
        cooldown: ContactCooldown {
            remaining: if toucher.cooldown.remaining > 0 {
                ticked(toucher.cooldown.remaining, dt)
            } else if touches(toucher, at) {
                toucher.cooldown.cooldown
            } else {
                0
            },
            cooldown: toucher.cooldown.cooldown,
        },
        ..toucher
    }
}

/// The damages that a player at `at` takes by contact this frame, in the
/// order of the enemies.
pub open spec fn contact_damages(touchers: Seq<Toucher>, at: Vec2) -> Seq<u64>
    decreases touchers.len(),
{
    if touchers.len() == 0 {
        Seq::empty()
    } else if touches(touchers.last(), at) {
        contact_damages(touchers.drop_last(), at).push(touchers.last().damage.damage_per_hit)
    } else {
        contact_damages(touchers.drop_last(), at)
    }
}

/// One frame of contact damage. Without a player nothing happens. Else
/// every enemy whose pause runs counts it down, and every other enemy that
/// is nearer to the player than the contact radius hurts them and starts
/// its pause.
pub fn apply_contact_damage_to_player(
    dt: u32,
    player: &mut Option<Actor>,
    enemies: &mut Vec<Toucher>,
)
    ensures
        *old(player) is None ==> *final(player) == *old(player) && final(enemies)@ == old(enemies)@,
        *old(player) is Some ==> {
            let before = (*old(player))->0;
            &&& *final(player) == Some(
                Actor {
                    health: before.health.damaged_by_all(
                        contact_damages(old(enemies)@, before.position),
                    ),
                    ..before
                },
            )
            &&& final(enemies)@ == Seq::new(
                old(enemies)@.len(),
                |i: int| after_touch(old(enemies)@[i], before.position, dt),
            )
        },
{
    let mut target = match *player {
        Some(actor) => actor,
        None => {
            return ;
        },
    };
    let ghost before = target;
    let ghost expect = Seq::new(
        old(enemies)@.len(),
        |i: int| after_touch(old(enemies)@[i], before.position, dt),
    );
    let n = enemies.len();
    let mut i: usize = 0;
    while i < n
        invariant
            i <= n,
            n == enemies.len(),
            n == old(enemies).len(),
            expect == Seq::new(
                old(enemies)@.len(),
                |i: int| after_touch(old(enemies)@[i], before.position, dt),
            ),
            target == (Actor {
                health: before.health.damaged_by_all(
                    contact_damages(old(enemies)@.take(i as int), before.position),
                ),
                ..before
            }),
            forall|j: int| 0 <= j < i ==> enemies@[j] == expect[j],
            forall|j: int| i <= j < n ==> enemies@[j] == old(enemies)@[j],
        decreases n - i,
    {
        let enemy = enemies[i];
        proof {
            assert(old(enemies)@.take(i + 1).drop_last() =~= old(enemies)@.take(i as int));
            assert(old(enemies)@.take(i + 1).last() == enemy);
        }
        if enemy.cooldown.remaining > 0 {
            let left = if enemy.cooldown.remaining > dt {
                enemy.cooldown.remaining - dt
            } else {
                0
            };
            enemies.set(
                i,
                Toucher {
                    position: enemy.position,
                    damage: enemy.damage,
                    cooldown: ContactCooldown { remaining: left, cooldown: enemy.cooldown.cooldown },
                },
            );
        } else if target.position.nearer_than(&enemy.position, CONTACT_RADIUS) {
            proof {
                let so_far = contact_damages(old(enemies)@.take(i as int), before.position);
                assert(so_far.push(enemy.damage.damage_per_hit).drop_last() =~= so_far);
            }
            target.health.apply_damage(enemy.damage.damage_per_hit);
            enemies.set(
                i,
                Toucher {
                    position: enemy.position,
                    damage: enemy.damage,
                    cooldown: ContactCooldown {
                        remaining: enemy.cooldown.cooldown,
                        cooldown: enemy.cooldown.cooldown,
                    },
                },
            );
        }
        i += 1;
    }
    assert(old(enemies)@.take(n as int) =~= old(enemies)@);
    assert(enemies@ =~= expect);
    *player = Some(target);
}

/// The place in `enemies` of the one nearest to `to`: the first of them
/// where several are equally near. Meaningful where there is an enemy.
pub open spec fn nearest_index(enemies: Seq<Vec2>, to: Vec2) -> int
    decreases enemies.len(),
{
    if enemies.len() <= 1 {
        0
    } else {
        let best = nearest_index(enemies.drop_last(), to);
        if norm_sq(to.x - enemies.last().x, to.y - enemies.last().y) < norm_sq(
            to.x - enemies[best].x,
            to.y - enemies[best].y,
        ) {
            enemies.len() - 1
        } else {
            best
        }
    }
}

/// The nearest enemy is one of the enemies, none is nearer, and none before
/// it is as near.
pub proof fn lemma_nearest_index(enemies: Seq<Vec2>, to: Vec2)
    requires
        enemies.len() > 0,
    ensures
        0 <= nearest_index(enemies, to) < enemies.len(),
        forall|j: int|
            0 <= j < enemies.len() ==> norm_sq(
                to.x - enemies[nearest_index(enemies, to)].x,
                to.y - enemies[nearest_index(enemies, to)].y,
            ) <= norm_sq(to.x - (#[trigger] enemies[j]).x, to.y - enemies[j].y),
        forall|j: int|
            0 <= j < nearest_index(enemies, to) ==> norm_sq(
                to.x - enemies[nearest_index(enemies, to)].x,
                to.y - enemies[nearest_index(enemies, to)].y,
            ) < norm_sq(to.x - (#[trigger] enemies[j]).x, to.y - enemies[j].y),
    decreases enemies.len(),
{
    if enemies.len() > 1 {
        let rest = enemies.drop_last();
        lemma_nearest_index(rest, to);
        assert(forall|j: int| 0 <= j < rest.len() ==> rest[j] == enemies[j]);
    }
}

/// The place in `enemies` of the one nearest to `to`, if there is an enemy.
pub fn nearest_enemy(enemies: &Vec<Vec2>, to: &Vec2) -> (best: Option<usize>)
    ensures
        enemies.len() == 0 ==> best is None,
        enemies.len() > 0 ==> best is Some && best->0 as int == nearest_index(enemies@, *to),
        best is Some ==> best->0 < enemies.len(),
{
    if enemies.len() == 0 {
        return None;
    }
    let mut best: usize = 0;
    let mut best_dist: u128 = enemies[0].distance_squared(to);
    assert(enemies@.take(1).len() == 1);
    let mut i: usize = 1;
    while i < enemies.len()
        invariant
            1 <= i <= enemies.len(),
            best < i,
            best == nearest_index(enemies@.take(i as int), *to),
            best_dist == norm_sq(to.x - enemies@[best as int].x, to.y - enemies@[best as int].y),
        decreases enemies.len() - i,
    {
        proof {
            assert(enemies@.take(i + 1).drop_last() =~= enemies@.take(i as int));
            assert(enemies@.take(i + 1).last() == enemies@[i as int]);
            assert(enemies@.take(i + 1)[best as int] == enemies@[best as int]);
        }
        let dist = enemies[i].distance_squared(to);
        if dist < best_dist {
            best = i;
            best_dist = dist;
        }
        i += 1;
    }
    assert(enemies@.take(enemies.len() as int) =~= enemies@);
    Some(best)
}

/// Whether the enemies cast at the player: there is a player, there is an
/// enemy, and the nearest enemy is within the engagement radius, the rim
/// included.
pub open spec fn engages(enemies: Seq<Vec2>, player: Option<Actor>) -> bool {
    &&& player is Some
    &&& enemies.len() > 0
    &&& norm_sq(
        enemies[nearest_index(enemies, player->0.position)].x - player->0.position.x,
        enemies[nearest_index(enemies, player->0.position)].y - player->0.position.y,
    ) <= ENGAGE_RADIUS * ENGAGE_RADIUS
}

/// The direction in which the nearest enemy casts at the player.
pub open spec fn cast_direction(enemies: Seq<Vec2>, player: Actor) -> UnitVec {
    unit_of(
        player.position.x - enemies[nearest_index(enemies, player.position)].x,
        player.position.y - enemies[nearest_index(enemies, player.position)].y,
    )
}

/// The cast of the enemies, once their timer has fired. Where the enemies
/// do not engage, nothing happens at all: the rotation does not move
/// either. Else the nearest enemy draws the next skill of the rotation and
/// slashes from its place toward the player; the result is the order for
/// the slash's effect.
pub fn enemy_cast(
    pool: &mut SkillPool,
    enemies: &Vec<Vec2>,
    player: &mut Option<Actor>,
    vfx_pool: &mut VfxPool,
) -> (vfx: Option<VfxOrder>)
    ensures
        old(vfx_pool).wf() ==> final(vfx_pool).wf(),
        !engages(enemies@, *old(player)) ==> {
            &&& vfx is None
            &&& *final(player) == *old(player)
            &&& final(pool).position() == old(pool).position()
            &&& final(vfx_pool).free@ == old(vfx_pool).free@
        },
        engages(enemies@, *old(player)) ==> {
            let before = (*old(player))->0;
            let from = enemies@[nearest_index(enemies@, before.position)];
            let dir = cast_direction(enemies@, before);
            &&& final(pool).position() == next_position(old(pool).position())
            &&& rotation_at(old(pool).position() as nat) == SkillId::Slash ==> {
                &&& vfx == vfx_order_along(old(vfx_pool).free@, from, dir)
                &&& final(vfx_pool).free@ == free_after_vfx_along(old(vfx_pool).free@, dir)
                &&& *final(player) == Some(
                    Actor {
                        health: after_enemy_slash(from, dir, before.position, before.health),
                        ..before
                    },
                )
            }
        },
{
    let mut target = match *player {
        Some(actor) => actor,
        None => {
            return None;
        },
    };
    let best = match nearest_enemy(enemies, &target.position) {
        Some(best) => best,
        None => {
            return None;
        },
    };
    let from = enemies[best];
    if !target.position.within(&from, ENGAGE_RADIUS) {
        return None;
    }
    match pool.next_non_dash() {
        SkillId::Slash => {
            let dir = from.direction_to(&target.position);
            let vfx = slash_vfx_along(vfx_pool, &from, &dir);
            enemy_slash(&from, &dir, &target.position, &mut target.health);
            *player = Some(target);
            vfx
        },
        SkillId::Dash => None,
    }
}

/// A new timer for the casts of the enemies.
pub fn enemy_cast_timer() -> (t: PeriodicTimer)
    ensures
        t.elapsed() == 0,
        t.period() == ENEMY_CAST_PERIOD_MS as nat * crate::timer::NANOS_PER_MILLI as nat,
{
    PeriodicTimer::new(ENEMY_CAST_PERIOD_MS)
}

/// Lets `dt` microseconds pass on the enemies' cast timer. When the timer
/// fires, the enemies cast as `enemy_cast` does it; else nothing changes.
pub fn enemy_cast_skill(
    timer: &mut PeriodicTimer,
    dt: u32,
    pool: &mut SkillPool,
    enemies: &Vec<Vec2>,
    player: &mut Option<Actor>,
    vfx_pool: &mut VfxPool,
) -> (vfx: Option<VfxOrder>)
    ensures
        final(timer).elapsed() == old(timer).elapsed_after(dt),
        final(timer).period() == old(timer).period(),
        old(vfx_pool).wf() ==> final(vfx_pool).wf(),
        !(old(timer).fires(dt) && engages(enemies@, *old(player))) ==> {
            &&& vfx is None
            &&& *final(player) == *old(player)
            &&& final(pool).position() == old(pool).position()
            &&& final(vfx_pool).free@ == old(vfx_pool).free@
        },
        old(timer).fires(dt) && engages(enemies@, *old(player)) ==> {
            let before = (*old(player))->0;
            let from = enemies@[nearest_index(enemies@, before.position)];
            let dir = cast_direction(enemies@, before);
            &&& final(pool).position() == next_position(old(pool).position())
            &&& rotation_at(old(pool).position() as nat) == SkillId::Slash ==> {
                &&& vfx == vfx_order_along(old(vfx_pool).free@, from, dir)
                &&& final(vfx_pool).free@ == free_after_vfx_along(old(vfx_pool).free@, dir)
                &&& *final(player) == Some(
                    Actor {
                        health: after_enemy_slash(from, dir, before.position, before.health),
                        ..before
                    },
                )
            }
        },
{
    if timer.tick(dt) {
        enemy_cast(pool, enemies, player, vfx_pool)
    } else {
        None
    }
}

} // verus!
