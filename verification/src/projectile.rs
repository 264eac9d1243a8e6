//! Projectiles: spawning them from the pool, flying them in straight lines
//! and retiring them on a hit or at the end of their lifetime.

use vstd::prelude::*;
use crate::combat::Actor;
use crate::geometry::{
    clamp_coord,
    clamp_to_coord,
    div_toward_zero,
    norm_sq,
    unit_of,
    UnitVec,
    Vec2,
    UNIT_SCALE,
};
use crate::pool::{acquired, after_acquire, released, ProjectilePool};

verus! {

/// Distance within which a projectile hits an actor.
pub const HIT_RADIUS: u32 = 12_000;

/// Billionths times microseconds in one second: what a unit vector times a
/// speed times a time is divided by.
pub const TRAVEL_SCALE: u64 = 1_000_000_000_000_000;

/// A projectile in flight: where it flies, how fast (thousandths of a world
/// unit per second), how long it still lives (microseconds), what damage it
/// does and which side shot it.
#[derive(Clone, Copy, Debug, PartialEq, Eq, Structural)]
pub struct Projectile {
    pub direction: UnitVec,
    pub speed: u32,
    pub lifetime: u32,
    pub damage: u64,
    pub from_player: bool,
}

/// A projectile with the entity that carries it and its place.
#[derive(Clone, Copy, Debug, PartialEq, Eq, Structural)]
pub struct LiveProjectile {
    pub handle: u64,
    pub position: Vec2,
    pub projectile: Projectile,
}

/// What the caller has to bring into the world for a new projectile: on the
/// recycled entity if there is one, else on a new one.
#[derive(Clone, Copy, Debug, PartialEq, Eq, Structural)]
pub struct SpawnOrder {
    pub recycled: Option<u64>,
    pub position: Vec2,
    pub projectile: Projectile,
}

/// The order for a projectile shot from `origin` in `direction`, given the
/// pool's free list.
pub open spec fn order_along(
    free: Seq<u64>,
    origin: Vec2,
    direction: UnitVec,
    speed: u32,
    lifetime: u32,
    damage: u64,
    from_player: bool,
) -> SpawnOrder {
    SpawnOrder {
        recycled: acquired(free),
        position: origin,
        projectile: Projectile { direction, speed, lifetime, damage, from_player },
    }
}

/// The order for a projectile shot from `origin` along `dir`, given the
/// pool's free list: none where `dir` is zero.
pub open spec fn spawn_order(
    free: Seq<u64>,
    origin: Vec2,
    dir: Vec2,
    speed: u32,
    lifetime: u32,
    damage: u64,
    from_player: bool,
) -> Option<SpawnOrder> {
    if dir.x == 0 && dir.y == 0 {
        None
    } else {
        Some(
            order_along(
                free,
                origin,
                unit_of(dir.x as int, dir.y as int),
                speed,
                lifetime,
                damage,
                from_player,
            ),
        )
    }
}

/// Orders a projectile from `origin` in `direction`. It takes its entity
/// from the pool if one waits there.
pub fn spawn_along(
    pool: &mut ProjectilePool,
    origin: &Vec2,
    direction: UnitVec,
    speed: u32,
    lifetime: u32,
    damage: u64,
    from_player: bool,
) -> (order: SpawnOrder)
    ensures
        order == order_along(
            old(pool).free@,
            *origin,
            direction,
            speed,
            lifetime,
            damage,
            from_player,
        ),
        final(pool).free@ == after_acquire(old(pool).free@),
        old(pool).wf() ==> final(pool).wf(),
{
    let recycled = pool.acquire();
    SpawnOrder {
        recycled,
        position: *origin,
        projectile: Projectile { direction, speed, lifetime, damage, from_player },
    }
}

/// Orders a projectile from `origin` along `dir`. It takes its entity from
/// the pool if one waits there. Nothing is ordered, and the pool is left
/// alone, where `dir` is zero.
pub fn spawn_projectile(
    pool: &mut ProjectilePool,
    origin: &Vec2,
    dir: &Vec2,
    speed: u32,
    lifetime: u32,
    damage: u64,
    from_player: bool,
) -> (order: Option<SpawnOrder>)
    ensures
        order == spawn_order(old(pool).free@, *origin, *dir, speed, lifetime, damage, from_player),
        order is None ==> final(pool).free@ == old(pool).free@,
        order is Some ==> final(pool).free@ == after_acquire(old(pool).free@),
        order is Some ==> order->0.projectile.direction.wf(),
        old(pool).wf() ==> final(pool).wf(),
{
    if dir.x == 0 && dir.y == 0 {
        return None;
    }
    let direction = dir.normalize_or_zero();
    Some(spawn_along(pool, origin, direction, speed, lifetime, damage, from_player))
}

/// How far a projectile gets along one axis in `dt`: the component of its
/// direction times its speed times the time, rounded toward zero.
pub open spec fn travel(component: int, speed: u32, dt: u32) -> int {
    div_toward_zero(component * speed * dt, TRAVEL_SCALE as int)
}

/// The place of a projectile after `dt`. It stops at the edge of what a
/// position can hold.
pub open spec fn moved(position: Vec2, direction: UnitVec, speed: u32, dt: u32) -> Vec2 {
    Vec2 {
        x: clamp_coord(position.x + travel(direction.x as int, speed, dt)),
        y: clamp_coord(position.y + travel(direction.y as int, speed, dt)),
    }
}

/// How far something gets along one axis in `dt`, given the component of
/// its direction on that axis and its speed.
pub fn travel_along(component: i32, speed: u32, dt: u32) -> (d: i64)
    requires
        -UNIT_SCALE <= component <= UNIT_SCALE,
    ensures
        d == travel(component as int, speed, dt),
        -0x1_0000_0000_0000 <= d <= 0x1_0000_0000_0000,
{
    let c: u128 = (if component >= 0 { component as i64 } else { -(component as i64) }) as u128;
    let s: u128 = speed as u128;
    let t: u128 = dt as u128;
    assert(0 <= c * s <= 1_000_000_000 * 0xFFFF_FFFF) by (nonlinear_arith)
        requires
            0 <= c <= 1_000_000_000,
            0 <= s <= 0xFFFF_FFFF,
    ;
    assert(0 <= (c * s) * t <= 1_000_000_000 * 0xFFFF_FFFF * 0xFFFF_FFFF) by (nonlinear_arith)
        requires
            0 <= c * s <= 1_000_000_000 * 0xFFFF_FFFF,
            0 <= t <= 0xFFFF_FFFF,
    ;
    let m: u128 = c * s * t;
    let q: u128 = m / (TRAVEL_SCALE as u128);
    assert(m <= 18_446_744_065_119_617_025_000_000_000) by (nonlinear_arith)
        requires
            m <= 1_000_000_000 * 0xFFFF_FFFF * 0xFFFF_FFFF,
    ;
    assert(q <= 0x1_0000_0000_0000) by (nonlinear_arith)
        requires
            q == m / 1_000_000_000_000_000,
            m <= 18_446_744_065_119_617_025_000_000_000,
    ;
    proof {
        let ci = component as int;
        if component >= 0 {
            assert(ci * speed * dt == m);
        } else {
            assert((-ci) * speed * dt == m);
            assert((-ci) * speed * dt == -(ci * speed * dt)) by (nonlinear_arith);
        }
    }
    if component >= 0 {
        q as i64
    } else {
        -(q as i64)
    }
}

/// The place of something that goes from `position` in `direction` at
/// `speed` for `dt`.
pub fn step_position(position: &Vec2, direction: &UnitVec, speed: u32, dt: u32) -> (p: Vec2)
    requires
        direction.wf(),
    ensures
        p == moved(*position, *direction, speed, dt),
{
    Vec2 {
        x: clamp_to_coord(position.x as i64 + travel_along(direction.x, speed, dt)),
        y: clamp_to_coord(position.y as i64 + travel_along(direction.y, speed, dt)),
    }
}

/// Whether an actor at `target` is within reach of a projectile at `at`.
pub open spec fn in_reach(at: Vec2, target: Vec2) -> bool {
    norm_sq(target.x - at.x, target.y - at.y) <= HIT_RADIUS * HIT_RADIUS
}

/// Whether any of `actors` is within reach of a projectile at `at`.
pub open spec fn any_in_reach(actors: Seq<Actor>, at: Vec2) -> bool {
    exists|i: int| 0 <= i < actors.len() && in_reach(at, #[trigger] actors[i].position)
}

/// `actors` after a projectile at `at` has hit: everyone within reach takes
/// `damage`, not only the nearest.
pub open spec fn hit_all(actors: Seq<Actor>, at: Vec2, damage: u64) -> Seq<Actor> {
    Seq::new(
        actors.len(),
        |i: int|
            if in_reach(at, actors[i].position) {
                actors[i].damaged(damage)
            } else {
                actors[i]
            },
    )
}

/// Deals `damage` to every actor within reach of `at`, and says whether
/// there was one.
fn damage_in_reach(actors: &mut Vec<Actor>, at: &Vec2, damage: u64) -> (any: bool)
    ensures
        final(actors)@ == hit_all(old(actors)@, *at, damage),
        any == any_in_reach(old(actors)@, *at),
{
    let n = actors.len();
    let mut any = false;
    let mut i: usize = 0;
    while i < n
        invariant
            i <= n,
            actors.len() == n,
            n == old(actors).len(),
            forall|j: int| 0 <= j < i ==> actors@[j] == hit_all(old(actors)@, *at, damage)[j],
            forall|j: int| i <= j < n ==> actors@[j] == old(actors)@[j],
            any == exists|j: int| 0 <= j < i && in_reach(*at, #[trigger] old(actors)@[j].position),
        decreases n - i,
    {
        let mut actor = actors[i];
        if at.within(&actor.position, HIT_RADIUS) {
            actor.health.apply_damage(damage);
            actors.set(i, actor);
            any = true;
        }
        i += 1;
    }
    assert(actors@ =~= hit_all(old(actors)@, *at, damage));
    any
}

/// The state that a frame of flight works on: the projectiles that stay in
/// flight, the actors of both sides and the pool's free list.
pub struct Battlefield {
    pub live: Seq<LiveProjectile>,
    pub enemies: Seq<Actor>,
    pub player: Option<Actor>,
    pub free: Seq<u64>,
}

/// `p` after it has flown for `dt`.
pub open spec fn flown(p: LiveProjectile, dt: u32) -> LiveProjectile {
    LiveProjectile {
        handle: p.handle,
        position: moved(p.position, p.projectile.direction, p.projectile.speed, dt),
        projectile: Projectile { lifetime: (p.projectile.lifetime - dt) as u32, ..p.projectile },
    }
}

/// Whether `p`, having flown, hits someone in `field`: a player's projectile
/// any enemy within reach, an enemy's the player within reach.
pub open spec fn lands(field: Battlefield, p: LiveProjectile) -> bool {
    if p.projectile.from_player {
        any_in_reach(field.enemies, p.position)
    } else {
        field.player is Some && in_reach(p.position, field.player->0.position)
    }
}

/// The field after one projectile's frame. A projectile whose lifetime ends
/// is retired where it is. Otherwise it flies on; if it then hits, all it
/// reaches on the other side take its damage and it is retired; if not, it
/// stays in flight. To retire is to go back to the pool. Its own side is
/// never touched.
pub open spec fn step_one(field: Battlefield, p: LiveProjectile, dt: u32) -> Battlefield {
    if p.projectile.lifetime <= dt {
        Battlefield { free: released(field.free, p.handle), ..field }
    } else if !lands(field, flown(p, dt)) {
        Battlefield { live: field.live.push(flown(p, dt)), ..field }
    } else if p.projectile.from_player {
        Battlefield {
            enemies: hit_all(field.enemies, flown(p, dt).position, p.projectile.damage),
            free: released(field.free, p.handle),
            ..field
        }
    } else {
        Battlefield {
            player: Some(field.player->0.damaged(p.projectile.damage)),
            free: released(field.free, p.handle),
            ..field
        }
    }
}

/// The field after the frame of each of `projectiles` in turn.
pub open spec fn step_all(field: Battlefield, projectiles: Seq<LiveProjectile>, dt: u32) -> Battlefield
    decreases projectiles.len(),
{
    if projectiles.len() == 0 {
        field
    } else {
        step_one(step_all(field, projectiles.drop_last(), dt), projectiles.last(), dt)
    }
}

/// Every direction is well-formed.
pub open spec fn directions_wf(projectiles: Seq<LiveProjectile>) -> bool {
    forall|i: int| 0 <= i < projectiles.len() ==> (#[trigger] projectiles[i]).projectile.direction.wf()
}

/// A projectile never changes anyone on the side that shot it.
pub proof fn lemma_own_side_untouched(field: Battlefield, p: LiveProjectile, dt: u32)
    ensures
        p.projectile.from_player ==> step_one(field, p, dt).player == field.player,
        !p.projectile.from_player ==> step_one(field, p, dt).enemies == field.enemies,
{
}

/// A frame in which every projectile is the player's leaves the player as
/// they were; one in which every projectile is an enemy's leaves the
/// enemies as they were.
pub proof fn lemma_no_friendly_fire(field: Battlefield, projectiles: Seq<LiveProjectile>, dt: u32)
    ensures
        (forall|i: int| 0 <= i < projectiles.len() ==> (#[trigger] projectiles[i]).projectile.from_player)
            ==> step_all(field, projectiles, dt).player == field.player,
        (forall|i: int| 0 <= i < projectiles.len() ==> !(#[trigger] projectiles[i]).projectile.from_player)
            ==> step_all(field, projectiles, dt).enemies == field.enemies,
    decreases projectiles.len(),
{
    if projectiles.len() > 0 {
        let rest = projectiles.drop_last();
        lemma_no_friendly_fire(field, rest, dt);
        lemma_own_side_untouched(step_all(field, rest, dt), projectiles.last(), dt);
        assert(forall|i: int| 0 <= i < rest.len() ==> rest[i] == projectiles[i]);
    }
}

/// A frame changes nobody's handle, place or maximum, keeps everyone in
/// their place in the list, and never raises anyone's hit points.
pub proof fn lemma_frame_keeps_actors(field: Battlefield, projectiles: Seq<LiveProjectile>, dt: u32)
    ensures
        step_all(field, projectiles, dt).enemies.len() == field.enemies.len(),
        forall|i: int|
            0 <= i < field.enemies.len() ==> {
                let after = #[trigger] step_all(field, projectiles, dt).enemies[i];
                &&& after.handle == field.enemies[i].handle
                &&& after.position == field.enemies[i].position
                &&& after.health.max == field.enemies[i].health.max
                &&& after.health.current <= field.enemies[i].health.current
            },
        step_all(field, projectiles, dt).player is Some == field.player is Some,
        field.player is Some ==> {
            let after = step_all(field, projectiles, dt).player->0;
            &&& after.handle == field.player->0.handle
            &&& after.position == field.player->0.position
            &&& after.health.max == field.player->0.health.max
            &&& after.health.current <= field.player->0.health.current
        },
    decreases projectiles.len(),
{
    if projectiles.len() > 0 {
        lemma_frame_keeps_actors(field, projectiles.drop_last(), dt);
    }
}

/// Whether one of `live` is carried by the entity `handle`.
pub open spec fn carries(live: Seq<LiveProjectile>, handle: u64) -> bool {
    exists|i: int| 0 <= i < live.len() && (#[trigger] live[i]).handle == handle
}

/// An entity is in flight or in the pool, never both, and never twice: no
/// two of `live` share a handle, no handle of `live` is in `free`, and
/// `free` holds no handle twice.
pub open spec fn apart(live: Seq<LiveProjectile>, free: Seq<u64>) -> bool {
    &&& free.no_duplicates()
    &&& forall|i: int, j: int|
        0 <= i < j < live.len() ==> (#[trigger] live[i]).handle != (#[trigger] live[j]).handle
    &&& forall|i: int| 0 <= i < live.len() ==> !free.contains((#[trigger] live[i]).handle)
}

/// A frame keeps the entities of projectiles apart: where every entity was
/// either in flight or in the pool before, it is so afterwards. No entity
/// comes from nowhere, and every projectile's entity is afterwards either
/// still in flight or back in the pool.
pub proof fn lemma_frame_keeps_handles_apart(
    field: Battlefield,
    projectiles: Seq<LiveProjectile>,
    dt: u32,
)
    requires
        apart(field.live.add(projectiles), field.free),
    ensures
        apart(step_all(field, projectiles, dt).live, step_all(field, projectiles, dt).free),
        forall|h: u64| #[trigger]
            carries(step_all(field, projectiles, dt).live, h) ==> carries(field.live, h) || carries(
                projectiles,
                h,
            ),
        forall|h: u64| #[trigger]
            step_all(field, projectiles, dt).free.contains(h) ==> field.free.contains(h) || carries(
                projectiles,
                h,
            ),
        forall|h: u64| #[trigger]
            carries(projectiles, h) ==> carries(step_all(field, projectiles, dt).live, h)
                || step_all(field, projectiles, dt).free.contains(h),
    decreases projectiles.len(),
{
    let all = field.live.add(projectiles);
    let after = step_all(field, projectiles, dt);
    if projectiles.len() == 0 {
        assert(all =~= field.live);
    } else {
        let rest = projectiles.drop_last();
        let p = projectiles.last();
        let n = field.live.len() as int;
        let before = step_all(field, rest, dt);
        let part = field.live.add(rest);
        assert(forall|i: int| 0 <= i < part.len() ==> part[i] == all[i]);
        assert(all[all.len() - 1] == p);
        lemma_frame_keeps_handles_apart(field, rest, dt);
        // The entity of this projectile is neither in flight nor in the pool yet.
        assert(!carries(before.live, p.handle)) by {
            if carries(before.live, p.handle) {
                if carries(field.live, p.handle) {
                    let i = choose|i: int|
                        0 <= i < field.live.len() && (#[trigger] field.live[i]).handle == p.handle;
                    assert(all[i].handle == all[all.len() - 1].handle);
                } else {
                    let i = choose|i: int| 0 <= i < rest.len() && (#[trigger] rest[i]).handle == p.handle;
                    assert(all[n + i].handle == all[all.len() - 1].handle);
                }
            }
        }
        assert(!before.free.contains(p.handle)) by {
            if before.free.contains(p.handle) {
                if field.free.contains(p.handle) {
                    assert(!field.free.contains(all[all.len() - 1].handle));
                } else {
                    let i = choose|i: int| 0 <= i < rest.len() && (#[trigger] rest[i]).handle == p.handle;
                    assert(all[n + i].handle == all[all.len() - 1].handle);
                }
            }
        }
        crate::pool::lemma_release_keeps_distinct(before.free, p.handle);
        let stays = p.projectile.lifetime > dt && !lands(before, flown(p, dt));
        if stays {
            assert(after.live == before.live.push(flown(p, dt)));
            assert(after.free == before.free);
            assert(after.live[before.live.len() as int].handle == p.handle);
            assert forall|i: int, j: int| 0 <= i < j < after.live.len() implies (
            #[trigger] after.live[i]).handle != (#[trigger] after.live[j]).handle by {
                if j == before.live.len() {
                    assert(before.live[i] == after.live[i]);
                } else {
                    assert(before.live[i] == after.live[i]);
                    assert(before.live[j] == after.live[j]);
                }
            }
            assert forall|i: int| 0 <= i < after.live.len() implies !after.free.contains(
                (#[trigger] after.live[i]).handle,
            ) by {
                if i < before.live.len() {
                    assert(before.live[i] == after.live[i]);
                }
            }
        } else {
            assert(after.live == before.live);
            assert(after.free == released(before.free, p.handle));
            assert(after.free == before.free.push(p.handle));
            assert forall|i: int| 0 <= i < after.live.len() implies !after.free.contains(
                (#[trigger] after.live[i]).handle,
            ) by {
                let h = after.live[i].handle;
                if after.free.contains(h) {
                    let k = choose|k: int| 0 <= k < after.free.len() && after.free[k] == h;
                    if k < before.free.len() {
                        assert(before.free[k] == h);
                    }
                }
            }
        }
        assert forall|h: u64| #[trigger] carries(after.live, h) implies carries(field.live, h)
            || carries(projectiles, h) by {
            let i = choose|i: int| 0 <= i < after.live.len() && (#[trigger] after.live[i]).handle == h;
            if i < before.live.len() {
                assert(before.live[i] == after.live[i]);
                assert(carries(before.live, h));
                if !carries(field.live, h) {
                    let k = choose|k: int| 0 <= k < rest.len() && (#[trigger] rest[k]).handle == h;
                    assert(projectiles[k].handle == h);
                }
            } else {
                assert(projectiles[projectiles.len() - 1].handle == h);
            }
        }
        assert forall|h: u64| #[trigger] after.free.contains(h) implies field.free.contains(h)
            || carries(projectiles, h) by {
            let k = choose|k: int| 0 <= k < after.free.len() && after.free[k] == h;
            if k < before.free.len() {
                assert(before.free[k] == h);
                assert(before.free.contains(h));
                if !field.free.contains(h) {
                    let m = choose|m: int| 0 <= m < rest.len() && (#[trigger] rest[m]).handle == h;
                    assert(projectiles[m].handle == h);
                }
            } else {
                assert(projectiles[projectiles.len() - 1].handle == h);
            }
        }
        assert forall|h: u64| #[trigger] carries(projectiles, h) implies carries(after.live, h)
            || after.free.contains(h) by {
            let i = choose|i: int| 0 <= i < projectiles.len() && (#[trigger] projectiles[i]).handle == h;
            if i < rest.len() {
                assert(rest[i].handle == h);
                assert(carries(rest, h));
                if carries(before.live, h) {
                    let k = choose|k: int|
                        0 <= k < before.live.len() && (#[trigger] before.live[k]).handle == h;
                    assert(after.live[k] == before.live[k]);
                } else {
                    let k = choose|k: int| 0 <= k < before.free.len() && before.free[k] == h;
                    assert(after.free[k] == h);
                }
            } else {
                if stays {
                    assert(after.live[before.live.len() as int].handle == h);
                } else {
                    assert(after.free[before.free.len() as int] == h);
                }
            }
        }
    }
}

/// One frame of every projectile, in the order of the list: lifetimes run
/// down, projectiles fly, hits are dealt, and what expired or hit goes back
/// to the pool. `projectiles` keeps those still in flight.
pub fn update_projectiles(
    dt: u32,
    projectiles: &mut Vec<LiveProjectile>,
    enemies: &mut Vec<Actor>,
    player: &mut Option<Actor>,
    pool: &mut ProjectilePool,
)
    requires
        directions_wf(old(projectiles)@),
    ensures
        (Battlefield {
            live: final(projectiles)@,
            enemies: final(enemies)@,
            player: *final(player),
            free: final(pool).free@,
        }) == step_all(
            Battlefield {
                live: Seq::empty(),
                enemies: old(enemies)@,
                player: *old(player),
                free: old(pool).free@,
            },
            old(projectiles)@,
            dt,
        ),
        directions_wf(final(projectiles)@),
        old(pool).wf() ==> final(pool).wf(),
{
    let ghost start = Battlefield {
        live: Seq::empty(),
        enemies: enemies@,
        player: *player,
        free: pool.free@,
    };
    let ghost all = projectiles@;
    let n = projectiles.len();
    let mut live: Vec<LiveProjectile> = Vec::new();
    let mut i: usize = 0;
    while i < n
        invariant
            i <= n,
            n == all.len(),
            projectiles@ == all,
            directions_wf(all),
            directions_wf(live@),
            old(pool).wf() ==> pool.wf(),
            (Battlefield { live: live@, enemies: enemies@, player: *player, free: pool.free@ })
                == step_all(start, all.take(i as int), dt),
        decreases n - i,
    {
        let ghost before = Battlefield {
            live: live@,
            enemies: enemies@,
            player: *player,
            free: pool.free@,
        };
        let p = projectiles[i];
        proof {
            assert(all.take(i + 1).drop_last() =~= all.take(i as int));
            assert(all.take(i + 1).last() == p);
        }
        if p.projectile.lifetime <= dt {
            pool.release(p.handle);
        } else {
            let position = step_position(
                &p.position,
                &p.projectile.direction,
                p.projectile.speed,
                dt,
            );
            let next = LiveProjectile {
                handle: p.handle,
                position,
                projectile: Projectile {
                    direction: p.projectile.direction,
                    speed: p.projectile.speed,
                    lifetime: p.projectile.lifetime - dt,
                    damage: p.projectile.damage,
                    from_player: p.projectile.from_player,
                },
            };
            assert(next == flown(p, dt));
            let mut hit = false;
            if p.projectile.from_player {
                hit = damage_in_reach(enemies, &next.position, p.projectile.damage);
                proof {
                    if !hit {
                        assert(enemies@ =~= before.enemies);
                    }
                }
            } else {
                match *player {
                    Some(target) => {
                        if next.position.within(&target.position, HIT_RADIUS) {
                            let mut struck = target;
                            struck.health.apply_damage(p.projectile.damage);
                            *player = Some(struck);
                            hit = true;
                        }
                    },
                    None => {},
                }
            }
            assert(hit == lands(before, next));
            if hit {
                pool.release(p.handle);
            } else {
                live.push(next);
            }
        }
        assert((Battlefield { live: live@, enemies: enemies@, player: *player, free: pool.free@ })
            == step_one(before, p, dt));
        i += 1;
    }
    assert(all.take(n as int) =~= all);
    *projectiles = live;
}

} // verus!
