use oplus_combat::combat::Actor;
use oplus_combat::geometry::{UnitVec, Vec2, UNIT_SCALE};
use oplus_combat::health::Health;
use oplus_combat::pool::ProjectilePool;
use oplus_combat::projectile::{
    spawn_along, spawn_projectile, step_position, travel_along, update_projectiles,
    LiveProjectile, Projectile, SpawnOrder, HIT_RADIUS,
};

fn actor(handle: u64, x: i32, y: i32, current: i64) -> Actor {
    Actor { handle, position: Vec2::new(x, y), health: Health { current, max: 100_000 } }
}

fn shot(handle: u64, x: i32, y: i32, dir: UnitVec, from_player: bool) -> LiveProjectile {
    LiveProjectile {
        handle,
        position: Vec2::new(x, y),
        projectile: Projectile {
            direction: dir,
            speed: 400_000,
            lifetime: 1_000_000,
            damage: 14_000,
            from_player,
        },
    }
}

const EAST: UnitVec = UnitVec { x: UNIT_SCALE, y: 0 };

#[test]
fn spawn_without_direction_orders_nothing() {
    let mut pool = ProjectilePool::new();
    pool.release(5);
    let order = spawn_projectile(&mut pool, &Vec2::new(1, 2), &Vec2::new(0, 0), 1, 2, 3, true);
    assert_eq!(order, None);
    assert_eq!(pool.free, vec![5]);
}

#[test]
fn spawn_takes_the_handle_released_last() {
    let mut pool = ProjectilePool::new();
    pool.release(5);
    pool.release(6);
    let order =
        spawn_projectile(&mut pool, &Vec2::new(1, 2), &Vec2::new(0, -20), 650_000, 1_000_000, 18_000, false);
    assert_eq!(
        order,
        Some(SpawnOrder {
            recycled: Some(6),
            position: Vec2::new(1, 2),
            projectile: Projectile {
                direction: UnitVec { x: 0, y: -UNIT_SCALE },
                speed: 650_000,
                lifetime: 1_000_000,
                damage: 18_000,
                from_player: false,
            },
        })
    );
    assert_eq!(pool.free, vec![5]);
}

#[test]
fn spawn_from_an_empty_pool_asks_for_a_new_entity() {
    let mut pool = ProjectilePool::new();
    let order = spawn_along(&mut pool, &Vec2::new(0, 0), EAST, 1, 2, 3, true);
    assert_eq!(order.recycled, None);
    assert_eq!(order.projectile.direction, EAST);
    assert!(pool.free.is_empty());
}

#[test]
fn travel_rounds_toward_zero() {
    assert_eq!(travel_along(UNIT_SCALE, 400_000, 16_667), 6_666);
    assert_eq!(travel_along(-UNIT_SCALE, 400_000, 16_667), -6_666);
    assert_eq!(travel_along(-UNIT_SCALE, 520_000, 1_000_000), -520_000);
    assert_eq!(travel_along(707_106_781, 400_000, 16_667), 4_714);
    assert_eq!(travel_along(0, u32::MAX, u32::MAX), 0);
    assert_eq!(travel_along(UNIT_SCALE, u32::MAX, u32::MAX), 18_446_744_065_119);
}

#[test]
fn step_position_stops_at_the_edge() {
    let p = step_position(&Vec2::new(i32::MAX - 5, 0), &EAST, 400_000, 1_000_000);
    assert_eq!(p, Vec2::new(i32::MAX, 0));
    let q = step_position(
        &Vec2::new(i32::MIN + 5, 7),
        &UnitVec { x: -UNIT_SCALE, y: 0 },
        400_000,
        1_000_000,
    );
    assert_eq!(q, Vec2::new(i32::MIN, 7));
    let r = step_position(
        &Vec2::new(0, 0),
        &UnitVec { x: 600_000_000, y: -800_000_000 },
        650_000,
        100_000,
    );
    assert_eq!(r, Vec2::new(39_000, -52_000));
}

#[test]
fn projectile_flies_in_a_straight_line() {
    let mut live = vec![shot(1, 0, 0, EAST, true)];
    let mut enemies: Vec<Actor> = Vec::new();
    let mut player = None;
    let mut pool = ProjectilePool::new();
    update_projectiles(16_667, &mut live, &mut enemies, &mut player, &mut pool);
    assert_eq!(live.len(), 1);
    assert_eq!(live[0].position, Vec2::new(6_666, 0));
    assert_eq!(live[0].projectile.lifetime, 983_333);
    assert_eq!(live[0].projectile.direction, EAST);
    assert_eq!(live[0].handle, 1);
    assert!(pool.free.is_empty());
}

#[test]
fn projectile_expires_without_moving_or_hitting() {
    let mut live = vec![shot(1, 0, 0, EAST, true), shot(2, 0, 0, EAST, true)];
    live[0].projectile.lifetime = 16_667;
    live[1].projectile.lifetime = 16_668;
    let mut enemies = vec![actor(9, 0, 0, 50_000)];
    let mut player = None;
    let mut pool = ProjectilePool::new();
    update_projectiles(16_667, &mut live, &mut enemies, &mut player, &mut pool);
    assert_eq!(pool.free, vec![1, 2]);
    assert!(live.is_empty());
    assert_eq!(enemies[0].health.current, 36_000);
}

#[test]
fn expired_projectile_deals_no_damage() {
    let mut live = vec![shot(1, 0, 0, EAST, true)];
    live[0].projectile.lifetime = 10;
    let mut enemies = vec![actor(9, 0, 0, 50_000)];
    let mut player = None;
    let mut pool = ProjectilePool::new();
    update_projectiles(10, &mut live, &mut enemies, &mut player, &mut pool);
    assert_eq!(enemies[0].health.current, 50_000);
    assert_eq!(pool.free, vec![1]);
    assert!(live.is_empty());
}

#[test]
fn projectile_damages_everyone_within_reach() {
    let r = HIT_RADIUS as i32;
    let mut live = vec![shot(1, -4_000, 0, EAST, true)];
    let mut enemies = vec![
        actor(1, r, 0, 50_000),
        actor(2, -r, 0, 50_000),
        actor(3, r + 1, 0, 50_000),
        actor(4, 0, r, 50_000),
        actor(5, 8_485, 8_485, 50_000),
        actor(6, 8_486, 8_486, 50_000),
    ];
    let mut player = None;
    let mut pool = ProjectilePool::new();
    update_projectiles(10_000, &mut live, &mut enemies, &mut player, &mut pool);
    let left: Vec<i64> = enemies.iter().map(|e| e.health.current).collect();
    assert_eq!(left, vec![36_000, 36_000, 50_000, 36_000, 36_000, 50_000]);
    assert!(live.is_empty());
    assert_eq!(pool.free, vec![1]);
}

#[test]
fn player_projectile_never_hurts_the_player() {
    let mut live = vec![shot(1, 0, 0, EAST, true)];
    let mut enemies: Vec<Actor> = Vec::new();
    let mut player = Some(actor(100, 4_000, 0, 80_000));
    let mut pool = ProjectilePool::new();
    update_projectiles(10_000, &mut live, &mut enemies, &mut player, &mut pool);
    assert_eq!(player, Some(actor(100, 4_000, 0, 80_000)));
    assert_eq!(live.len(), 1);
    assert_eq!(live[0].position, Vec2::new(4_000, 0));
    assert!(pool.free.is_empty());
}

#[test]
fn enemy_projectile_hurts_the_player_only() {
    let mut live = vec![shot(1, 0, 0, EAST, false)];
    let mut enemies = vec![actor(9, 4_000, 0, 50_000)];
    let mut player = Some(actor(100, 4_000, 12_000, 80_000));
    let mut pool = ProjectilePool::new();
    update_projectiles(10_000, &mut live, &mut enemies, &mut player, &mut pool);
    assert_eq!(enemies[0].health.current, 50_000);
    assert_eq!(player.unwrap().health.current, 66_000);
    assert!(live.is_empty());
    assert_eq!(pool.free, vec![1]);
}

#[test]
fn enemy_projectile_without_a_player_flies_on() {
    let mut live = vec![shot(1, 0, 0, EAST, false)];
    let mut enemies = vec![actor(9, 4_000, 0, 50_000)];
    let mut player = None;
    let mut pool = ProjectilePool::new();
    update_projectiles(10_000, &mut live, &mut enemies, &mut player, &mut pool);
    assert_eq!(enemies[0].health.current, 50_000);
    assert_eq!(live.len(), 1);
    let mut far = Some(actor(100, 4_000, 12_001, 80_000));
    update_projectiles(0, &mut live, &mut enemies, &mut far, &mut pool);
    assert_eq!(far.unwrap().health.current, 80_000);
    assert_eq!(live.len(), 1);
}

#[test]
fn projectiles_are_handled_in_order() {
    let mut live = vec![
        shot(1, 0, 0, EAST, true),
        shot(2, 0, 100_000, EAST, true),
        shot(3, 0, 0, EAST, true),
        shot(4, 0, 0, EAST, false),
    ];
    let mut enemies = vec![actor(9, 4_000, 0, 20_000)];
    let mut player = Some(actor(100, 4_000, 0, 80_000));
    let mut pool = ProjectilePool::new();
    pool.release(77);
    update_projectiles(10_000, &mut live, &mut enemies, &mut player, &mut pool);
    assert_eq!(enemies[0].health.current, -8_000);
    assert_eq!(player.unwrap().health.current, 66_000);
    assert_eq!(pool.free, vec![77, 1, 3, 4]);
    assert_eq!(live.len(), 1);
    assert_eq!(live[0].handle, 2);
    assert_eq!(live[0].position, Vec2::new(4_000, 100_000));
}

#[test]
fn retired_projectile_is_reused_by_the_next_spawn() {
    let mut live = vec![shot(42, 0, 0, EAST, true)];
    let mut enemies = vec![actor(9, 0, 0, 20_000)];
    let mut player = None;
    let mut pool = ProjectilePool::new();
    update_projectiles(1, &mut live, &mut enemies, &mut player, &mut pool);
    assert!(live.is_empty());
    let order = spawn_projectile(&mut pool, &Vec2::new(5, 5), &Vec2::new(0, 9), 1, 2, 3, false)
        .unwrap();
    assert_eq!(order.recycled, Some(42));
    assert_eq!(
        order.projectile,
        Projectile { direction: UnitVec::up(), speed: 1, lifetime: 2, damage: 3, from_player: false }
    );
    assert_eq!(order.position, Vec2::new(5, 5));
    assert!(pool.free.is_empty());
}
