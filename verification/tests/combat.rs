use oplus_combat::combat::{
    enemy_slash, facing, perform_melee_attack, resolve_basic_attack, skill_slash,
    skill_slash_on_player, strike, Actor, AttackOutcome, HitBox, ENEMY_SLASH_DAMAGE,
    SLASH_DAMAGE, SLASH_TOLERANCE,
};
use oplus_combat::cooldown::AttackState;
use oplus_combat::equipment::{EquipmentSet, ItemDatabase, ItemId, WeaponKind};
use oplus_combat::geometry::{UnitVec, Vec2, UNIT_SCALE};
use oplus_combat::health::Health;
use oplus_combat::hp_bars::{process_enemy_death, sync_enemy_hp_bars, EnemyHpBarMap};
use oplus_combat::pool::ProjectilePool;
use oplus_combat::projectile::{Projectile, SpawnOrder};

fn actor(handle: u64, x: i32, y: i32, current: i64, max: i64) -> Actor {
    Actor { handle, position: Vec2::new(x, y), health: Health { current, max } }
}

fn sword() -> EquipmentSet {
    EquipmentSet::from_weapon(ItemDatabase::default().weapon(ItemId::RustySword).unwrap())
}

fn wand() -> EquipmentSet {
    EquipmentSet::from_weapon(ItemDatabase::default().weapon(ItemId::MagicWand).unwrap())
}

#[test]
fn melee_hits_the_middle_of_the_box() {
    let origin = Vec2::new(0, 0);
    let east = Vec2::new(1_000, 0);
    let mut enemies = vec![actor(1, 40_000, 0, 100_000, 100_000)];
    perform_melee_attack(&origin, &east, 80_000, 40_000, 20_000, &mut enemies);
    assert_eq!(enemies[0].health.current, 80_000);
}

#[test]
fn melee_misses_just_outside_half_width() {
    let origin = Vec2::new(0, 0);
    let east = Vec2::new(1_000, 0);
    let mut enemies = vec![
        actor(1, 40_000, 20_010, 100_000, 100_000),
        actor(2, 40_000, -20_010, 100_000, 100_000),
        actor(3, 40_000, 20_000, 100_000, 100_000),
        actor(4, 40_000, -20_000, 100_000, 100_000),
        actor(5, 40_000, 20_001, 100_000, 100_000),
    ];
    perform_melee_attack(&origin, &east, 80_000, 40_000, 20_000, &mut enemies);
    assert_eq!(enemies[0].health.current, 100_000);
    assert_eq!(enemies[1].health.current, 100_000);
    assert_eq!(enemies[2].health.current, 80_000);
    assert_eq!(enemies[3].health.current, 80_000);
    assert_eq!(enemies[4].health.current, 100_000);
}

#[test]
fn melee_box_ends_at_range_and_at_the_attacker() {
    let origin = Vec2::new(10_000, -5_000);
    let north = Vec2::new(0, 3);
    let mut enemies = vec![
        actor(1, 10_000, -5_000, 50_000, 50_000),
        actor(2, 10_000, 75_000, 50_000, 50_000),
        actor(3, 10_000, 75_001, 50_000, 50_000),
        actor(4, 10_000, -5_001, 50_000, 50_000),
    ];
    perform_melee_attack(&origin, &north, 80_000, 40_000, 7_000, &mut enemies);
    assert_eq!(enemies[0].health.current, 43_000);
    assert_eq!(enemies[1].health.current, 43_000);
    assert_eq!(enemies[2].health.current, 50_000);
    assert_eq!(enemies[3].health.current, 50_000);
}

#[test]
fn melee_hits_every_enemy_in_the_box() {
    let origin = Vec2::new(0, 0);
    let west = Vec2::new(-7, 0);
    let mut enemies = vec![
        actor(1, -10_000, 0, 30_000, 30_000),
        actor(2, -20_000, 5_000, 30_000, 30_000),
        actor(3, -79_000, -19_000, 30_000, 30_000),
        actor(4, 10_000, 0, 30_000, 30_000),
    ];
    perform_melee_attack(&origin, &west, 80_000, 40_000, 30_000, &mut enemies);
    assert_eq!(enemies[0].health.current, 0);
    assert_eq!(enemies[1].health.current, 0);
    assert_eq!(enemies[2].health.current, 0);
    assert_eq!(enemies[3].health.current, 30_000);
    assert_eq!(enemies[3].handle, 4);
    assert_eq!(enemies[2].position, Vec2::new(-79_000, -19_000));
}

#[test]
fn melee_without_direction_hits_nobody() {
    let origin = Vec2::new(0, 0);
    let mut enemies = vec![actor(1, 0, 0, 30_000, 30_000), actor(2, 0, 10_000, 30_000, 30_000)];
    perform_melee_attack(&origin, &Vec2::new(0, 0), 80_000, 40_000, 30_000, &mut enemies);
    assert_eq!(enemies[0].health.current, 30_000);
    assert_eq!(enemies[1].health.current, 30_000);
}

#[test]
fn melee_along_a_diagonal() {
    let origin = Vec2::new(0, 0);
    let dir = Vec2::new(1, 1);
    let mut enemies = vec![
        actor(1, 56_568, 56_568, 10, 10),
        actor(2, 56_569, 56_569, 10, 10),
        actor(3, 14_142, -14_142, 10, 10),
        actor(4, 14_143, -14_143, 10, 10),
        actor(5, 42_426, 14_142, 10, 10),
        actor(6, 42_427, 14_141, 10, 10),
        actor(7, -1, -1, 10, 10),
    ];
    perform_melee_attack(&origin, &dir, 80_000, 40_000, 1, &mut enemies);
    let left: Vec<i64> = enemies.iter().map(|e| e.health.current).collect();
    assert_eq!(left, vec![9, 10, 9, 10, 9, 10, 10]);
}

#[test]
fn slash_tolerance_reaches_behind_the_attacker() {
    let origin = Vec2::new(0, 0);
    let east = Vec2::new(1, 0);
    let behind = -(SLASH_TOLERANCE as i32) / 2;
    let mut enemies = vec![actor(1, behind, 0, 100_000, 100_000)];
    skill_slash(&origin, &east, &mut enemies);
    assert_eq!(enemies[0].health.current, 100_000 - SLASH_DAMAGE as i64);
    let mut others = vec![actor(1, behind, 0, 100_000, 100_000)];
    perform_melee_attack(&origin, &east, 260_000, 100_000, 60_000, &mut others);
    assert_eq!(others[0].health.current, 100_000);
}

#[test]
fn slash_box_with_tolerance_on_every_side() {
    let origin = Vec2::new(0, 0);
    let east = Vec2::new(1, 0);
    let mut enemies = vec![
        actor(1, -6_000, 0, 100_000, 100_000),
        actor(2, -6_001, 0, 100_000, 100_000),
        actor(3, 266_000, 0, 100_000, 100_000),
        actor(4, 266_001, 0, 100_000, 100_000),
        actor(5, 100_000, 56_000, 100_000, 100_000),
        actor(6, 100_000, 56_001, 100_000, 100_000),
        actor(7, 100_000, -56_000, 100_000, 100_000),
        actor(8, 100_000, -56_001, 100_000, 100_000),
    ];
    skill_slash(&origin, &east, &mut enemies);
    let left: Vec<i64> = enemies.iter().map(|e| e.health.current).collect();
    assert_eq!(
        left,
        vec![40_000, 100_000, 40_000, 100_000, 40_000, 100_000, 40_000, 100_000]
    );
}

#[test]
fn slash_without_direction_goes_up() {
    let origin = Vec2::new(0, 0);
    let mut enemies = vec![actor(1, 0, 200_000, 100_000, 100_000), actor(2, 200_000, 0, 100_000, 100_000)];
    skill_slash(&origin, &Vec2::new(0, 0), &mut enemies);
    assert_eq!(enemies[0].health.current, 40_000);
    assert_eq!(enemies[1].health.current, 100_000);
    assert_eq!(facing(&Vec2::new(0, 0)), UnitVec::up());
    assert_eq!(facing(&Vec2::new(-9, 0)), UnitVec { x: -UNIT_SCALE, y: 0 });
}

#[test]
fn enemy_slash_on_player_box() {
    let origin = Vec2::new(0, 0);
    let dir = Vec2::new(0, -1);
    let mut hp = Health::new(100_000);
    skill_slash_on_player(&origin, &dir, &Vec2::new(0, -160_000), &mut hp);
    assert_eq!(hp.current, 100_000 - ENEMY_SLASH_DAMAGE as i64);
    skill_slash_on_player(&origin, &dir, &Vec2::new(0, -160_001), &mut hp);
    assert_eq!(hp.current, 75_000);
    skill_slash_on_player(&origin, &dir, &Vec2::new(40_000, -10_000), &mut hp);
    assert_eq!(hp.current, 50_000);
    skill_slash_on_player(&origin, &dir, &Vec2::new(40_001, -10_000), &mut hp);
    assert_eq!(hp.current, 50_000);
    skill_slash_on_player(&origin, &Vec2::new(0, 0), &Vec2::new(0, 0), &mut hp);
    assert_eq!(hp.current, 50_000);
    enemy_slash(&origin, &UnitVec { x: 0, y: 0 }, &Vec2::new(0, 0), &mut hp);
    assert_eq!(hp.current, 50_000);
    enemy_slash(&origin, &UnitVec { x: UNIT_SCALE, y: 0 }, &Vec2::new(1, 0), &mut hp);
    assert_eq!(hp.current, 25_000);
}

#[test]
fn hit_box_predicate() {
    let area = HitBox::melee(80_000, 40_000);
    let origin = Vec2::new(0, 0);
    let up = UnitVec::up();
    assert!(area.hits(&origin, &up, &Vec2::new(0, 40_000)));
    assert!(area.hits(&origin, &up, &Vec2::new(20_000, 40_000)));
    assert!(area.hits(&origin, &up, &Vec2::new(-20_000, 40_000)));
    assert!(!area.hits(&origin, &up, &Vec2::new(20_001, 40_000)));
    assert!(!area.hits(&origin, &up, &Vec2::new(0, -1)));
    let slash = HitBox::slash();
    assert_eq!(slash, HitBox { length: 260_000, width: 100_000, tolerance: 6_000 });
    assert!(slash.hits(&origin, &up, &Vec2::new(0, -3_000)));
    let far = HitBox { length: u32::MAX, width: u32::MAX, tolerance: u32::MAX };
    assert!(far.hits(
        &Vec2::new(i32::MIN, i32::MIN),
        &up,
        &Vec2::new(i32::MAX, i32::MAX)
    ));
}

#[test]
fn strike_damages_only_those_in_the_box() {
    let mut actors = vec![actor(1, 0, 10, 5, 5), actor(2, 0, -10, 5, 5)];
    strike(&mut actors, &HitBox::melee(100, 100), &Vec2::new(0, 0), &UnitVec::up(), 2);
    assert_eq!(actors[0].health.current, 3);
    assert_eq!(actors[1].health.current, 5);
}

#[test]
fn basic_melee_kill() {
    let mut state = AttackState::new();
    let mut pool = ProjectilePool::new();
    let mut bars = EnemyHpBarMap::new();
    let equipment = EquipmentSet { weapon_damage: 20_000, ..sword() };
    let mut enemies = vec![actor(7, 0, 30_000, 15_000, 40_000)];
    let first = sync_enemy_hp_bars(&mut bars, &enemies);
    assert_eq!(first.create.len(), 1);
    bars.attach(7, 70);
    let outcome = resolve_basic_attack(
        &mut state,
        &Vec2::new(0, 0),
        &Vec2::new(0, 1_000),
        &Vec2::new(0, 0),
        &equipment,
        &mut enemies,
        &mut pool,
    );
    assert_eq!(outcome, AttackOutcome::Swung);
    assert_eq!(enemies[0].health, Health { current: -5_000, max: 40_000 });
    let report = process_enemy_death(&mut bars, &mut enemies);
    assert!(enemies.is_empty());
    assert_eq!(report.dead, vec![7]);
    assert_eq!(report.remove, vec![(7, 70)]);
    assert_eq!(bars.bar(7), None);
    assert!(bars.0.is_empty());
}

#[test]
fn attack_on_cooldown_changes_nothing() {
    let mut state = AttackState::new();
    state.basic_cooldown.trigger(1);
    state.slash_cooldown.trigger(9);
    let mut pool = ProjectilePool::new();
    pool.release(4);
    let mut enemies = vec![actor(7, 0, 30_000, 15_000, 40_000)];
    for equipment in [sword(), wand()] {
        let outcome = resolve_basic_attack(
            &mut state,
            &Vec2::new(0, 0),
            &Vec2::new(0, 1_000),
            &Vec2::new(0, 1_000),
            &equipment,
            &mut enemies,
            &mut pool,
        );
        assert_eq!(outcome, AttackOutcome::NotReady);
        assert_eq!(state.basic_cooldown.remaining, 1);
        assert_eq!(state.slash_cooldown.remaining, 9);
        assert_eq!(enemies[0].health.current, 15_000);
        assert_eq!(pool.free, vec![4]);
    }
}

#[test]
fn a_miss_still_starts_the_cooldown() {
    let mut state = AttackState::new();
    let mut pool = ProjectilePool::new();
    let mut enemies = vec![actor(7, 0, -30_000, 15_000, 40_000)];
    let outcome = resolve_basic_attack(
        &mut state,
        &Vec2::new(0, 0),
        &Vec2::new(0, 1_000),
        &Vec2::new(0, 0),
        &sword(),
        &mut enemies,
        &mut pool,
    );
    assert_eq!(outcome, AttackOutcome::Swung);
    assert_eq!(enemies[0].health.current, 15_000);
    assert_eq!(state.basic_cooldown.remaining, 600_000);
    let mut nobody: Vec<Actor> = Vec::new();
    state.tick(600_000);
    let again = resolve_basic_attack(
        &mut state,
        &Vec2::new(0, 0),
        &Vec2::new(0, 0),
        &Vec2::new(0, 0),
        &sword(),
        &mut nobody,
        &mut pool,
    );
    assert_eq!(again, AttackOutcome::Swung);
    assert_eq!(state.basic_cooldown.remaining, 600_000);
}

#[test]
fn melee_attack_without_movement_faces_up() {
    let mut state = AttackState::new();
    let mut pool = ProjectilePool::new();
    let mut enemies = vec![actor(1, 0, 30_000, 50_000, 50_000), actor(2, 30_000, 0, 50_000, 50_000)];
    resolve_basic_attack(
        &mut state,
        &Vec2::new(0, 0),
        &Vec2::new(0, 0),
        &Vec2::new(1, 0),
        &sword(),
        &mut enemies,
        &mut pool,
    );
    assert_eq!(enemies[0].health.current, 30_000);
    assert_eq!(enemies[1].health.current, 50_000);
}

#[test]
fn ranged_attack_orders_a_projectile_and_deals_no_damage() {
    let mut state = AttackState::new();
    let mut pool = ProjectilePool::new();
    pool.release(11);
    pool.release(12);
    let mut enemies = vec![actor(7, 0, 5_000, 15_000, 40_000)];
    let equipment = wand();
    assert_eq!(equipment.weapon_kind, WeaponKind::Ranged);
    let outcome = resolve_basic_attack(
        &mut state,
        &Vec2::new(3_000, 4_000),
        &Vec2::new(0, 1_000),
        &Vec2::new(30_000, -40_000),
        &equipment,
        &mut enemies,
        &mut pool,
    );
    assert_eq!(
        outcome,
        AttackOutcome::Shot(SpawnOrder {
            recycled: Some(12),
            position: Vec2::new(3_000, 4_000),
            projectile: Projectile {
                direction: UnitVec { x: 600_000_000, y: -800_000_000 },
                speed: 520_000,
                lifetime: 1_200_000,
                damage: 14_000,
                from_player: true,
            },
        })
    );
    assert_eq!(enemies[0].health.current, 15_000);
    assert_eq!(pool.free, vec![11]);
    assert_eq!(state.basic_cooldown.remaining, 350_000);
}

#[test]
fn ranged_attack_without_aim_goes_where_the_player_faces() {
    let mut pool = ProjectilePool::new();
    let mut enemies: Vec<Actor> = Vec::new();
    let mut state = AttackState::new();
    let moving = resolve_basic_attack(
        &mut state,
        &Vec2::new(0, 0),
        &Vec2::new(-1_000, 0),
        &Vec2::new(0, 0),
        &wand(),
        &mut enemies,
        &mut pool,
    );
    match moving {
        AttackOutcome::Shot(order) => {
            assert_eq!(order.projectile.direction, UnitVec { x: -UNIT_SCALE, y: 0 });
            assert_eq!(order.recycled, None);
        }
        _ => panic!("a ranged weapon shoots"),
    }
    let mut state = AttackState::new();
    let standing = resolve_basic_attack(
        &mut state,
        &Vec2::new(0, 0),
        &Vec2::new(0, 0),
        &Vec2::new(0, 0),
        &wand(),
        &mut enemies,
        &mut pool,
    );
    match standing {
        AttackOutcome::Shot(order) => assert_eq!(order.projectile.direction, UnitVec::up()),
        _ => panic!("a ranged weapon shoots"),
    }
}
