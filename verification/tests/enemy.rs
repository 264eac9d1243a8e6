use oplus_combat::combat::Actor;
use oplus_combat::enemy::{
    apply_contact_damage_to_player, enemy_cast, enemy_cast_skill, enemy_cast_timer,
    move_enemies_towards_player, nearest_enemy, new_enemy_stats, Chaser, ContactCooldown,
    ContactDamage, EnemyMoveSpeed, Toucher,
};
use oplus_combat::geometry::{UnitVec, Vec2, UNIT_SCALE};
use oplus_combat::health::Health;
use oplus_combat::pool::VfxPool;
use oplus_combat::skills_pool::{SkillId, SkillPool};
use oplus_combat::vfx::VfxOrder;

fn player(x: i32, y: i32) -> Option<Actor> {
    Some(Actor { handle: 1, position: Vec2::new(x, y), health: Health::new(100_000) })
}

fn toucher(x: i32, y: i32, remaining: u32) -> Toucher {
    Toucher {
        position: Vec2::new(x, y),
        damage: ContactDamage { damage_per_hit: 8_000 },
        cooldown: ContactCooldown { remaining, cooldown: 800_000 },
    }
}

#[test]
fn a_new_enemy() {
    let stats = new_enemy_stats();
    assert_eq!(stats.health, Health { current: 100_000, max: 100_000 });
    assert_eq!(stats.speed, EnemyMoveSpeed(80_000));
    assert_eq!(stats.damage, ContactDamage { damage_per_hit: 8_000 });
    assert_eq!(stats.cooldown, ContactCooldown { remaining: 0, cooldown: 800_000 });
}

#[test]
fn enemies_go_straight_toward_the_player() {
    let mut enemies = vec![
        Chaser { position: Vec2::new(100_000, 0), speed: EnemyMoveSpeed(80_000) },
        Chaser { position: Vec2::new(-30_000, -40_000), speed: EnemyMoveSpeed(80_000) },
        Chaser { position: Vec2::new(0, 0), speed: EnemyMoveSpeed(80_000) },
    ];
    move_enemies_towards_player(1_000_000, &Vec2::new(0, 0), &mut enemies);
    assert_eq!(enemies[0].position, Vec2::new(20_000, 0));
    assert_eq!(enemies[1].position, Vec2::new(18_000, 24_000));
    assert_eq!(enemies[2].position, Vec2::new(0, 0));
    assert_eq!(enemies[1].speed, EnemyMoveSpeed(80_000));
}

#[test]
fn contact_hurts_below_the_radius_only() {
    let mut target = player(0, 0);
    let mut enemies = vec![toucher(31_999, 0, 0), toucher(32_000, 0, 0), toucher(0, -10_000, 0)];
    apply_contact_damage_to_player(16_000, &mut target, &mut enemies);
    assert_eq!(target.unwrap().health.current, 84_000);
    assert_eq!(enemies[0].cooldown.remaining, 800_000);
    assert_eq!(enemies[1].cooldown.remaining, 0);
    assert_eq!(enemies[2].cooldown.remaining, 800_000);
}

#[test]
fn contact_pauses_between_touches() {
    let mut target = player(0, 0);
    let mut enemies = vec![toucher(1_000, 0, 0)];
    apply_contact_damage_to_player(16_000, &mut target, &mut enemies);
    assert_eq!(target.unwrap().health.current, 92_000);
    apply_contact_damage_to_player(16_000, &mut target, &mut enemies);
    assert_eq!(target.unwrap().health.current, 92_000);
    assert_eq!(enemies[0].cooldown.remaining, 784_000);
    apply_contact_damage_to_player(784_000, &mut target, &mut enemies);
    assert_eq!(target.unwrap().health.current, 92_000);
    assert_eq!(enemies[0].cooldown.remaining, 0);
    apply_contact_damage_to_player(16_000, &mut target, &mut enemies);
    assert_eq!(target.unwrap().health.current, 84_000);
}

#[test]
fn contact_without_a_player_does_not_even_count_down() {
    let mut nobody = None;
    let mut enemies = vec![toucher(1_000, 0, 500)];
    apply_contact_damage_to_player(16_000, &mut nobody, &mut enemies);
    assert_eq!(nobody, None);
    assert_eq!(enemies[0].cooldown.remaining, 500);
}

#[test]
fn nearest_enemy_is_the_first_of_the_nearest() {
    let to = Vec2::new(0, 0);
    assert_eq!(nearest_enemy(&Vec::new(), &to), None);
    let enemies = vec![
        Vec2::new(50_000, 0),
        Vec2::new(0, -30_000),
        Vec2::new(30_000, 0),
        Vec2::new(0, 30_001),
    ];
    assert_eq!(nearest_enemy(&enemies, &to), Some(1));
    assert_eq!(nearest_enemy(&enemies, &Vec2::new(50_000, 1)), Some(0));
    assert_eq!(nearest_enemy(&vec![Vec2::new(i32::MAX, i32::MAX)], &Vec2::new(i32::MIN, i32::MIN)), Some(0));
}

#[test]
fn enemy_casts_at_a_player_within_reach() {
    let mut pool = SkillPool::default();
    let mut target = player(0, 0);
    let mut vfx = VfxPool::new();
    vfx.release(3);
    let enemies = vec![Vec2::new(500_000, 0), Vec2::new(0, 160_000)];
    let order = enemy_cast(&mut pool, &enemies, &mut target, &mut vfx);
    assert_eq!(
        order,
        Some(VfxOrder {
            recycled: Some(3),
            center: Vec2::new(0, 30_000),
            direction: UnitVec { x: 0, y: -UNIT_SCALE },
            length: 260_000,
            width: 80_000,
            lifetime_ms: 200,
        })
    );
    assert_eq!(target.unwrap().health.current, 75_000);
    assert!(vfx.free.is_empty());
}

#[test]
fn enemy_out_of_reach_skips_the_cast_entirely() {
    let mut pool = SkillPool::default();
    let mut target = player(0, 0);
    let mut vfx = VfxPool::new();
    vfx.release(3);
    let enemies = vec![Vec2::new(500_000, 0), Vec2::new(0, 160_001)];
    assert_eq!(enemy_cast(&mut pool, &enemies, &mut target, &mut vfx), None);
    assert_eq!(target.unwrap().health.current, 100_000);
    assert_eq!(vfx.free, vec![3]);
    assert_eq!(enemy_cast(&mut pool, &Vec::new(), &mut target, &mut vfx), None);
    let mut nobody = None;
    assert_eq!(enemy_cast(&mut pool, &enemies, &mut nobody, &mut vfx), None);
    assert_eq!(nobody, None);
    assert_eq!(pool.next_non_dash(), SkillId::Slash);
}

#[test]
fn enemy_on_top_of_the_player_has_no_direction_to_slash_in() {
    let mut pool = SkillPool::default();
    let mut target = player(7, 7);
    let mut vfx = VfxPool::new();
    let enemies = vec![Vec2::new(7, 7)];
    assert_eq!(enemy_cast(&mut pool, &enemies, &mut target, &mut vfx), None);
    assert_eq!(target.unwrap().health.current, 100_000);
}

#[test]
fn enemy_cast_waits_for_its_timer() {
    let mut timer = enemy_cast_timer();
    let mut pool = SkillPool::default();
    let mut target = player(0, 0);
    let mut vfx = VfxPool::new();
    let enemies = vec![Vec2::new(100_000, 0)];
    let early = enemy_cast_skill(&mut timer, 1_199_999, &mut pool, &enemies, &mut target, &mut vfx);
    assert_eq!(early, None);
    assert_eq!(target.unwrap().health.current, 100_000);
    let cast = enemy_cast_skill(&mut timer, 1, &mut pool, &enemies, &mut target, &mut vfx);
    assert!(cast.is_some());
    assert_eq!(target.unwrap().health.current, 75_000);
    let next = enemy_cast_skill(&mut timer, 1_199_999, &mut pool, &enemies, &mut target, &mut vfx);
    assert_eq!(next, None);
    assert_eq!(target.unwrap().health.current, 75_000);
}
