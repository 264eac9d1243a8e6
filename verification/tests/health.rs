use oplus_combat::cooldown::{AttackState, Cooldown};
use oplus_combat::health::{Health, FULL_RATIO};
use oplus_combat::pool::{ProjectilePool, VfxPool};

#[test]
fn new_health_is_full() {
    let h = Health::new(100_000);
    assert_eq!(h, Health { current: 100_000, max: 100_000 });
    assert!(!h.is_dead());
    assert!(!h.is_damaged_alive());
    assert_eq!(h.ratio(), FULL_RATIO);
}

#[test]
fn damage_is_not_clamped() {
    let mut h = Health { current: 15_000, max: 40_000 };
    h.apply_damage(20_000);
    assert_eq!(h.current, -5_000);
    assert_eq!(h.max, 40_000);
    assert!(h.is_dead());
    assert_eq!(h.ratio(), 0);
}

#[test]
fn damage_stops_at_the_least_value() {
    let mut h = Health { current: i64::MIN + 5, max: 10 };
    h.apply_damage(u64::MAX);
    assert_eq!(h.current, i64::MIN);
    let mut g = Health { current: i64::MAX, max: i64::MAX };
    g.apply_damage(u64::MAX);
    assert_eq!(g.current, i64::MIN);
}

#[test]
fn clamp_after_any_damage_is_in_range() {
    let amounts: [u64; 6] = [0, 1, 7_500, 40_000, 1_000_000, u64::MAX];
    let mut h = Health::new(40_000);
    for a in amounts {
        h.apply_damage(a);
        let mut c = h;
        c.clamp();
        assert!(0 <= c.current && c.current <= c.max);
        assert_eq!(c.max, 40_000);
    }
    h.clamp();
    assert_eq!(h.current, 0);
    let mut over = Health { current: 50, max: 40 };
    over.clamp();
    assert_eq!(over.current, 40);
    let mut inside = Health { current: 17, max: 40 };
    inside.clamp();
    assert_eq!(inside.current, 17);
}

#[test]
fn ratio_rounds_down() {
    assert_eq!(Health { current: 99_000, max: 100_000 }.ratio(), 990_000);
    assert_eq!(Health { current: 1, max: 3 }.ratio(), 333_333);
    assert_eq!(Health { current: 2, max: 3 }.ratio(), 666_666);
    assert_eq!(Health { current: 5, max: 0 }.ratio(), 0);
    assert_eq!(Health { current: i64::MAX - 1, max: i64::MAX }.ratio(), 999_999);
}

#[test]
fn damaged_alive_is_strictly_between() {
    assert!(Health { current: 1, max: 2 }.is_damaged_alive());
    assert!(!Health { current: 2, max: 2 }.is_damaged_alive());
    assert!(!Health { current: 0, max: 2 }.is_damaged_alive());
    assert!(Health { current: 0, max: 2 }.is_dead());
    assert!(!Health { current: 1, max: 2 }.is_dead());
}

#[test]
fn cooldown_counts_down_to_zero() {
    let mut c = Cooldown::new();
    assert!(c.is_ready());
    c.trigger(600_000);
    assert!(!c.is_ready());
    c.tick(16_667);
    assert_eq!(c.remaining, 583_333);
    c.tick(583_333);
    assert!(c.is_ready());
    c.trigger(5);
    c.tick(u32::MAX);
    assert_eq!(c.remaining, 0);
}

#[test]
fn cooldown_tick_of_zero_changes_nothing() {
    let mut c = Cooldown { remaining: 350_000 };
    for _ in 0..1000 {
        c.tick(0);
    }
    assert_eq!(c.remaining, 350_000);
    let mut r = Cooldown::new();
    r.tick(0);
    assert!(r.is_ready());
}

#[test]
fn cooldown_reaching_zero_is_ready_that_tick() {
    let mut c = Cooldown { remaining: 16_667 };
    c.tick(16_667);
    assert!(c.is_ready());
}

#[test]
fn attack_state_ticks_every_channel() {
    let mut s = AttackState::new();
    s.basic_cooldown.trigger(100);
    s.slash_cooldown.trigger(50);
    s.tick(60);
    assert_eq!(s.basic_cooldown.remaining, 40);
    assert_eq!(s.slash_cooldown.remaining, 0);
}

#[test]
fn pool_round_trip_returns_the_same_handle() {
    let mut pool = ProjectilePool::new();
    assert_eq!(pool.acquire(), None);
    assert!(pool.release(7));
    assert!(pool.release(9));
    let h = pool.acquire();
    assert_eq!(h, Some(9));
    assert!(pool.release(9));
    assert_eq!(pool.acquire(), Some(9));
    assert_eq!(pool.free, vec![7]);
    assert!(!pool.contains(9));
    assert!(pool.contains(7));
}

#[test]
fn pool_ignores_a_second_release() {
    let mut pool = VfxPool::new();
    assert!(pool.release(3));
    assert!(!pool.release(3));
    assert_eq!(pool.free, vec![3]);
    assert_eq!(pool.acquire(), Some(3));
    assert_eq!(pool.acquire(), None);
    assert!(pool.free.is_empty());
}
