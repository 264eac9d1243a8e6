use oplus_combat::geometry::{isqrt, UnitVec, Vec2, UNIT_SCALE};

#[test]
fn isqrt_rounds_down() {
    assert_eq!(isqrt(0), 0);
    assert_eq!(isqrt(1), 1);
    assert_eq!(isqrt(3), 1);
    assert_eq!(isqrt(4), 2);
    assert_eq!(isqrt(99), 9);
    assert_eq!(isqrt(100), 10);
    assert_eq!(isqrt(1_000_000_000_000_000_000_000_000), 1_000_000_000_000);
    assert_eq!(isqrt(u128::MAX), u64::MAX);
}

#[test]
fn normalize_axis_aligned_vectors() {
    assert_eq!(Vec2::new(5, 0).normalize_or_zero(), UnitVec { x: UNIT_SCALE, y: 0 });
    assert_eq!(Vec2::new(0, -7_000).normalize_or_zero(), UnitVec { x: 0, y: -UNIT_SCALE });
    assert_eq!(Vec2::new(0, 1).normalize_or_zero(), UnitVec::up());
    assert_eq!(Vec2::new(i32::MIN, 0).normalize_or_zero(), UnitVec { x: -UNIT_SCALE, y: 0 });
}

#[test]
fn normalize_zero_is_zero() {
    let u = Vec2::new(0, 0).normalize_or_zero();
    assert!(u.is_zero());
    assert!(!UnitVec::up().is_zero());
}

#[test]
fn normalize_three_four_five() {
    assert_eq!(
        Vec2::new(3, 4).normalize_or_zero(),
        UnitVec { x: 600_000_000, y: 800_000_000 }
    );
    assert_eq!(
        Vec2::new(-3_000, 4_000).normalize_or_zero(),
        UnitVec { x: -600_000_000, y: 800_000_000 }
    );
}

#[test]
fn normalize_diagonal_rounds_toward_zero() {
    // 1/sqrt(2) = 0.70710678118...
    let u = Vec2::new(1, 1).normalize_or_zero();
    assert_eq!(u, UnitVec { x: 707_106_781, y: 707_106_781 });
    let v = Vec2::new(-1, -1).normalize_or_zero();
    assert_eq!(v, UnitVec { x: -707_106_781, y: -707_106_781 });
}

#[test]
fn direction_between_far_points() {
    let a = Vec2::new(i32::MIN, 0);
    let b = Vec2::new(i32::MAX, 0);
    assert_eq!(a.direction_to(&b), UnitVec { x: UNIT_SCALE, y: 0 });
    assert_eq!(b.direction_to(&a), UnitVec { x: -UNIT_SCALE, y: 0 });
    assert!(a.direction_to(&a).is_zero());
}

#[test]
fn perp_is_quarter_turn_left() {
    assert_eq!(UnitVec::up().perp(), UnitVec { x: -UNIT_SCALE, y: 0 });
    assert_eq!(UnitVec { x: UNIT_SCALE, y: 0 }.perp(), UnitVec::up());
}

#[test]
fn within_includes_the_rim() {
    let o = Vec2::new(0, 0);
    assert!(o.within(&Vec2::new(3_000, 4_000), 5_000));
    assert!(!o.within(&Vec2::new(3_000, 4_001), 5_000));
    assert!(!o.nearer_than(&Vec2::new(3_000, 4_000), 5_000));
    assert!(o.nearer_than(&Vec2::new(3_000, 3_999), 5_000));
    assert!(o.within(&o, 0));
    assert!(!o.nearer_than(&o, 0));
}

#[test]
fn within_far_apart() {
    let a = Vec2::new(i32::MIN, i32::MIN);
    let b = Vec2::new(i32::MAX, i32::MAX);
    assert!(!a.within(&b, u32::MAX));
    assert!(Vec2::new(i32::MIN, 0).within(&Vec2::new(i32::MAX, 0), u32::MAX));
}
