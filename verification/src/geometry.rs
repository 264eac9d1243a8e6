//! Fixed-point plane geometry: positions in thousandths of a world unit,
//! unit vectors in billionths.

use vstd::prelude::*;

verus! {

/// Thousandths in one world unit, one hit point or one unit of speed.
pub const MILLI: u32 = 1_000;

/// Microseconds in one second.
pub const MICROS_PER_SECOND: u32 = 1_000_000;

/// Billionths in the length of a unit vector.
pub const UNIT_SCALE: i32 = 1_000_000_000;

/// Largest magnitude of a difference of two `i32` coordinates.
pub const SPAN: i64 = 0xFFFF_FFFF;

/// `r` is the square root of `n`, rounded down.
pub open spec fn is_floor_sqrt(n: nat, r: nat) -> bool {
    r * r <= n < (r + 1) * (r + 1)
}

/// The square root of `n`, rounded down.
pub open spec fn floor_sqrt(n: nat) -> nat {
    choose|r: nat| is_floor_sqrt(n, r)
}

proof fn lemma_floor_sqrt_exists(n: nat)
    ensures
        exists|r: nat| is_floor_sqrt(n, r),
    decreases n,
{
    if n == 0 {
        assert(is_floor_sqrt(0, 0)) by (nonlinear_arith);
    } else {
        let m = (n - 1) as nat;
        lemma_floor_sqrt_exists(m);
        let r = choose|r: nat| is_floor_sqrt(m, r);
        if n < (r + 1) * (r + 1) {
            assert(is_floor_sqrt(n, r));
        } else {
            assert((r + 1) * (r + 1) < (r + 2) * (r + 2)) by (nonlinear_arith);
            assert(is_floor_sqrt(n, r + 1));
        }
    }
}

proof fn lemma_floor_sqrt_unique(n: nat, a: nat, b: nat)
    requires
        is_floor_sqrt(n, a),
        is_floor_sqrt(n, b),
    ensures
        a == b,
{
    if a < b {
        assert((a + 1) * (a + 1) <= b * b) by (nonlinear_arith)
            requires
                a + 1 <= b,
        ;
    }
    if b < a {
        assert((b + 1) * (b + 1) <= a * a) by (nonlinear_arith)
            requires
                b + 1 <= a,
        ;
    }
}

/// `floor_sqrt(n)` is the one number whose square is at most `n` while the
/// square of its successor is not.
pub proof fn lemma_floor_sqrt(n: nat)
    ensures
        is_floor_sqrt(n, floor_sqrt(n)),
        forall|r: nat| is_floor_sqrt(n, r) ==> r == floor_sqrt(n),
{
    lemma_floor_sqrt_exists(n);
    assert forall|r: nat| is_floor_sqrt(n, r) implies r == floor_sqrt(n) by {
        lemma_floor_sqrt_unique(n, r, floor_sqrt(n));
    }
}

/// A number whose square is at most `n` is at most `floor_sqrt(n)`.
pub proof fn lemma_floor_sqrt_lower(n: nat, a: nat)
    requires
        a * a <= n,
    ensures
        a <= floor_sqrt(n),
{
    lemma_floor_sqrt(n);
    let r = floor_sqrt(n);
    if r < a {
        assert((r + 1) * (r + 1) <= a * a) by (nonlinear_arith)
            requires
                r + 1 <= a,
        ;
    }
}

/// Square root of `n`, rounded down.
pub fn isqrt(n: u128) -> (r: u64)
    ensures
        r as nat == floor_sqrt(n as nat),
{
    let mut lo: u128 = 0;
    let mut hi: u128 = 0x1_0000_0000_0000_0000;
    assert(n < hi * hi) by (nonlinear_arith)
        requires
            hi == 0x1_0000_0000_0000_0000u128,
            n <= u128::MAX,
    ;
    while hi - lo > 1
        invariant
            lo < hi <= 0x1_0000_0000_0000_0000,
            lo * lo <= n < hi * hi,
        decreases hi - lo,
    {
        let mid: u128 = lo + (hi - lo) / 2;
        assert(mid * mid <= u128::MAX) by (nonlinear_arith)
            requires
                mid <= 0xFFFF_FFFF_FFFF_FFFF,
        ;
        if mid * mid <= n {
            lo = mid;
        } else {
            hi = mid;
        }
    }
    proof {
        assert(is_floor_sqrt(n as nat, lo as nat));
        lemma_floor_sqrt(n as nat);
    }
    lo as u64
}

/// A point or a displacement of the plane, in thousandths of a world unit.
#[derive(Clone, Copy, Debug, PartialEq, Eq, Structural)]
pub struct Vec2 {
    pub x: i32,
    pub y: i32,
}

/// A direction: a vector of length one in billionths, or the zero vector
/// where there is no direction.
#[derive(Clone, Copy, Debug, PartialEq, Eq, Structural)]
pub struct UnitVec {
    pub x: i32,
    pub y: i32,
}

/// The square of `UNIT_SCALE`.
pub const UNIT_SCALE_SQ: u64 = 1_000_000_000_000_000_000;

pub open spec fn abs(a: int) -> int {
    if a >= 0 {
        a
    } else {
        -a
    }
}

/// The quotient of `a` by a positive `b`, rounded toward zero.
pub open spec fn div_toward_zero(a: int, b: int) -> int {
    if a >= 0 {
        a / b
    } else {
        -((-a) / b)
    }
}

/// The squared length of `(dx, dy)`.
pub open spec fn norm_sq(dx: int, dy: int) -> nat {
    (dx * dx + dy * dy) as nat
}

/// The length of `(dx, dy)` in billionths, rounded down.
pub open spec fn scaled_length(dx: int, dy: int) -> nat {
    floor_sqrt(norm_sq(dx, dy) * UNIT_SCALE_SQ as nat)
}

/// The component `c` of `(dx, dy)` divided by the vector's length, in
/// billionths, rounded toward zero.
pub open spec fn unit_component(c: int, dx: int, dy: int) -> int {
    div_toward_zero(c * UNIT_SCALE_SQ as int, scaled_length(dx, dy) as int)
}

/// The direction of `(dx, dy)`: the zero vector for the zero vector.
pub open spec fn unit_of(dx: int, dy: int) -> UnitVec {
    if dx == 0 && dy == 0 {
        UnitVec { x: 0, y: 0 }
    } else {
        UnitVec { x: unit_component(dx, dx, dy) as i32, y: unit_component(dy, dx, dy) as i32 }
    }
}

/// The length in billionths of a vector other than zero is at least
/// `UNIT_SCALE` times the magnitude of either component.
pub proof fn lemma_scaled_length_bounds(c: int, dx: int, dy: int)
    requires
        c == dx || c == dy,
        dx != 0 || dy != 0,
    ensures
        scaled_length(dx, dy) >= UNIT_SCALE,
        scaled_length(dx, dy) >= abs(c) * UNIT_SCALE,
        0 <= abs(c) * UNIT_SCALE_SQ as int / (scaled_length(dx, dy) as int) <= UNIT_SCALE,
        -UNIT_SCALE <= unit_component(c, dx, dy) <= UNIT_SCALE,
{
    let n = norm_sq(dx, dy);
    let a = abs(c);
    let s = UNIT_SCALE as int;
    let len = scaled_length(dx, dy) as int;
    assert(dx * dx >= 0 && dy * dy >= 0) by (nonlinear_arith);
    assert(n >= 1 && n >= a * a) by (nonlinear_arith)
        requires
            n == dx * dx + dy * dy,
            a == abs(c),
            c == dx || c == dy,
            dx != 0 || dy != 0,
    ;
    assert(s * s == UNIT_SCALE_SQ as int) by (nonlinear_arith)
        requires
            s == 1_000_000_000,
    ;
    assert((s as nat) * (s as nat) <= n * UNIT_SCALE_SQ as nat) by (nonlinear_arith)
        requires
            n >= 1,
            s * s == UNIT_SCALE_SQ as int,
            s >= 0,
    ;
    lemma_floor_sqrt_lower(n * UNIT_SCALE_SQ as nat, s as nat);
    assert(((a * s) as nat) * ((a * s) as nat) <= n * UNIT_SCALE_SQ as nat) by (nonlinear_arith)
        requires
            n >= a * a,
            a >= 0,
            s * s == UNIT_SCALE_SQ as int,
            s >= 0,
    ;
    lemma_floor_sqrt_lower(n * UNIT_SCALE_SQ as nat, (a * s) as nat);
    assert(a * s >= 0) by (nonlinear_arith)
        requires
            a >= 0,
            s >= 0,
    ;
    assert(0 <= a * UNIT_SCALE_SQ as int / len <= s) by (nonlinear_arith)
        requires
            len >= a * s,
            len >= s,
            s == 1_000_000_000,
            a >= 0,
            s * s == UNIT_SCALE_SQ as int,
    ;
    if c >= 0 {
    } else {
        assert((-c) * UNIT_SCALE_SQ as int == -(c * UNIT_SCALE_SQ as int)) by (nonlinear_arith);
        assert(c * (UNIT_SCALE_SQ as int) < 0) by (nonlinear_arith)
            requires
                c < 0,
        ;
    }
    if c > 0 {
        assert(c * UNIT_SCALE_SQ as int >= 0) by (nonlinear_arith)
            requires
                c > 0,
        ;
    }
}

/// Only the zero vector has no direction: the direction of any other
/// vector is not zero, and none of its components is longer than the unit.
pub proof fn lemma_unit_of_nonzero(dx: int, dy: int)
    requires
        dx != 0 || dy != 0,
    ensures
        unit_of(dx, dy).x != 0 || unit_of(dx, dy).y != 0,
        unit_of(dx, dy).wf(),
        unit_of(0, 0) == (UnitVec { x: 0, y: 0 }),
{
    let c = if abs(dx) >= abs(dy) {
        dx
    } else {
        dy
    };
    let a = abs(c);
    let s = UNIT_SCALE as int;
    let n = norm_sq(dx, dy);
    let m = n * UNIT_SCALE_SQ as nat;
    let len = scaled_length(dx, dy) as int;
    lemma_scaled_length_bounds(dx, dx, dy);
    lemma_scaled_length_bounds(dy, dx, dy);
    lemma_floor_sqrt(m);
    assert(dx * dx >= 0 && dy * dy >= 0) by (nonlinear_arith);
    assert(n <= 2 * (a * a)) by (nonlinear_arith)
        requires
            n == dx * dx + dy * dy,
            a >= abs(dx),
            a >= abs(dy),
    ;
    assert(s * s == UNIT_SCALE_SQ as int) by (nonlinear_arith)
        requires
            s == 1_000_000_000,
    ;
    assert(len <= 2 * a * s) by (nonlinear_arith)
        requires
            len * len <= n * (s * s),
            n <= 2 * (a * a),
            a >= 1,
            s >= 1,
            len >= 0,
    ;
    assert(a * (s * s) / len >= 1) by (nonlinear_arith)
        requires
            0 < len <= 2 * a * s,
            a >= 1,
            s >= 2,
    ;
    if c >= 0 {
        assert(c * UNIT_SCALE_SQ as int >= 0) by (nonlinear_arith)
            requires
                c >= 0,
        ;
        assert(unit_component(c, dx, dy) >= 1);
    } else {
        assert((-c) * UNIT_SCALE_SQ as int == -(c * UNIT_SCALE_SQ as int)) by (nonlinear_arith);
        assert(c * (UNIT_SCALE_SQ as int) < 0) by (nonlinear_arith)
            requires
                c < 0,
        ;
        assert(unit_component(c, dx, dy) <= -1);
    }
}

/// The direction of a vector that lies along an axis is that axis, exactly.
pub proof fn lemma_unit_of_axis(d: int)
    requires
        d != 0,
    ensures
        unit_of(d, 0) == (UnitVec {
            x: if d > 0 {
                UNIT_SCALE
            } else {
                (-UNIT_SCALE) as i32
            },
            y: 0,
        }),
        unit_of(0, d) == (UnitVec {
            x: 0,
            y: if d > 0 {
                UNIT_SCALE
            } else {
                (-UNIT_SCALE) as i32
            },
        }),
{
    let a = abs(d);
    let s = UNIT_SCALE as int;
    let q = UNIT_SCALE_SQ as int;
    assert(s * s == q) by (nonlinear_arith)
        requires
            s == 1_000_000_000,
            q == 1_000_000_000_000_000_000,
    ;
    assert(d * d >= 0 && d * d == a * a && 0 * 0 == 0) by (nonlinear_arith)
        requires
            a == abs(d),
    ;
    assert(norm_sq(d, 0) == a * a);
    assert(norm_sq(0, d) == a * a);
    let m = (a * a) as nat * UNIT_SCALE_SQ as nat;
    assert(is_floor_sqrt(m, (a * s) as nat)) by (nonlinear_arith)
        requires
            m == (a * a) * q,
            s * s == q,
            a >= 1,
            s >= 1,
    ;
    lemma_floor_sqrt(m);
    assert(scaled_length(d, 0) == a * s);
    assert(scaled_length(0, d) == a * s);
    assert(a * q / (a * s) == s) by (nonlinear_arith)
        requires
            s * s == q,
            a >= 1,
            s >= 1,
    ;
    assert(0 * q == 0) by (nonlinear_arith);
    assert(0int / (a * s) == 0) by (nonlinear_arith)
        requires
            a * s > 0,
    ;
    assert(a * s > 0) by (nonlinear_arith)
        requires
            a >= 1,
            s >= 1,
    ;
    if d > 0 {
        assert(d * q >= 0) by (nonlinear_arith)
            requires
                d > 0,
                q > 0,
        ;
    } else {
        assert((-d) * q == -(d * q)) by (nonlinear_arith);
        assert(d * q < 0) by (nonlinear_arith)
            requires
                d < 0,
                q > 0,
        ;
    }
}

/// The direction of `(dx, dy)`.
fn unit_from(dx: i64, dy: i64) -> (u: UnitVec)
    requires
        -SPAN <= dx <= SPAN,
        -SPAN <= dy <= SPAN,
    ensures
        u == unit_of(dx as int, dy as int),
        u.wf(),
{
    if dx == 0 && dy == 0 {
        return UnitVec { x: 0, y: 0 };
    }
    let ax: u128 = (if dx >= 0 { dx } else { -dx }) as u128;
    let ay: u128 = (if dy >= 0 { dy } else { -dy }) as u128;
    assert(ax * ax <= 0xFFFF_FFFF * 0xFFFF_FFFF && ay * ay <= 0xFFFF_FFFF * 0xFFFF_FFFF
        && ax * ax == dx * dx && ay * ay == dy * dy) by (nonlinear_arith)
        requires
            ax == abs(dx as int),
            ay == abs(dy as int),
            ax <= 0xFFFF_FFFF,
            ay <= 0xFFFF_FFFF,
    ;
    let n: u128 = ax * ax + ay * ay;
    assert(n * UNIT_SCALE_SQ <= u128::MAX) by (nonlinear_arith)
        requires
            n <= 2 * (0xFFFF_FFFF * 0xFFFF_FFFF),
            UNIT_SCALE_SQ == 1_000_000_000_000_000_000,
    ;
    let len: u128 = isqrt(n * (UNIT_SCALE_SQ as u128)) as u128;
    proof {
        assert(n as nat == norm_sq(dx as int, dy as int));
        assert(len as nat == scaled_length(dx as int, dy as int));
        lemma_scaled_length_bounds(dx as int, dx as int, dy as int);
        lemma_scaled_length_bounds(dy as int, dx as int, dy as int);
        assert(ax * UNIT_SCALE_SQ <= u128::MAX && ay * UNIT_SCALE_SQ <= u128::MAX)
            by (nonlinear_arith)
            requires
                ax <= 0xFFFF_FFFF,
                ay <= 0xFFFF_FFFF,
                UNIT_SCALE_SQ == 1_000_000_000_000_000_000,
        ;
    }
    let qx: u128 = ax * (UNIT_SCALE_SQ as u128) / len;
    let qy: u128 = ay * (UNIT_SCALE_SQ as u128) / len;
    proof {
        if dx < 0 {
            assert((-(dx as int)) * UNIT_SCALE_SQ as int == -(dx as int * UNIT_SCALE_SQ as int))
                by (nonlinear_arith);
            assert((dx as int) * (UNIT_SCALE_SQ as int) < 0) by (nonlinear_arith)
                requires
                    dx < 0,
            ;
        } else {
            assert((dx as int) * UNIT_SCALE_SQ as int >= 0) by (nonlinear_arith)
                requires
                    dx >= 0,
            ;
        }
        if dy < 0 {
            assert((-(dy as int)) * UNIT_SCALE_SQ as int == -(dy as int * UNIT_SCALE_SQ as int))
                by (nonlinear_arith);
            assert((dy as int) * (UNIT_SCALE_SQ as int) < 0) by (nonlinear_arith)
                requires
                    dy < 0,
            ;
        } else {
            assert((dy as int) * UNIT_SCALE_SQ as int >= 0) by (nonlinear_arith)
                requires
                    dy >= 0,
            ;
        }
    }
    let ux: i32 = if dx >= 0 { qx as i32 } else { -(qx as i32) };
    let uy: i32 = if dy >= 0 { qy as i32 } else { -(qy as i32) };
    UnitVec { x: ux, y: uy }
}

/// A coordinate brought into the range that a position can hold.
pub open spec fn clamp_coord(v: int) -> i32 {
    if v > i32::MAX {
        i32::MAX
    } else if v < i32::MIN {
        i32::MIN
    } else {
        v as i32
    }
}

/// A coordinate brought into the range that a position can hold.
pub fn clamp_to_coord(v: i64) -> (c: i32)
    ensures
        c == clamp_coord(v as int),
{
    if v > i32::MAX as i64 {
        i32::MAX
    } else if v < i32::MIN as i64 {
        i32::MIN
    } else {
        v as i32
    }
}

/// How far `distance` along a direction reaches on one axis: the component
/// of the direction times the distance, rounded toward zero.
pub open spec fn reach(component: int, distance: u32) -> int {
    div_toward_zero(component * distance, UNIT_SCALE as int)
}

fn reach_along(component: i32, distance: u32) -> (d: i64)
    requires
        -UNIT_SCALE <= component <= UNIT_SCALE,
    ensures
        d == reach(component as int, distance),
        -0x1_0000_0000 <= d <= 0x1_0000_0000,
{
    let c: u64 = (if component >= 0 { component as i64 } else { -(component as i64) }) as u64;
    assert(0 <= c * distance <= 1_000_000_000 * 0xFFFF_FFFF) by (nonlinear_arith)
        requires
            0 <= c <= 1_000_000_000,
            0 <= distance <= 0xFFFF_FFFF,
    ;
    let m: u64 = c * (distance as u64);
    let q: u64 = m / (UNIT_SCALE as u64);
    assert(q <= 0x1_0000_0000) by (nonlinear_arith)
        requires
            q == m / 1_000_000_000,
            m <= 1_000_000_000 * 0xFFFF_FFFF,
    ;
    proof {
        let ci = component as int;
        if component < 0 {
            assert((-ci) * distance == -(ci * distance)) by (nonlinear_arith);
        }
    }
    if component >= 0 {
        q as i64
    } else {
        -(q as i64)
    }
}

impl UnitVec {
    /// No component is longer than the unit.
    pub open spec fn wf(self) -> bool {
        -UNIT_SCALE <= self.x <= UNIT_SCALE && -UNIT_SCALE <= self.y <= UNIT_SCALE
    }

    /// The direction of the positive y axis.
    pub fn up() -> (u: UnitVec)
        ensures
            u == (UnitVec { x: 0, y: UNIT_SCALE }),
            u.wf(),
    {
        UnitVec { x: 0, y: UNIT_SCALE }
    }

    /// Whether this is the zero vector, which stands for no direction.
    pub fn is_zero(&self) -> (z: bool)
        ensures
            z == (self.x == 0 && self.y == 0),
    {
        self.x == 0 && self.y == 0
    }

    /// This direction turned a quarter turn counter-clockwise.
    pub open spec fn spec_perp(self) -> UnitVec {
        UnitVec { x: (-self.y) as i32, y: self.x }
    }

    /// This direction turned a quarter turn counter-clockwise.
    pub fn perp(&self) -> (p: UnitVec)
        requires
            self.wf(),
        ensures
            p == self.spec_perp(),
            p.wf(),
    {
        UnitVec { x: -self.y, y: self.x }
    }
}

impl Vec2 {
    pub fn new(x: i32, y: i32) -> (v: Vec2)
        ensures
            v == (Vec2 { x, y }),
    {
        Vec2 { x, y }
    }

    /// The direction of this vector, or the zero vector if it is zero.
    pub fn normalize_or_zero(&self) -> (u: UnitVec)
        ensures
            u == unit_of(self.x as int, self.y as int),
            u.wf(),
    {
        unit_from(self.x as i64, self.y as i64)
    }

    /// The direction from this point to `target`, or the zero vector if the
    /// two coincide.
    pub fn direction_to(&self, target: &Vec2) -> (u: UnitVec)
        ensures
            u == unit_of(target.x - self.x, target.y - self.y),
            u.wf(),
    {
        unit_from(target.x as i64 - self.x as i64, target.y as i64 - self.y as i64)
    }

    /// The point `distance` from this one in `direction`. It stops at the
    /// edge of what a position can hold.
    pub open spec fn spec_offset(self, direction: UnitVec, distance: u32) -> Vec2 {
        Vec2 {
            x: clamp_coord(self.x + reach(direction.x as int, distance)),
            y: clamp_coord(self.y + reach(direction.y as int, distance)),
        }
    }

    /// The point `distance` from this one in `direction`.
    pub fn offset(&self, direction: &UnitVec, distance: u32) -> (p: Vec2)
        requires
            direction.wf(),
        ensures
            p == self.spec_offset(*direction, distance),
    {
        Vec2 {
            x: clamp_to_coord(self.x as i64 + reach_along(direction.x, distance)),
            y: clamp_to_coord(self.y as i64 + reach_along(direction.y, distance)),
        }
    }

    /// The square of the distance between this point and `other`.
    pub fn distance_squared(&self, other: &Vec2) -> (d: u128)
        ensures
            d == norm_sq(other.x - self.x, other.y - self.y),
    {
        let dx: i128 = other.x as i128 - self.x as i128;
        let dy: i128 = other.y as i128 - self.y as i128;
        assert(0 <= dx * dx <= 0xFFFF_FFFF * 0xFFFF_FFFF && 0 <= dy * dy <= 0xFFFF_FFFF
            * 0xFFFF_FFFF) by (nonlinear_arith)
            requires
                -0xFFFF_FFFF <= dx <= 0xFFFF_FFFF,
                -0xFFFF_FFFF <= dy <= 0xFFFF_FFFF,
        ;
        (dx * dx + dy * dy) as u128
    }

    /// Whether `other` lies within `radius` of this point, the rim included.
    pub fn within(&self, other: &Vec2, radius: u32) -> (b: bool)
        ensures
            b == (norm_sq(other.x - self.x, other.y - self.y) <= radius * radius),
    {
        let dx: i128 = other.x as i128 - self.x as i128;
        let dy: i128 = other.y as i128 - self.y as i128;
        assert(0 <= dx * dx <= 0xFFFF_FFFF * 0xFFFF_FFFF && 0 <= dy * dy <= 0xFFFF_FFFF
            * 0xFFFF_FFFF) by (nonlinear_arith)
            requires
                -0xFFFF_FFFF <= dx <= 0xFFFF_FFFF,
                -0xFFFF_FFFF <= dy <= 0xFFFF_FFFF,
        ;
        assert(0 <= radius * radius <= 0xFFFF_FFFF * 0xFFFF_FFFF) by (nonlinear_arith)
            requires
                0 <= radius <= 0xFFFF_FFFF,
        ;
        let r: i128 = radius as i128;
        dx * dx + dy * dy <= r * r
    }

    /// Whether `other` lies nearer to this point than `radius`.
    pub fn nearer_than(&self, other: &Vec2, radius: u32) -> (b: bool)
        ensures
            b == (norm_sq(other.x - self.x, other.y - self.y) < radius * radius),
    {
        let dx: i128 = other.x as i128 - self.x as i128;
        let dy: i128 = other.y as i128 - self.y as i128;
        assert(0 <= dx * dx <= 0xFFFF_FFFF * 0xFFFF_FFFF && 0 <= dy * dy <= 0xFFFF_FFFF
            * 0xFFFF_FFFF) by (nonlinear_arith)
            requires
                -0xFFFF_FFFF <= dx <= 0xFFFF_FFFF,
                -0xFFFF_FFFF <= dy <= 0xFFFF_FFFF,
        ;
        assert(0 <= radius * radius <= 0xFFFF_FFFF * 0xFFFF_FFFF) by (nonlinear_arith)
            requires
                0 <= radius <= 0xFFFF_FFFF,
        ;
        let r: i128 = radius as i128;
        dx * dx + dy * dy < r * r
    }
}

} // verus!
