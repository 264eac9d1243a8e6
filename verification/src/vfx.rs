//! Orders for the transient visual effect of a slash.

use vstd::prelude::*;
use crate::geometry::{unit_of, UnitVec, Vec2};
use crate::pool::{acquired, after_acquire, released, VfxPool};

verus! {

/// Length of the slash effect.
pub const SLASH_VFX_LENGTH: u32 = 260_000;

/// Width of the slash effect.
pub const SLASH_VFX_WIDTH: u32 = 80_000;

/// How long the slash effect shows, in milliseconds.
pub const SLASH_VFX_LIFETIME_MS: u32 = 200;

/// What the caller has to show for a slash: a bar of `length` by `width`
/// around `center`, turned to `direction`, for `lifetime_ms`; on the
/// recycled entity if there is one, else on a new one.
#[derive(Clone, Copy, Debug, PartialEq, Eq, Structural)]
pub struct VfxOrder {
    pub recycled: Option<u64>,
    pub center: Vec2,
    pub direction: UnitVec,
    pub length: u32,
    pub width: u32,
    pub lifetime_ms: u32,
}

/// The order for the effect of a slash from `origin` in `direction`, given
/// the pool's free list: none where there is no direction.
pub open spec fn vfx_order_along(free: Seq<u64>, origin: Vec2, direction: UnitVec) -> Option<
    VfxOrder,
> {
    if direction.x == 0 && direction.y == 0 {
        None
    } else {
        Some(
            VfxOrder {
                recycled: acquired(free),
                center: origin.spec_offset(direction, (SLASH_VFX_LENGTH / 2) as u32),
                direction,
                length: SLASH_VFX_LENGTH,
                width: SLASH_VFX_WIDTH,
                lifetime_ms: SLASH_VFX_LIFETIME_MS,
            },
        )
    }
}

/// The order for the effect of a slash from `origin` along `dir`.
pub open spec fn vfx_order(free: Seq<u64>, origin: Vec2, dir: Vec2) -> Option<VfxOrder> {
    vfx_order_along(free, origin, unit_of(dir.x as int, dir.y as int))
}

/// The pool's free list after the effect of a slash in `direction` was
/// ordered.
pub open spec fn free_after_vfx_along(free: Seq<u64>, direction: UnitVec) -> Seq<u64> {
    if direction.x == 0 && direction.y == 0 {
        free
    } else {
        after_acquire(free)
    }
}

/// The pool's free list after the effect of a slash along `dir` was
/// ordered.
pub open spec fn free_after_vfx(free: Seq<u64>, dir: Vec2) -> Seq<u64> {
    free_after_vfx_along(free, unit_of(dir.x as int, dir.y as int))
}

/// Orders the effect of a slash from `origin` in `direction`: a bar that
/// begins at the attacker and lies along the slash. It takes its entity from
/// the pool if one waits there. Nothing is ordered, and the pool is left
/// alone, where there is no direction.
pub fn slash_vfx_along(pool: &mut VfxPool, origin: &Vec2, direction: &UnitVec) -> (order: Option<
    VfxOrder,
>)
    requires
        direction.wf(),
    ensures
        order == vfx_order_along(old(pool).free@, *origin, *direction),
        final(pool).free@ == free_after_vfx_along(old(pool).free@, *direction),
        old(pool).wf() ==> final(pool).wf(),
{
    if direction.is_zero() {
        return None;
    }
    let center = origin.offset(direction, SLASH_VFX_LENGTH / 2);
    let recycled = pool.acquire();
    Some(
        VfxOrder {
            recycled,
            center,
            direction: *direction,
            length: SLASH_VFX_LENGTH,
            width: SLASH_VFX_WIDTH,
            lifetime_ms: SLASH_VFX_LIFETIME_MS,
        },
    )
}

/// Orders the effect of a slash from `origin` along `dir`, which need not
/// be of unit length. Nothing is ordered, and the pool is left alone, where
/// `dir` is zero.
pub fn spawn_slash_vfx(pool: &mut VfxPool, origin: &Vec2, dir: &Vec2) -> (order: Option<VfxOrder>)
    ensures
        order == vfx_order(old(pool).free@, *origin, *dir),
        final(pool).free@ == free_after_vfx(old(pool).free@, *dir),
        old(pool).wf() ==> final(pool).wf(),
{
    let direction = dir.normalize_or_zero();
    slash_vfx_along(pool, origin, &direction)
}

/// A slash effect on show: what is left of its time, in microseconds.
#[derive(Clone, Copy, Debug, PartialEq, Eq, Structural)]
pub struct SlashVfx {
    pub remaining: u32,
}

/// An effect on show with the entity that carries it.
#[derive(Clone, Copy, Debug, PartialEq, Eq, Structural)]
pub struct LiveVfx {
    pub handle: u64,
    pub vfx: SlashVfx,
}

impl SlashVfx {
    /// The effect that `order` asks for, at the start of its time.
    pub fn of(order: &VfxOrder) -> (vfx: SlashVfx)
        ensures
            vfx.remaining == (if order.lifetime_ms as int * 1000 <= u32::MAX {
                (order.lifetime_ms as int * 1000) as u32
            } else {
                u32::MAX
            }),
    {
        if order.lifetime_ms <= u32::MAX / 1000 {
            SlashVfx { remaining: order.lifetime_ms * 1000 }
        } else {
            SlashVfx { remaining: u32::MAX }
        }
    }
}

/// The effects that are still on show after `dt`, each with what is left of
/// its time, in their order.
pub open spec fn vfx_kept(effects: Seq<LiveVfx>, dt: u32) -> Seq<LiveVfx>
    decreases effects.len(),
{
    if effects.len() == 0 {
        Seq::empty()
    } else if effects.last().vfx.remaining <= dt {
        vfx_kept(effects.drop_last(), dt)
    } else {
        vfx_kept(effects.drop_last(), dt).push(
            LiveVfx {
                handle: effects.last().handle,
                vfx: SlashVfx { remaining: (effects.last().vfx.remaining - dt) as u32 },
            },
        )
    }
}

/// The pool's free list after the effects whose time is up within `dt` were
/// released to it, in their order.
pub open spec fn vfx_released(free: Seq<u64>, effects: Seq<LiveVfx>, dt: u32) -> Seq<u64>
    decreases effects.len(),
{
    if effects.len() == 0 {
        free
    } else if effects.last().vfx.remaining <= dt {
        released(vfx_released(free, effects.drop_last(), dt), effects.last().handle)
    } else {
        vfx_released(free, effects.drop_last(), dt)
    }
}

/// One frame of the effects on show: each runs down by `dt`, and those
/// whose time is up leave `effects` and go back to the pool.
pub fn update_slash_vfx(dt: u32, effects: &mut Vec<LiveVfx>, pool: &mut VfxPool)
    ensures
        final(effects)@ == vfx_kept(old(effects)@, dt),
        final(pool).free@ == vfx_released(old(pool).free@, old(effects)@, dt),
        old(pool).wf() ==> final(pool).wf(),
{
    let mut kept: Vec<LiveVfx> = Vec::new();
    let n = effects.len();
    let mut i: usize = 0;
    while i < n
        invariant
            i <= n,
            n == effects.len(),
            effects@ == old(effects)@,
            kept@ == vfx_kept(effects@.take(i as int), dt),
            pool.free@ == vfx_released(old(pool).free@, effects@.take(i as int), dt),
            old(pool).wf() ==> pool.wf(),
        decreases n - i,
    {
        proof {
            assert(effects@.take(i + 1).drop_last() =~= effects@.take(i as int));
            assert(effects@.take(i + 1).last() == effects@[i as int]);
        }
        let e = effects[i];
        if e.vfx.remaining <= dt {
            pool.release(e.handle);
        } else {
            kept.push(LiveVfx { handle: e.handle, vfx: SlashVfx { remaining: e.vfx.remaining - dt } });
        }
        i += 1;
    }
    assert(effects@.take(n as int) =~= effects@);
    *effects = kept;
}

} // verus!
