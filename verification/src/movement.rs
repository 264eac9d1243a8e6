//! The player's facing and dash.

use vstd::prelude::*;
use crate::cooldown::ticked;
use crate::geometry::{abs, clamp_coord, clamp_to_coord, unit_of, UnitVec, Vec2};
use crate::projectile::{travel, travel_along};

verus! {

/// How long a dash lasts, in microseconds.
pub const DASH_DURATION: u32 = 400_000;

/// How long the dash is unavailable after a dash began, in microseconds.
pub const DASH_COOLDOWN: u32 = 10_000_000;

/// The player's walking speed, in thousandths of a world unit per second.
pub const PLAYER_SPEED: u32 = 200_000;

/// The player's speed while sprinting: one and a half times the walking
/// speed.
pub const SPRINT_SPEED: u32 = 300_000;

/// The player's speed while dashing: three times the walking speed.
pub const DASH_SPEED: u32 = 600_000;

/// The four ways the player can face.
#[derive(Clone, Copy, Debug, PartialEq, Eq, Structural)]
pub enum PlayerDirection {
    Down,
    Left,
    Right,
    Up,
}

/// The facing of a player who moves along `v`, which is not zero: sideways
/// where `v` leans more to the side than up or down.
pub open spec fn facing_of(v: Vec2) -> PlayerDirection {
    if abs(v.x as int) > abs(v.y as int) {
        if v.x > 0 {
            PlayerDirection::Right
        } else {
            PlayerDirection::Left
        }
    } else if v.y > 0 {
        PlayerDirection::Up
    } else {
        PlayerDirection::Down
    }
}

impl PlayerDirection {
    /// The row of the sprite sheet that shows this facing.
    pub fn row_index(self) -> (row: usize)
        ensures
            row == (match self {
                PlayerDirection::Down => 0usize,
                PlayerDirection::Left => 1usize,
                PlayerDirection::Right => 2usize,
                PlayerDirection::Up => 3usize,
            }),
    {
        match self {
            PlayerDirection::Down => 0,
            PlayerDirection::Left => 1,
            PlayerDirection::Right => 2,
            PlayerDirection::Up => 3,
        }
    }

    /// One world unit in this direction.
    pub fn as_vec2(self) -> (v: Vec2)
        ensures
            v == (match self {
                PlayerDirection::Down => Vec2 { x: 0, y: -1000i32 },
                PlayerDirection::Up => Vec2 { x: 0, y: 1000 },
                PlayerDirection::Left => Vec2 { x: -1000i32, y: 0 },
                PlayerDirection::Right => Vec2 { x: 1000, y: 0 },
            }),
    {
        match self {
            PlayerDirection::Down => Vec2 { x: 0, y: -1000 },
            PlayerDirection::Up => Vec2 { x: 0, y: 1000 },
            PlayerDirection::Left => Vec2 { x: -1000, y: 0 },
            PlayerDirection::Right => Vec2 { x: 1000, y: 0 },
        }
    }

    /// The facing of a player who moves along `v`; none where `v` is zero,
    /// so that the player keeps the facing they had.
    pub fn from_movement(v: &Vec2) -> (d: Option<PlayerDirection>)
        ensures
            d == (if v.x == 0 && v.y == 0 {
                None
            } else {
                Some(facing_of(*v))
            }),
    {
        if v.x == 0 && v.y == 0 {
            return None;
        }
        let ax: i64 = if v.x >= 0 { v.x as i64 } else { -(v.x as i64) };
        let ay: i64 = if v.y >= 0 { v.y as i64 } else { -(v.y as i64) };
        if ax > ay {
            if v.x > 0 {
                Some(PlayerDirection::Right)
            } else {
                Some(PlayerDirection::Left)
            }
        } else if v.y > 0 {
            Some(PlayerDirection::Up)
        } else {
            Some(PlayerDirection::Down)
        }
    }
}

/// The direction that the four movement keys ask for: one world unit for
/// each key that is held, opposite keys cancelling. It is not of unit
/// length where two keys combine.
pub fn movement_input(up: bool, down: bool, left: bool, right: bool) -> (v: Vec2)
    ensures
        v.x == (if right { 1000int } else { 0 }) - (if left { 1000int } else { 0 }),
        v.y == (if up { 1000int } else { 0 }) - (if down { 1000int } else { 0 }),
{
    let mut x: i32 = 0;
    let mut y: i32 = 0;
    if up {
        y = y + 1000;
    }
    if down {
        y = y - 1000;
    }
    if left {
        x = x - 1000;
    }
    if right {
        x = x + 1000;
    }
    Vec2 { x, y }
}

/// The state of the player's dash: whether one is under way, how long it
/// still lasts, how long until the next may begin, and where it goes.
#[derive(Clone, Copy, Debug, PartialEq, Eq, Structural)]
pub struct PlayerDash {
    pub is_dashing: bool,
    pub remaining: u32,
    pub cooldown: u32,
    pub direction: UnitVec,
}

impl PlayerDash {
    /// Whether a dash may begin along `movement`: there is a direction, no
    /// dash is under way and the cooldown has run out.
    pub open spec fn can_dash(self, movement: Vec2) -> bool {
        !(movement.x == 0 && movement.y == 0) && !self.is_dashing && self.cooldown == 0
    }

    /// The dash that begins along `movement`.
    pub open spec fn begun(movement: Vec2) -> PlayerDash {
        PlayerDash {
            is_dashing: true,
            remaining: DASH_DURATION,
            cooldown: DASH_COOLDOWN,
            direction: unit_of(movement.x as int, movement.y as int),
        }
    }

    /// This state after `dt`: the cooldown counts down; a dash under way
    /// ends when its time is used up, and else goes on with what is left.
    pub open spec fn after(self, dt: u32) -> PlayerDash {
        PlayerDash {
            is_dashing: self.is_dashing && self.remaining > dt,
            remaining: if self.is_dashing {
                ticked(self.remaining, dt)
            } else {
                self.remaining
            },
            cooldown: ticked(self.cooldown, dt),
            direction: self.direction,
        }
    }

    /// The direction in which the player moves this frame: that of the dash
    /// while one is under way, else that of the input; zero where the player
    /// stands still.
    pub open spec fn spec_move_direction(self, input: Vec2) -> UnitVec {
        if self.is_dashing {
            self.direction
        } else {
            unit_of(input.x as int, input.y as int)
        }
    }

    /// The player's speed this frame.
    pub open spec fn spec_speed(self, sprinting: bool) -> u32 {
        if self.is_dashing {
            DASH_SPEED
        } else if sprinting {
            SPRINT_SPEED
        } else {
            PLAYER_SPEED
        }
    }

    /// No dash under way and none on cooldown.
    pub fn new() -> (d: PlayerDash)
        ensures
            d == (PlayerDash {
                is_dashing: false,
                remaining: 0,
                cooldown: 0,
                direction: UnitVec { x: 0, y: 0 },
            }),
    {
        PlayerDash { is_dashing: false, remaining: 0, cooldown: 0, direction: UnitVec { x: 0, y: 0 } }
    }

    /// Lets `dt` pass.
    pub fn tick(&mut self, dt: u32)
        ensures
            *final(self) == old(self).after(dt),
    {
        self.cooldown = if self.cooldown > dt { self.cooldown - dt } else { 0 };
        if self.is_dashing {
            if self.remaining > dt {
                self.remaining = self.remaining - dt;
            } else {
                self.remaining = 0;
                self.is_dashing = false;
            }
        }
    }

    /// Begins a dash along `movement` if one may begin, and says whether it
    /// did. A dash once begun runs its full time: movement is locked to its
    /// direction until then.
    pub fn try_dash(&mut self, movement: &Vec2) -> (dashed: bool)
        ensures
            dashed == old(self).can_dash(*movement),
            dashed ==> *final(self) == PlayerDash::begun(*movement),
            !dashed ==> *final(self) == *old(self),
            dashed ==> final(self).direction.wf(),
    {
        if (movement.x == 0 && movement.y == 0) || self.is_dashing || self.cooldown > 0 {
            return false;
        }
        self.is_dashing = true;
        self.remaining = DASH_DURATION;
        self.direction = movement.normalize_or_zero();
        self.cooldown = DASH_COOLDOWN;
        true
    }

    /// The direction in which the player moves this frame.
    pub fn move_direction(&self, input: &Vec2) -> (d: UnitVec)
        requires
            self.direction.wf(),
        ensures
            d == self.spec_move_direction(*input),
            d.wf(),
    {
        if self.is_dashing {
            self.direction
        } else {
            input.normalize_or_zero()
        }
    }

    /// The player's speed this frame.
    pub fn speed(&self, sprinting: bool) -> (s: u32)
        ensures
            s == self.spec_speed(sprinting),
    {
        if self.is_dashing {
            DASH_SPEED
        } else if sprinting {
            SPRINT_SPEED
        } else {
            PLAYER_SPEED
        }
    }
}

/// A wall: the centre of an axis-aligned box and half its size.
#[derive(Clone, Copy, Debug, PartialEq, Eq, Structural)]
pub struct Wall {
    pub center: Vec2,
    pub half: Vec2,
}

/// Whether two axis-aligned boxes, each given by its centre and half its
/// size, overlap. Boxes that only touch do not.
pub open spec fn overlaps(a_center: Vec2, a_half: Vec2, b_center: Vec2, b_half: Vec2) -> bool {
    abs(a_center.x - b_center.x) < a_half.x + b_half.x && abs(a_center.y - b_center.y) < a_half.y
        + b_half.y
}

/// Whether two axis-aligned boxes overlap.
pub fn aabb_intersects(a_center: &Vec2, a_half: &Vec2, b_center: &Vec2, b_half: &Vec2) -> (hit: bool)
    ensures
        hit == overlaps(*a_center, *a_half, *b_center, *b_half),
{
    let dx: i64 = a_center.x as i64 - b_center.x as i64;
    let dy: i64 = a_center.y as i64 - b_center.y as i64;
    let ax: i64 = if dx >= 0 { dx } else { -dx };
    let ay: i64 = if dy >= 0 { dy } else { -dy };
    ax < a_half.x as i64 + b_half.x as i64 && ay < a_half.y as i64 + b_half.y as i64
}

/// The place of a box of half size `half` that has stepped by `dx` along
/// the x axis to `pos`, after each of `walls` in turn has pushed it back
/// out to the side it came from.
pub open spec fn pushed_x(pos: Vec2, dx: i32, half: Vec2, walls: Seq<Wall>) -> Vec2
    decreases walls.len(),
{
    if walls.len() == 0 {
        pos
    } else {
        let p = pushed_x(pos, dx, half, walls.drop_last());
        let w = walls.last();
        if overlaps(p, half, w.center, w.half) && dx > 0 {
            Vec2 { x: clamp_coord(w.center.x - w.half.x - half.x), y: p.y }
        } else if overlaps(p, half, w.center, w.half) && dx < 0 {
            Vec2 { x: clamp_coord(w.center.x + w.half.x + half.x), y: p.y }
        } else {
            p
        }
    }
}

/// The same along the y axis.
pub open spec fn pushed_y(pos: Vec2, dy: i32, half: Vec2, walls: Seq<Wall>) -> Vec2
    decreases walls.len(),
{
    if walls.len() == 0 {
        pos
    } else {
        let p = pushed_y(pos, dy, half, walls.drop_last());
        let w = walls.last();
        if overlaps(p, half, w.center, w.half) && dy > 0 {
            Vec2 { x: p.x, y: clamp_coord(w.center.y - w.half.y - half.y) }
        } else if overlaps(p, half, w.center, w.half) && dy < 0 {
            Vec2 { x: p.x, y: clamp_coord(w.center.y + w.half.y + half.y) }
        } else {
            p
        }
    }
}

/// Where a box of half size `half` gets from `start` by `delta` among
/// `walls`: it steps along x and is pushed out of the walls, then along y
/// and is pushed out again.
pub open spec fn moved_with_walls(start: Vec2, delta: Vec2, half: Vec2, walls: Seq<Wall>) -> Vec2 {
    let along_x = pushed_x(
        Vec2 { x: clamp_coord(start.x + delta.x), y: start.y },
        delta.x,
        half,
        walls,
    );
    pushed_y(
        Vec2 { x: along_x.x, y: clamp_coord(along_x.y + delta.y) },
        delta.y,
        half,
        walls,
    )
}

/// Without walls the box just goes where it was headed.
pub proof fn lemma_no_walls_no_push(start: Vec2, delta: Vec2, half: Vec2)
    ensures
        moved_with_walls(start, delta, half, Seq::empty()) == (Vec2 {
            x: clamp_coord(start.x + delta.x),
            y: clamp_coord(start.y + delta.y),
        }),
{
}

fn push_x(pos: Vec2, dx: i32, half: &Vec2, walls: &Vec<Wall>) -> (out: Vec2)
    ensures
        out == pushed_x(pos, dx, *half, walls@),
{
    let mut p = pos;
    let mut i: usize = 0;
    while i < walls.len()
        invariant
            i <= walls.len(),
            p == pushed_x(pos, dx, *half, walls@.take(i as int)),
        decreases walls.len() - i,
    {
        proof {
            assert(walls@.take(i + 1).drop_last() =~= walls@.take(i as int));
            assert(walls@.take(i + 1).last() == walls@[i as int]);
        }
        let w = walls[i];
        if aabb_intersects(&p, half, &w.center, &w.half) {
            if dx > 0 {
                p = Vec2 {
                    x: clamp_to_coord(w.center.x as i64 - w.half.x as i64 - half.x as i64),
                    y: p.y,
                };
            } else if dx < 0 {
                p = Vec2 {
                    x: clamp_to_coord(w.center.x as i64 + w.half.x as i64 + half.x as i64),
                    y: p.y,
                };
            }
        }
        i += 1;
    }
    assert(walls@.take(walls.len() as int) =~= walls@);
    p
}

fn push_y(pos: Vec2, dy: i32, half: &Vec2, walls: &Vec<Wall>) -> (out: Vec2)
    ensures
        out == pushed_y(pos, dy, *half, walls@),
{
    let mut p = pos;
    let mut i: usize = 0;
    while i < walls.len()
        invariant
            i <= walls.len(),
            p == pushed_y(pos, dy, *half, walls@.take(i as int)),
        decreases walls.len() - i,
    {
        proof {
            assert(walls@.take(i + 1).drop_last() =~= walls@.take(i as int));
            assert(walls@.take(i + 1).last() == walls@[i as int]);
        }
        let w = walls[i];
        if aabb_intersects(&p, half, &w.center, &w.half) {
            if dy > 0 {
                p = Vec2 {
                    x: p.x,
                    y: clamp_to_coord(w.center.y as i64 - w.half.y as i64 - half.y as i64),
                };
            } else if dy < 0 {
                p = Vec2 {
                    x: p.x,
                    y: clamp_to_coord(w.center.y as i64 + w.half.y as i64 + half.y as i64),
                };
            }
        }
        i += 1;
    }
    assert(walls@.take(walls.len() as int) =~= walls@);
    p
}

/// Moves a box of half size `player_half` from `start` by `delta` among
/// `walls`, one axis after the other, so that it slides along a wall that
/// it runs into.
pub fn move_with_walls(start: &Vec2, delta: &Vec2, player_half: &Vec2, walls: &Vec<Wall>) -> (end:
    Vec2)
    ensures
        end == moved_with_walls(*start, *delta, *player_half, walls@),
{
    let stepped = Vec2 { x: clamp_to_coord(start.x as i64 + delta.x as i64), y: start.y };
    let along_x = push_x(stepped, delta.x, player_half, walls);
    let stepped = Vec2 { x: along_x.x, y: clamp_to_coord(along_x.y as i64 + delta.y as i64) };
    push_y(stepped, delta.y, player_half, walls)
}

/// How far something gets in `dt` that goes in `direction` at `speed`.
pub open spec fn step_of(direction: UnitVec, speed: u32, dt: u32) -> Vec2 {
    Vec2 {
        x: clamp_coord(travel(direction.x as int, speed, dt)),
        y: clamp_coord(travel(direction.y as int, speed, dt)),
    }
}

/// The player as the movement pass sees them.
#[derive(Clone, Copy, Debug, PartialEq, Eq, Structural)]
pub struct Mover {
    pub position: Vec2,
    pub facing: PlayerDirection,
    pub is_moving: bool,
    pub dash: PlayerDash,
}

/// The player after a frame of `dt` with the input `input`. The dash
/// counts down first. The player then goes where the dash goes while one is
/// under way, else where the input points, sliding along walls, and faces
/// that way; without a direction they stand still and keep their facing.
pub open spec fn after_movement(
    mover: Mover,
    input: Vec2,
    sprinting: bool,
    dt: u32,
    half: Vec2,
    walls: Seq<Wall>,
) -> Mover {
    let dash = mover.dash.after(dt);
    let dir = dash.spec_move_direction(input);
    if dir.x == 0 && dir.y == 0 {
        Mover { is_moving: false, dash, ..mover }
    } else {
        Mover {
            position: moved_with_walls(
                mover.position,
                step_of(dir, dash.spec_speed(sprinting), dt),
                half,
                walls,
            ),
            facing: facing_of(Vec2 { x: dir.x, y: dir.y }),
            is_moving: true,
            dash,
        }
    }
}

/// One frame of the player's movement.
pub fn apply_player_movement(
    mover: &mut Mover,
    input: &Vec2,
    sprinting: bool,
    dt: u32,
    half: &Vec2,
    walls: &Vec<Wall>,
)
    requires
        old(mover).dash.direction.wf(),
    ensures
        *final(mover) == after_movement(*old(mover), *input, sprinting, dt, *half, walls@),
        final(mover).dash.direction.wf(),
{
    mover.dash.tick(dt);
    let dir = mover.dash.move_direction(input);
    if dir.is_zero() {
        mover.is_moving = false;
        return ;
    }
    let speed = mover.dash.speed(sprinting);
    let delta = Vec2 {
        x: clamp_to_coord(travel_along(dir.x, speed, dt)),
        y: clamp_to_coord(travel_along(dir.y, speed, dt)),
    };
    mover.position = move_with_walls(&mover.position, &delta, half, walls);
    match PlayerDirection::from_movement(&Vec2 { x: dir.x, y: dir.y }) {
        Some(facing) => {
            mover.facing = facing;
        },
        None => {},
    }
    mover.is_moving = true;
}

} // verus!
