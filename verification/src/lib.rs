//! Combat resolution core of a top-down action game: attack evaluation,
//! projectile simulation, skill rotation and health-bar bookkeeping, with
//! the bag, the equipment and the movement that they lean on.
//!
//! The library computes on integers. Lengths, hit points and speeds are
//! counted in thousandths, times in microseconds, directions in billionths
//! of the unit. Entities are known by their handles; the world that holds
//! them is the caller's, who hands in plain values and carries out what
//! comes back.

pub mod combat;
pub mod cooldown;
pub mod enemy;
pub mod equip;
pub mod equipment;
pub mod geometry;
pub mod health;
pub mod hp_bars;
pub mod inventory;
pub mod movement;
pub mod pool;
pub mod projectile;
pub mod save_slots;
pub mod skills;
pub mod skills_pool;
pub mod timer;
pub mod vfx;
