//! Run configuration: the fixed tick duration, the default player speed, the
//! spawn offset, and the viewport dimensions supplied once by the host.
//!
//! World lengths are measured in *subunits*: one world unit is
//! `4 * dt.den` subunits for a tick duration of `dt.num / dt.den` seconds.
//! With that scale every quantity the core computes is an exact integer:
//! the spawn offset is a whole number of quarter units, and the per-tick
//! displacement `speed * dt * direction` equals `4 * speed * dt.num`
//! subunits.

use vstd::prelude::*;

verus! {

/// Default player speed in world units per second.
pub const DEFAULT_SPEED: u32 = 500;

/// Default tick duration numerator, in seconds: 1/60 s.
pub const DEFAULT_DT_NUM: u32 = 1;

/// Default tick duration denominator.
pub const DEFAULT_DT_DEN: u32 = 60;

/// Default spawn offset above the bottom edge, in quarter units:
/// 95/4 = 23.75 world units.
pub const DEFAULT_SPAWN_OFFSET_QUARTERS: i32 = 95;

/// Draw-order depth of the player sprite, in whole world units.
pub const PLAYER_DEPTH: u32 = 10;

/// Largest accepted tick-duration numerator or denominator.
pub const DT_LIMIT: u32 = 1_000_000;

/// Largest accepted viewport dimension, in pixels.
pub const DIM_LIMIT: u32 = 1_000_000;

/// Positions are kept within `[-POS_LIMIT, POS_LIMIT]` subunits (2^60), so a
/// tick can add a displacement without overflowing an `i64`.
pub const POS_LIMIT: i64 = 1_152_921_504_606_846_976;

/// A tick duration of `num / den` seconds.
#[derive(Clone, Copy, Debug, PartialEq, Eq, Structural)]
pub struct TickDt {
    pub num: u32,
    pub den: u32,
}

impl TickDt {
    /// A positive duration whose parts are small enough for exact
    /// subunit arithmetic in `i64`.
    pub open spec fn wf(self) -> bool {
        1 <= self.num <= DT_LIMIT && 1 <= self.den <= DT_LIMIT
    }
}

/// The compile-time constants of the core, gathered so a host can configure
/// them once at startup.
#[derive(Clone, Copy, Debug, PartialEq, Eq, Structural)]
pub struct Config {
    /// Fixed tick duration.
    pub dt: TickDt,
    /// Speed given to the player at spawn, in units per second.
    pub default_speed: u32,
    /// Height above the bottom edge at which the player spawns, in quarter
    /// units; may be negative.
    pub spawn_offset_quarters: i32,
}

impl Config {
    pub open spec fn wf(self) -> bool {
        self.dt.wf()
    }

    /// Subunits per world unit under this configuration.
    pub open spec fn scale(self) -> int {
        4 * self.dt.den
    }
}

impl Default for Config {
    /// The defaults of the core: 1/60 s ticks, speed 500, offset 95/4 units.
    fn default() -> (c: Config)
        ensures
            c.dt.num == DEFAULT_DT_NUM,
            c.dt.den == DEFAULT_DT_DEN,
            c.default_speed == DEFAULT_SPEED,
            c.spawn_offset_quarters == DEFAULT_SPAWN_OFFSET_QUARTERS,
            c.wf(),
    {
        Config {
            dt: TickDt { num: DEFAULT_DT_NUM, den: DEFAULT_DT_DEN },
            default_speed: DEFAULT_SPEED,
            spawn_offset_quarters: DEFAULT_SPAWN_OFFSET_QUARTERS,
        }
    }
}

/// The host's drawable area, in pixels, read once at startup.
#[derive(Clone, Copy, Debug, PartialEq, Eq, Structural)]
pub struct Viewport {
    pub width: u32,
    pub height: u32,
}

impl Viewport {
    pub open spec fn wf(self) -> bool {
        self.width <= DIM_LIMIT && self.height <= DIM_LIMIT
    }
}

} // verus!
