//! Projectiles.
//!
//! A projectile caches at spawn everything it needs — origin, unit direction,
//! speed, travel limit, and its shooter's id (kept only to filter collisions,
//! never dereferenced). Each tick it advances by `direction * speed * elapsed`
//! and is removed on the tick its travel distance reaches the limit or it
//! registers a hit.

use vstd::prelude::*;
use crate::vecmath::{
    Vec3I, scale_trunc, scale_trunc_exec, spec_dist_sq, POS_LIMIT, PROJ_POS_LIMIT, DIR_LIMIT,
    RANGE_LIMIT, STEP_LIMIT,
};
use crate::TICK_DELTA_MAX_MS;

verus! {

/// Speed of a hostile's projectile, milli-units per second.
pub const SHOT_SPEED_HOSTILE_MM_S: i64 = 10_000;

/// Speed of the player's projectile, milli-units per second.
pub const SHOT_SPEED_PLAYER_MM_S: i64 = 15_000;

/// Travel limit of every projectile, milli-units.
pub const SHOT_RANGE_MM: i64 = 20_000;

/// Collision radius of a projectile, milli-units.
pub const SHOT_RADIUS_MM: i64 = 100;

/// Damage one projectile hit deals.
pub const SHOT_DAMAGE: u32 = 1;

/// Upper bound on any projectile speed.
pub const SHOT_SPEED_MAX_MM_S: i64 = 100_000;

/// A live or just-expired projectile.
#[derive(Clone, Copy, PartialEq, Eq, Structural, Debug)]
pub struct Projectile {
    /// Where it was fired; fixed, used only for the travel-distance test.
    pub origin: Vec3I,
    /// Current position, advanced every tick.
    pub pos: Vec3I,
    /// Unit flight direction; fixed at spawn.
    pub dir: Vec3I,
    /// The id of whoever fired it: excluded from hits, never damaged.
    pub shooter: u64,
    /// Whether the player fired it; decides which side it can damage.
    pub from_player: bool,
    /// Flight speed, milli-units per second.
    pub speed_mm_s: i64,
    /// Travel limit, milli-units.
    pub max_range_mm: i64,
    /// Cleared the tick the projectile hits or expires; cleared projectiles
    /// are swept out at the end of the tick and never advanced again.
    pub alive: bool,
}

impl Projectile {
    pub open spec fn wf(self) -> bool {
        &&& self.origin.in_bounds(POS_LIMIT as int)
        &&& self.pos.in_bounds(PROJ_POS_LIMIT as int)
        &&& self.dir.in_bounds(DIR_LIMIT as int)
        &&& 1 <= self.speed_mm_s <= SHOT_SPEED_MAX_MM_S
        &&& 1 <= self.max_range_mm <= RANGE_LIMIT
        &&& (self.alive ==> spec_dist_sq(self.origin, self.pos) < self.max_range_mm
            * self.max_range_mm)
    }

    /// A projectile freshly fired from `origin` along `dir`.
    pub open spec fn spec_new(
        origin: Vec3I,
        dir: Vec3I,
        shooter: u64,
        from_player: bool,
        speed_mm_s: i64,
    ) -> Projectile {
        Projectile {
            origin,
            pos: origin,
            dir,
            shooter,
            from_player,
            speed_mm_s,
            max_range_mm: SHOT_RANGE_MM,
            alive: true,
        }
    }

    /// The position one tick later: each coordinate advances by
    /// `dir * speed * elapsed`, scaled down by the direction scale and the
    /// milliseconds in a second.
    pub open spec fn spec_step_pos(self, delta_ms: u64) -> Vec3I {
        Vec3I {
            x: (self.pos.x + scale_trunc(
                self.dir.x as int,
                self.speed_mm_s * delta_ms,
                1_000_000,
            )) as i64,
            y: (self.pos.y + scale_trunc(
                self.dir.y as int,
                self.speed_mm_s * delta_ms,
                1_000_000,
            )) as i64,
            z: (self.pos.z + scale_trunc(
                self.dir.z as int,
                self.speed_mm_s * delta_ms,
                1_000_000,
            )) as i64,
        }
    }

    /// Advances the position by one tick.
    pub fn step_pos(&self, delta_ms: u64) -> (np: Vec3I)
        requires
            self.wf(),
            self.alive,
            delta_ms <= TICK_DELTA_MAX_MS,
        ensures
            np == self.spec_step_pos(delta_ms),
            np.in_bounds(PROJ_POS_LIMIT as int),
    {
        proof {
            lemma_live_projectile_near_origin(*self);
            assert(self.speed_mm_s * delta_ms <= 1_000_000_000) by (nonlinear_arith)
                requires
                    0 <= self.speed_mm_s <= 100_000,
                    0 <= delta_ms <= 10_000,
            ;
        }
        let num: i64 = self.speed_mm_s * (delta_ms as i64);
        let sx = scale_trunc_exec(self.dir.x, num, 1_000_000);
        let sy = scale_trunc_exec(self.dir.y, num, 1_000_000);
        let sz = scale_trunc_exec(self.dir.z, num, 1_000_000);
        proof {
            lemma_step_component_bound(self.dir.x as int, num as int);
            lemma_step_component_bound(self.dir.y as int, num as int);
            lemma_step_component_bound(self.dir.z as int, num as int);
        }
        Vec3I { x: self.pos.x + sx, y: self.pos.y + sy, z: self.pos.z + sz }
    }
}

/// One displacement component stays within the per-tick step limit.
proof fn lemma_step_component_bound(d: int, num: int)
    requires
        -(DIR_LIMIT as int) <= d <= DIR_LIMIT as int,
        0 <= num <= 1_000_000_000,
    ensures
        -(STEP_LIMIT as int) <= scale_trunc(d, num, 1_000_000) <= STEP_LIMIT as int,
{
    assert(-(1_000_000 * 2_000_000) <= d * num <= 1_000_000 * 2_000_000) by (nonlinear_arith)
        requires
            -1_500 <= d <= 1_500,
            0 <= num <= 1_000_000_000,
    ;
    crate::vecmath::lemma_trunc_div_bound(d * num, 1_000_000, STEP_LIMIT as int);
}

/// A live projectile's coordinates stay within one travel limit of its
/// origin.
pub proof fn lemma_live_projectile_near_origin(p: Projectile)
    requires
        p.wf(),
        p.alive,
    ensures
        p.pos.in_bounds(POS_LIMIT + RANGE_LIMIT as int),
{
    assert(-(RANGE_LIMIT as int) <= p.pos.x - p.origin.x <= RANGE_LIMIT as int && -(
    RANGE_LIMIT as int) <= p.pos.y - p.origin.y <= RANGE_LIMIT as int && -(RANGE_LIMIT as int)
        <= p.pos.z - p.origin.z <= RANGE_LIMIT as int) by (nonlinear_arith)
        requires
            (p.origin.x - p.pos.x) * (p.origin.x - p.pos.x) + (p.origin.y - p.pos.y) * (p.origin.y
                - p.pos.y) + (p.origin.z - p.pos.z) * (p.origin.z - p.pos.z)
                < p.max_range_mm * p.max_range_mm,
            0 <= p.max_range_mm <= RANGE_LIMIT,
    ;
}

} // verus!
