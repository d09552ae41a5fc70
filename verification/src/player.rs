//! The player.
//!
//! Exactly one player exists, created with the world; it cannot be spawned or
//! despawned afterwards, so the missing-singleton case cannot arise. The
//! input collaborator hands the simulation already-decoded per-tick values:
//! movement axes, the cursor's world position, jump and fire edges, and
//! whether the player stands on ground.

use vstd::prelude::*;
use crate::vecmath::{
    Vec3I, normalize, norm_dir, scale_trunc, scale_trunc_exec, lemma_trunc_div_bound,
    SCALE, POS_LIMIT, VEL_LIMIT,
};
use crate::timer::Timer;
use crate::combat::shotgun5_dirs;

verus! {

/// The player's starting health.
pub const PLAYER_START_HEALTH: u32 = 5;

/// The player's movement speed, milli-units per second.
pub const PLAYER_SPEED_MM_S: i64 = 4_000;

/// The player's collision radius.
pub const PLAYER_RADIUS_MM: i64 = 1_000;

/// Reach of the player's melee strike.
pub const PLAYER_MELEE_RANGE_MM: i64 = 1_000;

/// Damage of one player melee strike.
pub const PLAYER_MELEE_DAMAGE: u32 = 1;

/// Upward speed granted by a jump, milli-units per second.
pub const JUMP_SPEED_MM_S: i64 = 6_000;

/// Milliseconds between rifle rounds while the trigger is held.
pub const RIFLE_PERIOD_MS: u64 = 100;

/// The player's weapons.
#[derive(Clone, Copy, PartialEq, Eq, Structural, Debug)]
pub enum WeaponType {
    /// One round per trigger pull.
    Pistol,
    /// Five rounds in a fan per trigger pull.
    Shotgun,
    /// One round per cooldown period while the trigger is held.
    Rifle,
}

/// The player's equipped weapon.
#[derive(Clone, Copy, PartialEq, Eq, Structural, Debug)]
pub struct Weapon(pub WeaponType);

/// The player actor.
#[derive(Clone, Copy, PartialEq, Eq, Structural, Debug)]
pub struct Player {
    pub pos: Vec3I,
    /// Horizontal unit vector the player faces along; aim direction of every
    /// shot.
    pub facing: Vec3I,
    /// Velocity in milli-units per second.
    pub vel: Vec3I,
    pub health: u32,
    pub weapon: Weapon,
    /// Gates rifle rounds while the trigger is held.
    pub rifle_timer: Timer,
}

impl Player {
    pub open spec fn wf(self) -> bool {
        &&& self.pos.in_bounds(POS_LIMIT as int)
        &&& self.facing.in_bounds(SCALE as int)
        &&& self.vel.in_bounds(VEL_LIMIT as int)
        &&& self.rifle_timer.wf()
        &&& self.rifle_timer.repeating
        &&& self.rifle_timer.duration_ms == RIFLE_PERIOD_MS
    }

    /// The player as the world starts: at standing height over the arena
    /// center, facing north, standing still, pistol equipped.
    pub open spec fn spec_initial() -> Player {
        Player {
            pos: Vec3I { x: 0, y: 1_000, z: 0 },
            facing: Vec3I { x: 0, y: 0, z: SCALE },
            vel: Vec3I { x: 0, y: 0, z: 0 },
            health: PLAYER_START_HEALTH,
            weapon: Weapon(WeaponType::Pistol),
            rifle_timer: Timer { duration_ms: RIFLE_PERIOD_MS, elapsed_ms: 0, repeating: true },
        }
    }

    /// Builds the starting player.
    pub fn initial() -> (p: Player)
        ensures
            p == Player::spec_initial(),
            p.wf(),
    {
        Player {
            pos: Vec3I::new(0, 1_000, 0),
            facing: Vec3I::new(0, 0, SCALE),
            vel: Vec3I::new(0, 0, 0),
            health: PLAYER_START_HEALTH,
            weapon: Weapon(WeaponType::Pistol),
            rifle_timer: Timer::new(RIFLE_PERIOD_MS, true),
        }
    }
}

/// One movement step from decoded input. The player turns to face the cursor
/// on the ground plane; the movement axes, each -1, 0 or 1, give a horizontal
/// direction that is normalized and scaled to the player speed — with no
/// input the horizontal velocity is zeroed. A jump pressed while standing on
/// ground sets the upward velocity.
pub open spec fn player_move_spec(
    p: Player,
    move_x: i64,
    move_z: i64,
    jump: bool,
    grounded: bool,
    cursor: Vec3I,
) -> Player {
    let to = Vec3I { x: (cursor.x - p.pos.x) as i64, y: 0, z: (cursor.z - p.pos.z) as i64 };
    let facing = if to.is_zero() {
        p.facing
    } else {
        norm_dir(to)
    };
    let vel0 = if move_x == 0 && move_z == 0 {
        Vec3I { x: 0, y: p.vel.y, z: 0 }
    } else {
        let mdir = norm_dir(Vec3I { x: (move_x * SCALE) as i64, y: 0, z: (move_z * SCALE) as i64 });
        Vec3I {
            x: scale_trunc(mdir.x as int, PLAYER_SPEED_MM_S as int, SCALE as int) as i64,
            y: p.vel.y,
            z: scale_trunc(mdir.z as int, PLAYER_SPEED_MM_S as int, SCALE as int) as i64,
        }
    };
    let vel = if jump && grounded {
        Vec3I { x: vel0.x, y: JUMP_SPEED_MM_S, z: vel0.z }
    } else {
        vel0
    };
    Player { facing, vel, ..p }
}

/// Runs one movement step. `grounded` is the ground probe's answer for this
/// tick; a jump is honored only on ground, so the player cannot double-jump.
pub fn player_move(
    p: &Player,
    move_x: i64,
    move_z: i64,
    jump: bool,
    grounded: bool,
    cursor: Vec3I,
) -> (r: Player)
    requires
        p.wf(),
        -1 <= move_x <= 1,
        -1 <= move_z <= 1,
        cursor.in_bounds(POS_LIMIT as int),
    ensures
        r == player_move_spec(*p, move_x, move_z, jump, grounded, cursor),
        r.wf(),
        r == (Player { facing: r.facing, vel: r.vel, ..*p }),
{
    let to = Vec3I::new(cursor.x - p.pos.x, 0, cursor.z - p.pos.z);
    let facing = match normalize(to) {
        None => p.facing,
        Some(d) => d,
    };
    let vel0 = if move_x == 0 && move_z == 0 {
        Vec3I::new(0, p.vel.y, 0)
    } else {
        let m = Vec3I::new(move_x * SCALE, 0, move_z * SCALE);
        let mdir = normalize(m).unwrap();
        proof {
            assert(-(1000 * 4_000) <= mdir.x * PLAYER_SPEED_MM_S <= 1000 * 4_000 && -(1000
                * 4_000) <= mdir.z * PLAYER_SPEED_MM_S <= 1000 * 4_000) by (nonlinear_arith)
                requires
                    -1000 <= mdir.x <= 1000,
                    -1000 <= mdir.z <= 1000,
                    PLAYER_SPEED_MM_S == 4_000,
            ;
            lemma_trunc_div_bound(mdir.x * PLAYER_SPEED_MM_S, SCALE as int, 4_000);
            lemma_trunc_div_bound(mdir.z * PLAYER_SPEED_MM_S, SCALE as int, 4_000);
        }
        Vec3I::new(
            scale_trunc_exec(mdir.x, PLAYER_SPEED_MM_S, SCALE),
            p.vel.y,
            scale_trunc_exec(mdir.z, PLAYER_SPEED_MM_S, SCALE),
        )
    };
    let vel = if jump && grounded {
        Vec3I::new(vel0.x, JUMP_SPEED_MM_S, vel0.z)
    } else {
        vel0
    };
    Player { facing, vel, ..*p }
}

/// The weapon after one cycle step: each wheel-down notch moves pistol to
/// shotgun to rifle and back around.
pub open spec fn next_weapon(w: WeaponType) -> WeaponType {
    match w {
        WeaponType::Pistol => WeaponType::Shotgun,
        WeaponType::Shotgun => WeaponType::Rifle,
        WeaponType::Rifle => WeaponType::Pistol,
    }
}

/// Cycles to the next weapon.
pub fn cycle_weapon(w: WeaponType) -> (r: WeaponType)
    ensures
        r == next_weapon(w),
{
    match w {
        WeaponType::Pistol => WeaponType::Shotgun,
        WeaponType::Shotgun => WeaponType::Rifle,
        WeaponType::Rifle => WeaponType::Pistol,
    }
}

/// The directions the player's weapon fires this tick: the pistol one round
/// and the shotgun its five-way fan on a fresh trigger pull; the rifle one
/// round whenever its cooldown fires while the trigger is held.
pub open spec fn fire_dirs_spec(
    w: WeaponType,
    facing: Vec3I,
    just_pressed: bool,
    rifle_fired: bool,
) -> Seq<Vec3I> {
    let burst = if just_pressed {
        match w {
            WeaponType::Pistol => seq![facing],
            WeaponType::Shotgun => shotgun5_dirs(facing),
            WeaponType::Rifle => Seq::empty(),
        }
    } else {
        Seq::empty()
    };
    let held = if rifle_fired && w == WeaponType::Rifle {
        seq![facing]
    } else {
        Seq::empty()
    };
    burst + held
}

} // verus!
