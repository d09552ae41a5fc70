//! Hostile archetypes and their stats.
//!
//! The archetype tag is fixed at spawn and determines everything about a
//! hostile's behaviour: health, movement speed, stopping radius, collision
//! radius, melee reach and the fire pattern of its ranged attack. Adding an
//! archetype means adding one row to the table in [`stats`].

use vstd::prelude::*;

verus! {

/// Enemy archetypes.
#[derive(Clone, Copy, PartialEq, Eq, Structural, Debug)]
pub enum EnemyType {
    /// Chases the player and strikes in melee.
    Chasing,
    /// Stands still and fires single shots.
    Pistol,
    /// Stands still and fires a three-way spread.
    Shotgun,
    /// Stands still and fires a ring of eight shots.
    Star,
}

/// Boss archetypes.
#[derive(Clone, Copy, PartialEq, Eq, Structural, Debug)]
pub enum BossType {
    /// Chases, strikes in melee, and fires a randomly chosen pattern.
    Boss1,
    /// Chases and strikes in melee only.
    Boss2,
}

/// The archetype tag carried by every hostile.
#[derive(Clone, Copy, PartialEq, Eq, Structural, Debug)]
pub enum Archetype {
    Enemy(EnemyType),
    Boss(BossType),
}

/// What a ranged attack launches.
#[derive(Clone, Copy, PartialEq, Eq, Structural, Debug)]
pub enum FireKind {
    /// No ranged attack at all.
    Unarmed,
    /// One projectile toward the player.
    Single,
    /// Three projectiles: toward the player and rotated a step to each side.
    Spread3,
    /// Eight projectiles along the compass and diagonal directions.
    Ring8,
    /// One of the three patterns above, chosen at random per attack.
    Mixed,
}

/// The per-archetype behaviour table entry.
#[derive(Clone, Copy, PartialEq, Eq, Structural, Debug)]
pub struct Stats {
    /// Health assigned at spawn.
    pub max_health: u32,
    /// Chase speed in milli-units per second; zero for a hostile that holds
    /// its ground.
    pub speed_mm_s: i64,
    /// Planar distance below which a chasing hostile stops closing in.
    pub stop_radius_mm: i64,
    /// Collision radius used by overlap and hit tests.
    pub radius_mm: i64,
    /// Reach of the melee proximity test; zero for a hostile without melee.
    pub melee_range_mm: i64,
    /// Damage dealt by one melee strike.
    pub melee_damage: u32,
    /// Cooldown between attacks, melee or ranged, in milliseconds.
    pub attack_cooldown_ms: u64,
    /// The ranged attack, if any.
    pub fire: FireKind,
}

/// The behaviour table.
pub open spec fn stats_spec(a: Archetype) -> Stats {
    match a {
        Archetype::Enemy(EnemyType::Chasing) => Stats {
            max_health: 3,
            speed_mm_s: 3_000,
            stop_radius_mm: 1_400,
            radius_mm: 1_000,
            melee_range_mm: 1_000,
            melee_damage: 1,
            attack_cooldown_ms: 2_000,
            fire: FireKind::Unarmed,
        },
        Archetype::Enemy(EnemyType::Pistol) => Stats {
            max_health: 3,
            speed_mm_s: 0,
            stop_radius_mm: 1_400,
            radius_mm: 1_000,
            melee_range_mm: 0,
            melee_damage: 0,
            attack_cooldown_ms: 2_000,
            fire: FireKind::Single,
        },
        Archetype::Enemy(EnemyType::Shotgun) => Stats {
            max_health: 3,
            speed_mm_s: 0,
            stop_radius_mm: 1_400,
            radius_mm: 1_000,
            melee_range_mm: 0,
            melee_damage: 0,
            attack_cooldown_ms: 2_000,
            fire: FireKind::Spread3,
        },
        Archetype::Enemy(EnemyType::Star) => Stats {
            max_health: 3,
            speed_mm_s: 0,
            stop_radius_mm: 1_400,
            radius_mm: 1_000,
            melee_range_mm: 0,
            melee_damage: 0,
            attack_cooldown_ms: 2_000,
            fire: FireKind::Ring8,
        },
        Archetype::Boss(BossType::Boss1) => Stats {
            max_health: 10,
            speed_mm_s: 3_000,
            stop_radius_mm: 2_000,
            radius_mm: 2_000,
            melee_range_mm: 2_000,
            melee_damage: 1,
            attack_cooldown_ms: 2_000,
            fire: FireKind::Mixed,
        },
        Archetype::Boss(BossType::Boss2) => Stats {
            max_health: 10,
            speed_mm_s: 3_000,
            stop_radius_mm: 2_000,
            radius_mm: 2_000,
            melee_range_mm: 2_000,
            melee_damage: 1,
            attack_cooldown_ms: 2_000,
            fire: FireKind::Unarmed,
        },
    }
}

/// Every table entry stays within the simulation's numeric limits.
pub open spec fn stats_ok(s: Stats) -> bool {
    &&& 1 <= s.max_health <= 1_000
    &&& 0 <= s.speed_mm_s <= 10_000
    &&& 0 <= s.stop_radius_mm <= 100_000
    &&& 1 <= s.radius_mm <= 100_000
    &&& 0 <= s.melee_range_mm <= 100_000
    &&& s.melee_damage <= 1_000
    &&& 1 <= s.attack_cooldown_ms <= 1_000_000
}

/// The behaviour table, as executable lookup.
pub fn stats(a: Archetype) -> (s: Stats)
    ensures
        s == stats_spec(a),
        stats_ok(s),
{
    match a {
        Archetype::Enemy(EnemyType::Chasing) => Stats {
            max_health: 3,
            speed_mm_s: 3_000,
            stop_radius_mm: 1_400,
            radius_mm: 1_000,
            melee_range_mm: 1_000,
            melee_damage: 1,
            attack_cooldown_ms: 2_000,
            fire: FireKind::Unarmed,
        },
        Archetype::Enemy(EnemyType::Pistol) => Stats {
            max_health: 3,
            speed_mm_s: 0,
            stop_radius_mm: 1_400,
            radius_mm: 1_000,
            melee_range_mm: 0,
            melee_damage: 0,
            attack_cooldown_ms: 2_000,
            fire: FireKind::Single,
        },
        Archetype::Enemy(EnemyType::Shotgun) => Stats {
            max_health: 3,
            speed_mm_s: 0,
            stop_radius_mm: 1_400,
            radius_mm: 1_000,
            melee_range_mm: 0,
            melee_damage: 0,
            attack_cooldown_ms: 2_000,
            fire: FireKind::Spread3,
        },
        Archetype::Enemy(EnemyType::Star) => Stats {
            max_health: 3,
            speed_mm_s: 0,
            stop_radius_mm: 1_400,
            radius_mm: 1_000,
            melee_range_mm: 0,
            melee_damage: 0,
            attack_cooldown_ms: 2_000,
            fire: FireKind::Ring8,
        },
        Archetype::Boss(BossType::Boss1) => Stats {
            max_health: 10,
            speed_mm_s: 3_000,
            stop_radius_mm: 2_000,
            radius_mm: 2_000,
            melee_range_mm: 2_000,
            melee_damage: 1,
            attack_cooldown_ms: 2_000,
            fire: FireKind::Mixed,
        },
        Archetype::Boss(BossType::Boss2) => Stats {
            max_health: 10,
            speed_mm_s: 3_000,
            stop_radius_mm: 2_000,
            radius_mm: 2_000,
            melee_range_mm: 2_000,
            melee_damage: 1,
            attack_cooldown_ms: 2_000,
            fire: FireKind::Unarmed,
        },
    }
}

/// Maps a random draw below four onto an enemy archetype, each equally
/// likely.
pub fn enemy_type_of_draw(k: u64) -> (t: EnemyType)
    requires
        k < 4,
    ensures
        t == (if k == 0 {
            EnemyType::Chasing
        } else if k == 1 {
            EnemyType::Pistol
        } else if k == 2 {
            EnemyType::Shotgun
        } else {
            EnemyType::Star
        }),
{
    if k == 0 {
        EnemyType::Chasing
    } else if k == 1 {
        EnemyType::Pistol
    } else if k == 2 {
        EnemyType::Shotgun
    } else {
        EnemyType::Star
    }
}

/// Maps a random draw below two onto a boss archetype.
pub fn boss_type_of_draw(k: u64) -> (t: BossType)
    requires
        k < 2,
    ensures
        t == (if k == 0 {
            BossType::Boss1
        } else {
            BossType::Boss2
        }),
{
    if k == 0 {
        BossType::Boss1
    } else {
        BossType::Boss2
    }
}

} // verus!
