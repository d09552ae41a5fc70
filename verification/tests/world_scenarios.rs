use arena_combat::archetype::{Archetype, BossType, EnemyType};
use arena_combat::combat::{AttackCycle, CombatState};
use arena_combat::hostile::Hostile;
use arena_combat::player::{WeaponType, PLAYER_START_HEALTH};
use arena_combat::projectile::Projectile;
use arena_combat::timer::Timer;
use arena_combat::vecmath::Vec3I;
use arena_combat::world::{World, PLAYER_ID};

fn melee_hostile_at(x: i64, z: i64, id: u64) -> Hostile {
    Hostile {
        id,
        archetype: Archetype::Enemy(EnemyType::Chasing),
        pos: Vec3I { x, y: 1000, z },
        facing: Vec3I { x: 0, y: 0, z: 1000 },
        vel: Vec3I { x: 0, y: 0, z: 0 },
        health: 3,
        melee: AttackCycle {
            state: CombatState::Attacking,
            timer: Timer { duration_ms: 2000, elapsed_ms: 0, repeating: false },
        },
        ranged: AttackCycle {
            state: CombatState::Attacking,
            timer: Timer { duration_ms: 2000, elapsed_ms: 0, repeating: false },
        },
        pending_despawn: false,
    }
}

#[test]
fn overlapping_melee_hostile_strikes_once_then_cools_down() {
    let mut w = World::new();
    assert_eq!(w.player.health, PLAYER_START_HEALTH);
    w.hostiles.push(melee_hostile_at(500, 0, 1));
    w.next_id = 2;

    let events = w.tick(16);
    assert_eq!(w.player.health, 4);
    assert_eq!(events.len(), 1);
    assert_eq!(events[0].target, PLAYER_ID);
    assert_eq!(events[0].amount, 1);
    assert_eq!(w.hostiles[0].melee.state, CombatState::Cooldown);

    // still overlapping: no second strike without a full cooldown cycle
    let events = w.tick(16);
    assert_eq!(w.player.health, 4);
    assert!(events.is_empty());
    let events = w.tick(1900);
    assert_eq!(w.player.health, 4);
    assert!(events.is_empty());
    // cooldown complete: the cycle re-arms, and the following tick strikes
    let events = w.tick(100);
    assert!(events.is_empty());
    assert_eq!(w.hostiles[0].melee.state, CombatState::Attacking);
    w.tick(16);
    assert_eq!(w.player.health, 3);
}

#[test]
fn projectile_expires_the_tick_it_reaches_max_range() {
    let mut w = World::new();
    w.projectiles.push(Projectile {
        origin: Vec3I { x: 0, y: 0, z: 0 },
        pos: Vec3I { x: 0, y: 0, z: 0 },
        dir: Vec3I { x: 1000, y: 0, z: 0 },
        shooter: 99,
        from_player: false,
        speed_mm_s: 10_000,
        max_range_mm: 20_000,
        alive: true,
    });

    // one second: ten units of travel, still in flight
    let hits = w.compute_projectile_hits(1000);
    w.projectile_phase(1000, &hits);
    assert!(w.projectiles[0].alive);
    assert_eq!(w.projectiles[0].pos.x, 10_000);
    w.removal_phase();
    assert_eq!(w.projectiles.len(), 1);

    // second second: it arrives exactly at max range and is cleared
    let hits = w.compute_projectile_hits(1000);
    w.projectile_phase(1000, &hits);
    assert_eq!(w.projectiles[0].pos.x, 20_000);
    assert!(!w.projectiles[0].alive);
    w.removal_phase();
    assert!(w.projectiles.is_empty());
}

#[test]
fn projectile_spares_its_shooter_and_strikes_others() {
    let mut w = World::new();
    // two hostiles on the same spot, far from the player
    w.hostiles.push(melee_hostile_at(50_000, 0, 1));
    w.hostiles.push(melee_hostile_at(50_000, 0, 2));
    w.next_id = 3;
    // a slow projectile fired by the first, passing through both
    w.projectiles.push(Projectile {
        origin: Vec3I { x: 50_000, y: 1000, z: 0 },
        pos: Vec3I { x: 50_000, y: 1000, z: 0 },
        dir: Vec3I { x: 1000, y: 0, z: 0 },
        shooter: 1,
        from_player: false,
        speed_mm_s: 10,
        max_range_mm: 20_000,
        alive: true,
    });

    let hits = w.compute_projectile_hits(16);
    // the shooter is excluded; the other hostile is struck
    assert_eq!(hits[0], Some(2));
    w.projectile_phase(16, &hits);
    assert!(!w.projectiles[0].alive);
    // a hostile-fired projectile can damage only the player, so the strike
    // despawns the projectile and deals nothing — and never to the shooter
    let events = w.ledger_phase();
    assert!(events.is_empty());
    assert_eq!(w.hostiles[0].health, 3);
    assert_eq!(w.hostiles[1].health, 3);
}

#[test]
fn hostile_projectile_damages_only_the_player() {
    let mut w = World::new();
    // projectile fired by a long-gone hostile, overlapping the player
    w.projectiles.push(Projectile {
        origin: Vec3I { x: 0, y: 1000, z: 0 },
        pos: Vec3I { x: 0, y: 1000, z: 0 },
        dir: Vec3I { x: 0, y: 0, z: 1000 },
        shooter: 42,
        from_player: false,
        speed_mm_s: 10,
        max_range_mm: 20_000,
        alive: true,
    });
    let hits = w.compute_projectile_hits(16);
    assert_eq!(hits[0], Some(PLAYER_ID));
    w.projectile_phase(16, &hits);
    let events = w.ledger_phase();
    assert_eq!(events.len(), 1);
    assert_eq!(events[0].target, PLAYER_ID);
    assert_eq!(w.player.health, PLAYER_START_HEALTH - 1);
}

#[test]
fn star_enemy_fires_the_ring_and_cools_down() {
    let mut w = World::new();
    w.spawn_hostile_at(Archetype::Enemy(EnemyType::Star), Vec3I::new(0, 0, 1000));
    assert_eq!(w.hostiles.len(), 1);
    assert_eq!(w.hostiles[0].id, 1);
    assert_eq!(w.hostiles[0].health, 3);
    assert_eq!((w.hostiles[0].pos.x, w.hostiles[0].pos.y, w.hostiles[0].pos.z), (0, 1000, 7000));

    let choices = vec![0u64];
    w.ranged_phase_with(16, &choices);
    assert_eq!(w.projectiles.len(), 8);
    let expected = [
        (1000, 0, 0),
        (0, 0, 1000),
        (0, 0, -1000),
        (-1000, 0, 0),
        (707, 0, 707),
        (-707, 0, 707),
        (707, 0, -707),
        (-707, 0, -707),
    ];
    for (p, e) in w.projectiles.iter().zip(expected.iter()) {
        assert_eq!((p.dir.x, p.dir.y, p.dir.z), *e);
        assert_eq!(p.shooter, 1);
        assert!(!p.from_player);
        assert!(p.alive);
        // an enemy fires from its own center
        assert_eq!(p.origin, w.hostiles[0].pos);
    }
    assert_eq!(w.hostiles[0].ranged.state, CombatState::Cooldown);

    // in cooldown nothing is fired
    w.ranged_phase_with(16, &choices);
    assert_eq!(w.projectiles.len(), 8);
}

#[test]
fn shotgun_enemy_fires_a_spread_at_the_player() {
    let mut w = World::new();
    // enemy south of the player, aiming north, at the player's height
    w.hostiles.push(Hostile {
        archetype: Archetype::Enemy(EnemyType::Shotgun),
        pos: Vec3I { x: 0, y: 1000, z: -5000 },
        ..melee_hostile_at(0, -5000, 1)
    });
    w.next_id = 2;
    let choices = vec![0u64];
    w.ranged_phase_with(16, &choices);
    assert_eq!(w.projectiles.len(), 3);
    let dirs: Vec<(i64, i64, i64)> =
        w.projectiles.iter().map(|p| (p.dir.x, p.dir.y, p.dir.z)).collect();
    assert_eq!(dirs, vec![(-296, 0, 955), (0, 0, 1000), (296, 0, 955)]);
}

#[test]
fn pistol_shot_comes_from_the_player() {
    let mut w = World::new();
    assert_eq!(w.player.weapon.0, WeaponType::Pistol);
    w.player_fire(true, false, 16);
    assert_eq!(w.projectiles.len(), 1);
    let p = &w.projectiles[0];
    assert_eq!(p.shooter, PLAYER_ID);
    assert!(p.from_player);
    assert_eq!((p.dir.x, p.dir.y, p.dir.z), (0, 0, 1000));
}

#[test]
fn weapon_cycles_and_the_shotgun_fans_out() {
    let mut w = World::new();
    w.change_weapon(true);
    assert_eq!(w.player.weapon.0, WeaponType::Shotgun);
    w.player_fire(true, false, 16);
    assert_eq!(w.projectiles.len(), 5);
    w.change_weapon(true);
    assert_eq!(w.player.weapon.0, WeaponType::Rifle);
    w.change_weapon(true);
    assert_eq!(w.player.weapon.0, WeaponType::Pistol);
}

#[test]
fn rifle_rounds_are_paced_by_the_held_trigger_timer() {
    let mut w = World::new();
    w.change_weapon(true);
    w.change_weapon(true);
    assert_eq!(w.player.weapon.0, WeaponType::Rifle);
    // a fresh pull alone fires nothing from the rifle
    w.player_fire(true, false, 16);
    assert_eq!(w.projectiles.len(), 0);
    // held: the hundred-millisecond timer paces the rounds
    w.player_fire(false, true, 100);
    assert_eq!(w.projectiles.len(), 1);
    w.player_fire(false, true, 50);
    assert_eq!(w.projectiles.len(), 1);
    w.player_fire(false, true, 50);
    assert_eq!(w.projectiles.len(), 2);
}

#[test]
fn player_melee_strikes_every_hostile_in_reach() {
    let mut w = World::new();
    w.hostiles.push(melee_hostile_at(500, 0, 1));
    w.hostiles.push(melee_hostile_at(0, -1500, 2));
    w.hostiles.push(melee_hostile_at(30_000, 0, 3));
    w.next_id = 4;
    w.player_melee();
    let events = w.ledger_phase();
    assert_eq!(events.len(), 2);
    assert_eq!((events[0].target, events[1].target), (1, 2));
    assert_eq!(w.hostiles[0].health, 2);
    assert_eq!(w.hostiles[1].health, 2);
    assert_eq!(w.hostiles[2].health, 3);
}

#[test]
fn hostile_at_zero_health_despawns_at_end_of_tick() {
    let mut w = World::new();
    w.hostiles.push(Hostile { health: 1, ..melee_hostile_at(500, 0, 1) });
    w.hostiles.push(melee_hostile_at(0, -1500, 2));
    w.next_id = 3;
    w.player_melee();
    let _events = w.ledger_phase();
    assert_eq!(w.hostiles[0].health, 0);
    assert!(w.hostiles[0].pending_despawn);
    w.removal_phase();
    assert_eq!(w.hostiles.len(), 1);
    assert_eq!(w.hostiles[0].id, 2);
    // despawning what is already gone is a no-op
    w.removal_phase();
    assert_eq!(w.hostiles.len(), 1);
}

#[test]
fn stale_target_ids_are_tolerated() {
    let mut w = World::new();
    w.hostiles.push(melee_hostile_at(500, 0, 1));
    w.next_id = 2;
    w.pending.push(arena_combat::world::DamageEvent {
        target: 77,
        amount: 5,
        pos: Vec3I { x: 0, y: 0, z: 0 },
    });
    let events = w.ledger_phase();
    assert_eq!(events.len(), 1);
    assert_eq!(w.hostiles[0].health, 3);
    assert_eq!(w.player.health, PLAYER_START_HEALTH);
}

#[test]
fn pickup_placement_rejects_samples_near_the_player() {
    let w = World::new();
    let samples = vec![(0i64, 0i64), (100, -100), (5000, 5000)];
    let spot = arena_combat::pickup::choose_pickup_pos(&samples, w.player.pos);
    assert_eq!(spot, (5000, 5000));
    // when every sample is too close, the last one is the fallback
    let cramped = vec![(0i64, 0i64), (100, -100)];
    let spot = arena_combat::pickup::choose_pickup_pos(&cramped, w.player.pos);
    assert_eq!(spot, (100, -100));
}

#[test]
fn pickup_heals_on_contact_and_despawns() {
    let mut w = World::new();
    w.player.health = 3;
    w.pickup = Some(arena_combat::pickup::Pickup { pos: Vec3I { x: 500, y: 500, z: 0 } });
    assert!(w.collect_pickup());
    assert_eq!(w.player.health, 4);
    assert!(w.pickup.is_none());
    // nothing left to collect
    assert!(!w.collect_pickup());
    assert_eq!(w.player.health, 4);
}

#[test]
fn chasing_hostile_closes_in_and_stops_at_its_radius() {
    let mut w = World::new();
    w.hostiles.push(melee_hostile_at(0, 5000, 1));
    w.next_id = 2;
    w.targeting_phase();
    // facing and horizontal velocity point from the hostile toward the player
    assert_eq!(w.hostiles[0].facing.z, -1000);
    assert_eq!(w.hostiles[0].vel.z, -3000);
    w.motion_phase(1000);
    assert_eq!(w.hostiles[0].pos.z, 2000);
    // inside the stopping radius the chase velocity is no longer written
    w.hostiles[0].vel = Vec3I { x: 0, y: 0, z: 0 };
    w.hostiles[0].pos = Vec3I { x: 0, y: 1000, z: 1200 };
    w.targeting_phase();
    assert_eq!(w.hostiles[0].vel.z, 0);
    assert_eq!(w.hostiles[0].facing.z, -1000);
}

#[test]
fn mixed_boss_fires_the_drawn_pattern() {
    for (choice, count) in [(0u64, 1usize), (1, 3), (2, 8)] {
        let mut w = World::new();
        w.spawn_hostile_at(Archetype::Boss(BossType::Boss1), Vec3I::new(0, 0, 1000));
        let choices = vec![choice];
        w.ranged_phase_with(16, &choices);
        assert_eq!(w.projectiles.len(), count);
        assert_eq!(w.hostiles[0].ranged.state, CombatState::Cooldown);
        // a boss's muzzle sits one unit below its center
        for p in w.projectiles.iter() {
            assert_eq!(p.origin.y, w.hostiles[0].pos.y - 1000);
            assert_eq!((p.origin.x, p.origin.z), (w.hostiles[0].pos.x, w.hostiles[0].pos.z));
        }
    }
}

#[test]
fn boss_melee_and_ranged_run_independently() {
    let mut w = World::new();
    // a mixed boss right on top of the player: both modalities are engaged
    w.hostiles.push(Hostile {
        archetype: Archetype::Boss(BossType::Boss1),
        health: 10,
        ..melee_hostile_at(500, 0, 1)
    });
    w.next_id = 2;
    let overlaps = w.compute_melee_overlaps();
    assert_eq!(overlaps, vec![true]);
    w.melee_phase(16, &overlaps);
    let choices = vec![0u64];
    w.ranged_phase_with(16, &choices);
    // the melee strike and the ranged volley both happened this tick, each
    // on its own cycle
    assert_eq!(w.hostiles[0].melee.state, CombatState::Cooldown);
    assert_eq!(w.hostiles[0].ranged.state, CombatState::Cooldown);
    assert_eq!(w.projectiles.len(), 1);
    let events = w.ledger_phase();
    assert_eq!(events.len(), 1);
    assert_eq!(events[0].target, PLAYER_ID);
    assert_eq!(w.player.health, PLAYER_START_HEALTH - 1);
}

#[test]
fn melee_only_boss_never_fires() {
    let mut w = World::new();
    w.spawn_hostile_at(Archetype::Boss(BossType::Boss2), Vec3I::new(0, 0, 1000));
    assert_eq!(w.hostiles[0].health, 10);
    let choices = vec![0u64];
    w.ranged_phase_with(16, &choices);
    assert!(w.projectiles.is_empty());
}

#[test]
fn simulation_runs_and_spawns_on_schedule() {
    let mut w = World::new();
    for _ in 0..10 {
        w.tick(1000);
    }
    // the enemy spawner fires at seven seconds
    assert!(!w.hostiles.is_empty());
    // the pickup appears at five and stays inside its sampling box
    let pk = w.pickup.expect("pickup should have spawned");
    assert!(pk.pos.x.abs() <= 7000 && pk.pos.z.abs() <= 7000);
    assert_eq!(pk.pos.y, 500);
    // every hostile the spawner created is alive and on the spawn ring
    for h in w.hostiles.iter() {
        assert!(h.health > 0);
        assert!(!h.pending_despawn);
    }
}
