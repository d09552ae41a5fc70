use arena_combat::combat::{pattern_dirs, shotgun5, AttackCycle, CombatState, FirePattern};
use arena_combat::vecmath::Vec3I;

#[test]
fn ring_pattern_is_eight_unit_directions_whatever_the_aim() {
    let expected = [
        (1000, 0, 0),
        (0, 0, 1000),
        (0, 0, -1000),
        (-1000, 0, 0),
        (707, 0, 707),
        (-707, 0, 707),
        (707, 0, -707),
        (-707, 0, -707),
    ];
    for aim in [Vec3I::new(0, 0, 1000), Vec3I::new(-600, 0, -800), Vec3I::new(1000, 0, 0)] {
        let ds = pattern_dirs(FirePattern::Ring8, aim);
        assert_eq!(ds.len(), 8);
        for (d, e) in ds.iter().zip(expected.iter()) {
            assert_eq!((d.x, d.y, d.z), *e);
        }
    }
}

#[test]
fn spread_pattern_rotates_north_aim_both_ways() {
    let ds = pattern_dirs(FirePattern::Spread3, Vec3I::new(0, 0, 1000));
    assert_eq!(ds.len(), 3);
    assert_eq!((ds[0].x, ds[0].y, ds[0].z), (-296, 0, 955));
    assert_eq!((ds[1].x, ds[1].y, ds[1].z), (0, 0, 1000));
    assert_eq!((ds[2].x, ds[2].y, ds[2].z), (296, 0, 955));
}

#[test]
fn single_pattern_follows_the_aim() {
    let aim = Vec3I::new(-600, 0, 800);
    let ds = pattern_dirs(FirePattern::Single, aim);
    assert_eq!(ds.len(), 1);
    assert_eq!((ds[0].x, ds[0].z), (-600, 800));
}

#[test]
fn shotgun_fan_is_five_rotations_of_the_aim() {
    let ds = shotgun5(Vec3I::new(0, 0, 1000));
    assert_eq!(ds.len(), 5);
    assert_eq!((ds[0].x, ds[0].z), (-565, 825));
    assert_eq!((ds[1].x, ds[1].z), (-296, 955));
    assert_eq!((ds[2].x, ds[2].z), (0, 1000));
    assert_eq!((ds[3].x, ds[3].z), (296, 955));
    assert_eq!((ds[4].x, ds[4].z), (565, 825));
}

#[test]
fn attack_cycle_needs_a_full_cooldown_between_strikes() {
    let mut c = AttackCycle::new(2000);
    // overlapping and ready: the strike lands and the cycle drops to cooldown
    assert!(c.step(true, 16));
    assert_eq!(c.state, CombatState::Cooldown);
    assert_eq!(c.timer.elapsed_ms, 0);
    // still overlapping: nothing more until a full cycle has accumulated
    assert!(!c.step(true, 1000));
    assert!(!c.step(true, 999));
    // the threshold tick re-arms but does not strike
    assert!(!c.step(true, 1));
    assert_eq!(c.state, CombatState::Attacking);
    // the next overlapping tick strikes again
    assert!(c.step(true, 16));
}

#[test]
fn cooldown_timer_runs_while_out_of_range() {
    let mut c = AttackCycle::new(2000);
    assert!(c.step(true, 16));
    // contact lost: the timer keeps accumulating, the state holds
    assert!(!c.step(false, 3000));
    assert_eq!(c.state, CombatState::Cooldown);
    // contact regained after the cooldown ran out: re-arms at once
    assert!(!c.step(true, 16));
    assert_eq!(c.state, CombatState::Attacking);
    assert!(c.step(true, 16));
}
