use arena_combat::health::{apply_damage, apply_heal};
use arena_combat::timer::Timer;
use arena_combat::vecmath::{isqrt, normalize, planar_dist_sq, rot_y, Vec3I};

#[test]
fn timer_one_shot_fires_once_per_crossing() {
    let mut t = Timer::new(2000, false);
    assert!(!t.advance_and_check(1999));
    assert!(t.advance_and_check(1));
    assert_eq!(t.elapsed_ms, 2000);
    // saturated: no further crossing until restarted
    assert!(!t.advance_and_check(5000));
    t.reset();
    assert_eq!(t.elapsed_ms, 0);
    assert!(t.advance_and_check(2500));
}

#[test]
fn timer_repeating_wraps_remainder() {
    let mut t = Timer::new(2000, true);
    assert!(!t.advance_and_check(1500));
    assert!(t.advance_and_check(1000));
    // 2500 total: 500 carried into the next cycle
    assert_eq!(t.elapsed_ms, 500);
    assert!(t.advance_and_check(1500));
    assert_eq!(t.elapsed_ms, 0);
}

#[test]
fn damage_clamps_at_zero() {
    assert_eq!(apply_damage(5, 1), 4);
    assert_eq!(apply_damage(3, 5), 0);
    assert_eq!(apply_damage(0, 7), 0);
    // no sequence of damage drives health negative: it is unsigned and clamped
    let mut h: u32 = 5;
    for amount in [1, 0, 3, 9, 2] {
        h = apply_damage(h, amount);
    }
    assert_eq!(h, 0);
}

#[test]
fn heal_has_no_design_cap() {
    assert_eq!(apply_heal(4, 1), 5);
    assert_eq!(apply_heal(u32::MAX - 1, 5), u32::MAX);
}

#[test]
fn isqrt_brackets_between_squares() {
    assert_eq!(isqrt(0), 0);
    assert_eq!(isqrt(24), 4);
    assert_eq!(isqrt(25), 5);
    assert_eq!(isqrt(26), 5);
    assert_eq!(isqrt(u64::MAX), 4_294_967_295);
}

#[test]
fn normalize_scales_to_unit_magnitude() {
    let v = Vec3I::new(3000, 0, 4000);
    let d = normalize(v).unwrap();
    assert_eq!((d.x, d.y, d.z), (600, 0, 800));
    assert!(normalize(Vec3I::new(0, 0, 0)).is_none());
    let north = normalize(Vec3I::new(0, 0, 1)).unwrap();
    assert_eq!((north.x, north.y, north.z), (0, 0, 1000));
}

#[test]
fn rotation_about_vertical_axis_is_exact_in_fixed_point() {
    // north rotated by the wide spread angle (0.6 rad): sine 565, cosine 825
    let north = Vec3I::new(0, 0, 1000);
    let r = rot_y(north, 825, 565);
    assert_eq!((r.x, r.y, r.z), (565, 0, 825));
    let l = rot_y(north, 825, -565);
    assert_eq!((l.x, l.y, l.z), (-565, 0, 825));
}

#[test]
fn planar_distance_ignores_height() {
    let a = Vec3I::new(0, 5000, 0);
    let b = Vec3I::new(300, -200, 400);
    assert_eq!(planar_dist_sq(a, b), 250_000);
}
