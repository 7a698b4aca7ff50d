use swarmframe::math::{isqrt, move_once, Vec3Fx};

fn v(x: i64, y: i64, z: i64) -> Vec3Fx {
    Vec3Fx { x, y, z }
}

#[test]
fn isqrt_small_values() {
    assert_eq!(isqrt(0), 0);
    assert_eq!(isqrt(1), 1);
    assert_eq!(isqrt(2), 1);
    assert_eq!(isqrt(3), 1);
    assert_eq!(isqrt(4), 2);
    assert_eq!(isqrt(999999), 999);
    assert_eq!(isqrt(1000000), 1000);
}

#[test]
fn isqrt_large_values() {
    assert_eq!(isqrt(24502500), 4950);
    assert_eq!(isqrt(u64::MAX), 4294967295);
}

#[test]
fn step_shortens_distance_exactly_on_axis() {
    // Distance 1000 (one unit), step 50: the entity ends 950 from the target.
    let q = move_once(v(1000, 0, 0), v(0, 0, 0), 50);
    assert_eq!(q, v(950, 0, 0));
}

#[test]
fn step_shortens_distance_on_diagonal() {
    // A 3-4-5 triangle scaled to distance 5000; one step of 50 leaves
    // exactly 4950, still on the line to the target.
    let q = move_once(v(3000, 4000, 0), v(0, 0, 0), 50);
    assert_eq!(q, v(2970, 3960, 0));
    let d2 = (q.x * q.x + q.y * q.y) as u64;
    assert_eq!(isqrt(d2), 4950);
}

#[test]
fn step_rounds_on_irrational_diagonal() {
    // Distance sqrt(3) units rounds down to 1732; the scaled coordinates
    // round toward the target.
    let q = move_once(v(1000, 1000, 1000), v(0, 0, 0), 50);
    assert_eq!(q, v(971, 971, 971));
}

#[test]
fn within_step_lands_exactly_on_target() {
    let t = v(7, -9, 1000);
    let q = move_once(v(t.x + 30, t.y, t.z), t, 50);
    assert_eq!(q, t);
}

#[test]
fn distance_equal_to_step_lands_on_target() {
    let q = move_once(v(50, 0, 0), v(0, 0, 0), 50);
    assert_eq!(q, v(0, 0, 0));
}

#[test]
fn at_target_stays_fixed() {
    let t = v(-123, 456, 789);
    let mut p = t;
    for _ in 0..5 {
        p = move_once(p, t, 50);
        assert_eq!(p, t);
    }
}

#[test]
fn zero_step_keeps_position() {
    // With step 0 and a positive distance the scaled magnitudes keep the
    // whole offset: the entity does not move.
    let q = move_once(v(1000, 0, 0), v(0, 0, 0), 0);
    assert_eq!(q, v(1000, 0, 0));
}

#[test]
fn repeated_steps_converge_to_target() {
    let t = v(-1000, 1000, 1000);
    let mut p = v(0, 0, 0);
    for _ in 0..40 {
        p = move_once(p, t, 50);
    }
    assert_eq!(p, t);
}
