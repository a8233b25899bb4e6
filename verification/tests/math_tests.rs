use shooter_core::angle::{lerp_angle, wrap_angle, PI_FP, TAU_FP};
use shooter_core::fixed::{abs_i64, clamp_i64, euclid_mod, isqrt, signum_i64};
use shooter_core::geometry::{background_tiling, dist_sq, point_in_rect, rects_overlap};
use shooter_core::spawner::wave_size;
use shooter_core::SCALE;

#[test]
fn isqrt_exact_values() {
    assert_eq!(isqrt(0), 0);
    assert_eq!(isqrt(1), 1);
    assert_eq!(isqrt(15), 3);
    assert_eq!(isqrt(16), 4);
    assert_eq!(isqrt(1_000_000_000_000_000_000), 1_000_000_000);
    assert_eq!(isqrt(u64::MAX as u128), 4_294_967_295);
}

#[test]
fn clamp_and_signum() {
    assert_eq!(clamp_i64(5, -3, 3), 3);
    assert_eq!(clamp_i64(-5, -3, 3), -3);
    assert_eq!(clamp_i64(2, -3, 3), 2);
    assert_eq!(signum_i64(17), 1);
    assert_eq!(signum_i64(-17), -1);
    assert_eq!(signum_i64(0), 0);
    assert_eq!(abs_i64(-9), 9);
    assert_eq!(abs_i64(9), 9);
}

#[test]
fn euclid_mod_is_nonnegative() {
    assert_eq!(euclid_mod(7, 3), 1);
    assert_eq!(euclid_mod(-7, 3), 2);
    assert_eq!(euclid_mod(-6, 3), 0);
    assert_eq!(euclid_mod(0, 5), 0);
}

#[test]
fn wrap_angle_stays_within_half_turn() {
    // Shortest-path property on concrete angles, including ones beyond a
    // full turn in either direction.
    for d in [
        0,
        1,
        PI_FP,
        -PI_FP,
        TAU_FP,
        -TAU_FP,
        3 * PI_FP,
        -3 * PI_FP + 7,
        123_456_789,
        -987_654_321,
    ] {
        let w = wrap_angle(d);
        assert!(-PI_FP < w && w <= PI_FP, "wrap({}) = {}", d, w);
        // The wrapped value differs from the input by whole turns.
        assert_eq!(euclid_mod(w - d, TAU_FP), 0, "wrap({}) = {}", d, w);
    }
    assert_eq!(wrap_angle(0), 0);
    assert_eq!(wrap_angle(TAU_FP), 0);
    assert_eq!(wrap_angle(PI_FP), PI_FP);
    assert_eq!(wrap_angle(-PI_FP), PI_FP);
}

#[test]
fn lerp_angle_moves_along_shorter_arc() {
    // A tenth of the way from 0 toward a half turn.
    assert_eq!(lerp_angle(0, PI_FP, 100), 314_159);
    // From 3/4 of a half turn to its negation: the short arc goes up
    // through PI_FP, not back through zero.
    let a = 2_356_194;
    let b = -2_356_194;
    assert_eq!(lerp_angle(a, b, 100), 2_513_273);
    // A full blend lands exactly a wrapped difference away.
    assert_eq!(lerp_angle(a, b, SCALE), a + 1_570_798);
    // No difference, no movement.
    assert_eq!(lerp_angle(42, 42, 100), 42);
}

#[test]
fn point_in_rect_is_inclusive() {
    // Interior, corners and edges count; outside does not.
    assert!(point_in_rect(5, 5, 0, 0, 10, 10));
    assert!(point_in_rect(0, 0, 0, 0, 10, 10));
    assert!(point_in_rect(10, 10, 0, 0, 10, 10));
    assert!(point_in_rect(10, 3, 0, 0, 10, 10));
    assert!(!point_in_rect(11, 5, 0, 0, 10, 10));
    assert!(!point_in_rect(5, -1, 0, 0, 10, 10));
}

#[test]
fn rects_overlap_is_inclusive() {
    assert!(rects_overlap(0, 0, 10, 10, 5, 5, 10, 10));
    // Rectangles that merely touch still overlap.
    assert!(rects_overlap(0, 0, 10, 10, 10, 10, 5, 5));
    assert!(!rects_overlap(0, 0, 10, 10, 11, 0, 5, 5));
    assert!(!rects_overlap(0, 0, 10, 10, 0, 11, 5, 5));
}

#[test]
fn dist_sq_exact() {
    assert_eq!(dist_sq(0, 0, 3, 4), 25);
    assert_eq!(dist_sq(1, 1, 1, 1), 0);
    assert_eq!(dist_sq(-3, 0, 0, 4), 25);
}

#[test]
fn background_tiling_wraps_and_covers() {
    // A 64-unit texture, an unscrolled world, a 200-unit viewport:
    // tiling starts at the origin and ceil(200 / 64) + 1 = 5 tiles cover
    // the axis.
    assert_eq!(background_tiling(0, 64_000, 200_000), (0, 5));
    // A positive scroll pulls the first tile left by the offset modulo
    // the texture extent.
    assert_eq!(background_tiling(10_000, 64_000, 200_000), (-10_000, 5));
    assert_eq!(background_tiling(64_000, 64_000, 200_000), (0, 5));
    // A negative scroll wraps the other way.
    assert_eq!(background_tiling(-10_000, 64_000, 200_000), (-54_000, 5));
    // An exact cover still holds the spare tile for the partial start.
    assert_eq!(background_tiling(0, 50_000, 200_000), (0, 5));
}

#[test]
fn wave_size_follows_difficulty_ramp() {
    // One enemy at the start.
    assert_eq!(wave_size(0), 1);
    assert_eq!(wave_size(9_999), 1);
    // One more for each ten time units.
    assert_eq!(wave_size(10_000), 2);
    assert_eq!(wave_size(35_000), 4);
    // Capped at six.
    assert_eq!(wave_size(50_000), 6);
    assert_eq!(wave_size(1_000_000), 6);
}

#[test]
fn wave_size_is_monotone_on_samples() {
    let samples = [0, 5_000, 10_000, 20_000, 35_000, 50_000, 99_000, 1_000_000];
    let mut last = 0;
    for e in samples {
        let n = wave_size(e);
        assert!(n >= last);
        assert!((1..=6).contains(&n));
        last = n;
    }
}
