// Exact-value checks of the fixed-point vector operations, and the
// algebraic laws the library states: magnitude positivity, cross-product
// antisymmetry, normalization, and the add/sub round trip.

use seek_flee::fixed::SCALE;
use seek_flee::vector::Vector;

#[test]
fn magnitude_exact_and_zero_iff_zero() {
    let v = Vector::new(3 * SCALE, 4 * SCALE, 0);
    assert_eq!(v.magnitude_squared(), 25 * SCALE * SCALE);
    assert_eq!(v.magnitude(), 5 * SCALE);

    let z = Vector::new(0, 0, 0);
    assert_eq!(z.magnitude(), 0);

    let tiny = Vector::new(1, 0, 0);
    assert!(tiny.magnitude() > 0);
    let neg = Vector::new(0, -1, 0);
    assert!(neg.magnitude() > 0);
}

#[test]
fn approximate_length_exact_formula() {
    // Absolute coordinates sorted to (3, 2, 1) units: (15*3 + 6*3) / 16.
    let v = Vector::new(3 * SCALE, SCALE, 2 * SCALE);
    assert_eq!(v.approximate_length(), (15 * 3 * SCALE + 6 * 3 * SCALE) / 16);
    assert_eq!(v.approximate_length(), 3_937_500);
    // Signs do not matter.
    let w = Vector::new(-3 * SCALE, SCALE, -2 * SCALE);
    assert_eq!(w.approximate_length(), 3_937_500);
    // A lone axis underestimates by exactly one sixteenth of itself.
    let a = Vector::new(SCALE, 0, 0);
    assert_eq!(a.approximate_length(), 937_500);
    assert_eq!(Vector::new(0, 0, 0).approximate_length(), 0);
}

#[test]
fn approximate_length_tracks_magnitude() {
    let samples = [
        (SCALE, 0, 0),
        (SCALE, SCALE, 0),
        (SCALE, SCALE, SCALE),
        (SCALE, SCALE / 2, SCALE / 2),
        (7 * SCALE, -2 * SCALE, 3 * SCALE),
        (123_456, -654_321, 111_111),
    ];
    for &(x, y, z) in samples.iter() {
        let v = Vector::new(x, y, z);
        let al = v.approximate_length();
        let mag = v.magnitude();
        assert!(al >= 0);
        // Within eight percent of the true length, plus rounding slack.
        assert!(100 * (al - mag).abs() <= 8 * mag + 200);
    }
    let mut v = Vector::new(0, 0, 0);
    for _ in 0..200 {
        v.gen_random_vector();
        let al = v.approximate_length();
        let mag = v.magnitude();
        assert!(al >= 0);
        assert!(100 * (al - mag).abs() <= 8 * mag + 200);
    }
}

#[test]
fn cross_antisymmetric_and_self_zero() {
    let a = Vector::new(SCALE, 2 * SCALE, 3 * SCALE);
    let b = Vector::new(4 * SCALE, 5 * SCALE, 6 * SCALE);
    let mut ab = Vector::new(0, 0, 0);
    ab.set_cross(a, b);
    assert_eq!((ab.x, ab.y, ab.z), (-3 * SCALE, 6 * SCALE, -3 * SCALE));
    let mut ba = Vector::new(0, 0, 0);
    ba.set_cross(b, a);
    assert_eq!((ba.x, ba.y, ba.z), (3 * SCALE, -6 * SCALE, 3 * SCALE));
    assert_eq!((ab.x, ab.y, ab.z), (-ba.x, -ba.y, -ba.z));

    let mut aa = Vector::new(0, 0, 0);
    aa.set_cross(a, a);
    assert_eq!((aa.x, aa.y, aa.z), (0, 0, 0));
}

#[test]
fn normalize_gives_unit_length() {
    let mut v = Vector::new(3 * SCALE, 4 * SCALE, 0);
    v.set_normalize();
    assert_eq!((v.x, v.y, v.z), (600_000, 800_000, 0));
    assert_eq!(v.magnitude(), SCALE);

    let mut w = Vector::new(SCALE, SCALE, SCALE);
    w.set_normalize();
    assert_eq!((w.x, w.y, w.z), (577_350, 577_350, 577_350));
    assert!((w.magnitude() - SCALE).abs() <= 2);

    let mut z = Vector::new(0, 0, 0);
    z.set_normalize();
    assert_eq!((z.x, z.y, z.z), (0, 0, 0));
}

#[test]
fn truncate_clamps_approximate_length() {
    let mut v = Vector::new(3 * SCALE, 4 * SCALE, 0);
    assert_eq!(v.approximate_length(), 4_875_000);
    v.set_approximate_truncate(SCALE);
    assert_eq!((v.x, v.y, v.z), (615_384, 820_512, 0));
    assert!(v.approximate_length() <= SCALE);

    // Already short enough: unchanged.
    let mut w = Vector::new(100, -200, 300);
    w.set_approximate_truncate(SCALE);
    assert_eq!((w.x, w.y, w.z), (100, -200, 300));
}

#[test]
fn interpolation_and_scale_exact() {
    let mut r = Vector::new(0, 0, 0);
    // One percent of the way from `from` toward zero keeps one percent.
    r.set_interpolation(990_000, Vector::new(SCALE, 0, 0), Vector::new(0, 0, 0));
    assert_eq!((r.x, r.y, r.z), (10_000, 0, 0));

    let mut s = Vector::new(0, 0, 0);
    s.set_scale(500_000, Vector::new(2 * SCALE, -3 * SCALE, 1));
    assert_eq!((s.x, s.y, s.z), (SCALE, -(3 * SCALE) / 2, 0));
    // Rounding is toward zero on both signs.
    let mut t = Vector::new(0, 0, 0);
    t.set_scale(500_000, Vector::new(3, -3, 0));
    assert_eq!((t.x, t.y, t.z), (1, -1, 0));
}

#[test]
fn approximate_distance_is_length_of_difference() {
    let a = Vector::new(10 * SCALE, 0, 0);
    let b = Vector::new(9 * SCALE, 0, 0);
    assert_eq!(a.approximate_distance(&b), 937_500);
    assert_eq!(b.approximate_distance(&a), 937_500);
    assert_eq!(a.approximate_distance(&a), 0);
}

#[test]
fn sum_then_diff_round_trip() {
    let cases = [
        (5, -3, 1_000_000_000, 7, 2, -999_999_999),
        (0, 0, 0, -1, -2, -3),
        (123_456_789, -987_654_321, 555, 42, 42, 42),
    ];
    for &(ax, ay, az, bx, by, bz) in cases.iter() {
        let a = Vector::new(ax, ay, az);
        let b = Vector::new(bx, by, bz);
        let mut sum = Vector::new(0, 0, 0);
        sum.set_sum(a, b);
        let mut back = Vector::new(0, 0, 0);
        back.set_diff(sum, b);
        assert_eq!((back.x, back.y, back.z), (ax, ay, az));
    }
}
