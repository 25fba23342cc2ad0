use jetman::fixed::{dist_fp, fdiv, fmul, isqrt, sat_add, sat_sub, LIM};

#[test]
fn fixed_mul_truncates_toward_zero() {
    // 0.003 * 0.5 is 0.0015, truncated to 0.001 — and toward zero on
    // the negative side, not toward minus infinity.
    assert_eq!(fmul(3, 500), 1);
    assert_eq!(fmul(-3, 500), -1);
    assert_eq!(fmul(2000, 1500), 3000);
}

#[test]
fn fixed_div_scales() {
    assert_eq!(fdiv(1, 3), 333);
    assert_eq!(fdiv(-1, 3), -333);
    assert_eq!(fdiv(10, 1000), 10);
}

#[test]
fn saturating_ops_clamp_at_band_edge() {
    assert_eq!(sat_add(LIM, 1), LIM);
    assert_eq!(sat_sub(-LIM, 1), -LIM);
    assert_eq!(sat_add(1, 2), 3);
    assert_eq!(sat_sub(1, 2), -1);
}

#[test]
fn integer_square_root() {
    assert_eq!(isqrt(0), 0);
    assert_eq!(isqrt(1), 1);
    assert_eq!(isqrt(99), 9);
    assert_eq!(isqrt(100), 10);
    assert_eq!(isqrt(1_000_000_000_000_000_000_000_000), 1_000_000_000_000);
}

#[test]
fn distance_of_a_pythagorean_pair() {
    assert_eq!(dist_fp(0, 0, 3000, 4000), 5000);
    assert_eq!(dist_fp(3000, 4000, 0, 0), 5000);
    assert_eq!(dist_fp(-1000, -1000, -1000, -1000), 0);
}
