//! The threshold policy on concrete values.

use rembg::alpha::compute_alpha;

#[test]
fn smooth_ramp_zero_at_and_below_threshold() {
    for m in 0..=160u8 {
        assert_eq!(compute_alpha(m, 160, false), 0);
    }
}

#[test]
fn smooth_ramp_full_at_opaque() {
    for t in 0..=254u8 {
        assert_eq!(compute_alpha(255, t, false), 255);
    }
}

#[test]
fn smooth_ramp_exact_values() {
    // round((m - t) * 255 / (255 - t))
    assert_eq!(compute_alpha(200, 160, false), 107); // round(10200 / 95)
    assert_eq!(compute_alpha(161, 160, false), 3); // round(255 / 95)
    assert_eq!(compute_alpha(128, 0, false), 128);
    assert_eq!(compute_alpha(255, 254, false), 255);
    assert_eq!(compute_alpha(64, 0, false), 64);
}

#[test]
fn smooth_ramp_monotonic() {
    for t in [0u8, 1, 100, 160, 254] {
        let mut prev = 0u8;
        for m in 0..=255u8 {
            let a = compute_alpha(m, t, false);
            assert!(a >= prev);
            prev = a;
        }
    }
}

#[test]
fn binary_mode_two_valued_cut() {
    for t in [0u8, 1, 128, 160, 255] {
        for m in 0..=255u8 {
            let a = compute_alpha(m, t, true);
            assert!(a == 0 || a == 255);
            assert_eq!(a == 255, m >= t);
        }
    }
}

#[test]
fn degenerate_threshold_only_opaque_survives() {
    for m in 0..=254u8 {
        assert_eq!(compute_alpha(m, 255, false), 0);
    }
    assert_eq!(compute_alpha(255, 255, false), 255);
}
