use goldilocks::binary32::{clamp, lt, nan, INFINITY, SIGN_BIT, ZERO};
use goldilocks::controls::{
    Controls, HALF, LEARN_WINDOW_MAX, LEARN_WINDOW_MIN, NOISE_FLOOR_DB_MAX, NOISE_FLOOR_DB_MIN, ONE,
};

fn specimens() -> Vec<f32> {
    let mut all = vec![
        0.0f32,
        -0.0,
        1.0,
        -1.0,
        0.5,
        -0.5,
        0.1,
        30.0,
        -96.0,
        60.0,
        20.0,
        1.0e-4,
        1.0e-2,
        3.5e-45,
        -3.5e-45,
        f32::MIN_POSITIVE,
        -f32::MIN_POSITIVE,
        f32::MAX,
        f32::MIN,
        f32::EPSILON,
        f32::INFINITY,
        f32::NEG_INFINITY,
        f32::NAN,
        -f32::NAN,
        f32::from_bits(0x7F80_0001),
        f32::from_bits(0xFFFF_FFFF),
        f32::from_bits(0x7FFF_FFFF),
        f32::from_bits(0x0000_0001),
        f32::from_bits(0x8000_0001),
        f32::from_bits(0x007F_FFFF),
    ];
    let mut x: u32 = 0x1234_5678;
    for _ in 0..200 {
        x = x.wrapping_mul(1_664_525).wrapping_add(1_013_904_223);
        all.push(f32::from_bits(x));
    }
    all
}

#[test]
fn lt_agrees_with_the_hardware_on_every_pair() {
    let all = specimens();
    for a in all.iter() {
        for b in all.iter() {
            assert_eq!(lt(a.to_bits(), b.to_bits()), a < b, "{:?} < {:?}", a, b);
        }
    }
}

#[test]
fn nan_agrees_with_the_hardware() {
    for a in specimens() {
        assert_eq!(nan(a.to_bits()), a.is_nan(), "{:?}", a);
    }
}

#[test]
fn lt_on_chosen_patterns() {
    assert!(lt(0x3F80_0000, 0x4000_0000));
    assert!(!lt(0x4000_0000, 0x3F80_0000));
    assert!(!lt(0x3F80_0000, 0x3F80_0000));
    assert!(lt(0xBF80_0000, ZERO));
    assert!(lt(0xC000_0000, 0xBF80_0000));
    assert!(!lt(SIGN_BIT, ZERO));
    assert!(!lt(ZERO, SIGN_BIT));
    assert!(lt(ZERO, 1));
    assert!(lt(0x8000_0001, SIGN_BIT));
    assert!(lt(0x7F7F_FFFF, INFINITY));
    assert!(lt(0xFF80_0000, 0xFF7F_FFFF));
    assert!(!lt(0x7FC0_0000, INFINITY));
    assert!(!lt(ZERO, 0x7FC0_0000));
    assert!(!lt(0xFFC0_0000, ZERO));
}

#[test]
fn lt_is_a_strict_order() {
    let all = specimens();
    for a in all.iter().take(40) {
        assert!(!lt(a.to_bits(), a.to_bits()));
        for b in all.iter().take(40) {
            if lt(a.to_bits(), b.to_bits()) {
                assert!(!lt(b.to_bits(), a.to_bits()));
                for c in all.iter().take(40) {
                    if lt(b.to_bits(), c.to_bits()) {
                        assert!(lt(a.to_bits(), c.to_bits()));
                    }
                }
            }
        }
    }
}

#[test]
fn clamp_agrees_with_the_hardware() {
    let ranges = [(0.0f32, 1.0f32), (0.1, 30.0), (-96.0, 60.0), (-1.0, -1.0)];
    for (lower, upper) in ranges {
        for a in specimens() {
            let got = f32::from_bits(clamp(a.to_bits(), lower.to_bits(), upper.to_bits()));
            if a.is_nan() {
                assert_eq!(got.to_bits(), a.to_bits());
            } else {
                assert_eq!(got, a.clamp(lower, upper), "{:?} in {:?}..{:?}", a, lower, upper);
            }
        }
    }
}

#[test]
fn clamp_returns_the_bound_lain_beyond() {
    let lower = (-96.0f32).to_bits();
    let upper = 60.0f32.to_bits();
    assert_eq!(clamp(100.0f32.to_bits(), lower, upper), upper);
    assert_eq!(clamp((-200.0f32).to_bits(), lower, upper), lower);
    assert_eq!(clamp(1.0f32.to_bits(), lower, upper), 1.0f32.to_bits());
    assert_eq!(clamp(lower, lower, upper), lower);
    assert_eq!(clamp(upper, lower, upper), upper);
    assert_eq!(clamp(0x7FC0_0000, lower, upper), 0x7FC0_0000);
}

#[test]
fn control_constants_are_the_documented_values() {
    assert_eq!(ZERO, 0.0f32.to_bits());
    assert_eq!(HALF, 0.5f32.to_bits());
    assert_eq!(ONE, 1.0f32.to_bits());
    assert_eq!(LEARN_WINDOW_MIN, 0.1f32.to_bits());
    assert_eq!(LEARN_WINDOW_MAX, 30.0f32.to_bits());
    assert_eq!(NOISE_FLOOR_DB_MIN, (-96.0f32).to_bits());
    assert_eq!(NOISE_FLOOR_DB_MAX, 60.0f32.to_bits());
    assert_eq!(INFINITY, f32::INFINITY.to_bits());
    assert_eq!(SIGN_BIT, (-0.0f32).to_bits());
}

fn controls(learn: f32, learn_window: f32, noise_floor_db: f32) -> Controls {
    Controls {
        learn: learn.to_bits(),
        learn_window: learn_window.to_bits(),
        noise_floor_db: noise_floor_db.to_bits(),
    }
}

#[test]
fn controls_in_range_pass_unchanged() {
    let c = controls(1.0, 15.0, -40.0);
    assert_eq!(c.clamp_to_ranges(), c);
    let edges = controls(0.0, 0.1, 60.0);
    assert_eq!(edges.clamp_to_ranges(), edges);
}

#[test]
fn controls_out_of_range_go_to_the_nearest_bound() {
    let c = controls(7.0, 0.01, -120.0).clamp_to_ranges();
    assert_eq!(c, controls(1.0, 0.1, -96.0));
    let d = controls(-3.0, 45.0, 90.0).clamp_to_ranges();
    assert_eq!(d, controls(0.0, 30.0, 60.0));
}

#[test]
fn clamping_controls_twice_changes_nothing_more() {
    for (a, b, c) in [(7.0f32, 0.01f32, -120.0f32), (-3.0, 45.0, 90.0), (0.3, 2.0, 0.0)] {
        let once = controls(a, b, c).clamp_to_ranges();
        assert_eq!(once.clamp_to_ranges(), once);
    }
}

#[test]
fn learn_toggle_is_on_above_one_half() {
    assert!(controls(1.0, 1.0, 0.0).learn_enabled());
    assert!(controls(0.500_000_1, 1.0, 0.0).learn_enabled());
    assert!(!controls(0.5, 1.0, 0.0).learn_enabled());
    assert!(!controls(0.0, 1.0, 0.0).learn_enabled());
    assert!(!controls(-1.0, 1.0, 0.0).learn_enabled());
    assert!(!controls(f32::NAN, 1.0, 0.0).learn_enabled());
    assert!(controls(f32::INFINITY, 1.0, 0.0).learn_enabled());
}

#[test]
fn clamping_keeps_the_learn_toggle() {
    for a in specimens() {
        let c = controls(a, 1.0, 0.0);
        assert_eq!(c.clamp_to_ranges().learn_enabled(), c.learn_enabled(), "{:?}", a);
        assert_eq!(c.learn_enabled(), a > 0.5);
    }
}
