use sout_gain::range::Range;
use sout_gain::range::denormalize;
use sout_gain::range::normalize;
use sout_gain::range::kth_root;
use sout_gain::range::pow_u;
use sout_gain::range::NORM_ONE;

#[test]
fn round_trip_linear() {
    let r = Range::Linear { min: 0, max: 20_000 };
    let samples: [u32; 6] = [0, 1, 123_456, 500_000, 999_999, NORM_ONE];
    for v in samples {
        let num = denormalize(&r, v);
        assert_eq!(normalize(&r, num), v);
    }
}

#[test]
fn round_trip_linear_negative_min() {
    let r = Range::Linear { min: -750, max: 250 };
    let samples: [u32; 5] = [0, 7, 250_000, 999_999, NORM_ONE];
    for v in samples {
        let num = denormalize(&r, v);
        assert_eq!(normalize(&r, num), v);
    }
}

#[test]
fn round_trip_skewed() {
    let r = Range::Skewed { min: -30_000, max: 30_000, factor: 2 };
    let samples: [u32; 6] = [0, 1, 123_456, 707_106, 999_999, NORM_ONE];
    for v in samples {
        let num = denormalize(&r, v);
        assert_eq!(normalize(&r, num), v);
    }
}

#[test]
fn round_trip_skewed_higher_factor() {
    let r = Range::Skewed { min: 100, max: 900, factor: 4 };
    let samples: [u32; 5] = [0, 33, 444_444, 999_999, NORM_ONE];
    for v in samples {
        let num = denormalize(&r, v);
        assert_eq!(normalize(&r, num), v);
    }
}

#[test]
fn denormalize_linear_midpoint() {
    // amount-style range: half scale lands exactly on raw 0.5 in micro-units
    let r = Range::Linear { min: 0, max: 1_000_000 };
    let num = denormalize(&r, 500_000);
    assert_eq!(num, 500_000i128 * 1_000_000);
}

#[test]
fn denormalize_skewed_endpoints() {
    let r = Range::Skewed { min: -30_000, max: 30_000, factor: 2 };
    // full scale reaches the top of the range: +30 dB in milli-decibels
    assert_eq!(denormalize(&r, NORM_ONE), 30_000i128 * 1_000_000_000_000);
    // zero reaches the bottom: -30 dB
    assert_eq!(denormalize(&r, 0), -30_000i128 * 1_000_000_000_000);
}

#[test]
fn kth_root_picks_floor() {
    assert_eq!(kth_root(624, 2), 24);
    assert_eq!(kth_root(625, 2), 25);
    assert_eq!(kth_root(0, 3), 0);
    assert_eq!(kth_root(1_000_000_000_000_000_000_000_000, 4), 1_000_000);
}

#[test]
fn pow_u_exact() {
    assert_eq!(pow_u(10, 4), 10_000);
    assert_eq!(pow_u(1_000_000, 2), 1_000_000_000_000);
    assert_eq!(pow_u(7, 0), 1);
}
