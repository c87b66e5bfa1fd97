use sout_gain::envelope::attenuation_mdb;
use sout_gain::processor::process_block;
use sout_gain::smoother::Smoother;

#[test]
fn smoother_instant_snaps() {
    let mut s = Smoother::new(300, 0);
    s.set_target(5_000);
    assert_eq!(s.next(), 5_000);
    assert_eq!(s.next(), 5_000);
}

#[test]
fn smoother_ramps_and_converges() {
    let mut s = Smoother::new(0, 4);
    s.set_target(1_000);
    assert_eq!(s.next(), 250);
    assert_eq!(s.next(), 500);
    assert_eq!(s.next(), 750);
    // the full window has elapsed: the value is the target exactly
    assert_eq!(s.next(), 1_000);
    assert_eq!(s.next(), 1_000);
}

#[test]
fn smoother_never_overshoots_downward() {
    let mut s = Smoother::new(0, 3);
    s.set_target(-10);
    let mut prev: i64 = 0;
    for _ in 0..6 {
        let v = s.next();
        assert!(v <= prev);
        assert!(v >= -10);
        prev = v;
    }
    assert_eq!(prev, -10);
}

#[test]
fn smoother_retarget_continues_from_current() {
    let mut s = Smoother::new(0, 4);
    s.set_target(1_000);
    s.next();
    s.next();
    // mid-ramp retarget: no reset, the ramp starts from the current 500
    s.set_target(0);
    let v = s.next();
    assert_eq!(v, 375);
    assert!(v < 500);
}

#[test]
fn smoother_converges_within_gain_window() {
    // the gain ramp at 48 kHz: 50 ms is 2400 samples
    let window = sout_gain::smoother::smoothing_window(sout_gain::smoother::GAIN_SMOOTH_MS, 48_000);
    assert_eq!(window, 2_400);
    let mut s = Smoother::new(0, window);
    s.set_target(-30_000);
    let mut last: i64 = 0;
    for _ in 0..window {
        let v = s.next();
        assert!(v <= last);
        assert!(v >= -30_000);
        last = v;
    }
    assert_eq!(last, -30_000);
}

#[test]
fn envelope_bypassed_when_length_zero() {
    assert_eq!(attenuation_mdb(120_000, 1_000_000, 0, 10, 500_000), 0);
    assert_eq!(attenuation_mdb(1, 0, 0, 0, 1_000_000), 0);
    assert_eq!(attenuation_mdb(99_000_000, 123_456_789, 0, 20, 999_999), 0);
}

#[test]
fn envelope_zero_amount_is_transparent() {
    assert_eq!(attenuation_mdb(120_000, 777_777, 2, 10, 0), 0);
    assert_eq!(attenuation_mdb(60_000, 0, 4, 20, 0), 0);
}

#[test]
fn envelope_full_attenuation_at_loop_start() {
    // 120 BPM at 1.0 s is beat 2.0, which is 0 inside a 2-bar loop:
    // attenuation is -50 * amount = -25 dB exactly
    assert_eq!(attenuation_mdb(120_000, 1_000_000, 2, 10, 500_000), -25_000);
    // the matching linear gain multiplier is about 0.0562
    let mult = 10f64.powf(-25_000.0 / 1_000.0 / 20.0);
    assert!((mult - 0.0562).abs() < 1e-3);
}

#[test]
fn envelope_decays_with_beat() {
    // 120 BPM at 1.5 s is beat 3.0, i.e. beat 1.0 inside a 2-bar loop;
    // ten halvings of the micro-unit decay factor leave 976, and
    // 976 * 500_000 / 20_000_000 = 24 milli-decibels
    assert_eq!(attenuation_mdb(120_000, 1_500_000, 2, 10, 500_000), -24);
    // attenuation weakens as the beat grows
    let early = attenuation_mdb(120_000, 1_000_000, 2, 10, 500_000);
    let late = attenuation_mdb(120_000, 1_500_000, 2, 10, 500_000);
    assert!(late > early);
}

#[test]
fn process_block_applies_envelope_and_gain() {
    // gain at rest on -6000 milli-decibels, envelope bypassed
    let mut g = Smoother::new(-6_000, 0);
    let out = process_block(&mut g, 0, 10, 500_000, 120_000, 0, 48_000, 3);
    assert_eq!(out, vec![-6_000, -6_000, -6_000]);
}

#[test]
fn process_block_smooths_gain_per_sample() {
    let mut g = Smoother::new(0, 4);
    g.set_target(-8_000);
    let out = process_block(&mut g, 0, 10, 500_000, 120_000, 0, 48_000, 5);
    assert_eq!(out, vec![-2_000, -4_000, -6_000, -8_000, -8_000]);
}

#[test]
fn process_block_adds_envelope_attenuation() {
    // at block start the loop is at beat 0: -25 dB from the envelope on
    // top of the static -6 dB gain
    let mut g = Smoother::new(-6_000, 0);
    let out = process_block(&mut g, 2, 10, 500_000, 120_000, 1_000_000, 1_000_000, 2);
    assert_eq!(out[0], -25_000 + -6_000);
    // one sample later (1 us at this rate) the beat has advanced
    assert!(out[1] >= out[0]);
}
