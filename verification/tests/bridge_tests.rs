use sout_gain::bridge::Action;
use sout_gain::bridge::Notification;
use sout_gain::bridge::Reaction;
use sout_gain::bridge::cycle;
use sout_gain::params::ParameterModel;
use sout_gain::text::display_mdb;

#[test]
fn defaults_match_design() {
    let m = ParameterModel::new();
    assert_eq!(m.gain_num, 0);
    assert_eq!(m.length_bars, 0);
    assert_eq!(m.pow_exponent(), 10);
    assert_eq!(m.amount_micro(), 500_000);
    assert!(!m.gain_changed);
}

#[test]
fn init_produces_one_set_size_before_any_other_notification() {
    let mut m = ParameterModel::new();
    let actions = vec![Action::Init, Action::SetGain { value: 250_000 }];
    let out = cycle(&mut m, 640, 480, &actions);
    // the Init answer comes first ...
    assert!(matches!(
        out[0],
        Reaction::Send(Notification::SetSize { width: 640, height: 480 })
    ));
    // ... and the only other notification is the trailing gain change
    assert_eq!(out.len(), 2);
    assert!(matches!(
        out[1],
        Reaction::Send(Notification::ParamChange { .. })
    ));
}

#[test]
fn set_size_requests_resize_only() {
    let mut m = ParameterModel::new();
    let before = m.gain_num;
    let actions = vec![Action::SetSize { width: 300, height: 200 }];
    let out = cycle(&mut m, 640, 480, &actions);
    assert_eq!(out.len(), 1);
    assert!(matches!(out[0], Reaction::Resize { width: 300, height: 200 }));
    assert_eq!(m.gain_num, before);
}

#[test]
fn full_scale_gain_reaches_plus_thirty_decibels() {
    let mut m = ParameterModel::new();
    let actions = vec![Action::SetGain { value: 1_000_000 }];
    let out = cycle(&mut m, 640, 480, &actions);
    assert_eq!(m.gain_normalized(), 1_000_000);
    assert_eq!(m.gain_mdb(), 30_000);
    // the raw amplitude is db_to_gain(+30)
    let amplitude = 10f64.powf(m.gain_mdb() as f64 / 1_000.0 / 20.0);
    assert!((amplitude - 31.6227766).abs() < 1e-3);
    assert_eq!(out.len(), 1);
    match &out[0] {
        Reaction::Send(Notification::ParamChange { value, text }) => {
            assert_eq!(*value, 1_000_000);
            assert_eq!(text.as_str(), "30.00 dB");
        },
        _ => panic!("expected a gain change notification"),
    }
}

#[test]
fn many_writes_one_notification() {
    let mut m = ParameterModel::new();
    let actions = vec![
        Action::SetGain { value: 100_000 },
        Action::SetGain { value: 200_000 },
        Action::SetGain { value: 300_000 },
    ];
    let out = cycle(&mut m, 640, 480, &actions);
    // one notification for the whole burst, carrying the latest value
    assert_eq!(out.len(), 1);
    match &out[0] {
        Reaction::Send(Notification::ParamChange { value, .. }) => {
            assert_eq!(*value, 300_000);
        },
        _ => panic!("expected a gain change notification"),
    }
    // a drained flag stays drained: the next empty cycle emits nothing
    let out2 = cycle(&mut m, 640, 480, &vec![]);
    assert_eq!(out2.len(), 0);
}

#[test]
fn host_automation_also_notifies_exactly_once() {
    let mut m = ParameterModel::new();
    m.automate_gain_normalized(750_000);
    m.automate_gain_normalized(800_000);
    let out = cycle(&mut m, 640, 480, &vec![]);
    assert_eq!(out.len(), 1);
    assert!(matches!(
        out[0],
        Reaction::Send(Notification::ParamChange { .. })
    ));
    let out2 = cycle(&mut m, 640, 480, &vec![]);
    assert_eq!(out2.len(), 0);
}

#[test]
fn non_gain_writes_do_not_notify() {
    let mut m = ParameterModel::new();
    let actions = vec![
        Action::SetLength { value: 2 },
        Action::SetPow { value: 500_000 },
        Action::SetAmount { value: 0 },
    ];
    let out = cycle(&mut m, 640, 480, &actions);
    assert_eq!(out.len(), 0);
    assert_eq!(m.length_bars, 2);
    assert_eq!(m.pow_exponent(), 10);
    assert_eq!(m.amount_micro(), 0);
}

#[test]
fn out_of_range_inputs_are_clamped() {
    let mut m = ParameterModel::new();
    let actions = vec![
        Action::SetLength { value: 9 },
        Action::SetGain { value: 2_000_000 },
        Action::SetAmount { value: 1_000_001 },
    ];
    cycle(&mut m, 640, 480, &actions);
    assert_eq!(m.length_bars, 4);
    assert_eq!(m.gain_normalized(), 1_000_000);
    assert_eq!(m.amount_micro(), 1_000_000);
}

#[test]
fn gain_display_text() {
    assert_eq!(display_mdb(0), "0.00 dB");
    assert_eq!(display_mdb(30_000), "30.00 dB");
    assert_eq!(display_mdb(-25_000), "-25.00 dB");
    assert_eq!(display_mdb(-12_345), "-12.34 dB");
    assert_eq!(display_mdb(5), "0.00 dB");
    assert_eq!(display_mdb(-5), "-0.00 dB");
    assert_eq!(display_mdb(1_234), "1.23 dB");
}

#[test]
fn stable_parameter_identifiers() {
    assert_eq!(sout_gain::params::param_id_gain(), "gain");
    assert_eq!(sout_gain::params::param_id_length(), "lenght");
    assert_eq!(sout_gain::params::param_id_pow(), "pump");
    assert_eq!(sout_gain::params::param_id_amount(), "amount");
}

#[test]
fn model_round_trips_normalized_values() {
    let mut m = ParameterModel::new();
    m.begin_edit();
    m.set_pow_normalized(250_000);
    m.end_edit();
    m.begin_edit();
    m.set_amount_normalized(777_777);
    m.end_edit();
    assert_eq!(m.pow_normalized(), 250_000);
    assert_eq!(m.amount_normalized(), 777_777);
    // a quarter of the 0..20 range is exponent 5
    assert_eq!(m.pow_exponent(), 5);
    assert_eq!(m.amount_micro(), 777_777);
}

#[test]
fn edit_bracket_is_tracked() {
    let mut m = ParameterModel::new();
    m.begin_edit();
    m.set_gain_normalized(500_000);
    m.end_edit();
    assert!(m.gain_changed);
    assert!(!m.editing);
}
