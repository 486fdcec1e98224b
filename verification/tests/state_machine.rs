use firmware::device::{Device, Measurement, State, TickRate};
use firmware::display::{SEG_POINT, SYM_DELTA, SYM_ONE, SYM_SIX, SYM_ZERO};
use firmware::scales::Zone;

/// One full sampling sweep: the tick begins it, then the five conversions
/// complete in channel order.
fn sweep(d: &mut Device, pot_quantity: u16, pot_quality: u16, acc: [u16; 3]) {
    d.timer_interrupt();
    d.adc_interrupt(pot_quantity);
    d.adc_interrupt(pot_quality);
    d.adc_interrupt(acc[0]);
    d.adc_interrupt(acc[1]);
    d.adc_interrupt(acc[2]);
}

#[test]
fn sweep_sequences_five_channels() {
    let mut d = Device::new();
    assert_eq!(d.adc_measuring, None);
    d.timer_interrupt();
    assert_eq!(d.adc_measuring, Some(Measurement::PotQuantity));
    d.adc_interrupt(512);
    assert_eq!(d.adc_measuring, Some(Measurement::PotQuality));
    d.adc_interrupt(700);
    assert_eq!(d.adc_measuring, Some(Measurement::AccX));
    d.adc_interrupt(300);
    assert_eq!(d.adc_measuring, Some(Measurement::AccY));
    d.adc_interrupt(300);
    assert_eq!(d.adc_measuring, Some(Measurement::AccZ));
    d.adc_interrupt(300);
    // after the last channel the sweep ends until the next tick
    assert_eq!(d.adc_measuring, None);
}

#[test]
fn entropy_accumulates_accelerometer_samples() {
    let mut d = Device::new();
    sweep(&mut d, 512, 700, [100, 200, 300]);
    assert_eq!(d.entropy, 600);

    d.entropy = 65535;
    sweep(&mut d, 512, 700, [1, 0, 0]);
    assert_eq!(d.entropy, 0);
}

#[test]
fn knob_at_center_settles_on_quantity_ten() {
    let mut d = Device::new();
    assert_eq!(d.quantity, None);
    assert_eq!(d.quality, None);

    for _ in 0..15 {
        sweep(&mut d, 512, 700, [300, 300, 300]);
        assert_eq!(d.quantity, None, "window not full yet");
    }
    sweep(&mut d, 512, 700, [300, 300, 300]);

    assert_eq!(d.quantity, Some(Zone { value: 10, start: 512, end: 562 }));
    assert_eq!(d.quality, Some(Zone { value: 6, start: 680, end: 849 }));
    assert!(matches!(d.state, State::Displaying { .. }));
    // quantity 10 and quality 6 render as two digits, the separator, one digit
    assert_eq!(d.display.buffer, vec![SYM_ONE, SYM_ZERO, SYM_DELTA, SYM_SIX]);
}

#[test]
fn noisy_knob_needs_to_cross_the_dead_band() {
    let mut d = Device::new();
    for _ in 0..16 {
        sweep(&mut d, 512, 700, [300, 300, 300]);
    }
    assert_eq!(d.quantity.unwrap().value, 10);

    // jitter around the lower boundary stays within the dead band
    for _ in 0..32 {
        sweep(&mut d, 508, 700, [300, 300, 300]);
    }
    assert_eq!(d.quantity.unwrap().value, 10, "debounced");

    // a decisive move re-selects
    for _ in 0..32 {
        sweep(&mut d, 480, 700, [300, 300, 300]);
    }
    assert_eq!(d.quantity.unwrap().value, 11);
}

#[test]
fn three_draws_summed_once_settled() {
    let mut d = Device::new();
    d.enter_rolling(3, 6);
    assert!(matches!(d.state, State::Rolling { .. }));

    // three accepted draws of raw values 2, 5 and 1 store faces 3, 6 and 2
    for e in [2u16, 5, 1] {
        d.entropy = e;
        d.timer_interrupt();
        d.adc_measuring = None;
    }
    // rejected draws leave the results untouched
    d.entropy = 255;
    d.timer_interrupt();
    d.adc_measuring = None;

    match &d.state {
        State::Rolling { results, .. } => {
            assert_eq!(results.sum_of_first(3), Some(11));
            assert_eq!(results.sum_of_first(4), None);
        }
        _ => unreachable!(),
    }

    // hold the device still until the roll settles
    for _ in 0..16 {
        d.acc_l2.x.put(100);
        d.acc_l2.y.put(100);
        d.acc_l2.z.put(100);
    }
    for _ in 0..120 {
        assert!(matches!(d.state, State::Rolling { .. }));
        d.test_acceleration();
    }

    assert!(matches!(d.state, State::Displaying { .. }));
    assert_eq!(d.display.buffer, vec![0, 0, SYM_ONE, SYM_ONE | SEG_POINT]);
}

#[test]
fn idle_device_falls_asleep_with_display_off() {
    let mut d = Device::new();
    for _ in 0..16 {
        d.acc_l2.x.put(100);
        d.acc_l2.y.put(100);
        d.acc_l2.z.put(100);
    }

    for _ in 0..6001 {
        assert!(matches!(d.state, State::Displaying { .. }));
        d.test_acceleration();
    }

    assert!(matches!(d.state, State::Sleeping { .. }));
    assert_eq!(d.tick_rate, TickRate::Reduced);
    assert_eq!(d.display.forced_output, Some((0, 0)));
}

#[test]
fn sustained_disturbance_wakes_straight_into_rolling() {
    let mut d = Device::new();
    d.quantity = Some(Zone { value: 10, start: 512, end: 562 });
    d.quality = Some(Zone { value: 6, start: 680, end: 849 });
    d.enter_sleeping();
    assert_eq!(d.tick_rate, TickRate::Reduced);

    // a shaking amplitude well past the wake threshold
    for i in 0..16u16 {
        let v = if i % 2 == 0 { 100 } else { 200 };
        d.acc_l2.x.put(v);
        d.acc_l2.y.put(300);
        d.acc_l2.z.put(300);
    }

    for _ in 0..21 {
        // the device never passes through Displaying on its way up
        assert!(matches!(d.state, State::Sleeping { .. }));
        d.test_acceleration();
    }

    assert!(matches!(d.state, State::Rolling { .. }));
    assert_eq!(d.tick_rate, TickRate::Normal);
}

#[test]
fn unknown_settings_defer_the_wake() {
    let mut d = Device::new();
    d.enter_sleeping();
    for i in 0..16u16 {
        let v = if i % 2 == 0 { 100 } else { 200 };
        d.acc_l2.x.put(v);
        d.acc_l2.y.put(300);
        d.acc_l2.z.put(300);
    }
    for _ in 0..1000 {
        d.test_acceleration();
    }
    // without both settings the device stays asleep however hard it shakes
    assert!(matches!(d.state, State::Sleeping { .. }));
}
