use phievse::control_pilot::{
    classify, current_to_duty, peak, signal_duty, ControlPilotMode, ControlPilotReader,
    ControlPilotSignal, MAX_DUTY,
};
use std::ops::RangeInclusive;

#[test]
fn empirical_values() {
    const TEST_VALUES: [(u32, RangeInclusive<u32>); 11] = [
        (6, 211..=213),
        (7, 215..=230),
        (8, 240..=250),
        (9, 250..=270),
        (10, 270..=290),
        (11, 290..=300),
        (12, 300..=310),
        (13, 360..=400),
        (14, 525..=585),
        (15, 740..=830),
        (16, 1030..=1150),
    ];

    for (amps, range) in TEST_VALUES {
        let cp = current_to_duty(amps * 1000);
        assert!(range.contains(&cp));
    }
}

#[test]
fn duty_is_zero_outside_the_charge_range() {
    assert_eq!(current_to_duty(0), 0);
    assert_eq!(current_to_duty(5999), 0);
    assert_eq!(current_to_duty(32001), 0);
    assert_eq!(current_to_duty(u32::MAX), 0);
}

#[test]
fn duty_at_piece_edges() {
    assert_eq!(current_to_duty(6000), 212);
    assert_eq!(current_to_duty(10999), 296);
    assert_eq!(current_to_duty(11000), 296);
    assert_eq!(current_to_duty(13499), 458);
    assert_eq!(current_to_duty(13500), 459);
    assert_eq!(current_to_duty(32000), 4807);
}

#[test]
fn duty_does_not_decrease_on_the_linear_pieces() {
    let mut prev = current_to_duty(6000);
    for ma in 6001..=10999 {
        let d = current_to_duty(ma);
        assert!(d >= prev);
        prev = d;
    }
    for ma in 13500..=32000 {
        let d = current_to_duty(ma);
        assert!(d >= prev);
        prev = d;
    }
}

#[test]
fn duty_dips_only_inside_the_quadratic_piece() {
    let mut prev = current_to_duty(6000);
    for ma in (6001..=11004).chain(13328..=32000) {
        let d = current_to_duty(ma);
        assert!(d >= prev);
        prev = d;
    }
    assert!(current_to_duty(11005) < current_to_duty(11004));
}

#[test]
fn duty_of_each_signal() {
    assert_eq!(signal_duty(ControlPilotSignal::Standby), MAX_DUTY);
    assert_eq!(signal_duty(ControlPilotSignal::Error), 0);
    assert_eq!(signal_duty(ControlPilotSignal::Charge(16000)), 1047);
    assert_eq!(signal_duty(ControlPilotSignal::Charge(40000)), 0);
}

#[test]
fn classifies_the_pilot_voltage() {
    assert_eq!(classify(0), ControlPilotMode::NotConnected);
    assert_eq!(classify(50), ControlPilotMode::NotConnected);
    assert_eq!(classify(51), ControlPilotMode::Connected);
    assert_eq!(classify(450), ControlPilotMode::Connected);
    assert_eq!(classify(650), ControlPilotMode::Connected);
    assert_eq!(classify(651), ControlPilotMode::Ready);
    assert_eq!(classify(2600), ControlPilotMode::Ready);
}

#[test]
fn peak_of_a_batch() {
    assert_eq!(peak(&[]), None);
    assert_eq!(peak(&[3, 1300, 20, -5]), Some(1300));
    assert_eq!(peak(&[-7]), Some(-7));
}

#[test]
fn reader_keeps_the_last_peak() {
    let mut r = ControlPilotReader::new();
    assert_eq!(r.state(), ControlPilotMode::NotConnected);
    r.receive(&[0, 450, 12, 440]);
    assert_eq!(r.cp_mv, 450);
    assert_eq!(r.state(), ControlPilotMode::Connected);
    r.receive(&[]);
    assert_eq!(r.state(), ControlPilotMode::Connected);
    r.receive(&[1290, 1300]);
    assert_eq!(r.state(), ControlPilotMode::Ready);
    assert!(!r.negative);
    r.set_negative();
    assert!(r.negative);
}
