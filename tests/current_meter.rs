use phievse::current_meter::{isqrt, CurrentMeter, MeterPhase};

fn sine_samples(vref: f64, amplitude_mv: f64, n: usize) -> Vec<i32> {
    (0..n)
        .map(|i| {
            let t = i as f64 / 10000.0;
            (vref + amplitude_mv * (2.0 * std::f64::consts::PI * 50.0 * t).sin()).round() as i32
        })
        .collect()
}

fn feed(meter: &mut CurrentMeter, samples: &[i32]) {
    for batch in samples.chunks(100) {
        meter.receive(batch);
    }
}

#[test]
fn integer_square_root() {
    assert_eq!(isqrt(0), 0);
    assert_eq!(isqrt(1), 1);
    assert_eq!(isqrt(3), 1);
    assert_eq!(isqrt(4), 2);
    assert_eq!(isqrt(72900), 270);
    assert_eq!(isqrt(72899), 269);
    assert_eq!(isqrt(u64::MAX), 0xffff_ffff);
}

#[test]
fn silence_calibrates_then_idles_at_zero() {
    let mut m = CurrentMeter::new(800);
    feed(&mut m, &vec![1650; 4900]);
    assert_eq!(m.phase, MeterPhase::Calibration);
    feed(&mut m, &vec![1650; 1100]);
    assert_eq!(m.phase, MeterPhase::Idle);
    assert_eq!(m.vref, 1650);
    assert_eq!(m.reading(), 0);
    feed(&mut m, &vec![1700; 3000]);
    assert_eq!(m.phase, MeterPhase::Idle);
    assert_eq!(m.reading(), 0);
}

#[test]
fn sine_wave_round_trip() {
    let amplitude = 500.0;
    let extra_milliohm = 800u32;
    let rms_mv = amplitude / std::f64::consts::SQRT_2;
    let expected_ma = rms_mv * 600.0 / (15.0 + extra_milliohm as f64 / 1000.0);

    let mut m = CurrentMeter::new(extra_milliohm);
    feed(&mut m, &sine_samples(1650.0, amplitude, 10000));
    let got = m.reading() as f64;
    assert!(got >= expected_ma * 0.9 && got <= expected_ma * 1.1, "got {got}, expected {expected_ma}");
    assert_eq!(m.phase, MeterPhase::Active);
}

#[test]
fn exact_reading_of_a_square_wave() {
    let mut m = CurrentMeter::new(0);
    feed(&mut m, &vec![1000; 5000]);
    assert_eq!(m.vref, 1000);
    // 100 samples 300 mV over, 100 samples 300 mV under, repeated
    let wave: Vec<i32> = (0..2000).map(|i| if (i / 100) % 2 == 0 { 1300 } else { 700 }).collect();
    feed(&mut m, &wave);
    // rms 300 mV * 600 / 15 ohm
    assert_eq!(m.reading(), 12000);
}

#[test]
fn too_short_a_wave_recalibrates() {
    let mut m = CurrentMeter::new(0);
    feed(&mut m, &vec![1000; 5000]);
    let fast: Vec<i32> = (0..2000).map(|i| if (i / 100) % 2 == 0 { 1300 } else { 700 }).collect();
    feed(&mut m, &fast);
    assert_eq!(m.reading(), 12000);
    // half-period of 50 samples: a period of 100 is too short
    let wave: Vec<i32> = (0..300).map(|i| if (i / 50) % 2 == 0 { 1300 } else { 700 }).collect();
    feed(&mut m, &wave);
    assert_eq!(m.phase, MeterPhase::Calibration);
    assert_eq!(m.reading(), 0);
}

#[test]
fn no_rising_edge_recalibrates() {
    let mut m = CurrentMeter::new(0);
    feed(&mut m, &vec![1000; 5000]);
    feed(&mut m, &vec![1500; 300]);
    assert_eq!(m.phase, MeterPhase::Calibration);
    assert_eq!(m.reading(), 0);
}

#[test]
fn silence_in_any_batches_reads_zero() {
    for size in [1usize, 7, 200, 999, 6000] {
        let mut m = CurrentMeter::new(1400);
        let samples = vec![1234; 6000];
        for batch in samples.chunks(size) {
            m.receive(batch);
        }
        assert_eq!(m.phase, MeterPhase::Idle);
        assert_eq!(m.vref, 1234);
        assert_eq!(m.reading(), 0);
    }
}
