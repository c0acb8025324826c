use phievse::adc::{channel_samples, raw_to_mv};

#[test]
fn raw_readings_to_millivolts() {
    assert_eq!(raw_to_mv(0, 52000), 0);
    assert_eq!(raw_to_mv(4095, 65536), 4095);
    assert_eq!(raw_to_mv(2048, 52000), 1625);
}

#[test]
fn picks_one_channel_in_order() {
    let batch = [(3, 100), (0, 200), (3, 300), (1, 4000), (3, 50)];
    assert_eq!(channel_samples(&batch, 3, 65536), vec![100, 300, 50]);
    assert_eq!(channel_samples(&batch, 1, 32768), vec![2000]);
    assert_eq!(channel_samples(&batch, 2, 65536), Vec::<i32>::new());
    assert_eq!(channel_samples(&[], 0, 65536), Vec::<i32>::new());
}

#[test]
fn demux_keeps_channel_order() {
    let batch = [(3, 100), (0, 200), (3, 300), (1, 4000), (3, 50)];
    let out = phievse::adc::demux(&batch, &[0, 1, 2, 3], 65536);
    assert_eq!(out, vec![vec![200], vec![4000], vec![], vec![100, 300, 50]]);
}
