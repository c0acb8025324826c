use vstd::prelude::*;

verus! {

/// The ADC inputs, in the order their samples are handed out.
#[derive(PartialEq, Eq, Structural, Debug, Clone, Copy)]
pub enum AdcChannel {
    CurrentL1,
    CurrentL2,
    CurrentL3,
    ControlPilot,
}

/// Largest raw reading of the 12-bit converter, plus one.
pub const RAW_LIMIT: u32 = 4096;

/// Millivolts for a raw reading, with the factory calibration's linear
/// coefficient (mV per raw unit, scaled by 65536).
pub open spec fn raw_to_mv_of(raw: int, coeff_a: int) -> int {
    raw * coeff_a / 65536
}

/// Whether every raw reading of a batch fits the converter's width.
pub open spec fn raw_in_range(measurements: Seq<(u32, u32)>) -> bool {
    forall|i: int| 0 <= i < measurements.len() ==> measurements[i].1 < RAW_LIMIT
}

/// The samples of one channel in a batch of (channel, raw) readings, in
/// millivolts, in the order they were taken.
pub open spec fn channel_samples_of(measurements: Seq<(u32, u32)>, channel: u32, coeff_a: u32) -> Seq<
    i32,
>
    decreases measurements.len(),
{
    if measurements.len() == 0 {
        seq![]
    } else {
        let rest = channel_samples_of(measurements.drop_last(), channel, coeff_a);
        let m = measurements.last();
        if m.0 == channel {
            rest.push(raw_to_mv_of(m.1 as int, coeff_a as int) as i32)
        } else {
            rest
        }
    }
}

/// Millivolts for a raw reading.
pub fn raw_to_mv(raw: u32, coeff_a: u32) -> (r: i32)
    requires
        raw < RAW_LIMIT,
    ensures
        r == raw_to_mv_of(raw as int, coeff_a as int),
{
    assert(raw as u64 * coeff_a as u64 <= 4095 * 0xffff_ffffu64) by (nonlinear_arith)
        requires
            raw < 4096,
    ;
    (raw as u64 * coeff_a as u64 / 65536) as i32
}

/// Picks the samples of `channel` out of a batch and converts them to mV.
pub fn channel_samples(measurements: &[(u32, u32)], channel: u32, coeff_a: u32) -> (r: Vec<i32>)
    requires
        raw_in_range(measurements@),
    ensures
        r@ == channel_samples_of(measurements@, channel, coeff_a),
{
    let mut out: Vec<i32> = Vec::new();
    let mut i: usize = 0;
    while i < measurements.len()
        invariant
            i <= measurements@.len(),
            raw_in_range(measurements@),
            out@ == channel_samples_of(measurements@.subrange(0, i as int), channel, coeff_a),
        decreases measurements@.len() - i,
    {
        assert(measurements@.subrange(0, i as int + 1).drop_last() =~= measurements@.subrange(
            0,
            i as int,
        ));
        let (ch, raw) = measurements[i];
        if ch == channel {
            out.push(raw_to_mv(raw, coeff_a));
        }
        i = i + 1;
    }
    assert(measurements@.subrange(0, measurements@.len() as int) =~= measurements@);
    out
}

/// Splits a batch into the samples of each channel of `channel_ids`, in
/// that order, each in mV and in the order taken.
pub fn demux(measurements: &[(u32, u32)], channel_ids: &[u32], coeff_a: u32) -> (r: Vec<Vec<i32>>)
    requires
        raw_in_range(measurements@),
    ensures
        r@.len() == channel_ids@.len(),
        forall|j: int|
            0 <= j < r@.len() ==> #[trigger] r@[j]@ == channel_samples_of(
                measurements@,
                channel_ids@[j],
                coeff_a,
            ),
{
    let mut out: Vec<Vec<i32>> = Vec::new();
    let mut j: usize = 0;
    while j < channel_ids.len()
        invariant
            j <= channel_ids@.len(),
            raw_in_range(measurements@),
            out@.len() == j,
            forall|k: int|
                0 <= k < j ==> #[trigger] out@[k]@ == channel_samples_of(
                    measurements@,
                    channel_ids@[k],
                    coeff_a,
                ),
        decreases channel_ids@.len() - j,
    {
        out.push(channel_samples(measurements, channel_ids[j], coeff_a));
        j = j + 1;
    }
    out
}

} // verus!
