use vstd::arithmetic::div_mod::{lemma_div_by_multiple, lemma_div_is_ordered};
use vstd::prelude::*;

verus! {

/// Turns ratio of the current transformers.
pub const CT_RATIO: u64 = 600;

/// Shunt resistor across each transformer's secondary, in milliohms.
pub const SHUNT_MILLIOHM: u64 = 15000;

/// Samples in one mains period (50 Hz at 10 kHz).
pub const WAVELENGTH: u32 = 200;

/// Accepted deviation of a period from `WAVELENGTH`, in samples.
pub const WAVELENGTH_TOLERANCE: u32 = 20;

/// Half-width of the band around the reference taken as silence, in mV.
pub const DEADZONE_MV: i32 = 70;

/// Samples averaged to find the reference voltage (25 periods).
pub const CALIBRATION_SAMPLES: u32 = 5000;

/// Phase of the meter's per-sample state machine.
#[derive(PartialEq, Eq, Structural, Debug, Clone, Copy)]
pub enum MeterPhase {
    /// Averaging samples to find the reference voltage.
    Calibration,
    /// Waiting for the signal to leave the silence band.
    Idle,
    /// Waiting for a rising edge to start a period.
    WaitingPosEdge,
    /// Summing squares over a period.
    Active,
}

/// Floor of the square root.
pub open spec fn is_isqrt(n: int, r: int) -> bool {
    0 <= r && r * r <= n < (r + 1) * (r + 1)
}

/// The integer square root of `n`.
pub open spec fn isqrt_of(n: int) -> int {
    choose|r: int| is_isqrt(n, r)
}

proof fn lemma_isqrt_unique(n: int, r: int, q: int)
    requires
        is_isqrt(n, r),
        is_isqrt(n, q),
    ensures
        r == q,
{
    if r < q {
        assert((r + 1) * (r + 1) <= q * q) by (nonlinear_arith)
            requires
                0 <= r,
                r + 1 <= q,
        ;
    } else if q < r {
        assert((q + 1) * (q + 1) <= r * r) by (nonlinear_arith)
            requires
                0 <= q,
                q + 1 <= r,
        ;
    }
}

/// Integer square root (floor).
pub fn isqrt(n: u64) -> (r: u64)
    ensures
        is_isqrt(n as int, r as int),
        r as int == isqrt_of(n as int),
        r < 0x1_0000_0000,
{
    let mut lo: u64 = 0;
    let mut hi: u64 = 0x1_0000_0000;
    assert(n < hi * hi) by (nonlinear_arith)
        requires
            hi == 0x1_0000_0000u64,
    ;
    while hi - lo > 1
        invariant
            lo < hi <= 0x1_0000_0000,
            lo * lo <= n,
            n < hi as int * hi as int,
        decreases hi - lo,
    {
        let mid: u64 = lo + (hi - lo) / 2;
        assert(mid * mid <= 0xffff_ffffu64 * 0xffff_ffffu64) by (nonlinear_arith)
            requires
                mid < 0x1_0000_0000u64,
        ;
        if mid * mid <= n {
            lo = mid;
        } else {
            hi = mid;
        }
    }
    assert(is_isqrt(n as int, lo as int));
    proof {
        lemma_isqrt_unique(n as int, lo as int, isqrt_of(n as int));
    }
    lo
}

/// RMS current in mA for a period's sum of squared deviations (mV²) over
/// `count` samples, with the phase's extra series resistance in milliohms;
/// capped at the width of the published cell.
pub open spec fn reading_of(square_sum: int, count: int, extra_milliohm: int) -> int {
    let rms_mv = isqrt_of(square_sum / count);
    let rms_ma = rms_mv * (CT_RATIO * 1000) as int / (SHUNT_MILLIOHM + extra_milliohm);
    if rms_ma > u32::MAX {
        u32::MAX as int
    } else {
        rms_ma
    }
}

/// Squared deviation of a sample from the reference, in mV².
pub open spec fn square_of(sample: i32, vref: i32) -> int {
    (sample - vref) * (sample - vref)
}

/// Estimates the RMS current of one phase from its current-transformer
/// voltage samples, and holds the latest estimate.
pub struct CurrentMeter {
    pub phase: MeterPhase,
    /// Extra series resistance of this phase's shunt, in milliohms.
    pub extra_milliohm: u32,
    /// Reference (zero-current) voltage, in mV.
    pub vref: i32,
    /// Whether the previous sample was above the silence band.
    pub prev_over: bool,
    /// Samples taken in the current phase.
    pub count: u32,
    /// Sum of the samples taken while calibrating.
    pub sample_sum: i64,
    /// Sum of the squared deviations over the current period.
    pub square_sum: u128,
    /// Latest published RMS current, in mA; zero when silent or unknown.
    pub reading: u32,
}

/// Bound on one squared deviation of two `i32` values.
pub open spec fn max_square() -> int {
    0x1_0000_0000int * 0x1_0000_0000int
}

impl CurrentMeter {
    /// Bounds on the counters and sums.
    pub open spec fn wf(&self) -> bool {
        &&& self.phase != MeterPhase::Calibration ==> self.count <= WAVELENGTH
            + WAVELENGTH_TOLERANCE
        &&& self.phase == MeterPhase::Calibration ==> self.count < CALIBRATION_SAMPLES
            && -0x8000_0000 * self.count <= self.sample_sum <= 0x8000_0000 * self.count
        &&& self.square_sum <= self.count * (max_square() - 1)
        &&& self.phase == MeterPhase::Active ==> self.count >= 1
        &&& self.phase != MeterPhase::Active ==> self.square_sum == 0
    }

    /// The meter after starting over: calibrating, with nothing published.
    pub open spec fn recalibrated(self) -> Self {
        CurrentMeter {
            phase: MeterPhase::Calibration,
            prev_over: false,
            count: 0,
            sample_sum: 0,
            square_sum: 0,
            reading: 0,
            ..self
        }
    }

    /// The meter after one sample.
    pub open spec fn after_sample(self, s: i32) -> Self {
        let over = s > self.vref + DEADZONE_MV;
        let under = s < self.vref - DEADZONE_MV;
        let rising = !self.prev_over && over;
        let max_wave = (WAVELENGTH + WAVELENGTH_TOLERANCE) as int;
        match self.phase {
            MeterPhase::Calibration => {
                let sum = self.sample_sum + s;
                if self.count + 1 >= CALIBRATION_SAMPLES {
                    CurrentMeter {
                        phase: MeterPhase::Idle,
                        vref: (sum / CALIBRATION_SAMPLES as int) as i32,
                        count: 0,
                        sample_sum: 0,
                        ..self
                    }
                } else {
                    CurrentMeter { count: (self.count + 1) as u32, sample_sum: sum as i64, ..self }
                }
            },
            MeterPhase::Idle => {
                if over || under {
                    CurrentMeter {
                        phase: MeterPhase::WaitingPosEdge,
                        prev_over: over,
                        count: 0,
                        ..self
                    }
                } else {
                    self
                }
            },
            MeterPhase::WaitingPosEdge => {
                if rising {
                    CurrentMeter {
                        phase: MeterPhase::Active,
                        prev_over: true,
                        count: 1,
                        square_sum: square_of(s, self.vref) as u128,
                        ..self
                    }
                } else if self.count + 1 > max_wave {
                    self.recalibrated()
                } else {
                    CurrentMeter { prev_over: over, count: (self.count + 1) as u32, ..self }
                }
            },
            MeterPhase::Active => {
                if rising {
                    if self.count >= WAVELENGTH - WAVELENGTH_TOLERANCE {
                        CurrentMeter {
                            prev_over: true,
                            count: 1,
                            square_sum: square_of(s, self.vref) as u128,
                            reading: reading_of(
                                self.square_sum as int,
                                self.count as int,
                                self.extra_milliohm as int,
                            ) as u32,
                            ..self
                        }
                    } else {
                        self.recalibrated()
                    }
                } else if self.count + 1 > max_wave {
                    self.recalibrated()
                } else {
                    CurrentMeter {
                        prev_over: over,
                        count: (self.count + 1) as u32,
                        square_sum: (self.square_sum + square_of(s, self.vref)) as u128,
                        ..self
                    }
                }
            },
        }
    }

    /// The meter after a sequence of samples, in order.
    pub open spec fn after_samples(self, data: Seq<i32>) -> Self
        decreases data.len(),
    {
        if data.len() == 0 {
            self
        } else {
            self.after_samples(data.drop_last()).after_sample(data.last())
        }
    }
}

proof fn lemma_square_bound(s: i32, vref: i32)
    ensures
        0 <= square_of(s, vref) < max_square(),
{
    let d = s - vref;
    assert(-0x1_0000_0000 < d < 0x1_0000_0000);
    assert(0 <= d * d < 0x1_0000_0000 * 0x1_0000_0000) by (nonlinear_arith)
        requires
            -0x1_0000_0000 < d < 0x1_0000_0000,
    ;
}

proof fn lemma_sample_wf(m: CurrentMeter, s: i32)
    requires
        m.wf(),
    ensures
        m.after_sample(s).wf(),
{
    let k = max_square() - 1;
    lemma_square_bound(s, m.vref);
    assert(m.count * k + k == (m.count + 1) * k) by (nonlinear_arith);
    assert(0 <= m.count * k) by (nonlinear_arith)
        requires
            k >= 0,
            m.count >= 0,
    ;
    assert(1 * k == k);
    let n = m.after_sample(s);
    assert(n.phase != MeterPhase::Calibration ==> n.count <= WAVELENGTH + WAVELENGTH_TOLERANCE);
    assert(n.phase == MeterPhase::Calibration ==> n.count < CALIBRATION_SAMPLES);
    assert(n.phase == MeterPhase::Calibration ==> -0x8000_0000 * n.count <= n.sample_sum <= 0x8000_0000 * n.count);
    assert(n.phase == MeterPhase::Active ==> n.count >= 1);
    assert(n.phase != MeterPhase::Active ==> n.square_sum == 0);
    assert(n.square_sum <= n.count * k);
}

/// Feeding samples in two batches is the same as feeding them at once.
pub proof fn lemma_samples_in_batches(m: CurrentMeter, a: Seq<i32>, b: Seq<i32>)
    ensures
        m.after_samples(a + b) == m.after_samples(a).after_samples(b),
    decreases b.len(),
{
    if b.len() == 0 {
        assert(a + b =~= a);
    } else {
        assert((a + b).drop_last() =~= a + b.drop_last());
        assert((a + b).last() == b.last());
        lemma_samples_in_batches(m, a, b.drop_last());
    }
}

/// A fresh meter: calibrating, nothing published.
pub open spec fn initial_meter(extra_milliohm: u32) -> CurrentMeter {
    CurrentMeter {
        phase: MeterPhase::Calibration,
        extra_milliohm,
        vref: 0,
        prev_over: false,
        count: 0,
        sample_sum: 0,
        square_sum: 0,
        reading: 0,
    }
}

/// `n` samples of the same value.
pub open spec fn steady(v: i32, n: nat) -> Seq<i32> {
    Seq::new(n, |i: int| v)
}

proof fn lemma_steady_prefix(extra_milliohm: u32, v: i32, n: nat)
    ensures
        n < CALIBRATION_SAMPLES ==> initial_meter(extra_milliohm).after_samples(steady(v, n))
            == (CurrentMeter {
            count: n as u32,
            sample_sum: (n * v) as i64,
            ..initial_meter(extra_milliohm)
        }),
        n >= CALIBRATION_SAMPLES ==> initial_meter(extra_milliohm).after_samples(steady(v, n))
            == (CurrentMeter { phase: MeterPhase::Idle, vref: v, ..initial_meter(extra_milliohm) }),
    decreases n,
{
    if n > 0 {
        assert(steady(v, n).drop_last() =~= steady(v, (n - 1) as nat));
        lemma_steady_prefix(extra_milliohm, v, (n - 1) as nat);
        assert((n - 1) * v + v == n * v) by (nonlinear_arith);
        assert(-0x8000_0000 * n <= n * v <= 0x8000_0000 * n) by (nonlinear_arith)
            requires
                -0x8000_0000 <= v < 0x8000_0000,
                n >= 0,
        ;
        assert(-0x8000_0000 * (n - 1) <= (n - 1) * v <= 0x8000_0000 * (n - 1)) by (nonlinear_arith)
            requires
                -0x8000_0000 <= v < 0x8000_0000,
                n >= 1,
        ;
        if n == CALIBRATION_SAMPLES {
            assert((5000 * v) / 5000 == v) by (nonlinear_arith);
        }
    } else {
        assert(n * v == 0) by (nonlinear_arith)
            requires
                n == 0,
        ;
    }
}

/// A fresh meter fed a steady voltage for at least a calibration's worth of
/// samples takes that voltage as its reference, rests idle, and reads 0 mA.
pub proof fn lemma_silence_reads_zero(extra_milliohm: u32, v: i32, n: nat)
    requires
        n >= CALIBRATION_SAMPLES,
    ensures
        ({
            let m = initial_meter(extra_milliohm).after_samples(steady(v, n));
            &&& m.phase == MeterPhase::Idle
            &&& m.vref == v
            &&& m.reading == 0
        }),
{
    lemma_steady_prefix(extra_milliohm, v, n);
}

impl CurrentMeter {
    /// A meter that starts by calibrating; `extra_milliohm` is the phase's
    /// series resistance on top of the shunt.
    pub fn new(extra_milliohm: u32) -> (r: Self)
        ensures
            r.wf(),
            r == initial_meter(extra_milliohm),
    {
        CurrentMeter {
            phase: MeterPhase::Calibration,
            extra_milliohm,
            vref: 0,
            prev_over: false,
            count: 0,
            sample_sum: 0,
            square_sum: 0,
            reading: 0,
        }
    }

    /// Latest published RMS current, in mA.
    pub fn reading(&self) -> (r: u32)
        ensures
            r == self.reading,
    {
        self.reading
    }

    fn recalibrate(&mut self)
        ensures
            *final(self) == old(self).recalibrated(),
    {
        self.phase = MeterPhase::Calibration;
        self.prev_over = false;
        self.count = 0;
        self.sample_sum = 0;
        self.square_sum = 0;
        self.reading = 0;
    }

    fn rms_reading(&self) -> (r: u32)
        requires
            self.wf(),
            self.count >= 1,
        ensures
            r == reading_of(self.square_sum as int, self.count as int, self.extra_milliohm as int),
    {
        let mean: u128 = self.square_sum / self.count as u128;
        proof {
            let k = max_square() - 1;
            lemma_div_is_ordered(self.square_sum as int, self.count * k, self.count as int);
            lemma_div_by_multiple(k, self.count as int);
            assert(self.count * k == k * self.count) by (nonlinear_arith);
        }
        let rms_mv: u64 = isqrt(mean as u64);
        assert(rms_mv * (CT_RATIO * 1000) < 0x1_0000_0000 * 600000) by (nonlinear_arith)
            requires
                rms_mv < 0x1_0000_0000u64,
        ;
        let rms_ma: u64 = rms_mv * (CT_RATIO * 1000) / (SHUNT_MILLIOHM + self.extra_milliohm as u64);
        if rms_ma > u32::MAX as u64 {
            u32::MAX
        } else {
            rms_ma as u32
        }
    }

    fn take_sample(&mut self, s: i32)
        requires
            old(self).wf(),
        ensures
            *final(self) == old(self).after_sample(s),
            final(self).wf(),
    {
        proof {
            lemma_sample_wf(*self, s);
            lemma_square_bound(s, self.vref);
        }
        let over = s as i64 > self.vref as i64 + DEADZONE_MV as i64;
        let under = (s as i64) < self.vref as i64 - DEADZONE_MV as i64;
        let rising = !self.prev_over && over;
        let d: i64 = s as i64 - self.vref as i64;
        let a: u128 = if d < 0 { (-d) as u128 } else { d as u128 };
        assert(a * a == square_of(s, self.vref)) by (nonlinear_arith)
            requires
                a == if d < 0 { -(d as int) } else { d as int },
                d == s - self.vref,
        ;
        let square: u128 = a * a;
        match self.phase {
            MeterPhase::Calibration => {
                let sum: i64 = self.sample_sum + s as i64;
                if self.count + 1 >= CALIBRATION_SAMPLES {
                    let vref: i64 = if sum >= 0 {
                        sum / CALIBRATION_SAMPLES as i64
                    } else {
                        -((-sum + (CALIBRATION_SAMPLES as i64 - 1)) / CALIBRATION_SAMPLES as i64)
                    };
                    self.phase = MeterPhase::Idle;
                    self.vref = vref as i32;
                    self.count = 0;
                    self.sample_sum = 0;
                } else {
                    self.count = self.count + 1;
                    self.sample_sum = sum;
                }
            },
            MeterPhase::Idle => {
                if over || under {
                    self.phase = MeterPhase::WaitingPosEdge;
                    self.prev_over = over;
                    self.count = 0;
                }
            },
            MeterPhase::WaitingPosEdge => {
                if rising {
                    self.phase = MeterPhase::Active;
                    self.prev_over = true;
                    self.count = 1;
                    self.square_sum = square;
                } else if self.count + 1 > WAVELENGTH + WAVELENGTH_TOLERANCE {
                    self.recalibrate();
                } else {
                    self.prev_over = over;
                    self.count = self.count + 1;
                }
            },
            MeterPhase::Active => {
                if rising {
                    if self.count >= WAVELENGTH - WAVELENGTH_TOLERANCE {
                        self.reading = self.rms_reading();
                        self.prev_over = true;
                        self.count = 1;
                        self.square_sum = square;
                    } else {
                        self.recalibrate();
                    }
                } else if self.count + 1 > WAVELENGTH + WAVELENGTH_TOLERANCE {
                    self.recalibrate();
                } else {
                    assert(self.count * (max_square() - 1) <= 220 * (max_square() - 1)) by (
                    nonlinear_arith)
                        requires
                            self.count <= 220,
                    ;
                    self.prev_over = over;
                    self.count = self.count + 1;
                    self.square_sum = self.square_sum + square;
                }
            },
        }
    }

    /// Takes in a batch of samples (mV), in order, publishing a reading at
    /// the end of each full period.
    pub fn receive(&mut self, data: &[i32])
        requires
            old(self).wf(),
        ensures
            *final(self) == old(self).after_samples(data@),
            final(self).wf(),
    {
        let mut i: usize = 0;
        while i < data.len()
            invariant
                i <= data@.len(),
                self.wf(),
                *self == old(self).after_samples(data@.subrange(0, i as int)),
            decreases data@.len() - i,
        {
            assert(data@.subrange(0, i as int + 1).drop_last() =~= data@.subrange(0, i as int));
            self.take_sample(data[i]);
            i = i + 1;
        }
        assert(data@.subrange(0, data@.len() as int) =~= data@);
    }
}

} // verus!
