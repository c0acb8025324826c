use vstd::arithmetic::div_mod::lemma_div_is_ordered;
use vstd::prelude::*;

verus! {

/// Highest duty value of the 14-bit Control Pilot carrier (100 % duty).
pub const MAX_DUTY: u32 = 16383;

/// Lowest charge current that the Control Pilot can advertise, in mA.
pub const MIN_CHARGE_MA: u32 = 6000;

/// Highest charge current that the Control Pilot can advertise, in mA.
pub const MAX_CHARGE_MA: u32 = 32000;

/// What the Control Pilot line is asked to signal to the vehicle.
#[derive(PartialEq, Eq, Structural, Debug, Clone, Copy)]
pub enum ControlPilotSignal {
    /// Idle high: no charge current on offer.
    Standby,
    /// A charge current on offer, in mA.
    Charge(u32),
    /// Line held low.
    Error,
}

/// The vehicle's state as read from the Control Pilot voltage.
#[derive(PartialEq, Eq, Structural, Debug, Clone, Copy)]
pub enum ControlPilotMode {
    NotConnected,
    Connected,
    Ready,
    Error,
}

/// Duty advertised for a charge current: a piecewise fit of the vehicle's
/// current-interpretation curve, zero outside [6000, 32000] mA.
pub open spec fn duty_of(ma: int) -> int {
    if 6000 <= ma <= 10999 {
        17 * ma / 1000 + 110
    } else if 11000 <= ma <= 13499 {
        5051 + (ma * ma / 100) * 368 / 100000 - 837 * ma / 1000
    } else if 13500 <= ma <= 32000 {
        235 * ma / 1000 - 2713
    } else {
        0
    }
}

/// Duty that puts a signal on the line.
pub open spec fn signal_duty_of(signal: ControlPilotSignal) -> int {
    match signal {
        ControlPilotSignal::Standby => MAX_DUTY as int,
        ControlPilotSignal::Charge(ma) => duty_of(ma as int),
        ControlPilotSignal::Error => 0,
    }
}

/// Mode for a peak Control Pilot voltage, in mV.
pub open spec fn mode_of(mv: int) -> ControlPilotMode {
    if mv <= 50 {
        ControlPilotMode::NotConnected
    } else if mv <= 650 {
        ControlPilotMode::Connected
    } else {
        ControlPilotMode::Ready
    }
}

/// Largest value of a non-empty sequence.
pub open spec fn seq_max(s: Seq<i32>) -> int
    recommends
        s.len() > 0,
    decreases s.len(),
{
    if s.len() <= 1 {
        s[0] as int
    } else {
        let m = seq_max(s.drop_last());
        if s.last() as int > m {
            s.last() as int
        } else {
            m
        }
    }
}

proof fn lemma_seq_max_bounds(s: Seq<i32>)
    requires
        s.len() > 0,
    ensures
        forall|i: int| 0 <= i < s.len() ==> s[i] <= seq_max(s),
        exists|i: int| 0 <= i < s.len() && s[i] == seq_max(s),
    decreases s.len(),
{
    if s.len() > 1 {
        let t = s.drop_last();
        lemma_seq_max_bounds(t);
        assert(forall|i: int| 0 <= i < t.len() ==> s[i] == t[i]);
        if s.last() as int <= seq_max(t) {
            let j = choose|j: int| 0 <= j < t.len() && t[j] == seq_max(t);
            assert(s[j] == seq_max(s));
        } else {
            assert(s[s.len() - 1] == seq_max(s));
        }
    } else {
        assert(s[0] == seq_max(s));
    }
}

proof fn lemma_middle_piece_positive(a: int)
    requires
        11000 <= a <= 13499,
    ensures
        837 * a / 1000 <= 5051 + (a * a / 100) * 368 / 100000,
{
    let t = a * a;
    let u = t / 100;
    let v = u * 368 / 100000;
    let w = 837 * a / 1000;
    assert(t < 100 * u + 100);
    assert(368 * u < 100000 * v + 100000);
    assert(1000 * w <= 837 * a);
    assert(368 * (a - 11372) * (a - 11372) >= 0) by (nonlinear_arith);
    assert(1000 * w <= 1000 * (5051 + v)) by (nonlinear_arith)
        requires
            t == a * a,
            t < 100 * u + 100,
            368 * u < 100000 * v + 100000,
            1000 * w <= 837 * a,
            368 * (a - 11372) * (a - 11372) >= 0,
    ;
}

/// PWM duty for a charge current in mA.
pub fn current_to_duty(ma: u32) -> (r: u32)
    ensures
        r == duty_of(ma as int),
{
    if ma < 6000 {
        0
    } else if ma <= 10999 {
        17 * ma / 1000 + 110
    } else if ma <= 13499 {
        assert(ma * ma <= 13499 * 13499) by (nonlinear_arith)
            requires
                ma <= 13499,
        ;
        proof {
            lemma_middle_piece_positive(ma as int);
        }
        5051 + ma * ma / 100 * 368 / 100000 - 837 * ma / 1000
    } else if ma <= 32000 {
        235 * ma / 1000 - 2713
    } else {
        0
    }
}

/// Outside [6000, 32000] mA the duty is 0. Within it the duty does not
/// decrease as the current grows, on the two linear pieces of the fit
/// ([6000, 10999] and [13500, 32000] mA) and from one to the other. The
/// quadratic piece between them is left out: its integer rounding makes it
/// dip (11004 mA gives 297, 11005 mA gives 296).
pub proof fn lemma_duty_monotone_outside_middle(a: int, b: int)
    ensures
        (a < 6000 || a > 32000) ==> duty_of(a) == 0,
        (6000 <= a <= b <= 32000 && !(11000 <= a <= 13499) && !(11000 <= b <= 13499)) ==> duty_of(
            a,
        ) <= duty_of(b),
{
    if 6000 <= a <= b <= 32000 && !(11000 <= a <= 13499) && !(11000 <= b <= 13499) {
        if b <= 10999 {
            lemma_div_is_ordered(17 * a, 17 * b, 1000);
        } else if a >= 13500 {
            lemma_div_is_ordered(235 * a, 235 * b, 1000);
        } else {
            lemma_div_is_ordered(17 * a, 17 * 10999int, 1000);
            lemma_div_is_ordered(235 * 13500int, 235 * b, 1000);
        }
    }
}

/// PWM duty that puts `signal` on the Control Pilot line.
pub fn signal_duty(signal: ControlPilotSignal) -> (r: u32)
    ensures
        r == signal_duty_of(signal),
{
    match signal {
        ControlPilotSignal::Standby => MAX_DUTY,
        ControlPilotSignal::Charge(ma) => current_to_duty(ma),
        ControlPilotSignal::Error => 0,
    }
}

/// Mode of the line for a peak voltage in mV.
pub fn classify(mv: i32) -> (r: ControlPilotMode)
    ensures
        r == mode_of(mv as int),
{
    if mv <= 50 {
        ControlPilotMode::NotConnected
    } else if mv <= 650 {
        ControlPilotMode::Connected
    } else {
        ControlPilotMode::Ready
    }
}

/// Largest sample of a batch, if the batch holds any.
pub fn peak(data: &[i32]) -> (r: Option<i32>)
    ensures
        data@.len() == 0 ==> r is None,
        data@.len() > 0 ==> r is Some && r->0 == seq_max(data@),
        data@.len() > 0 ==> forall|i: int| 0 <= i < data@.len() ==> data@[i] <= r->0,
        data@.len() > 0 ==> exists|i: int| 0 <= i < data@.len() && data@[i] == r->0,
{
    if data.len() == 0 {
        return None;
    }
    let mut m: i32 = data[0];
    let mut i: usize = 1;
    while i < data.len()
        invariant
            1 <= i <= data@.len(),
            m as int == seq_max(data@.subrange(0, i as int)),
        decreases data@.len() - i,
    {
        assert(data@.subrange(0, i as int + 1).drop_last() =~= data@.subrange(0, i as int));
        if data[i] > m {
            m = data[i];
        }
        i = i + 1;
    }
    assert(data@.subrange(0, data@.len() as int) =~= data@);
    proof {
        lemma_seq_max_bounds(data@);
    }
    Some(m)
}

/// Latest view of the Control Pilot line: the peak voltage of the last
/// batch of samples, and whether the negative rail was seen low.
pub struct ControlPilotReader {
    pub cp_mv: i32,
    pub negative: bool,
}

impl ControlPilotReader {
    pub fn new() -> (r: Self)
        ensures
            r.cp_mv == 0,
            !r.negative,
    {
        ControlPilotReader { cp_mv: 0, negative: false }
    }

    /// Takes in a batch of Control Pilot samples (mV): the line's voltage
    /// becomes the batch's peak; an empty batch changes nothing.
    pub fn receive(&mut self, data: &[i32])
        ensures
            data@.len() == 0 ==> *final(self) == *old(self),
            data@.len() > 0 ==> final(self).cp_mv == seq_max(data@),
            final(self).negative == old(self).negative,
    {
        if let Some(m) = peak(data) {
            self.cp_mv = m;
        }
    }

    /// Records that the negative rail was seen low; the flag stays set.
    pub fn set_negative(&mut self)
        ensures
            final(self).cp_mv == old(self).cp_mv,
            final(self).negative,
    {
        self.negative = true;
    }

    /// Mode of the line, from the latest peak voltage.
    pub fn state(&self) -> (r: ControlPilotMode)
        ensures
            r == mode_of(self.cp_mv as int),
    {
        classify(self.cp_mv)
    }
}

} // verus!
