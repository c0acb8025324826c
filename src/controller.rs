use vstd::prelude::*;

use crate::control_pilot::{ControlPilotMode, ControlPilotSignal};

verus! {

/// Nominal grid voltage, in volts.
pub const GRID_VOLTAGE: u32 = 230;

/// Highest power that can be asked for, in watts.
pub const MAX_POWER_W: u32 = 11000;

/// Lowest power, other than zero, that can be asked for, in watts.
pub const MIN_POWER_W: u32 = 1500;

/// Ticks given to the vehicle to stop drawing current before the relays open.
pub const STOP_TIMEOUT_TICKS: u32 = 50;

/// Commands that the controller takes from outside.
#[derive(PartialEq, Eq, Structural, Debug, Clone, Copy)]
pub enum ControlMessage {
    /// Sets the highest power that may be drawn, in watts.
    SetMaxPower(u32),
    /// Stops charging and parks the controller.
    Shutdown,
}

/// State of the charging controller.
#[derive(PartialEq, Eq, Structural, Debug, Clone, Copy)]
pub enum PhiEvseState {
    NotConnected,
    Connected,
    Ready,
    Charging,
    Error,
    Stopping,
    ShuttingDown,
    Shutdown,
}

impl Default for PhiEvseState {
    fn default() -> (r: Self)
        ensures
            r == PhiEvseState::NotConnected,
    {
        PhiEvseState::NotConnected
    }
}

/// What the controller publishes for outside readers.
#[derive(PartialEq, Eq, Structural, Debug, Clone, Copy)]
pub struct PhiEvseStatus {
    /// Power drawn while charging, in watts.
    pub power: u32,
    pub state: PhiEvseState,
    /// Highest power allowed, in watts.
    pub max_power: u32,
}

impl Default for PhiEvseStatus {
    fn default() -> (r: Self)
        ensures
            r == (PhiEvseStatus { power: 0, state: PhiEvseState::NotConnected, max_power: 0 }),
    {
        PhiEvseStatus { power: 0, state: PhiEvseState::NotConnected, max_power: 0 }
    }
}

/// The two contactors.
#[derive(PartialEq, Eq, Structural, Debug, Clone, Copy)]
pub enum Relay {
    /// Main contactor.
    Main,
    /// Contactor that switches phases 2 and 3 in (three-phase charging).
    ThreePhase,
}

/// Something the controller asks its peripherals to do, in order.
#[derive(PartialEq, Eq, Structural, Debug, Clone, Copy)]
pub enum Action {
    /// Kick the task watchdog.
    KickWatchdog,
    /// Put a signal on the Control Pilot line.
    SetControlPilot(ControlPilotSignal),
    /// Switch a relay.
    SetRelay(Relay, bool),
    /// Switch a relay and wait for it to settle mechanically.
    SetRelayAndWait(Relay, bool),
    /// Wait, in milliseconds.
    Sleep(u32),
    /// Stop the task watchdog.
    StopWatchdog,
}

/// What the controller observes at the start of a tick.
#[derive(Debug, Clone, Copy)]
pub struct TickInput {
    /// The next command in the queue, if any.
    pub command: Option<ControlMessage>,
    /// Mode read from the Control Pilot line.
    pub cp_mode: ControlPilotMode,
    /// Level of the Control Pilot negative-rail pin (low means fault).
    pub pilot_negative_high: bool,
    /// Latest RMS current of each phase, in mA.
    pub phase_currents: [u32; 3],
}

/// Power allowed for a requested power: zero below 1500 W, at most 11000 W.
pub open spec fn clamp_power(watts: int) -> int {
    if watts < MIN_POWER_W {
        0
    } else if watts <= MAX_POWER_W {
        watts
    } else {
        MAX_POWER_W as int
    }
}

/// Current per phase (mA) and whether to use three phases, for a power in watts.
pub open spec fn power_split(watts: int) -> (int, bool) {
    let total = watts * 1000 / GRID_VOLTAGE as int;
    if total <= 6499 {
        (0, false)
    } else if total <= 19999 {
        (if total < 16000 { total } else { 16000 }, false)
    } else {
        (total / 3, true)
    }
}

/// Current adjustment kept within ±1000 mA.
pub open spec fn clamp_adjustment(a: int) -> int {
    if a > 1000 {
        1000
    } else if a < -1000 {
        -1000
    } else {
        a
    }
}

/// Charge signal for the allowed current corrected by the adjustment.
pub open spec fn charge_signal_of(max_current: int, adjustment: int) -> ControlPilotSignal {
    let ma = max_current + adjustment;
    ControlPilotSignal::Charge(if ma < 0 { 0 } else { ma as u32 })
}

/// Sum of the phase currents, in mA.
pub open spec fn total_current(c: [u32; 3]) -> int {
    c@[0] + c@[1] + c@[2]
}

/// Power drawn for a total current in mA, in watts.
pub open spec fn power_of(total_ma: int) -> int {
    total_ma * GRID_VOLTAGE as int / 1000
}

/// Actions on entering `Error`: Control Pilot `Error`, main contactor opened
/// with the settle wait, three-phase contactor opened.
pub open spec fn error_entry_actions() -> Seq<Action> {
    seq![
        Action::SetControlPilot(ControlPilotSignal::Error),
        Action::SetRelayAndWait(Relay::Main, false),
        Action::SetRelay(Relay::ThreePhase, false),
    ]
}

/// Controller state that follows the vehicle's Control Pilot mode.
pub open spec fn state_of_mode(m: ControlPilotMode) -> PhiEvseState {
    match m {
        ControlPilotMode::NotConnected => PhiEvseState::NotConnected,
        ControlPilotMode::Connected => PhiEvseState::Connected,
        ControlPilotMode::Ready => PhiEvseState::Ready,
        ControlPilotMode::Error => PhiEvseState::Error,
    }
}

/// Power allowed for a requested power, in watts.
pub fn clamp_max_power(watts: u32) -> (r: u32)
    ensures
        r == clamp_power(watts as int),
{
    if watts < MIN_POWER_W {
        0
    } else if watts <= MAX_POWER_W {
        watts
    } else {
        MAX_POWER_W
    }
}

/// Current per phase (mA) and three-phase choice for a requested power in
/// watts, once clamped to what can be allowed.
pub fn calculate_power(watts: u32) -> (r: (u32, bool))
    ensures
        (r.0 as int, r.1) == power_split(clamp_power(watts as int)),
{
    let allowed = clamp_max_power(watts);
    let total_mamps = allowed * 1000 / GRID_VOLTAGE;
    if total_mamps <= 6499 {
        (0, false)
    } else if total_mamps <= 19999 {
        (if total_mamps < 16000 { total_mamps } else { 16000 }, false)
    } else {
        (total_mamps / 3, true)
    }
}

fn charge_signal(max_current: u32, adjustment: i32) -> (r: ControlPilotSignal)
    requires
        max_current <= 16000,
        -1000 <= adjustment <= 1000,
    ensures
        r == charge_signal_of(max_current as int, adjustment as int),
{
    let ma: i64 = max_current as i64 + adjustment as i64;
    if ma < 0 {
        ControlPilotSignal::Charge(0)
    } else {
        ControlPilotSignal::Charge(ma as u32)
    }
}

fn state_for_mode(m: ControlPilotMode) -> (r: PhiEvseState)
    ensures
        r == state_of_mode(m),
{
    match m {
        ControlPilotMode::NotConnected => PhiEvseState::NotConnected,
        ControlPilotMode::Connected => PhiEvseState::Connected,
        ControlPilotMode::Ready => PhiEvseState::Ready,
        ControlPilotMode::Error => PhiEvseState::Error,
    }
}

/// The charging controller: the Control Pilot state machine run at 10 Hz,
/// which decides on each tick what the peripherals are to do.
pub struct PhiEvseController {
    pub state: PhiEvseState,
    /// Highest power allowed, in watts.
    pub max_power: u32,
    /// Highest current per phase allowed, in mA.
    pub max_current: u32,
    pub three_phase: bool,
    /// Correction added to the advertised current, in mA.
    pub current_adjustment: i32,
    /// Ticks to wait before the charge current is adjusted again.
    pub next_adjust: u32,
    /// Ticks left before the relays open while stopping.
    pub stop_timeout: u32,
    /// Commanded level of the main contactor.
    pub relay_main: bool,
    /// Commanded level of the three-phase contactor.
    pub relay_3_phase: bool,
    pub status: PhiEvseStatus,
}

impl PhiEvseController {
    /// Bounds on the settings and counters.
    pub open spec fn settings_wf(&self) -> bool {
        &&& self.max_power as int == clamp_power(self.max_power as int)
        &&& (self.max_current as int, self.three_phase) == power_split(self.max_power as int)
        &&& -1000 <= self.current_adjustment <= 1000
        &&& self.next_adjust <= 100
        &&& self.stop_timeout <= STOP_TIMEOUT_TICKS
    }

    /// The controller's invariant.
    pub open spec fn wf(&self) -> bool {
        &&& self.settings_wf()
        &&& self.state == PhiEvseState::Error ==> !self.relay_main && !self.relay_3_phase
        &&& self.status.state == self.state
        &&& self.status.max_power == self.max_power
    }

    /// The controller after taking a command, and whether the allowed power was set.
    pub open spec fn after_command(self, command: Option<ControlMessage>) -> (Self, bool) {
        match command {
            Some(ControlMessage::SetMaxPower(watts)) => {
                let p = clamp_power(watts as int);
                let split = power_split(p);
                (
                    PhiEvseController {
                        max_power: p as u32,
                        max_current: split.0 as u32,
                        three_phase: split.1,
                        status: PhiEvseStatus { max_power: p as u32, ..self.status },
                        ..self
                    },
                    true,
                )
            },
            Some(ControlMessage::Shutdown) => {
                if self.state == PhiEvseState::Charging {
                    (
                        PhiEvseController {
                            state: PhiEvseState::ShuttingDown,
                            stop_timeout: STOP_TIMEOUT_TICKS,
                            ..self
                        },
                        false,
                    )
                } else {
                    (PhiEvseController { state: PhiEvseState::Shutdown, ..self }, false)
                }
            },
            None => (self, false),
        }
    }

    /// The safety check: a low negative rail forces `Error`. Entered from
    /// another state, its entry actions run at once, so that the relays open
    /// even if the state body then clears `Error` in the same tick.
    pub open spec fn after_safety(self, pilot_negative_high: bool) -> (Self, Seq<Action>) {
        if !pilot_negative_high && self.state != PhiEvseState::Error {
            (
                PhiEvseController {
                    state: PhiEvseState::Error,
                    relay_main: false,
                    relay_3_phase: false,
                    ..self
                },
                error_entry_actions(),
            )
        } else {
            (self, seq![])
        }
    }

    /// Closed-loop control while charging, once the settling wait is over.
    pub open spec fn after_control(self, total_ma: int, cp_mode: ControlPilotMode) -> (
        Self,
        Seq<Action>,
    ) {
        if self.next_adjust > 0 {
            (PhiEvseController { next_adjust: (self.next_adjust - 1) as u32, ..self }, seq![])
        } else if cp_mode != ControlPilotMode::Ready {
            (
                PhiEvseController {
                    state: PhiEvseState::Stopping,
                    stop_timeout: STOP_TIMEOUT_TICKS,
                    ..self
                },
                seq![],
            )
        } else {
            let per_phase = total_ma / if self.three_phase { 3 } else { 1 };
            let diff = self.max_current - per_phase;
            if per_phase < 1000 {
                (PhiEvseController { next_adjust: 1, ..self }, seq![])
            } else if per_phase > self.max_current + 4000 {
                (PhiEvseController { state: PhiEvseState::Error, ..self }, seq![])
            } else if per_phase < 6500 || diff > 500 || diff < -500 {
                let step = if per_phase < 6500 {
                    500
                } else if diff > 0 {
                    300
                } else {
                    -300
                };
                let adj = clamp_adjustment(self.current_adjustment + step);
                (
                    PhiEvseController { current_adjustment: adj as i32, next_adjust: 30, ..self },
                    seq![
                        Action::SetControlPilot(
                            charge_signal_of(self.max_current as int, adj),
                        ),
                    ],
                )
            } else {
                (self, seq![])
            }
        }
    }

    /// The tick's work in the `Charging` state.
    pub open spec fn after_charging(self, changing_power: bool, input: TickInput) -> (
        Self,
        Seq<Action>,
    ) {
        let signal = Action::SetControlPilot(
            charge_signal_of(self.max_current as int, self.current_adjustment as int),
        );
        let c1 = if !changing_power {
            self
        } else if self.three_phase != self.relay_3_phase {
            PhiEvseController { next_adjust: 100, relay_3_phase: self.three_phase, ..self }
        } else {
            PhiEvseController { next_adjust: 50, ..self }
        };
        let a1 = if !changing_power {
            seq![]
        } else if self.three_phase != self.relay_3_phase {
            seq![signal, Action::SetRelay(Relay::ThreePhase, self.three_phase)]
        } else {
            seq![signal]
        };
        let total = total_current(input.phase_currents);
        let c2 = PhiEvseController {
            status: PhiEvseStatus { power: power_of(total) as u32, ..c1.status },
            ..c1
        };
        let (c3, a3) = c2.after_control(total, input.cp_mode);
        (c3, a1 + a3)
    }

    /// The tick's work in the current state.
    pub open spec fn after_body(self, changing_power: bool, input: TickInput) -> (Self, Seq<Action>) {
        let cp = input.cp_mode;
        match self.state {
            PhiEvseState::NotConnected | PhiEvseState::Connected => {
                let next = state_of_mode(cp);
                let acts = if changing_power && next == PhiEvseState::Connected {
                    if self.max_current > 6000 {
                        seq![
                            Action::SetControlPilot(
                                charge_signal_of(
                                    self.max_current as int,
                                    self.current_adjustment as int,
                                ),
                            ),
                        ]
                    } else {
                        seq![Action::SetControlPilot(ControlPilotSignal::Standby)]
                    }
                } else {
                    seq![]
                };
                (PhiEvseController { state: next, ..self }, acts)
            },
            PhiEvseState::Ready => {
                if self.max_current > 6000 {
                    (
                        PhiEvseController {
                            state: PhiEvseState::Charging,
                            relay_3_phase: self.three_phase,
                            relay_main: true,
                            ..self
                        },
                        seq![
                            Action::Sleep(500),
                            Action::SetRelayAndWait(Relay::ThreePhase, self.three_phase),
                            Action::SetRelay(Relay::Main, true),
                        ],
                    )
                } else {
                    (self, seq![])
                }
            },
            PhiEvseState::Charging => self.after_charging(changing_power, input),
            PhiEvseState::Stopping | PhiEvseState::ShuttingDown => {
                if total_current(input.phase_currents) == 0 || self.stop_timeout == 0 {
                    let next = if self.state == PhiEvseState::Stopping {
                        state_of_mode(cp)
                    } else {
                        PhiEvseState::Shutdown
                    };
                    (
                        PhiEvseController {
                            state: next,
                            relay_main: false,
                            relay_3_phase: false,
                            ..self
                        },
                        seq![
                            Action::SetRelayAndWait(Relay::Main, false),
                            Action::SetRelay(Relay::ThreePhase, false),
                        ],
                    )
                } else {
                    (
                        PhiEvseController { stop_timeout: (self.stop_timeout - 1) as u32, ..self },
                        seq![],
                    )
                }
            },
            PhiEvseState::Error => {
                if cp == ControlPilotMode::NotConnected {
                    (PhiEvseController { state: PhiEvseState::NotConnected, ..self }, seq![])
                } else {
                    (self, seq![])
                }
            },
            PhiEvseState::Shutdown => (self, seq![]),
        }
    }

    /// Actions on entering the current state from `prev`.
    pub open spec fn after_entry(self, prev: PhiEvseState) -> (Self, Seq<Action>) {
        if prev == self.state {
            (self, seq![])
        } else {
            match self.state {
                PhiEvseState::NotConnected => (
                    self,
                    seq![Action::SetControlPilot(ControlPilotSignal::Standby)],
                ),
                PhiEvseState::Connected => (
                    PhiEvseController { current_adjustment: 1000, ..self },
                    if self.max_current > 6000 {
                        seq![
                            Action::SetControlPilot(
                                charge_signal_of(self.max_current as int, 1000),
                            ),
                        ]
                    } else {
                        seq![]
                    },
                ),
                PhiEvseState::Error => (
                    PhiEvseController { relay_main: false, relay_3_phase: false, ..self },
                    error_entry_actions(),
                ),
                PhiEvseState::Stopping | PhiEvseState::ShuttingDown => (
                    self,
                    seq![Action::SetControlPilot(ControlPilotSignal::Standby)],
                ),
                PhiEvseState::Shutdown => (self, seq![Action::StopWatchdog]),
                _ => (self, seq![]),
            }
        }
    }

    /// State whose entry actions have run when the state body starts: `Error`
    /// when the safety check forced it, else the state the tick started in.
    pub open spec fn entered_before_body(self, c1: Self, pilot_negative_high: bool) -> PhiEvseState {
        if !pilot_negative_high && c1.state != PhiEvseState::Error {
            PhiEvseState::Error
        } else {
            self.state
        }
    }

    /// One tick: the controller after it and the actions it asks for, in order.
    pub open spec fn step(self, input: TickInput) -> (Self, Seq<Action>) {
        let (c1, changing_power) = self.after_command(input.command);
        let (c2, a2) = c1.after_safety(input.pilot_negative_high);
        let (c3, a3) = c2.after_body(changing_power, input);
        let (c4, a4) = c3.after_entry(self.entered_before_body(c1, input.pilot_negative_high));
        (
            PhiEvseController { status: PhiEvseStatus { state: c4.state, ..c4.status }, ..c4 },
            seq![Action::KickWatchdog] + a2 + a3 + a4,
        )
    }
}


proof fn lemma_power_split_bounds(watts: int)
    requires
        0 <= watts <= MAX_POWER_W,
    ensures
        0 <= power_split(watts).0 <= 16000,
        power_split(watts).0 <= 6000 ==> !power_split(watts).1,
{
}

proof fn lemma_step_wf(c: PhiEvseController, input: TickInput)
    requires
        c.wf(),
    ensures
        c.step(input).0.wf(),
{
    lemma_power_split_bounds(c.max_power as int);
    let (c1, changing_power) = c.after_command(input.command);
    lemma_power_split_bounds(c1.max_power as int);
}

/// Every tick keeps the controller's invariant and kicks the watchdog first.
pub proof fn lemma_tick_kicks_watchdog(c: PhiEvseController, input: TickInput)
    requires
        c.wf(),
    ensures
        c.step(input).0.wf(),
        c.step(input).1.len() > 0,
        c.step(input).1[0] == Action::KickWatchdog,
{
    lemma_step_wf(c, input);
}

/// The main contactor closes only on a tick that starts in `Ready`, and only
/// while the allowed current is above 6000 mA.
pub proof fn lemma_main_relay_closes_only_from_ready(c: PhiEvseController, input: TickInput)
    requires
        c.wf(),
    ensures
        ({
            let (n, acts) = c.step(input);
            &&& (n.relay_main && !c.relay_main) ==> c.state == PhiEvseState::Ready
                && n.max_current > 6000
            &&& forall|i: int|
                0 <= i < acts.len() && acts[i] == Action::SetRelay(Relay::Main, true) ==> c.state
                    == PhiEvseState::Ready && n.max_current > 6000
        }),
{
    let (c1, changing_power) = c.after_command(input.command);
    let (c2, a2) = c1.after_safety(input.pilot_negative_high);
    let (c3, a3) = c2.after_body(changing_power, input);
    let (c4, a4) = c3.after_entry(c.entered_before_body(c1, input.pilot_negative_high));
    let acts = c.step(input).1;
    let b = a2.len() + 1;
    assert(acts == seq![Action::KickWatchdog] + a2 + a3 + a4);
    assert forall|i: int|
        0 <= i < acts.len() && acts[i] == Action::SetRelay(Relay::Main, true) implies c.state
        == PhiEvseState::Ready && c4.max_current > 6000 by {
        if 1 <= i < b {
            assert(a2[i - 1] == acts[i]);
        } else if b <= i < b + a3.len() {
            assert(a3[i - b] == acts[i]);
        } else if i >= b + a3.len() {
            assert(a4[i - b - a3.len()] == acts[i]);
        }
    }
}

/// Whether `acts` enter `Error`: its three entry actions come right after
/// the watchdog kick (forced by the safety check) or end the tick.
pub open spec fn enters_error(acts: Seq<Action>) -> bool {
    &&& acts.len() >= 4
    &&& acts.subrange(1, 4) == error_entry_actions() || acts.subrange(
        acts.len() - 3,
        acts.len() as int,
    ) == error_entry_actions()
}

/// A tick that ends in `Error` leaves both contactors open, and one that
/// enters `Error` signals `Error` on the Control Pilot and opens both. A low
/// negative rail always opens both contactors; from any other state it enters
/// `Error` at once, and the tick then ends in `NotConnected` if the vehicle is
/// unplugged, in `Error` otherwise.
pub proof fn lemma_error_opens_relays(c: PhiEvseController, input: TickInput)
    requires
        c.wf(),
    ensures
        ({
            let (n, acts) = c.step(input);
            &&& n.state == PhiEvseState::Error ==> !n.relay_main && !n.relay_3_phase
            &&& (n.state == PhiEvseState::Error && c.state != PhiEvseState::Error) ==> enters_error(
                acts,
            )
            &&& !input.pilot_negative_high ==> !n.relay_main && !n.relay_3_phase
            &&& (!input.pilot_negative_high && c.state != PhiEvseState::Error) ==> {
                &&& acts.len() >= 4
                &&& acts.subrange(1, 4) == error_entry_actions()
                &&& n.state == if input.cp_mode == ControlPilotMode::NotConnected {
                    PhiEvseState::NotConnected
                } else {
                    PhiEvseState::Error
                }
            }
        }),
{
    lemma_step_wf(c, input);
    let acts = c.step(input).1;
    if !input.pilot_negative_high && c.state != PhiEvseState::Error {
        assert(acts.subrange(1, 4) =~= error_entry_actions());
    } else if c.step(input).0.state == PhiEvseState::Error && c.state != PhiEvseState::Error {
        assert(acts.subrange(acts.len() - 3, acts.len() as int) =~= error_entry_actions());
    }
}

/// `Error` is left only for `NotConnected`, once the vehicle is unplugged,
/// or for `Shutdown` on command. Without a shutdown command, a tick that
/// starts in `Error` or reads the negative rail low ends in `NotConnected` if
/// the vehicle is unplugged and in `Error` otherwise.
pub proof fn lemma_error_clears_only_on_disconnect(c: PhiEvseController, input: TickInput)
    requires
        c.wf(),
    ensures
        ({
            let n = c.step(input).0;
            &&& c.state == PhiEvseState::Error ==> (n.state == PhiEvseState::Error || n.state
                == PhiEvseState::Shutdown || (n.state == PhiEvseState::NotConnected
                && input.cp_mode == ControlPilotMode::NotConnected))
            &&& ((c.state == PhiEvseState::Error || !input.pilot_negative_high) && input.command
                != Some(ControlMessage::Shutdown)) ==> n.state == if input.cp_mode
                == ControlPilotMode::NotConnected {
                PhiEvseState::NotConnected
            } else {
                PhiEvseState::Error
            }
        }),
{
}

/// Charging on three phases at 11 kW, with each phase drawing 15942 mA and
/// the vehicle ready, the controller keeps charging and publishes 10999 W.
pub proof fn lemma_full_three_phase_power(c: PhiEvseController, input: TickInput)
    requires
        c.wf(),
        c.state == PhiEvseState::Charging,
        c.max_power == 11000,
        input.command is None,
        input.cp_mode == ControlPilotMode::Ready,
        input.pilot_negative_high,
        input.phase_currents@ == seq![15942u32, 15942u32, 15942u32],
    ensures
        c.step(input).0.status == (PhiEvseStatus {
            power: 10999,
            state: PhiEvseState::Charging,
            max_power: 11000,
        }),
{
    assert(input.phase_currents@[0] == 15942u32);
    assert(input.phase_currents@[1] == 15942u32);
    assert(input.phase_currents@[2] == 15942u32);
}

/// The current adjustment stays within ±1000 mA.
pub proof fn lemma_adjustment_bounded(c: PhiEvseController, input: TickInput)
    requires
        c.wf(),
    ensures
        -1000 <= c.step(input).0.current_adjustment <= 1000,
{
    lemma_step_wf(c, input);
}

/// While charging goes on, the published power is the phase currents'
/// sum times 230 V.
pub proof fn lemma_charging_power_published(c: PhiEvseController, input: TickInput)
    requires
        c.wf(),
        c.state == PhiEvseState::Charging,
        c.step(input).0.state == PhiEvseState::Charging,
    ensures
        c.step(input).0.status.power == power_of(total_current(input.phase_currents)),
{
}

impl PhiEvseController {
    /// A controller at rest: nothing connected, no power allowed, relays open.
    pub fn new() -> (r: Self)
        ensures
            r.wf(),
            r.state == PhiEvseState::NotConnected,
            r.max_power == 0,
            r.max_current == 0,
            !r.three_phase,
            r.current_adjustment == 0,
            !r.relay_main,
            !r.relay_3_phase,
            r.status == (PhiEvseStatus { power: 0, state: PhiEvseState::NotConnected, max_power: 0 }),
    {
        PhiEvseController {
            state: PhiEvseState::NotConnected,
            max_power: 0,
            max_current: 0,
            three_phase: false,
            current_adjustment: 0,
            next_adjust: 0,
            stop_timeout: 0,
            relay_main: false,
            relay_3_phase: false,
            status: PhiEvseStatus { power: 0, state: PhiEvseState::NotConnected, max_power: 0 },
        }
    }

    /// Snapshot of the published status.
    pub fn status(&self) -> (r: PhiEvseStatus)
        ensures
            r == self.status,
    {
        self.status
    }

    fn apply_command(&mut self, command: Option<ControlMessage>) -> (changing_power: bool)
        requires
            old(self).settings_wf(),
        ensures
            (*final(self), changing_power) == old(self).after_command(command),
            final(self).settings_wf(),
    {
        match command {
            Some(ControlMessage::SetMaxPower(watts)) => {
                let p = clamp_max_power(watts);
                let (max_current, three_phase) = calculate_power(p);
                proof {
                    lemma_power_split_bounds(p as int);
                }
                self.max_power = p;
                self.max_current = max_current;
                self.three_phase = three_phase;
                self.status.max_power = p;
                true
            },
            Some(ControlMessage::Shutdown) => {
                if self.state == PhiEvseState::Charging {
                    self.state = PhiEvseState::ShuttingDown;
                    self.stop_timeout = STOP_TIMEOUT_TICKS;
                } else {
                    self.state = PhiEvseState::Shutdown;
                }
                false
            },
            None => false,
        }
    }

    fn charging_control(&mut self, total_ma: u64, cp_mode: ControlPilotMode, acts: &mut Vec<Action>)
        requires
            old(self).settings_wf(),
            total_ma <= 3 * 0xffff_ffffu64,
        ensures
            ({
                let (c, a) = old(self).after_control(total_ma as int, cp_mode);
                *final(self) == c && final(acts)@ == old(acts)@ + a
            }),
            final(self).settings_wf(),
    {
        let ghost a0 = acts@;
        proof {
            lemma_power_split_bounds(self.max_power as int);
        }
        if self.next_adjust > 0 {
            self.next_adjust = self.next_adjust - 1;
        } else if cp_mode != ControlPilotMode::Ready {
            self.state = PhiEvseState::Stopping;
            self.stop_timeout = STOP_TIMEOUT_TICKS;
        } else {
            let phases: u64 = if self.three_phase { 3 } else { 1 };
            let per_phase: u64 = total_ma / phases;
            let diff: i64 = self.max_current as i64 - per_phase as i64;
            if per_phase < 1000 {
                self.next_adjust = 1;
            } else if per_phase > self.max_current as u64 + 4000 {
                self.state = PhiEvseState::Error;
            } else if per_phase < 6500 || diff > 500 || diff < -500 {
                let step: i32 = if per_phase < 6500 {
                    500
                } else if diff > 0 {
                    300
                } else {
                    -300
                };
                let mut adj: i32 = self.current_adjustment + step;
                if adj > 1000 {
                    adj = 1000;
                } else if adj < -1000 {
                    adj = -1000;
                }
                self.current_adjustment = adj;
                self.next_adjust = 30;
                acts.push(Action::SetControlPilot(charge_signal(self.max_current, adj)));
            }
        }
        assert(acts@ =~= a0 + old(self).after_control(total_ma as int, cp_mode).1);
    }

    fn charging_body(&mut self, changing_power: bool, input: TickInput, acts: &mut Vec<Action>)
        requires
            old(self).settings_wf(),
        ensures
            ({
                let (c, a) = old(self).after_charging(changing_power, input);
                *final(self) == c && final(acts)@ == old(acts)@ + a
            }),
            final(self).settings_wf(),
    {
        let ghost a0 = acts@;
        proof {
            lemma_power_split_bounds(self.max_power as int);
        }
        if changing_power {
            acts.push(
                Action::SetControlPilot(charge_signal(self.max_current, self.current_adjustment)),
            );
            if self.three_phase != self.relay_3_phase {
                self.relay_3_phase = self.three_phase;
                acts.push(Action::SetRelay(Relay::ThreePhase, self.three_phase));
                self.next_adjust = 100;
            } else {
                self.next_adjust = 50;
            }
        }
        let ghost a1 = acts@;
        let c = input.phase_currents;
        let total: u64 = c[0] as u64 + c[1] as u64 + c[2] as u64;
        self.status.power = (total * 230 / 1000) as u32;
        self.charging_control(total, input.cp_mode, acts);
        proof {
            let (c1, x1) = old(self).after_charging(changing_power, input);
            assert(a1 =~= a0 + (if !changing_power {
                seq![]
            } else if old(self).three_phase != old(self).relay_3_phase {
                seq![
                    Action::SetControlPilot(
                        charge_signal_of(
                            old(self).max_current as int,
                            old(self).current_adjustment as int,
                        ),
                    ),
                    Action::SetRelay(Relay::ThreePhase, old(self).three_phase),
                ]
            } else {
                seq![
                    Action::SetControlPilot(
                        charge_signal_of(
                            old(self).max_current as int,
                            old(self).current_adjustment as int,
                        ),
                    ),
                ]
            }));
            assert(acts@ =~= a0 + x1);
        }
    }

    fn run_body(&mut self, changing_power: bool, input: TickInput, acts: &mut Vec<Action>)
        requires
            old(self).settings_wf(),
        ensures
            ({
                let (c, a) = old(self).after_body(changing_power, input);
                *final(self) == c && final(acts)@ == old(acts)@ + a
            }),
            final(self).settings_wf(),
    {
        let ghost a0 = acts@;
        let cp = input.cp_mode;
        proof {
            lemma_power_split_bounds(self.max_power as int);
        }
        match self.state {
            PhiEvseState::NotConnected | PhiEvseState::Connected => {
                let next = state_for_mode(cp);
                self.state = next;
                if changing_power && next == PhiEvseState::Connected {
                    if self.max_current > 6000 {
                        acts.push(
                            Action::SetControlPilot(
                                charge_signal(self.max_current, self.current_adjustment),
                            ),
                        );
                    } else {
                        acts.push(Action::SetControlPilot(ControlPilotSignal::Standby));
                    }
                }
                assert(acts@ =~= a0 + old(self).after_body(changing_power, input).1);
            },
            PhiEvseState::Ready => {
                if self.max_current > 6000 {
                    acts.push(Action::Sleep(500));
                    acts.push(Action::SetRelayAndWait(Relay::ThreePhase, self.three_phase));
                    acts.push(Action::SetRelay(Relay::Main, true));
                    self.relay_3_phase = self.three_phase;
                    self.relay_main = true;
                    self.state = PhiEvseState::Charging;
                }
                assert(acts@ =~= a0 + old(self).after_body(changing_power, input).1);
            },
            PhiEvseState::Charging => {
                self.charging_body(changing_power, input, acts);
            },
            PhiEvseState::Stopping | PhiEvseState::ShuttingDown => {
                let c = input.phase_currents;
                if (c[0] == 0 && c[1] == 0 && c[2] == 0) || self.stop_timeout == 0 {
                    acts.push(Action::SetRelayAndWait(Relay::Main, false));
                    acts.push(Action::SetRelay(Relay::ThreePhase, false));
                    self.relay_main = false;
                    self.relay_3_phase = false;
                    if self.state == PhiEvseState::Stopping {
                        self.state = state_for_mode(cp);
                    } else {
                        self.state = PhiEvseState::Shutdown;
                    }
                } else {
                    self.stop_timeout = self.stop_timeout - 1;
                }
                assert(acts@ =~= a0 + old(self).after_body(changing_power, input).1);
            },
            PhiEvseState::Error => {
                if cp == ControlPilotMode::NotConnected {
                    self.state = PhiEvseState::NotConnected;
                }
                assert(acts@ =~= a0 + old(self).after_body(changing_power, input).1);
            },
            PhiEvseState::Shutdown => {
                assert(acts@ =~= a0 + old(self).after_body(changing_power, input).1);
            },
        }
    }

    fn run_entry(&mut self, prev: PhiEvseState, acts: &mut Vec<Action>)
        requires
            old(self).settings_wf(),
        ensures
            ({
                let (c, a) = old(self).after_entry(prev);
                *final(self) == c && final(acts)@ == old(acts)@ + a
            }),
            final(self).settings_wf(),
    {
        let ghost a0 = acts@;
        proof {
            lemma_power_split_bounds(self.max_power as int);
        }
        if prev != self.state {
            match self.state {
                PhiEvseState::NotConnected => {
                    acts.push(Action::SetControlPilot(ControlPilotSignal::Standby));
                },
                PhiEvseState::Connected => {
                    self.current_adjustment = 1000;
                    if self.max_current > 6000 {
                        acts.push(
                            Action::SetControlPilot(charge_signal(self.max_current, 1000)),
                        );
                    }
                },
                PhiEvseState::Error => {
                    acts.push(Action::SetControlPilot(ControlPilotSignal::Error));
                    acts.push(Action::SetRelayAndWait(Relay::Main, false));
                    acts.push(Action::SetRelay(Relay::ThreePhase, false));
                    self.relay_main = false;
                    self.relay_3_phase = false;
                },
                PhiEvseState::Stopping | PhiEvseState::ShuttingDown => {
                    acts.push(Action::SetControlPilot(ControlPilotSignal::Standby));
                },
                PhiEvseState::Shutdown => {
                    acts.push(Action::StopWatchdog);
                },
                _ => {},
            }
        }
        assert(acts@ =~= a0 + old(self).after_entry(prev).1);
    }

    /// Runs one 100 ms tick of the controller on what was observed, and returns
    /// the actions for the peripherals, to be carried out in order.
    pub fn tick(&mut self, input: TickInput) -> (r: Vec<Action>)
        requires
            old(self).wf(),
        ensures
            (*final(self), r@) == old(self).step(input),
            final(self).wf(),
            !input.pilot_negative_high ==> !final(self).relay_main && !final(self).relay_3_phase,
            (!input.pilot_negative_high && old(self).state != PhiEvseState::Error) ==> {
                &&& r@.len() >= 4
                &&& r@.subrange(1, 4) == error_entry_actions()
                &&& final(self).state == if input.cp_mode == ControlPilotMode::NotConnected {
                    PhiEvseState::NotConnected
                } else {
                    PhiEvseState::Error
                }
            },
    {
        proof {
            lemma_error_opens_relays(*self, input);
        }
        self.run_tick(input)
    }

    fn run_tick(&mut self, input: TickInput) -> (r: Vec<Action>)
        requires
            old(self).wf(),
        ensures
            (*final(self), r@) == old(self).step(input),
            final(self).wf(),
    {
        let prev = self.state;
        let mut acts: Vec<Action> = Vec::new();
        acts.push(Action::KickWatchdog);
        let changing_power = self.apply_command(input.command);
        let mut entered = prev;
        if !input.pilot_negative_high && self.state != PhiEvseState::Error {
            self.state = PhiEvseState::Error;
            self.relay_main = false;
            self.relay_3_phase = false;
            acts.push(Action::SetControlPilot(ControlPilotSignal::Error));
            acts.push(Action::SetRelayAndWait(Relay::Main, false));
            acts.push(Action::SetRelay(Relay::ThreePhase, false));
            entered = PhiEvseState::Error;
        }
        proof {
            assert(acts@ =~= seq![Action::KickWatchdog] + old(self).after_command(
                input.command,
            ).0.after_safety(input.pilot_negative_high).1);
        }
        self.run_body(changing_power, input, &mut acts);
        self.run_entry(entered, &mut acts);
        self.status.state = self.state;
        proof {
            lemma_step_wf(*old(self), input);
        }
        acts
    }
}

} // verus!
