use phievse::control_pilot::{classify, ControlPilotSignal};
use phievse::controller::{
    calculate_power, clamp_max_power, Action, ControlMessage, PhiEvseController, PhiEvseState,
    PhiEvseStatus, Relay, TickInput,
};

fn tick(
    c: &mut PhiEvseController,
    command: Option<ControlMessage>,
    cp_mv: i32,
    currents: [u32; 3],
) -> Vec<Action> {
    c.tick(TickInput {
        command,
        cp_mode: classify(cp_mv),
        pilot_negative_high: true,
        phase_currents: currents,
    })
}

fn charging_at(watts: u32) -> PhiEvseController {
    let mut c = PhiEvseController::new();
    tick(&mut c, Some(ControlMessage::SetMaxPower(watts)), 1300, [0, 0, 0]);
    assert_eq!(c.state, PhiEvseState::Ready);
    tick(&mut c, None, 1300, [0, 0, 0]);
    assert_eq!(c.state, PhiEvseState::Charging);
    c
}

#[test]
fn power_to_current_and_phases() {
    assert_eq!(calculate_power(0), (0, false));
    assert_eq!(calculate_power(1495), (0, false));
    assert_eq!(calculate_power(1500), (6521, false));
    assert_eq!(calculate_power(3680), (16000, false));
    assert_eq!(calculate_power(4000), (16000, false));
    // 4600 W is exactly 20 A in total: the three-phase threshold
    assert_eq!(calculate_power(4600), (6666, true));
    assert_eq!(calculate_power(4599), (16000, false));
    assert_eq!(calculate_power(11000), (15942, true));
}

#[test]
fn requested_power_is_clamped() {
    assert_eq!(clamp_max_power(0), 0);
    assert_eq!(clamp_max_power(1499), 0);
    assert_eq!(clamp_max_power(1500), 1500);
    assert_eq!(clamp_max_power(7000), 7000);
    assert_eq!(clamp_max_power(11000), 11000);
    assert_eq!(clamp_max_power(50000), 11000);
    assert_eq!(clamp_max_power(u32::MAX), 11000);
}

#[test]
fn new_controller_is_idle() {
    let c = PhiEvseController::new();
    assert_eq!(c.state, PhiEvseState::NotConnected);
    assert_eq!(
        c.status(),
        PhiEvseStatus { power: 0, state: PhiEvseState::NotConnected, max_power: 0 }
    );
    assert_eq!(PhiEvseStatus::default(), c.status());
}

#[test]
fn every_tick_kicks_the_watchdog_first() {
    let mut c = PhiEvseController::new();
    for mv in [0, 450, 1300, 1300, 450, 0] {
        let acts = tick(&mut c, None, mv, [0, 0, 0]);
        assert_eq!(acts[0], Action::KickWatchdog);
    }
}

#[test]
fn cold_connect_at_3_7_kw() {
    let mut c = PhiEvseController::new();
    let mut trace = vec![c.state];
    let mut relay_closed = false;
    for t in 0..40 {
        let cp = if t < 10 {
            0
        } else if t < 20 {
            450
        } else {
            1300
        };
        let command = if t == 0 { Some(ControlMessage::SetMaxPower(3680)) } else { None };
        let currents = if relay_closed { [15500, 0, 0] } else { [0, 0, 0] };
        tick(&mut c, command, cp, currents);
        relay_closed = c.relay_main;
        if *trace.last().unwrap() != c.state {
            trace.push(c.state);
        }
    }
    assert_eq!(
        trace,
        vec![
            PhiEvseState::NotConnected,
            PhiEvseState::Connected,
            PhiEvseState::Ready,
            PhiEvseState::Charging
        ]
    );
    assert_eq!(c.status().max_power, 3680);
    assert_eq!(c.status().state, PhiEvseState::Charging);
    assert!(!c.three_phase);
    assert!(c.relay_main);
    assert!(!c.relay_3_phase);
    assert_eq!(c.status().power, 15500 * 230 / 1000);
}

#[test]
fn three_phase_11_kw() {
    let mut c = PhiEvseController::new();
    tick(&mut c, None, 450, [0, 0, 0]);
    assert_eq!(c.state, PhiEvseState::Connected);
    let acts = tick(&mut c, Some(ControlMessage::SetMaxPower(11000)), 450, [0, 0, 0]);
    assert_eq!((c.max_current, c.three_phase), (15942, true));
    assert!(acts.contains(&Action::SetControlPilot(ControlPilotSignal::Charge(16942))));

    let acts = tick(&mut c, None, 1300, [0, 0, 0]);
    assert_eq!(c.state, PhiEvseState::Ready);
    assert!(!acts.iter().any(|a| matches!(a, Action::SetRelay(..) | Action::SetRelayAndWait(..))));

    let acts = tick(&mut c, None, 1300, [0, 0, 0]);
    assert_eq!(c.state, PhiEvseState::Charging);
    let three = acts
        .iter()
        .position(|a| *a == Action::SetRelayAndWait(Relay::ThreePhase, true))
        .unwrap();
    let main = acts.iter().position(|a| *a == Action::SetRelay(Relay::Main, true)).unwrap();
    assert!(three < main);

    tick(&mut c, None, 1300, [15942, 15942, 15942]);
    assert_eq!(c.state, PhiEvseState::Charging);
    assert_eq!(c.status().power, 10999);
}

#[test]
fn graceful_shutdown_while_charging() {
    let mut c = charging_at(3680);
    tick(&mut c, None, 1300, [15000, 0, 0]);
    tick(&mut c, Some(ControlMessage::Shutdown), 1300, [15000, 0, 0]);
    assert_eq!(c.state, PhiEvseState::ShuttingDown);
    assert_eq!(c.stop_timeout, 49);
    for left in (40..49).rev() {
        tick(&mut c, None, 1300, [15000, 0, 0]);
        assert_eq!(c.state, PhiEvseState::ShuttingDown);
        assert_eq!(c.stop_timeout, left);
        assert!(c.relay_main);
    }
    let acts = tick(&mut c, None, 1300, [0, 0, 0]);
    assert_eq!(c.state, PhiEvseState::Shutdown);
    assert!(!c.relay_main);
    assert!(!c.relay_3_phase);
    assert!(acts.contains(&Action::SetRelayAndWait(Relay::Main, false)));
    assert!(acts.contains(&Action::SetRelay(Relay::ThreePhase, false)));
    assert_eq!(*acts.last().unwrap(), Action::StopWatchdog);
    for _ in 0..5 {
        let acts = tick(&mut c, None, 1300, [0, 0, 0]);
        assert_eq!(acts, vec![Action::KickWatchdog]);
        assert_eq!(c.status().state, PhiEvseState::Shutdown);
    }
}

#[test]
fn shutdown_times_out_when_current_keeps_flowing() {
    let mut c = charging_at(3680);
    tick(&mut c, Some(ControlMessage::Shutdown), 1300, [15000, 0, 0]);
    for _ in 0..49 {
        tick(&mut c, None, 1300, [15000, 0, 0]);
        assert_eq!(c.state, PhiEvseState::ShuttingDown);
    }
    tick(&mut c, None, 1300, [15000, 0, 0]);
    assert_eq!(c.state, PhiEvseState::Shutdown);
    assert!(!c.relay_main);
}

#[test]
fn shutdown_when_idle_is_immediate() {
    let mut c = PhiEvseController::new();
    let acts = tick(&mut c, Some(ControlMessage::Shutdown), 0, [0, 0, 0]);
    assert_eq!(c.state, PhiEvseState::Shutdown);
    assert_eq!(acts, vec![Action::KickWatchdog, Action::StopWatchdog]);
}

#[test]
fn over_current_abort() {
    let mut c = charging_at(2300);
    assert_eq!(c.max_current, 10000);
    let acts = tick(&mut c, None, 1300, [15000, 0, 0]);
    assert_eq!(c.state, PhiEvseState::Error);
    assert!(!c.relay_main);
    assert!(!c.relay_3_phase);
    let n = acts.len();
    assert_eq!(acts[n - 3], Action::SetControlPilot(ControlPilotSignal::Error));
    assert_eq!(acts[n - 2], Action::SetRelayAndWait(Relay::Main, false));
    assert_eq!(acts[n - 1], Action::SetRelay(Relay::ThreePhase, false));

    tick(&mut c, None, 1300, [0, 0, 0]);
    assert_eq!(c.state, PhiEvseState::Error);
    let acts = tick(&mut c, None, 0, [0, 0, 0]);
    assert_eq!(c.state, PhiEvseState::NotConnected);
    assert!(acts.contains(&Action::SetControlPilot(ControlPilotSignal::Standby)));
}

#[test]
fn negative_rail_low_forces_error() {
    let mut c = charging_at(3680);
    let acts = c.tick(TickInput {
        command: None,
        cp_mode: classify(1300),
        pilot_negative_high: false,
        phase_currents: [15000, 0, 0],
    });
    assert_eq!(c.state, PhiEvseState::Error);
    assert!(!c.relay_main);
    assert!(acts.contains(&Action::SetRelayAndWait(Relay::Main, false)));
}

#[test]
fn vehicle_initiated_stop() {
    let mut c = charging_at(3680);
    tick(&mut c, None, 1300, [15500, 0, 0]);
    let acts = tick(&mut c, None, 450, [15500, 0, 0]);
    assert_eq!(c.state, PhiEvseState::Stopping);
    assert_eq!(c.stop_timeout, 50);
    assert!(acts.contains(&Action::SetControlPilot(ControlPilotSignal::Standby)));
    tick(&mut c, None, 450, [8000, 0, 0]);
    assert_eq!(c.state, PhiEvseState::Stopping);
    assert!(c.relay_main);
    tick(&mut c, None, 450, [0, 0, 0]);
    assert_eq!(c.state, PhiEvseState::Connected);
    assert!(!c.relay_main);
    assert!(!c.relay_3_phase);
}

#[test]
fn start_below_minimum_drawing() {
    let mut c = charging_at(1500);
    assert_eq!(c.max_current, 6521);
    assert_eq!(c.current_adjustment, 0);
    let acts = tick(&mut c, None, 1300, [5800, 0, 0]);
    assert_eq!(c.current_adjustment, 500);
    assert_eq!(c.next_adjust, 30);
    assert!(acts.contains(&Action::SetControlPilot(ControlPilotSignal::Charge(7021))));
    for _ in 0..30 {
        let acts = tick(&mut c, None, 1300, [5800, 0, 0]);
        assert_eq!(c.current_adjustment, 500);
        assert_eq!(acts.len(), 1);
    }
    tick(&mut c, None, 1300, [5800, 0, 0]);
    assert_eq!(c.current_adjustment, 1000);
    tick(&mut c, None, 1300, [5800, 0, 0]);
    assert_eq!(c.current_adjustment, 1000);
}

#[test]
fn adjusts_towards_the_allowed_current() {
    let mut c = charging_at(3680);
    tick(&mut c, None, 1300, [14000, 0, 0]);
    assert_eq!(c.current_adjustment, 300);
    for _ in 0..30 {
        tick(&mut c, None, 1300, [17000, 0, 0]);
    }
    tick(&mut c, None, 1300, [17000, 0, 0]);
    assert_eq!(c.current_adjustment, 0);
}

#[test]
fn waits_while_the_car_draws_nothing() {
    let mut c = charging_at(3680);
    for _ in 0..20 {
        tick(&mut c, None, 1300, [500, 0, 0]);
        assert_eq!(c.state, PhiEvseState::Charging);
        assert_eq!(c.current_adjustment, 0);
    }
}

#[test]
fn main_relay_needs_enough_power() {
    let mut c = PhiEvseController::new();
    for _ in 0..10 {
        let acts = tick(&mut c, None, 1300, [0, 0, 0]);
        assert_eq!(c.state, PhiEvseState::Ready);
        assert!(!acts.contains(&Action::SetRelay(Relay::Main, true)));
        assert!(!c.relay_main);
    }
}

#[test]
fn power_change_while_charging_moves_the_phase_relay() {
    let mut c = charging_at(3680);
    let acts = tick(&mut c, Some(ControlMessage::SetMaxPower(11000)), 1300, [15000, 0, 0]);
    assert!(acts.contains(&Action::SetRelay(Relay::ThreePhase, true)));
    assert!(c.relay_3_phase);
    assert_eq!(c.next_adjust, 99);
    assert_eq!(c.status().max_power, 11000);
}

#[test]
fn adjustment_stays_within_bounds() {
    let mut c = charging_at(3680);
    let mut seed: u32 = 12345;
    let mut errors = 0;
    for t in 0..3000 {
        seed = seed.wrapping_mul(1103515245).wrapping_add(12345);
        let l1 = (seed >> 8) % 21000;
        let cp = if t % 700 == 699 { 450 } else { 1300 };
        let before = c.state;
        tick(&mut c, None, cp, [l1, 0, 0]);
        assert!((-1000..=1000).contains(&c.current_adjustment));
        if before == PhiEvseState::Charging && c.state == PhiEvseState::Charging {
            assert_eq!(c.status().power, l1 * 230 / 1000);
        }
        if c.state == PhiEvseState::Error {
            errors += 1;
            assert!(!c.relay_main && !c.relay_3_phase);
            tick(&mut c, None, 0, [0, 0, 0]);
            assert_eq!(c.state, PhiEvseState::NotConnected);
        }
        if c.state != PhiEvseState::Charging {
            tick(&mut c, None, 1300, [0, 0, 0]);
        }
    }
    assert!(errors > 0);
}

#[test]
fn stopping_back_to_ready_is_handled() {
    let mut c = charging_at(3680);
    tick(&mut c, None, 450, [15000, 0, 0]);
    assert_eq!(c.state, PhiEvseState::Stopping);
    tick(&mut c, None, 1300, [0, 0, 0]);
    assert_eq!(c.state, PhiEvseState::Ready);
    assert!(!c.relay_main);
    tick(&mut c, None, 1300, [0, 0, 0]);
    assert_eq!(c.state, PhiEvseState::Charging);
    assert!(c.relay_main);
}

#[test]
fn fault_while_unplugging_still_opens_the_relays() {
    let mut c = charging_at(3680);
    assert!(c.relay_main);
    let acts = c.tick(TickInput {
        command: None,
        cp_mode: classify(0),
        pilot_negative_high: false,
        phase_currents: [15000, 0, 0],
    });
    assert_eq!(c.state, PhiEvseState::NotConnected);
    assert!(!c.relay_main);
    assert!(!c.relay_3_phase);
    assert_eq!(
        acts,
        vec![
            Action::KickWatchdog,
            Action::SetControlPilot(ControlPilotSignal::Error),
            Action::SetRelayAndWait(Relay::Main, false),
            Action::SetRelay(Relay::ThreePhase, false),
            Action::SetControlPilot(ControlPilotSignal::Standby),
        ]
    );
}

#[test]
fn fault_while_plugged_in_stays_in_error() {
    let mut c = charging_at(3680);
    let acts = c.tick(TickInput {
        command: None,
        cp_mode: classify(1300),
        pilot_negative_high: false,
        phase_currents: [15000, 0, 0],
    });
    assert_eq!(c.state, PhiEvseState::Error);
    assert!(!c.relay_main && !c.relay_3_phase);
    assert_eq!(acts[1], Action::SetControlPilot(ControlPilotSignal::Error));
    assert_eq!(acts[2], Action::SetRelayAndWait(Relay::Main, false));
    assert_eq!(acts[3], Action::SetRelay(Relay::ThreePhase, false));
}

#[test]
fn low_rail_with_nothing_plugged_in_stays_not_connected() {
    let mut c = PhiEvseController::new();
    tick(&mut c, None, 0, [0, 0, 0]);
    for _ in 0..5 {
        c.tick(TickInput {
            command: None,
            cp_mode: classify(0),
            pilot_negative_high: false,
            phase_currents: [0, 0, 0],
        });
        assert_eq!(c.state, PhiEvseState::NotConnected);
        assert_eq!(c.status().state, PhiEvseState::NotConnected);
    }
}

#[test]
fn full_three_phase_power_is_published() {
    let mut c = charging_at(11000);
    for _ in 0..120 {
        tick(&mut c, None, 1300, [15942, 15942, 15942]);
        assert_eq!(
            c.status(),
            PhiEvseStatus { power: 10999, state: PhiEvseState::Charging, max_power: 11000 }
        );
    }
}
