use vstd::prelude::*;

verus! {

/// Time a relay coil is driven at full voltage before it is held, in ms:
/// the coil takes about 45 ms to switch, doubled to be safe.
pub const RELAY_SWITCH_MS: u32 = 90;

/// Holding voltage, in percent of the nominal voltage.
pub const RELAY_HOLDING_DUTY: u32 = 85;

/// What to do to a relay's PWM pin when its level is set.
#[derive(PartialEq, Eq, Structural, Debug, Clone, Copy)]
pub enum RelayCommand {
    /// Duty 0 at once.
    Release,
    /// Full duty now, then the holding duty after `RELAY_SWITCH_MS` if the
    /// relay is still on.
    PullIn,
    /// Leave the duty as it is.
    Keep,
}

/// Command for a relay that was `was_on` and is set to `level`.
pub open spec fn relay_command_of(was_on: bool, level: bool) -> RelayCommand {
    if !level {
        RelayCommand::Release
    } else if !was_on {
        RelayCommand::PullIn
    } else {
        RelayCommand::Keep
    }
}

/// Decides how a relay's pin changes when its level is set.
pub fn relay_command(was_on: bool, level: bool) -> (r: RelayCommand)
    ensures
        r == relay_command_of(was_on, level),
{
    if !level {
        RelayCommand::Release
    } else if !was_on {
        RelayCommand::PullIn
    } else {
        RelayCommand::Keep
    }
}

/// Duty that holds a pulled-in relay, for a pin whose full duty is `max_duty`.
pub fn holding_duty(max_duty: u32) -> (r: u32)
    ensures
        r == max_duty / 100 * RELAY_HOLDING_DUTY,
        r <= max_duty,
{
    max_duty / 100 * RELAY_HOLDING_DUTY
}

} // verus!
