//! Control kernel of an AC charger for electric vehicles: the Control Pilot
//! signalling, the phase-current meters, the relay sequencing and the 10 Hz
//! charging state machine, with the in-memory log buffer and settings.

pub mod adc;
pub mod config;
pub mod control_pilot;
pub mod controller;
pub mod current_meter;
pub mod gpio;
pub mod led;
pub mod logger;
