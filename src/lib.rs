//! Actuator sequencing for a laminating machine.
//!
//! A fixed bank of on/off outputs (a test indicator, two pumps, three heater
//! zones) is driven through a cyclic schedule of phases. The sequencer is a
//! state machine: it says which output to set or how long to hold, and the
//! caller performs that action on the hardware and reports how it went.
mod actuator;
mod laws;
mod schedule;
mod sequencer;

pub use actuator::{Actuator, ActuatorBank, BankView, InitFault, Level, Role, line_bound};
pub use schedule::{Phase, Schedule, ScheduleError, holdable};
pub use sequencer::{Action, ConfigError, Fault, Outcome, Sequencer, SequencerView, fits};
pub use laws::{
    all_at, lemma_applied_before_hold, lemma_delay_fault, lemma_halt_is_final, lemma_hold_levels,
    lemma_on_off, lemma_phase_order, lemma_set_order, lemma_write_fault, run, run_ok,
};
