use vstd::prelude::*;
use crate::actuator::{Actuator, ActuatorBank, BankView, Level};
use crate::schedule::{Phase, Schedule};

verus! {

/// Why the sequencer stopped. Both kinds are final.
#[derive(Clone, Copy, Debug, PartialEq, Eq, Structural)]
pub enum Fault {
    /// Setting output `actuator` failed while applying phase `phase`.
    ActuatorWrite { phase: usize, actuator: usize },
    /// The wait that holds phase `phase` failed or ended early.
    Delay { phase: usize },
}

/// What the caller must do next.
#[derive(Clone, Copy, Debug, PartialEq, Eq, Structural)]
pub enum Action {
    /// Drive output `actuator`, bound to `line`, to `level`.
    Apply { actuator: usize, line: u8, level: Level },
    /// Every output holds the phase's level: wait `hold_us` microseconds.
    Hold { hold_us: u32 },
    /// Stop: nothing more is ever asked.
    Halt { fault: Fault },
}

/// How the last action went.
#[derive(Clone, Copy, Debug, PartialEq, Eq, Structural)]
pub enum Outcome {
    Done,
    Failed,
}

/// Why a bank and a schedule cannot run together.
#[derive(Clone, Copy, Debug, PartialEq, Eq, Structural)]
pub enum ConfigError {
    /// This phase gives levels for a different number of outputs than the
    /// bank holds.
    ActuatorMismatch { phase: usize },
}

/// Model of a sequencer.
///
/// `phase` is the phase being applied or held, `cursor` the number of outputs
/// already set in it (the bank's size while holding), `cycles` how often the
/// schedule wrapped to its first phase (stopping at the largest `u64`), and
/// `fault` why it stopped, if it did.
pub struct SequencerView {
    pub schedule: Seq<Phase>,
    pub bank: BankView,
    pub phase: nat,
    pub cursor: nat,
    pub cycles: nat,
    pub fault: Option<Fault>,
}

/// Every phase of `schedule` gives one level per output of a bank of `width`.
pub open spec fn fits(schedule: Seq<Phase>, width: nat) -> bool {
    forall|p: int| 0 <= p < schedule.len() ==> (#[trigger] schedule[p]).levels@.len() == width
}

impl SequencerView {
    pub open spec fn width(self) -> nat {
        self.bank.actuators.len()
    }

    pub open spec fn current(self) -> Phase {
        self.schedule[self.phase as int]
    }

    /// The level output `j` stands at.
    pub open spec fn level(self, j: int) -> Level {
        self.bank.actuators[j].level
    }

    /// A sequencer about to apply the first phase of `schedule` to `bank`.
    pub open spec fn initial(schedule: Seq<Phase>, bank: BankView) -> SequencerView {
        SequencerView { schedule, bank, phase: 0, cursor: 0, cycles: 0, fault: None }
    }

    /// The outputs set so far in this phase stand at its levels.
    pub open spec fn wf(self) -> bool {
        &&& self.schedule.len() > 0
        &&& fits(self.schedule, self.width())
        &&& self.width() <= usize::MAX
        &&& self.phase < self.schedule.len()
        &&& self.cursor <= self.width()
        &&& self.cycles <= u64::MAX
        &&& forall|j: int| 0 <= j < self.cursor ==> self.level(j) == self.current().levels@[j]
    }

    /// What is asked of the caller in this state.
    pub open spec fn action(self) -> Action {
        match self.fault {
            Some(fault) => Action::Halt { fault },
            None => if self.cursor < self.width() {
                Action::Apply {
                    actuator: self.cursor as usize,
                    line: self.bank.actuators[self.cursor as int].line,
                    level: self.current().levels@[self.cursor as int],
                }
            } else {
                Action::Hold { hold_us: self.current().hold_us }
            },
        }
    }

    /// The state after the caller reports `outcome` for `self.action()`.
    pub open spec fn next(self, outcome: Outcome) -> SequencerView {
        if self.fault is Some {
            self
        } else if self.cursor < self.width() {
            match outcome {
                Outcome::Done => SequencerView {
                    bank: BankView {
                        actuators: self.bank.actuators.update(
                            self.cursor as int,
                            (Actuator {
                                level: self.current().levels@[self.cursor as int],
                                ..self.bank.actuators[self.cursor as int]
                            }),
                        ),
                        ..self.bank
                    },
                    cursor: self.cursor + 1,
                    ..self
                },
                Outcome::Failed => SequencerView {
                    fault: Some(
                        Fault::ActuatorWrite { phase: self.phase as usize, actuator: self.cursor as usize },
                    ),
                    ..self
                },
            }
        } else {
            match outcome {
                Outcome::Done => {
                    let p = (self.phase + 1) % self.schedule.len();
                    SequencerView {
                        phase: p,
                        cursor: 0,
                        cycles: if p == 0 && self.cycles < u64::MAX {
                            self.cycles + 1
                        } else {
                            self.cycles
                        },
                        ..self
                    }
                },
                Outcome::Failed => SequencerView {
                    fault: Some(Fault::Delay { phase: self.phase as usize }),
                    ..self
                },
            }
        }
    }
}

impl SequencerView {
    /// The phase after the current one, written without `%`.
    proof fn lemma_wrap(self)
        requires
            self.phase < self.schedule.len(),
        ensures
            (self.phase + 1) % self.schedule.len() == if self.phase + 1 < self.schedule.len() {
                self.phase + 1
            } else {
                0
            },
    {
        let len = self.schedule.len();
        if self.phase + 1 < len {
            vstd::arithmetic::div_mod::lemma_small_mod(self.phase + 1, len);
        } else {
            vstd::arithmetic::div_mod::lemma_mod_self_0(len as int);
        }
    }

    /// Every transition keeps the model well formed.
    pub proof fn lemma_next_wf(self, outcome: Outcome)
        requires
            self.wf(),
        ensures
            self.next(outcome).wf(),
            self.next(outcome).schedule == self.schedule,
            self.next(outcome).width() == self.width(),
            self.next(outcome).bank.line_count == self.bank.line_count,
            forall|j: int|
                0 <= j < self.width() ==> (#[trigger] self.next(outcome).bank.actuators[j]).line
                    == self.bank.actuators[j].line,
    {
        let n = self.next(outcome);
        self.lemma_wrap();
        if self.fault is None && self.cursor < self.width() {
            if outcome == Outcome::Done {
                assert forall|j: int| 0 <= j < n.cursor implies n.level(j) == n.current().levels@[j] by {
                    if j < self.cursor {
                        assert(n.level(j) == self.level(j));
                    }
                }
            } else {
                assert forall|j: int| 0 <= j < n.cursor implies n.level(j) == n.current().levels@[j] by {
                    assert(n.level(j) == self.level(j));
                }
            }
        } else if self.fault is None && outcome == Outcome::Failed {
            assert forall|j: int| 0 <= j < n.cursor implies n.level(j) == n.current().levels@[j] by {
                assert(n.level(j) == self.level(j));
            }
        }
    }
}

/// Drives an actuator bank through a schedule, one action at a time.
pub struct Sequencer {
    bank: ActuatorBank,
    schedule: Schedule,
    phase: usize,
    cursor: usize,
    cycles: u64,
    fault: Option<Fault>,
}

impl View for Sequencer {
    type V = SequencerView;

    closed spec fn view(&self) -> SequencerView {
        SequencerView {
            schedule: self.schedule@,
            bank: self.bank@,
            phase: self.phase as nat,
            cursor: self.cursor as nat,
            cycles: self.cycles as nat,
            fault: self.fault,
        }
    }
}

impl Sequencer {
    /// Holds of every sequencer: `new` establishes it and `report` keeps it.
    pub open spec fn wf(&self) -> bool {
        self@.wf()
    }

    /// Takes ownership of `bank` and `schedule`. Every phase must give exactly
    /// one level per output of the bank; the first phase that does not is
    /// reported. The sequencer starts at the first phase, with no output set.
    pub fn new(bank: ActuatorBank, schedule: Schedule) -> (r: Result<Sequencer, ConfigError>)
        ensures
            (r is Ok) <==> fits(schedule@, bank@.actuators.len()),
            match r {
                Ok(s) => s@ == SequencerView::initial(schedule@, bank@) && s.wf(),
                Err(ConfigError::ActuatorMismatch { phase }) => {
                    &&& phase < schedule@.len()
                    &&& schedule@[phase as int].levels@.len() != bank@.actuators.len()
                    &&& forall|q: int|
                        0 <= q < phase ==> (#[trigger] schedule@[q]).levels@.len()
                            == bank@.actuators.len()
                },
            },
    {
        let width = bank.len();
        let n = schedule.len();
        let mut p: usize = 0;
        while p < n
            invariant
                n == schedule@.len(),
                width == bank@.actuators.len(),
                p <= n,
                forall|q: int| 0 <= q < p ==> (#[trigger] schedule@[q]).levels@.len() == width,
            decreases n - p,
        {
            if schedule.phase(p).levels.len() != width {
                return Err(ConfigError::ActuatorMismatch { phase: p });
            }
            p = p + 1;
        }
        Ok(Sequencer { bank, schedule, phase: 0, cursor: 0, cycles: 0, fault: None })
    }

    /// The action the caller must perform next.
    pub fn action(&self) -> (r: Action)
        requires
            self.wf(),
        ensures
            r == self@.action(),
    {
        match self.fault {
            Some(fault) => Action::Halt { fault },
            None => {
                let phase = self.schedule.phase(self.phase);
                if self.cursor < self.bank.len() {
                    Action::Apply {
                        actuator: self.cursor,
                        line: self.bank.actuator(self.cursor).line,
                        level: phase.levels[self.cursor],
                    }
                } else {
                    Action::Hold { hold_us: phase.hold_us }
                }
            },
        }
    }

    /// Reports how the action last returned by `action` went, and moves on.
    /// A completed set records the output's new level; a completed hold
    /// enters the next phase, wrapping to the first after the last. Any
    /// failure halts the sequencer for good, with every output left as it was.
    pub fn report(&mut self, outcome: Outcome)
        requires
            old(self).wf(),
        ensures
            final(self)@ == old(self)@.next(outcome),
            final(self).wf(),
    {
        proof {
            old(self)@.lemma_next_wf(outcome);
            old(self)@.lemma_wrap();
        }
        if self.fault.is_some() {
            return;
        }
        if self.cursor < self.bank.len() {
            match outcome {
                Outcome::Done => {
                    let level = self.schedule.phase(self.phase).levels[self.cursor];
                    self.bank.commit(self.cursor, level);
                    self.cursor = self.cursor + 1;
                    assert(self@.bank.actuators =~= old(self)@.next(outcome).bank.actuators);
                },
                Outcome::Failed => {
                    self.fault = Some(Fault::ActuatorWrite { phase: self.phase, actuator: self.cursor });
                },
            }
        } else {
            match outcome {
                Outcome::Done => {
                    let n = self.schedule.len();
                    let p = if self.phase < n - 1 {
                        self.phase + 1
                    } else {
                        0
                    };
                    if p == 0 && self.cycles < u64::MAX {
                        self.cycles = self.cycles + 1;
                    }
                    self.phase = p;
                    self.cursor = 0;
                },
                Outcome::Failed => {
                    self.fault = Some(Fault::Delay { phase: self.phase });
                },
            }
        }
    }

    pub fn bank(&self) -> (r: &ActuatorBank)
        ensures
            r@ == self@.bank,
    {
        &self.bank
    }

    pub fn schedule(&self) -> (r: &Schedule)
        ensures
            r@ == self@.schedule,
    {
        &self.schedule
    }

    /// Index of the phase being applied or held.
    pub fn phase(&self) -> (r: usize)
        ensures
            r == self@.phase,
    {
        self.phase
    }

    /// How often the schedule wrapped to its first phase.
    pub fn cycles(&self) -> (r: u64)
        ensures
            r == self@.cycles,
    {
        self.cycles
    }

    /// Why the sequencer stopped, if it did.
    pub fn fault(&self) -> (r: Option<Fault>)
        ensures
            r == self@.fault,
    {
        self.fault
    }
}

} // verus!
