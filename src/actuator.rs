use vstd::prelude::*;

verus! {

/// Logical level of a digital output.
#[derive(Clone, Copy, Debug, PartialEq, Eq, Structural)]
pub enum Level {
    Off,
    On,
}

/// What an output does on the machine.
#[derive(Clone, Copy, Debug, PartialEq, Eq, Structural)]
pub enum Role {
    TestIndicator,
    PumpMain,
    PumpAux,
    HeaterLeft,
    HeaterCenter,
    HeaterRight,
}

/// An output bound to a physical line, with the level last applied to it.
#[derive(Clone, Copy, Debug, PartialEq, Eq, Structural)]
pub struct Actuator {
    pub role: Role,
    pub line: u8,
    pub level: Level,
}

/// Why an output could not be bound at start-up.
#[derive(Clone, Copy, Debug, PartialEq, Eq, Structural)]
pub enum InitFault {
    /// The board has no such line.
    LineUnavailable { line: u8 },
    /// Another output already holds the line.
    LineInUse { line: u8 },
}

/// The set of outputs, in the fixed order in which they are driven.
pub struct ActuatorBank {
    line_count: u8,
    actuators: Vec<Actuator>,
}

/// Model of a bank: how many lines the board offers, and the bound outputs.
pub struct BankView {
    pub line_count: nat,
    pub actuators: Seq<Actuator>,
}

/// Some output of `actuators` is bound to `line`.
pub open spec fn line_bound(actuators: Seq<Actuator>, line: u8) -> bool {
    exists|i: int| 0 <= i < actuators.len() && actuators[i].line == line
}

impl View for ActuatorBank {
    type V = BankView;

    closed spec fn view(&self) -> BankView {
        BankView { line_count: self.line_count as nat, actuators: self.actuators@ }
    }
}

impl ActuatorBank {
    /// An empty bank over a board with lines `0..line_count`.
    pub fn new(line_count: u8) -> (r: Self)
        ensures
            r@.line_count == line_count,
            r@.actuators == Seq::<Actuator>::empty(),
    {
        ActuatorBank { line_count, actuators: Vec::new() }
    }

    pub fn len(&self) -> (r: usize)
        ensures
            r == self@.actuators.len(),
    {
        self.actuators.len()
    }

    pub fn actuator(&self, id: usize) -> (r: Actuator)
        requires
            id < self@.actuators.len(),
        ensures
            r == self@.actuators[id as int],
    {
        self.actuators[id]
    }

    /// Binds `role` to `line` and returns the new output's position in the
    /// bank. The output starts `Off`. A line past the board's last one, or one
    /// that is already bound, is refused and the bank is left as it was.
    pub fn configure(&mut self, role: Role, line: u8) -> (r: Result<usize, InitFault>)
        ensures
            line >= old(self)@.line_count ==> r == Err::<usize, InitFault>(
                InitFault::LineUnavailable { line },
            ),
            line < old(self)@.line_count && line_bound(old(self)@.actuators, line) ==> r == Err::<
                usize,
                InitFault,
            >(InitFault::LineInUse { line }),
            line < old(self)@.line_count && !line_bound(old(self)@.actuators, line) ==> r == Ok::<
                usize,
                InitFault,
            >(old(self)@.actuators.len() as usize),
            r is Ok ==> final(self)@.actuators == old(self)@.actuators.push(
                (Actuator { role, line, level: Level::Off }),
            ),
            r is Err ==> final(self)@.actuators == old(self)@.actuators,
            final(self)@.line_count == old(self)@.line_count,
    {
        if line >= self.line_count {
            return Err(InitFault::LineUnavailable { line });
        }
        let mut i: usize = 0;
        while i < self.actuators.len()
            invariant
                *self == *old(self),
                line < self.line_count,
                i <= self.actuators@.len(),
                forall|j: int| 0 <= j < i ==> self.actuators@[j].line != line,
            decreases self.actuators@.len() - i,
        {
            if self.actuators[i].line == line {
                return Err(InitFault::LineInUse { line });
            }
            i = i + 1;
        }
        let id = self.actuators.len();
        self.actuators.push(Actuator { role, line, level: Level::Off });
        Ok(id)
    }

    /// Records that output `id` now stands at `level`.
    pub(crate) fn commit(&mut self, id: usize, level: Level)
        requires
            id < old(self)@.actuators.len(),
        ensures
            final(self)@.line_count == old(self)@.line_count,
            final(self)@.actuators == old(self)@.actuators.update(
                id as int,
                (Actuator { level, ..old(self)@.actuators[id as int] }),
            ),
    {
        let a = self.actuators[id];
        self.actuators.set(id, Actuator { level, ..a });
    }
}

} // verus!
