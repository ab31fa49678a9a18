use vstd::prelude::*;
use crate::actuator::Level;

verus! {

/// One step of a schedule: the level for each output of the bank, in bank
/// order, and how long to hold them once all are applied, in microseconds.
#[derive(Debug)]
pub struct Phase {
    pub levels: Vec<Level>,
    pub hold_us: u32,
}

impl Phase {
    /// A phase that drives all `count` outputs to the same `level`.
    pub fn uniform(level: Level, count: usize, hold_us: u32) -> (r: Phase)
        ensures
            r.hold_us == hold_us,
            r.levels@ == Seq::new(count as nat, |_i: int| level),
    {
        let mut levels: Vec<Level> = Vec::new();
        let mut i: usize = 0;
        while i < count
            invariant
                i <= count,
                levels@ == Seq::new(i as nat, |_i: int| level),
            decreases count - i,
        {
            levels.push(level);
            i = i + 1;
            assert(levels@ =~= Seq::new(i as nat, |_i: int| level));
        }
        Phase { levels, hold_us }
    }
}

/// Why a list of phases cannot be used as a schedule.
#[derive(Clone, Copy, Debug, PartialEq, Eq, Structural)]
pub enum ScheduleError {
    /// A schedule needs at least one phase.
    Empty,
    /// The phase at this position holds for less than the delay provider can
    /// reliably wait (or for no time at all).
    HoldTooShort { phase: usize },
}

/// A hold of `hold_us` can be waited out by a provider whose shortest
/// reliable delay is `min_hold_us`.
pub open spec fn holdable(hold_us: u32, min_hold_us: u32) -> bool {
    hold_us > 0 && hold_us >= min_hold_us
}

/// A non-empty, cyclic list of phases, each holdable by the delay provider it
/// was checked against.
pub struct Schedule {
    phases: Vec<Phase>,
    min_hold_us: u32,
}

impl View for Schedule {
    type V = Seq<Phase>;

    closed spec fn view(&self) -> Seq<Phase> {
        self.phases@
    }
}

impl Schedule {
    #[verifier::type_invariant]
    spec fn inv(&self) -> bool {
        &&& self.phases@.len() > 0
        &&& forall|i: int|
            0 <= i < self.phases@.len() ==> holdable(#[trigger] self.phases@[i].hold_us, self.min_hold_us)
    }

    /// The shortest hold this schedule was checked against.
    pub closed spec fn min_hold(&self) -> u32 {
        self.min_hold_us
    }

    /// Checks `phases` against a delay provider whose shortest reliable wait is
    /// `min_hold_us`. The list must be non-empty, and every hold must be
    /// non-zero and at least `min_hold_us`; a hold exactly at the minimum is
    /// accepted. The first offending phase is reported.
    pub fn new(phases: Vec<Phase>, min_hold_us: u32) -> (r: Result<Schedule, ScheduleError>)
        ensures
            (r is Ok) <==> (phases@.len() > 0 && forall|i: int|
                0 <= i < phases@.len() ==> holdable(#[trigger] phases@[i].hold_us, min_hold_us)),
            phases@.len() == 0 ==> r == Err::<Schedule, ScheduleError>(ScheduleError::Empty),
            match r {
                Ok(s) => s@ == phases@ && s.min_hold() == min_hold_us,
                Err(ScheduleError::Empty) => phases@.len() == 0,
                Err(ScheduleError::HoldTooShort { phase }) => {
                    &&& phase < phases@.len()
                    &&& !holdable(phases@[phase as int].hold_us, min_hold_us)
                    &&& forall|j: int| 0 <= j < phase ==> holdable(#[trigger] phases@[j].hold_us, min_hold_us)
                },
            },
    {
        if phases.len() == 0 {
            return Err(ScheduleError::Empty);
        }
        let mut i: usize = 0;
        while i < phases.len()
            invariant
                i <= phases@.len(),
                forall|j: int| 0 <= j < i ==> holdable(#[trigger] phases@[j].hold_us, min_hold_us),
            decreases phases@.len() - i,
        {
            let hold_us = phases[i].hold_us;
            if hold_us == 0 || hold_us < min_hold_us {
                return Err(ScheduleError::HoldTooShort { phase: i });
            }
            i = i + 1;
        }
        Ok(Schedule { phases, min_hold_us })
    }

    /// Number of phases; never zero.
    pub fn len(&self) -> (r: usize)
        ensures
            r == self@.len(),
            r > 0,
    {
        proof {
            use_type_invariant(self);
        }
        self.phases.len()
    }

    pub fn phase(&self, i: usize) -> (r: &Phase)
        requires
            i < self@.len(),
        ensures
            *r == self@[i as int],
            holdable(r.hold_us, self.min_hold()),
    {
        proof {
            use_type_invariant(self);
        }
        &self.phases[i]
    }

    /// The shortest hold this schedule was checked against.
    pub fn min_hold_us(&self) -> (r: u32)
        ensures
            r == self.min_hold(),
    {
        self.min_hold_us
    }
}

} // verus!
