use vstd::prelude::*;
use crate::actuator::{BankView, Level};
use crate::schedule::Phase;
use crate::sequencer::{Action, Fault, Outcome, SequencerView};

verus! {

/// The state reached from `m` after `k` actions in a row that all succeed.
pub open spec fn run_ok(m: SequencerView, k: nat) -> SequencerView
    decreases k,
{
    if k == 0 {
        m
    } else {
        run_ok(m, (k - 1) as nat).next(Outcome::Done)
    }
}

/// The state reached from `m` after reporting `outcomes`, in order.
pub open spec fn run(m: SequencerView, outcomes: Seq<Outcome>) -> SequencerView
    decreases outcomes.len(),
{
    if outcomes.len() == 0 {
        m
    } else {
        run(m, outcomes.drop_last()).next(outcomes.last())
    }
}

/// `phase` drives each of `width` outputs to `level`.
pub open spec fn all_at(phase: Phase, width: nat, level: Level) -> bool {
    &&& phase.levels@.len() == width
    &&& forall|j: int| 0 <= j < width ==> phase.levels@[j] == level
}

proof fn lemma_run_ok_wf(m: SequencerView, k: nat)
    requires
        m.wf(),
    ensures
        run_ok(m, k).wf(),
        run_ok(m, k).schedule == m.schedule,
        run_ok(m, k).width() == m.width(),
        run_ok(m, k).bank.line_count == m.bank.line_count,
        forall|j: int|
            0 <= j < m.width() ==> (#[trigger] run_ok(m, k).bank.actuators[j]).line
                == m.bank.actuators[j].line,
    decreases k,
{
    if k > 0 {
        let prev = run_ok(m, (k - 1) as nat);
        lemma_run_ok_wf(m, (k - 1) as nat);
        prev.lemma_next_wf(Outcome::Done);
        assert forall|j: int| 0 <= j < m.width() implies (#[trigger] run_ok(m, k).bank.actuators[j]).line
            == m.bank.actuators[j].line by {
            assert(prev.next(Outcome::Done).bank.actuators[j].line == prev.bank.actuators[j].line);
        }
    }
}

proof fn lemma_run_ok_split(m: SequencerView, a: nat, b: nat)
    ensures
        run_ok(m, a + b) == run_ok(run_ok(m, a), b),
    decreases b,
{
    if b > 0 {
        lemma_run_ok_split(m, a, (b - 1) as nat);
        assert((a + b - 1) as nat == a + (b - 1) as nat);
    }
}

/// Applying a phase: `c` successful sets from the start of a phase set the
/// first `c` outputs and stay in that phase.
proof fn lemma_apply(m: SequencerView, c: nat)
    requires
        m.wf(),
        m.fault is None,
        m.cursor == 0,
        c <= m.width(),
    ensures
        run_ok(m, c).phase == m.phase,
        run_ok(m, c).cursor == c,
        run_ok(m, c).fault is None,
    decreases c,
{
    if c > 0 {
        lemma_apply(m, (c - 1) as nat);
        lemma_run_ok_wf(m, (c - 1) as nat);
    }
}

/// A whole phase: all sets and the hold succeed, and the next phase starts.
proof fn lemma_one_phase(m: SequencerView)
    requires
        m.wf(),
        m.fault is None,
        m.cursor == 0,
    ensures
        run_ok(m, m.width() + 1).phase == (m.phase + 1) % m.schedule.len(),
        run_ok(m, m.width() + 1).cursor == 0,
        run_ok(m, m.width() + 1).fault is None,
{
    lemma_apply(m, m.width());
    lemma_run_ok_wf(m, m.width());
}

proof fn lemma_phases(m: SequencerView, i: nat)
    requires
        m.wf(),
        m.fault is None,
        m.cursor == 0,
    ensures
        run_ok(m, i * (m.width() + 1)).phase == (m.phase + i) % m.schedule.len(),
        run_ok(m, i * (m.width() + 1)).cursor == 0,
        run_ok(m, i * (m.width() + 1)).fault is None,
    decreases i,
{
    let w = m.width() + 1;
    let len = m.schedule.len();
    if i == 0 {
        assert(i * w == 0) by (nonlinear_arith)
            requires
                i == 0,
        ;
        vstd::arithmetic::div_mod::lemma_small_mod(m.phase, len);
    } else {
        let k = ((i - 1) as nat) * w;
        lemma_phases(m, (i - 1) as nat);
        let mid = run_ok(m, k);
        lemma_run_ok_wf(m, k);
        lemma_one_phase(mid);
        assert(i * w == k + w) by (nonlinear_arith)
            requires
                k == (i - 1) * w,
                i > 0,
        ;
        lemma_run_ok_split(m, k, w);
        assert(run_ok(m, i * w) == run_ok(mid, mid.width() + 1));
        vstd::arithmetic::div_mod::lemma_add_mod_noop_right(1, m.phase + i - 1, len as int);
        assert((m.phase + i - 1) + 1 == m.phase + i);
    }
}

/// Phases are visited in the order of the schedule and wrap from the last to
/// the first without end: the `i`-th phase entered is `schedule[i % len]`.
pub proof fn lemma_phase_order(schedule: Seq<Phase>, bank: BankView, i: nat)
    requires
        SequencerView::initial(schedule, bank).wf(),
    ensures
        ({
            let m = run_ok(SequencerView::initial(schedule, bank), i * (bank.actuators.len() + 1));
            &&& m.phase == i % schedule.len()
            &&& m.current() == schedule[(i % schedule.len()) as int]
            &&& m.cursor == 0
            &&& m.fault is None
        }),
{
    lemma_phases(SequencerView::initial(schedule, bank), i);
    lemma_run_ok_wf(SequencerView::initial(schedule, bank), i * (bank.actuators.len() + 1));
}

proof fn lemma_run_wf(m: SequencerView, outcomes: Seq<Outcome>)
    requires
        m.wf(),
    ensures
        run(m, outcomes).wf(),
    decreases outcomes.len(),
{
    if outcomes.len() > 0 {
        lemma_run_wf(m, outcomes.drop_last());
        run(m, outcomes.drop_last()).lemma_next_wf(outcomes.last());
    }
}

/// Whatever happened before, whenever a hold is asked for, every output
/// already stands at the level the current phase commands.
pub proof fn lemma_applied_before_hold(schedule: Seq<Phase>, bank: BankView, outcomes: Seq<Outcome>)
    requires
        SequencerView::initial(schedule, bank).wf(),
    ensures
        ({
            let m = run(SequencerView::initial(schedule, bank), outcomes);
            m.action() is Hold ==> forall|j: int|
                0 <= j < m.width() ==> m.level(j) == m.current().levels@[j]
        }),
{
    lemma_run_wf(SequencerView::initial(schedule, bank), outcomes);
}

/// While the `i`-th phase entered is held, every output stands at the level
/// that phase commands, and the hold asked for is that phase's.
pub proof fn lemma_hold_levels(schedule: Seq<Phase>, bank: BankView, i: nat)
    requires
        SequencerView::initial(schedule, bank).wf(),
    ensures
        ({
            let w = bank.actuators.len();
            let p = schedule[(i % schedule.len()) as int];
            let m = run_ok(SequencerView::initial(schedule, bank), i * (w + 1) + w);
            &&& m.action() == (Action::Hold { hold_us: p.hold_us })
            &&& forall|j: int| 0 <= j < w ==> m.level(j) == p.levels@[j]
        }),
{
    let init = SequencerView::initial(schedule, bank);
    let w = bank.actuators.len();
    lemma_phase_order(schedule, bank, i);
    let start = run_ok(init, i * (w + 1));
    lemma_run_ok_wf(init, i * (w + 1));
    lemma_apply(start, w);
    lemma_run_ok_split(init, i * (w + 1), w);
    lemma_run_ok_wf(start, w);
}

/// Within every phase the outputs are set one at a time in bank order: the
/// `c`-th action of the `i`-th phase entered drives output `c`, on its own
/// line, to the level that phase commands for it.
pub proof fn lemma_set_order(schedule: Seq<Phase>, bank: BankView, i: nat, c: nat)
    requires
        SequencerView::initial(schedule, bank).wf(),
        c < bank.actuators.len(),
    ensures
        ({
            let w = bank.actuators.len();
            let p = schedule[(i % schedule.len()) as int];
            run_ok(SequencerView::initial(schedule, bank), i * (w + 1) + c).action() == (Action::Apply {
                actuator: c as usize,
                line: bank.actuators[c as int].line,
                level: p.levels@[c as int],
            })
        }),
{
    let init = SequencerView::initial(schedule, bank);
    let w = bank.actuators.len();
    lemma_phase_order(schedule, bank, i);
    let start = run_ok(init, i * (w + 1));
    lemma_run_ok_wf(init, i * (w + 1));
    lemma_apply(start, c);
    lemma_run_ok_split(init, i * (w + 1), c);
    lemma_run_ok_wf(start, c);
    assert(run_ok(start, c).bank.actuators[c as int].line == start.bank.actuators[c as int].line);
}

/// With an ON phase and an OFF phase over the whole bank, sampling the
/// outputs while a phase is held gives that phase's level on every output:
/// ON during every even hold, OFF during every odd one.
pub proof fn lemma_on_off(schedule: Seq<Phase>, bank: BankView, i: nat)
    requires
        SequencerView::initial(schedule, bank).wf(),
        schedule.len() == 2,
        all_at(schedule[0], bank.actuators.len(), Level::On),
        all_at(schedule[1], bank.actuators.len(), Level::Off),
    ensures
        ({
            let w = bank.actuators.len();
            let m = run_ok(SequencerView::initial(schedule, bank), i * (w + 1) + w);
            forall|j: int|
                0 <= j < w ==> m.level(j) == if i % 2 == 0 {
                    Level::On
                } else {
                    Level::Off
                }
        }),
{
    lemma_hold_levels(schedule, bank, i);
}

/// A halted sequencer never changes again, whatever is reported to it.
pub proof fn lemma_halt_is_final(m: SequencerView, outcomes: Seq<Outcome>)
    requires
        m.fault is Some,
    ensures
        run(m, outcomes) == m,
        run(m, outcomes).action() == (Action::Halt { fault: m.fault.unwrap() }),
    decreases outcomes.len(),
{
    if outcomes.len() > 0 {
        lemma_halt_is_final(m, outcomes.drop_last());
    }
}

/// A failed set halts the sequencer in the phase it was applying: the phase
/// never advances, and every output keeps the level it had, the ones already
/// set in this phase at this phase's level.
pub proof fn lemma_write_fault(m: SequencerView, outcomes: Seq<Outcome>)
    requires
        m.wf(),
        m.action() is Apply,
    ensures
        ({
            let h = run(m.next(Outcome::Failed), outcomes);
            &&& h.fault == Some(Fault::ActuatorWrite { phase: m.phase as usize, actuator: m.cursor as usize })
            &&& h.phase == m.phase
            &&& h.bank == m.bank
            &&& forall|j: int| 0 <= j < m.cursor ==> h.level(j) == m.current().levels@[j]
        }),
{
    lemma_halt_is_final(m.next(Outcome::Failed), outcomes);
    let h = run(m.next(Outcome::Failed), outcomes);
    assert forall|j: int| 0 <= j < m.cursor implies h.level(j) == m.current().levels@[j] by {
        assert(h.level(j) == m.level(j));
    }
}

/// A failed hold halts the sequencer before anything of the next phase is
/// applied: every output keeps the level of the phase that was held.
pub proof fn lemma_delay_fault(m: SequencerView, outcomes: Seq<Outcome>)
    requires
        m.wf(),
        m.action() is Hold,
    ensures
        ({
            let h = run(m.next(Outcome::Failed), outcomes);
            &&& h.fault == Some(Fault::Delay { phase: m.phase as usize })
            &&& h.phase == m.phase
            &&& h.bank == m.bank
            &&& forall|j: int| 0 <= j < m.width() ==> h.level(j) == m.current().levels@[j]
        }),
{
    lemma_halt_is_final(m.next(Outcome::Failed), outcomes);
    let h = run(m.next(Outcome::Failed), outcomes);
    assert forall|j: int| 0 <= j < m.width() implies h.level(j) == m.current().levels@[j] by {
        assert(h.level(j) == m.level(j));
    }
}

} // verus!
