use laminator::Level::{Off, On};
use laminator::{
    Action, ActuatorBank, ConfigError, Fault, InitFault, Level, Outcome, Phase, Role, Schedule,
    ScheduleError, Sequencer,
};

const ROLES: [(Role, u8); 6] = [
    (Role::TestIndicator, 8),
    (Role::PumpMain, 9),
    (Role::PumpAux, 10),
    (Role::HeaterLeft, 11),
    (Role::HeaterCenter, 12),
    (Role::HeaterRight, 13),
];

fn full_bank() -> ActuatorBank {
    let mut bank = ActuatorBank::new(30);
    for (i, (role, line)) in ROLES.iter().enumerate() {
        assert_eq!(bank.configure(*role, *line), Ok(i));
    }
    bank
}

fn on_off(hold_us: u32) -> Sequencer {
    let phases = vec![
        Phase::uniform(Level::On, 6, hold_us),
        Phase::uniform(Level::Off, 6, hold_us),
    ];
    let schedule = Schedule::new(phases, 2).unwrap();
    Sequencer::new(full_bank(), schedule).unwrap()
}

fn three_phases() -> Sequencer {
    let phases = vec![
        Phase { levels: vec![On, On, On, On, On, On], hold_us: 1_000 },
        Phase { levels: vec![Off, On, Off, On, Off, On], hold_us: 2_000 },
        Phase { levels: vec![On, Off, On, Off, On, Off], hold_us: 3_000 },
    ];
    Sequencer::new(full_bank(), Schedule::new(phases, 2).unwrap()).unwrap()
}

fn levels(s: &Sequencer) -> Vec<Level> {
    (0..s.bank().len()).map(|i| s.bank().actuator(i).level).collect()
}

/// Runs with every action succeeding until `elapsed_us` of holds have passed;
/// returns each set performed as (actuator, line, level).
fn run_for(s: &mut Sequencer, elapsed_us: u64) -> Vec<(usize, u8, Level)> {
    let mut sets = Vec::new();
    let mut now: u64 = 0;
    while now < elapsed_us {
        match s.action() {
            Action::Apply { actuator, line, level } => sets.push((actuator, line, level)),
            Action::Hold { hold_us } => now += hold_us as u64,
            Action::Halt { .. } => panic!("halted without a fault"),
        }
        s.report(Outcome::Done);
    }
    sets
}

#[test]
fn two_cycles_set_each_actuator_four_times_in_order() {
    let mut s = on_off(50_000);
    let sets = run_for(&mut s, 200_000);
    assert_eq!(sets.len(), 24);
    for (k, (actuator, line, level)) in sets.iter().enumerate() {
        assert_eq!(*actuator, k % 6);
        assert_eq!(*line, ROLES[k % 6].1);
        let expected = if (k / 6) % 2 == 0 { Level::On } else { Level::Off };
        assert_eq!(*level, expected);
    }
    for a in 0..6 {
        let on = sets.iter().filter(|x| x.0 == a && x.2 == Level::On).count();
        let off = sets.iter().filter(|x| x.0 == a && x.2 == Level::Off).count();
        assert_eq!((on, off), (2, 2));
    }
    assert_eq!(s.cycles(), 2);
    assert_eq!(s.phase(), 0);
}

#[test]
fn phases_are_visited_in_order_and_wrap() {
    let mut s = three_phases();
    let mut held = Vec::new();
    while held.len() < 10 {
        if let Action::Hold { hold_us } = s.action() {
            held.push((s.phase(), hold_us));
        }
        s.report(Outcome::Done);
    }
    for (i, (phase, hold_us)) in held.iter().enumerate() {
        assert_eq!(*phase, i % 3);
        assert_eq!(*hold_us, [1_000, 2_000, 3_000][i % 3]);
    }
    assert_eq!(s.cycles(), 3);
}

#[test]
fn first_phase_is_applied_at_once() {
    let s = three_phases();
    assert_eq!(s.phase(), 0);
    assert_eq!(s.fault(), None);
    assert_eq!(s.action(), Action::Apply { actuator: 0, line: 8, level: Level::On });
}

#[test]
fn every_level_is_applied_before_the_hold() {
    let mut s = three_phases();
    for _ in 0..40 {
        if let Action::Hold { .. } = s.action() {
            let phase = s.schedule().phase(s.phase()).levels.clone();
            assert_eq!(levels(&s), phase);
        }
        s.report(Outcome::Done);
    }
}

#[test]
fn on_off_levels_sampled_inside_holds() {
    let mut s = on_off(50_000);
    let mut holds = 0;
    while holds < 6 {
        if let Action::Hold { hold_us } = s.action() {
            assert_eq!(hold_us, 50_000);
            let expected = if holds % 2 == 0 { Level::On } else { Level::Off };
            assert_eq!(levels(&s), vec![expected; 6]);
            holds += 1;
        }
        s.report(Outcome::Done);
    }
}

#[test]
fn write_fault_in_phase_one_halts_there() {
    let mut s = three_phases();
    // Phase 0, then phase 1 up to its last output, whose set fails.
    for _ in 0..(7 + 5) {
        s.report(Outcome::Done);
    }
    assert_eq!(s.phase(), 1);
    assert_eq!(s.action(), Action::Apply { actuator: 5, line: 13, level: Level::On });
    s.report(Outcome::Failed);
    let halted = Fault::ActuatorWrite { phase: 1, actuator: 5 };
    assert_eq!(s.fault(), Some(halted));
    for _ in 0..20 {
        assert_eq!(s.action(), Action::Halt { fault: halted });
        s.report(Outcome::Done);
        assert_eq!(s.phase(), 1);
    }
    let phase_one = [Level::Off, Level::On, Level::Off, Level::On, Level::Off];
    assert_eq!(&levels(&s)[..5], &phase_one);
    // The failing output keeps what phase 0 gave it.
    assert_eq!(levels(&s)[5], Level::On);
}

#[test]
fn write_fault_midway_leaves_later_outputs_untouched() {
    let mut s = three_phases();
    for _ in 0..(7 + 2) {
        s.report(Outcome::Done);
    }
    s.report(Outcome::Failed);
    assert_eq!(s.fault(), Some(Fault::ActuatorWrite { phase: 1, actuator: 2 }));
    assert_eq!(levels(&s), vec![Off, On, On, On, On, On]);
}

#[test]
fn delay_fault_halts_before_next_phase() {
    let mut s = three_phases();
    for _ in 0..6 {
        s.report(Outcome::Done);
    }
    assert_eq!(s.action(), Action::Hold { hold_us: 1_000 });
    s.report(Outcome::Failed);
    assert_eq!(s.fault(), Some(Fault::Delay { phase: 0 }));
    for _ in 0..10 {
        s.report(Outcome::Done);
    }
    assert_eq!(s.action(), Action::Halt { fault: Fault::Delay { phase: 0 } });
    assert_eq!(s.phase(), 0);
    assert_eq!(levels(&s), vec![Level::On; 6]);
    assert_eq!(s.cycles(), 0);
}

#[test]
fn hold_at_minimum_is_accepted() {
    let phases = vec![Phase::uniform(Level::On, 6, 5), Phase::uniform(Level::Off, 6, 7)];
    let schedule = Schedule::new(phases, 5).unwrap();
    assert_eq!(schedule.len(), 2);
    assert_eq!(schedule.min_hold_us(), 5);
    assert!(Sequencer::new(full_bank(), schedule).is_ok());
}

#[test]
fn hold_below_minimum_is_rejected() {
    let phases = vec![
        Phase::uniform(Level::On, 6, 5),
        Phase::uniform(Level::Off, 6, 4),
        Phase::uniform(Level::On, 6, 3),
    ];
    assert_eq!(Schedule::new(phases, 5).err(), Some(ScheduleError::HoldTooShort { phase: 1 }));
}

#[test]
fn zero_hold_is_rejected_even_without_minimum() {
    let phases = vec![Phase::uniform(Level::On, 6, 0)];
    assert_eq!(Schedule::new(phases, 0).err(), Some(ScheduleError::HoldTooShort { phase: 0 }));
}

#[test]
fn empty_schedule_is_rejected() {
    assert_eq!(Schedule::new(Vec::new(), 1).err(), Some(ScheduleError::Empty));
}

#[test]
fn phase_with_wrong_width_is_rejected() {
    let phases = vec![Phase::uniform(Level::On, 6, 10), Phase::uniform(Level::Off, 5, 10)];
    let schedule = Schedule::new(phases, 1).unwrap();
    assert_eq!(
        Sequencer::new(full_bank(), schedule).err(),
        Some(ConfigError::ActuatorMismatch { phase: 1 })
    );
}

#[test]
fn configure_refuses_missing_and_taken_lines() {
    let mut bank = ActuatorBank::new(30);
    assert_eq!(bank.configure(Role::PumpMain, 9), Ok(0));
    assert_eq!(bank.configure(Role::PumpAux, 30), Err(InitFault::LineUnavailable { line: 30 }));
    assert_eq!(bank.configure(Role::PumpAux, 9), Err(InitFault::LineInUse { line: 9 }));
    assert_eq!(bank.configure(Role::PumpAux, 29), Ok(1));
    assert_eq!(bank.len(), 2);
    let a = bank.actuator(1);
    assert_eq!((a.role, a.line, a.level), (Role::PumpAux, 29, Level::Off));
}

#[test]
fn uniform_phase_repeats_level() {
    let p = Phase::uniform(Level::Off, 4, 123);
    assert_eq!(p.levels, vec![Level::Off; 4]);
    assert_eq!(p.hold_us, 123);
    assert!(Phase::uniform(Level::On, 0, 1).levels.is_empty());
}

#[test]
fn empty_bank_only_holds() {
    let phases = vec![Phase::uniform(Level::On, 0, 10), Phase::uniform(Level::Off, 0, 20)];
    let mut s = Sequencer::new(ActuatorBank::new(30), Schedule::new(phases, 1).unwrap()).unwrap();
    assert_eq!(s.action(), Action::Hold { hold_us: 10 });
    s.report(Outcome::Done);
    assert_eq!(s.action(), Action::Hold { hold_us: 20 });
    s.report(Outcome::Done);
    assert_eq!(s.cycles(), 1);
}
