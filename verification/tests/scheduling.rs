use timer_trigger::build_scheduler;
use timer_trigger::config::{RegistryEntry, TimerTriggerConfig, TriggerRegistry};
use timer_trigger::errors::ConfigurationError;
use timer_trigger::process::{ProcessAction, ProcessEvent, ProcessState, ShutdownCoordinator};
use timer_trigger::scheduler::{
    Scheduler, TickOutcome, UnitAction, UnitEvent, UnitPhase,
};

fn cfg(component: &str, interval_secs: &str) -> TimerTriggerConfig {
    TimerTriggerConfig {
        component: component.to_string(),
        interval_secs: interval_secs.to_string(),
    }
}

fn finished(outcome: TickOutcome) -> UnitEvent {
    UnitEvent::InvocationFinished { outcome }
}

#[test]
fn one_loop_per_registered_component() {
    let configs = vec![cfg("a", "1"), cfg("b", "2"), cfg("c", "3")];
    let sched = build_scheduler(&configs, &None).unwrap();
    assert_eq!(sched.units.len(), 3);
    for (unit, config) in sched.units.iter().zip(configs.iter()) {
        assert_eq!(unit.component, config.component);
        assert!(matches!(unit.phase, UnitPhase::Invoking));
    }
    assert_eq!(sched.units[0].interval_ms, 1000);
    assert_eq!(sched.units[1].interval_ms, 2000);
    assert_eq!(sched.units[2].interval_ms, 3000);
}

#[test]
fn speedup_halves_one_interval_and_leaves_another_whole() {
    // interval 10s at speedup 2 ticks every 5s; the same interval at
    // speedup 1 ticks every 10s.
    let halved = build_scheduler(&vec![cfg("a", "10")], &Some("2".to_string())).unwrap();
    let whole = build_scheduler(&vec![cfg("a", "10")], &None).unwrap();
    assert_eq!(halved.units[0].interval_ms, 5000);
    assert_eq!(whole.units[0].interval_ms, 10000);
}

#[test]
fn invalid_speedup_aborts_startup() {
    let configs = vec![cfg("a", "10")];
    assert!(matches!(
        build_scheduler(&configs, &Some("zero".to_string())),
        Err(ConfigurationError::InvalidSpeedup)
    ));
    assert!(matches!(
        build_scheduler(&configs, &Some("0".to_string())),
        Err(ConfigurationError::InvalidSpeedup)
    ));
}

#[test]
fn empty_or_malformed_registry_fails_before_any_loop() {
    assert!(matches!(
        build_scheduler(&Vec::new(), &None),
        Err(ConfigurationError::EmptyRegistry)
    ));
    assert!(matches!(
        build_scheduler(&vec![cfg("a", "0")], &None),
        Err(ConfigurationError::InvalidInterval { .. })
    ));
    assert!(matches!(
        build_scheduler(&vec![cfg("a", "soon")], &None),
        Err(ConfigurationError::InvalidInterval { .. })
    ));
}

#[test]
fn scheduler_refuses_a_registry_with_a_zero_interval() {
    let registry = TriggerRegistry {
        entries: vec![
            RegistryEntry {
                component: "a".to_string(),
                interval_ms: 1000,
            },
            RegistryEntry {
                component: "b".to_string(),
                interval_ms: 0,
            },
        ],
    };
    assert!(matches!(
        Scheduler::new(&registry),
        Err(ConfigurationError::ZeroEffectiveInterval { component }) if component == "b"
    ));
}

#[test]
fn a_loop_alternates_invoking_and_sleeping() {
    let mut sched = build_scheduler(&vec![cfg("a", "10")], &Some("2".to_string())).unwrap();
    // The first tick is owed at startup; when it finishes, the loop waits
    // out exactly the effective interval, then ticks again.
    let a = sched.step_unit(0, finished(TickOutcome::Success));
    assert_eq!(a, Some(UnitAction::StartSleep { millis: 5000 }));
    assert!(matches!(sched.units[0].phase, UnitPhase::Sleeping));
    let a = sched.step_unit(0, UnitEvent::SleepElapsed);
    assert_eq!(a, Some(UnitAction::StartInvocation));
    assert!(matches!(sched.units[0].phase, UnitPhase::Invoking));
    let a = sched.step_unit(0, finished(TickOutcome::Success));
    assert_eq!(a, Some(UnitAction::StartSleep { millis: 5000 }));
}

#[test]
fn a_failed_tick_halts_only_its_own_loop() {
    let mut sched = build_scheduler(&vec![cfg("a", "10"), cfg("b", "10")], &None).unwrap();
    // Component a's tick fails: its loop halts and commands nothing more.
    let a = sched.step_unit(0, finished(TickOutcome::InvocationFailure));
    assert_eq!(a, None);
    assert!(matches!(sched.units[0].phase, UnitPhase::Halted));
    let a = sched.step_unit(0, UnitEvent::SleepElapsed);
    assert_eq!(a, None);
    // Component b's loop is untouched and keeps its schedule.
    assert!(matches!(sched.units[1].phase, UnitPhase::Invoking));
    let b = sched.step_unit(1, finished(TickOutcome::Success));
    assert_eq!(b, Some(UnitAction::StartSleep { millis: 10000 }));
    let b = sched.step_unit(1, UnitEvent::SleepElapsed);
    assert_eq!(b, Some(UnitAction::StartInvocation));
}

#[test]
fn instance_failure_halts_the_loop_like_an_invocation_failure() {
    let mut sched = build_scheduler(&vec![cfg("a", "10")], &None).unwrap();
    let a = sched.step_unit(0, finished(TickOutcome::InstanceFailure));
    assert_eq!(a, None);
    assert!(matches!(sched.units[0].phase, UnitPhase::Halted));
}

#[test]
fn two_speeds_run_side_by_side_without_interfering() {
    // One component ticking at 5s and one at 10s, stepped interleaved:
    // each answers its own events with its own interval, whatever the
    // other is doing.
    let configs = vec![cfg("fast", "10"), cfg("slow", "20")];
    let mut sched = build_scheduler(&configs, &Some("2".to_string())).unwrap();
    assert_eq!(
        sched.step_unit(0, finished(TickOutcome::Success)),
        Some(UnitAction::StartSleep { millis: 5000 })
    );
    assert_eq!(
        sched.step_unit(1, finished(TickOutcome::Success)),
        Some(UnitAction::StartSleep { millis: 10000 })
    );
    // The fast loop's wait elapses while the slow one still sleeps.
    assert_eq!(
        sched.step_unit(0, UnitEvent::SleepElapsed),
        Some(UnitAction::StartInvocation)
    );
    assert!(matches!(sched.units[1].phase, UnitPhase::Sleeping));
    assert_eq!(
        sched.step_unit(0, finished(TickOutcome::Success)),
        Some(UnitAction::StartSleep { millis: 5000 })
    );
    assert_eq!(
        sched.step_unit(1, UnitEvent::SleepElapsed),
        Some(UnitAction::StartInvocation)
    );
}

#[test]
fn interrupt_terminates_and_silences_every_loop() {
    let sched = build_scheduler(&vec![cfg("a", "10"), cfg("b", "20")], &None).unwrap();
    let mut process = ProcessState::new(sched);
    assert!(!process.shutdown.fired);
    // A loop event before the interrupt is answered normally.
    let a = process.step(ProcessEvent::ForUnit {
        index: 0,
        event: finished(TickOutcome::Success),
    });
    assert_eq!(
        a,
        Some(ProcessAction::ForUnit {
            index: 0,
            action: UnitAction::StartSleep { millis: 10000 },
        })
    );
    // The interrupt commands immediate termination.
    let a = process.step(ProcessEvent::Interrupt);
    assert_eq!(a, Some(ProcessAction::Terminate));
    assert!(process.shutdown.fired);
    // After termination no event moves anything and no tick is commanded.
    let a = process.step(ProcessEvent::ForUnit {
        index: 0,
        event: UnitEvent::SleepElapsed,
    });
    assert_eq!(a, None);
    let a = process.step(ProcessEvent::ForUnit {
        index: 1,
        event: finished(TickOutcome::Success),
    });
    assert_eq!(a, None);
    // A second signal has no additional effect.
    let a = process.step(ProcessEvent::Interrupt);
    assert_eq!(a, None);
    assert!(process.shutdown.fired);
}

#[test]
fn shutdown_coordinator_fires_at_most_once() {
    let mut coordinator = ShutdownCoordinator::new();
    assert!(!coordinator.fired);
    // A simulated signal: the first receipt is the one that acts.
    assert!(coordinator.on_interrupt());
    assert!(coordinator.fired);
    assert!(!coordinator.on_interrupt());
    assert!(coordinator.fired);
}

#[test]
fn an_event_for_an_unknown_loop_moves_nothing() {
    let sched = build_scheduler(&vec![cfg("a", "10")], &None).unwrap();
    let mut process = ProcessState::new(sched);
    let a = process.step(ProcessEvent::ForUnit {
        index: 5,
        event: UnitEvent::SleepElapsed,
    });
    assert_eq!(a, None);
    assert!(!process.shutdown.fired);
    assert!(matches!(process.scheduler.units[0].phase, UnitPhase::Invoking));
}
