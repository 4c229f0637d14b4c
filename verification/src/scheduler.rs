use vstd::prelude::*;

verus! {

use crate::config::{RegistryEntryView, TriggerRegistry};
use crate::errors::ConfigurationError;

/// How one tick of a component ended.
#[derive(Clone, Copy, Debug, PartialEq, Eq, Structural)]
pub enum TickOutcome {
    /// The timer-handler entry point returned normally.
    Success,
    /// No sandbox instance could be made for the component.
    InstanceFailure,
    /// The timer-handler entry point itself failed.
    InvocationFailure,
}

/// What the surrounding process reports to one timer loop.
#[derive(Clone, Copy, Debug, PartialEq, Eq, Structural)]
pub enum UnitEvent {
    /// The in-flight tick ended with this outcome.
    InvocationFinished { outcome: TickOutcome },
    /// The inter-tick wait has elapsed.
    SleepElapsed,
}

/// What the surrounding process must do next for one timer loop.
#[derive(Clone, Copy, Debug, PartialEq, Eq, Structural)]
pub enum UnitAction {
    /// Obtain a fresh sandbox instance for the loop's component and invoke
    /// its timer-handler entry point.
    StartInvocation,
    /// Wait this many milliseconds, then report `SleepElapsed`.
    StartSleep { millis: u64 },
}

/// What one timer loop is doing. A loop alternates between `Invoking` and
/// `Sleeping` for the lifetime of the process; a failed tick moves it to
/// `Halted`, where it stays, without touching any other loop.
#[derive(Clone, Copy, Debug, PartialEq, Eq, Structural)]
pub enum UnitPhase {
    /// A tick is in flight; its completion has not been reported yet.
    Invoking,
    /// Waiting out the effective interval before the next tick.
    Sleeping,
    /// A tick failed; this loop has stopped for good.
    Halted,
}

/// The state of one timer loop: its component, its effective interval, and
/// what it is doing. A loop begins in `Invoking`: the first tick is owed
/// immediately, before any wait.
#[derive(Clone, Debug)]
pub struct UnitState {
    pub component: String,
    pub interval_ms: u64,
    pub phase: UnitPhase,
}

/// The mathematical content of one timer loop's state.
pub ghost struct UnitModel {
    pub component: Seq<char>,
    pub interval_ms: u64,
    pub phase: UnitPhase,
}

impl View for UnitState {
    type V = UnitModel;

    open spec fn view(&self) -> UnitModel {
        UnitModel { component: self.component@, interval_ms: self.interval_ms, phase: self.phase }
    }
}

/// The phase a loop moves to on an event. A finished tick puts an
/// `Invoking` loop to sleep, or halts it if the tick failed; an elapsed
/// wait starts the next tick; anything else changes nothing. The clock
/// always restarts from the moment the previous tick finished: a finished
/// tick is answered by a full wait, never by a shortened or skipped one.
pub open spec fn unit_step_phase(phase: UnitPhase, event: UnitEvent) -> UnitPhase {
    match (phase, event) {
        (UnitPhase::Invoking, UnitEvent::InvocationFinished { outcome }) => if outcome
            is Success {
            UnitPhase::Sleeping
        } else {
            UnitPhase::Halted
        },
        (UnitPhase::Sleeping, UnitEvent::SleepElapsed) => UnitPhase::Invoking,
        _ => phase,
    }
}

/// The action a loop commands on an event: a successful tick is followed by
/// a wait of exactly the effective interval; an elapsed wait by the next
/// tick; a failed tick, or a loop already halted, by nothing.
pub open spec fn unit_step_action(phase: UnitPhase, interval_ms: u64, event: UnitEvent) -> Option<
    UnitAction,
> {
    match (phase, event) {
        (UnitPhase::Invoking, UnitEvent::InvocationFinished { outcome }) => if outcome
            is Success {
            Some(UnitAction::StartSleep { millis: interval_ms })
        } else {
            None
        },
        (UnitPhase::Sleeping, UnitEvent::SleepElapsed) => Some(UnitAction::StartInvocation),
        _ => None,
    }
}

/// One loop's whole step: the phase moves, the component and interval never
/// change.
pub open spec fn unit_model_step(u: UnitModel, event: UnitEvent) -> UnitModel {
    UnitModel { phase: unit_step_phase(u.phase, event), ..u }
}

impl UnitState {
    /// A fresh loop for one registry row, with its first tick owed.
    pub fn new(component: String, interval_ms: u64) -> (u: UnitState)
        requires
            interval_ms >= 1,
        ensures
            u@.component == component@,
            u@.interval_ms == interval_ms,
            u@.phase == UnitPhase::Invoking,
    {
        UnitState { component, interval_ms, phase: UnitPhase::Invoking }
    }

    /// Advances this loop on one event and commands what the surrounding
    /// process must do next.
    pub fn step(&mut self, event: UnitEvent) -> (action: Option<UnitAction>)
        ensures
            final(self)@ == unit_model_step(old(self)@, event),
            action == unit_step_action(old(self)@.phase, old(self)@.interval_ms, event),
    {
        match (self.phase, event) {
            (UnitPhase::Invoking, UnitEvent::InvocationFinished { outcome }) => match outcome {
                TickOutcome::Success => {
                    self.phase = UnitPhase::Sleeping;
                    Some(UnitAction::StartSleep { millis: self.interval_ms })
                },
                _ => {
                    self.phase = UnitPhase::Halted;
                    None
                },
            },
            (UnitPhase::Sleeping, UnitEvent::SleepElapsed) => {
                self.phase = UnitPhase::Invoking;
                Some(UnitAction::StartInvocation)
            },
            _ => None,
        }
    }
}

/// The phase of one loop that started in `phase0` after the first `t` of
/// the given events.
pub open spec fn unit_phase_at(phase0: UnitPhase, events: Seq<UnitEvent>, t: int) -> UnitPhase
    decreases t,
{
    if t <= 0 {
        phase0
    } else {
        unit_step_phase(unit_phase_at(phase0, events, t - 1), events[t - 1])
    }
}

/// The action the loop commands in answer to event `t`.
pub open spec fn unit_action_at(
    phase0: UnitPhase,
    interval_ms: u64,
    events: Seq<UnitEvent>,
    t: int,
) -> Option<UnitAction> {
    unit_step_action(unit_phase_at(phase0, events, t), interval_ms, events[t])
}

/// A loop that was invoking at time `t` and sleeping at time `j` received
/// word of a finished invocation somewhere in between: the only road from
/// `Invoking` to `Sleeping` passes through an `InvocationFinished` event.
proof fn lemma_finish_between(phase0: UnitPhase, events: Seq<UnitEvent>, t: int, j: int)
    requires
        0 <= t <= j <= events.len(),
        unit_phase_at(phase0, events, t) is Invoking,
        unit_phase_at(phase0, events, j) is Sleeping,
    ensures
        exists|k: int| t <= k < j && (#[trigger] events[k]) is InvocationFinished,
    decreases j - t,
{
    let prev = unit_phase_at(phase0, events, j - 1);
    if prev is Sleeping {
        lemma_finish_between(phase0, events, t, j - 1);
    } else {
        assert(events[j - 1] is InvocationFinished);
    }
}

/// Within one loop, invocations are strictly sequential: between any two
/// commands to start an invocation, the loop received word that the earlier
/// invocation finished. Invocation N+1 therefore never starts before
/// invocation N completes, however long the run of events.
pub proof fn lemma_no_overlapping_invocations(
    phase0: UnitPhase,
    interval_ms: u64,
    events: Seq<UnitEvent>,
    i: int,
    j: int,
)
    requires
        0 <= i < j < events.len(),
        unit_action_at(phase0, interval_ms, events, i) == Some(UnitAction::StartInvocation),
        unit_action_at(phase0, interval_ms, events, j) == Some(UnitAction::StartInvocation),
    ensures
        exists|k: int| i < k < j && (#[trigger] events[k]) is InvocationFinished,
{
    assert(unit_phase_at(phase0, events, i) is Sleeping);
    assert(unit_phase_at(phase0, events, i + 1) is Invoking);
    assert(unit_phase_at(phase0, events, j) is Sleeping);
    lemma_finish_between(phase0, events, i + 1, j);
}

/// A fresh loop owes its first tick at once, and commands no further
/// invocation until that first tick has finished.
pub proof fn lemma_first_start_awaits_initial_finish(
    interval_ms: u64,
    events: Seq<UnitEvent>,
    j: int,
)
    requires
        0 <= j < events.len(),
        unit_action_at(UnitPhase::Invoking, interval_ms, events, j) == Some(
            UnitAction::StartInvocation,
        ),
    ensures
        exists|k: int| 0 <= k < j && (#[trigger] events[k]) is InvocationFinished,
{
    assert(unit_phase_at(UnitPhase::Invoking, events, j) is Sleeping);
    lemma_finish_between(UnitPhase::Invoking, events, 0, j);
}

/// The scheduler: one independent timer loop per registered component,
/// sharing nothing with each other.
#[derive(Clone, Debug)]
pub struct Scheduler {
    pub units: Vec<UnitState>,
}

impl View for Scheduler {
    type V = Seq<UnitModel>;

    open spec fn view(&self) -> Seq<UnitModel> {
        self.units@.map_values(|u: UnitState| u@)
    }
}

/// Stepping one loop of the set: only that loop's entry moves.
pub open spec fn sched_model_step(units: Seq<UnitModel>, i: int, event: UnitEvent) -> Seq<
    UnitModel,
> {
    units.update(i, unit_model_step(units[i], event))
}

/// The index of the first registry row with no whole millisecond to wait,
/// at or after row `k`.
pub open spec fn first_zero_interval_from(entries: Seq<RegistryEntryView>, k: int) -> Option<int>
    decreases entries.len() - k,
{
    if k < 0 || k >= entries.len() {
        None
    } else if entries[k].interval_ms == 0 {
        Some(k)
    } else {
        first_zero_interval_from(entries, k + 1)
    }
}

/// Skipping rows with a positive interval does not change which row is the
/// first with a zero one.
proof fn lemma_first_zero_skip(entries: Seq<RegistryEntryView>, k: int)
    requires
        0 <= k <= entries.len(),
        forall|j: int| 0 <= j < k ==> (#[trigger] entries[j]).interval_ms >= 1,
    ensures
        first_zero_interval_from(entries, 0) == first_zero_interval_from(entries, k),
    decreases k,
{
    if k > 0 {
        lemma_first_zero_skip(entries, k - 1);
    }
}

impl Scheduler {
    /// Builds the scheduler from the registry: exactly one loop per
    /// registered component, each with that component's effective interval
    /// and its first tick owed. Fails, before any loop exists, when the
    /// registry is empty or some row's interval is not positive; a
    /// well-formed registry always succeeds.
    pub fn new(registry: &TriggerRegistry) -> (r: Result<Scheduler, ConfigurationError>)
        ensures
            ({
                if registry@.len() == 0 {
                    r == Err::<Scheduler, _>(ConfigurationError::EmptyRegistry)
                } else {
                    match first_zero_interval_from(registry@, 0) {
                        Some(i) => r matches Err(
                            ConfigurationError::ZeroEffectiveInterval { component },
                        ) && component@ == registry@[i].component,
                        None => r matches Ok(s) && s@.len() == registry@.len() && forall|i: int|
                            0 <= i < registry@.len() ==> (#[trigger] s@[i]).component
                                == registry@[i].component && s@[i].interval_ms
                                == registry@[i].interval_ms && s@[i].phase == UnitPhase::Invoking,
                    }
                }
            }),
            registry.wf() ==> r is Ok,
    {
        if registry.entries.len() == 0 {
            return Err(ConfigurationError::EmptyRegistry);
        }
        let mut units: Vec<UnitState> = Vec::new();
        let mut k: usize = 0;
        while k < registry.entries.len()
            invariant
                k <= registry@.len(),
                registry@.len() == registry.entries@.len(),
                units@.len() == k,
                forall|j: int| 0 <= j < k ==> (#[trigger] registry@[j]).interval_ms >= 1,
                forall|i: int|
                    0 <= i < k ==> (#[trigger] units@[i])@.component == registry@[i].component
                        && units@[i]@.interval_ms == registry@[i].interval_ms && units@[i]@.phase
                        == UnitPhase::Invoking,
            decreases registry.entries@.len() - k,
        {
            let e = &registry.entries[k];
            if e.interval_ms == 0 {
                proof {
                    lemma_first_zero_skip(registry@, k as int);
                }
                return Err(ConfigurationError::ZeroEffectiveInterval {
                    component: e.component.clone(),
                });
            }
            units.push(UnitState::new(e.component.clone(), e.interval_ms));
            k = k + 1;
        }
        proof {
            lemma_first_zero_skip(registry@, registry@.len() as int);
        }
        Ok(Scheduler { units })
    }

    /// Advances the one loop the event belongs to. No other loop's entry is
    /// read or written: a failure or delay on one component can neither
    /// delay nor prevent anything on another.
    pub fn step_unit(&mut self, i: usize, event: UnitEvent) -> (action: Option<UnitAction>)
        requires
            i < old(self)@.len(),
        ensures
            final(self)@ == sched_model_step(old(self)@, i as int, event),
            final(self)@.len() == old(self)@.len(),
            forall|j: int|
                0 <= j < old(self)@.len() && j != i ==> final(self)@[j] == (#[trigger] old(
                    self,
                )@[j]),
            action == unit_step_action(
                old(self)@[i as int].phase,
                old(self)@[i as int].interval_ms,
                event,
            ),
    {
        let u = &mut self.units[i];
        let action = u.step(event);
        proof {
            assert(self.units@ =~= old(self).units@.update(i as int, self.units@[i as int]));
            assert(self@ =~= sched_model_step(old(self)@, i as int, event));
        }
        action
    }
}

/// Loops are independent: stepping loop `i` leaves every other loop `j`
/// exactly as it was, and what loop `j` answers to its own next event —
/// including the command to start its next tick on time — is the same as if
/// loop `i` had never moved. In particular a failing invocation on one
/// component neither delays nor prevents the next scheduled tick on
/// another.
pub proof fn lemma_units_independent(
    units: Seq<UnitModel>,
    i: int,
    j: int,
    event: UnitEvent,
    later: UnitEvent,
)
    requires
        0 <= i < units.len(),
        0 <= j < units.len(),
        i != j,
    ensures
        sched_model_step(units, i, event)[j] == units[j],
        unit_step_action(
            sched_model_step(units, i, event)[j].phase,
            sched_model_step(units, i, event)[j].interval_ms,
            later,
        ) == unit_step_action(units[j].phase, units[j].interval_ms, later),
{
}

} // verus!
