use vstd::prelude::*;

verus! {

use crate::scheduler::{
    sched_model_step, unit_step_action, unit_step_phase, Scheduler, UnitAction, UnitEvent,
    UnitModel,
};

/// What reaches the whole process from outside: the external interrupt
/// signal, or an event belonging to one timer loop.
#[derive(Clone, Copy, Debug, PartialEq, Eq, Structural)]
pub enum ProcessEvent {
    /// The one-shot interrupt signal.
    Interrupt,
    /// Loop `index` reports its own event.
    ForUnit { index: usize, event: UnitEvent },
}

/// What the process must do in answer to one event.
#[derive(Clone, Copy, Debug, PartialEq, Eq, Structural)]
pub enum ProcessAction {
    /// Exit the whole process at once, abandoning every in-flight
    /// invocation and every wait.
    Terminate,
    /// Loop `index` must perform this action.
    ForUnit { index: usize, action: UnitAction },
}

/// The shutdown coordinator: one per process, armed once at start, fires
/// at most once. `fired` records that the interrupt signal has been
/// received and the process is exiting.
pub struct ShutdownCoordinator {
    pub fired: bool,
}

impl ShutdownCoordinator {
    /// Armed and listening; the signal has not arrived yet.
    pub fn new() -> (c: ShutdownCoordinator)
        ensures
            !c.fired,
    {
        ShutdownCoordinator { fired: false }
    }

    /// Receives the interrupt signal. Answers whether this was the first
    /// receipt: only the first commands anything, a second signal while
    /// shutdown is already in progress has no additional effect.
    pub fn on_interrupt(&mut self) -> (first: bool)
        ensures
            final(self).fired,
            first == !old(self).fired,
    {
        let first = !self.fired;
        self.fired = true;
        first
    }
}

/// The whole process: the scheduler's loops together with the shutdown
/// coordinator.
pub struct ProcessState {
    pub scheduler: Scheduler,
    pub shutdown: ShutdownCoordinator,
}

/// The mathematical content of the process state.
pub ghost struct ProcessModel {
    pub units: Seq<UnitModel>,
    pub terminated: bool,
}

impl View for ProcessState {
    type V = ProcessModel;

    open spec fn view(&self) -> ProcessModel {
        ProcessModel { units: self.scheduler@, terminated: self.shutdown.fired }
    }
}

/// Where one event moves the process. A terminated process never moves
/// again — a second interrupt, like any other event, has no further
/// effect. The first interrupt terminates; a loop's event moves that loop
/// alone.
pub open spec fn process_model_step(m: ProcessModel, event: ProcessEvent) -> ProcessModel {
    if m.terminated {
        m
    } else {
        match event {
            ProcessEvent::Interrupt => ProcessModel { terminated: true, ..m },
            ProcessEvent::ForUnit { index, event } => if index < m.units.len() {
                ProcessModel { units: sched_model_step(m.units, index as int, event), ..m }
            } else {
                m
            },
        }
    }
}

/// What one event makes the process do. A terminated process does nothing
/// more; the first interrupt commands immediate termination, with no drain
/// of in-flight invocations; a loop's event commands whatever that loop
/// commands.
pub open spec fn process_model_action(m: ProcessModel, event: ProcessEvent) -> Option<
    ProcessAction,
> {
    if m.terminated {
        None
    } else {
        match event {
            ProcessEvent::Interrupt => Some(ProcessAction::Terminate),
            ProcessEvent::ForUnit { index, event } => if index < m.units.len() {
                match unit_step_action(
                    m.units[index as int].phase,
                    m.units[index as int].interval_ms,
                    event,
                ) {
                    Some(action) => Some(ProcessAction::ForUnit { index, action }),
                    None => None,
                }
            } else {
                None
            },
        }
    }
}

impl ProcessState {
    /// A freshly started process: the scheduler's loops, the shutdown
    /// coordinator armed, the interrupt not yet received.
    pub fn new(scheduler: Scheduler) -> (p: ProcessState)
        ensures
            p@.units == scheduler@,
            !p@.terminated,
    {
        ProcessState { scheduler, shutdown: ShutdownCoordinator::new() }
    }

    /// Answers one event: moves the state and commands what the
    /// surrounding runtime must do next.
    pub fn step(&mut self, event: ProcessEvent) -> (action: Option<ProcessAction>)
        ensures
            final(self)@ == process_model_step(old(self)@, event),
            action == process_model_action(old(self)@, event),
    {
        if self.shutdown.fired {
            return None;
        }
        match event {
            ProcessEvent::Interrupt => {
                self.shutdown.on_interrupt();
                Some(ProcessAction::Terminate)
            },
            ProcessEvent::ForUnit { index, event } => {
                if index < self.scheduler.units.len() {
                    let action = self.scheduler.step_unit(index, event);
                    match action {
                        Some(action) => Some(ProcessAction::ForUnit { index, action }),
                        None => None,
                    }
                } else {
                    None
                }
            },
        }
    }
}

/// The process state after the first `t` of the given events.
pub open spec fn process_model_at(m0: ProcessModel, events: Seq<ProcessEvent>, t: int) -> ProcessModel
    decreases t,
{
    if t <= 0 {
        m0
    } else {
        process_model_step(process_model_at(m0, events, t - 1), events[t - 1])
    }
}

/// The action commanded in answer to event `t`.
pub open spec fn process_action_at(
    m0: ProcessModel,
    events: Seq<ProcessEvent>,
    t: int,
) -> Option<ProcessAction> {
    process_model_action(process_model_at(m0, events, t), events[t])
}

/// This event reports that one of component `i`'s invocations finished.
pub open spec fn is_finish_for(event: ProcessEvent, i: usize) -> bool {
    match event {
        ProcessEvent::ForUnit { index, event } => index == i && event is InvocationFinished,
        _ => false,
    }
}

/// The number of loops never changes: every step either terminates, moves
/// one existing loop, or moves nothing.
proof fn lemma_units_len_constant(m0: ProcessModel, events: Seq<ProcessEvent>, t: int)
    requires
        0 <= t,
    ensures
        process_model_at(m0, events, t).units.len() == m0.units.len(),
    decreases t,
{
    if t > 0 {
        lemma_units_len_constant(m0, events, t - 1);
    }
}

/// A loop that was invoking at time `t` and sleeping at time `j` had its
/// invocation reported finished in between: no other component's event,
/// and not the interrupt, can move it from `Invoking` to `Sleeping`.
proof fn lemma_process_finish_between(
    m0: ProcessModel,
    events: Seq<ProcessEvent>,
    i: usize,
    t: int,
    j: int,
)
    requires
        0 <= t <= j <= events.len(),
        i < m0.units.len(),
        process_model_at(m0, events, t).units[i as int].phase is Invoking,
        process_model_at(m0, events, j).units[i as int].phase is Sleeping,
    ensures
        exists|k: int| t <= k < j && is_finish_for(#[trigger] events[k], i),
    decreases j - t,
{
    let prev = process_model_at(m0, events, j - 1);
    let cur = process_model_at(m0, events, j);
    if prev.units[i as int].phase is Sleeping {
        lemma_process_finish_between(m0, events, i, t, j - 1);
    } else {
        let e = events[j - 1];
        lemma_units_len_constant(m0, events, j - 1);
        assert(cur == process_model_step(prev, e));
        match e {
            ProcessEvent::Interrupt => {
                assert(cur.units == prev.units);
            },
            ProcessEvent::ForUnit { index, event } => {
                if index == i && (index as int) < prev.units.len() {
                    // Only component i's own finished invocation moves it
                    // from Invoking to Sleeping; a halted loop never moves.
                    assert(cur.units[i as int].phase == unit_step_phase(
                        prev.units[i as int].phase,
                        event,
                    ));
                    assert(event is InvocationFinished);
                    assert(is_finish_for(e, i));
                } else if (index as int) < prev.units.len() {
                    assert(cur.units[i as int] == prev.units[i as int]);
                } else {
                    assert(cur.units == prev.units);
                }
            },
        }
    }
}

/// No two invocations of the same component ever overlap, however the
/// loops' events interleave: between any two commands to start component
/// `i`'s invocation stands the report that the earlier one finished.
pub proof fn lemma_component_invocations_sequential(
    m0: ProcessModel,
    events: Seq<ProcessEvent>,
    i: usize,
    t1: int,
    t2: int,
)
    requires
        0 <= t1 < t2 < events.len(),
        process_action_at(m0, events, t1) == Some(
            ProcessAction::ForUnit { index: i, action: UnitAction::StartInvocation },
        ),
        process_action_at(m0, events, t2) == Some(
            ProcessAction::ForUnit { index: i, action: UnitAction::StartInvocation },
        ),
    ensures
        exists|k: int| t1 < k < t2 && is_finish_for(#[trigger] events[k], i),
{
    let m1 = process_model_at(m0, events, t1);
    lemma_units_len_constant(m0, events, t1);
    assert(i < m0.units.len());
    assert(m1.units[i as int].phase is Sleeping);
    assert(process_model_at(m0, events, t1 + 1).units[i as int].phase is Invoking);
    assert(process_model_at(m0, events, t2).units[i as int].phase is Sleeping);
    lemma_process_finish_between(m0, events, i, t1 + 1, t2);
}

/// Any event that is not component `j`'s own — the interrupt, or another
/// component's event — leaves component `j`'s loop exactly as it was.
pub proof fn lemma_unit_untouched_by_others(m: ProcessModel, event: ProcessEvent, j: usize)
    requires
        j < m.units.len(),
        !(event matches ProcessEvent::ForUnit { index, .. } && index == j),
    ensures
        process_model_step(m, event).units[j as int] == m.units[j as int],
{
}

/// An interrupt is answered at once: a process not already terminated
/// commands its own termination, and is terminated from the next instant
/// on.
pub proof fn lemma_interrupt_terminates(m0: ProcessModel, events: Seq<ProcessEvent>, k: int)
    requires
        0 <= k < events.len(),
        events[k] is Interrupt,
    ensures
        !process_model_at(m0, events, k).terminated ==> process_action_at(m0, events, k) == Some(
            ProcessAction::Terminate,
        ),
        process_model_at(m0, events, k + 1).terminated,
{
    assert(process_model_at(m0, events, k + 1) == process_model_step(
        process_model_at(m0, events, k),
        events[k],
    ));
}

/// Termination is final: once the interrupt has been received, the process
/// never moves and never acts again — no further tick is started, no wait
/// is begun, for any component, however many further events arrive.
pub proof fn lemma_no_ticks_after_interrupt(
    m0: ProcessModel,
    events: Seq<ProcessEvent>,
    k: int,
    t: int,
)
    requires
        0 <= k < events.len(),
        events[k] is Interrupt,
        k < t <= events.len(),
    ensures
        process_model_at(m0, events, t) == process_model_at(m0, events, k + 1),
        process_model_at(m0, events, t).terminated,
        t < events.len() ==> process_action_at(m0, events, t) == None::<ProcessAction>,
    decreases t,
{
    lemma_interrupt_terminates(m0, events, k);
    if t > k + 1 {
        lemma_no_ticks_after_interrupt(m0, events, k, t - 1);
    }
}

} // verus!
