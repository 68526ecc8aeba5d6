//! The orchestrator's decision core: the agent's run state, its
//! lifecycle machine, and the rules that accept or reject work.
//!
//! The event loop itself — sockets, timers, spawned futures — is host
//! plumbing outside the library; every decision it acts on is a
//! function here, from state and event to new state and action.

use vstd::prelude::*;
use crate::hal::{spec_meets_requirements, select_best, GpuDevice};
use crate::protocol::TaskRequirements;

verus! {

broadcast use vstd::seq::group_seq_axioms;

/// The agent's run state, mutated only by the orchestrator.
#[derive(Debug, Clone, PartialEq)]
pub struct AgentState {
    pub agent_id: Option<String>,
    pub is_running: bool,
    pub current_task: Option<String>,
    pub started_at: Option<u64>,
    pub tasks_completed: u64,
    pub tasks_failed: u64,
}

impl AgentState {
    /// A fresh, stopped agent.
    pub fn new() -> (r: Self)
        ensures
            r.agent_id is None,
            !r.is_running,
            r.current_task is None,
            r.started_at is None,
            r.tasks_completed == 0,
            r.tasks_failed == 0,
    {
        AgentState {
            agent_id: None,
            is_running: false,
            current_task: None,
            started_at: None,
            tasks_completed: 0,
            tasks_failed: 0,
        }
    }
}

/// Internal events the execution future reports back to the loop.
#[derive(Debug, Clone, PartialEq)]
pub enum AgentEvent {
    TaskCompleted(String),
    TaskFailed(String, String),
    GPUError(String),
}

/// The lifecycle the orchestrator moves through.
#[derive(Debug, Clone, PartialEq)]
pub enum AgentLifecycle {
    Starting,
    Registering,
    Idle,
    Working(String),
    Stopping,
    Error,
}

/// What moves the lifecycle.
#[derive(Debug, Clone, PartialEq)]
pub enum LifecycleEvent {
    SocketOpened,
    RegisterAcked,
    TaskAccepted(String),
    TaskFinished,
    ShutdownRequested,
    FatalFault,
}

/// The lifecycle transition relation: starting becomes registering on
/// the socket, registering becomes idle on the acknowledgment, idle
/// becomes working on an accepted task, working becomes idle when the
/// task ends; shutdown moves any state to stopping, a fatal fault
/// latches the error state, and everything else stays put.
pub open spec fn spec_next_lifecycle(cur: AgentLifecycle, ev: LifecycleEvent) -> AgentLifecycle {
    match ev {
        LifecycleEvent::ShutdownRequested => AgentLifecycle::Stopping,
        LifecycleEvent::FatalFault => AgentLifecycle::Error,
        LifecycleEvent::SocketOpened => match cur {
            AgentLifecycle::Starting => AgentLifecycle::Registering,
            _ => cur,
        },
        LifecycleEvent::RegisterAcked => match cur {
            AgentLifecycle::Registering => AgentLifecycle::Idle,
            _ => cur,
        },
        LifecycleEvent::TaskAccepted(task_id) => match cur {
            AgentLifecycle::Idle => AgentLifecycle::Working(task_id),
            _ => cur,
        },
        LifecycleEvent::TaskFinished => match cur {
            AgentLifecycle::Working(_) => AgentLifecycle::Idle,
            _ => cur,
        },
    }
}

/// Applies one lifecycle event.
pub fn next_lifecycle(cur: AgentLifecycle, ev: LifecycleEvent) -> (r: AgentLifecycle)
    ensures
        r == spec_next_lifecycle(cur, ev),
{
    match ev {
        LifecycleEvent::ShutdownRequested => AgentLifecycle::Stopping,
        LifecycleEvent::FatalFault => AgentLifecycle::Error,
        LifecycleEvent::SocketOpened => match cur {
            AgentLifecycle::Starting => AgentLifecycle::Registering,
            _ => cur,
        },
        LifecycleEvent::RegisterAcked => match cur {
            AgentLifecycle::Registering => AgentLifecycle::Idle,
            _ => cur,
        },
        LifecycleEvent::TaskAccepted(task_id) => match cur {
            AgentLifecycle::Idle => AgentLifecycle::Working(task_id),
            _ => cur,
        },
        LifecycleEvent::TaskFinished => match cur {
            AgentLifecycle::Working(_) => AgentLifecycle::Idle,
            _ => cur,
        },
    }
}

/// Whether any device can serve the task.
pub fn can_accept_task(devices: &Vec<GpuDevice>, req: &TaskRequirements) -> (r: bool)
    ensures
        r == exists|i: int|
            0 <= i < devices@.len() && spec_meets_requirements(#[trigger] devices@[i], *req),
{
    match select_best(devices, req) {
        Some(i) => {
            proof {
                assert(spec_meets_requirements(devices@[i as int], *req));
            }
            true
        },
        None => false,
    }
}

/// How the orchestrator answers one task assignment.
#[derive(Debug, Clone, Copy, PartialEq, Eq, Structural)]
pub enum TaskDecision {
    Accept,
    RejectBusy,
    RejectInsufficient,
}

/// Decides one task assignment: a busy agent rejects; otherwise the
/// task is accepted exactly when some device can serve it, and
/// rejected for insufficient resources when none can.
pub fn decide_task_assign(
    current_task: &Option<String>,
    devices: &Vec<GpuDevice>,
    req: &TaskRequirements,
) -> (r: TaskDecision)
    ensures
        current_task is Some ==> r is RejectBusy,
        current_task is None ==> {
            if exists|i: int|
                0 <= i < devices@.len() && spec_meets_requirements(#[trigger] devices@[i], *req) {
                r is Accept
            } else {
                r is RejectInsufficient
            }
        },
{
    if current_task.is_some() {
        return TaskDecision::RejectBusy;
    }
    if can_accept_task(devices, req) {
        TaskDecision::Accept
    } else {
        TaskDecision::RejectInsufficient
    }
}

/// Applies an accepted assignment: the task occupies the one slot.
pub fn apply_task_accept(state: &mut AgentState, task_id: String)
    requires
        old(state).current_task is None,
    ensures
        final(state).current_task == Some(task_id),
        final(state).agent_id == old(state).agent_id,
        final(state).is_running == old(state).is_running,
        final(state).started_at == old(state).started_at,
        final(state).tasks_completed == old(state).tasks_completed,
        final(state).tasks_failed == old(state).tasks_failed,
{
    state.current_task = Some(task_id);
}

/// Applies the end of the one running task: the slot empties, and the
/// matching counter steps by one, saturating.
pub fn apply_task_finished(state: &mut AgentState, success: bool)
    ensures
        final(state).current_task is None,
        success ==> final(state).tasks_completed == (
        if old(state).tasks_completed == u64::MAX {
            old(state).tasks_completed as int
        } else {
            old(state).tasks_completed + 1
        }) && final(state).tasks_failed == old(state).tasks_failed,
        !success ==> final(state).tasks_failed == (
        if old(state).tasks_failed == u64::MAX {
            old(state).tasks_failed as int
        } else {
            old(state).tasks_failed + 1
        }) && final(state).tasks_completed == old(state).tasks_completed,
        final(state).agent_id == old(state).agent_id,
        final(state).is_running == old(state).is_running,
        final(state).started_at == old(state).started_at,
{
    state.current_task = None;
    if success {
        state.tasks_completed = state.tasks_completed.saturating_add(1);
    } else {
        state.tasks_failed = state.tasks_failed.saturating_add(1);
    }
}

/// Marks the agent started.
pub fn apply_started(state: &mut AgentState, agent_id: String, now: u64)
    ensures
        final(state).agent_id == Some(agent_id),
        final(state).is_running,
        final(state).started_at == Some(now),
        final(state).current_task == old(state).current_task,
        final(state).tasks_completed == old(state).tasks_completed,
        final(state).tasks_failed == old(state).tasks_failed,
{
    state.agent_id = Some(agent_id);
    state.is_running = true;
    state.started_at = Some(now);
}

/// Marks the agent stopped.
pub fn apply_stopped(state: &mut AgentState)
    ensures
        !final(state).is_running,
        final(state).agent_id == old(state).agent_id,
        final(state).current_task == old(state).current_task,
        final(state).started_at == old(state).started_at,
        final(state).tasks_completed == old(state).tasks_completed,
        final(state).tasks_failed == old(state).tasks_failed,
{
    state.is_running = false;
}

} // verus!
