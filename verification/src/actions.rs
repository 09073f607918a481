//! Models describing actions scheduled against an agent, and the health of
//! components and dependencies.
use vstd::prelude::*;

verus! {

/// Entity (system, user, ...) that requested the action to be performed.
#[derive(Clone, Eq, PartialEq, Hash, Debug)]
pub enum ActionRequester {
    /// Action requested over the Agent API.
    AgentApi,
    /// Action requested over the Core API.
    CoreApi,
    /// Action requested by the core as part of a playbook.
    CorePlaybook,
    /// Action requested by the core while converging a declarative cluster.
    CoreDeclarative,
}

/// Current state of an action execution.
#[derive(Clone, Eq, PartialEq, Hash, Debug)]
pub enum ActionState {
    /// The action was successfully completed.
    Done,
    /// The action ended with an error.
    Failed,
    /// The action has just been scheduled and is not being executed yet.
    New,
    /// The action was started by the agent and is in progress.
    Running,
}

impl ActionState {
    /// True exactly for the finished states: failed or succeeded.
    pub fn is_finished(&self) -> (r: bool)
        ensures
            r == (self is Done || self is Failed),
    {
        match self {
            ActionState::Done => true,
            ActionState::Failed => true,
            _ => false,
        }
    }
}

/// Result of a component/dependency health check.
#[derive(Clone, Eq, PartialEq, Hash, Debug)]
pub enum HealthStatus {
    /// The component operates as expected.
    Healthy,
    /// The component works, in a degraded state; the detail says how.
    Degraded(String),
    /// The component does not work; the detail says why.
    Failed(String),
}

} // verus!
