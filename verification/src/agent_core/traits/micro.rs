//! Micro-agent routing of the execution engine: acceptance, execution and
//! fallback.
use vstd::prelude::*;

use crate::traits::{AgentState, Task, TaskView};

verus! {

/// Whether a micro-agent takes a task, and why.
#[derive(Clone, Debug)]
pub struct MicroRouteDecision {
    pub accepted: bool,
    pub reason: Option<String>,
}

/// The mathematical value of a routing decision.
pub struct MicroRouteView {
    pub accepted: bool,
    pub reason: Option<Seq<char>>,
}

/// The view of an optional text.
pub open spec fn opt_text(text: Option<String>) -> Option<Seq<char>> {
    match text {
        Some(t) => Some(t@),
        None => None,
    }
}

impl View for MicroRouteDecision {
    type V = MicroRouteView;

    open spec fn view(&self) -> MicroRouteView {
        MicroRouteView { accepted: self.accepted, reason: opt_text(self.reason) }
    }
}

impl MicroRouteDecision {
    /// Takes the task.
    pub fn accept(reason: Option<String>) -> (decision: MicroRouteDecision)
        ensures
            decision@ == (MicroRouteView { accepted: true, reason: opt_text(reason) }),
    {
        MicroRouteDecision { accepted: true, reason }
    }

    /// Declines the task.
    pub fn reject(reason: Option<String>) -> (decision: MicroRouteDecision)
        ensures
            decision@ == (MicroRouteView { accepted: false, reason: opt_text(reason) }),
    {
        MicroRouteDecision { accepted: false, reason }
    }
}

/// Micro-agents that decide whether they take a task.
///
/// A host that leaves out one of the spec functions below (a host written
/// outside Verus always does, as it cannot name them) is described by that
/// function's default: what the library proves of such a host holds only
/// where its methods behave as the default says, and nothing checks that
/// they do.
pub trait MicroAgentAcceptance<S: AgentState> {
    /// What `should_accept` decides: take every task unless the agent says
    /// otherwise.
    open spec fn spec_should_accept(&self, state: S, task: TaskView) -> MicroRouteView {
        MicroRouteView { accepted: true, reason: None }
    }

    fn should_accept(&self, state: &S, task: &Task) -> (decision: MicroRouteDecision)
        ensures
            decision@ == self.spec_should_accept(*state, task@),
    ;

    /// The micro-agent's name; none unless the agent says otherwise.
    open spec fn spec_name(&self) -> Option<Seq<char>> {
        None
    }

    /// The micro-agent's name, if it has one.
    fn name(&self) -> (name: Option<String>)
        ensures
            opt_text(name) == self.spec_name(),
    ;
}

/// Micro-agents that perform one small step.
///
/// A host that leaves out one of the spec functions below (a host written
/// outside Verus always does, as it cannot name them) is described by that
/// function's default: what the library proves of such a host holds only
/// where its methods behave as the default says, and nothing checks that
/// they do.
pub trait MicroAgentExecutor<S: AgentState> {
    /// The relation that `execute` promises between its inputs and its
    /// delta; it promises nothing unless the agent says otherwise.
    open spec fn executes(&self, state: S, task: TaskView, delta: S::Delta) -> bool {
        true
    }

    fn execute(&self, state: &S, task: &Task) -> (delta: S::Delta)
        ensures
            self.executes(*state, task@, delta),
    ;
}

/// Micro-agents that may answer a task they decline with a fallback delta.
///
/// A host that leaves out one of the spec functions below (a host written
/// outside Verus always does, as it cannot name them) is described by that
/// function's default: what the library proves of such a host holds only
/// where its methods behave as the default says, and nothing checks that
/// they do.
pub trait MicroAgentFallback<S: AgentState> {
    /// What `fallback` hands back: nothing unless the agent says otherwise.
    open spec fn spec_fallback(&self, state: S, task: TaskView) -> Option<S::Delta> {
        None
    }

    fn fallback(&self, state: &S, task: &Task) -> (delta: Option<S::Delta>)
        ensures
            delta == self.spec_fallback(*state, task@),
    ;

    /// Why the fallback is what it is; no reason unless the agent says
    /// otherwise.
    open spec fn spec_reason(&self) -> Option<Seq<char>> {
        None
    }

    /// Why the fallback is what it is, if there is a reason.
    fn reason(&self) -> (reason: Option<String>)
        ensures
            opt_text(reason) == self.spec_reason(),
    ;
}

} // verus!
