//! The engine's unified agent: a micro-agent with a name, its strategies,
//! its cost predictor and its executor.
use vstd::prelude::*;

use crate::agent_core::traits::collapse::{CollapseStrategy, MergeStrategy};
use crate::agent_core::traits::cost::CostPredictor;
use crate::traits::{AgentExecutor, AgentState, Task};

verus! {

/// An agent of the execution engine.
///
/// A host that leaves out one of the spec functions below (a host written
/// outside Verus always does, as it cannot name them) is described by that
/// function's default: what the library proves of such a host holds only
/// where its methods behave as the default says, and nothing checks that
/// they do.
pub trait Agent<S: AgentState> {
    type Collapse: CollapseStrategy<S>;

    type Merge: MergeStrategy<S::Delta>;

    type Cost: CostPredictor<S>;

    type Executor: AgentExecutor<S>;

    /// The strategy objects that the accessors hand out.
    spec fn spec_collapse_strategy(&self) -> Self::Collapse;

    spec fn spec_merge_strategy(&self) -> Self::Merge;

    spec fn spec_cost_predictor(&self) -> Self::Cost;

    spec fn spec_executor(&self) -> Self::Executor;

    /// The agent's name; empty unless the agent says otherwise.
    open spec fn spec_agent_name(&self) -> Seq<char> {
        Seq::empty()
    }

    fn name(&self) -> (name: &str)
        ensures
            name@ == self.spec_agent_name(),
    ;

    fn collapse_strategy(&self) -> (strategy: &Self::Collapse)
        ensures
            *strategy == self.spec_collapse_strategy(),
    ;

    fn merge_strategy(&self) -> (strategy: &Self::Merge)
        ensures
            *strategy == self.spec_merge_strategy(),
    ;

    fn cost_predictor(&self) -> (predictor: &Self::Cost)
        ensures
            *predictor == self.spec_cost_predictor(),
    ;

    fn executor(&self) -> (executor: &Self::Executor)
        ensures
            *executor == self.spec_executor(),
    ;

    /// Runs a task through the agent's executor.
    fn execute(&self, state: S, task: Task) -> (delta: S::Delta)
        ensures
            self.spec_executor().produces(state, task@, delta),
    {
        self.executor().run(state, task)
    }
}

} // verus!
