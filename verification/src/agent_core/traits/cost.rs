//! Cost prediction of the execution engine.
use vstd::prelude::*;

use crate::traits::{task_views, AgentState, Task, TaskView};

verus! {

/// Predicts what running tasks will cost. The engine compares the
/// predictions with its limits.
///
/// A host that leaves out one of the spec functions below (a host written
/// outside Verus always does, as it cannot name them) is described by that
/// function's default: what the library proves of such a host holds only
/// where its methods behave as the default says, and nothing checks that
/// they do.
pub trait CostPredictor<S: AgentState> {
    /// The predicted cost of one task; a predictor whose prediction is
    /// verified states it.
    open spec fn spec_predict_task_cost(&self, state: S, task: TaskView) -> usize {
        0
    }

    /// The predicted cost of a group of tasks.
    open spec fn spec_predict_many(&self, state: S, tasks: Seq<TaskView>) -> usize {
        0
    }

    fn predict_task_cost(&self, state: &S, task: &Task) -> (cost: usize)
        ensures
            cost == self.spec_predict_task_cost(*state, task@),
    ;

    fn predict_many(&self, state: &S, tasks: &[Task]) -> (cost: usize)
        ensures
            cost == self.spec_predict_many(*state, task_views(tasks@)),
    ;
}

} // verus!
