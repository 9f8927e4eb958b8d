//! Fractal recursion of the execution engine: how an agent splits a task
//! into sub-tasks, and its recursion limits.
use vstd::prelude::*;

use crate::traits::{task_views, AgentState, Task, TaskView};

verus! {

// ============================================================================
// FRACTAL SPLIT
// ============================================================================

/// How an agent splits a task into sub-tasks.
#[derive(Clone, Debug)]
pub struct FractalSplit {
    pub sub_tasks: Vec<Task>,
    pub reason: Option<String>,
    pub depth_increase: usize,
}

/// The mathematical value of a fractal split.
pub struct FractalSplitView {
    pub sub_tasks: Seq<TaskView>,
    pub reason: Option<Seq<char>>,
    pub depth_increase: usize,
}

impl View for FractalSplit {
    type V = FractalSplitView;

    open spec fn view(&self) -> FractalSplitView {
        FractalSplitView {
            sub_tasks: task_views(self.sub_tasks@),
            reason: match self.reason {
                Some(r) => Some(r@),
                None => None,
            },
            depth_increase: self.depth_increase,
        }
    }
}

impl FractalSplit {
    /// A split into `sub_tasks`, with no reason, one level deeper.
    pub fn new(sub_tasks: Vec<Task>) -> (split: FractalSplit)
        ensures
            split@ == (FractalSplitView { sub_tasks: task_views(sub_tasks@), reason: None, depth_increase: 1 }),
    {
        FractalSplit { sub_tasks, reason: None, depth_increase: 1 }
    }
}

/// The depth limit of an agent that keeps the usual one.
pub const STANDARD_MAX_FRACTAL_DEPTH: usize = 32;

/// The cost limit of an agent that keeps the usual one.
pub const STANDARD_MAX_FRACTAL_COST: usize = 10_000;

// ============================================================================
// FRACTAL AGENT TRAIT
// ============================================================================

/// Agents that can recursively split tasks.
///
/// A host that leaves out one of the spec functions below (a host written
/// outside Verus always does, as it cannot name them) is described by that
/// function's default: what the library proves of such a host holds only
/// where its methods behave as the default says, and nothing checks that
/// they do.
pub trait FractalAgent<S: AgentState> {
    /// The recursion depth limit; the usual one unless the agent says
    /// otherwise.
    open spec fn spec_max_fractal_depth(&self) -> usize {
        STANDARD_MAX_FRACTAL_DEPTH
    }

    /// The recursion cost limit; the usual one unless the agent says
    /// otherwise.
    open spec fn spec_max_fractal_cost(&self) -> usize {
        STANDARD_MAX_FRACTAL_COST
    }

    /// What `split_task` hands back; an agent whose `split_task` is verified
    /// states it.
    open spec fn spec_split_task(&self, state: S, task: TaskView, depth: usize) -> Option<FractalSplitView> {
        None
    }

    /// Whether this agent supports fractal recursion; an agent that keeps
    /// this default does.
    fn can_fractal(&self) -> (able: bool)
        default_ensures
            able,
    {
        true
    }

    /// Splits a task into sub-tasks, or declines to.
    fn split_task(&self, state: &S, task: &Task, depth: usize) -> (split: Option<FractalSplit>)
        ensures
            match split {
                Some(s) => self.spec_split_task(*state, task@, depth) == Some(s@),
                None => self.spec_split_task(*state, task@, depth) is None,
            },
    ;

    /// The recursion depth limit.
    fn max_fractal_depth(&self) -> (limit: usize)
        ensures
            limit == self.spec_max_fractal_depth(),
    ;

    /// The recursion cost limit.
    fn max_fractal_cost(&self) -> (limit: usize)
        ensures
            limit == self.spec_max_fractal_cost(),
    ;
}

} // verus!
