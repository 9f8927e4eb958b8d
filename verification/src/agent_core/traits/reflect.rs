//! Reflection: an agent's judgement, before it runs a task, of whether to
//! run it and on which assumptions.
use vstd::prelude::*;

use crate::traits::{AgentState, Task, TaskView};

verus! {

/// Whether to run a task, and the assumptions that running it rests on.
#[derive(Clone, Debug)]
pub struct ReflectionData {
    pub should_run: bool,
    pub assumptions: Vec<String>,
}

/// The mathematical value of reflection data.
pub struct ReflectionView {
    pub should_run: bool,
    pub assumptions: Seq<Seq<char>>,
}

impl View for ReflectionData {
    type V = ReflectionView;

    open spec fn view(&self) -> ReflectionView {
        ReflectionView {
            should_run: self.should_run,
            assumptions: self.assumptions@.map_values(|a: String| a@),
        }
    }
}

impl ReflectionData {
    /// Run, on no assumptions.
    pub fn new() -> (data: ReflectionData)
        ensures
            data@ == (ReflectionView { should_run: true, assumptions: Seq::empty() }),
    {
        let data = ReflectionData { should_run: true, assumptions: Vec::new() };
        assert(data@.assumptions =~= Seq::<Seq<char>>::empty());
        data
    }
}

/// Agents that reflect on a task before running it.
///
/// A host that leaves out one of the spec functions below (a host written
/// outside Verus always does, as it cannot name them) is described by that
/// function's default: what the library proves of such a host holds only
/// where its methods behave as the default says, and nothing checks that
/// they do.
pub trait ReflectiveAgent<S: AgentState> {
    /// What `reflect` hands back: run, on no assumptions, unless the agent
    /// says otherwise.
    open spec fn spec_reflect(&self, state: S, task: TaskView) -> ReflectionView {
        ReflectionView { should_run: true, assumptions: Seq::empty() }
    }

    fn reflect(&self, state: &S, task: &Task) -> (data: ReflectionData)
        ensures
            data@ == self.spec_reflect(*state, task@),
    ;
}

} // verus!
