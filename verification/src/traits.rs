//! Core traits and types of the orchestrator.
//!
//! The host owns its state type and the type of the deltas that subagents
//! hand back. A state names its delta type, says what applying a delta means
//! (`spec_apply_delta`) and proves that `apply_delta` does exactly that.
use vstd::prelude::*;

verus! {

// ============================================================================
// AGENT STATE + DELTA
// ============================================================================

/// Marker for values that subagents produce and that a master state merges.
pub trait DeltaState {}

impl<T> DeltaState for T {}

/// The host agent's state.
///
/// `spec_apply_delta` is the meaning of merging one delta into the state;
/// `apply_delta` is the host's merge hook and must do exactly that.
/// `clone_state` is the copy that the orchestrator hands to each subagent.
pub trait AgentState: Sized {
    type Delta: DeltaState;

    spec fn spec_apply_delta(self, delta: Self::Delta) -> Self;

    fn apply_delta(&mut self, delta: &Self::Delta)
        ensures
            *final(self) == old(self).spec_apply_delta(*delta),
    ;

    fn clone_state(&self) -> (copy: Self)
        ensures
            copy == *self,
    ;
}

/// Converts a concrete delta into a boxed one.
pub trait IntoBoxedDelta: Sized {
    fn into_boxed(self) -> (boxed: Box<Self>)
        ensures
            *boxed == self,
    ;
}

impl<T: DeltaState> IntoBoxedDelta for T {
    fn into_boxed(self) -> (boxed: Box<Self>) {
        Box::new(self)
    }
}

// ============================================================================
// TASK + SUBAGENT SPEC
// ============================================================================

/// A unit of work: a name, a textual payload and an optional JSON payload.
#[non_exhaustive]
#[derive(Debug)]
pub struct Task {
    pub name: String,
    pub payload: String,
    pub payload_json: Option<serde_json::Value>,
}

/// The mathematical value of a task.
pub struct TaskView {
    pub name: Seq<char>,
    pub payload: Seq<char>,
    pub payload_json: Option<serde_json::Value>,
}

impl View for Task {
    type V = TaskView;

    open spec fn view(&self) -> TaskView {
        TaskView { name: self.name@, payload: self.payload@, payload_json: self.payload_json }
    }
}

/// `serde_json::Value` is an opaque type here: a task only carries it.
#[verifier::external_type_specification]
#[verifier::external_body]
pub struct ExJsonValue(serde_json::Value);

/// `Clone::clone` of `serde_json::Value` (a derived impl): the copy is equal
/// to the original.
#[verifier::external_body]
fn clone_json_value(value: &serde_json::Value) -> (copy: serde_json::Value)
    ensures
        copy == *value,
{
    value.clone()
}

impl Task {
    /// A task with the given name and payload and no JSON payload.
    pub fn new(name: &str, payload: &str) -> (task: Task)
        ensures
            task@ == (TaskView { name: name@, payload: payload@, payload_json: None }),
    {
        Task { name: String::from_str(name), payload: String::from_str(payload), payload_json: None }
    }

    /// The same task, carrying `value` as its JSON payload.
    pub fn with_payload_json(self, value: serde_json::Value) -> (task: Task)
        ensures
            task@ == (TaskView { payload_json: Some(value), ..self@ }),
    {
        let mut t = self;
        t.payload_json = Some(value);
        t
    }
}

impl Clone for Task {
    fn clone(&self) -> (copy: Self)
        ensures
            copy@ == self@,
    {
        let payload_json = match &self.payload_json {
            Some(v) => Some(clone_json_value(v)),
            None => None,
        };
        Task { name: self.name.clone(), payload: self.payload.clone(), payload_json }
    }
}

/// Specification for a subagent produced by a split.
#[derive(Debug)]
pub struct SubAgentSpec<S: AgentState> {
    pub id: String,
    pub scoped_state: S,
    pub task: Task,
}

/// The mathematical value of a subagent specification.
pub struct SubAgentSpecView<S> {
    pub id: Seq<char>,
    pub scoped_state: S,
    pub task: TaskView,
}

impl<S: AgentState> View for SubAgentSpec<S> {
    type V = SubAgentSpecView<S>;

    open spec fn view(&self) -> SubAgentSpecView<S> {
        SubAgentSpecView { id: self.id@, scoped_state: self.scoped_state, task: self.task@ }
    }
}

impl<S: AgentState> Clone for SubAgentSpec<S> {
    fn clone(&self) -> (copy: Self)
        ensures
            copy@ == self@,
    {
        SubAgentSpec {
            id: self.id.clone(),
            scoped_state: self.scoped_state.clone_state(),
            task: self.task.clone(),
        }
    }
}

/// The views of a sequence of tasks.
pub open spec fn task_views(tasks: Seq<Task>) -> Seq<TaskView> {
    tasks.map_values(|t: Task| t@)
}

/// The views of a sequence of subagent specifications.
pub open spec fn spec_views<S: AgentState>(specs: Seq<SubAgentSpec<S>>) -> Seq<SubAgentSpecView<S>> {
    specs.map_values(|s: SubAgentSpec<S>| s@)
}

// ============================================================================
// EXECUTORS
// ============================================================================

/// Runs one subagent. `produces` is the relation that the executor promises
/// between the state and task it was given and the delta it returns; an
/// executor that promises nothing defines it as `true`.
///
/// A host that leaves out one of the spec functions below (a host written
/// outside Verus always does, as it cannot name them) is described by that
/// function's default: what the library proves of such a host holds only
/// where its methods behave as the default says, and nothing checks that
/// they do.
pub trait AgentExecutor<S: AgentState> {
    open spec fn produces(&self, state: S, task: TaskView, delta: S::Delta) -> bool {
        true
    }

    fn run(&self, state: S, task: Task) -> (delta: S::Delta)
        ensures
            self.produces(state, task@, delta),
    ;
}

// ============================================================================
// MICRO-AGENTS
// ============================================================================

/// Micro-agents are atomic units that perform one small step.
///
/// A host that leaves out one of the spec functions below (a host written
/// outside Verus always does, as it cannot name them) is described by that
/// function's default: what the library proves of such a host holds only
/// where its methods behave as the default says, and nothing checks that
/// they do.
pub trait MicroAgent<S: AgentState> {
    /// Which tasks the micro-agent accepts.
    open spec fn spec_accepts(&self, task: TaskView) -> bool {
        true
    }

    fn accepts(&self, task: &Task) -> (accepted: bool)
        ensures
            accepted == self.spec_accepts(task@),
    ;

    fn execute(&self, state: S, task: Task) -> S::Delta;
}

// ============================================================================
// FRACTAL AGENTS
// ============================================================================

/// Recursion limits of a fractal agent.
#[derive(Clone, Copy, Debug, PartialEq, Eq)]
pub struct FractalConfig {
    pub max_depth: usize,
    pub max_cost: usize,
}

impl FractalConfig {
    /// The limits of a fractal agent that does not choose its own.
    pub fn standard() -> (cfg: FractalConfig)
        ensures
            cfg == (FractalConfig { max_depth: 3, max_cost: 128 }),
    {
        FractalConfig { max_depth: 3, max_cost: 128 }
    }
}

/// A node of a fractal expansion: its depth, cost, state and children.
#[derive(Clone, Debug)]
pub struct AgentTree<S: AgentState> {
    pub depth: usize,
    pub cost: usize,
    pub state: S,
    pub children: Vec<SubAgentSpec<S>>,
}

/// An agent that splits a state into subagents, level by level.
///
/// A host that leaves out one of the spec functions below (a host written
/// outside Verus always does, as it cannot name them) is described by that
/// function's default: what the library proves of such a host holds only
/// where its methods behave as the default says, and nothing checks that
/// they do.
pub trait FractalAgent<S: AgentState> {
    /// What `split` hands back; an agent whose `split` is verified states it.
    open spec fn spec_split(&self, state: S, depth: usize) -> Seq<SubAgentSpecView<S>> {
        Seq::empty()
    }

    /// The estimated cost of a state; one unless the agent says otherwise.
    open spec fn spec_estimate_cost(&self, state: S) -> usize {
        1
    }

    /// The recursion limits; depth 3 and cost 128 unless the agent says
    /// otherwise.
    open spec fn spec_config(&self) -> FractalConfig {
        FractalConfig { max_depth: 3, max_cost: 128 }
    }

    fn split(&self, state: S, depth: usize) -> (subs: Vec<SubAgentSpec<S>>)
        ensures
            spec_views(subs@) == self.spec_split(state, depth),
    ;

    fn estimate_cost(&self, state: &S) -> (cost: usize)
        ensures
            cost == self.spec_estimate_cost(*state),
    ;

    fn config(&self) -> (cfg: FractalConfig)
        ensures
            cfg == self.spec_config(),
    ;
}

// ============================================================================
// UNIFIED AGENT
// ============================================================================

/// An agent that may act as a micro-agent, as a fractal agent, or both.
///
/// A host that leaves out one of the spec functions below (a host written
/// outside Verus always does, as it cannot name them) is described by that
/// function's default: what the library proves of such a host holds only
/// where its methods behave as the default says, and nothing checks that
/// they do.
pub trait Agent<S: AgentState> {
    type Micro: MicroAgent<S>;

    type Fractal: FractalAgent<S>;

    /// The agent's micro-agent side; none unless the agent says otherwise.
    open spec fn spec_as_micro(&self) -> Option<Self::Micro> {
        None
    }

    /// The agent's fractal side; none unless the agent says otherwise.
    open spec fn spec_as_fractal(&self) -> Option<Self::Fractal> {
        None
    }

    fn as_micro(&self) -> (micro: Option<&Self::Micro>)
        ensures
            match micro {
                Some(m) => self.spec_as_micro() == Some(*m),
                None => self.spec_as_micro() is None,
            },
    ;

    fn as_fractal(&self) -> (fractal: Option<&Self::Fractal>)
        ensures
            match fractal {
                Some(f) => self.spec_as_fractal() == Some(*f),
                None => self.spec_as_fractal() is None,
            },
    ;
}

} // verus!
