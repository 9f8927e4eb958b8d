//! The engine's worker agent: routing gated by a do-not-do graph,
//! reflection, a one-level fractal split, cost prediction, collapse and
//! merge through the strategies it was built with.
use vstd::prelude::*;

use std::sync::Arc;

use crate::agent_core::traits::dnd::{
    debug_str, debug_text, forbidden_reason, graph_text, lemma_forbidden_reason_first_match, ForbiddenActionView,
};
use crate::agent_core::traits::fractal::{FractalSplitView, STANDARD_MAX_FRACTAL_COST, STANDARD_MAX_FRACTAL_DEPTH};
use crate::agent_core::traits::micro::MicroRouteView;
use crate::agent_core::traits::reflect::ReflectionView;
use crate::agent_core::traits::{
    Agent, AgentCapabilities, CapabilityIntrospection, CollapseStrategy, CostPredictor,
    DoNotDoAgent, DoNotDoGraph, FractalAgent, FractalSplit, MergeStrategy, MicroAgentAcceptance,
    MicroAgentExecutor, MicroAgentFallback, MicroRouteDecision, ReflectionData, ReflectiveAgent,
};
use crate::engine::dax::{engine_step, DaxOrchestrator, DaxResult, EngineStep};
use crate::traits::{AgentExecutor, AgentState, Task, TaskView};

verus! {

// ============================================================================
// SUBAGENT STRUCTURE
// ============================================================================

/// A worker agent: a name, the strategies it was built with, and the
/// do-not-do graph that gates it.
pub struct SubAgent<S, C, M, P, E> where
    S: AgentState,
    C: CollapseStrategy<S>,
    M: MergeStrategy<S::Delta>,
    P: CostPredictor<S>,
    E: AgentExecutor<S>,
 {
    pub name: String,
    pub collapse: Arc<C>,
    pub merge: Arc<M>,
    pub cost: Arc<P>,
    pub executor: Arc<E>,
    pub dnd: DoNotDoGraph,
    pub _state_marker: std::marker::PhantomData<S>,
}

impl<S, C, M, P, E> SubAgent<S, C, M, P, E> where
    S: AgentState,
    C: CollapseStrategy<S>,
    M: MergeStrategy<S::Delta>,
    P: CostPredictor<S>,
    E: AgentExecutor<S>,
 {
    /// A worker with the given name and strategies that forbids nothing.
    pub fn new(name: &str, collapse: Arc<C>, merge: Arc<M>, cost: Arc<P>, executor: Arc<E>) -> (agent: Self)
        ensures
            agent.name@ == name@,
            agent.collapse == collapse,
            agent.merge == merge,
            agent.cost == cost,
            agent.executor == executor,
            agent.dnd@ == Seq::<ForbiddenActionView>::empty(),
    {
        SubAgent {
            name: String::from_str(name),
            collapse,
            merge,
            cost,
            executor,
            dnd: DoNotDoGraph::new(),
            _state_marker: std::marker::PhantomData,
        }
    }
}

/// The one-line text of a worker: its name, its strategies by kind, and its
/// do-not-do graph.
pub open spec fn subagent_text(name: Seq<char>, forbidden: Seq<ForbiddenActionView>) -> Seq<char> {
    "SubAgent { name: "@ + debug_str(name)
        + ", collapse: \"<dyn CollapseStrategy>\", merge: \"<dyn MergeStrategy>\", cost: \"<dyn CostPredictor>\", executor: \"<dyn AgentExecutor>\", dnd: "@
        + graph_text(forbidden) + " }"@
}

impl<S, C, M, P, E> SubAgent<S, C, M, P, E> where
    S: AgentState,
    C: CollapseStrategy<S>,
    M: MergeStrategy<S::Delta>,
    P: CostPredictor<S>,
    E: AgentExecutor<S>,
 {
    /// A one-line text of the worker, as `Debug` shows it.
    pub fn summary(&self) -> (text: String)
        ensures
            text@ == subagent_text(self.name@, self.dnd@),
    {
        proof {
            reveal_strlit("SubAgent { name: ");
            reveal_strlit(", collapse: \"<dyn CollapseStrategy>\", merge: \"<dyn MergeStrategy>\", cost: \"<dyn CostPredictor>\", executor: \"<dyn AgentExecutor>\", dnd: ");
            reveal_strlit(" }");
        }
        let mut text = String::from_str("SubAgent { name: ");
        text.append(debug_text(self.name.as_str()).as_str());
        text.append(", collapse: \"<dyn CollapseStrategy>\", merge: \"<dyn MergeStrategy>\", cost: \"<dyn CostPredictor>\", executor: \"<dyn AgentExecutor>\", dnd: ");
        text.append(self.dnd.summary().as_str());
        text.append(" }");
        assert(text@ =~= subagent_text(self.name@, self.dnd@));
        text
    }
}

/// The assumption the worker notes about a task: that it is safe.
pub open spec fn safety_assumption(task_name: Seq<char>) -> Seq<char> {
    "Task '"@ + task_name + "' is safe"@
}

// ============================================================================
// MICRO-AGENT ACCEPTANCE, EXECUTION, FALLBACK
// ============================================================================

impl<S, C, M, P, E> MicroAgentAcceptance<S> for SubAgent<S, C, M, P, E> where
    S: AgentState,
    C: CollapseStrategy<S>,
    M: MergeStrategy<S::Delta>,
    P: CostPredictor<S>,
    E: AgentExecutor<S>,
 {
    /// Declines a forbidden task, giving the reason; takes every other task.
    open spec fn spec_should_accept(&self, state: S, task: TaskView) -> MicroRouteView {
        match forbidden_reason(self.dnd@, task.name) {
            Some(reason) => MicroRouteView { accepted: false, reason: Some(reason) },
            None => MicroRouteView { accepted: true, reason: None },
        }
    }

    open spec fn spec_name(&self) -> Option<Seq<char>> {
        Some(self.name@)
    }

    fn should_accept(&self, state: &S, task: &Task) -> (decision: MicroRouteDecision) {
        match self.dnd.is_forbidden(task) {
            Some(reason) => MicroRouteDecision::reject(Some(reason)),
            None => MicroRouteDecision::accept(None),
        }
    }

    fn name(&self) -> (name: Option<String>) {
        Some(self.name.clone())
    }
}

impl<S, C, M, P, E> MicroAgentExecutor<S> for SubAgent<S, C, M, P, E> where
    S: AgentState,
    C: CollapseStrategy<S>,
    M: MergeStrategy<S::Delta>,
    P: CostPredictor<S>,
    E: AgentExecutor<S>,
 {
    /// A delta that the worker's executor produced for the task.
    open spec fn executes(&self, state: S, task: TaskView, delta: S::Delta) -> bool {
        (*self.executor).produces(state, task, delta)
    }

    fn execute(&self, state: &S, task: &Task) -> (delta: S::Delta) {
        self.executor.run(state.clone_state(), task.clone())
    }
}

impl<S, C, M, P, E> MicroAgentFallback<S> for SubAgent<S, C, M, P, E> where
    S: AgentState,
    C: CollapseStrategy<S>,
    M: MergeStrategy<S::Delta>,
    P: CostPredictor<S>,
    E: AgentExecutor<S>,
 {
    open spec fn spec_reason(&self) -> Option<Seq<char>> {
        Some("fallback not implemented"@)
    }

    fn fallback(&self, state: &S, task: &Task) -> (delta: Option<S::Delta>) {
        None
    }

    fn reason(&self) -> (reason: Option<String>) {
        proof { reveal_strlit("fallback not implemented"); }
        Some(String::from_str("fallback not implemented"))
    }
}

// ============================================================================
// FRACTAL AGENT, REFLECTION
// ============================================================================

impl<S, C, M, P, E> FractalAgent<S> for SubAgent<S, C, M, P, E> where
    S: AgentState,
    C: CollapseStrategy<S>,
    M: MergeStrategy<S::Delta>,
    P: CostPredictor<S>,
    E: AgentExecutor<S>,
 {
    /// The task itself, as the one sub-task of a split one level deeper.
    open spec fn spec_split_task(&self, state: S, task: TaskView, depth: usize) -> Option<FractalSplitView> {
        Some(FractalSplitView { sub_tasks: seq![task], reason: None, depth_increase: 1 })
    }

    fn split_task(&self, state: &S, task: &Task, depth: usize) -> (split: Option<FractalSplit>) {
        let mut sub_tasks: Vec<Task> = Vec::new();
        sub_tasks.push(task.clone());
        let split = FractalSplit::new(sub_tasks);
        assert(split@.sub_tasks =~= seq![task@]);
        Some(split)
    }

    fn max_fractal_depth(&self) -> (limit: usize) {
        STANDARD_MAX_FRACTAL_DEPTH
    }

    fn max_fractal_cost(&self) -> (limit: usize) {
        STANDARD_MAX_FRACTAL_COST
    }
}

impl<S, C, M, P, E> ReflectiveAgent<S> for SubAgent<S, C, M, P, E> where
    S: AgentState,
    C: CollapseStrategy<S>,
    M: MergeStrategy<S::Delta>,
    P: CostPredictor<S>,
    E: AgentExecutor<S>,
 {
    /// Run, on the one assumption that the task is safe.
    open spec fn spec_reflect(&self, state: S, task: TaskView) -> ReflectionView {
        ReflectionView { should_run: true, assumptions: seq![safety_assumption(task.name)] }
    }

    fn reflect(&self, state: &S, task: &Task) -> (data: ReflectionData) {
        let mut r = ReflectionData::new();
        proof {
            reveal_strlit("Task '");
            reveal_strlit("' is safe");
        }
        let mut note = String::from_str("Task '");
        note.append(task.name.as_str());
        note.append("' is safe");
        r.assumptions.push(note);
        assert(r@.assumptions =~= seq![safety_assumption(task.name@)]);
        r
    }
}

// ============================================================================
// DO-NOT-DO GATING, CAPABILITIES
// ============================================================================

impl<S, C, M, P, E> DoNotDoAgent<S> for SubAgent<S, C, M, P, E> where
    S: AgentState,
    C: CollapseStrategy<S>,
    M: MergeStrategy<S::Delta>,
    P: CostPredictor<S>,
    E: AgentExecutor<S>,
 {
    open spec fn spec_dnd_graph(&self) -> Seq<ForbiddenActionView> {
        self.dnd@
    }

    fn dnd_graph(&self) -> (graph: &DoNotDoGraph) {
        &self.dnd
    }

    fn dnd_graph_mut(&mut self) -> (graph: &mut DoNotDoGraph) {
        &mut self.dnd
    }
}

impl<S, C, M, P, E> CapabilityIntrospection<S> for SubAgent<S, C, M, P, E> where
    S: AgentState,
    C: CollapseStrategy<S>,
    M: MergeStrategy<S::Delta>,
    P: CostPredictor<S>,
    E: AgentExecutor<S>,
 {
    /// Every capability.
    open spec fn spec_capabilities(&self) -> AgentCapabilities {
        AgentCapabilities {
            can_reflect: true,
            can_fractal: true,
            has_scratchpad: true,
            has_dnd: true,
            can_merge: true,
            can_collapse: true,
            can_predict_cost: true,
        }
    }

    fn capabilities(&self) -> (caps: AgentCapabilities) {
        let mut c = AgentCapabilities::new();
        c.can_reflect = true;
        c.can_fractal = true;
        c.has_scratchpad = true;
        c.has_dnd = true;
        c.can_merge = true;
        c.can_collapse = true;
        c.can_predict_cost = true;
        c
    }
}

// ============================================================================
// UNIFIED AGENT
// ============================================================================

impl<S, C, M, P, E> Agent<S> for SubAgent<S, C, M, P, E> where
    S: AgentState,
    C: CollapseStrategy<S>,
    M: MergeStrategy<S::Delta>,
    P: CostPredictor<S>,
    E: AgentExecutor<S>,
 {
    type Collapse = C;

    type Merge = M;

    type Cost = P;

    type Executor = E;

    open spec fn spec_collapse_strategy(&self) -> C {
        *self.collapse
    }

    open spec fn spec_merge_strategy(&self) -> M {
        *self.merge
    }

    open spec fn spec_cost_predictor(&self) -> P {
        *self.cost
    }

    open spec fn spec_executor(&self) -> E {
        *self.executor
    }

    open spec fn spec_agent_name(&self) -> Seq<char> {
        self.name@
    }

    fn name(&self) -> (name: &str) {
        self.name.as_str()
    }

    fn collapse_strategy(&self) -> (strategy: &C) {
        &*self.collapse
    }

    fn merge_strategy(&self) -> (strategy: &M) {
        &*self.merge
    }

    fn cost_predictor(&self) -> (predictor: &P) {
        &*self.cost
    }

    fn executor(&self) -> (executor: &E) {
        &*self.executor
    }
}


// ============================================================================
// LAW: FORBIDDEN TASKS DO NOT RUN
// ============================================================================

/// An orchestrator driving a worker never runs a task that the worker's
/// do-not-do graph forbids: the execution ends with no delta at all.
pub proof fn lemma_forbidden_task_never_runs<S, C, M, P, E>(
    orchestrator: DaxOrchestrator<SubAgent<S, C, M, P, E>, S>,
    state: S,
    task: TaskView,
    depth: usize,
    cost: usize,
    result: DaxResult<S::Delta>,
) where
    S: AgentState,
    C: CollapseStrategy<S>,
    M: MergeStrategy<S::Delta>,
    P: CostPredictor<S>,
    E: AgentExecutor<S>,

    requires
        forbidden_reason(orchestrator.spec_agent().dnd@, task.name) is Some,
        orchestrator.executes(state, task, depth, cost, result),
    ensures
        result.deltas@.len() == 0,
        !(engine_step(
            orchestrator.spec_agent(),
            orchestrator.max_depth,
            orchestrator.max_cost,
            state,
            task,
            depth,
            cost,
        ) is Ran),
{
}


// ============================================================================
// LAW: A WORKER TAKES EXACTLY THE TASKS ITS GRAPH DOES NOT FORBID
// ============================================================================

/// A worker takes a task exactly when no entry of its do-not-do graph names
/// the task, whatever else the graph holds; so it takes exactly the tasks
/// that `allowed` lets through. A declined task gets the reason of the first
/// entry that names it, and a taken task gets no reason.
pub proof fn lemma_worker_accepts_exactly_unforbidden<S, C, M, P, E>(
    worker: SubAgent<S, C, M, P, E>,
    state: S,
    task: TaskView,
) where
    S: AgentState,
    C: CollapseStrategy<S>,
    M: MergeStrategy<S::Delta>,
    P: CostPredictor<S>,
    E: AgentExecutor<S>,

    ensures
        worker.spec_should_accept(state, task).accepted <==> (forall|j: int|
            0 <= j < worker.dnd@.len() ==> #[trigger] worker.dnd@[j].task_name != task.name),
        worker.spec_should_accept(state, task).accepted == (forbidden_reason(
            worker.spec_dnd_graph(),
            task.name,
        ) is None),
        worker.spec_should_accept(state, task).accepted ==> worker.spec_should_accept(state, task).reason is None,
        !worker.spec_should_accept(state, task).accepted ==> exists|j: int|
            0 <= j < worker.dnd@.len() && #[trigger] worker.dnd@[j].task_name == task.name
                && worker.spec_should_accept(state, task).reason == Some(worker.dnd@[j].reason)
                && forall|k: int| 0 <= k < j ==> worker.dnd@[k].task_name != task.name,
{
    lemma_forbidden_reason_first_match(worker.dnd@, task.name);
}

} // verus!
