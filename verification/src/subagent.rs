//! Subagent execution: routing, fractal recursion and runners.
use vstd::prelude::*;

use crate::dax::{dax_expand_fractal, expand_spec};
use crate::traits::{
    spec_views, Agent, AgentExecutor, AgentState, FractalAgent, MicroAgent, SubAgentSpec, SubAgentSpecView,
    Task, TaskView,
};

verus! {

// ============================================================================
// RESULT ENVELOPE
// ============================================================================

/// What one subagent handed back: its id, its delta and optional metadata
/// (key and value pairs, no key twice: see `distinct_keys`).
#[derive(Debug)]
pub struct SubAgentResult<D> {
    pub id: String,
    pub delta: D,
    pub metadata: Option<Vec<(String, String)>>,
}

/// The mathematical value of a result envelope.
pub struct SubAgentResultView<D> {
    pub id: Seq<char>,
    pub delta: D,
    pub metadata: Option<Seq<(Seq<char>, Seq<char>)>>,
}

/// The view of a metadata list.
pub open spec fn metadata_view(metadata: Option<Vec<(String, String)>>) -> Option<Seq<(Seq<char>, Seq<char>)>> {
    match metadata {
        Some(pairs) => Some(pairs@.map_values(|p: (String, String)| (p.0@, p.1@))),
        None => None,
    }
}

impl<D> View for SubAgentResult<D> {
    type V = SubAgentResultView<D>;

    open spec fn view(&self) -> SubAgentResultView<D> {
        SubAgentResultView { id: self.id@, delta: self.delta, metadata: metadata_view(self.metadata) }
    }
}

/// No key occurs twice among the metadata pairs.
pub open spec fn distinct_keys(pairs: Seq<(Seq<char>, Seq<char>)>) -> bool {
    forall|i: int, j: int| 0 <= i < j < pairs.len() ==> pairs[i].0 != pairs[j].0
}

/// The metadata that the local runner attaches has no key twice.
pub proof fn lemma_local_metadata_keys_distinct()
    ensures
        distinct_keys(local_metadata()),
{
}

/// The metadata that the local runner attaches to each result.
pub open spec fn local_metadata() -> Seq<(Seq<char>, Seq<char>)> {
    seq![("executor"@, "local"@)]
}

fn local_metadata_pairs() -> (pairs: Vec<(String, String)>)
    ensures
        pairs@.map_values(|p: (String, String)| (p.0@, p.1@)) == local_metadata(),
{
    let mut pairs: Vec<(String, String)> = Vec::new();
    pairs.push((String::from_str("executor"), String::from_str("local")));
    assert(pairs@.map_values(|p: (String, String)| (p.0@, p.1@)) =~= local_metadata());
    pairs
}

// ============================================================================
// SYNC RUNNER (LOCAL)
// ============================================================================

/// A result of the local runner for `spec`: same id, a delta that the
/// executor produced for the spec's state and task, and the local metadata.
pub open spec fn is_local_result<S: AgentState, E: AgentExecutor<S>>(
    executor: E,
    spec: SubAgentSpecView<S>,
    result: SubAgentResultView<S::Delta>,
) -> bool {
    &&& result.id == spec.id
    &&& executor.produces(spec.scoped_state, spec.task, result.delta)
    &&& result.metadata == Some(local_metadata())
}

/// Runs every subagent on the current thread, in order.
pub fn run_subagents_local<S: AgentState, E: AgentExecutor<S>>(
    specs: Vec<SubAgentSpec<S>>,
    executor: &E,
) -> (results: Vec<SubAgentResult<S::Delta>>)
    ensures
        results.len() == specs.len(),
        forall|i: int|
            0 <= i < specs.len() ==> is_local_result(*executor, #[trigger] specs@[i]@, results@[i]@),
{
    let ghost input = specs@;
    let mut results: Vec<SubAgentResult<S::Delta>> = Vec::new();
    for spec in it: specs.into_iter()
        invariant
            it.seq() == input,
            results.len() == it.index(),
            forall|i: int|
                0 <= i < results.len() ==> is_local_result(*executor, #[trigger] input[i]@, results@[i]@),
    {
        let meta = local_metadata_pairs();
        let task = spec.task.clone();
        let delta = executor.run(spec.scoped_state, task);
        results.push(SubAgentResult { id: spec.id, delta, metadata: Some(meta) });
    }
    results
}


// ============================================================================
// MICRO-AGENT ROUTER
// ============================================================================

/// The agent acts as a micro-agent that accepts the task.
pub open spec fn routes_to<S: AgentState, A: Agent<S>>(agent: A, task: TaskView) -> bool {
    match agent.spec_as_micro() {
        Some(micro) => micro.spec_accepts(task),
        None => false,
    }
}

/// Routes a task to the micro-agent side of the first agent whose
/// micro-agent accepts it; `None` when no agent's micro-agent does.
pub fn route_micro_agent<'a, S: AgentState, A: Agent<S>>(
    agents: &'a [A],
    task: &Task,
) -> (routed: Option<&'a A::Micro>)
    ensures
        match routed {
            Some(micro) => exists|i: int|
                {
                    &&& 0 <= i < agents@.len()
                    &&& #[trigger] routes_to(agents@[i], task@)
                    &&& agents@[i].spec_as_micro() == Some(*micro)
                    &&& forall|j: int| 0 <= j < i ==> !routes_to(agents@[j], task@)
                },
            None => forall|i: int| 0 <= i < agents@.len() ==> !#[trigger] routes_to(agents@[i], task@),
        },
{
    let mut i: usize = 0;
    while i < agents.len()
        invariant
            i <= agents@.len(),
            forall|j: int| 0 <= j < i ==> !#[trigger] routes_to(agents@[j], task@),
        decreases agents@.len() - i,
    {
        let agent = &agents[i];
        match agent.as_micro() {
            Some(micro) => {
                if micro.accepts(task) {
                    assert(routes_to(agents@[i as int], task@));
                    return Some(micro);
                }
            },
            None => {},
        }
        i = i + 1;
    }
    None
}

// ============================================================================
// FRACTAL EXECUTION ENGINE
// ============================================================================

/// Recursively expands a fractal agent from `depth` on; the same expansion
/// as `dax_expand_fractal`.
pub fn run_fractal_recursive<S: AgentState, F: FractalAgent<S>>(
    agent: &F,
    state: S,
    depth: usize,
) -> (expanded: Vec<SubAgentSpec<S>>)
    ensures
        spec_views(expanded@) == expand_spec(*agent, state, depth),
{
    dax_expand_fractal(agent, state, depth)
}

// ============================================================================
// ONE SUBAGENT, AND GATHERING RESULTS OF SEPARATE RUNS
// ============================================================================

/// Runs one subagent; the result carries its id and no metadata.
pub fn run_subagent<S: AgentState, E: AgentExecutor<S>>(
    spec: SubAgentSpec<S>,
    executor: &E,
) -> (result: SubAgentResult<S::Delta>)
    ensures
        result@.id == spec@.id,
        executor.produces(spec.scoped_state, spec.task@, result.delta),
        result.metadata is None,
{
    let task = spec.task.clone();
    let delta = executor.run(spec.scoped_state, task);
    SubAgentResult { id: spec.id, delta, metadata: None }
}

/// The results of the runs that finished, in the order of the runs.
pub open spec fn finished<T>(outcomes: Seq<Option<T>>) -> Seq<T>
    decreases outcomes.len(),
{
    if outcomes.len() == 0 {
        seq![]
    } else {
        let earlier = finished(outcomes.drop_last());
        match outcomes.last() {
            Some(r) => earlier.push(r),
            None => earlier,
        }
    }
}

/// When every run finished, every result is kept, in the order of the runs.
pub proof fn lemma_finished_keeps_all<T>(outcomes: Seq<Option<T>>)
    requires
        forall|i: int| 0 <= i < outcomes.len() ==> (#[trigger] outcomes[i]) is Some,
    ensures
        finished(outcomes).len() == outcomes.len(),
        forall|i: int| 0 <= i < outcomes.len() ==> Some(#[trigger] finished(outcomes)[i]) == outcomes[i],
    decreases outcomes.len(),
{
    if outcomes.len() > 0 {
        let init = outcomes.drop_last();
        assert forall|i: int| 0 <= i < init.len() implies (#[trigger] init[i]) is Some by {
            assert(init[i] == outcomes[i]);
        }
        lemma_finished_keeps_all(init);
        assert(outcomes.last() is Some);
        assert forall|i: int| 0 <= i < outcomes.len() implies Some(#[trigger] finished(outcomes)[i]) == outcomes[i] by {
            if i < init.len() {
                assert(finished(outcomes)[i] == finished(init)[i]);
                assert(init[i] == outcomes[i]);
            }
        }
    }
}

/// Keeps the results of the runs that finished, in input order, and drops
/// the runs that failed.
pub fn gather_results<D>(outcomes: Vec<Option<SubAgentResult<D>>>) -> (results: Vec<SubAgentResult<D>>)
    ensures
        results@ == finished(outcomes@),
{
    let ghost input = outcomes@;
    let mut results: Vec<SubAgentResult<D>> = Vec::new();
    for outcome in it: outcomes.into_iter()
        invariant
            it.seq() == input,
            it.index() <= input.len(),
            results@ == finished(input.take(it.index() as int)),
    {
        proof {
            let taken = input.take(it.index() + 1);
            assert(taken.drop_last() =~= input.take(it.index() as int));
        }
        match outcome {
            Some(r) => results.push(r),
            None => {},
        }
    }
    assert(input.take(input.len() as int) =~= input);
    results
}

} // verus!
