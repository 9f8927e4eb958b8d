//! The engine's orchestrator: reflection gating, micro-agent acceptance and
//! fallback, fractal splitting, cost budgeting, collapse and merge.
use vstd::prelude::*;

use std::marker::PhantomData;
use std::sync::Arc;

use crate::agent_core::traits::{
    Agent, CollapseStrategy, CostPredictor, FractalAgent, MergeStrategy, MicroAgentAcceptance,
    MicroAgentFallback, ReflectiveAgent,
};
use crate::dax::{decimal, decimal_string};
use crate::traits::{task_views, AgentExecutor, AgentState, Task, TaskView};

verus! {

// ============================================================================
// EXECUTION RESULT
// ============================================================================

/// The deltas of one execution, the depth it ran at and what it cost.
pub struct DaxResult<D> {
    pub deltas: Vec<D>,
    pub recursion_depth: usize,
    pub cost: usize,
}

/// The one-line summary of a result: its number of deltas, depth and cost.
pub open spec fn result_summary(deltas_count: nat, recursion_depth: nat, cost: nat) -> Seq<char> {
    "DaxResult { deltas_count: "@ + decimal(deltas_count) + ", recursion_depth: "@ + decimal(recursion_depth)
        + ", cost: "@ + decimal(cost) + " }"@
}

impl<D> DaxResult<D> {
    /// A one-line summary: the number of deltas, the depth and the cost.
    pub fn summary(&self) -> (text: String)
        ensures
            text@ == result_summary(self.deltas.len() as nat, self.recursion_depth as nat, self.cost as nat),
    {
        proof {
            reveal_strlit("DaxResult { deltas_count: ");
            reveal_strlit(", recursion_depth: ");
            reveal_strlit(", cost: ");
            reveal_strlit(" }");
        }
        let mut text = String::from_str("DaxResult { deltas_count: ");
        text.append(decimal_string(self.deltas.len()).as_str());
        text.append(", recursion_depth: ");
        text.append(decimal_string(self.recursion_depth).as_str());
        text.append(", cost: ");
        text.append(decimal_string(self.cost).as_str());
        text.append(" }");
        assert(text@ =~= result_summary(self.deltas.len() as nat, self.recursion_depth as nat, self.cost as nat));
        text
    }
}

// ============================================================================
// THE RULES OF ONE EXECUTION
// ============================================================================

/// `a + b`, or `usize::MAX` where the sum does not fit.
pub open spec fn sat_add(a: usize, b: usize) -> usize {
    if a + b > usize::MAX {
        usize::MAX
    } else {
        (a + b) as usize
    }
}

/// Running sub-tasks on a budget, from `total` spent: each sub-task's
/// predicted cost is added; the first that takes the total over `max_cost`
/// is not run (its cost still counts) and stops the run. The number of
/// sub-tasks run, and the total.
pub open spec fn budget(total: usize, predicted: Seq<usize>, max_cost: usize) -> (nat, usize)
    decreases predicted.len(),
{
    if predicted.len() == 0 {
        (0, total)
    } else if total + predicted[0] > max_cost {
        (0, sat_add(total, predicted[0]))
    } else {
        let rest = budget((total + predicted[0]) as usize, predicted.drop_first(), max_cost);
        (rest.0 + 1, rest.1)
    }
}

/// How one execution ends.
pub enum EngineStep<D> {
    /// Nothing runs: too deep, reflection says no, or the assumptions cost
    /// too much.
    Halted { cost: usize },
    /// The agent declines the task; its fallback delta, if any, is the
    /// answer.
    Answered { cost: usize, fallback: Option<D> },
    /// The first `executed` sub-tasks run, then their merge is added.
    Ran { executed: nat, cost: usize },
}

/// The sub-tasks of a task: the agent's split, or the task itself.
pub open spec fn engine_sub_tasks<S: AgentState, A: FractalAgent<S>>(
    agent: A,
    state: S,
    task: TaskView,
    depth: usize,
) -> Seq<TaskView> {
    match agent.spec_split_task(state, task, depth) {
        Some(split) => split.sub_tasks,
        None => seq![task],
    }
}

/// The predicted cost of each sub-task.
pub open spec fn predicted_costs<S: AgentState, P: CostPredictor<S>>(
    predictor: P,
    state: S,
    tasks: Seq<TaskView>,
) -> Seq<usize> {
    tasks.map_values(|t: TaskView| predictor.spec_predict_task_cost(state, t))
}

/// How the execution of `task` on `state` at `depth`, with `cost` spent so
/// far, ends under the limits `max_depth` and `max_cost`.
pub open spec fn engine_step<S: AgentState, A: Agent<S> + MicroAgentAcceptance<S> + FractalAgent<S> + ReflectiveAgent<S> + MicroAgentFallback<S>>(
    agent: A,
    max_depth: usize,
    max_cost: usize,
    state: S,
    task: TaskView,
    depth: usize,
    cost: usize,
) -> EngineStep<S::Delta> {
    let reflection = agent.spec_reflect(state, task);
    let n: nat = reflection.assumptions.len();
    if depth > max_depth || !reflection.should_run {
        EngineStep::Halted { cost }
    } else if n != 0 && cost + n > max_cost {
        EngineStep::Halted { cost: sat_add(cost, n as usize) }
    } else {
        let total: usize = (cost + n) as usize;
        if !agent.spec_should_accept(state, task).accepted {
            EngineStep::Answered { cost: total, fallback: agent.spec_fallback(state, task) }
        } else {
            let subs = engine_sub_tasks(agent, state, task, depth);
            let run = budget(total, predicted_costs(agent.spec_cost_predictor(), state, subs), max_cost);
            EngineStep::Ran { executed: run.0, cost: run.1 }
        }
    }
}

/// The sum of a sequence of costs.
pub open spec fn cost_sum(costs: Seq<usize>) -> int
    decreases costs.len(),
{
    if costs.len() == 0 {
        0
    } else {
        costs[0] + cost_sum(costs.drop_first())
    }
}

/// The sub-tasks that run on a budget stay within it: what was spent before
/// plus their predicted costs is at most `max_cost`, and when every sub-task
/// runs the reported total is that sum.
pub proof fn lemma_budget_within_limit(total: usize, predicted: Seq<usize>, max_cost: usize)
    requires
        total <= max_cost,
    ensures
        budget(total, predicted, max_cost).0 <= predicted.len(),
        total + cost_sum(predicted.take(budget(total, predicted, max_cost).0 as int)) <= max_cost,
        budget(total, predicted, max_cost).0 == predicted.len() ==> budget(total, predicted, max_cost).1
            == total + cost_sum(predicted),
    decreases predicted.len(),
{
    if predicted.len() == 0 {
        assert(predicted.take(0) =~= Seq::<usize>::empty());
    } else if total + predicted[0] > max_cost {
        assert(predicted.take(0) =~= Seq::<usize>::empty());
    } else {
        let next = (total + predicted[0]) as usize;
        let rest = predicted.drop_first();
        lemma_budget_within_limit(next, rest, max_cost);
        let k: nat = budget(next, rest, max_cost).0;
        assert(predicted.take((k + 1) as int).drop_first() =~= rest.take(k as int));
        assert(predicted.take((k + 1) as int)[0] == predicted[0]);
    }
}

// ============================================================================
// DAX ORCHESTRATOR
// ============================================================================

/// The top-level orchestrator, with its depth and cost limits.
pub struct DaxOrchestrator<A, S> where
    A: Agent<S> + MicroAgentAcceptance<S> + FractalAgent<S> + ReflectiveAgent<S> + MicroAgentFallback<S>,
    S: AgentState,
 {
    pub agent: Arc<A>,
    pub max_depth: usize,
    pub max_cost: usize,
    pub _state_marker: PhantomData<S>,
}

impl<A, S> DaxOrchestrator<A, S> where
    A: Agent<S> + MicroAgentAcceptance<S> + FractalAgent<S> + ReflectiveAgent<S> + MicroAgentFallback<S>,
    S: AgentState,
 {
    /// An orchestrator with depth limit 64 and cost limit 100 000.
    pub fn new(agent: Arc<A>) -> (orchestrator: Self)
        ensures
            orchestrator.agent == agent,
            orchestrator.max_depth == 64,
            orchestrator.max_cost == 100_000,
    {
        DaxOrchestrator { agent, max_depth: 64, max_cost: 100_000, _state_marker: PhantomData }
    }

    /// Executes a task on a state from depth 0 with nothing spent.
    pub fn execute(&self, state: S, task: Task) -> (result: DaxResult<S::Delta>)
        ensures
            result.recursion_depth == 0,
            self.executes(state, task@, 0, 0, result),
    {
        self.execute_recursive(state, task, 0, 0)
    }

    /// The agent that the orchestrator drives.
    pub open spec fn spec_agent(&self) -> A {
        *self.agent
    }

    /// `result` is what executing `task` on `state` at `depth` with `cost`
    /// spent gives: the deltas and cost that `engine_step` prescribes, each
    /// sub-task's delta one that the agent's executor produced for it, and
    /// the last delta a merge of the others.
    pub open spec fn executes(&self, state: S, task: TaskView, depth: usize, cost: usize, result: DaxResult<S::Delta>) -> bool {
        let agent = self.spec_agent();
        match engine_step(agent, self.max_depth, self.max_cost, state, task, depth, cost) {
            EngineStep::Halted { cost } => result.deltas@.len() == 0 && result.cost == cost,
            EngineStep::Answered { cost, fallback } => {
                &&& result.cost == cost
                &&& result.deltas@ == match fallback {
                    Some(d) => seq![d],
                    None => Seq::<S::Delta>::empty(),
                }
            },
            EngineStep::Ran { executed, cost } => {
                let subs = engine_sub_tasks(agent, state, task, depth);
                &&& result.cost == cost
                &&& result.deltas@.len() == executed + 1
                &&& forall|i: int|
                    0 <= i < executed ==> agent.spec_executor().produces(state, subs[i], #[trigger] result.deltas@[i])
                &&& agent.spec_merge_strategy().merges(result.deltas@.take(executed as int), result.deltas@.last())
            },
        }
    }

    fn execute_recursive(&self, state: S, task: Task, depth: usize, cost: usize) -> (result: DaxResult<S::Delta>)
        ensures
            result.recursion_depth == depth,
            self.executes(state, task@, depth, cost, result),
    {
        let ghost agent = self.spec_agent();
        let ghost task_view = task@;
        // Depth guard.
        if depth > self.max_depth {
            return DaxResult { deltas: Vec::new(), recursion_depth: depth, cost };
        }
        // Reflection gating.
        let reflection = self.agent.reflect(&state, &task);
        if !reflection.should_run {
            return DaxResult { deltas: Vec::new(), recursion_depth: depth, cost };
        }
        // A verification charge for each assumption.
        let mut total_cost: usize = cost;
        let n: usize = reflection.assumptions.len();
        assert(n == reflection@.assumptions.len());
        if n != 0 {
            if total_cost > self.max_cost || n > self.max_cost - total_cost {
                let over = if n > usize::MAX - total_cost { usize::MAX } else { total_cost + n };
                return DaxResult { deltas: Vec::new(), recursion_depth: depth, cost: over };
            }
            total_cost = total_cost + n;
        }
        // Micro-agent acceptance, and the fallback of a declined task.
        let decision = self.agent.should_accept(&state, &task);
        if !decision.accepted {
            let fallback = self.agent.fallback(&state, &task);
            match fallback {
                Some(fallback_delta) => {
                    let mut deltas: Vec<S::Delta> = Vec::new();
                    deltas.push(fallback_delta);
                    return DaxResult { deltas, recursion_depth: depth, cost: total_cost };
                },
                None => {
                    return DaxResult { deltas: Vec::new(), recursion_depth: depth, cost: total_cost };
                },
            }
        }
        // Fractal split.
        let split = self.agent.split_task(&state, &task, depth);
        let sub_tasks = match split {
            Some(s) => s.sub_tasks,
            None => {
                let mut only: Vec<Task> = Vec::new();
                only.push(task.clone());
                only
            },
        };
        let ghost subs = task_views(sub_tasks@);
        assert(subs =~= engine_sub_tasks(agent, state, task_view, depth));
        let ghost predicted = predicted_costs(agent.spec_cost_predictor(), state, subs);
        let ghost start_total = total_cost;
        assert(predicted.skip(0) =~= predicted);
        // Run sub-tasks while the predicted cost stays within the budget.
        let mut all_deltas: Vec<S::Delta> = Vec::new();
        let mut i: usize = 0;
        let mut over_budget = false;
        while i < sub_tasks.len() && !over_budget
            invariant
                i <= sub_tasks.len(),
                subs == task_views(sub_tasks@),
                predicted == predicted_costs(agent.spec_cost_predictor(), state, subs),
                agent == self.spec_agent(),
                all_deltas.len() == i,
                forall|j: int| 0 <= j < i ==> agent.spec_executor().produces(state, subs[j], #[trigger] all_deltas@[j]),
                !over_budget ==> budget(start_total, predicted, self.max_cost) == ({
                    let rest = budget(total_cost, predicted.skip(i as int), self.max_cost);
                    ((rest.0 + i) as nat, rest.1)
                }),
                over_budget ==> budget(start_total, predicted, self.max_cost) == (i as nat, total_cost),
            decreases sub_tasks.len() - i, if over_budget { 0int } else { 1int },
        {
            let predicted_cost: usize = self.agent.cost_predictor().predict_task_cost(&state, &sub_tasks[i]);
            proof {
                assert(predicted.skip(i as int)[0] == predicted[i as int]);
                assert(predicted.skip(i as int).drop_first() =~= predicted.skip(i + 1));
            }
            if total_cost > self.max_cost || predicted_cost > self.max_cost - total_cost {
                total_cost = if predicted_cost > usize::MAX - total_cost {
                    usize::MAX
                } else {
                    total_cost + predicted_cost
                };
                over_budget = true;
            } else {
                total_cost = total_cost + predicted_cost;
                let delta = self.agent.execute(state.clone_state(), sub_tasks[i].clone());
                all_deltas.push(delta);
                i = i + 1;
            }
        }
        proof {
            if !over_budget {
                assert(predicted.skip(i as int).len() == 0);
            }
        }
        // Collapse into the working state.
        let mut working = state;
        self.agent.collapse_strategy().apply_many(&mut working, all_deltas.as_slice());
        // Merge, and hand the merge back with the deltas.
        let merged = self.agent.merge_strategy().merge(all_deltas.as_slice());
        let ghost ran = all_deltas@;
        all_deltas.push(merged);
        assert(all_deltas@.take(i as int) =~= ran);
        DaxResult { deltas: all_deltas, recursion_depth: depth, cost: total_cost }
    }
}

} // verus!
