use std::sync::Arc;

use dax_agent_orchestrator::agent_core::traits::{
    Agent, CapabilityIntrospection, CollapseStrategy, CostPredictor, DoNotDoAgent, FractalAgent,
    MergeStrategy, MicroAgentAcceptance, MicroAgentExecutor, MicroAgentFallback, ReflectiveAgent,
};
use dax_agent_orchestrator::engine::dax::DaxOrchestrator;
use dax_agent_orchestrator::engine::subagent::SubAgent;
use dax_agent_orchestrator::{AgentExecutor, AgentState, Task};

#[derive(Clone, Debug, PartialEq)]
struct Counter {
    pub value: i64,
}

impl AgentState for Counter {
    type Delta = i64;

    fn spec_apply_delta(self, delta: i64) -> Self {
        Counter { value: self.value + delta }
    }

    fn apply_delta(&mut self, delta: &i64) {
        self.value += *delta;
    }

    fn clone_state(&self) -> Self {
        self.clone()
    }
}

struct InOrder;

impl CollapseStrategy<Counter> for InOrder {
    fn apply_many(&self, state: &mut Counter, deltas: &[i64]) {
        for d in deltas {
            state.apply_delta(d);
        }
    }
}

struct Sum;

impl MergeStrategy<i64> for Sum {
    fn merge(&self, deltas: &[i64]) -> i64 {
        deltas.iter().sum()
    }
}

struct PayloadCost;

impl CostPredictor<Counter> for PayloadCost {
    fn predict_task_cost(&self, _state: &Counter, task: &Task) -> usize {
        task.payload.parse::<usize>().unwrap_or(1)
    }

    fn predict_many(&self, state: &Counter, tasks: &[Task]) -> usize {
        tasks.iter().map(|t| self.predict_task_cost(state, t)).sum()
    }
}

struct PayloadExecutor;

impl AgentExecutor<Counter> for PayloadExecutor {
    fn run(&self, _state: Counter, task: Task) -> i64 {
        task.payload.parse::<i64>().unwrap_or(1)
    }
}

type Worker = SubAgent<Counter, InOrder, Sum, PayloadCost, PayloadExecutor>;

fn worker() -> Worker {
    SubAgent::new("worker", Arc::new(InOrder), Arc::new(Sum), Arc::new(PayloadCost), Arc::new(PayloadExecutor))
}

#[test]
fn orchestrator_limits() {
    let orchestrator = DaxOrchestrator::new(Arc::new(worker()));
    assert_eq!(orchestrator.max_depth, 64);
    assert_eq!(orchestrator.max_cost, 100_000);
}

#[test]
fn allowed_task_runs_and_is_merged() {
    let orchestrator = DaxOrchestrator::new(Arc::new(worker()));
    let result = orchestrator.execute(Counter { value: 0 }, Task::new("inc-A", "3"));
    assert_eq!(result.deltas, vec![3, 3]);
    assert_eq!(result.recursion_depth, 0);
    assert_eq!(result.cost, 4);
}

#[test]
fn forbidden_task_is_declined() {
    let mut w = worker();
    w.dnd_graph_mut().forbid("inc-A", "not today");
    assert!(!w.allowed(&Task::new("inc-A", "3")));
    assert!(w.allowed(&Task::new("inc-B", "3")));
    let orchestrator = DaxOrchestrator::new(Arc::new(w));
    let result = orchestrator.execute(Counter { value: 0 }, Task::new("inc-A", "3"));
    assert!(result.deltas.is_empty());
    assert_eq!(result.cost, 1);
}

#[test]
fn over_budget_task_is_not_run() {
    let mut orchestrator = DaxOrchestrator::new(Arc::new(worker()));
    orchestrator.max_cost = 2;
    let result = orchestrator.execute(Counter { value: 0 }, Task::new("inc-A", "3"));
    assert_eq!(result.deltas, vec![0]);
    assert_eq!(result.cost, 4);
}

#[test]
fn assumptions_over_budget_halt() {
    let mut orchestrator = DaxOrchestrator::new(Arc::new(worker()));
    orchestrator.max_cost = 0;
    let result = orchestrator.execute(Counter { value: 0 }, Task::new("inc-A", "3"));
    assert!(result.deltas.is_empty());
    assert_eq!(result.cost, 1);
}

#[test]
fn worker_sides() {
    let w = worker();
    let state = Counter { value: 2 };
    let task = Task::new("inc-A", "3");
    assert_eq!(MicroAgentAcceptance::name(&w), Some("worker".to_string()));
    assert_eq!(Agent::name(&w), "worker");
    assert!(w.should_accept(&state, &task).accepted);
    assert_eq!(MicroAgentExecutor::execute(&w, &state, &task), 3);
    assert_eq!(Agent::execute(&w, state.clone(), task.clone()), 3);
    assert_eq!(w.fallback(&state, &task), None);
    assert_eq!(w.reason(), Some("fallback not implemented".to_string()));
    let split = w.split_task(&state, &task, 5).unwrap();
    assert_eq!(split.sub_tasks.len(), 1);
    assert_eq!(split.sub_tasks[0].name, "inc-A");
    assert_eq!(split.depth_increase, 1);
    assert!(w.can_fractal());
    assert_eq!(w.max_fractal_depth(), 32);
    assert_eq!(w.max_fractal_cost(), 10_000);
    let reflection = w.reflect(&state, &task);
    assert!(reflection.should_run);
    assert_eq!(reflection.assumptions, vec!["Task 'inc-A' is safe".to_string()]);
    let caps = w.capabilities();
    assert!(caps.can_reflect && caps.can_fractal && caps.has_scratchpad && caps.has_dnd);
    assert!(caps.can_merge && caps.can_collapse && caps.can_predict_cost);
    let mut working = Counter { value: 1 };
    w.collapse_strategy().apply_many(&mut working, &[2, 3]);
    assert_eq!(working.value, 6);
    assert_eq!(w.merge_strategy().merge(&[2, 3]), 5);
    assert_eq!(w.cost_predictor().predict_many(&state, &[task.clone(), Task::new("x", "4")]), 7);
    assert_eq!(w.executor().run(state, task), 3);
}

#[test]
fn forbidden_reason_is_given() {
    let mut w = worker();
    w.dnd_graph_mut().forbid("rm", "dangerous");
    let decision = w.should_accept(&Counter { value: 0 }, &Task::new("rm", ""));
    assert!(!decision.accepted);
    assert_eq!(decision.reason, Some("dangerous".to_string()));
    assert_eq!(w.dnd_graph().forbidden.len(), 1);
}

#[test]
fn result_summary_line() {
    let orchestrator = DaxOrchestrator::new(Arc::new(worker()));
    let result = orchestrator.execute(Counter { value: 0 }, Task::new("inc-A", "3"));
    assert_eq!(result.summary(), "DaxResult { deltas_count: 2, recursion_depth: 0, cost: 4 }");
    let mut tight = DaxOrchestrator::new(Arc::new(worker()));
    tight.max_cost = 0;
    let halted = tight.execute(Counter { value: 0 }, Task::new("inc-A", "12"));
    assert_eq!(halted.summary(), "DaxResult { deltas_count: 0, recursion_depth: 0, cost: 1 }");
}

#[test]
fn worker_summary_line() {
    let mut w = worker();
    assert_eq!(
        w.summary(),
        "SubAgent { name: \"worker\", collapse: \"<dyn CollapseStrategy>\", merge: \"<dyn MergeStrategy>\", cost: \"<dyn CostPredictor>\", executor: \"<dyn AgentExecutor>\", dnd: DoNotDoGraph { forbidden: [] } }"
    );
    w.dnd_graph_mut().forbid("rm", "dangerous");
    w.dnd_graph_mut().forbid("push", "not reviewed");
    assert_eq!(
        w.dnd_graph().summary(),
        "DoNotDoGraph { forbidden: [ForbiddenAction { task_name: \"rm\", reason: \"dangerous\" }, ForbiddenAction { task_name: \"push\", reason: \"not reviewed\" }] }"
    );
}

#[test]
fn worker_summary_escapes_names() {
    let mut w = SubAgent::new("we\"ird\\name", Arc::new(InOrder), Arc::new(Sum), Arc::new(PayloadCost), Arc::new(PayloadExecutor));
    w.dnd_graph_mut().forbid("tab\there", "line\nbreak");
    assert_eq!(
        w.summary(),
        "SubAgent { name: \"we\\\"ird\\\\name\", collapse: \"<dyn CollapseStrategy>\", merge: \"<dyn MergeStrategy>\", cost: \"<dyn CostPredictor>\", executor: \"<dyn AgentExecutor>\", dnd: DoNotDoGraph { forbidden: [ForbiddenAction { task_name: \"tab\\there\", reason: \"line\\nbreak\" }] } }"
    );
}
