use dax_agent_orchestrator::agent_core::agent_tree::{
    AgentNode, AgentTree, AgentTreeContext, AgentTreeExecutor, AgentTreeNodeState,
};
use dax_agent_orchestrator::agent_core::traits::fractal::{
    STANDARD_MAX_FRACTAL_COST, STANDARD_MAX_FRACTAL_DEPTH,
};
use dax_agent_orchestrator::agent_core::traits::{
    CostPredictor, DoNotDoGraph, FractalAgent, FractalSplit, ForbiddenAction,
};
use dax_agent_orchestrator::{AgentState, Task};

#[derive(Clone, Debug, PartialEq)]
struct SimpleState {
    pub counter: i64,
}

impl AgentState for SimpleState {
    type Delta = i64;

    fn spec_apply_delta(self, delta: i64) -> Self {
        SimpleState { counter: self.counter + delta }
    }

    fn apply_delta(&mut self, delta: &i64) {
        self.counter += *delta;
    }

    fn clone_state(&self) -> Self {
        self.clone()
    }
}

struct Binary {
    max_cost: usize,
}

impl FractalAgent<SimpleState> for Binary {
    fn split_task(&self, _state: &SimpleState, task: &Task, _depth: usize) -> Option<FractalSplit> {
        let left = Task::new(&format!("{}.0", task.name), "");
        let right = Task::new(&format!("{}.1", task.name), "");
        Some(FractalSplit::new(vec![left, right]))
    }

    fn max_fractal_depth(&self) -> usize {
        2
    }

    fn max_fractal_cost(&self) -> usize {
        self.max_cost
    }
}

impl CostPredictor<SimpleState> for Binary {
    fn predict_task_cost(&self, _state: &SimpleState, _task: &Task) -> usize {
        1
    }

    fn predict_many(&self, _state: &SimpleState, tasks: &[Task]) -> usize {
        tasks.len() * 6
    }
}

#[test]
fn node_construction() {
    let mut node = AgentNode::new("a", 2);
    assert_eq!(node.id, "a");
    assert_eq!(node.depth, 2);
    assert!(node.children.is_empty());
    node.add_child(AgentNode::new("b", 3));
    assert_eq!(node.children.len(), 1);
    assert_eq!(node.children[0].id, "b");

    let state = AgentTreeNodeState::new("c", 1, SimpleState { counter: 9 });
    assert_eq!(state.node.id, "c");
    assert_eq!(state.node.depth, 1);
    assert_eq!(state.state.counter, 9);
}

#[test]
fn tree_limits() {
    let tree = AgentTree::new("root");
    assert_eq!(tree.root.id, "root");
    assert_eq!(tree.root.depth, 0);
    assert_eq!(tree.max_depth, 8);
    assert_eq!(tree.max_cost, 10_000);
}

#[test]
fn context_add_child() {
    let mut ctx = AgentTreeContext::new("top".to_string(), SimpleState { counter: 1 });
    assert_eq!(ctx.max_depth(), 8);
    assert_eq!(ctx.max_cost(), 10_000);
    let a = ctx.add_child(0, "a", SimpleState { counter: 2 });
    let b = ctx.add_child(a, "b", SimpleState { counter: 3 });
    assert_eq!((a, b), (1, 2));
    assert_eq!(ctx.nodes[2].node.depth, 2);
    assert_eq!(ctx.nodes[2].state.counter, 3);
    let root_children: Vec<&str> = ctx.tree.root.children.iter().map(|n| n.id.as_str()).collect();
    assert_eq!(root_children, vec!["a", "b"]);
}

#[test]
fn executor_builds_tree_to_depth_limit() {
    let executor = AgentTreeExecutor::new(Binary { max_cost: 12 });
    let ctx = executor.run(SimpleState { counter: 5 }, Task::new("t", ""));
    let ids: Vec<&str> = ctx.nodes.iter().map(|n| n.node.id.as_str()).collect();
    assert_eq!(ids, vec!["root", "t.0", "t.0.0", "t.0.1", "t.1", "t.1.0", "t.1.1"]);
    let depths: Vec<usize> = ctx.nodes.iter().map(|n| n.node.depth).collect();
    assert_eq!(depths, vec![0, 1, 2, 2, 1, 2, 2]);
    assert!(ctx.nodes.iter().all(|n| n.state.counter == 5));
    assert_eq!(ctx.tree.root.children.len(), 6);
}

#[test]
fn executor_stops_over_cost_limit() {
    let executor = AgentTreeExecutor::new(Binary { max_cost: 11 });
    let ctx = executor.run(SimpleState { counter: 5 }, Task::new("t", ""));
    assert_eq!(ctx.nodes.len(), 1);
    assert_eq!(ctx.nodes[0].node.id, "root");
}

#[test]
fn standard_limits() {
    assert_eq!(STANDARD_MAX_FRACTAL_DEPTH, 32);
    assert_eq!(STANDARD_MAX_FRACTAL_COST, 10_000);
    let split = FractalSplit::new(vec![Task::new("x", "")]);
    assert_eq!(split.depth_increase, 1);
    assert!(split.reason.is_none());
}

#[test]
fn forbidden_actions() {
    let action = ForbiddenAction::new("rm", "dangerous");
    assert_eq!(action.task_name, "rm");
    assert_eq!(action.reason, "dangerous");

    let mut graph = DoNotDoGraph::new();
    assert!(graph.forbidden.is_empty());
    assert_eq!(graph.is_forbidden(&Task::new("rm", "")), None);
    graph.forbid("rm", "dangerous");
    graph.forbid("push", "not reviewed");
    graph.forbid("rm", "second reason");
    assert_eq!(graph.forbidden.len(), 3);
    assert_eq!(graph.is_forbidden(&Task::new("rm", "")), Some("dangerous".to_string()));
    assert_eq!(graph.is_forbidden(&Task::new("push", "")), Some("not reviewed".to_string()));
    assert_eq!(graph.is_forbidden(&Task::new("ls", "")), None);
}

#[test]
fn forbidden_summary_escapes_like_debug() {
    let mut graph = DoNotDoGraph::new();
    graph.forbid("a\"b", "back\\slash");
    let expected = format!(
        "DoNotDoGraph {{ forbidden: [ForbiddenAction {{ task_name: {:?}, reason: {:?} }}] }}",
        "a\"b", "back\\slash"
    );
    assert_eq!(graph.summary(), expected);
    assert_eq!(
        graph.summary(),
        "DoNotDoGraph { forbidden: [ForbiddenAction { task_name: \"a\\\"b\", reason: \"back\\\\slash\" }] }"
    );
}

#[test]
fn executor_grows_below_any_node_in_pre_order() {
    let executor = AgentTreeExecutor::new(Binary { max_cost: 12 });
    let mut ctx = AgentTreeContext::new("root".to_string(), SimpleState { counter: 1 });
    let c = ctx.add_child(0, "c", SimpleState { counter: 7 });
    executor.recurse(&mut ctx, c, Task::new("c", ""));
    let ids: Vec<&str> = ctx.nodes.iter().map(|n| n.node.id.as_str()).collect();
    assert_eq!(ids, vec!["root", "c", "c.0", "c.1"]);
    let depths: Vec<usize> = ctx.nodes.iter().map(|n| n.node.depth).collect();
    assert_eq!(depths, vec![0, 1, 2, 2]);
    let counters: Vec<i64> = ctx.nodes.iter().map(|n| n.state.counter).collect();
    assert_eq!(counters, vec![1, 7, 7, 7]);
    assert_eq!(ctx.tree.root.children.len(), 3);

    let mut at_limit = AgentTreeContext::new("root".to_string(), SimpleState { counter: 1 });
    let a = at_limit.add_child(0, "a", SimpleState { counter: 2 });
    let b = at_limit.add_child(a, "b", SimpleState { counter: 3 });
    executor.recurse(&mut at_limit, b, Task::new("b", ""));
    assert_eq!(at_limit.nodes.len(), 3);
}
