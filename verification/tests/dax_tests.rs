use dax_agent_orchestrator::dax::{decimal_string, subagent_id};
use dax_agent_orchestrator::{
    collapse, collapse_from_id_pairs, collapse_with, dax_collapse, dax_execute_sync,
    dax_expand_fractal, dax_run_sync, dax_split, dax_split_fractal, split, Agent, AgentExecutor,
    AgentState, CollapseStrategy, FractalAgent, FractalConfig, MicroAgent, SplitStrategy,
    SubAgentResult, SubAgentSpec, Task,
};

#[derive(Clone, Debug, PartialEq)]
struct SimpleState {
    pub counter: i64,
}

#[derive(Debug, PartialEq)]
struct SimpleDelta {
    delta: i64,
}

impl AgentState for SimpleState {
    type Delta = SimpleDelta;

    fn spec_apply_delta(self, delta: SimpleDelta) -> Self {
        SimpleState { counter: self.counter + delta.delta }
    }

    fn apply_delta(&mut self, delta: &SimpleDelta) {
        self.counter += delta.delta;
    }

    fn clone_state(&self) -> Self {
        self.clone()
    }
}

#[derive(Debug)]
struct IncrementAgent;

impl MicroAgent<SimpleState> for IncrementAgent {
    fn accepts(&self, task: &Task) -> bool {
        task.name.starts_with("inc")
    }

    fn execute(&self, _state: SimpleState, task: Task) -> SimpleDelta {
        SimpleDelta { delta: task.payload.parse::<i64>().unwrap_or(1) }
    }
}

#[derive(Debug)]
struct RecursiveAgent;

impl FractalAgent<SimpleState> for RecursiveAgent {
    fn split(&self, state: SimpleState, depth: usize) -> Vec<SubAgentSpec<SimpleState>> {
        let next = depth as i64;
        let task = Task::new(&format!("inc-depth-{}", depth), &next.to_string());
        vec![SubAgentSpec { id: format!("fractal-{}", depth), scoped_state: state.clone(), task }]
    }

    fn estimate_cost(&self, _state: &SimpleState) -> usize {
        1
    }

    fn config(&self) -> FractalConfig {
        FractalConfig { max_depth: 3, max_cost: 128 }
    }
}

#[derive(Debug)]
struct HostAgent {
    micro: IncrementAgent,
    fractal: Option<RecursiveAgent>,
}

impl Agent<SimpleState> for HostAgent {
    type Micro = IncrementAgent;
    type Fractal = RecursiveAgent;

    fn as_micro(&self) -> Option<&IncrementAgent> {
        Some(&self.micro)
    }

    fn as_fractal(&self) -> Option<&RecursiveAgent> {
        self.fractal.as_ref()
    }
}

#[derive(Debug)]
struct HostExecutor;

impl AgentExecutor<SimpleState> for HostExecutor {
    fn run(&self, _state: SimpleState, task: Task) -> SimpleDelta {
        if task.name.starts_with("inc") {
            return SimpleDelta { delta: task.payload.parse::<i64>().unwrap_or(1) };
        }
        SimpleDelta { delta: 1 }
    }
}

fn three_tasks() -> Vec<Task> {
    vec![Task::new("inc-A", "3"), Task::new("inc-B", "5"), Task::new("root", "1")]
}

fn d(delta: i64) -> SimpleDelta {
    SimpleDelta { delta }
}

#[test]
fn ids_are_sub_and_decimal_index() {
    assert_eq!(subagent_id(0), "sub-0");
    assert_eq!(subagent_id(7), "sub-7");
    assert_eq!(subagent_id(10), "sub-10");
    assert_eq!(subagent_id(1234), "sub-1234");
    assert_eq!(decimal_string(9), "9");
    assert_eq!(decimal_string(90), "90");
    assert_eq!(decimal_string(usize::MAX), usize::MAX.to_string());
}

#[test]
fn classic_split_one_subagent_per_task() {
    let master = SimpleState { counter: 4 };
    let specs = split(&master, SplitStrategy::RoundRobin(2), three_tasks(), |s: &SimpleState, i: usize| {
        SimpleState { counter: s.counter * 10 + i as i64 }
    });
    let ids: Vec<&str> = specs.iter().map(|s| s.id.as_str()).collect();
    assert_eq!(ids, vec!["sub-0", "sub-1", "sub-2"]);
    let counters: Vec<i64> = specs.iter().map(|s| s.scoped_state.counter).collect();
    assert_eq!(counters, vec![40, 41, 42]);
    let names: Vec<&str> = specs.iter().map(|s| s.task.name.as_str()).collect();
    assert_eq!(names, vec!["inc-A", "inc-B", "root"]);
    assert!(split(&master, SplitStrategy::SemanticRouting, Vec::new(), |s: &SimpleState, _| s.clone()).is_empty());
}

#[test]
fn collapse_applies_in_order() {
    let merged = collapse(SimpleState { counter: 1 }, vec![d(2), d(3), d(-10)], CollapseStrategy::Sequential);
    assert_eq!(merged.counter, -4);
    let same = collapse(SimpleState { counter: 1 }, vec![d(2), d(3), d(-10)], CollapseStrategy::Weighted);
    assert_eq!(same.counter, -4);
    let untouched = collapse(SimpleState { counter: 5 }, Vec::new(), CollapseStrategy::Sequential);
    assert_eq!(untouched.counter, 5);
}

#[test]
fn collapse_twice_is_collapse_of_concatenation() {
    let once = collapse(SimpleState { counter: 0 }, vec![d(1), d(2), d(3), d(4)], CollapseStrategy::Sequential);
    let first = collapse(SimpleState { counter: 0 }, vec![d(1), d(2)], CollapseStrategy::Sequential);
    let twice = collapse(first, vec![d(3), d(4)], CollapseStrategy::Sequential);
    assert_eq!(once, twice);
    assert_eq!(once.counter, 10);
}

#[test]
fn collapse_with_sees_labels() {
    let deltas = vec![(Some("sub-0".to_string()), d(2)), (None, d(3)), (Some("sub-2".to_string()), d(4))];
    let merged = collapse_with(SimpleState { counter: 0 }, deltas, |s: SimpleState, delta: &SimpleDelta, label: Option<&str>| {
        let weight = if label.is_some() { 10 } else { 1 };
        SimpleState { counter: s.counter + weight * delta.delta }
    });
    assert_eq!(merged.counter, 63);
}

#[test]
fn collapse_from_id_pairs_ignores_ids() {
    let pairs = vec![("b".to_string(), d(2)), ("a".to_string(), d(5))];
    let merged = collapse_from_id_pairs(SimpleState { counter: 1 }, pairs, CollapseStrategy::Sequential);
    assert_eq!(merged.counter, 8);
}

#[test]
fn dax_collapse_merges_results() {
    let results = vec![
        SubAgentResult { id: "sub-0".to_string(), delta: d(3), metadata: None },
        SubAgentResult { id: "sub-1".to_string(), delta: d(5), metadata: Some(Vec::new()) },
    ];
    let merged = dax_collapse(SimpleState { counter: 2 }, results, CollapseStrategy::Sequential);
    assert_eq!(merged.counter, 10);
}

#[test]
fn expansion_goes_two_levels_from_depth_one() {
    let expanded = dax_expand_fractal(&RecursiveAgent, SimpleState { counter: 0 }, 1);
    let ids: Vec<&str> = expanded.iter().map(|s| s.id.as_str()).collect();
    assert_eq!(ids, vec!["fractal-1", "fractal-2"]);
    let payloads: Vec<&str> = expanded.iter().map(|s| s.task.payload.as_str()).collect();
    assert_eq!(payloads, vec!["1", "2"]);
    assert!(dax_expand_fractal(&RecursiveAgent, SimpleState { counter: 0 }, 3).is_empty());
    assert!(dax_expand_fractal(&RecursiveAgent, SimpleState { counter: 0 }, 7).is_empty());
}

#[test]
fn fractal_split_interleaves_tasks_and_expansions() {
    let specs = dax_split_fractal(&RecursiveAgent, SimpleState { counter: 0 }, three_tasks());
    let ids: Vec<&str> = specs.iter().map(|s| s.id.as_str()).collect();
    assert_eq!(
        ids,
        vec!["sub-0", "fractal-1", "fractal-2", "sub-1", "fractal-1", "fractal-2", "sub-2", "fractal-1", "fractal-2"]
    );
    assert_eq!(specs[3].task.name, "inc-B");
}

#[test]
fn dax_split_uses_fractal_side_when_present() {
    let master = SimpleState { counter: 0 };
    let fractal = HostAgent { micro: IncrementAgent, fractal: Some(RecursiveAgent) };
    let specs = dax_split(&fractal, &master, SplitStrategy::SemanticRouting, three_tasks(), |s: &SimpleState, _| s.clone());
    assert_eq!(specs.len(), 9);
    let classic = HostAgent { micro: IncrementAgent, fractal: None };
    let specs = dax_split(&classic, &master, SplitStrategy::SemanticRouting, three_tasks(), |s: &SimpleState, _| s.clone());
    assert_eq!(specs.len(), 3);
    assert_eq!(specs[2].id, "sub-2");
}

#[test]
fn execute_sync_runs_in_order() {
    let master = SimpleState { counter: 0 };
    let specs = split(&master, SplitStrategy::SemanticRouting, three_tasks(), |s: &SimpleState, _| s.clone());
    let results = dax_execute_sync(specs, &HostExecutor);
    let deltas: Vec<i64> = results.iter().map(|r| r.delta.delta).collect();
    assert_eq!(deltas, vec![3, 5, 1]);
}

#[test]
fn host_agent_run_sync() {
    let agent = HostAgent { micro: IncrementAgent, fractal: Some(RecursiveAgent) };
    let new_master = dax_run_sync(
        &agent,
        &HostExecutor,
        SimpleState { counter: 0 },
        three_tasks(),
        SplitStrategy::SemanticRouting,
        CollapseStrategy::Sequential,
        |s: &SimpleState, _| s.clone(),
    );
    assert_eq!(new_master.counter, 18);

    let classic = HostAgent { micro: IncrementAgent, fractal: None };
    let new_master = dax_run_sync(
        &classic,
        &HostExecutor,
        SimpleState { counter: 0 },
        three_tasks(),
        SplitStrategy::SemanticRouting,
        CollapseStrategy::Sequential,
        |s: &SimpleState, _| s.clone(),
    );
    assert_eq!(new_master.counter, 9);
}
