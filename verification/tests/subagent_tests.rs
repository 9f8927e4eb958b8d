use dax_agent_orchestrator::{
    gather_results, route_micro_agent, run_fractal_recursive, run_subagent, run_subagents_local,
    Agent, AgentExecutor, AgentState, FractalAgent, FractalConfig, MicroAgent, SubAgentResult,
    SubAgentSpec, Task,
};

#[derive(Clone, Debug)]
struct SimpleState {
    pub counter: i64,
}

#[derive(Debug, PartialEq)]
struct SimpleDelta {
    delta: i64,
}

impl AgentState for SimpleState {
    type Delta = SimpleDelta;

    fn spec_apply_delta(self, delta: SimpleDelta) -> Self {
        SimpleState { counter: self.counter + delta.delta }
    }

    fn apply_delta(&mut self, delta: &SimpleDelta) {
        self.counter += delta.delta;
    }

    fn clone_state(&self) -> Self {
        self.clone()
    }
}

struct TestExecutor;

impl AgentExecutor<SimpleState> for TestExecutor {
    fn run(&self, _state: SimpleState, task: Task) -> SimpleDelta {
        let inc = task.payload.parse::<i64>().unwrap_or(1);
        SimpleDelta { delta: inc }
    }
}

fn specs_for(master: &SimpleState, tasks: Vec<Task>) -> Vec<SubAgentSpec<SimpleState>> {
    tasks
        .into_iter()
        .enumerate()
        .map(|(i, t)| SubAgentSpec { id: format!("sub-{}", i), scoped_state: master.clone(), task: t })
        .collect()
}

#[test]
fn local_runner_applies_all() {
    let master = SimpleState { counter: 0 };
    let tasks = vec![Task::new("A", "3"), Task::new("B", "5"), Task::new("C", "2")];
    let specs = specs_for(&master, tasks);

    let exec = TestExecutor;
    let results = run_subagents_local(specs, &exec);

    let mut applied = SimpleState { counter: 0 };
    for r in results {
        applied.apply_delta(&r.delta);
    }
    assert_eq!(applied.counter, 10);
}

#[test]
fn local_runner_keeps_order_ids_and_metadata() {
    let master = SimpleState { counter: 0 };
    let tasks = vec![Task::new("A", "3"), Task::new("B", "x"), Task::new("C", "2")];
    let results = run_subagents_local(specs_for(&master, tasks), &TestExecutor);
    assert_eq!(results.len(), 3);
    let ids: Vec<&str> = results.iter().map(|r| r.id.as_str()).collect();
    assert_eq!(ids, vec!["sub-0", "sub-1", "sub-2"]);
    let deltas: Vec<i64> = results.iter().map(|r| r.delta.delta).collect();
    assert_eq!(deltas, vec![3, 1, 2]);
    for r in &results {
        assert_eq!(r.metadata, Some(vec![("executor".to_string(), "local".to_string())]));
    }
}

#[test]
fn local_runner_on_nothing() {
    let results = run_subagents_local(Vec::<SubAgentSpec<SimpleState>>::new(), &TestExecutor);
    assert!(results.is_empty());
}

#[test]
fn single_run_has_no_metadata() {
    let spec = SubAgentSpec { id: "sub-4".to_string(), scoped_state: SimpleState { counter: 0 }, task: Task::new("A", "9") };
    let r = run_subagent(spec, &TestExecutor);
    assert_eq!(r.id, "sub-4");
    assert_eq!(r.delta, SimpleDelta { delta: 9 });
    assert_eq!(r.metadata, None);
}

fn result(id: &str, delta: i64) -> SubAgentResult<SimpleDelta> {
    SubAgentResult { id: id.to_string(), delta: SimpleDelta { delta }, metadata: None }
}

#[test]
fn gathering_keeps_finished_runs_in_order() {
    let outcomes = vec![Some(result("sub-0", 3)), None, Some(result("sub-2", 2)), None];
    let kept = gather_results(outcomes);
    let ids: Vec<&str> = kept.iter().map(|r| r.id.as_str()).collect();
    assert_eq!(ids, vec!["sub-0", "sub-2"]);
    assert_eq!(kept[1].delta, SimpleDelta { delta: 2 });
}

#[test]
fn gathering_nothing_finished() {
    let kept = gather_results::<SimpleDelta>(vec![None, None]);
    assert!(kept.is_empty());
}

#[derive(Debug)]
struct PrefixMicro {
    prefix: &'static str,
}

impl MicroAgent<SimpleState> for PrefixMicro {
    fn accepts(&self, task: &Task) -> bool {
        task.name.starts_with(self.prefix)
    }

    fn execute(&self, _state: SimpleState, _task: Task) -> SimpleDelta {
        SimpleDelta { delta: 1 }
    }
}

#[derive(Debug)]
struct OneLevel {
    max_depth: usize,
    cost: usize,
}

impl FractalAgent<SimpleState> for OneLevel {
    fn split(&self, state: SimpleState, depth: usize) -> Vec<SubAgentSpec<SimpleState>> {
        vec![SubAgentSpec {
            id: format!("fractal-{}", depth),
            scoped_state: SimpleState { counter: state.counter + 1 },
            task: Task::new(&format!("inc-depth-{}", depth), &depth.to_string()),
        }]
    }

    fn estimate_cost(&self, _state: &SimpleState) -> usize {
        self.cost
    }

    fn config(&self) -> FractalConfig {
        FractalConfig { max_depth: self.max_depth, max_cost: 128 }
    }
}

#[derive(Debug)]
struct HostAgent {
    micro: Option<PrefixMicro>,
}

impl Agent<SimpleState> for HostAgent {
    type Micro = PrefixMicro;
    type Fractal = OneLevel;

    fn as_micro(&self) -> Option<&PrefixMicro> {
        self.micro.as_ref()
    }

    fn as_fractal(&self) -> Option<&OneLevel> {
        None
    }
}

#[test]
fn routing_picks_first_accepting_micro_agent() {
    let agents = vec![
        HostAgent { micro: None },
        HostAgent { micro: Some(PrefixMicro { prefix: "dec" }) },
        HostAgent { micro: Some(PrefixMicro { prefix: "inc" }) },
        HostAgent { micro: Some(PrefixMicro { prefix: "in" }) },
    ];
    let routed = route_micro_agent(&agents, &Task::new("inc-A", "3"));
    assert_eq!(routed.map(|m| m.prefix), Some("inc"));
    let none = route_micro_agent(&agents, &Task::new("root", "1"));
    assert!(none.is_none());
    let empty: Vec<HostAgent> = Vec::new();
    assert!(route_micro_agent(&empty, &Task::new("inc", "1")).is_none());
}

#[test]
fn fractal_recursion_stops_at_depth_limit() {
    let agent = OneLevel { max_depth: 3, cost: 1 };
    let expanded = run_fractal_recursive(&agent, SimpleState { counter: 0 }, 1);
    let ids: Vec<&str> = expanded.iter().map(|s| s.id.as_str()).collect();
    assert_eq!(ids, vec!["fractal-1", "fractal-2"]);
    let counters: Vec<i64> = expanded.iter().map(|s| s.scoped_state.counter).collect();
    assert_eq!(counters, vec![1, 2]);
    assert_eq!(expanded[1].task.name, "inc-depth-2");
    assert_eq!(expanded[1].task.payload, "2");

    let at_limit = run_fractal_recursive(&agent, SimpleState { counter: 0 }, 3);
    assert!(at_limit.is_empty());
}

#[test]
fn fractal_recursion_stops_over_cost_limit() {
    let agent = OneLevel { max_depth: 3, cost: 129 };
    let expanded = run_fractal_recursive(&agent, SimpleState { counter: 0 }, 0);
    assert!(expanded.is_empty());
}

#[test]
fn gathering_when_every_run_finished() {
    let kept = gather_results(vec![Some(result("sub-0", 1)), Some(result("sub-1", 2))]);
    let ids: Vec<&str> = kept.iter().map(|r| r.id.as_str()).collect();
    assert_eq!(ids, vec!["sub-0", "sub-1"]);
}
