use dax_agent_orchestrator::{AgentState, FractalConfig, IntoBoxedDelta, Task};

#[derive(Clone, Debug)]
struct SimpleState {
    pub counter: i64,
}

#[derive(Debug)]
struct SimpleDelta {
    delta: i64,
}

impl AgentState for SimpleState {
    type Delta = SimpleDelta;

    fn spec_apply_delta(self, delta: SimpleDelta) -> Self {
        SimpleState { counter: self.counter + delta.delta }
    }

    fn apply_delta(&mut self, delta: &SimpleDelta) {
        self.counter += delta.delta;
    }

    fn clone_state(&self) -> Self {
        self.clone()
    }
}

#[test]
fn downcast_and_apply_delta() {
    let delta = SimpleDelta { delta: 7 };
    let boxed: Box<SimpleDelta> = delta.into_boxed();

    assert_eq!(boxed.as_ref().delta, 7);

    let mut state = SimpleState { counter: 3 };
    state.apply_delta(boxed.as_ref());
    assert_eq!(state.counter, 10);
}

#[test]
fn task_constructor() {
    let t = Task::new("task1", "payload");
    assert_eq!(t.name, "task1");
    assert_eq!(t.payload, "payload");
    assert_eq!(t.payload_json, None);
}

#[test]
fn task_carries_json_payload() {
    let value = serde_json::Value::Bool(true);
    let t = Task::new("task1", "payload").with_payload_json(value.clone());
    assert_eq!(t.name, "task1");
    assert_eq!(t.payload, "payload");
    assert_eq!(t.payload_json, Some(value.clone()));
    let copy = t.clone();
    assert_eq!(copy.name, "task1");
    assert_eq!(copy.payload, "payload");
    assert_eq!(copy.payload_json, Some(value));
}

#[test]
fn standard_fractal_limits() {
    let cfg = FractalConfig::standard();
    assert_eq!(cfg, FractalConfig { max_depth: 3, max_cost: 128 });
}
