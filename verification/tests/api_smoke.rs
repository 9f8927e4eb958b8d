#[allow(unused_imports)]
use dax_agent_orchestrator::agent_core::traits::{
    Agent, AgentExecutor, AgentState, CollapseStrategy, CostPredictor, FractalAgent, MergeStrategy,
    MicroAgentAcceptance, MicroAgentExecutor, MicroAgentFallback, ReflectiveAgent, Task,
};

#[allow(unused_imports)]
use dax_agent_orchestrator::agent_core::agent_tree::AgentTree;

#[allow(unused_imports)]
use dax_agent_orchestrator::engine::dax::DaxResult;

#[test]
fn public_api_compile_smoke() {
    assert!(true, "public API compile-time smoke check passed");
}
