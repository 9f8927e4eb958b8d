//! dax_agent_orchestrator: split a host agent's state into scoped subagents,
//! run them, and collapse their deltas back into the master state.
//!
//! - `traits`: the host's state and delta, tasks, executors, micro-agents,
//!   fractal agents.
//! - `dax`: the split / execute / collapse pipeline.
//! - `subagent`: routing, fractal recursion and the subagent runners.
//! - `agent_core`: agent trees and the traits of the execution engine.
//! - `engine`: the execution engine's orchestrator and worker agent.
pub mod agent_core;
pub mod dax;
pub mod engine;
pub mod subagent;
pub mod traits;

pub use crate::traits::{
    Agent, AgentExecutor, AgentState, AgentTree, DeltaState, FractalAgent, FractalConfig,
    IntoBoxedDelta, MicroAgent, SubAgentSpec, SubAgentSpecView, Task, TaskView,
};

pub use crate::dax::{
    collapse, collapse_from_id_pairs, collapse_with, dax_collapse, dax_execute_sync,
    dax_expand_fractal, dax_run_sync, dax_split, dax_split_fractal, split, CollapseStrategy,
    SplitStrategy,
};

pub use crate::subagent::{
    gather_results, route_micro_agent, run_fractal_recursive, run_subagent, run_subagents_local,
    SubAgentResult,
};
