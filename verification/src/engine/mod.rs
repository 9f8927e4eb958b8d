//! The execution engine: the orchestrator and its worker agent.
pub mod dax;
pub mod subagent;
