//! Traits and types of the execution engine: safety gating, fractal
//! splitting, reflection, micro-agent routing, cost prediction, collapse and
//! merge strategies.
pub mod agent;
pub mod capability;
pub mod collapse;
pub mod cost;
pub mod dnd;
pub mod fractal;
pub mod micro;
pub mod reflect;

pub use crate::agent_core::traits::agent::Agent;
pub use crate::agent_core::traits::capability::{AgentCapabilities, CapabilityIntrospection};
pub use crate::agent_core::traits::collapse::{CollapseStrategy, MergeStrategy};
pub use crate::agent_core::traits::cost::CostPredictor;
pub use crate::agent_core::traits::dnd::{DoNotDoAgent, DoNotDoGraph, ForbiddenAction};
pub use crate::agent_core::traits::fractal::{FractalAgent, FractalSplit};
pub use crate::agent_core::traits::micro::{
    MicroAgentAcceptance, MicroAgentExecutor, MicroAgentFallback, MicroRouteDecision,
};
pub use crate::agent_core::traits::reflect::{ReflectionData, ReflectiveAgent};
pub use crate::traits::{AgentExecutor, AgentState, Task};
