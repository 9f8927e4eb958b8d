//! What an agent can do, as it reports it.
use vstd::prelude::*;

use crate::traits::AgentState;

verus! {

/// The capabilities an agent reports.
#[derive(Clone, Copy, Debug, PartialEq, Eq)]
pub struct AgentCapabilities {
    pub can_reflect: bool,
    pub can_fractal: bool,
    pub has_scratchpad: bool,
    pub has_dnd: bool,
    pub can_merge: bool,
    pub can_collapse: bool,
    pub can_predict_cost: bool,
}

impl AgentCapabilities {
    /// No capability.
    pub fn new() -> (caps: AgentCapabilities)
        ensures
            caps == (AgentCapabilities {
                can_reflect: false,
                can_fractal: false,
                has_scratchpad: false,
                has_dnd: false,
                can_merge: false,
                can_collapse: false,
                can_predict_cost: false,
            }),
    {
        AgentCapabilities {
            can_reflect: false,
            can_fractal: false,
            has_scratchpad: false,
            has_dnd: false,
            can_merge: false,
            can_collapse: false,
            can_predict_cost: false,
        }
    }
}

/// Agents that report their capabilities.
///
/// A host that leaves out one of the spec functions below (a host written
/// outside Verus always does, as it cannot name them) is described by that
/// function's default: what the library proves of such a host holds only
/// where its methods behave as the default says, and nothing checks that
/// they do.
pub trait CapabilityIntrospection<S: AgentState> {
    /// The capabilities; an agent that verifies its report states them.
    open spec fn spec_capabilities(&self) -> AgentCapabilities {
        AgentCapabilities {
            can_reflect: false,
            can_fractal: false,
            has_scratchpad: false,
            has_dnd: false,
            can_merge: false,
            can_collapse: false,
            can_predict_cost: false,
        }
    }

    fn capabilities(&self) -> (caps: AgentCapabilities)
        ensures
            caps == self.spec_capabilities(),
    ;
}

} // verus!
