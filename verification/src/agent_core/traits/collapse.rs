//! Collapse and merge strategies of the execution engine.
use vstd::prelude::*;

use crate::dax::collapse_spec;
use crate::traits::AgentState;

verus! {

/// How a group of deltas is merged into a state.
///
/// A host that leaves out one of the spec functions below (a host written
/// outside Verus always does, as it cannot name them) is described by that
/// function's default: what the library proves of such a host holds only
/// where its methods behave as the default says, and nothing checks that
/// they do.
pub trait CollapseStrategy<S: AgentState> {
    /// The state after merging `deltas`: each in order, unless the strategy
    /// says otherwise.
    open spec fn spec_apply_many(&self, state: S, deltas: Seq<S::Delta>) -> S {
        collapse_spec(state, deltas)
    }

    fn apply_many(&self, state: &mut S, deltas: &[S::Delta])
        ensures
            *final(state) == self.spec_apply_many(*old(state), deltas@),
    ;
}

/// How a group of deltas is merged into one delta.
///
/// A host that leaves out one of the spec functions below (a host written
/// outside Verus always does, as it cannot name them) is described by that
/// function's default: what the library proves of such a host holds only
/// where its methods behave as the default says, and nothing checks that
/// they do.
pub trait MergeStrategy<D> {
    /// `merged` is a merge of `deltas`; any delta is, unless the strategy
    /// says otherwise.
    open spec fn merges(&self, deltas: Seq<D>, merged: D) -> bool {
        true
    }

    fn merge(&self, deltas: &[D]) -> (merged: D)
        ensures
            self.merges(deltas@, merged),
    ;
}

} // verus!
