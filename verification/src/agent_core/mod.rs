//! Agent tree recursion and the traits that the execution engine builds on.
pub mod agent_tree;
pub mod traits;
