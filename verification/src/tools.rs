//! The tools of the agent: what there is, what a turn may see, and what it
//! may run.
pub mod host;
pub mod hosted_plugins;
pub mod registry;
pub mod spec;
