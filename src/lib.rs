//! Construction core of a federated GraphQL gateway's request pipeline.
//!
//! The library holds the decisions of the pipeline: the registry of named
//! backend units, the admission and draining rules of the bounded mailbox
//! that serialises access to one unit, the nesting order of the plugin
//! chain, the per-request context, and the rules by which the factory turns
//! a configuration into a new, immutable pipeline generation.

pub mod context;
pub mod error;
pub mod factory;
pub mod mailbox;
pub mod plugin_chain;
pub mod registry;
