//! The decision core of a container orchestrator that runs over a mesh of hosts.
//!
//! Everything here computes on plain values: deployment specs and their content address, the
//! persisted store, the rules for leases and ownership claims, the dependency SDK's step machine,
//! the trust decision on stable-host attestations, and what each command does and says. Files and
//! the mesh itself belong to the program around it.

pub mod amount;
pub mod bytes;
pub mod commands;
pub mod commands_laws;
pub mod driver;
pub mod reconcile;
pub mod sdk;
pub mod spec;
pub mod spec_laws;
pub mod stable;
pub mod state;
pub mod text;
pub mod text_laws;

pub use sdk::{Dep, Gke, Place};
