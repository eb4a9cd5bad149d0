//! Session engine for a multi-user text-based virtual world.
//!
//! The engine consumes already-parsed requests, maintains the registry of
//! connected clients under a bounded-capacity policy, and accumulates one
//! response per handled request until the next tick boundary.

pub mod engine;
pub mod protocol;
pub mod registry;
pub mod remote_client;
