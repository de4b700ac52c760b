//! Verified core of an edge-device update agent.
//!
//! The library holds the decision logic of the agent: the revision marker
//! codec with its round-trip proof, the remote reconciliation rules, the
//! checkout and update plans, the service manager call builders and the
//! per-chunk orchestration. Everything that talks to the outside world
//! (filesystem, D-Bus, the deployment server) executes the plans built here.

pub mod action;
pub mod agent;
pub mod container;
pub mod remote;
pub mod revision;
mod strutil;
pub mod systemd;
