//! Host-side logic for embedding a virtual-network engine: the network
//! registry, the callback bridge, the background-task timer and the control
//! loop that keeps the bound sockets in step with interfaces and configuration.

pub mod bridge;
pub mod codes;
pub mod config;
pub mod endpoints;
pub mod ident;
pub mod ifaddrs;
pub mod inet;
pub mod node;
pub mod orchestrator;
pub mod reconcile;
pub mod registry;
pub mod scheduler;
pub mod service;
pub mod vnic;
