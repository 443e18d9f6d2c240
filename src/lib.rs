//! Control-plane library for a WireGuard mesh overlay: interface-name
//! derivation, the STUN codec and NAT-behaviour discovery, the controller's
//! tunnel-pairing store and the node agent's tunnel reconciler.

pub mod addr;
pub mod answer;
pub mod bytes;
pub mod config;
pub mod controller;
pub mod ifname;
pub mod link_plan;
pub mod lla;
pub mod nat_discovery;
pub mod protocol;
pub mod reconciler;
pub mod registry;
pub mod rest;
mod rng;
mod seq_facts;
pub mod stun;
pub mod stun_servers;
pub mod text;
pub mod tunnel;
