//! Node-facing messages.

use crate::answer::WireguardAnswered;
use vstd::prelude::*;

verus! {

#[derive(Clone, Debug)]
pub struct RegisterPayload {
    pub node_name: String,
    pub invitation_key: String,
}

#[derive(Clone, Debug)]
pub struct RegisterResponse {
    pub success: bool,
    pub auth_key: String,
}

#[derive(Clone, Debug)]
pub struct UpdateNamePayload {
    pub new_name: String,
}

#[derive(Clone, Debug)]
pub struct NodeInfoResponse {
    pub success: bool,
    pub id: i32,
    pub name: String,
    pub created_at: i64,
}

#[derive(Clone, Debug)]
pub struct SingleNode {
    pub id: i32,
    pub name: String,
    pub created_at: i64,
}

#[derive(Clone, Debug)]
pub struct AllNodesResponse {
    pub success: bool,
    pub nodes: Vec<SingleNode>,
}

/// A tunnel descriptor as seen by one of its two peers.
#[derive(Clone, Debug)]
pub struct WireguardTunnelInfo {
    pub tunnel_id: i32,
    /// The other peer.
    pub peer_node_id: i32,
    /// The other peer's static public key, empty when it has none.
    pub public_key: String,
    /// Port after the last `:` of `local_endpoint`, or 0.
    pub preferred_port: u16,
    pub local_endpoint: Option<String>,
    pub remote_endpoint: Option<String>,
    pub local_answered: WireguardAnswered,
    pub remote_response: WireguardAnswered,
    pub mtu: i32,
    pub endpoint_ipv6: bool,
    pub fec: bool,
    pub faketcp: bool,
    /// Milliseconds since the epoch.
    pub created_at: i64,
    /// Milliseconds since the epoch.
    pub updated_at: i64,
}

#[derive(Clone, Debug)]
pub struct WireguardTunnelsResponse {
    pub success: bool,
    pub tunnels: Vec<WireguardTunnelInfo>,
}

#[derive(Clone, Debug)]
pub struct WireguardTunnelAnswerPayload {
    pub tunnel_id: i32,
    pub decline_type: Option<i16>,
    pub endpoint: Option<String>,
}

#[derive(Clone, Debug)]
pub struct WireguardPubKeyAskPayload {
    pub node_id_peer: i32,
}

#[derive(Clone, Debug)]
pub struct WireguardPubKeyResponse {
    pub success: bool,
    pub public_key: String,
}

#[derive(Clone, Debug)]
pub struct WireguardPubKeyUpdatePayload {
    pub public_key: String,
}

} // verus!
