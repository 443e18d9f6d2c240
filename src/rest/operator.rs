//! Operator-facing messages.

use vstd::prelude::*;

verus! {

#[derive(Clone, Debug)]
pub struct CreateInvitePayload {
    /// Milliseconds since the epoch.
    pub expires_at: Option<i64>,
    pub max_uses: Option<i32>,
    pub join_mesh: Option<i32>,
}

#[derive(Clone, Debug)]
pub struct CreateInviteResponse {
    pub success: bool,
    pub invite_code: String,
}

#[derive(Clone, Debug)]
pub struct CreateMeshPayload {
    pub name: String,
    pub auto_wireguard: Option<bool>,
    pub auto_wireguard_mtu: Option<i32>,
}

#[derive(Clone, Debug)]
pub struct CreateMeshResponse {
    pub success: bool,
    pub mesh_group_id: i32,
}

} // verus!
