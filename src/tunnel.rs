//! Tunnel driver configuration. Programming the device itself is done by the
//! caller from these plain settings.

use crate::addr::{IpAddress, IpNet};
use vstd::prelude::*;

verus! {

/// Fixed persistent-keepalive interval, in seconds.
pub const PERSISTENT_KEEPALIVE_SECS: u16 = 25;

/// A peer counts as connected while its last handshake is at most this many
/// seconds old.
pub const HANDSHAKE_FRESH_SECS: u64 = 180;

/// Kinds of tunnel the agent can run.
#[derive(Clone, Copy, Debug, PartialEq, Eq, Structural)]
pub enum TunnelType {
    WireGuard,
}

/// Where the WireGuard device lives.
#[derive(Clone, Copy, Debug, PartialEq, Eq, Structural)]
pub enum Backend {
    Kernel,
    OpenBsd,
    Userspace,
}

/// Operating system the agent runs on.
#[derive(Clone, Copy, Debug, PartialEq, Eq, Structural)]
pub enum Platform {
    Linux,
    OpenBsd,
    Other,
}

/// What every tunnel kind offers besides device programming.
pub trait Tunnel {
    fn get_interface_name(&self) -> &str;

    fn get_type(&self) -> TunnelType;
}

/// Configuration of one WireGuard device with a single peer.
#[derive(Clone, Debug)]
pub struct WireGuardTunnel {
    pub interface: String,
    /// Local private key, base64.
    pub local_private_key: String,
    /// Peer public key, base64.
    pub peer_public_key: String,
    /// Peer endpoint as `host:port` text; the device gets it only when it
    /// parses as a socket address.
    pub peer_endpoint: Option<String>,
    pub listen_port: Option<u16>,
    pub force_userspace: bool,
}

impl WireGuardTunnel {
    pub fn new(
        interface: String,
        local_private_key: String,
        peer_public_key: String,
        peer_endpoint: Option<String>,
        listen_port: Option<u16>,
    ) -> (r: WireGuardTunnel)
        ensures
            r == (WireGuardTunnel {
                interface,
                local_private_key,
                peer_public_key,
                peer_endpoint,
                listen_port,
                force_userspace: false,
            }),
    {
        WireGuardTunnel {
            interface,
            local_private_key,
            peer_public_key,
            peer_endpoint,
            listen_port,
            force_userspace: false,
        }
    }

    /// Like `new`, but always on the userspace backend.
    pub fn new_userspace(
        interface: String,
        local_private_key: String,
        peer_public_key: String,
        peer_endpoint: Option<String>,
        listen_port: Option<u16>,
    ) -> (r: WireGuardTunnel)
        ensures
            r == (WireGuardTunnel {
                interface,
                local_private_key,
                peer_public_key,
                peer_endpoint,
                listen_port,
                force_userspace: true,
            }),
    {
        WireGuardTunnel {
            interface,
            local_private_key,
            peer_public_key,
            peer_endpoint,
            listen_port,
            force_userspace: true,
        }
    }

    pub fn set_peer_endpoint(&mut self, endpoint: String)
        ensures
            *final(self) == (WireGuardTunnel { peer_endpoint: Some(endpoint), ..*old(self) }),
    {
        self.peer_endpoint = Some(endpoint);
    }

    pub fn set_listen_port(&mut self, port: u16)
        ensures
            *final(self) == (WireGuardTunnel { listen_port: Some(port), ..*old(self) }),
    {
        self.listen_port = Some(port);
    }

    pub fn get_local_private_key(&self) -> (r: &str)
        ensures
            r@ == self.local_private_key@,
    {
        self.local_private_key.as_str()
    }

    /// Backend for this device: userspace when forced, else the platform's own.
    pub fn backend(&self, platform: Platform) -> (r: Backend)
        ensures
            r == (if self.force_userspace {
                Backend::Userspace
            } else {
                match platform {
                    Platform::Linux => Backend::Kernel,
                    Platform::OpenBsd => Backend::OpenBsd,
                    Platform::Other => Backend::Userspace,
                }
            }),
    {
        if self.force_userspace {
            Backend::Userspace
        } else {
            match platform {
                Platform::Linux => Backend::Kernel,
                Platform::OpenBsd => Backend::OpenBsd,
                Platform::Other => Backend::Userspace,
            }
        }
    }
}

impl Tunnel for WireGuardTunnel {
    fn get_interface_name(&self) -> (r: &str)
        ensures
            r@ == self.interface@,
    {
        self.interface.as_str()
    }

    fn get_type(&self) -> (r: TunnelType)
        ensures
            r == TunnelType::WireGuard,
    {
        TunnelType::WireGuard
    }
}

/// The peer's allowed IPs: both wildcard default routes.
pub fn allowed_ips() -> (r: Vec<IpNet>)
    ensures
        r@ == seq![
            IpNet { addr: IpAddress::V4(0), prefix_len: 0 },
            IpNet { addr: IpAddress::V6(0), prefix_len: 0 },
        ],
{
    let mut r: Vec<IpNet> = Vec::new();
    r.push(IpNet { addr: IpAddress::V4(0), prefix_len: 0 });
    r.push(IpNet { addr: IpAddress::V6(0), prefix_len: 0 });
    assert(r@ =~= seq![
        IpNet { addr: IpAddress::V4(0), prefix_len: 0 },
        IpNet { addr: IpAddress::V6(0), prefix_len: 0 },
    ]);
    r
}

/// Whether the peer's last handshake (seconds since the epoch, `None` when
/// there was none) lies within `HANDSHAKE_FRESH_SECS` of `now`.
pub fn is_connected(last_handshake: Option<u64>, now: u64) -> (r: bool)
    ensures
        r == (match last_handshake {
            Some(t) => t <= now && now - t <= HANDSHAKE_FRESH_SECS,
            None => false,
        }),
{
    match last_handshake {
        Some(t) => t <= now && now - t <= HANDSHAKE_FRESH_SECS,
        None => false,
    }
}

} // verus!
