//! The node agent's tunnel memory: one record per controller-assigned tunnel,
//! created on first sight, updated when the controller's view changes and
//! dropped when the tunnel disappears. Work on the operating system is
//! returned as a list of device actions for the caller to carry out.

use crate::controller::clone_text;
use crate::ifname::{interface_name, interface_name_of, lemma_ipv6_flag_changes_name};
use crate::addr::IpNet;
use crate::link_plan::{ensure_up_effect, lemma_ensure_up_converges, lists, LinkModel};
use crate::lla::lla_of_seed;
use crate::rest::client::WireguardTunnelInfo;
use crate::seq_facts::lemma_seq_push_contains;
use crate::tunnel::WireGuardTunnel;
use std::collections::HashMap;
use vstd::prelude::*;
use vstd::utf8::encode_utf8;

verus! {

broadcast use vstd::std_specs::hash::group_hash_axioms;

/// Device work that follows from a change of a tunnel record.
#[derive(Clone, Debug)]
pub enum DeviceAction {
    /// Delete the device with this interface name.
    Destroy(String),
    /// Create or update the device from the record's configuration.
    Setup,
    /// Converge the device's address and MTU (see `link_plan`).
    EnsureUp,
}

/// Why a record could not be updated.
#[derive(Clone, Copy, Debug, PartialEq, Eq, Structural)]
pub enum ReconcileError {
    /// The descriptor's tunnel id or peer differs from the record's.
    IdentityMismatch,
}

/// `t` is the driver configuration derived from `info` with local key `key`.
pub open spec fn is_driver_config(t: WireGuardTunnel, info: WireguardTunnelInfo, key: Seq<char>) -> bool {
    &&& t.interface@ == interface_name_of(
        info.tunnel_id,
        info.peer_node_id,
        info.endpoint_ipv6,
        info.fec,
        info.faketcp,
    )
    &&& t.local_private_key@ == key
    &&& t.peer_public_key@ == info.public_key@
    &&& t.peer_endpoint == info.remote_endpoint
    &&& t.listen_port == (if info.preferred_port == 0 {
        None
    } else {
        Some(info.preferred_port)
    })
    &&& !t.force_userspace
}

/// Builds the driver configuration for a tunnel view.
pub fn gen_new_wg_tunnel(info: &WireguardTunnelInfo, local_private_key: String) -> (r:
    WireGuardTunnel)
    ensures
        is_driver_config(r, *info, local_private_key@),
{
    let name = interface_name(
        info.tunnel_id,
        info.peer_node_id,
        info.endpoint_ipv6,
        info.fec,
        info.faketcp,
    );
    let listen_port = if info.preferred_port == 0 {
        None
    } else {
        Some(info.preferred_port)
    };
    WireGuardTunnel::new(
        name,
        local_private_key,
        info.public_key.clone(),
        clone_text(&info.remote_endpoint),
        listen_port,
    )
}

/// Node-local record of one tunnel.
pub struct WireguardTunnelC {
    pub tunnel_id: i32,
    pub peer_node_id: i32,
    pub ipv6: bool,
    pub os_tun: WireGuardTunnel,
    pub mtu: i32,
}

impl WireguardTunnelC {
    /// The interface name is the one derived from the record's tunnel id, peer
    /// and endpoint family (with some `fec`/`faketcp` flags).
    pub open spec fn wf(&self) -> bool {
        exists|fec: bool, faketcp: bool|
            self.os_tun.interface@ == #[trigger] interface_name_of(
                self.tunnel_id,
                self.peer_node_id,
                self.ipv6,
                fec,
                faketcp,
            )
    }

    pub fn new(
        tunnel_id: i32,
        peer_node_id: i32,
        ipv6: bool,
        mtu: i32,
        os_tun: WireGuardTunnel,
    ) -> (r: WireguardTunnelC)
        ensures
            r == (WireguardTunnelC { tunnel_id, peer_node_id, ipv6, os_tun, mtu }),
    {
        WireguardTunnelC { tunnel_id, peer_node_id, ipv6, os_tun, mtu }
    }

    /// The record for a tunnel seen for the first time. The device is not
    /// brought up here.
    pub fn new_from_rest(info: &WireguardTunnelInfo, local_private_key: String) -> (r:
        WireguardTunnelC)
        ensures
            r.wf(),
            r.tunnel_id == info.tunnel_id,
            r.peer_node_id == info.peer_node_id,
            r.ipv6 == info.endpoint_ipv6,
            r.mtu == info.mtu,
            is_driver_config(r.os_tun, *info, local_private_key@),
    {
        let r = WireguardTunnelC {
            tunnel_id: info.tunnel_id,
            peer_node_id: info.peer_node_id,
            ipv6: info.endpoint_ipv6,
            mtu: info.mtu,
            os_tun: gen_new_wg_tunnel(info, local_private_key),
        };
        assert(r.os_tun.interface@ == interface_name_of(
            r.tunnel_id,
            r.peer_node_id,
            r.ipv6,
            info.fec,
            info.faketcp,
        ));
        r
    }

    /// Applies a newer view of the same tunnel. When the endpoint family flips,
    /// the interface name changes: the old device is destroyed, the
    /// configuration rebuilt with the same local key, and, if the device
    /// existed (`created`), the new one is set up and converged. Other changes
    /// need no device work.
    pub fn update_from_rest(&mut self, info: &WireguardTunnelInfo, created: bool) -> (r: Result<
        Vec<DeviceAction>,
        ReconcileError,
    >)
        requires
            old(self).wf(),
        ensures
            final(self).wf(),
            (old(self).tunnel_id != info.tunnel_id || old(self).peer_node_id != info.peer_node_id)
                ==> r == Err::<Vec<DeviceAction>, ReconcileError>(ReconcileError::IdentityMismatch)
                && *final(self) == *old(self),
            (old(self).tunnel_id == info.tunnel_id && old(self).peer_node_id == info.peer_node_id
                && old(self).ipv6 == info.endpoint_ipv6) ==> (r matches Ok(acts) && acts@.len() == 0)
                && *final(self) == *old(self),
            (old(self).tunnel_id == info.tunnel_id && old(self).peer_node_id == info.peer_node_id
                && old(self).ipv6 != info.endpoint_ipv6) ==> {
                &&& r matches Ok(acts)
                &&& acts@.len() == (if created {
                    3int
                } else {
                    1int
                })
                &&& acts@[0] matches DeviceAction::Destroy(n) && n@ == old(self).os_tun.interface@
                &&& created ==> acts@[1] is Setup && acts@[2] is EnsureUp
                &&& final(self).tunnel_id == old(self).tunnel_id
                &&& final(self).peer_node_id == old(self).peer_node_id
                &&& final(self).ipv6 == info.endpoint_ipv6
                &&& final(self).mtu == info.mtu
                &&& is_driver_config(final(self).os_tun, *info, old(self).os_tun.local_private_key@)
                &&& final(self).os_tun.interface@ != old(self).os_tun.interface@
            },
    {
        if self.tunnel_id != info.tunnel_id || self.peer_node_id != info.peer_node_id {
            return Err(ReconcileError::IdentityMismatch);
        }
        let mut acts: Vec<DeviceAction> = Vec::new();
        if self.ipv6 != info.endpoint_ipv6 {
            let old_name = self.os_tun.interface.clone();
            let key = self.os_tun.local_private_key.clone();
            acts.push(DeviceAction::Destroy(old_name));
            self.ipv6 = info.endpoint_ipv6;
            self.mtu = info.mtu;
            self.os_tun = gen_new_wg_tunnel(info, key);
            proof {
                let (fec0, ft0) = choose|fec: bool, faketcp: bool|
                    old(self).os_tun.interface@ == #[trigger] interface_name_of(
                        old(self).tunnel_id,
                        old(self).peer_node_id,
                        old(self).ipv6,
                        fec,
                        faketcp,
                    );
                if old(self).ipv6 {
                    lemma_ipv6_flag_changes_name(
                        self.tunnel_id,
                        self.peer_node_id,
                        info.fec,
                        info.faketcp,
                        fec0,
                        ft0,
                    );
                } else {
                    lemma_ipv6_flag_changes_name(
                        self.tunnel_id,
                        self.peer_node_id,
                        fec0,
                        ft0,
                        info.fec,
                        info.faketcp,
                    );
                }
                assert(self.os_tun.interface@ == interface_name_of(
                    self.tunnel_id,
                    self.peer_node_id,
                    self.ipv6,
                    info.fec,
                    info.faketcp,
                ));
            }
            if created {
                acts.push(DeviceAction::Setup);
                acts.push(DeviceAction::EnsureUp);
            }
        }
        Ok(acts)
    }

    pub fn get_tunnel_id(&self) -> (r: i32)
        ensures
            r == self.tunnel_id,
    {
        self.tunnel_id
    }

    pub fn get_peer_node_id(&self) -> (r: i32)
        ensures
            r == self.peer_node_id,
    {
        self.peer_node_id
    }

    pub fn is_ipv6(&self) -> (r: bool)
        ensures
            r == self.ipv6,
    {
        self.ipv6
    }

    pub fn get_mtu(&self) -> (r: i32)
        ensures
            r == self.mtu,
    {
        self.mtu
    }

    pub fn get_os_tun(&self) -> (r: &WireGuardTunnel)
        ensures
            *r == self.os_tun,
    {
        &self.os_tun
    }

    pub fn get_os_tun_mut(&mut self) -> (r: &mut WireGuardTunnel)
        ensures
            *r == old(self).os_tun,
            *final(self) == (WireguardTunnelC { os_tun: *final(r), ..*old(self) }),
    {
        &mut self.os_tun
    }
}

/// The reconciler's memory: tunnel id to record.
pub struct DaemonMemory {
    pub wireguard: HashMap<i32, WireguardTunnelC>,
}

impl DaemonMemory {
    /// Every record is filed under its own tunnel id.
    pub open spec fn wf(&self) -> bool {
        forall|k: i32| #[trigger]
            self.wireguard@.contains_key(k) ==> self.wireguard@[k].tunnel_id == k
                && self.wireguard@[k].wf()
    }

    pub fn new() -> (r: DaemonMemory)
        ensures
            r.wf(),
            r.wireguard@ == Map::<i32, WireguardTunnelC>::empty(),
    {
        DaemonMemory { wireguard: HashMap::new() }
    }

    /// Feeds one tunnel of the controller's view. A tunnel seen for the first
    /// time gets a record and no device work; a known one is updated
    /// (`created` says whether its device exists).
    pub fn upsert(&mut self, info: &WireguardTunnelInfo, local_private_key: String, created: bool) -> (r:
        Result<Vec<DeviceAction>, ReconcileError>)
        requires
            old(self).wf(),
        ensures
            final(self).wf(),
            !old(self).wireguard@.contains_key(info.tunnel_id) ==> {
                &&& r matches Ok(acts) && acts@.len() == 0
                &&& final(self).wireguard@.dom() == old(self).wireguard@.dom().insert(info.tunnel_id)
                &&& forall|k: i32|
                    k != info.tunnel_id && #[trigger] old(self).wireguard@.contains_key(k)
                        ==> final(self).wireguard@[k] == old(self).wireguard@[k]
                &&& final(self).wireguard@[info.tunnel_id].tunnel_id == info.tunnel_id
                &&& final(self).wireguard@[info.tunnel_id].peer_node_id == info.peer_node_id
                &&& final(self).wireguard@[info.tunnel_id].ipv6 == info.endpoint_ipv6
                &&& final(self).wireguard@[info.tunnel_id].mtu == info.mtu
                &&& is_driver_config(
                    final(self).wireguard@[info.tunnel_id].os_tun,
                    *info,
                    local_private_key@,
                )
            },
            old(self).wireguard@.contains_key(info.tunnel_id) ==> {
                &&& final(self).wireguard@.dom() == old(self).wireguard@.dom()
                &&& forall|k: i32|
                    k != info.tunnel_id && #[trigger] old(self).wireguard@.contains_key(k)
                        ==> final(self).wireguard@[k] == old(self).wireguard@[k]
                &&& r is Err ==> final(self).wireguard@ == old(self).wireguard@
                &&& r is Ok && old(self).wireguard@[info.tunnel_id].ipv6 == info.endpoint_ipv6
                    ==> final(self).wireguard@ == old(self).wireguard@
                &&& old(self).wireguard@[info.tunnel_id].peer_node_id != info.peer_node_id
                    ==> r is Err
                &&& old(self).wireguard@[info.tunnel_id].peer_node_id == info.peer_node_id
                    ==> r is Ok
                &&& r is Ok && old(self).wireguard@[info.tunnel_id].ipv6 != info.endpoint_ipv6
                    ==> (r matches Ok(acts) && acts@.len() == (if created {
                    3int
                } else {
                    1int
                }) && (acts@[0] matches DeviceAction::Destroy(n) && n@ == old(
                    self,
                ).wireguard@[info.tunnel_id].os_tun.interface@) && (created ==> acts@[1] is Setup
                    && acts@[2] is EnsureUp))
                &&& r is Ok && old(self).wireguard@[info.tunnel_id].ipv6 == info.endpoint_ipv6
                    ==> (r matches Ok(acts) && acts@.len() == 0)
                &&& r is Ok && old(self).wireguard@[info.tunnel_id].ipv6 != info.endpoint_ipv6
                    ==> final(self).wireguard@[info.tunnel_id].ipv6 == info.endpoint_ipv6
                    && final(self).wireguard@[info.tunnel_id].os_tun.interface@ != old(
                    self,
                ).wireguard@[info.tunnel_id].os_tun.interface@ && is_driver_config(
                    final(self).wireguard@[info.tunnel_id].os_tun,
                    *info,
                    old(self).wireguard@[info.tunnel_id].os_tun.local_private_key@,
                )
            },
    {
        let id = info.tunnel_id;
        match self.wireguard.remove(&id) {
            None => {
                let t = WireguardTunnelC::new_from_rest(info, local_private_key);
                self.wireguard.insert(id, t);
                proof {
                    assert(final(self).wireguard@.dom() =~= old(self).wireguard@.dom().insert(id));
                }
                Ok(Vec::new())
            },
            Some(mut t) => {
                proof {
                    assert(t == old(self).wireguard@[id]);
                }
                let r = t.update_from_rest(info, created);
                self.wireguard.insert(id, t);
                proof {
                    assert(final(self).wireguard@.dom() =~= old(self).wireguard@.dom());
                    if r is Err || old(self).wireguard@[id].ipv6 == info.endpoint_ipv6 {
                        assert(final(self).wireguard@ =~= old(self).wireguard@);
                    }
                }
                r
            },
        }
    }

    /// Drops the record of a tunnel that left the controller's view and returns
    /// its configuration, whose device the caller destroys.
    pub fn remove(&mut self, tunnel_id: i32) -> (r: Option<WireGuardTunnel>)
        requires
            old(self).wf(),
        ensures
            final(self).wf(),
            final(self).wireguard@ == old(self).wireguard@.remove(tunnel_id),
            match r {
                Some(t) => old(self).wireguard@.contains_key(tunnel_id) && t == old(
                    self,
                ).wireguard@[tunnel_id].os_tun,
                None => !old(self).wireguard@.contains_key(tunnel_id),
            },
    {
        match self.wireguard.remove(&tunnel_id) {
            Some(t) => Some(t.os_tun),
            None => None,
        }
    }

    /// Whether a record exists for `tunnel_id`.
    pub fn contains(&self, tunnel_id: i32) -> (r: bool)
        ensures
            r == self.wireguard@.contains_key(tunnel_id),
    {
        self.wireguard.contains_key(&tunnel_id)
    }
}

/// The ids of `known` absent from `current`, in `known`'s order.
pub open spec fn missing_from(known: Seq<i32>, current: Seq<i32>) -> Seq<i32>
    decreases known.len(),
{
    if known.len() == 0 {
        Seq::empty()
    } else {
        let r = missing_from(known.drop_last(), current);
        if current.contains(known.last()) {
            r
        } else {
            r.push(known.last())
        }
    }
}

/// The ids in `known` that are missing from `current`, in `known`'s order:
/// tunnels that left the controller's view.
pub fn stale_ids(known: &Vec<i32>, current: &Vec<i32>) -> (r: Vec<i32>)
    ensures
        r@ == missing_from(known@, current@),
        forall|x: i32| r@.contains(x) <==> (known@.contains(x) && !current@.contains(x)),
{
    let mut r: Vec<i32> = Vec::new();
    let n = known.len();
    let mut i: usize = 0;
    while i < n
        invariant
            n == known@.len(),
            i <= n,
            r@ == missing_from(known@.subrange(0, i as int), current@),
            forall|x: i32|
                r@.contains(x) <==> (known@.subrange(0, i as int).contains(x) && !current@.contains(x)),
        decreases n - i,
    {
        let k = known[i];
        let mut found = false;
        let m = current.len();
        let mut j: usize = 0;
        while j < m
            invariant
                m == current@.len(),
                j <= m,
                found == current@.subrange(0, j as int).contains(k),
            decreases m - j,
        {
            proof {
                assert(current@.subrange(0, j + 1) =~= current@.subrange(0, j as int).push(current@[j as int]));
                lemma_seq_push_contains(current@.subrange(0, j as int), current@[j as int], k);
            }
            if current[j] == k {
                found = true;
            }
            j = j + 1;
        }
        proof {
            assert(current@.subrange(0, m as int) =~= current@);
            assert(known@.subrange(0, i + 1) =~= known@.subrange(0, i as int).push(k));
            assert(known@.subrange(0, i + 1).drop_last() =~= known@.subrange(0, i as int));
        }
        let ghost old_r = r@;
        if !found {
            r.push(k);
        }
        proof {
            assert forall|x: i32| r@.contains(x) <==> (known@.subrange(0, i + 1).contains(x)
                && !current@.contains(x)) by {
                lemma_seq_push_contains(known@.subrange(0, i as int), k, x);
                lemma_seq_push_contains(old_r, k, x);
            }
        }
        i = i + 1;
    }
    proof {
        assert(known@.subrange(0, n as int) =~= known@);
    }
    r
}

/// After an endpoint-family flip, carrying out the returned `EnsureUp` on the
/// new device leaves it with only the link-local address derived from its new
/// name and with the record's MTU, whatever it carried before.
pub proof fn lemma_flipped_device_converges(
    t: WireguardTunnelC,
    s: LinkModel,
    obs: Seq<IpNet>,
    readable: bool,
)
    requires
        lists(obs, s.addrs),
    ensures
        ({
            let lla = lla_of_seed(encode_utf8(t.os_tun.interface@));
            let e = ensure_up_effect(s, lla, obs, readable, t.mtu);
            &&& forall|x: IpNet| #[trigger] e.addrs.contains(x) ==> x.addr == lla
            &&& exists|x: IpNet| #[trigger] e.addrs.contains(x) && x.addr == lla
            &&& e.mtu == t.mtu as u32
        }),
{
    lemma_ensure_up_converges(
        s,
        lla_of_seed(encode_utf8(t.os_tun.interface@)),
        obs,
        readable,
        t.mtu,
    );
}

} // verus!
