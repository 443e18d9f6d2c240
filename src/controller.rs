//! The controller's tunnel-pairing model: descriptors between node pairs,
//! the asymmetric answer protocol, per-peer projection, and automatic pairing
//! inside mesh groups.

use crate::answer::{answered_of_code, WireguardAnswered};
use crate::rest::client::WireguardTunnelInfo;
use crate::text::{parse_trailing_port, trailing_port};
use std::collections::HashMap;
use vstd::prelude::*;

verus! {

broadcast use vstd::std_specs::hash::group_hash_axioms;

/// Authoritative record of a proposed WireGuard tunnel between two nodes.
#[derive(Clone, Debug)]
pub struct TunnelDescriptor {
    pub id: i32,
    pub peer1_id: i32,
    pub peer2_id: i32,
    pub endpoint_peer1: Option<String>,
    pub endpoint_peer2: Option<String>,
    /// Answer code of peer 1 (see `WireguardAnswered`).
    pub peer1_answered: i16,
    /// Answer code of peer 2.
    pub peer2_answered: i16,
    pub mtu: i32,
    pub endpoint_ipv6: bool,
    pub fec: bool,
    pub faketcp: bool,
    /// Milliseconds since the epoch.
    pub created_at: i64,
    /// Milliseconds since the epoch.
    pub updated_at: i64,
}

/// A named group of nodes; with `auto_wireguard` every new member is paired
/// with every current one.
#[derive(Clone, Debug)]
pub struct MeshGroup {
    pub id: i32,
    pub name: String,
    pub auto_wireguard: bool,
    pub auto_wireguard_mtu: i32,
}

#[derive(Clone, Copy, Debug, PartialEq, Eq, Structural)]
pub struct MeshMembership {
    pub mesh_group_id: i32,
    pub node_id: i32,
}

/// Why a controller operation was refused.
#[derive(Clone, Copy, Debug, PartialEq, Eq, Structural)]
pub enum PairingError {
    /// A tunnel needs two distinct peers.
    SamePeer,
    /// A descriptor for this unordered pair and endpoint family exists.
    Duplicate,
    /// No such mesh group, node or invite.
    NotFound,
    /// The identifier space is used up.
    IdsExhausted,
}

/// The triple that must be unique across descriptors.
pub open spec fn pair_key_of(a: int, b: int, ipv6: bool) -> (int, int, bool) {
    if a <= b {
        (a, b, ipv6)
    } else {
        (b, a, ipv6)
    }
}

pub open spec fn pair_key(d: TunnelDescriptor) -> (int, int, bool) {
    pair_key_of(d.peer1_id as int, d.peer2_id as int, d.endpoint_ipv6)
}

pub open spec fn has_pair(ts: Seq<TunnelDescriptor>, a: int, b: int, ipv6: bool) -> bool {
    exists|i: int| 0 <= i < ts.len() && #[trigger] pair_key(ts[i]) == pair_key_of(a, b, ipv6)
}

pub open spec fn involves(d: TunnelDescriptor, node: i32) -> bool {
    d.peer1_id == node || d.peer2_id == node
}

/// Invariant of the descriptor table.
pub open spec fn tunnels_wf(ts: Seq<TunnelDescriptor>, next_id: i32) -> bool {
    &&& 1 <= next_id
    &&& forall|i: int|
        #![trigger ts[i]]
        0 <= i < ts.len() ==> {
            &&& ts[i].peer1_id != ts[i].peer2_id
            &&& ts[i].updated_at >= ts[i].created_at
            &&& 1 <= ts[i].id < next_id
        }
    &&& forall|i: int, j: int|
        #![trigger ts[i], ts[j]]
        0 <= i < j < ts.len() ==> pair_key(ts[i]) != pair_key(ts[j]) && ts[i].id < ts[j].id
}

/// A fresh descriptor: no endpoints, no answers.
pub open spec fn new_descriptor(
    id: i32,
    a: i32,
    b: i32,
    mtu: i32,
    ipv6: bool,
    now: i64,
) -> TunnelDescriptor {
    TunnelDescriptor {
        id,
        peer1_id: a,
        peer2_id: b,
        endpoint_peer1: None,
        endpoint_peer2: None,
        peer1_answered: 0,
        peer2_answered: 0,
        mtu,
        endpoint_ipv6: ipv6,
        fec: false,
        faketcp: false,
        created_at: now,
        updated_at: now,
    }
}

/// Answer code recorded for an answer: `Answered` unless a decline code is given.
pub open spec fn answer_code(decline: Option<i16>) -> i16 {
    match decline {
        Some(c) => c,
        None => 1,
    }
}

/// The descriptor after `node` answered. `updated_at` becomes `now`, but never
/// moves backwards.
pub open spec fn answered_descriptor(
    d: TunnelDescriptor,
    node: i32,
    endpoint: Option<String>,
    decline: Option<i16>,
    now: i64,
) -> TunnelDescriptor {
    let t = if now >= d.updated_at {
        now
    } else {
        d.updated_at
    };
    if d.peer1_id == node {
        TunnelDescriptor {
            endpoint_peer1: endpoint,
            peer1_answered: answer_code(decline),
            updated_at: t,
            ..d
        }
    } else {
        TunnelDescriptor {
            endpoint_peer2: endpoint,
            peer2_answered: answer_code(decline),
            updated_at: t,
            ..d
        }
    }
}

/// Port preferred by the local side: the trailing port of its endpoint, or 0.
pub open spec fn preferred_port_of(endpoint: Option<String>) -> u16 {
    match endpoint {
        Some(s) => match trailing_port(s@) {
            Some(p) => p,
            None => 0,
        },
        None => 0,
    }
}

/// `v` is the view of `d` for `node`: the local side is the one whose id is
/// `node` (peer 1 first), the remote side the other.
pub open spec fn is_projection(
    v: WireguardTunnelInfo,
    d: TunnelDescriptor,
    node: i32,
    keys: Map<i32, String>,
) -> bool {
    let local_is_1 = d.peer1_id == node;
    let peer = if local_is_1 {
        d.peer2_id
    } else {
        d.peer1_id
    };
    let local_endpoint = if local_is_1 {
        d.endpoint_peer1
    } else {
        d.endpoint_peer2
    };
    &&& v.tunnel_id == d.id
    &&& v.peer_node_id == peer
    &&& v.public_key@ == (if keys.contains_key(peer) {
        keys[peer]@
    } else {
        Seq::<char>::empty()
    })
    &&& v.local_endpoint == local_endpoint
    &&& v.remote_endpoint == (if local_is_1 {
        d.endpoint_peer2
    } else {
        d.endpoint_peer1
    })
    &&& v.preferred_port == preferred_port_of(local_endpoint)
    &&& v.local_answered == answered_of_code(
        if local_is_1 {
            d.peer1_answered
        } else {
            d.peer2_answered
        },
    )
    &&& v.remote_response == answered_of_code(
        if local_is_1 {
            d.peer2_answered
        } else {
            d.peer1_answered
        },
    )
    &&& v.mtu == d.mtu
    &&& v.endpoint_ipv6 == d.endpoint_ipv6
    &&& v.fec == d.fec
    &&& v.faketcp == d.faketcp
    &&& v.created_at == d.created_at
    &&& v.updated_at == d.updated_at
}

/// The descriptors that involve `node`, in table order.
pub open spec fn involving(ts: Seq<TunnelDescriptor>, node: i32) -> Seq<TunnelDescriptor>
    decreases ts.len(),
{
    if ts.len() == 0 {
        Seq::empty()
    } else {
        let r = involving(ts.drop_last(), node);
        if involves(ts.last(), node) {
            r.push(ts.last())
        } else {
            r
        }
    }
}

/// A copy of an optional text.
pub fn clone_text(e: &Option<String>) -> (r: Option<String>)
    ensures
        r == *e,
{
    match e {
        Some(t) => Some(t.clone()),
        None => None,
    }
}

pub open spec fn membership(mesh_id: i32, node: i32) -> MeshMembership {
    MeshMembership { mesh_group_id: mesh_id, node_id: node }
}

/// The first mesh group with id `mesh_id` has `auto_wireguard` set.
pub open spec fn mesh_auto(meshes: Seq<MeshGroup>, mesh_id: i32) -> bool {
    exists|i: int| 0 <= i < meshes.len() && #[trigger] meshes[i].id == mesh_id && meshes[i].auto_wireguard
}

/// MTU of the mesh group with id `mesh_id`.
pub open spec fn mesh_mtu(meshes: Seq<MeshGroup>, mesh_id: i32) -> i32 {
    let i = choose|i: int| 0 <= i < meshes.len() && #[trigger] meshes[i].id == mesh_id;
    meshes[i].auto_wireguard_mtu
}

/// `d` is a fresh descriptor between `node` and another member of the group.
pub open spec fn joined_tunnel(
    d: TunnelDescriptor,
    node: i32,
    ms: Seq<MeshMembership>,
    mesh_id: i32,
    mtu: i32,
    now: i64,
) -> bool {
    exists|p: i32, v: bool|
        p != node && ms.contains(membership(mesh_id, p)) && #[trigger] new_descriptor(
            d.id,
            node,
            p,
            mtu,
            v,
            now,
        ) == d
}

/// Every other member of the group has both an IPv4-endpoint and an
/// IPv6-endpoint tunnel with `node`.
pub open spec fn paired_with_members(
    ts: Seq<TunnelDescriptor>,
    ms: Seq<MeshMembership>,
    mesh_id: i32,
    node: i32,
) -> bool {
    forall|k: int|
        0 <= k < ms.len() && (#[trigger] ms[k]).mesh_group_id == mesh_id && ms[k].node_id != node
            ==> has_pair(ts, node as int, ms[k].node_id as int, false) && has_pair(
            ts,
            node as int,
            ms[k].node_id as int,
            true,
        )
}

/// Controller state: tunnel descriptors, mesh groups and static keys.
pub struct ControllerStore {
    pub tunnels: Vec<TunnelDescriptor>,
    pub next_tunnel_id: i32,
    pub meshes: Vec<MeshGroup>,
    pub next_mesh_id: i32,
    pub memberships: Vec<MeshMembership>,
    /// Each node's static WireGuard public key.
    pub static_keys: HashMap<i32, String>,
}

impl ControllerStore {
    pub open spec fn wf(&self) -> bool {
        &&& tunnels_wf(self.tunnels@, self.next_tunnel_id)
        &&& 1 <= self.next_mesh_id
        &&& forall|i: int|
            #![trigger self.meshes@[i]]
            0 <= i < self.meshes@.len() ==> 1 <= self.meshes@[i].id < self.next_mesh_id
        &&& forall|i: int, j: int|
            #![trigger self.meshes@[i], self.meshes@[j]]
            0 <= i < j < self.meshes@.len() ==> self.meshes@[i].id < self.meshes@[j].id
    }

    pub fn new() -> (r: ControllerStore)
        ensures
            r.wf(),
            r.tunnels@.len() == 0,
            r.next_tunnel_id == 1,
            r.meshes@.len() == 0,
            r.next_mesh_id == 1,
            r.memberships@.len() == 0,
            r.static_keys@ == Map::<i32, String>::empty(),
    {
        ControllerStore {
            tunnels: Vec::new(),
            next_tunnel_id: 1,
            meshes: Vec::new(),
            next_mesh_id: 1,
            memberships: Vec::new(),
            static_keys: HashMap::new(),
        }
    }

    /// Whether a descriptor for the unordered pair `{a, b}` and `ipv6` exists.
    pub fn pair_exists(&self, a: i32, b: i32, ipv6: bool) -> (r: bool)
        ensures
            r == has_pair(self.tunnels@, a as int, b as int, ipv6),
    {
        let n = self.tunnels.len();
        let mut i: usize = 0;
        while i < n
            invariant
                n == self.tunnels@.len(),
                i <= n,
                forall|k: int|
                    0 <= k < i ==> #[trigger] pair_key(self.tunnels@[k]) != pair_key_of(
                        a as int,
                        b as int,
                        ipv6,
                    ),
            decreases n - i,
        {
            let d = &self.tunnels[i];
            if d.endpoint_ipv6 == ipv6 && ((d.peer1_id == a && d.peer2_id == b) || (d.peer1_id == b
                && d.peer2_id == a)) {
                assert(pair_key(self.tunnels@[i as int]) == pair_key_of(a as int, b as int, ipv6));
                return true;
            }
            i = i + 1;
        }
        false
    }

    /// Proposes a tunnel between `a` and `b`; at most one descriptor exists per
    /// unordered pair and endpoint family.
    pub fn create_tunnel(&mut self, a: i32, b: i32, mtu: i32, ipv6: bool, now: i64) -> (r: Result<
        i32,
        PairingError,
    >)
        requires
            old(self).wf(),
        ensures
            final(self).wf(),
            a == b ==> r == Err::<i32, PairingError>(PairingError::SamePeer),
            a != b && has_pair(old(self).tunnels@, a as int, b as int, ipv6) ==> r == Err::<
                i32,
                PairingError,
            >(PairingError::Duplicate),
            a != b && !has_pair(old(self).tunnels@, a as int, b as int, ipv6)
                && old(self).next_tunnel_id == i32::MAX ==> r == Err::<i32, PairingError>(
                PairingError::IdsExhausted,
            ),
            a != b && !has_pair(old(self).tunnels@, a as int, b as int, ipv6)
                && old(self).next_tunnel_id < i32::MAX ==> r == Ok::<i32, PairingError>(
                old(self).next_tunnel_id,
            ),
            r is Err ==> *final(self) == *old(self),
            r matches Ok(id) ==> {
                &&& final(self).tunnels@ == old(self).tunnels@.push(
                    new_descriptor(id, a, b, mtu, ipv6, now),
                )
                &&& final(self).next_tunnel_id == id + 1
                &&& final(self).meshes == old(self).meshes
                &&& final(self).next_mesh_id == old(self).next_mesh_id
                &&& final(self).memberships == old(self).memberships
                &&& final(self).static_keys == old(self).static_keys
            },
    {
        if a == b {
            return Err(PairingError::SamePeer);
        }
        if self.pair_exists(a, b, ipv6) {
            return Err(PairingError::Duplicate);
        }
        if self.next_tunnel_id == i32::MAX {
            return Err(PairingError::IdsExhausted);
        }
        let id = self.next_tunnel_id;
        let d = TunnelDescriptor {
            id,
            peer1_id: a,
            peer2_id: b,
            endpoint_peer1: None,
            endpoint_peer2: None,
            peer1_answered: 0,
            peer2_answered: 0,
            mtu,
            endpoint_ipv6: ipv6,
            fec: false,
            faketcp: false,
            created_at: now,
            updated_at: now,
        };
        let ghost old_ts = self.tunnels@;
        self.tunnels.push(d);
        self.next_tunnel_id = id + 1;
        proof {
            let ts = self.tunnels@;
            assert forall|i: int, j: int|
                #![trigger ts[i], ts[j]]
                0 <= i < j < ts.len() implies pair_key(ts[i]) != pair_key(ts[j]) && ts[i].id
                < ts[j].id by {
                if j == ts.len() - 1 {
                    assert(ts[i] == old_ts[i]);
                    assert(pair_key(old_ts[i]) != pair_key_of(a as int, b as int, ipv6));
                } else {
                    assert(ts[i] == old_ts[i] && ts[j] == old_ts[j]);
                }
            }
            assert forall|i: int|
                #![trigger ts[i]]
                0 <= i < ts.len() implies {
                &&& ts[i].peer1_id != ts[i].peer2_id
                &&& ts[i].updated_at >= ts[i].created_at
                &&& 1 <= ts[i].id < self.next_tunnel_id
            } by {
                if i < old_ts.len() {
                    assert(ts[i] == old_ts[i]);
                }
            }
        }
        Ok(id)
    }

    /// Records `key` as the static public key of `node`, replacing any earlier one.
    pub fn update_wireguard_pubkey(&mut self, node: i32, key: String)
        requires
            old(self).wf(),
        ensures
            final(self).wf(),
            final(self).static_keys@ == old(self).static_keys@.insert(node, key),
            final(self).tunnels == old(self).tunnels,
            final(self).next_tunnel_id == old(self).next_tunnel_id,
            final(self).meshes == old(self).meshes,
            final(self).next_mesh_id == old(self).next_mesh_id,
            final(self).memberships == old(self).memberships,
    {
        self.static_keys.insert(node, key);
    }

    /// The static public key of `node`, if it registered one.
    pub fn get_wireguard_pubkey(&self, node: i32) -> (r: Option<String>)
        ensures
            match r {
                Some(k) => self.static_keys@.contains_key(node) && k@ == self.static_keys@[node]@,
                None => !self.static_keys@.contains_key(node),
            },
    {
        match self.static_keys.get(&node) {
            Some(k) => Some(k.clone()),
            None => None,
        }
    }

    /// The view of descriptor `d` for `node`.
    fn project(&self, d: &TunnelDescriptor, node: i32) -> (r: WireguardTunnelInfo)
        requires
            involves(*d, node),
        ensures
            is_projection(r, *d, node, self.static_keys@),
    {
        let local_is_1 = d.peer1_id == node;
        let peer = if local_is_1 {
            d.peer2_id
        } else {
            d.peer1_id
        };
        let public_key = match self.get_wireguard_pubkey(peer) {
            Some(k) => k,
            None => String::new(),
        };
        let local = if local_is_1 {
            &d.endpoint_peer1
        } else {
            &d.endpoint_peer2
        };
        let remote = if local_is_1 {
            &d.endpoint_peer2
        } else {
            &d.endpoint_peer1
        };
        let local_endpoint = clone_text(local);
        let remote_endpoint = clone_text(remote);
        let preferred_port = match local {
            Some(e) => match parse_trailing_port(e.as_str()) {
                Some(p) => p,
                None => 0,
            },
            None => 0,
        };
        let (l, rm) = if local_is_1 {
            (d.peer1_answered, d.peer2_answered)
        } else {
            (d.peer2_answered, d.peer1_answered)
        };
        WireguardTunnelInfo {
            tunnel_id: d.id,
            peer_node_id: peer,
            public_key,
            preferred_port,
            local_endpoint,
            remote_endpoint,
            local_answered: WireguardAnswered::from(l),
            remote_response: WireguardAnswered::from(rm),
            mtu: d.mtu,
            endpoint_ipv6: d.endpoint_ipv6,
            fec: d.fec,
            faketcp: d.faketcp,
            created_at: d.created_at,
            updated_at: d.updated_at,
        }
    }

    /// Every descriptor that involves `node`, as seen from `node`.
    pub fn answers_for(&self, node: i32) -> (r: Vec<WireguardTunnelInfo>)
        ensures
            r@.len() == involving(self.tunnels@, node).len(),
            forall|k: int|
                0 <= k < r@.len() ==> is_projection(
                    #[trigger] r@[k],
                    involving(self.tunnels@, node)[k],
                    node,
                    self.static_keys@,
                ),
    {
        let n = self.tunnels.len();
        let mut r: Vec<WireguardTunnelInfo> = Vec::new();
        let mut i: usize = 0;
        proof {
            assert(self.tunnels@.subrange(0, 0) =~= Seq::<TunnelDescriptor>::empty());
        }
        while i < n
            invariant
                n == self.tunnels@.len(),
                i <= n,
                r@.len() == involving(self.tunnels@.subrange(0, i as int), node).len(),
                forall|k: int|
                    0 <= k < r@.len() ==> is_projection(
                        #[trigger] r@[k],
                        involving(self.tunnels@.subrange(0, i as int), node)[k],
                        node,
                        self.static_keys@,
                    ),
            decreases n - i,
        {
            let ghost pre = self.tunnels@.subrange(0, i as int);
            let ghost next = self.tunnels@.subrange(0, i + 1);
            proof {
                assert(next.drop_last() =~= pre);
            }
            let d = &self.tunnels[i];
            if d.peer1_id == node || d.peer2_id == node {
                let v = self.project(d, node);
                r.push(v);
            }
            i = i + 1;
        }
        proof {
            assert(self.tunnels@.subrange(0, n as int) =~= self.tunnels@);
        }
        r
    }

    /// Position of the descriptor with id `tunnel_id`.
    pub fn find_tunnel(&self, tunnel_id: i32) -> (r: Option<usize>)
        ensures
            match r {
                Some(i) => i < self.tunnels@.len() && self.tunnels@[i as int].id == tunnel_id,
                None => forall|i: int|
                    0 <= i < self.tunnels@.len() ==> #[trigger] self.tunnels@[i].id != tunnel_id,
            },
    {
        let n = self.tunnels.len();
        let mut i: usize = 0;
        while i < n
            invariant
                n == self.tunnels@.len(),
                i <= n,
                forall|k: int| 0 <= k < i ==> #[trigger] self.tunnels@[k].id != tunnel_id,
            decreases n - i,
        {
            if self.tunnels[i].id == tunnel_id {
                return Some(i);
            }
            i = i + 1;
        }
        None
    }

    /// Records `node`'s answer to tunnel `tunnel_id`: its endpoint, and
    /// `Answered` or the decline code. Answers from a node that is not a peer of
    /// the tunnel, or for an unknown tunnel, change nothing; the result says
    /// whether the answer was recorded.
    pub fn answer(
        &mut self,
        tunnel_id: i32,
        node: i32,
        endpoint: Option<String>,
        decline: Option<i16>,
        now: i64,
    ) -> (r: bool)
        requires
            old(self).wf(),
        ensures
            final(self).wf(),
            r == exists|i: int|
                0 <= i < old(self).tunnels@.len() && #[trigger] old(self).tunnels@[i].id
                    == tunnel_id && involves(old(self).tunnels@[i], node),
            !r ==> *final(self) == *old(self),
            r ==> exists|i: int|
                0 <= i < old(self).tunnels@.len() && #[trigger] old(self).tunnels@[i].id
                    == tunnel_id && final(self).tunnels@ == old(self).tunnels@.update(
                    i,
                    answered_descriptor(old(self).tunnels@[i], node, endpoint, decline, now),
                ),
            final(self).next_tunnel_id == old(self).next_tunnel_id,
            final(self).meshes == old(self).meshes,
            final(self).next_mesh_id == old(self).next_mesh_id,
            final(self).memberships == old(self).memberships,
            final(self).static_keys == old(self).static_keys,
    {
        match self.find_tunnel(tunnel_id) {
            None => false,
            Some(i) => {
                let ghost old_ts = self.tunnels@;
                proof {
                    assert forall|j: int|
                        0 <= j < old_ts.len() && #[trigger] old_ts[j].id == tunnel_id implies j
                        == i by {
                        if j < i {
                            assert(old_ts[j].id < old_ts[i as int].id);
                        } else if j > i {
                            assert(old_ts[i as int].id < old_ts[j].id);
                        }
                    }
                }
                let d = &self.tunnels[i];
                if d.peer1_id != node && d.peer2_id != node {
                    return false;
                }
                let t = if now >= d.updated_at {
                    now
                } else {
                    d.updated_at
                };
                let code: i16 = match decline {
                    Some(c) => c,
                    None => 1,
                };
                let side1 = d.peer1_id == node;
                let (e1, e2) = if side1 {
                    (endpoint, clone_text(&d.endpoint_peer2))
                } else {
                    (clone_text(&d.endpoint_peer1), endpoint)
                };
                let nd = TunnelDescriptor {
                    id: d.id,
                    peer1_id: d.peer1_id,
                    peer2_id: d.peer2_id,
                    endpoint_peer1: e1,
                    endpoint_peer2: e2,
                    peer1_answered: if side1 {
                        code
                    } else {
                        d.peer1_answered
                    },
                    peer2_answered: if side1 {
                        d.peer2_answered
                    } else {
                        code
                    },
                    mtu: d.mtu,
                    endpoint_ipv6: d.endpoint_ipv6,
                    fec: d.fec,
                    faketcp: d.faketcp,
                    created_at: d.created_at,
                    updated_at: t,
                };
                self.tunnels.set(i, nd);
                proof {
                    let ts = self.tunnels@;
                    assert(ts[i as int] == answered_descriptor(old_ts[i as int], node, endpoint, decline, now));
                    assert forall|a: int, b: int|
                        #![trigger ts[a], ts[b]]
                        0 <= a < b < ts.len() implies pair_key(ts[a]) != pair_key(ts[b]) && ts[a].id
                        < ts[b].id by {
                        assert(pair_key(ts[a]) == pair_key(old_ts[a]));
                        assert(pair_key(ts[b]) == pair_key(old_ts[b]));
                        assert(ts[a].id == old_ts[a].id && ts[b].id == old_ts[b].id);
                    }
                    assert forall|a: int|
                        #![trigger ts[a]]
                        0 <= a < ts.len() implies {
                        &&& ts[a].peer1_id != ts[a].peer2_id
                        &&& ts[a].updated_at >= ts[a].created_at
                        &&& 1 <= ts[a].id < self.next_tunnel_id
                    } by {
                        assert(ts[a].created_at == old_ts[a].created_at);
                    }
                }
                true
            },
        }
    }

    /// Creates a mesh group and returns its id.
    pub fn create_mesh_group(
        &mut self,
        name: String,
        auto_wireguard: bool,
        auto_wireguard_mtu: i32,
    ) -> (r: Result<i32, PairingError>)
        requires
            old(self).wf(),
        ensures
            final(self).wf(),
            old(self).next_mesh_id < i32::MAX <==> r is Ok,
            r is Err ==> *final(self) == *old(self),
            r matches Ok(id) ==> {
                &&& id == old(self).next_mesh_id
                &&& final(self).meshes@ == old(self).meshes@.push(
                    MeshGroup { id, name, auto_wireguard, auto_wireguard_mtu },
                )
                &&& final(self).next_mesh_id == id + 1
                &&& final(self).tunnels == old(self).tunnels
                &&& final(self).next_tunnel_id == old(self).next_tunnel_id
                &&& final(self).memberships == old(self).memberships
                &&& final(self).static_keys == old(self).static_keys
            },
    {
        if self.next_mesh_id == i32::MAX {
            return Err(PairingError::IdsExhausted);
        }
        let id = self.next_mesh_id;
        let ghost old_ms = self.meshes@;
        self.meshes.push(MeshGroup { id, name, auto_wireguard, auto_wireguard_mtu });
        self.next_mesh_id = id + 1;
        proof {
            let ms = self.meshes@;
            assert forall|i: int, j: int|
                #![trigger ms[i], ms[j]]
                0 <= i < j < ms.len() implies ms[i].id < ms[j].id by {
                assert(ms[i] == old_ms[i]);
                if j < old_ms.len() {
                    assert(ms[j] == old_ms[j]);
                }
            }
            assert forall|i: int|
                #![trigger ms[i]]
                0 <= i < ms.len() implies 1 <= ms[i].id < self.next_mesh_id by {
                if i < old_ms.len() {
                    assert(ms[i] == old_ms[i]);
                }
            }
        }
        Ok(id)
    }

    /// Position of the mesh group with id `mesh_id`.
    pub fn find_mesh(&self, mesh_id: i32) -> (r: Option<usize>)
        ensures
            match r {
                Some(i) => i < self.meshes@.len() && self.meshes@[i as int].id == mesh_id,
                None => forall|i: int|
                    0 <= i < self.meshes@.len() ==> #[trigger] self.meshes@[i].id != mesh_id,
            },
    {
        let n = self.meshes.len();
        let mut i: usize = 0;
        while i < n
            invariant
                n == self.meshes@.len(),
                i <= n,
                forall|k: int| 0 <= k < i ==> #[trigger] self.meshes@[k].id != mesh_id,
            decreases n - i,
        {
            if self.meshes[i].id == mesh_id {
                return Some(i);
            }
            i = i + 1;
        }
        None
    }

    /// Whether `node` belongs to mesh group `mesh_id`.
    pub fn is_member(&self, mesh_id: i32, node: i32) -> (r: bool)
        ensures
            r == self.memberships@.contains(membership(mesh_id, node)),
    {
        let m = MeshMembership { mesh_group_id: mesh_id, node_id: node };
        let n = self.memberships.len();
        let mut i: usize = 0;
        while i < n
            invariant
                n == self.memberships@.len(),
                i <= n,
                m == membership(mesh_id, node),
                forall|k: int| 0 <= k < i ==> #[trigger] self.memberships@[k] != m,
            decreases n - i,
        {
            let mm = self.memberships[i];
            if mm.mesh_group_id == mesh_id && mm.node_id == node {
                assert(self.memberships@[i as int] == membership(mesh_id, node));
                assert(self.memberships@.contains(membership(mesh_id, node)));
                return true;
            }
            assert(self.memberships@[i as int] != m);
            i = i + 1;
        }
        false
    }

    /// Adds `node` to mesh group `mesh_id` (once). When the group has
    /// `auto_wireguard`, proposes an IPv4-endpoint and an IPv6-endpoint tunnel
    /// with the group's MTU between `node` and every other member; pairs that
    /// already have one keep it.
    pub fn join_mesh(&mut self, node: i32, mesh_id: i32, now: i64) -> (r: Result<(), PairingError>)
        requires
            old(self).wf(),
        ensures
            final(self).wf(),
            r == Err::<(), PairingError>(PairingError::NotFound) <==> forall|i: int|
                0 <= i < old(self).meshes@.len() ==> #[trigger] old(self).meshes@[i].id
                    != mesh_id,
            r == Err::<(), PairingError>(PairingError::NotFound) ==> *final(self) == *old(self),
            r is Err ==> r == Err::<(), PairingError>(PairingError::NotFound) || r == Err::<
                (),
                PairingError,
            >(PairingError::IdsExhausted),
            r == Err::<(), PairingError>(PairingError::IdsExhausted) ==> final(self).next_tunnel_id
                == i32::MAX,
            final(self).meshes == old(self).meshes,
            final(self).next_mesh_id == old(self).next_mesh_id,
            final(self).static_keys == old(self).static_keys,
            old(self).tunnels@.len() <= final(self).tunnels@.len(),
            forall|i: int|
                0 <= i < old(self).tunnels@.len() ==> #[trigger] final(self).tunnels@[i]
                    == old(self).tunnels@[i],
            r is Ok ==> final(self).memberships@.contains(membership(mesh_id, node)),
            r is Ok && mesh_auto(old(self).meshes@, mesh_id) ==> paired_with_members(
                final(self).tunnels@,
                final(self).memberships@,
                mesh_id,
                node,
            ),
            forall|i: int|
                old(self).tunnels@.len() <= i < final(self).tunnels@.len() ==> (
                #[trigger] final(self).tunnels@[i]).mtu == mesh_mtu(old(self).meshes@, mesh_id),
            r != Err::<(), PairingError>(PairingError::NotFound) ==> final(self).memberships@ == (
            if old(self).memberships@.contains(membership(mesh_id, node)) {
                old(self).memberships@
            } else {
                old(self).memberships@.push(membership(mesh_id, node))
            }),
            !mesh_auto(old(self).meshes@, mesh_id) ==> final(self).tunnels == old(self).tunnels,
            forall|i: int|
                old(self).tunnels@.len() <= i < final(self).tunnels@.len() ==> joined_tunnel(
                    #[trigger] final(self).tunnels@[i],
                    node,
                    final(self).memberships@,
                    mesh_id,
                    mesh_mtu(old(self).meshes@, mesh_id),
                    now,
                ),
    {
        let mi = match self.find_mesh(mesh_id) {
            Some(i) => i,
            None => {
                return Err(PairingError::NotFound);
            },
        };
        let auto = self.meshes[mi].auto_wireguard;
        let mtu = self.meshes[mi].auto_wireguard_mtu;
        if !self.is_member(mesh_id, node) {
            self.memberships.push(MeshMembership { mesh_group_id: mesh_id, node_id: node });
            assert(self.memberships@[self.memberships@.len() - 1] == membership(mesh_id, node));
        }
        let ghost old_ts = old(self).tunnels@;
        let ghost ms = self.memberships@;
        assert(ms.contains(membership(mesh_id, node)));
        proof {
            let ws = self.meshes@;
            assert forall|j: int| 0 <= j < ws.len() && #[trigger] ws[j].id == mesh_id implies j == mi by {
                if j < mi {
                    assert(ws[j].id < ws[mi as int].id);
                } else if j > mi {
                    assert(ws[mi as int].id < ws[j].id);
                }
            }
            assert(mesh_mtu(ws, mesh_id) == mtu);
            assert(mesh_auto(ws, mesh_id) == auto);
        }
        if !auto {
            return Ok(());
        }
        let n = self.memberships.len();
        let mut k: usize = 0;
        while k < n
            invariant
                self.wf(),
                n == ms.len(),
                k <= n,
                self.memberships@ == ms,
                self.meshes == old(self).meshes,
                self.next_mesh_id == old(self).next_mesh_id,
                self.static_keys == old(self).static_keys,
                mi < self.meshes@.len(),
                self.meshes@[mi as int].id == mesh_id,
                self.meshes@[mi as int].auto_wireguard_mtu == mtu,
                old_ts == old(self).tunnels@,
                mesh_auto(old(self).meshes@, mesh_id),
                ms == (if old(self).memberships@.contains(membership(mesh_id, node)) {
                    old(self).memberships@
                } else {
                    old(self).memberships@.push(membership(mesh_id, node))
                }),
                old_ts.len() <= self.tunnels@.len(),
                forall|i: int| 0 <= i < old_ts.len() ==> #[trigger] self.tunnels@[i] == old_ts[i],
                forall|i: int|
                    old_ts.len() <= i < self.tunnels@.len() ==> #[trigger] self.tunnels@[i].mtu
                        == mtu,
                forall|i: int|
                    old_ts.len() <= i < self.tunnels@.len() ==> joined_tunnel(
                        #[trigger] self.tunnels@[i],
                        node,
                        ms,
                        mesh_id,
                        mtu,
                        now,
                    ),
                forall|j: int|
                    0 <= j < k ==> (#[trigger] ms[j]).mesh_group_id == mesh_id && ms[j].node_id
                        != node ==> has_pair(self.tunnels@, node as int, ms[j].node_id as int, false)
                        && has_pair(self.tunnels@, node as int, ms[j].node_id as int, true),
            decreases n - k,
        {
            let m = self.memberships[k];
            if m.mesh_group_id == mesh_id && m.node_id != node {
                let ghost before = self.tunnels@;
                let r1 = self.create_tunnel(node, m.node_id, mtu, false, now);
                if let Err(PairingError::IdsExhausted) = r1 {
                    return Err(PairingError::IdsExhausted);
                }
                let ghost mid = self.tunnels@;
                let r2 = self.create_tunnel(node, m.node_id, mtu, true, now);
                if let Err(PairingError::IdsExhausted) = r2 {
                    return Err(PairingError::IdsExhausted);
                }
                proof {
                    let after = self.tunnels@;
                    assert(forall|i: int| 0 <= i < before.len() ==> #[trigger] after[i] == before[i]);
                    assert(ms[k as int] == membership(mesh_id, m.node_id));
                    assert(ms.contains(membership(mesh_id, m.node_id)));
                    assert forall|i: int| old_ts.len() <= i < after.len() implies joined_tunnel(
                        #[trigger] after[i],
                        node,
                        ms,
                        mesh_id,
                        mtu,
                        now,
                    ) by {
                        if i < before.len() {
                            assert(after[i] == before[i]);
                        } else if i < mid.len() {
                            assert(after[i] == mid[i]);
                            assert(new_descriptor(after[i].id, node, m.node_id, mtu, false, now)
                                == after[i]);
                        } else {
                            assert(new_descriptor(after[i].id, node, m.node_id, mtu, true, now)
                                == after[i]);
                        }
                    }
                    assert forall|j: int|
                        0 <= j <= k && (#[trigger] ms[j]).mesh_group_id == mesh_id
                            && ms[j].node_id != node implies has_pair(
                        after,
                        node as int,
                        ms[j].node_id as int,
                        false,
                    ) && has_pair(after, node as int, ms[j].node_id as int, true) by {
                        let p = ms[j].node_id as int;
                        if j < k {
                            let w1 = choose|i: int|
                                0 <= i < before.len() && #[trigger] pair_key(before[i])
                                    == pair_key_of(node as int, p, false);
                            assert(after[w1] == before[w1]);
                            let w2 = choose|i: int|
                                0 <= i < before.len() && #[trigger] pair_key(before[i])
                                    == pair_key_of(node as int, p, true);
                            assert(after[w2] == before[w2]);
                        } else {
                            if r1 is Ok {
                                assert(pair_key(mid[before.len() as int]) == pair_key_of(
                                    node as int,
                                    p,
                                    false,
                                ));
                                assert(after[before.len() as int] == mid[before.len() as int]);
                            } else {
                                let w1 = choose|i: int|
                                    0 <= i < before.len() && #[trigger] pair_key(before[i])
                                        == pair_key_of(node as int, p, false);
                                assert(after[w1] == before[w1]);
                            }
                            if r2 is Ok {
                                assert(pair_key(after[mid.len() as int]) == pair_key_of(
                                    node as int,
                                    p,
                                    true,
                                ));
                            } else {
                                let w2 = choose|i: int|
                                    0 <= i < mid.len() && #[trigger] pair_key(mid[i])
                                        == pair_key_of(node as int, p, true);
                                assert(after[w2] == mid[w2]);
                            }
                        }
                    }
                }
            }
            k = k + 1;
        }
        Ok(())
    }
}

/// No two descriptors share the triple `(min(peer1, peer2), max(peer1, peer2),
/// endpoint_ipv6)`.
pub proof fn lemma_pair_triple_unique(store: ControllerStore)
    requires
        store.wf(),
    ensures
        forall|i: int, j: int|
            0 <= i < store.tunnels@.len() && 0 <= j < store.tunnels@.len() && i != j
                ==> pair_key(#[trigger] store.tunnels@[i]) != pair_key(
                #[trigger] store.tunnels@[j],
            ),
{
    let ts = store.tunnels@;
    assert forall|i: int, j: int|
        0 <= i < ts.len() && 0 <= j < ts.len() && i != j implies pair_key(#[trigger] ts[i])
        != pair_key(#[trigger] ts[j]) by {
        if i > j {
            assert(pair_key(ts[j]) != pair_key(ts[i]));
        }
    }
}

/// Every descriptor was last updated no earlier than it was created.
pub proof fn lemma_updated_after_created(store: ControllerStore)
    requires
        store.wf(),
    ensures
        forall|i: int|
            0 <= i < store.tunnels@.len() ==> (#[trigger] store.tunnels@[i]).updated_at
                >= store.tunnels@[i].created_at,
{
}

/// Answering keeps a descriptor's identity, pair and creation time, and never
/// moves `updated_at` backwards.
pub proof fn lemma_answer_keeps_times(
    d: TunnelDescriptor,
    node: i32,
    endpoint: Option<String>,
    decline: Option<i16>,
    now: i64,
)
    requires
        d.updated_at >= d.created_at,
    ensures
        answered_descriptor(d, node, endpoint, decline, now).created_at == d.created_at,
        answered_descriptor(d, node, endpoint, decline, now).updated_at >= d.updated_at,
        answered_descriptor(d, node, endpoint, decline, now).updated_at >= d.created_at,
        answered_descriptor(d, node, endpoint, decline, now).id == d.id,
        pair_key(answered_descriptor(d, node, endpoint, decline, now)) == pair_key(d),
        answered_descriptor(d, node, endpoint, decline, now).mtu == d.mtu,
{
}

/// A view derived for `node` names the other peer, and `node` is exactly one
/// of the descriptor's two peers.
pub proof fn lemma_view_names_other_peer(
    d: TunnelDescriptor,
    node: i32,
    v: WireguardTunnelInfo,
    keys: Map<i32, String>,
)
    requires
        d.peer1_id != d.peer2_id,
        involves(d, node),
        is_projection(v, d, node, keys),
    ensures
        v.peer_node_id != node,
        (d.peer1_id == node) != (d.peer2_id == node),
{
}

/// The descriptors behind `answers_for(node)` all involve `node` and come from
/// the table.
pub proof fn lemma_involving_members(ts: Seq<TunnelDescriptor>, node: i32)
    ensures
        forall|k: int|
            0 <= k < involving(ts, node).len() ==> involves(#[trigger] involving(ts, node)[k], node)
                && ts.contains(involving(ts, node)[k]),
    decreases ts.len(),
{
    if ts.len() > 0 {
        let pre = ts.drop_last();
        lemma_involving_members(pre, node);
        let r = involving(ts, node);
        assert forall|k: int|
            0 <= k < r.len() implies involves(#[trigger] r[k], node) && ts.contains(r[k]) by {
            if k < involving(pre, node).len() {
                assert(r[k] == involving(pre, node)[k]);
                let w = choose|i: int| 0 <= i < pre.len() && pre[i] == r[k];
                assert(ts[w] == pre[w]);
            } else {
                assert(r[k] == ts.last());
                assert(ts[ts.len() - 1] == ts.last());
            }
        }
    }
}

/// Every view that `answers_for(node)` returns names a peer other than `node`,
/// and `node` is exactly one of the peers of the descriptor it projects.
pub proof fn lemma_answers_name_other_peer(store: ControllerStore, node: i32, views: Seq<
    WireguardTunnelInfo,
>)
    requires
        store.wf(),
        views.len() == involving(store.tunnels@, node).len(),
        forall|k: int|
            0 <= k < views.len() ==> is_projection(
                #[trigger] views[k],
                involving(store.tunnels@, node)[k],
                node,
                store.static_keys@,
            ),
    ensures
        forall|k: int|
            0 <= k < views.len() ==> (#[trigger] views[k]).peer_node_id != node && (involving(
                store.tunnels@,
                node,
            )[k].peer1_id == node) != (involving(store.tunnels@, node)[k].peer2_id == node),
{
    let ts = store.tunnels@;
    lemma_involving_members(ts, node);
    assert forall|k: int| 0 <= k < views.len() implies (#[trigger] views[k]).peer_node_id != node
        && (involving(ts, node)[k].peer1_id == node) != (involving(ts, node)[k].peer2_id
        == node) by {
        let d = involving(ts, node)[k];
        assert(ts.contains(d));
        let w = choose|i: int| 0 <= i < ts.len() && ts[i] == d;
        assert(ts[w].peer1_id != ts[w].peer2_id);
        lemma_view_names_other_peer(d, node, views[k], store.static_keys@);
    }
}

} // verus!
