//! The controller's nodes and invitations: registration with an invite code,
//! authentication by auth key, renaming.

use crate::controller::PairingError;
use vstd::prelude::*;

verus! {

/// A registered node.
#[derive(Clone, Debug)]
pub struct Node {
    pub id: i32,
    pub name: String,
    /// Opaque key the node presents on every call.
    pub auth_key: String,
    /// Milliseconds since the epoch.
    pub created_at: i64,
}

/// An invitation code with an optional use limit.
#[derive(Clone, Debug)]
pub struct Invite {
    pub id: i32,
    pub code: String,
    pub created_at: i64,
    pub expires_at: Option<i64>,
    pub used_count: i32,
    pub max_uses: Option<i32>,
    pub join_mesh: Option<i32>,
}

/// Whether an invite may be used once more.
pub open spec fn invite_usable(i: Invite) -> bool {
    match i.max_uses {
        Some(m) => i.used_count < m,
        None => i.used_count < i32::MAX,
    }
}

/// No invite before position `i` has code `code`.
pub open spec fn is_first_code(invites: Seq<Invite>, i: int, code: Seq<char>) -> bool {
    forall|k: int| 0 <= k < i ==> (#[trigger] invites[k]).code@ != code
}

/// `i` is the first invite whose code is `code`.
pub open spec fn first_invite_with(invites: Seq<Invite>, i: int, code: Seq<char>) -> bool {
    0 <= i < invites.len() && invites[i].code@ == code && is_first_code(invites, i, code)
}

proof fn lemma_first_invite_unique(invites: Seq<Invite>, i: int, j: int, code: Seq<char>)
    requires
        first_invite_with(invites, i, code),
        first_invite_with(invites, j, code),
    ensures
        i == j,
{
    if i < j {
        assert(invites[i].code@ != code);
    } else if j < i {
        assert(invites[j].code@ != code);
    }
}

/// Why registering with `code` fails, or `None` when it succeeds: no invite
/// has the code, the first one with it is used up, or node ids ran out.
pub open spec fn registration_error(reg: NodeRegistry, code: Seq<char>) -> Option<PairingError> {
    if exists|i: int| first_invite_with(reg.invites@, i, code) {
        let i = choose|i: int| first_invite_with(reg.invites@, i, code);
        if !invite_usable(reg.invites@[i]) {
            Some(PairingError::NotFound)
        } else if reg.next_node_id == i32::MAX {
            Some(PairingError::IdsExhausted)
        } else {
            None
        }
    } else {
        Some(PairingError::NotFound)
    }
}

/// `new` is `old` after registering `name` with `auth_key`: the node is
/// appended with the next id, and the first invite with `code` counts one
/// more use.
pub open spec fn registration_done(
    old: NodeRegistry,
    new: NodeRegistry,
    code: Seq<char>,
    name: String,
    auth_key: String,
    now: i64,
) -> bool {
    let i = choose|i: int| first_invite_with(old.invites@, i, code);
    &&& new.nodes@ == old.nodes@.push(
        Node { id: old.next_node_id, name, auth_key, created_at: now },
    )
    &&& new.next_node_id == old.next_node_id + 1
    &&& new.invites@ == old.invites@.update(
        i,
        Invite { used_count: (old.invites@[i].used_count + 1) as i32, ..old.invites@[i] },
    )
    &&& new.next_invite_id == old.next_invite_id
}

/// Settings of a new mesh group from an operator request: automatic pairing
/// off unless asked for; its MTU defaults to 1420 and is 0 without pairing.
pub fn mesh_settings(auto_wireguard: Option<bool>, auto_wireguard_mtu: Option<i32>) -> (r: (bool, i32))
    ensures
        r.0 == (auto_wireguard == Some(true)),
        r.1 == (if r.0 {
            match auto_wireguard_mtu {
                Some(m) => m,
                None => 1420,
            }
        } else {
            0
        }),
{
    let auto = match auto_wireguard {
        Some(a) => a,
        None => false,
    };
    let mtu = if auto {
        match auto_wireguard_mtu {
            Some(m) => m,
            None => 1420,
        }
    } else {
        0
    };
    (auto, mtu)
}

/// Relies on `uuid::Uuid::new_v4` and its `Display`: a random version-4 UUID
/// in hyphenated text. Nothing is promised of the value.
#[verifier::external_body]
fn new_auth_key() -> (r: String) {
    uuid::Uuid::new_v4().to_string()
}

/// Nodes and invitations.
pub struct NodeRegistry {
    pub nodes: Vec<Node>,
    pub next_node_id: i32,
    pub invites: Vec<Invite>,
    pub next_invite_id: i32,
}

impl NodeRegistry {
    pub open spec fn wf(&self) -> bool {
        &&& 1 <= self.next_node_id
        &&& 1 <= self.next_invite_id
    }

    pub fn new() -> (r: NodeRegistry)
        ensures
            r.wf(),
            r.nodes@.len() == 0,
            r.next_node_id == 1,
            r.invites@.len() == 0,
            r.next_invite_id == 1,
    {
        NodeRegistry { nodes: Vec::new(), next_node_id: 1, invites: Vec::new(), next_invite_id: 1 }
    }

    /// Stores a new invitation and returns its id.
    pub fn create_invite(
        &mut self,
        code: String,
        expires_at: Option<i64>,
        max_uses: Option<i32>,
        join_mesh: Option<i32>,
        now: i64,
    ) -> (r: Result<i32, PairingError>)
        requires
            old(self).wf(),
        ensures
            final(self).wf(),
            r is Ok <==> old(self).next_invite_id < i32::MAX,
            r is Err ==> *final(self) == *old(self),
            r matches Ok(id) ==> id == old(self).next_invite_id && final(self).invites@
                == old(self).invites@.push(
                Invite { id, code, created_at: now, expires_at, used_count: 0, max_uses, join_mesh },
            ) && final(self).nodes == old(self).nodes,
    {
        if self.next_invite_id == i32::MAX {
            return Err(PairingError::IdsExhausted);
        }
        let id = self.next_invite_id;
        self.invites.push(
            Invite { id, code, created_at: now, expires_at, used_count: 0, max_uses, join_mesh },
        );
        self.next_invite_id = id + 1;
        Ok(id)
    }

    /// Position of the first invite whose code is `code`.
    pub fn find_invite(&self, code: &String) -> (r: Option<usize>)
        ensures
            match r {
                Some(i) => i < self.invites@.len() && self.invites@[i as int].code@ == code@ && forall|
                    k: int,
                | 0 <= k < i ==> (#[trigger] self.invites@[k]).code@ != code@,
                None => forall|k: int|
                    0 <= k < self.invites@.len() ==> (#[trigger] self.invites@[k]).code@ != code@,
            },
    {
        let n = self.invites.len();
        let mut i: usize = 0;
        while i < n
            invariant
                n == self.invites@.len(),
                i <= n,
                forall|k: int| 0 <= k < i ==> (#[trigger] self.invites@[k]).code@ != code@,
            decreases n - i,
        {
            if self.invites[i].code == *code {
                return Some(i);
            }
            i = i + 1;
        }
        None
    }

    /// Registers a node under the first invite with code `invitation_key`,
    /// which must still have a use left; the invite's use count goes up by one
    /// and the node gets `auth_key`. Returns the node's id.
    pub fn register_node(
        &mut self,
        name: String,
        invitation_key: &String,
        auth_key: String,
        now: i64,
    ) -> (r: Result<i32, PairingError>)
        requires
            old(self).wf(),
        ensures
            final(self).wf(),
            match registration_error(*old(self), invitation_key@) {
                Some(e) => r == Err::<i32, PairingError>(e) && *final(self) == *old(self),
                None => r == Ok::<i32, PairingError>(old(self).next_node_id) && registration_done(
                    *old(self),
                    *final(self),
                    invitation_key@,
                    name,
                    auth_key,
                    now,
                ),
            },
    {
        let i = match self.find_invite(invitation_key) {
            Some(i) => i,
            None => {
                proof {
                    assert(!exists|j: int| first_invite_with(self.invites@, j, invitation_key@));
                }
                return Err(PairingError::NotFound);
            },
        };
        proof {
            assert(first_invite_with(self.invites@, i as int, invitation_key@));
            let c = choose|j: int| first_invite_with(self.invites@, j, invitation_key@);
            lemma_first_invite_unique(self.invites@, c, i as int, invitation_key@);
        }
        let used = self.invites[i].used_count;
        let usable = match self.invites[i].max_uses {
            Some(m) => used < m,
            None => used < i32::MAX,
        };
        if !usable {
            return Err(PairingError::NotFound);
        }
        if self.next_node_id == i32::MAX {
            return Err(PairingError::IdsExhausted);
        }
        let inv = &self.invites[i];
        let updated = Invite {
            id: inv.id,
            code: inv.code.clone(),
            created_at: inv.created_at,
            expires_at: inv.expires_at,
            used_count: used + 1,
            max_uses: inv.max_uses,
            join_mesh: inv.join_mesh,
        };
        self.invites.set(i, updated);
        let id = self.next_node_id;
        self.nodes.push(Node { id, name, auth_key, created_at: now });
        self.next_node_id = id + 1;
        Ok(id)
    }

    /// Registers a node with a freshly generated auth key and returns the key.
    /// It fails exactly when `register_node` would.
    pub fn register_node_with_new_key(&mut self, name: String, invitation_key: &String, now: i64) -> (r:
        Result<String, PairingError>)
        requires
            old(self).wf(),
        ensures
            final(self).wf(),
            match registration_error(*old(self), invitation_key@) {
                Some(e) => r == Err::<String, PairingError>(e) && *final(self) == *old(self),
                None => r matches Ok(k) && registration_done(
                    *old(self),
                    *final(self),
                    invitation_key@,
                    name,
                    k,
                    now,
                ),
            },
    {
        let key = new_auth_key();
        let copy = key.clone();
        match self.register_node(name, invitation_key, key, now) {
            Ok(_) => Ok(copy),
            Err(e) => Err(e),
        }
    }

    /// The node whose auth key is `key`, if any.
    pub fn authenticate(&self, key: &String) -> (r: Option<usize>)
        ensures
            match r {
                Some(i) => i < self.nodes@.len() && self.nodes@[i as int].auth_key@ == key@,
                None => forall|k: int|
                    0 <= k < self.nodes@.len() ==> (#[trigger] self.nodes@[k]).auth_key@ != key@,
            },
    {
        let n = self.nodes.len();
        let mut i: usize = 0;
        while i < n
            invariant
                n == self.nodes@.len(),
                i <= n,
                forall|k: int| 0 <= k < i ==> (#[trigger] self.nodes@[k]).auth_key@ != key@,
            decreases n - i,
        {
            if self.nodes[i].auth_key == *key {
                return Some(i);
            }
            i = i + 1;
        }
        None
    }

    /// Name and creation time of node `id`.
    pub fn get_node(&self, id: i32) -> (r: Option<(String, i64)>)
        ensures
            match r {
                Some((name, created)) => exists|i: int|
                    0 <= i < self.nodes@.len() && (#[trigger] self.nodes@[i]).id == id
                        && self.nodes@[i].name@ == name@ && self.nodes@[i].created_at == created,
                None => forall|i: int| 0 <= i < self.nodes@.len() ==> (#[trigger] self.nodes@[i]).id != id,
            },
    {
        let n = self.nodes.len();
        let mut i: usize = 0;
        while i < n
            invariant
                n == self.nodes@.len(),
                i <= n,
                forall|k: int| 0 <= k < i ==> (#[trigger] self.nodes@[k]).id != id,
            decreases n - i,
        {
            if self.nodes[i].id == id {
                let nd = &self.nodes[i];
                assert(self.nodes@[i as int].id == id);
                return Some((nd.name.clone(), nd.created_at));
            }
            i = i + 1;
        }
        None
    }

    /// Renames node `id`; the result says whether such a node exists.
    pub fn update_node_name(&mut self, id: i32, new_name: String) -> (r: bool)
        requires
            old(self).wf(),
        ensures
            final(self).wf(),
            final(self).invites == old(self).invites,
            final(self).nodes@.len() == old(self).nodes@.len(),
            r == exists|i: int| 0 <= i < old(self).nodes@.len() && (#[trigger] old(self).nodes@[i]).id == id,
            forall|i: int|
                0 <= i < old(self).nodes@.len() ==> if (#[trigger] old(self).nodes@[i]).id == id {
                    final(self).nodes@[i] == (Node { name: new_name, ..old(self).nodes@[i] })
                } else {
                    final(self).nodes@[i] == old(self).nodes@[i]
                },
    {
        let n = self.nodes.len();
        let mut found = false;
        let mut i: usize = 0;
        while i < n
            invariant
                n == self.nodes@.len(),
                n == old(self).nodes@.len(),
                i <= n,
                self.invites == old(self).invites,
                self.next_node_id == old(self).next_node_id,
                self.next_invite_id == old(self).next_invite_id,
                found == exists|k: int| 0 <= k < i && (#[trigger] old(self).nodes@[k]).id == id,
                forall|k: int|
                    0 <= k < n ==> if k < i && (#[trigger] old(self).nodes@[k]).id == id {
                        self.nodes@[k] == (Node { name: new_name, ..old(self).nodes@[k] })
                    } else {
                        self.nodes@[k] == old(self).nodes@[k]
                    },
            decreases n - i,
        {
            assert(self.nodes@[i as int] == old(self).nodes@[i as int]);
            if self.nodes[i].id == id {
                assert(old(self).nodes@[i as int].id == id);
                let nd = &self.nodes[i];
                let renamed = Node {
                    id: nd.id,
                    name: new_name.clone(),
                    auth_key: nd.auth_key.clone(),
                    created_at: nd.created_at,
                };
                self.nodes.set(i, renamed);
                found = true;
            }
            proof {
                if found {
                    let w = choose|k: int| 0 <= k <= i && (#[trigger] old(self).nodes@[k]).id == id;
                    assert(0 <= w < i + 1);
                }
            }
            i = i + 1;
        }
        found
    }
}

} // verus!
