//! Convergence of one interface to its tunnel's declared state: the interface
//! carries exactly its derived link-local address and the declared MTU. The
//! decision is computed here from what was read off the interface; the caller
//! carries out the returned actions in order.

use crate::addr::{IpAddress, IpNet};
use vstd::prelude::*;

verus! {

/// One change to an interface.
#[derive(Clone, Copy, Debug, PartialEq, Eq, Structural)]
pub enum LinkAction {
    AddAddr(IpNet),
    DelAddr(IpNet),
    LinkDown,
    LinkUpWithMtu(u32),
}

/// Prefix length of a single-host network of the address's family.
pub open spec fn host_prefix(a: IpAddress) -> u8 {
    match a {
        IpAddress::V4(_) => 32,
        IpAddress::V6(_) => 128,
    }
}

pub open spec fn has_addr(obs: Seq<IpNet>, lla: IpAddress) -> bool {
    exists|i: int| 0 <= i < obs.len() && (#[trigger] obs[i]).addr == lla
}

/// Deletions of every listed address other than `lla`, in list order.
pub open spec fn foreign_deletions(obs: Seq<IpNet>, lla: IpAddress) -> Seq<LinkAction>
    decreases obs.len(),
{
    if obs.len() == 0 {
        Seq::empty()
    } else {
        let r = foreign_deletions(obs.drop_last(), lla);
        if obs.last().addr != lla {
            r.push(LinkAction::DelAddr(obs.last()))
        } else {
            r
        }
    }
}

/// Address actions: add `lla` when no listed address equals it, then delete
/// every other address.
pub open spec fn address_plan(obs: Seq<IpNet>, lla: IpAddress) -> Seq<LinkAction> {
    (if has_addr(obs, lla) {
        Seq::empty()
    } else {
        seq![LinkAction::AddAddr(IpNet { addr: lla, prefix_len: host_prefix(lla) })]
    }) + foreign_deletions(obs, lla)
}

/// MTU actions: cycle the link when the MTU read differs, bring it up with the
/// MTU when it could not be read, nothing otherwise.
pub open spec fn mtu_plan(current_mtu: Option<u32>, mtu: i32) -> Seq<LinkAction> {
    match current_mtu {
        Some(m) => if m as i32 != mtu {
            seq![LinkAction::LinkDown, LinkAction::LinkUpWithMtu(mtu as u32)]
        } else {
            Seq::empty()
        },
        None => seq![LinkAction::LinkUpWithMtu(mtu as u32)],
    }
}

pub open spec fn ensure_up_plan(
    lla: IpAddress,
    obs: Seq<IpNet>,
    current_mtu: Option<u32>,
    mtu: i32,
) -> Seq<LinkAction> {
    address_plan(obs, lla) + mtu_plan(current_mtu, mtu)
}

/// Decides how to converge an interface whose addresses read `current` and
/// whose MTU read `current_mtu` (`None` when unreadable) to carry exactly
/// `lla` and MTU `mtu`.
pub fn plan_ensure_up(lla: IpAddress, current: &Vec<IpNet>, current_mtu: Option<u32>, mtu: i32) -> (r:
    Vec<LinkAction>)
    ensures
        r@ == ensure_up_plan(lla, current@, current_mtu, mtu),
{
    let n = current.len();
    let mut found = false;
    let mut dels: Vec<LinkAction> = Vec::new();
    let mut i: usize = 0;
    proof {
        assert(current@.subrange(0, 0) =~= Seq::<IpNet>::empty());
    }
    while i < n
        invariant
            n == current@.len(),
            i <= n,
            found == has_addr(current@.subrange(0, i as int), lla),
            dels@ == foreign_deletions(current@.subrange(0, i as int), lla),
        decreases n - i,
    {
        let a = current[i];
        let ghost pre = current@.subrange(0, i as int);
        let ghost next = current@.subrange(0, i + 1);
        proof {
            assert(next.drop_last() =~= pre);
            assert(next.last() == a);
            if has_addr(pre, lla) {
                let w = choose|j: int| 0 <= j < pre.len() && (#[trigger] pre[j]).addr == lla;
                assert(next[w] == pre[w]);
            }
            if has_addr(next, lla) && a.addr != lla {
                let w = choose|j: int| 0 <= j < next.len() && (#[trigger] next[j]).addr == lla;
                assert(pre[w] == next[w]);
            }
            if a.addr == lla {
                assert(next[i as int] == a);
            }
        }
        if a.addr == lla {
            found = true;
        } else {
            dels.push(LinkAction::DelAddr(a));
        }
        i = i + 1;
    }
    proof {
        assert(current@.subrange(0, n as int) =~= current@);
    }
    let mut r: Vec<LinkAction> = Vec::new();
    if !found {
        let prefix_len: u8 = if lla.is_ipv4() {
            32
        } else {
            128
        };
        r.push(LinkAction::AddAddr(IpNet { addr: lla, prefix_len }));
    }
    let ghost adds = r@;
    let m = dels.len();
    let mut j: usize = 0;
    while j < m
        invariant
            m == dels@.len(),
            j <= m,
            r@ == adds + dels@.subrange(0, j as int),
        decreases m - j,
    {
        r.push(dels[j]);
        j = j + 1;
        assert(r@ =~= adds + dels@.subrange(0, j as int));
    }
    assert(dels@.subrange(0, m as int) =~= dels@);
    let ghost addr_part = r@;
    assert(addr_part =~= address_plan(current@, lla));
    match current_mtu {
        Some(cur) => {
            if cur as i32 != mtu {
                r.push(LinkAction::LinkDown);
                r.push(LinkAction::LinkUpWithMtu(mtu as u32));
            }
        },
        None => {
            r.push(LinkAction::LinkUpWithMtu(mtu as u32));
        },
    }
    assert(r@ =~= ensure_up_plan(lla, current@, current_mtu, mtu));
    r
}

/// Abstract state of an interface: its addresses, MTU and up flag.
pub struct LinkModel {
    pub addrs: Set<IpNet>,
    pub mtu: u32,
    pub up: bool,
}

pub open spec fn apply_action(s: LinkModel, a: LinkAction) -> LinkModel {
    match a {
        LinkAction::AddAddr(n) => LinkModel { addrs: s.addrs.insert(n), ..s },
        LinkAction::DelAddr(n) => LinkModel { addrs: s.addrs.remove(n), ..s },
        LinkAction::LinkDown => LinkModel { up: false, ..s },
        LinkAction::LinkUpWithMtu(m) => LinkModel { up: true, mtu: m, ..s },
    }
}

pub open spec fn apply_actions(s: LinkModel, acts: Seq<LinkAction>) -> LinkModel
    decreases acts.len(),
{
    if acts.len() == 0 {
        s
    } else {
        apply_action(apply_actions(s, acts.drop_last()), acts.last())
    }
}

/// `obs` lists exactly the members of `set`.
pub open spec fn lists(obs: Seq<IpNet>, set: Set<IpNet>) -> bool {
    forall|x: IpNet| obs.contains(x) <==> set.contains(x)
}

/// What reading the MTU returns: the MTU, or nothing when it is unreadable.
pub open spec fn mtu_reading(s: LinkModel, readable: bool) -> Option<u32> {
    if readable {
        Some(s.mtu)
    } else {
        None
    }
}

/// The interface after one convergence pass that read `obs` as its addresses.
pub open spec fn ensure_up_effect(
    s: LinkModel,
    lla: IpAddress,
    obs: Seq<IpNet>,
    readable: bool,
    mtu: i32,
) -> LinkModel {
    apply_actions(s, ensure_up_plan(lla, obs, mtu_reading(s, readable), mtu))
}

pub open spec fn foreign_set(obs: Seq<IpNet>, lla: IpAddress) -> Set<IpNet> {
    Set::new(|x: IpNet| obs.contains(x) && x.addr != lla)
}

proof fn lemma_apply_concat(s: LinkModel, a: Seq<LinkAction>, b: Seq<LinkAction>)
    ensures
        apply_actions(s, a + b) == apply_actions(apply_actions(s, a), b),
    decreases b.len(),
{
    if b.len() == 0 {
        assert(a + b =~= a);
    } else {
        lemma_apply_concat(s, a, b.drop_last());
        assert((a + b).drop_last() =~= a + b.drop_last());
        assert((a + b).last() == b.last());
    }
}

proof fn lemma_foreign_deletions_effect(s: LinkModel, obs: Seq<IpNet>, lla: IpAddress)
    ensures
        apply_actions(s, foreign_deletions(obs, lla)) == (LinkModel {
            addrs: s.addrs.difference(foreign_set(obs, lla)),
            ..s
        }),
    decreases obs.len(),
{
    if obs.len() == 0 {
        assert(s.addrs.difference(foreign_set(obs, lla)) =~= s.addrs);
    } else {
        let pre = obs.drop_last();
        let y = obs.last();
        lemma_foreign_deletions_effect(s, pre, lla);
        assert forall|x: IpNet| obs.contains(x) <==> (pre.contains(x) || x == y) by {
            if obs.contains(x) {
                let w = choose|i: int| 0 <= i < obs.len() && obs[i] == x;
                if w < obs.len() - 1 {
                    assert(pre[w] == x);
                }
            }
            if pre.contains(x) {
                let w = choose|i: int| 0 <= i < pre.len() && pre[i] == x;
                assert(obs[w] == x);
            }
            if x == y {
                assert(obs[obs.len() - 1] == x);
            }
        }
        if y.addr != lla {
            assert(foreign_deletions(obs, lla).drop_last() =~= foreign_deletions(pre, lla));
            assert(s.addrs.difference(foreign_set(pre, lla)).remove(y) =~= s.addrs.difference(
                foreign_set(obs, lla),
            ));
        } else {
            assert(s.addrs.difference(foreign_set(pre, lla)) =~= s.addrs.difference(
                foreign_set(obs, lla),
            ));
        }
    }
}

proof fn lemma_no_foreign(obs: Seq<IpNet>, lla: IpAddress)
    requires
        forall|i: int| 0 <= i < obs.len() ==> (#[trigger] obs[i]).addr == lla,
    ensures
        foreign_deletions(obs, lla) == Seq::<LinkAction>::empty(),
    decreases obs.len(),
{
    if obs.len() > 0 {
        let pre = obs.drop_last();
        assert forall|i: int| 0 <= i < pre.len() implies (#[trigger] pre[i]).addr == lla by {
            assert(pre[i] == obs[i]);
        }
        lemma_no_foreign(pre, lla);
        assert(obs[obs.len() - 1] == obs.last());
    }
}

proof fn lemma_mtu_plan_effect(x: LinkModel, r: Option<u32>, mtu: i32)
    ensures
        apply_actions(x, mtu_plan(r, mtu)) == (match r {
            Some(m) => if m as i32 != mtu {
                LinkModel { up: true, mtu: mtu as u32, ..x }
            } else {
                x
            },
            None => LinkModel { up: true, mtu: mtu as u32, ..x },
        }),
{
    let mp = mtu_plan(r, mtu);
    match r {
        Some(m) => {
            if m as i32 != mtu {
                let d1 = mp.drop_last();
                assert(d1 =~= seq![LinkAction::LinkDown]);
                assert(d1.drop_last() =~= Seq::<LinkAction>::empty());
                assert(apply_actions(x, d1.drop_last()) == x);
                assert(apply_actions(x, d1) == (LinkModel { up: false, ..x }));
            } else {
                assert(mp =~= Seq::<LinkAction>::empty());
            }
        },
        None => {
            assert(mp.drop_last() =~= Seq::<LinkAction>::empty());
            assert(apply_actions(x, mp.drop_last()) == x);
        },
    }
}

proof fn lemma_add_effect(x: LinkModel, n: IpNet)
    ensures
        apply_actions(x, seq![LinkAction::AddAddr(n)]) == (LinkModel { addrs: x.addrs.insert(n), ..x }),
{
    let a = seq![LinkAction::AddAddr(n)];
    assert(a.drop_last() =~= Seq::<LinkAction>::empty());
    assert(apply_actions(x, a.drop_last()) == x);
}

/// One pass leaves the interface carrying only addresses equal to `lla`, at
/// least one of them, with MTU `mtu`.
pub proof fn lemma_ensure_up_converges(
    s: LinkModel,
    lla: IpAddress,
    obs: Seq<IpNet>,
    readable: bool,
    mtu: i32,
)
    requires
        lists(obs, s.addrs),
    ensures
        forall|x: IpNet| #[trigger]
            ensure_up_effect(s, lla, obs, readable, mtu).addrs.contains(x) ==> x.addr == lla,
        exists|x: IpNet| #[trigger]
            ensure_up_effect(s, lla, obs, readable, mtu).addrs.contains(x) && x.addr == lla,
        ensure_up_effect(s, lla, obs, readable, mtu).mtu == mtu as u32,
{
    let lla_net = IpNet { addr: lla, prefix_len: host_prefix(lla) };
    let adds = if has_addr(obs, lla) {
        Seq::<LinkAction>::empty()
    } else {
        seq![LinkAction::AddAddr(lla_net)]
    };
    let dels = foreign_deletions(obs, lla);
    let mp = mtu_plan(mtu_reading(s, readable), mtu);
    assert(ensure_up_plan(lla, obs, mtu_reading(s, readable), mtu) == adds + dels + mp);
    lemma_apply_concat(s, adds + dels, mp);
    lemma_apply_concat(s, adds, dels);
    let a = apply_actions(s, adds);
    if !has_addr(obs, lla) {
        lemma_add_effect(s, lla_net);
    } else {
        assert(a == s);
    }
    lemma_foreign_deletions_effect(a, obs, lla);
    let after = apply_actions(a, dels);
    assert(after.addrs == a.addrs.difference(foreign_set(obs, lla)));
    let e = ensure_up_effect(s, lla, obs, readable, mtu);
    lemma_mtu_plan_effect(after, mtu_reading(s, readable), mtu);
    assert(e.addrs == after.addrs);
    lemma_plan_keeps_link(s, obs, lla);
    assert(after.mtu == s.mtu);
    let m = s.mtu;
    assert((m as i32 == mtu) ==> m == mtu as u32) by (bit_vector);
    assert forall|x: IpNet| #[trigger] e.addrs.contains(x) implies x.addr == lla by {
        if x.addr != lla {
            if s.addrs.contains(x) {
                assert(obs.contains(x));
                assert(foreign_set(obs, lla).contains(x));
            }
        }
    }
    if has_addr(obs, lla) {
        let w = choose|i: int| 0 <= i < obs.len() && (#[trigger] obs[i]).addr == lla;
        let x = obs[w];
        assert(obs.contains(x));
        assert(s.addrs.contains(x));
        assert(!foreign_set(obs, lla).contains(x));
        assert(e.addrs.contains(x));
    } else {
        assert(!foreign_set(obs, lla).contains(lla_net));
        assert(e.addrs.contains(lla_net));
    }
}

/// Convergence is idempotent: a second pass over what the first left behind,
/// with the MTU equally readable, changes nothing.
pub proof fn lemma_ensure_up_idempotent(
    s: LinkModel,
    lla: IpAddress,
    obs1: Seq<IpNet>,
    obs2: Seq<IpNet>,
    readable: bool,
    mtu: i32,
)
    requires
        lists(obs1, s.addrs),
        lists(obs2, ensure_up_effect(s, lla, obs1, readable, mtu).addrs),
    ensures
        ensure_up_effect(ensure_up_effect(s, lla, obs1, readable, mtu), lla, obs2, readable, mtu)
            == ensure_up_effect(s, lla, obs1, readable, mtu),
{
    let s1 = ensure_up_effect(s, lla, obs1, readable, mtu);
    lemma_ensure_up_converges(s, lla, obs1, readable, mtu);
    let x = choose|x: IpNet| #[trigger] s1.addrs.contains(x) && x.addr == lla;
    assert(obs2.contains(x));
    let w = choose|i: int| 0 <= i < obs2.len() && obs2[i] == x;
    assert(obs2[w].addr == lla);
    assert(has_addr(obs2, lla));
    assert forall|i: int| 0 <= i < obs2.len() implies (#[trigger] obs2[i]).addr == lla by {
        assert(obs2.contains(obs2[i]));
        assert(s1.addrs.contains(obs2[i]));
    }
    lemma_no_foreign(obs2, lla);
    let mp1 = mtu_plan(mtu_reading(s, readable), mtu);
    let mp2 = mtu_plan(mtu_reading(s1, readable), mtu);
    assert(address_plan(obs2, lla) =~= Seq::<LinkAction>::empty());
    assert(ensure_up_plan(lla, obs2, mtu_reading(s1, readable), mtu) =~= mp2);
    // What the first pass did to the MTU and the up flag.
    let pre1 = address_plan(obs1, lla);
    lemma_apply_concat(s, pre1, mp1);
    let a1 = apply_actions(s, pre1);
    assert(a1.mtu == s.mtu) by {
        lemma_plan_keeps_link(s, obs1, lla);
    }
    lemma_mtu_plan_effect(a1, mtu_reading(s, readable), mtu);
    lemma_mtu_plan_effect(s1, mtu_reading(s1, readable), mtu);
    let m = mtu;
    assert((m as u32) as i32 == m) by (bit_vector);
    assert(apply_actions(s1, mp2) == s1);
    assert(apply_actions(s1, Seq::<LinkAction>::empty() + mp2) == apply_actions(s1, mp2)) by {
        assert(Seq::<LinkAction>::empty() + mp2 =~= mp2);
    }
}

/// Address actions leave the MTU and the up flag alone.
proof fn lemma_plan_keeps_link(s: LinkModel, obs: Seq<IpNet>, lla: IpAddress)
    ensures
        apply_actions(s, address_plan(obs, lla)).mtu == s.mtu,
        apply_actions(s, address_plan(obs, lla)).up == s.up,
{
    let lla_net = IpNet { addr: lla, prefix_len: host_prefix(lla) };
    let adds = if has_addr(obs, lla) {
        Seq::<LinkAction>::empty()
    } else {
        seq![LinkAction::AddAddr(lla_net)]
    };
    lemma_apply_concat(s, adds, foreign_deletions(obs, lla));
    if !has_addr(obs, lla) {
        lemma_add_effect(s, lla_net);
    } else {
        assert(apply_actions(s, adds) == s);
    }
    lemma_foreign_deletions_effect(apply_actions(s, adds), obs, lla);
}

} // verus!
