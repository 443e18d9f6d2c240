//! STUN server lists: the `host:port` / `[v6]:port` line format, list text
//! with comments and blank lines, and selection of the servers to query.

use crate::addr::{IpAddress, SocketAddress};
use crate::config::is_bracketed;
use crate::rng::{random_below, shuffle_servers};
use crate::seq_facts::lemma_seq_push_contains;
use crate::text::{
    find_first_char,
    find_last_char,
    first_index_of,
    last_index_of,
    lemma_last_index_bounds,
    parse_trailing_port,
    trailing_port,
};
use vstd::prelude::*;
use vstd::string::*;

verus! {

/// A STUN server: a port and the addresses its name resolved to.
#[derive(Clone, Debug)]
pub struct StunServer {
    pub port: u16,
    pub ipv4_addrs: Vec<u32>,
    pub ipv6_addrs: Vec<u128>,
}

/// Why a server line was refused.
#[derive(Clone, Copy, Debug, PartialEq, Eq, Structural)]
pub enum ServerLineError {
    InvalidIpv6,
    InvalidHostname,
}

/// Whitespace around list lines: the characters with the Unicode White_Space
/// property.
pub open spec fn is_space(c: char) -> bool {
    let v = c as u32;
    (0x09 <= v <= 0x0d) || v == 0x20 || v == 0x85 || v == 0xa0 || v == 0x1680 || (0x2000 <= v
        <= 0x200a) || v == 0x2028 || v == 0x2029 || v == 0x202f || v == 0x205f || v == 0x3000
}

/// `i` is where the first non-space character of `s` stands (`s.len()` if none).
pub open spec fn is_lead(s: Seq<char>, i: int) -> bool {
    &&& 0 <= i <= s.len()
    &&& forall|k: int| 0 <= k < i ==> is_space(#[trigger] s[k])
    &&& i < s.len() ==> !is_space(s[i])
}

/// `j` is just past the last non-space character of `s` at or after `lo`.
pub open spec fn is_tail(s: Seq<char>, lo: int, j: int) -> bool {
    &&& lo <= j <= s.len()
    &&& forall|k: int| j <= k < s.len() ==> is_space(#[trigger] s[k])
    &&& j > lo ==> !is_space(s[j - 1])
}

/// `s` without leading and trailing whitespace.
pub open spec fn trimmed(s: Seq<char>) -> Seq<char> {
    let i = choose|i: int| is_lead(s, i);
    let j = choose|j: int| is_tail(s, i, j);
    s.subrange(i, j)
}

/// A parsed server line: the host text and the port.
pub open spec fn server_line_of(line: Seq<char>) -> Option<(Seq<char>, u16)> {
    if line.len() > 0 && line[0] == '[' {
        if is_bracketed(line) {
            Some((line.subrange(1, last_index_of(line, ']')), trailing_port(line)->0))
        } else {
            None
        }
    } else {
        let c = last_index_of(line, ':');
        if c >= 0 && trailing_port(line) is Some {
            Some((line.subrange(0, c), trailing_port(line)->0))
        } else {
            None
        }
    }
}

/// Parses `hostname:port` or `[ipv6]:port`.
pub fn parse_stun_server_line(line: &str) -> (r: Result<(String, u16), ServerLineError>)
    ensures
        match server_line_of(line@) {
            Some((h, p)) => r matches Ok((rh, rp)) && rh@ == h && rp == p,
            None => r is Err,
        },
{
    let n = line.unicode_len();
    let port = parse_trailing_port(line);
    proof {
        lemma_last_index_bounds(line@, ':');
        lemma_last_index_bounds(line@, ']');
    }
    if n > 0 && line.get_char(0) == '[' {
        let e = find_last_char(line, ']');
        let c = find_last_char(line, ':');
        match (e, c, port) {
            (Some(e), Some(c), Some(p)) => {
                if e >= 1 && c > e && c - e == 1 {
                    return Ok((String::from_str(line.substring_char(1, e)), p));
                }
                Err(ServerLineError::InvalidIpv6)
            },
            _ => Err(ServerLineError::InvalidIpv6),
        }
    } else {
        match (find_last_char(line, ':'), port) {
            (Some(c), Some(p)) => Ok((String::from_str(line.substring_char(0, c)), p)),
            _ => Err(ServerLineError::InvalidHostname),
        }
    }
}

proof fn lemma_lead_unique(s: Seq<char>, i: int, j: int)
    requires
        is_lead(s, i),
        is_lead(s, j),
    ensures
        i == j,
{
    if i < j {
        assert(is_space(s[i]));
    } else if j < i {
        assert(is_space(s[j]));
    }
}

proof fn lemma_tail_unique(s: Seq<char>, lo: int, i: int, j: int)
    requires
        is_tail(s, lo, i),
        is_tail(s, lo, j),
    ensures
        i == j,
{
    if i < j {
        assert(is_space(s[j - 1]));
    } else if j < i {
        assert(is_space(s[i - 1]));
    }
}

fn is_space_char(c: char) -> (r: bool)
    ensures
        r == is_space(c),
{
    let v = c as u32;
    (0x09 <= v && v <= 0x0d) || v == 0x20 || v == 0x85 || v == 0xa0 || v == 0x1680 || (0x2000
        <= v && v <= 0x200a) || v == 0x2028 || v == 0x2029 || v == 0x202f || v == 0x205f || v
        == 0x3000
}

/// `s` without leading and trailing whitespace.
pub fn trim_spaces<'a>(s: &'a str) -> (r: &'a str)
    ensures
        r@ == trimmed(s@),
{
    let n = s.unicode_len();
    let mut i: usize = 0;
    while i < n && is_space_char(s.get_char(i))
        invariant
            i <= n,
            n == s@.len(),
            forall|k: int| 0 <= k < i ==> is_space(#[trigger] s@[k]),
        decreases n - i,
    {
        i = i + 1;
    }
    let mut j: usize = n;
    while j > i && is_space_char(s.get_char(j - 1))
        invariant
            i <= j <= n,
            n == s@.len(),
            forall|k: int| j <= k < n ==> is_space(#[trigger] s@[k]),
        decreases j,
    {
        j = j - 1;
    }
    proof {
        assert(is_lead(s@, i as int));
        assert(is_tail(s@, i as int, j as int));
        let a = choose|a: int| is_lead(s@, a);
        lemma_lead_unique(s@, a, i as int);
        let b = choose|b: int| is_tail(s@, a, b);
        lemma_tail_unique(s@, i as int, b, j as int);
    }
    s.substring_char(i, j)
}

/// A list line's entry: nothing for blank lines and `#` comments.
pub open spec fn list_line_entry(line: Seq<char>) -> Result<Option<(Seq<char>, u16)>, ()> {
    let t = trimmed(line);
    if t.len() == 0 || t[0] == '#' {
        Ok(None)
    } else {
        match server_line_of(t) {
            Some(e) => Ok(Some(e)),
            None => Err(()),
        }
    }
}

/// Parses one line of a server list.
pub fn parse_list_line(line: &str) -> (r: Result<Option<(String, u16)>, ServerLineError>)
    ensures
        match list_line_entry(line@) {
            Ok(None) => r matches Ok(None),
            Ok(Some((h, p))) => r matches Ok(Some((rh, rp))) && rh@ == h && rp == p,
            Err(_) => r is Err,
        },
{
    let t = trim_spaces(line);
    if t.unicode_len() == 0 || t.get_char(0) == '#' {
        return Ok(None);
    }
    match parse_stun_server_line(t) {
        Ok(e) => Ok(Some(e)),
        Err(e) => Err(e),
    }
}

/// The `\n`-separated lines of `t`.
pub open spec fn split_lines(t: Seq<char>) -> Seq<Seq<char>>
    decreases t.len(),
{
    let i = first_index_of(t, '\n');
    if 0 <= i < t.len() {
        seq![t.subrange(0, i)] + split_lines(t.subrange(i + 1, t.len() as int))
    } else {
        seq![t]
    }
}

/// Entries of a list of lines, or failure at the first bad line.
pub open spec fn list_entries(lines: Seq<Seq<char>>) -> Result<Seq<(Seq<char>, u16)>, ()>
    decreases lines.len(),
{
    if lines.len() == 0 {
        Ok(Seq::empty())
    } else {
        match list_entries(lines.drop_last()) {
            Err(_) => Err(()),
            Ok(es) => match list_line_entry(lines.last()) {
                Err(_) => Err(()),
                Ok(None) => Ok(es),
                Ok(Some(e)) => Ok(es.push(e)),
            },
        }
    }
}

pub open spec fn entries_view(v: Seq<(String, u16)>) -> Seq<(Seq<char>, u16)> {
    Seq::new(v.len(), |i: int| (v[i].0@, v[i].1))
}

proof fn lemma_list_entries_append(a: Seq<Seq<char>>, b: Seq<Seq<char>>)
    requires
        list_entries(a) is Err,
    ensures
        list_entries(a + b) is Err,
    decreases b.len(),
{
    if b.len() == 0 {
        assert(a + b =~= a);
    } else {
        lemma_list_entries_append(a, b.drop_last());
        assert((a + b).drop_last() =~= a + b.drop_last());
    }
}

/// Parses a server list: one entry per line, blank lines and `#` comments
/// skipped; any other malformed line fails the whole list.
pub fn parse_server_list(text: &str) -> (r: Result<Vec<(String, u16)>, ServerLineError>)
    ensures
        match list_entries(split_lines(text@)) {
            Ok(es) => r matches Ok(v) && entries_view(v@) == es,
            Err(_) => r is Err,
        },
{
    let mut out: Vec<(String, u16)> = Vec::new();
    let mut rest: &str = text;
    let ghost mut done: Seq<Seq<char>> = Seq::empty();
    loop
        invariant
            split_lines(text@) == done + split_lines(rest@),
            list_entries(done) matches Ok(es) && entries_view(out@) == es,
        decreases rest@.len(),
    {
        let n = rest.unicode_len();
        match find_first_char(rest, '\n') {
            Some(i) => {
                let line = rest.substring_char(0, i);
                let ghost lines_rest = split_lines(rest@);
                assert(lines_rest == seq![rest@.subrange(0, i as int)] + split_lines(
                    rest@.subrange(i + 1, n as int),
                ));
                let ghost new_done = done.push(line@);
                assert(new_done.drop_last() =~= done);
                match parse_list_line(line) {
                    Ok(Some(e)) => {
                        out.push(e);
                    },
                    Ok(None) => {},
                    Err(err) => {
                        proof {
                            assert(list_entries(new_done) is Err);
                            lemma_list_entries_append(new_done, split_lines(rest@.subrange(i + 1, n as int)));
                            assert(split_lines(text@) =~= new_done + split_lines(
                                rest@.subrange(i + 1, n as int),
                            ));
                        }
                        return Err(err);
                    },
                }
                proof {
                    assert(split_lines(text@) =~= new_done + split_lines(
                        rest@.subrange(i + 1, n as int),
                    ));
                    done = new_done;
                    assert(list_entries(done) matches Ok(es) && entries_view(out@) =~= es);
                }
                rest = rest.substring_char(i + 1, n);
            },
            None => {
                proof {
                    assert(split_lines(rest@) == seq![rest@]);
                }
                let ghost new_done = done.push(rest@);
                assert(new_done.drop_last() =~= done);
                assert(split_lines(text@) =~= new_done);
                match parse_list_line(rest) {
                    Ok(Some(e)) => {
                        out.push(e);
                        assert(list_entries(new_done) matches Ok(es) && entries_view(out@) =~= es);
                    },
                    Ok(None) => {},
                    Err(err) => {
                        return Err(err);
                    },
                }
                return Ok(out);
            },
        }
    }
}

/// Every address of every server of the family asked for, as socket addresses.
pub open spec fn candidates_of(servers: Seq<StunServer>, ipv4: bool) -> Seq<SocketAddress>
    decreases servers.len(),
{
    if servers.len() == 0 {
        Seq::empty()
    } else {
        let s = servers.last();
        candidates_of(servers.drop_last(), ipv4) + if ipv4 {
            Seq::new(s.ipv4_addrs@.len(), |k: int| SocketAddress { ip: IpAddress::V4(s.ipv4_addrs@[k]), port: s.port })
        } else {
            Seq::new(s.ipv6_addrs@.len(), |k: int| SocketAddress { ip: IpAddress::V6(s.ipv6_addrs@[k]), port: s.port })
        }
    }
}

/// The addresses to query, server by server, in list order.
pub fn stun_candidates(servers: &Vec<StunServer>, ipv4: bool) -> (r: Vec<SocketAddress>)
    ensures
        r@ == candidates_of(servers@, ipv4),
{
    let mut r: Vec<SocketAddress> = Vec::new();
    let n = servers.len();
    let mut i: usize = 0;
    assert(servers@.subrange(0, 0) =~= Seq::<StunServer>::empty());
    while i < n
        invariant
            n == servers@.len(),
            i <= n,
            r@ == candidates_of(servers@.subrange(0, i as int), ipv4),
        decreases n - i,
    {
        let s = &servers[i];
        let ghost before = r@;
        assert(servers@.subrange(0, i + 1).drop_last() =~= servers@.subrange(0, i as int));
        if ipv4 {
            let m = s.ipv4_addrs.len();
            let mut k: usize = 0;
            while k < m
                invariant
                    m == s.ipv4_addrs@.len(),
                    k <= m,
                    r@ == before + Seq::new(k as nat, |j: int| SocketAddress { ip: IpAddress::V4(s.ipv4_addrs@[j]), port: s.port }),
                decreases m - k,
            {
                r.push(SocketAddress { ip: IpAddress::V4(s.ipv4_addrs[k]), port: s.port });
                k = k + 1;
                assert(r@ =~= before + Seq::new(k as nat, |j: int| SocketAddress { ip: IpAddress::V4(s.ipv4_addrs@[j]), port: s.port }));
            }
        } else {
            let m = s.ipv6_addrs.len();
            let mut k: usize = 0;
            while k < m
                invariant
                    m == s.ipv6_addrs@.len(),
                    k <= m,
                    r@ == before + Seq::new(k as nat, |j: int| SocketAddress { ip: IpAddress::V6(s.ipv6_addrs@[j]), port: s.port }),
                decreases m - k,
            {
                r.push(SocketAddress { ip: IpAddress::V6(s.ipv6_addrs[k]), port: s.port });
                k = k + 1;
                assert(r@ =~= before + Seq::new(k as nat, |j: int| SocketAddress { ip: IpAddress::V6(s.ipv6_addrs@[j]), port: s.port }));
            }
        }
        i = i + 1;
    }
    assert(servers@.subrange(0, n as int) =~= servers@);
    r
}

/// Why no server can be picked.
#[derive(Clone, Copy, Debug, PartialEq, Eq, Structural)]
pub enum SelectError {
    /// The list is empty; fetch it first.
    NoServers,
    /// The chosen server has no address of the family.
    NoAddress,
}

/// The first address of the family on server `idx`.
pub fn server_address(servers: &Vec<StunServer>, idx: usize, ipv4: bool) -> (r: Result<
    SocketAddress,
    SelectError,
>)
    ensures
        servers@.len() == 0 ==> r == Err::<SocketAddress, SelectError>(SelectError::NoServers),
        servers@.len() > 0 ==> {
            let s = servers@[(idx as int) % (servers@.len() as int)];
            if ipv4 {
                if s.ipv4_addrs@.len() > 0 {
                    r == Ok::<SocketAddress, SelectError>(SocketAddress { ip: IpAddress::V4(s.ipv4_addrs@[0]), port: s.port })
                } else {
                    r == Err::<SocketAddress, SelectError>(SelectError::NoAddress)
                }
            } else {
                if s.ipv6_addrs@.len() > 0 {
                    r == Ok::<SocketAddress, SelectError>(SocketAddress { ip: IpAddress::V6(s.ipv6_addrs@[0]), port: s.port })
                } else {
                    r == Err::<SocketAddress, SelectError>(SelectError::NoAddress)
                }
            }
        },
{
    let n = servers.len();
    if n == 0 {
        return Err(SelectError::NoServers);
    }
    let s = &servers[idx % n];
    if ipv4 {
        if s.ipv4_addrs.len() > 0 {
            Ok(SocketAddress { ip: IpAddress::V4(s.ipv4_addrs[0]), port: s.port })
        } else {
            Err(SelectError::NoAddress)
        }
    } else {
        if s.ipv6_addrs.len() > 0 {
            Ok(SocketAddress { ip: IpAddress::V6(s.ipv6_addrs[0]), port: s.port })
        } else {
            Err(SelectError::NoAddress)
        }
    }
}

/// The server a list entry becomes once its name is resolved: kept only when
/// it has addresses of the family asked for, and holding only those.
pub fn server_for_family(port: u16, v4: Vec<u32>, v6: Vec<u128>, ipv4: bool) -> (r: Option<
    StunServer,
>)
    ensures
        ipv4 ==> match r {
            Some(s) => v4@.len() > 0 && s.port == port && s.ipv4_addrs@ == v4@ && s.ipv6_addrs@.len()
                == 0,
            None => v4@.len() == 0,
        },
        !ipv4 ==> match r {
            Some(s) => v6@.len() > 0 && s.port == port && s.ipv6_addrs@ == v6@ && s.ipv4_addrs@.len()
                == 0,
            None => v6@.len() == 0,
        },
{
    if ipv4 {
        if v4.len() > 0 {
            Some(StunServer { port, ipv4_addrs: v4, ipv6_addrs: Vec::new() })
        } else {
            None
        }
    } else {
        if v6.len() > 0 {
            Some(StunServer { port, ipv4_addrs: Vec::new(), ipv6_addrs: v6 })
        } else {
            None
        }
    }
}

/// The servers in random order, and the addresses of the family to query,
/// server by server.
pub fn shuffled_candidates(servers: Vec<StunServer>, ipv4: bool) -> (r: (Vec<StunServer>, Vec<SocketAddress>))
    ensures
        r.0@.to_multiset() == servers@.to_multiset(),
        r.1@ == candidates_of(r.0@, ipv4),
{
    let mut order = servers;
    shuffle_servers(&mut order);
    let c = stun_candidates(&order, ipv4);
    (order, c)
}

/// Picks one server at random and returns its first address of the family.
pub fn pick_server_address(servers: &Vec<StunServer>, ipv4: bool) -> (r: Result<SocketAddress, SelectError>)
    ensures
        servers@.len() == 0 <==> r == Err::<SocketAddress, SelectError>(SelectError::NoServers),
        servers@.len() > 0 && (forall|i: int|
            0 <= i < servers@.len() ==> if ipv4 {
                (#[trigger] servers@[i]).ipv4_addrs@.len() > 0
            } else {
                servers@[i].ipv6_addrs@.len() > 0
            }) ==> r is Ok,
        r matches Ok(a) ==> exists|i: int|
            0 <= i < servers@.len() && if ipv4 {
                servers@[i].ipv4_addrs@.len() > 0 && a == (SocketAddress { ip: IpAddress::V4(servers@[i].ipv4_addrs@[0]), port: servers@[i].port })
            } else {
                servers@[i].ipv6_addrs@.len() > 0 && a == (SocketAddress { ip: IpAddress::V6(servers@[i].ipv6_addrs@[0]), port: servers@[i].port })
            },
{
    let n = servers.len();
    if n == 0 {
        return Err(SelectError::NoServers);
    }
    let idx = random_below(n);
    let r = server_address(servers, idx, ipv4);
    proof {
        let i = (idx as int) % (n as int);
        assert(0 <= i < n);
    }
    r
}

/// The IPv4 addresses among `addrs`, first occurrences only, in order.
pub open spec fn distinct_v4(addrs: Seq<IpAddress>) -> Seq<u32>
    decreases addrs.len(),
{
    if addrs.len() == 0 {
        Seq::empty()
    } else {
        let r = distinct_v4(addrs.drop_last());
        match addrs.last() {
            IpAddress::V4(x) => if r.contains(x) {
                r
            } else {
                r.push(x)
            },
            IpAddress::V6(_) => r,
        }
    }
}

/// The IPv6 addresses among `addrs`, first occurrences only, in order.
pub open spec fn distinct_v6(addrs: Seq<IpAddress>) -> Seq<u128>
    decreases addrs.len(),
{
    if addrs.len() == 0 {
        Seq::empty()
    } else {
        let r = distinct_v6(addrs.drop_last());
        match addrs.last() {
            IpAddress::V6(x) => if r.contains(x) {
                r
            } else {
                r.push(x)
            },
            IpAddress::V4(_) => r,
        }
    }
}

/// Splits resolved addresses by family, dropping repeats, first occurrence
/// first.
pub fn split_resolved(addrs: &Vec<IpAddress>) -> (r: (Vec<u32>, Vec<u128>))
    ensures
        r.0@ == distinct_v4(addrs@),
        r.1@ == distinct_v6(addrs@),
        forall|x: u32| r.0@.contains(x) <==> addrs@.contains(IpAddress::V4(x)),
        forall|x: u128| r.1@.contains(x) <==> addrs@.contains(IpAddress::V6(x)),
        r.0@.no_duplicates(),
        r.1@.no_duplicates(),
{
    let mut v4: Vec<u32> = Vec::new();
    let mut v6: Vec<u128> = Vec::new();
    let n = addrs.len();
    let mut i: usize = 0;
    while i < n
        invariant
            n == addrs@.len(),
            i <= n,
            forall|x: u32| v4@.contains(x) <==> addrs@.subrange(0, i as int).contains(IpAddress::V4(x)),
            forall|x: u128| v6@.contains(x) <==> addrs@.subrange(0, i as int).contains(IpAddress::V6(x)),
            v4@.no_duplicates(),
            v6@.no_duplicates(),
            v4@ == distinct_v4(addrs@.subrange(0, i as int)),
            v6@ == distinct_v6(addrs@.subrange(0, i as int)),
        decreases n - i,
    {
        let a = addrs[i];
        let ghost pre = addrs@.subrange(0, i as int);
        assert(addrs@.subrange(0, i + 1) =~= pre.push(a));
        assert(addrs@.subrange(0, i + 1).drop_last() =~= pre);
        let ghost old4 = v4@;
        let ghost old6 = v6@;
        match a {
            IpAddress::V4(x) => {
                if !contains_u32(&v4, x) {
                    v4.push(x);
                }
            },
            IpAddress::V6(x) => {
                if !contains_u128(&v6, x) {
                    v6.push(x);
                }
            },
        }
        proof {
            assert forall|x: u32| v4@.contains(x) <==> pre.push(a).contains(IpAddress::V4(x)) by {
                lemma_seq_push_contains(pre, a, IpAddress::V4(x));
                lemma_seq_push_contains(old4, x, x);
                if v4@.len() > old4.len() {
                    lemma_seq_push_contains(old4, v4@.last(), x);
                    assert(v4@ == old4.push(v4@.last()));
                }
            }
            assert forall|x: u128| v6@.contains(x) <==> pre.push(a).contains(IpAddress::V6(x)) by {
                lemma_seq_push_contains(pre, a, IpAddress::V6(x));
                if v6@.len() > old6.len() {
                    lemma_seq_push_contains(old6, v6@.last(), x);
                    assert(v6@ == old6.push(v6@.last()));
                }
            }
            if v4@.len() > old4.len() {
                assert forall|p: int, q: int| 0 <= p < q < v4@.len() implies v4@[p] != v4@[q] by {
                    if q == v4@.len() - 1 {
                        assert(old4.contains(v4@[p]) || v4@[p] != v4@[q]);
                    }
                }
            }
            if v6@.len() > old6.len() {
                assert forall|p: int, q: int| 0 <= p < q < v6@.len() implies v6@[p] != v6@[q] by {
                    if q == v6@.len() - 1 {
                        assert(old6.contains(v6@[p]) || v6@[p] != v6@[q]);
                    }
                }
            }
        }
        i = i + 1;
    }
    assert(addrs@.subrange(0, n as int) =~= addrs@);
    (v4, v6)
}

fn contains_u32(v: &Vec<u32>, x: u32) -> (r: bool)
    ensures
        r == v@.contains(x),
{
    let n = v.len();
    let mut i: usize = 0;
    while i < n
        invariant
            n == v@.len(),
            i <= n,
            forall|k: int| 0 <= k < i ==> v@[k] != x,
        decreases n - i,
    {
        if v[i] == x {
            return true;
        }
        i = i + 1;
    }
    false
}

fn contains_u128(v: &Vec<u128>, x: u128) -> (r: bool)
    ensures
        r == v@.contains(x),
{
    let n = v.len();
    let mut i: usize = 0;
    while i < n
        invariant
            n == v@.len(),
            i <= n,
            forall|k: int| 0 <= k < i ==> v@[k] != x,
        decreases n - i,
    {
        if v[i] == x {
            return true;
        }
        i = i + 1;
    }
    false
}

} // verus!
