//! STUN Binding messages (RFC 5389) with the CHANGE-REQUEST attribute of
//! RFC 5780: construction of requests and responses, and extraction of the
//! mapped address from a response.

use crate::addr::{IpAddress, SocketAddress};
use crate::bytes::{append_bytes, be_bytes, be_value, push_be, read_be};
use vstd::prelude::*;

verus! {

pub const MAGIC_COOKIE: u32 = 0x2112a442;

pub const ATTR_MAPPED_ADDRESS: u16 = 0x0001;

pub const ATTR_CHANGE_REQUEST: u16 = 0x0003;

pub const ATTR_XOR_MAPPED_ADDRESS: u16 = 0x0020;

/// Why a STUN response yields no address.
#[derive(Clone, Copy, Debug, PartialEq, Eq, Structural)]
pub enum StunError {
    /// Fewer than the 20 header bytes.
    TooShort,
    /// Not a Binding success response (type `0x0101`).
    NotBindingResponse,
    /// The declared attribute length runs past the end of the message.
    Incomplete,
    /// A mapped-address attribute with an unknown family or too few bytes.
    BadAttribute,
    /// The mapped address is not of the family that was asked for.
    FamilyMismatch,
    /// Neither XOR-MAPPED-ADDRESS nor MAPPED-ADDRESS is present.
    NoMappedAddress,
}

pub open spec fn cookie_bytes() -> Seq<u8> {
    seq![0x21u8, 0x12u8, 0xa4u8, 0x42u8]
}

pub open spec fn zero_bytes(n: nat) -> Seq<u8> {
    Seq::new(n, |i: int| 0u8)
}

/// A Binding Request with an all-zero transaction id and no attributes.
pub open spec fn binding_request_bytes() -> Seq<u8> {
    seq![0x00u8, 0x01u8, 0x00u8, 0x00u8] + cookie_bytes() + zero_bytes(12)
}

/// The CHANGE-REQUEST flag word's last byte: bit 2 asks for another IP, bit 1
/// for another port.
pub open spec fn change_flags(change_ip: bool, change_port: bool) -> u8 {
    ((if change_ip { 4int } else { 0int }) + (if change_port { 2int } else { 0int })) as u8
}

/// A Binding Request carrying one CHANGE-REQUEST attribute.
pub open spec fn change_request_bytes(change_ip: bool, change_port: bool) -> Seq<u8> {
    seq![0x00u8, 0x01u8, 0x00u8, 0x08u8] + cookie_bytes() + zero_bytes(12) + seq![
        0x00u8,
        0x03u8,
        0x00u8,
        0x04u8,
        0x00u8,
        0x00u8,
        0x00u8,
        change_flags(change_ip, change_port),
    ]
}

/// The 16-bit big-endian field at `i`.
pub open spec fn be16_at(msg: Seq<u8>, i: int) -> nat {
    be_value(msg.subrange(i, i + 2))
}

/// Attribute length rounded up to a multiple of four.
pub open spec fn padded(n: int) -> int {
    (n + 3) / 4 * 4
}

/// Offset of the first attribute of type `ty` at or after `off` whose header
/// starts before `end` and whose value lies inside the message.
pub open spec fn find_attr(msg: Seq<u8>, off: int, end: int, ty: nat) -> Option<int>
    decreases end - off,
{
    if off + 4 <= end {
        let alen = be16_at(msg, off + 2) as int;
        if be16_at(msg, off) == ty && off + 4 + alen <= msg.len() {
            Some(off)
        } else if padded(alen) >= 0 && off + 4 + padded(alen) <= end {
            find_attr(msg, off + 4 + padded(alen), end, ty)
        } else {
            None
        }
    } else {
        None
    }
}

/// Value bytes of the attribute whose header is at `off`.
pub open spec fn attr_value(msg: Seq<u8>, off: int) -> Seq<u8> {
    msg.subrange(off + 4, off + 4 + be16_at(msg, off + 2))
}

/// Decodes an XOR-MAPPED-ADDRESS value: the port is XORed with the cookie's high
/// half, an IPv4 address with the cookie, and an IPv6 address with the cookie
/// followed by the transaction id (bytes 4 to 20 of the message).
pub open spec fn decode_xor_mapped(msg: Seq<u8>, d: Seq<u8>) -> Result<SocketAddress, StunError> {
    if d.len() >= 8 && d[1] == 1 {
        Ok(
            SocketAddress {
                ip: IpAddress::V4((be_value(d.subrange(4, 8)) as u32) ^ MAGIC_COOKIE),
                port: (be16_at(d, 2) as u16) ^ 0x2112u16,
            },
        )
    } else if d.len() >= 20 && d[1] == 2 {
        Ok(
            SocketAddress {
                ip: IpAddress::V6(
                    (be_value(d.subrange(4, 20)) as u128) ^ (be_value(msg.subrange(4, 20)) as u128),
                ),
                port: (be16_at(d, 2) as u16) ^ 0x2112u16,
            },
        )
    } else {
        Err(StunError::BadAttribute)
    }
}

/// Decodes a plain MAPPED-ADDRESS value.
pub open spec fn decode_mapped(d: Seq<u8>) -> Result<SocketAddress, StunError> {
    if d.len() >= 8 && d[1] == 1 {
        Ok(
            SocketAddress {
                ip: IpAddress::V4(be_value(d.subrange(4, 8)) as u32),
                port: be16_at(d, 2) as u16,
            },
        )
    } else if d.len() >= 20 && d[1] == 2 {
        Ok(
            SocketAddress {
                ip: IpAddress::V6(be_value(d.subrange(4, 20)) as u128),
                port: be16_at(d, 2) as u16,
            },
        )
    } else {
        Err(StunError::BadAttribute)
    }
}

/// End of the attribute section that the header declares.
pub open spec fn declared_end(msg: Seq<u8>) -> int {
    20 + be16_at(msg, 2) as int
}

/// The mapped address a STUN message reports: XOR-MAPPED-ADDRESS when present,
/// otherwise MAPPED-ADDRESS.
pub open spec fn mapped_address_of(msg: Seq<u8>) -> Result<SocketAddress, StunError> {
    if msg.len() < 20 {
        Err(StunError::TooShort)
    } else if msg.len() < declared_end(msg) {
        Err(StunError::Incomplete)
    } else {
        match find_attr(msg, 20, declared_end(msg), ATTR_XOR_MAPPED_ADDRESS as nat) {
            Some(off) => decode_xor_mapped(msg, attr_value(msg, off)),
            None => match find_attr(msg, 20, declared_end(msg), ATTR_MAPPED_ADDRESS as nat) {
                Some(off) => decode_mapped(attr_value(msg, off)),
                None => Err(StunError::NoMappedAddress),
            },
        }
    }
}

/// The public IP of a Binding success response, of the asked-for family.
pub open spec fn response_ip_of(msg: Seq<u8>, is_ipv4: bool) -> Result<IpAddress, StunError> {
    if msg.len() < 20 {
        Err(StunError::TooShort)
    } else if msg[0] != 1 || msg[1] != 1 {
        Err(StunError::NotBindingResponse)
    } else {
        match mapped_address_of(msg) {
            Ok(a) => if (a.ip is V4) == is_ipv4 {
                Ok(a.ip)
            } else {
                Err(StunError::FamilyMismatch)
            },
            Err(e) => Err(e),
        }
    }
}

/// Builds a Binding Request with a zero transaction id.
pub fn create_stun_binding_request() -> (r: Vec<u8>)
    ensures
        r@ == binding_request_bytes(),
{
    let mut r: Vec<u8> = vec![0x00, 0x01, 0x00, 0x00, 0x21, 0x12, 0xa4, 0x42];
    let mut i: usize = 0;
    while i < 12
        invariant
            i <= 12,
            r@ == seq![0x00u8, 0x01u8, 0x00u8, 0x00u8] + cookie_bytes() + zero_bytes(i as nat),
        decreases 12 - i,
    {
        r.push(0);
        i = i + 1;
        assert(r@ =~= seq![0x00u8, 0x01u8, 0x00u8, 0x00u8] + cookie_bytes() + zero_bytes(i as nat));
    }
    r
}

/// Builds a Binding Request with a CHANGE-REQUEST attribute (RFC 5780 bit
/// order: `change_ip` is bit 2, `change_port` bit 1).
pub fn create_stun_change_request(change_ip: bool, change_port: bool) -> (r: Vec<u8>)
    ensures
        r@ == change_request_bytes(change_ip, change_port),
{
    let mut r = create_stun_binding_request();
    r.set(3, 0x08);
    let flags: u8 = (if change_ip { 4u8 } else { 0u8 }) + (if change_port { 2u8 } else { 0u8 });
    r.push(0x00);
    r.push(0x03);
    r.push(0x00);
    r.push(0x04);
    r.push(0x00);
    r.push(0x00);
    r.push(0x00);
    r.push(flags);
    assert(r@ =~= change_request_bytes(change_ip, change_port));
    r
}

/// Finds the first attribute of type `ty` in the attribute section that ends
/// at `end`.
fn find_attribute(msg: &[u8], end: usize, ty: u16) -> (r: Option<usize>)
    requires
        20 <= end <= msg@.len(),
    ensures
        match r {
            Some(off) => find_attr(msg@, 20, end as int, ty as nat) == Some(off as int),
            None => find_attr(msg@, 20, end as int, ty as nat) is None,
        },
        r matches Some(off) ==> {
            &&& off + 4 <= end
            &&& off + 4 + be16_at(msg@, off + 2) <= msg@.len()
        },
{
    let len = msg.len();
    let mut off: usize = 20;
    while end - off >= 4
        invariant
            20 <= end <= msg@.len(),
            msg@.len() == len,
            off <= end,
            find_attr(msg@, 20, end as int, ty as nat) == find_attr(msg@, off as int, end as int, ty as nat),
        decreases end - off,
    {
        let t = read_be(msg, off, 2);
        let alen = read_be(msg, off + 2, 2) as usize;
        proof {
            crate::bytes::lemma_be_value_bound(msg@.subrange(off + 2, off + 4));
            crate::bytes::lemma_pow256_16();
        }
        if t == ty as u128 && alen <= len - off - 4 {
            return Some(off);
        }
        let pad: usize = (alen + 3) / 4 * 4;
        if pad > end - off - 4 {
            return None;
        }
        off = off + 4 + pad;
    }
    None
}

/// Decodes the XOR-MAPPED-ADDRESS value of `len` bytes at `start`.
fn parse_xor_mapped_address(msg: &[u8], start: usize, len: usize) -> (r: Result<
    SocketAddress,
    StunError,
>)
    requires
        start + len <= msg@.len(),
        20 <= msg@.len(),
    ensures
        r == decode_xor_mapped(msg@, msg@.subrange(start as int, start + len)),
{
    let ghost d = msg@.subrange(start as int, start + len);
    let total = msg.len();
    assert(start + len <= total);
    if len >= 8 && msg[start + 1] == 1 {
        let port = (read_be(msg, start + 2, 2) as u16) ^ 0x2112u16;
        let ip = (read_be(msg, start + 4, 4) as u32) ^ MAGIC_COOKIE;
        assert(d.subrange(2, 4) =~= msg@.subrange(start + 2, start + 4));
        assert(d.subrange(4, 8) =~= msg@.subrange(start + 4, start + 8));
        Ok(SocketAddress { ip: IpAddress::V4(ip), port })
    } else if len >= 20 && msg[start + 1] == 2 {
        let port = (read_be(msg, start + 2, 2) as u16) ^ 0x2112u16;
        let ip = (read_be(msg, start + 4, 16) as u128) ^ read_be(msg, 4, 16);
        assert(d.subrange(2, 4) =~= msg@.subrange(start + 2, start + 4));
        assert(d.subrange(4, 20) =~= msg@.subrange(start + 4, start + 20));
        Ok(SocketAddress { ip: IpAddress::V6(ip), port })
    } else {
        Err(StunError::BadAttribute)
    }
}

/// Decodes the MAPPED-ADDRESS value of `len` bytes at `start`.
fn parse_mapped_address(msg: &[u8], start: usize, len: usize) -> (r: Result<
    SocketAddress,
    StunError,
>)
    requires
        start + len <= msg@.len(),
    ensures
        r == decode_mapped(msg@.subrange(start as int, start + len)),
{
    let ghost d = msg@.subrange(start as int, start + len);
    let total = msg.len();
    assert(start + len <= total);
    if len >= 8 && msg[start + 1] == 1 {
        let port = read_be(msg, start + 2, 2) as u16;
        let ip = read_be(msg, start + 4, 4) as u32;
        assert(d.subrange(2, 4) =~= msg@.subrange(start + 2, start + 4));
        assert(d.subrange(4, 8) =~= msg@.subrange(start + 4, start + 8));
        Ok(SocketAddress { ip: IpAddress::V4(ip), port })
    } else if len >= 20 && msg[start + 1] == 2 {
        let port = read_be(msg, start + 2, 2) as u16;
        let ip = read_be(msg, start + 4, 16);
        assert(d.subrange(2, 4) =~= msg@.subrange(start + 2, start + 4));
        assert(d.subrange(4, 20) =~= msg@.subrange(start + 4, start + 20));
        Ok(SocketAddress { ip: IpAddress::V6(ip), port })
    } else {
        Err(StunError::BadAttribute)
    }
}

/// Extracts the mapped address from a STUN response, preferring
/// XOR-MAPPED-ADDRESS over MAPPED-ADDRESS.
pub fn parse_mapped_socket_addr(response: &[u8]) -> (r: Result<SocketAddress, StunError>)
    ensures
        r == mapped_address_of(response@),
{
    let len = response.len();
    if len < 20 {
        return Err(StunError::TooShort);
    }
    let declared = read_be(response, 2, 2);
    proof {
        crate::bytes::lemma_be_value_bound(response@.subrange(2, 4));
        crate::bytes::lemma_pow256_16();
    }
    if (len as u128) < 20 + declared {
        return Err(StunError::Incomplete);
    }
    let end = 20 + declared as usize;
    match find_attribute(response, end, ATTR_XOR_MAPPED_ADDRESS) {
        Some(off) => {
            let alen = read_be(response, off + 2, 2) as usize;
            parse_xor_mapped_address(response, off + 4, alen)
        },
        None => match find_attribute(response, end, ATTR_MAPPED_ADDRESS) {
            Some(off) => {
                let alen = read_be(response, off + 2, 2) as usize;
                parse_mapped_address(response, off + 4, alen)
            },
            None => Err(StunError::NoMappedAddress),
        },
    }
}

/// Extracts the public IP of the asked-for family from a Binding success
/// response.
pub fn parse_stun_response(response: &[u8], is_ipv4: bool) -> (r: Result<IpAddress, StunError>)
    ensures
        r == response_ip_of(response@, is_ipv4),
{
    if response.len() < 20 {
        return Err(StunError::TooShort);
    }
    if response[0] != 1 || response[1] != 1 {
        return Err(StunError::NotBindingResponse);
    }
    match parse_mapped_socket_addr(response) {
        Ok(a) => if a.ip.is_ipv4() == is_ipv4 {
            Ok(a.ip)
        } else {
            Err(StunError::FamilyMismatch)
        },
        Err(e) => Err(e),
    }
}

/// The XOR-MAPPED-ADDRESS value for `a`, given the cookie and transaction id.
pub open spec fn xor_mapped_value(key: Seq<u8>, a: SocketAddress) -> Seq<u8> {
    let port = be_bytes((a.port ^ 0x2112u16) as nat, 2);
    match a.ip {
        IpAddress::V4(x) => seq![0x00u8, 0x01u8] + port + be_bytes((x ^ MAGIC_COOKIE) as nat, 4),
        IpAddress::V6(x) => seq![0x00u8, 0x02u8] + port + be_bytes(
            (x ^ (be_value(key) as u128)) as nat,
            16,
        ),
    }
}

/// A Binding success response whose only attribute is XOR-MAPPED-ADDRESS.
pub open spec fn binding_response_bytes(a: SocketAddress, txid: Seq<u8>) -> Seq<u8> {
    let key = cookie_bytes() + txid;
    let v = xor_mapped_value(key, a);
    seq![0x01u8, 0x01u8] + be_bytes((4 + v.len()) as nat, 2) + key + seq![0x00u8, 0x20u8]
        + be_bytes(v.len(), 2) + v
}

/// Builds a Binding success response that reports `mapped` in an
/// XOR-MAPPED-ADDRESS attribute.
pub fn build_binding_response(mapped: SocketAddress, txid: &[u8]) -> (r: Vec<u8>)
    requires
        txid@.len() == 12,
    ensures
        r@ == binding_response_bytes(mapped, txid@),
{
    let mut key: Vec<u8> = vec![0x21, 0x12, 0xa4, 0x42];
    append_bytes(&mut key, txid);
    assert(key@ =~= cookie_bytes() + txid@);
    let mut value: Vec<u8> = vec![0x00];
    let port = mapped.port ^ 0x2112u16;
    match mapped.ip {
        IpAddress::V4(x) => {
            value.push(0x01);
            push_be(&mut value, port as u128, 2);
            push_be(&mut value, (x ^ MAGIC_COOKIE) as u128, 4);
        },
        IpAddress::V6(x) => {
            value.push(0x02);
            push_be(&mut value, port as u128, 2);
            let k = read_be(key.as_slice(), 0, 16);
            assert(key@.subrange(0, 16) =~= key@);
            push_be(&mut value, x ^ k, 16);
        },
    }
    assert(value@ =~= xor_mapped_value(key@, mapped));
    proof {
        crate::bytes::lemma_be_bytes_len(port as nat, 2);
        match mapped.ip {
            IpAddress::V4(x) => crate::bytes::lemma_be_bytes_len((x ^ MAGIC_COOKIE) as nat, 4),
            IpAddress::V6(x) => crate::bytes::lemma_be_bytes_len(
                (x ^ (be_value(key@) as u128)) as nat,
                16,
            ),
        }
    }
    let mut r: Vec<u8> = vec![0x01, 0x01];
    let vlen = value.len();
    assert(vlen == 8 || vlen == 20);
    push_be(&mut r, (4 + vlen) as u128, 2);
    append_bytes(&mut r, key.as_slice());
    r.push(0x00);
    r.push(0x20);
    push_be(&mut r, vlen as u128, 2);
    append_bytes(&mut r, value.as_slice());
    assert(r@ =~= binding_response_bytes(mapped, txid@));
    r
}

/// Reading back a response built for `a` yields `a`, for either family.
pub proof fn lemma_xor_mapped_round_trip(a: SocketAddress, txid: Seq<u8>)
    requires
        txid.len() == 12,
    ensures
        mapped_address_of(binding_response_bytes(a, txid)) == Ok::<SocketAddress, StunError>(a),
{
    let key = cookie_bytes() + txid;
    let v = xor_mapped_value(key, a);
    let msg = binding_response_bytes(a, txid);
    let pb = be_bytes((a.port ^ 0x2112u16) as nat, 2);
    crate::bytes::lemma_pow256_16();
    crate::bytes::lemma_be_round_trip_fits((a.port ^ 0x2112u16) as nat, 2);
    let vlen: nat = match a.ip {
        IpAddress::V4(x) => {
            crate::bytes::lemma_be_round_trip_fits((x ^ MAGIC_COOKIE) as nat, 4);
            8
        },
        IpAddress::V6(x) => {
            crate::bytes::lemma_be_value_bound(key);
            crate::bytes::lemma_be_round_trip_fits((x ^ (be_value(key) as u128)) as nat, 16);
            20
        },
    };
    assert(v.len() == vlen);
    crate::bytes::lemma_be_round_trip_fits((4 + vlen) as nat, 2);
    crate::bytes::lemma_be_round_trip_fits(vlen, 2);
    assert(msg.len() == 24 + vlen);
    assert(msg.subrange(2, 4) =~= be_bytes((4 + vlen) as nat, 2));
    assert(declared_end(msg) == msg.len());
    let ty = msg.subrange(20, 22);
    assert(ty =~= seq![0x00u8, 0x20u8]);
    assert(ty.drop_last() =~= seq![0x00u8]);
    assert(ty.drop_last().drop_last() =~= Seq::<u8>::empty());
    assert(be_value(ty.drop_last().drop_last()) == 0);
    assert(be_value(ty.drop_last()) == 0);
    assert(be_value(ty) == 0x20);
    assert(be16_at(msg, 20) == 0x20);
    assert(msg.subrange(22, 24) =~= be_bytes(vlen, 2));
    assert(find_attr(msg, 20, declared_end(msg), ATTR_XOR_MAPPED_ADDRESS as nat) == Some(20int));
    assert(attr_value(msg, 20) =~= v);
    assert(msg.subrange(4, 20) =~= key);
    assert(v.subrange(2, 4) =~= pb);
    let p = a.port;
    assert((p ^ 0x2112u16) ^ 0x2112u16 == p) by (bit_vector);
    match a.ip {
        IpAddress::V4(x) => {
            assert(v.subrange(4, 8) =~= be_bytes((x ^ MAGIC_COOKIE) as nat, 4));
            assert((x ^ 0x2112a442u32) ^ 0x2112a442u32 == x) by (bit_vector);
        },
        IpAddress::V6(x) => {
            let k = be_value(key) as u128;
            assert(v.subrange(4, 20) =~= be_bytes((x ^ k) as nat, 16));
            assert((x ^ k) ^ k == x) by (bit_vector);
        },
    }
}

} // verus!
