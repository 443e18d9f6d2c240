//! Deterministic interface names for tunnels: `cat` followed by the first
//! twelve Crockford base-32 characters of a packed 8-byte descriptor field.

use vstd::prelude::*;
use vstd::string::*;

verus! {

/// The Crockford base-32 alphabet.
pub open spec fn crockford_alphabet() -> Seq<char> {
    seq![
        '0', '1', '2', '3', '4', '5', '6', '7', '8', '9', 'A', 'B', 'C', 'D', 'E', 'F',
        'G', 'H', 'J', 'K', 'M', 'N', 'P', 'Q', 'R', 'S', 'T', 'V', 'W', 'X', 'Y', 'Z',
    ]
}

/// Bit `k` of a byte string read most significant bit first; zero past the end.
pub open spec fn bit_at(b: Seq<u8>, k: int) -> int {
    if 0 <= k < 8 * b.len() {
        (b[k / 8] as int / vstd::arithmetic::power2::pow2((7 - k % 8) as nat) as int) % 2
    } else {
        0
    }
}

/// The `i`-th 5-bit group of a byte string, most significant bit first.
pub open spec fn quintet(b: Seq<u8>, i: int) -> int {
    16 * bit_at(b, 5 * i) + 8 * bit_at(b, 5 * i + 1) + 4 * bit_at(b, 5 * i + 2) + 2 * bit_at(
        b,
        5 * i + 3,
    ) + bit_at(b, 5 * i + 4)
}

/// Unpadded Crockford base-32 text of a byte string.
pub open spec fn crockford_text(b: Seq<u8>) -> Seq<char> {
    Seq::new(((8 * b.len() + 4) / 5) as nat, |i: int| crockford_alphabet()[quintet(b, i)])
}

/// Relies on `base32::encode` with `Alphabet::Crockford`: each 5-bit group of
/// the input, most significant bit first and zero-filled at the end, becomes one
/// alphabet character, and no padding is written.
#[verifier::external_body]
fn crockford_encode(b: &[u8]) -> (r: String)
    ensures
        r@ == crockford_text(b@),
{
    base32::encode(base32::Alphabet::Crockford, b)
}

/// Flag bits of the third byte of the packed field.
pub open spec fn flag_bits(ipv6: bool, fec: bool, faketcp: bool) -> u32 {
    (if ipv6 { 8u32 } else { 0u32 }) | (if fec { 4u32 } else { 0u32 }) | (if faketcp {
        2u32
    } else {
        0u32
    })
}

/// The packed 8-byte field of a WireGuard tunnel, most significant bit first:
/// protocol tag `11100`, the 15 low bits of the peer node id, the
/// `ipv6`/`fec`/`faketcp` flags, a reserved zero bit, the 16 low bits of the
/// tunnel id, then zeros.
pub open spec fn name_field(
    tunnel_id: i32,
    peer_node_id: i32,
    ipv6: bool,
    fec: bool,
    faketcp: bool,
) -> Seq<u8> {
    let p = (peer_node_id as u32) & 0x7fff;
    let t = (tunnel_id as u32) & 0xffff;
    seq![
        (0xe0u32 | (p >> 12u32)) as u8,
        ((p >> 4u32) & 0xff) as u8,
        (((p & 0xf) << 4u32) | flag_bits(ipv6, fec, faketcp)) as u8,
        (t >> 8u32) as u8,
        (t & 0xff) as u8,
        0u8,
        0u8,
        0u8,
    ]
}

/// The interface name of a tunnel: `cat` and the first twelve characters of the
/// Crockford text of its packed field.
pub open spec fn interface_name_of(
    tunnel_id: i32,
    peer_node_id: i32,
    ipv6: bool,
    fec: bool,
    faketcp: bool,
) -> Seq<char> {
    seq!['c', 'a', 't'] + crockford_text(
        name_field(tunnel_id, peer_node_id, ipv6, fec, faketcp),
    ).subrange(0, 12)
}

/// Packs the descriptor bits that name a WireGuard tunnel.
pub fn pack_name_field(
    tunnel_id: i32,
    peer_node_id: i32,
    ipv6: bool,
    fec: bool,
    faketcp: bool,
) -> (r: Vec<u8>)
    ensures
        r@ == name_field(tunnel_id, peer_node_id, ipv6, fec, faketcp),
{
    let p: u32 = (#[verifier::truncate] (peer_node_id as u32)) & 0x7fff;
    let t: u32 = (#[verifier::truncate] (tunnel_id as u32)) & 0xffff;
    let flags: u32 = (if ipv6 { 8u32 } else { 0u32 }) | (if fec { 4u32 } else { 0u32 }) | (
    if faketcp {
        2u32
    } else {
        0u32
    });
    let mut field: Vec<u8> = Vec::new();
    field.push(#[verifier::truncate] ((0xe0u32 | (p >> 12u32)) as u8));
    field.push(#[verifier::truncate] (((p >> 4u32) & 0xff) as u8));
    field.push(#[verifier::truncate] ((((p & 0xf) << 4u32) | flags) as u8));
    field.push(#[verifier::truncate] ((t >> 8u32) as u8));
    field.push(#[verifier::truncate] ((t & 0xff) as u8));
    field.push(0u8);
    field.push(0u8);
    field.push(0u8);
    assert(field@ =~= name_field(tunnel_id, peer_node_id, ipv6, fec, faketcp));
    field
}

/// Derives the interface name of a WireGuard tunnel from its descriptor bits.
pub fn interface_name(
    tunnel_id: i32,
    peer_node_id: i32,
    ipv6: bool,
    fec: bool,
    faketcp: bool,
) -> (r: String)
    ensures
        r@ == interface_name_of(tunnel_id, peer_node_id, ipv6, fec, faketcp),
{
    let field = pack_name_field(tunnel_id, peer_node_id, ipv6, fec, faketcp);
    let text = crockford_encode(field.as_slice());
    let head = text.as_str().substring_char(0, 12);
    let prefix = String::from_str("cat");
    proof {
        reveal_strlit("cat");
    }
    prefix.concat(head)
}

/// Every 5-bit group is a valid index into the alphabet.
pub proof fn lemma_quintet_in_range(b: Seq<u8>, i: int)
    ensures
        0 <= quintet(b, i) < 32,
{
    assert(0 <= bit_at(b, 5 * i) <= 1);
    assert(0 <= bit_at(b, 5 * i + 1) <= 1);
    assert(0 <= bit_at(b, 5 * i + 2) <= 1);
    assert(0 <= bit_at(b, 5 * i + 3) <= 1);
    assert(0 <= bit_at(b, 5 * i + 4) <= 1);
}

/// Every derived interface name is 15 characters long, starts with `cat`, and
/// its last twelve characters are Crockford base-32 digits.
pub proof fn lemma_interface_name_shape(
    tunnel_id: i32,
    peer_node_id: i32,
    ipv6: bool,
    fec: bool,
    faketcp: bool,
)
    ensures
        interface_name_of(tunnel_id, peer_node_id, ipv6, fec, faketcp).len() == 15,
        interface_name_of(tunnel_id, peer_node_id, ipv6, fec, faketcp).subrange(0, 3) == seq![
            'c',
            'a',
            't',
        ],
        forall|i: int|
            3 <= i < 15 ==> crockford_alphabet().contains(
                #[trigger] interface_name_of(tunnel_id, peer_node_id, ipv6, fec, faketcp)[i],
            ),
{
    let field = name_field(tunnel_id, peer_node_id, ipv6, fec, faketcp);
    let n = interface_name_of(tunnel_id, peer_node_id, ipv6, fec, faketcp);
    assert(crockford_text(field).len() == 13);
    assert(n.subrange(0, 3) =~= seq!['c', 'a', 't']);
    assert forall|i: int| 3 <= i < 15 implies crockford_alphabet().contains(#[trigger] n[i]) by {
        lemma_quintet_in_range(field, i - 3);
        assert(n[i] == crockford_alphabet()[quintet(field, i - 3)]);
    }
}

proof fn lemma_alphabet_increasing(i: int, j: int)
    requires
        0 <= i < j < 32,
    ensures
        crockford_alphabet()[i] < crockford_alphabet()[j],
    decreases j - i,
{
    let a = crockford_alphabet();
    assert(forall|k: int| 0 <= k < 31 ==> #[trigger] a[k] < a[k + 1]);
    if j > i + 1 {
        lemma_alphabet_increasing(i, j - 1);
        assert(a[j - 1] < a[j]);
    } else {
        assert(a[i] < a[i + 1]);
    }
}

/// Tunnels whose endpoint family differs get different interface names,
/// whatever their other flags.
pub proof fn lemma_ipv6_flag_changes_name(
    tunnel_id: i32,
    peer_node_id: i32,
    fec0: bool,
    faketcp0: bool,
    fec1: bool,
    faketcp1: bool,
)
    ensures
        interface_name_of(tunnel_id, peer_node_id, false, fec0, faketcp0) != interface_name_of(
            tunnel_id,
            peer_node_id,
            true,
            fec1,
            faketcp1,
        ),
{
    let f0 = name_field(tunnel_id, peer_node_id, false, fec0, faketcp0);
    let f1 = name_field(tunnel_id, peer_node_id, true, fec1, faketcp1);
    let p = (peer_node_id as u32) & 0x7fff;
    let fl0 = flag_bits(false, fec0, faketcp0);
    let fl1 = flag_bits(true, fec1, faketcp1);
    let x = (((p & 0xf) << 4u32) | fl0) as u8;
    let y = (((p & 0xf) << 4u32) | fl1) as u8;
    assert(f0[2] == x && f1[2] == y);
    assert(x / 8 % 2 == 0 && y / 8 % 2 == 1 && x % 2 == y % 2) by (bit_vector)
        requires
            fl0 == flag_bits(false, fec0, faketcp0),
            fl1 == flag_bits(true, fec1, faketcp1),
            x == (((p & 0xf) << 4u32) | fl0) as u8,
            y == (((p & 0xf) << 4u32) | fl1) as u8,
    ;
    vstd::arithmetic::power2::lemma2_to64();
    assert(f0[3] == f1[3]);
    assert(bit_at(f0, 20) == 0 && bit_at(f1, 20) == 1);
    assert(0 <= bit_at(f0, 21) <= 1 && 0 <= bit_at(f1, 21) <= 1);
    assert(0 <= bit_at(f0, 22) <= 1 && 0 <= bit_at(f1, 22) <= 1);
    assert(f0[2] as int / 1 == f0[2] as int && f1[2] as int / 1 == f1[2] as int);
    assert(bit_at(f0, 23) == f0[2] as int % 2);
    assert(bit_at(f1, 23) == f1[2] as int % 2);
    assert(bit_at(f0, 23) == bit_at(f1, 23));
    assert(bit_at(f0, 24) == bit_at(f1, 24));
    let q0 = quintet(f0, 4);
    let q1 = quintet(f1, 4);
    assert(q1 > q0);
    lemma_quintet_in_range(f0, 4);
    lemma_quintet_in_range(f1, 4);
    lemma_alphabet_increasing(q0, q1);
    let n0 = interface_name_of(tunnel_id, peer_node_id, false, fec0, faketcp0);
    let n1 = interface_name_of(tunnel_id, peer_node_id, true, fec1, faketcp1);
    assert(n0[7] == crockford_alphabet()[q0]);
    assert(n1[7] == crockford_alphabet()[q1]);
}

} // verus!
