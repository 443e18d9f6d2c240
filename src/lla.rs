//! IPv6 link-local addresses derived from a seed or a MAC address.

use crate::addr::IpAddress;
use crate::bytes::{be_value, read_be};
use vstd::prelude::*;

verus! {

/// The BLAKE2s-256 digest of `data`.
pub uninterp spec fn blake2s256_of(data: Seq<u8>) -> Seq<u8>;

/// Relies on `blake2::Blake2s256` through `digest::Digest::digest`: the 32-byte
/// BLAKE2s-256 digest of the input, which depends on the input alone.
#[verifier::external_body]
fn blake2s256(data: &[u8]) -> (r: Vec<u8>)
    ensures
        r@ == blake2s256_of(data@),
        r@.len() == 32,
{
    <blake2::Blake2s256 as blake2::Digest>::digest(data).to_vec()
}

/// `fe80::/64` as the high half of a 128-bit address.
pub open spec fn link_local_prefix() -> u128 {
    0xfe80_0000_0000_0000_0000_0000_0000_0000u128
}

/// The link-local address whose interface identifier is the first eight bytes
/// of `digest`.
pub open spec fn lla_of_digest(digest: Seq<u8>) -> IpAddress {
    IpAddress::V6((link_local_prefix() + be_value(digest.subrange(0, 8))) as u128)
}

/// The link-local address derived from `seed`: `fe80::/64` followed by the
/// first eight bytes of BLAKE2s-256 of the seed.
pub open spec fn lla_of_seed(seed: Seq<u8>) -> IpAddress {
    lla_of_digest(blake2s256_of(seed))
}

/// Builds the link-local address for a digest of at least eight bytes.
pub fn lla_from_digest(digest: &[u8]) -> (r: IpAddress)
    requires
        digest@.len() >= 8,
    ensures
        r == lla_of_digest(digest@),
{
    let low = read_be(digest, 0, 8);
    proof {
        crate::bytes::lemma_be_value_bound(digest@.subrange(0, 8));
        reveal_with_fuel(crate::bytes::pow256, 9);
    }
    IpAddress::V6(0xfe80_0000_0000_0000_0000_0000_0000_0000u128 + low)
}

/// Derives a link-local address from `seed` through BLAKE2s-256.
pub fn generate_ipv6_lla_from_seed(seed: &[u8]) -> (r: IpAddress)
    ensures
        r == lla_of_seed(seed@),
{
    let digest = blake2s256(seed);
    lla_from_digest(digest.as_slice())
}

/// The EUI-64 link-local address of a MAC address, as bytes.
pub open spec fn eui64_lla_bytes(mac: Seq<u8>) -> Seq<u8> {
    seq![0xfeu8, 0x80u8, 0u8, 0u8, 0u8, 0u8, 0u8, 0u8, mac[0] ^ 0x02u8, mac[1], mac[2], 0xffu8, 0xfeu8, mac[3], mac[4], mac[5]]
}

/// Derives the EUI-64 link-local address of a MAC address (universal/local bit
/// flipped, `ff:fe` inserted in the middle).
pub fn generate_ipv6_lla_from_mac(mac: [u8; 6]) -> (r: IpAddress)
    ensures
        r == IpAddress::V6(be_value(eui64_lla_bytes(mac@)) as u128),
{
    let b: Vec<u8> = vec![
        0xfe,
        0x80,
        0,
        0,
        0,
        0,
        0,
        0,
        mac[0] ^ 0x02,
        mac[1],
        mac[2],
        0xff,
        0xfe,
        mac[3],
        mac[4],
        mac[5],
    ];
    assert(b@.subrange(0, 16) =~= eui64_lla_bytes(mac@));
    IpAddress::V6(read_be(b.as_slice(), 0, 16))
}

} // verus!
