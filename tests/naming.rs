use cat4igp::addr::IpAddress;
use cat4igp::ifname::{interface_name, pack_name_field};
use cat4igp::lla::{generate_ipv6_lla_from_mac, generate_ipv6_lla_from_seed, lla_from_digest};

const CROCKFORD: &str = "0123456789ABCDEFGHJKMNPQRSTVWXYZ";

#[test]
fn name_derivation_scenario() {
    let field = pack_name_field(0x1234, 0x0ABC, true, false, false);
    assert_eq!(field, vec![0xE0, 0xAB, 0xC8, 0x12, 0x34, 0, 0, 0]);
    let name = interface_name(0x1234, 0x0ABC, true, false, false);
    assert_eq!(name, "catW2NWG4HM0000");
}

#[test]
fn name_field_bit_positions() {
    let f = pack_name_field(0x7FFF_0001, -1, false, true, true);
    assert_eq!(f, vec![0xE7, 0xFF, 0xF6, 0x00, 0x01, 0, 0, 0]);
}

#[test]
fn names_have_the_fixed_shape() {
    for &(t, p, a, b, c) in &[
        (0, 0, false, false, false),
        (-1, -1, true, true, true),
        (0x1234, 0x0ABC, true, false, false),
        (i32::MAX, i32::MIN, false, true, false),
    ] {
        let n = interface_name(t, p, a, b, c);
        assert_eq!(n.len(), 15);
        assert!(n.starts_with("cat"));
        assert!(n[3..].chars().all(|ch| CROCKFORD.contains(ch)));
    }
    assert_eq!(interface_name(-1, -1, true, true, true), "catWZZZXZZZ0000");
}

#[test]
fn ipv6_flag_changes_the_name() {
    assert_eq!(interface_name(9, 7, false, false, false), "catW00700090000");
    assert_eq!(interface_name(9, 7, true, false, false), "catW007G0090000");
}

#[test]
fn lla_from_seed_uses_blake2s() {
    let lla = generate_ipv6_lla_from_seed(b"catW2NWG4HM0000");
    assert_eq!(lla, IpAddress::V6(0xfe80_0000_0000_0000_d538_76d9_a679_9220));
}

#[test]
fn lla_from_digest_takes_first_eight_bytes() {
    let digest: Vec<u8> = (1u8..=32).collect();
    assert_eq!(
        lla_from_digest(&digest),
        IpAddress::V6(0xfe80_0000_0000_0000_0102_0304_0506_0708)
    );
}

#[test]
fn lla_from_mac_is_eui64() {
    let lla = generate_ipv6_lla_from_mac([0x00, 0x11, 0x22, 0x33, 0x44, 0x55]);
    assert_eq!(lla, IpAddress::V6(0xfe80_0000_0000_0000_0211_22ff_fe33_4455));
}
