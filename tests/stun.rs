use cat4igp::addr::{IpAddress, SocketAddress};
use cat4igp::nat_discovery::{BasicAnswer, NatDiscovery, NatEvent, NatProbe, NatType};
use cat4igp::stun::{
    build_binding_response, create_stun_binding_request, create_stun_change_request,
    parse_mapped_socket_addr, parse_stun_response, StunError,
};

fn txid() -> Vec<u8> {
    (1u8..=12).collect()
}

#[test]
fn binding_request_bytes() {
    let r = create_stun_binding_request();
    assert_eq!(r.len(), 20);
    assert_eq!(&r[..8], &[0x00, 0x01, 0x00, 0x00, 0x21, 0x12, 0xa4, 0x42]);
    assert!(r[8..].iter().all(|b| *b == 0));
}

#[test]
fn change_request_uses_rfc_bit_order() {
    let both = create_stun_change_request(true, true);
    assert_eq!(both.len(), 28);
    assert_eq!(&both[2..4], &[0x00, 0x08]);
    assert_eq!(&both[20..], &[0x00, 0x03, 0x00, 0x04, 0, 0, 0, 0x06]);
    assert_eq!(create_stun_change_request(true, false)[27], 0x04);
    assert_eq!(create_stun_change_request(false, true)[27], 0x02);
}

#[test]
fn xor_mapped_round_trip_ipv4() {
    let a = SocketAddress { ip: IpAddress::V4(0xC000_0201), port: 54321 };
    let msg = build_binding_response(a, &txid());
    assert_eq!(msg.len(), 32);
    assert_eq!(&msg[24..], &[0x00, 0x01, 0xF5, 0x23, 0xE1, 0x12, 0xA6, 0x43]);
    assert_eq!(parse_mapped_socket_addr(&msg), Ok(a));
    assert_eq!(parse_stun_response(&msg, true), Ok(IpAddress::V4(0xC000_0201)));
    assert_eq!(parse_stun_response(&msg, false), Err(StunError::FamilyMismatch));
}

#[test]
fn xor_mapped_round_trip_ipv6() {
    let a = SocketAddress { ip: IpAddress::V6(0x2001_0db8_0000_0000_0000_0000_0000_0001), port: 3478 };
    let msg = build_binding_response(a, &txid());
    assert_eq!(msg.len(), 44);
    assert_eq!(parse_mapped_socket_addr(&msg), Ok(a));
    assert_eq!(parse_stun_response(&msg, false), Ok(a.ip));
}

#[test]
fn plain_mapped_address_is_the_fallback() {
    let mut msg = vec![0x01, 0x01, 0x00, 0x0c, 0x21, 0x12, 0xa4, 0x42];
    msg.extend_from_slice(&[0; 12]);
    msg.extend_from_slice(&[0x00, 0x01, 0x00, 0x08, 0x00, 0x01, 0x1F, 0x90, 10, 0, 0, 1]);
    assert_eq!(
        parse_mapped_socket_addr(&msg),
        Ok(SocketAddress { ip: IpAddress::V4(0x0A00_0001), port: 8080 })
    );
}

#[test]
fn xor_mapped_is_preferred_over_mapped() {
    let a = SocketAddress { ip: IpAddress::V4(0x0102_0304), port: 1000 };
    let xor = build_binding_response(a, &txid());
    let mut msg = xor[..20].to_vec();
    msg[3] = 24;
    msg.extend_from_slice(&[0x00, 0x01, 0x00, 0x08, 0x00, 0x01, 0x00, 0x50, 9, 9, 9, 9]);
    msg.extend_from_slice(&xor[20..]);
    assert_eq!(parse_mapped_socket_addr(&msg), Ok(a));
}

#[test]
fn malformed_responses() {
    assert_eq!(parse_mapped_socket_addr(&[0u8; 10]), Err(StunError::TooShort));
    let mut msg = create_stun_binding_request();
    assert_eq!(parse_stun_response(&msg, true), Err(StunError::NotBindingResponse));
    msg[0] = 1;
    msg[1] = 1;
    assert_eq!(parse_stun_response(&msg, true), Err(StunError::NoMappedAddress));
    msg[3] = 8;
    assert_eq!(parse_mapped_socket_addr(&msg), Err(StunError::Incomplete));
    msg.extend_from_slice(&[0x00, 0x20, 0x00, 0x04, 0x00, 0x07, 0x00, 0x00]);
    assert_eq!(parse_mapped_socket_addr(&msg), Err(StunError::BadAttribute));
}

#[test]
fn stun_open_internet() {
    let local = SocketAddress { ip: IpAddress::V4(0xCB00_7107), port: 40000 };
    let response = build_binding_response(local, &[0u8; 12]);
    let mapped = parse_mapped_socket_addr(&response).unwrap();
    let mut d = NatDiscovery::new(true);
    assert_eq!(d.probe(), NatProbe::Basic);
    let next = d.step(NatEvent::BasicResult(Some(BasicAnswer { mapped, local: local.ip })));
    assert_eq!(next, NatProbe::Finished(NatType::OpenInternet));
}

#[test]
fn nat_decision_table() {
    let m = SocketAddress { ip: IpAddress::V4(1), port: 10 };
    let local = IpAddress::V4(2);
    let run = |t2: bool, t3: Option<bool>, alt: Option<SocketAddress>, has_alt: bool| {
        let mut d = NatDiscovery::new(has_alt);
        let p = d.step(NatEvent::BasicResult(Some(BasicAnswer { mapped: m, local })));
        assert_eq!(p, NatProbe::ChangeRequest { change_ip: true, change_port: true });
        let mut p = d.step(NatEvent::ChangeResult(t2));
        if let Some(t3) = t3 {
            assert_eq!(p, NatProbe::ChangeRequest { change_ip: false, change_port: true });
            p = d.step(NatEvent::ChangeResult(t3));
        }
        if has_alt {
            assert_eq!(p, NatProbe::Alternate);
            p = d.step(NatEvent::AlternateResult(alt));
        }
        p
    };
    assert_eq!(run(true, None, Some(m), true), NatProbe::Finished(NatType::EndpointIndependentNoFiltering));
    assert_eq!(run(false, Some(true), Some(m), true), NatProbe::Finished(NatType::EndpointIndependentAddressFiltering));
    assert_eq!(run(false, Some(false), Some(m), true), NatProbe::Finished(NatType::EndpointIndependentAddressPortFiltering));
    let same_ip = SocketAddress { ip: m.ip, port: 11 };
    assert_eq!(run(true, None, Some(same_ip), true), NatProbe::Finished(NatType::AddressDependentMapping));
    let other = SocketAddress { ip: IpAddress::V4(3), port: 10 };
    assert_eq!(run(true, None, Some(other), true), NatProbe::Finished(NatType::AddressPortDependentMapping));
    assert_eq!(run(true, None, None, true), NatProbe::Finished(NatType::Unknown));
    assert_eq!(run(true, None, None, false), NatProbe::Finished(NatType::Unknown));
}

#[test]
fn no_answer_means_no_udp() {
    let mut d = NatDiscovery::new(true);
    assert_eq!(d.step(NatEvent::BasicResult(None)), NatProbe::Finished(NatType::NoUdpConnectivity));
}
