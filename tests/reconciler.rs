use cat4igp::addr::{IpAddress, IpNet, SocketAddress};
use cat4igp::answer::WireguardAnswered;
use cat4igp::link_plan::{plan_ensure_up, LinkAction};
use cat4igp::lla::generate_ipv6_lla_from_seed;
use cat4igp::reconciler::{stale_ids, DaemonMemory, DeviceAction, ReconcileError, WireguardTunnelC};
use cat4igp::rest::client::WireguardTunnelInfo;
use cat4igp::stun_servers::{
    parse_list_line, parse_server_list, parse_stun_server_line, pick_server_address, server_for_family,
    shuffled_candidates, split_resolved, stun_candidates, SelectError, ServerLineError, StunServer,
};
use cat4igp::tunnel::{allowed_ips, is_connected, Backend, Platform, Tunnel, TunnelType};

fn info(id: i32, peer: i32, ipv6: bool) -> WireguardTunnelInfo {
    WireguardTunnelInfo {
        tunnel_id: id,
        peer_node_id: peer,
        public_key: "cGVlcg==".to_string(),
        preferred_port: 51820,
        local_endpoint: Some("198.51.100.1:51820".to_string()),
        remote_endpoint: Some("203.0.113.9:51999".to_string()),
        local_answered: WireguardAnswered::Answered,
        remote_response: WireguardAnswered::Answered,
        mtu: 1420,
        endpoint_ipv6: ipv6,
        fec: false,
        faketcp: false,
        created_at: 0,
        updated_at: 0,
    }
}

#[test]
fn new_record_from_view() {
    let t = WireguardTunnelC::new_from_rest(&info(9, 7, false), "bG9jYWw=".to_string());
    assert_eq!(t.get_tunnel_id(), 9);
    assert_eq!(t.get_peer_node_id(), 7);
    assert!(!t.is_ipv6());
    let d = t.get_os_tun();
    assert_eq!(d.get_interface_name(), "catW00700090000");
    assert_eq!(d.get_type(), TunnelType::WireGuard);
    assert_eq!(d.get_local_private_key(), "bG9jYWw=");
    assert_eq!(d.peer_public_key, "cGVlcg==");
    assert_eq!(d.peer_endpoint.as_deref(), Some("203.0.113.9:51999"));
    assert_eq!(d.listen_port, Some(51820));
    let mut zero = info(9, 7, false);
    zero.preferred_port = 0;
    let t0 = WireguardTunnelC::new_from_rest(&zero, "k".to_string());
    assert_eq!(t0.get_os_tun().listen_port, None);
}

#[test]
fn reconciler_ipv6_flip() {
    let mut mem = DaemonMemory::new();
    let acts = mem.upsert(&info(9, 7, false), "bG9jYWw=".to_string(), false).unwrap();
    assert!(acts.is_empty());
    let n1 = mem.wireguard[&9].get_os_tun().interface.clone();
    assert_eq!(n1, "catW00700090000");

    let acts = mem.upsert(&info(9, 7, true), "ignored".to_string(), true).unwrap();
    assert_eq!(acts.len(), 3);
    match &acts[0] {
        DeviceAction::Destroy(name) => assert_eq!(name, &n1),
        _ => panic!("expected the old device to be destroyed"),
    }
    assert!(matches!(acts[1], DeviceAction::Setup));
    assert!(matches!(acts[2], DeviceAction::EnsureUp));
    let rec = &mem.wireguard[&9];
    let n2 = rec.get_os_tun().interface.clone();
    assert_ne!(n2, n1);
    assert_eq!(n2, "catW007G0090000");
    assert!(rec.is_ipv6());
    assert_eq!(rec.get_os_tun().get_local_private_key(), "bG9jYWw=");

    let lla = generate_ipv6_lla_from_seed(n2.as_bytes());
    assert_eq!(lla, IpAddress::V6(0xfe80_0000_0000_0000_f31f_3849_0d92_87b6));
    let stale = IpNet { addr: generate_ipv6_lla_from_seed(n1.as_bytes()), prefix_len: 128 };
    let plan = plan_ensure_up(lla, &vec![stale], Some(1420), rec.get_mtu());
    assert_eq!(
        plan,
        vec![LinkAction::AddAddr(IpNet { addr: lla, prefix_len: 128 }), LinkAction::DelAddr(stale)]
    );
}

#[test]
fn flip_without_device_only_destroys() {
    let mut mem = DaemonMemory::new();
    mem.upsert(&info(3, 4, true), "k".to_string(), false).unwrap();
    let acts = mem.upsert(&info(3, 4, false), "k".to_string(), false).unwrap();
    assert_eq!(acts.len(), 1);
    let same = mem.upsert(&info(3, 4, false), "k".to_string(), true).unwrap();
    assert!(same.is_empty());
}

#[test]
fn identity_mismatch_is_refused() {
    let mut t = WireguardTunnelC::new_from_rest(&info(9, 7, false), "k".to_string());
    assert!(matches!(t.update_from_rest(&info(9, 8, true), true), Err(ReconcileError::IdentityMismatch)));
    assert!(!t.is_ipv6());
    let mut mem = DaemonMemory::new();
    mem.upsert(&info(9, 7, false), "k".to_string(), false).unwrap();
    assert!(mem.upsert(&info(9, 8, false), "k".to_string(), false).is_err());
    assert!(mem.contains(9));
    assert!(mem.remove(9).is_some());
    assert!(!mem.contains(9));
    assert!(mem.remove(9).is_none());
}

#[test]
fn ensure_up_plans() {
    let lla = IpAddress::V6(0xfe80_0000_0000_0000_0000_0000_0000_0001);
    let other = IpNet { addr: IpAddress::V4(0x0A00_0001), prefix_len: 24 };
    let own = IpNet { addr: lla, prefix_len: 64 };
    let plan = plan_ensure_up(lla, &vec![other, own], Some(1500), 1420);
    assert_eq!(
        plan,
        vec![LinkAction::DelAddr(other), LinkAction::LinkDown, LinkAction::LinkUpWithMtu(1420)]
    );
    assert!(plan_ensure_up(lla, &vec![own], Some(1420), 1420).is_empty());
    assert_eq!(
        plan_ensure_up(lla, &vec![own], None, 1420),
        vec![LinkAction::LinkUpWithMtu(1420)]
    );
}

#[test]
fn ensure_up_is_idempotent_on_a_simulated_interface() {
    let lla = IpAddress::V6(0xfe80_0000_0000_0000_0000_0000_0000_0042);
    let mut addrs = vec![
        IpNet { addr: IpAddress::V4(0xC0A8_0001), prefix_len: 24 },
        IpNet { addr: IpAddress::V6(0x2001_0db8_0000_0000_0000_0000_0000_0001), prefix_len: 64 },
    ];
    let mut mtu: u32 = 1500;
    let mut up = false;
    let mut run = |addrs: &mut Vec<IpNet>, mtu: &mut u32, up: &mut bool| {
        let plan = plan_ensure_up(lla, addrs, Some(*mtu), 1380);
        for a in &plan {
            match a {
                LinkAction::AddAddr(n) => addrs.push(*n),
                LinkAction::DelAddr(n) => addrs.retain(|x| x != n),
                LinkAction::LinkDown => *up = false,
                LinkAction::LinkUpWithMtu(m) => {
                    *up = true;
                    *mtu = *m;
                }
            }
        }
        plan.len()
    };
    assert_eq!(run(&mut addrs, &mut mtu, &mut up), 5);
    let after_first = (addrs.clone(), mtu, up);
    assert_eq!(addrs, vec![IpNet { addr: lla, prefix_len: 128 }]);
    assert_eq!(run(&mut addrs, &mut mtu, &mut up), 0);
    assert_eq!((addrs, mtu, up), after_first);
}

#[test]
fn stale_tunnel_ids() {
    let s = stale_ids(&vec![1, 2, 3, 4], &vec![2, 4, 5]);
    assert_eq!(s, vec![1, 3]);
    assert!(stale_ids(&vec![], &vec![1]).is_empty());
}

#[test]
fn driver_settings() {
    let ips = allowed_ips();
    assert_eq!(ips.len(), 2);
    assert_eq!(ips[0], IpNet { addr: IpAddress::V4(0), prefix_len: 0 });
    assert_eq!(ips[1], IpNet { addr: IpAddress::V6(0), prefix_len: 0 });
    let t = WireguardTunnelC::new_from_rest(&info(1, 2, false), "k".to_string());
    assert_eq!(t.get_os_tun().backend(Platform::Linux), Backend::Kernel);
    assert_eq!(t.get_os_tun().backend(Platform::OpenBsd), Backend::OpenBsd);
    assert_eq!(t.get_os_tun().backend(Platform::Other), Backend::Userspace);
    assert!(is_connected(Some(1000), 1180));
    assert!(!is_connected(Some(1000), 1181));
    assert!(!is_connected(None, 5));
}

#[test]
fn server_lines() {
    assert_eq!(parse_stun_server_line("stun.example.com:3478"), Ok(("stun.example.com".to_string(), 3478)));
    assert_eq!(parse_stun_server_line("[2001:db8::1]:19302"), Ok(("2001:db8::1".to_string(), 19302)));
    assert_eq!(parse_stun_server_line("[2001:db8::1]"), Err(ServerLineError::InvalidIpv6));
    assert_eq!(parse_stun_server_line("no-port"), Err(ServerLineError::InvalidHostname));
    assert_eq!(parse_list_line("  # comment"), Ok(None));
    assert_eq!(parse_list_line("   "), Ok(None));
    assert_eq!(parse_list_line(" a.b:1 \r"), Ok(Some(("a.b".to_string(), 1))));
}

#[test]
fn server_list_text() {
    let text = "# list\n\nstun1.example.com:3478\r\n[2001:db8::2]:3479\n";
    let v = parse_server_list(text).unwrap();
    assert_eq!(v, vec![("stun1.example.com".to_string(), 3478), ("2001:db8::2".to_string(), 3479)]);
    assert!(parse_server_list("ok:1\nbroken\n").is_err());
    assert_eq!(parse_server_list("").unwrap(), vec![]);
}

#[test]
fn candidates_and_selection() {
    let servers = vec![
        StunServer { port: 3478, ipv4_addrs: vec![1, 2], ipv6_addrs: vec![] },
        StunServer { port: 19302, ipv4_addrs: vec![3], ipv6_addrs: vec![9] },
    ];
    let c = stun_candidates(&servers, true);
    assert_eq!(c.len(), 3);
    assert_eq!(c[2], SocketAddress { ip: IpAddress::V4(3), port: 19302 });
    assert_eq!(stun_candidates(&servers, false), vec![SocketAddress { ip: IpAddress::V6(9), port: 19302 }]);
    let (order, c) = shuffled_candidates(servers.clone(), true);
    let mut ports: Vec<u16> = order.iter().map(|s| s.port).collect();
    ports.sort();
    assert_eq!(ports, vec![3478, 19302]);
    let mut ips: Vec<IpAddress> = c.iter().map(|a| a.ip).collect();
    ips.sort_by_key(|a| match a { IpAddress::V4(x) => *x as u128, IpAddress::V6(x) => *x });
    assert_eq!(ips, vec![IpAddress::V4(1), IpAddress::V4(2), IpAddress::V4(3)]);
    let a = pick_server_address(&servers, true).unwrap();
    assert!(a == SocketAddress { ip: IpAddress::V4(1), port: 3478 } || a == SocketAddress { ip: IpAddress::V4(3), port: 19302 });
    assert_eq!(pick_server_address(&vec![], true), Err(SelectError::NoServers));
}

#[test]
fn resolved_addresses_split_by_family() {
    let (v4, v6) = split_resolved(&vec![IpAddress::V4(1), IpAddress::V6(5), IpAddress::V4(1), IpAddress::V4(2)]);
    assert_eq!(v4, vec![1, 2]);
    assert_eq!(v6, vec![5]);
}

#[test]
fn servers_keep_only_their_family() {
    let s = server_for_family(3478, vec![1, 2], vec![9], true).unwrap();
    assert_eq!((s.port, s.ipv4_addrs.clone(), s.ipv6_addrs.len()), (3478, vec![1, 2], 0));
    let s6 = server_for_family(3478, vec![1], vec![9], false).unwrap();
    assert_eq!((s6.ipv4_addrs.len(), s6.ipv6_addrs.clone()), (0, vec![9]));
    assert!(server_for_family(3478, vec![], vec![9], true).is_none());
    assert!(server_for_family(3478, vec![1], vec![], false).is_none());
}

#[test]
fn unicode_whitespace_is_trimmed() {
    assert_eq!(parse_list_line("\u{3000}a.b:7\u{00a0}"), Ok(Some(("a.b".to_string(), 7))));
}
