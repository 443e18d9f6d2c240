use cat4igp::answer::WireguardAnswered;
use cat4igp::controller::{ControllerStore, PairingError};
use cat4igp::registry::{mesh_settings, NodeRegistry};
use cat4igp::text::parse_trailing_port;

fn triple(a: i32, b: i32, v6: bool) -> (i32, i32, bool) {
    (a.min(b), a.max(b), v6)
}

fn triples(s: &ControllerStore) -> Vec<(i32, i32, bool)> {
    s.tunnels.iter().map(|d| triple(d.peer1_id, d.peer2_id, d.endpoint_ipv6)).collect()
}

#[test]
fn pair_uniqueness() {
    let mut s = ControllerStore::new();
    assert_eq!(s.create_tunnel(5, 7, 1420, false, 1000), Ok(1));
    assert_eq!(s.create_tunnel(7, 5, 1500, false, 1000), Err(PairingError::Duplicate));
    assert_eq!(s.create_tunnel(5, 7, 1500, true, 1000), Ok(2));
    assert_eq!(s.create_tunnel(5, 5, 1500, true, 1000), Err(PairingError::SamePeer));
    assert_eq!(s.tunnels.len(), 2);
    let t = triples(&s);
    assert_ne!(t[0], t[1]);
}

#[test]
fn answer_projection() {
    let mut s = ControllerStore::new();
    let id = s.create_tunnel(5, 7, 1420, false, 1000).unwrap();
    s.update_wireguard_pubkey(7, "peer-seven-key".to_string());
    assert!(s.answer(id, 5, Some("[::1]:51820".to_string()), None, 2000));
    let views = s.answers_for(5);
    assert_eq!(views.len(), 1);
    let v = &views[0];
    assert_eq!(v.tunnel_id, id);
    assert_eq!(v.peer_node_id, 7);
    assert_eq!(v.local_endpoint.as_deref(), Some("[::1]:51820"));
    assert_eq!(v.remote_endpoint, None);
    assert_eq!(v.preferred_port, 51820);
    assert_eq!(v.local_answered, WireguardAnswered::Answered);
    assert_eq!(v.remote_response, WireguardAnswered::Unanswered);
    assert_eq!(v.public_key, "peer-seven-key");
    assert_eq!(v.updated_at, 2000);

    let other = s.answers_for(7);
    assert_eq!(other.len(), 1);
    assert_eq!(other[0].peer_node_id, 5);
    assert_eq!(other[0].remote_endpoint.as_deref(), Some("[::1]:51820"));
    assert_eq!(other[0].preferred_port, 0);
    assert_eq!(other[0].public_key, "");
    assert!(s.answers_for(9).is_empty());
}

#[test]
fn decline_and_non_peer_answers() {
    let mut s = ControllerStore::new();
    let id = s.create_tunnel(1, 2, 1420, true, 500).unwrap();
    assert!(s.answer(id, 2, None, Some(3), 600));
    assert_eq!(s.tunnels[0].peer2_answered, 3);
    assert_eq!(s.answers_for(2)[0].local_answered, WireguardAnswered::RejectedNoIpStack);
    assert!(!s.answer(id, 9, Some("x:1".to_string()), None, 700));
    assert!(!s.answer(id + 1, 1, None, None, 700));
    assert_eq!(s.tunnels[0].updated_at, 600);
}

#[test]
fn updated_at_never_precedes_created_at() {
    let mut s = ControllerStore::new();
    let id = s.create_tunnel(1, 2, 1420, false, 5000).unwrap();
    assert!(s.answer(id, 1, None, None, 4000));
    let d = &s.tunnels[0];
    assert!(d.updated_at >= d.created_at);
    assert_eq!(d.updated_at, 5000);
}

#[test]
fn views_name_the_other_peer() {
    let mut s = ControllerStore::new();
    s.create_tunnel(1, 2, 1400, false, 0).unwrap();
    s.create_tunnel(3, 1, 1400, true, 0).unwrap();
    s.create_tunnel(2, 3, 1400, false, 0).unwrap();
    for n in 1..=3 {
        let views = s.answers_for(n);
        assert_eq!(views.len(), 2);
        for v in &views {
            assert_ne!(v.peer_node_id, n);
        }
    }
}

#[test]
fn mesh_auto_wireguard() {
    let mut s = ControllerStore::new();
    let m = s.create_mesh_group("M".to_string(), true, 1380).unwrap();
    s.join_mesh(3, m, 0).unwrap();
    assert!(s.tunnels.is_empty());
    s.join_mesh(4, m, 0).unwrap();
    assert_eq!(s.tunnels.len(), 2);
    let mut t = triples(&s);
    t.sort();
    assert_eq!(t, vec![(3, 4, false), (3, 4, true)]);
    assert!(s.tunnels.iter().all(|d| d.mtu == 1380));
    s.join_mesh(5, m, 0).unwrap();
    assert_eq!(s.tunnels.len(), 6);
    let mut t = triples(&s);
    t.sort();
    assert_eq!(
        t,
        vec![(3, 4, false), (3, 4, true), (3, 5, false), (3, 5, true), (4, 5, false), (4, 5, true)]
    );
    s.join_mesh(5, m, 0).unwrap();
    assert_eq!(s.tunnels.len(), 6);
    assert_eq!(s.memberships.len(), 3);
}

#[test]
fn mesh_without_auto_wireguard_and_unknown_mesh() {
    let mut s = ControllerStore::new();
    let m = s.create_mesh_group("plain".to_string(), false, 0).unwrap();
    s.join_mesh(1, m, 0).unwrap();
    s.join_mesh(2, m, 0).unwrap();
    assert!(s.tunnels.is_empty());
    assert_eq!(s.join_mesh(1, m + 10, 0), Err(PairingError::NotFound));
}

#[test]
fn mesh_settings_defaults() {
    assert_eq!(mesh_settings(None, None), (false, 0));
    assert_eq!(mesh_settings(Some(true), None), (true, 1420));
    assert_eq!(mesh_settings(Some(true), Some(1380)), (true, 1380));
    assert_eq!(mesh_settings(Some(false), Some(1380)), (false, 0));
}

#[test]
fn trailing_port_parsing() {
    assert_eq!(parse_trailing_port("[::1]:51820"), Some(51820));
    assert_eq!(parse_trailing_port("1.2.3.4:80"), Some(80));
    assert_eq!(parse_trailing_port("host:65536"), None);
    assert_eq!(parse_trailing_port("host:"), None);
    assert_eq!(parse_trailing_port("host:8a"), None);
    assert_eq!(parse_trailing_port("host"), None);
}

#[test]
fn answer_codes() {
    assert_eq!(WireguardAnswered::from(0i16), WireguardAnswered::Unanswered);
    assert_eq!(WireguardAnswered::from(2i16), WireguardAnswered::RejectedGeneric);
    assert_eq!(WireguardAnswered::from(7i16), WireguardAnswered::Unknown);
    assert_eq!(i16::from(WireguardAnswered::RejectedNoIpStack), 3);
    assert_eq!(i16::from(WireguardAnswered::Unknown), -1);
}

#[test]
fn static_keys() {
    let mut s = ControllerStore::new();
    assert_eq!(s.get_wireguard_pubkey(4), None);
    s.update_wireguard_pubkey(4, "a".to_string());
    s.update_wireguard_pubkey(4, "b".to_string());
    assert_eq!(s.get_wireguard_pubkey(4).as_deref(), Some("b"));
}

#[test]
fn registration_with_invites() {
    let mut r = NodeRegistry::new();
    r.create_invite("inv".to_string(), None, Some(1), None, 0).unwrap();
    let id = r.register_node("n1".to_string(), &"inv".to_string(), "key-1".to_string(), 10).unwrap();
    assert_eq!(r.invites[0].used_count, 1);
    assert_eq!(
        r.register_node("n2".to_string(), &"inv".to_string(), "key-2".to_string(), 11),
        Err(PairingError::NotFound)
    );
    assert_eq!(
        r.register_node("n3".to_string(), &"nope".to_string(), "key-3".to_string(), 11),
        Err(PairingError::NotFound)
    );
    assert_eq!(r.authenticate(&"key-1".to_string()), Some(0));
    assert_eq!(r.nodes[0].id, id);
    assert_eq!(r.authenticate(&"key-2".to_string()), None);
    assert!(r.update_node_name(id, "renamed".to_string()));
    assert_eq!(r.nodes[0].name, "renamed");
    assert!(!r.update_node_name(id + 1, "x".to_string()));
}

#[test]
fn registration_generates_uuid_keys() {
    let mut r = NodeRegistry::new();
    r.create_invite("open".to_string(), None, None, None, 0).unwrap();
    let k1 = r.register_node_with_new_key("a".to_string(), &"open".to_string(), 1).unwrap();
    let k2 = r.register_node_with_new_key("b".to_string(), &"open".to_string(), 2).unwrap();
    assert_eq!(k1.len(), 36);
    assert_ne!(k1, k2);
    assert_eq!(r.nodes.len(), 2);
}

#[test]
fn answers_never_move_updated_at_back() {
    let mut s = ControllerStore::new();
    let id = s.create_tunnel(1, 2, 1420, false, 100).unwrap();
    assert!(s.answer(id, 1, None, None, 900));
    assert!(s.answer(id, 2, None, None, 500));
    assert_eq!(s.tunnels[0].updated_at, 900);
    assert_eq!(s.tunnels[0].created_at, 100);
}

#[test]
fn registration_uses_the_first_matching_invite() {
    let mut r = NodeRegistry::new();
    r.create_invite("dup".to_string(), None, Some(5), None, 0).unwrap();
    r.create_invite("dup".to_string(), None, Some(5), None, 0).unwrap();
    r.register_node_with_new_key("a".to_string(), &"dup".to_string(), 1).unwrap();
    assert_eq!(r.invites[0].used_count, 1);
    assert_eq!(r.invites[1].used_count, 0);
    assert_eq!(r.nodes[0].id, 1);
    assert_eq!(r.nodes[0].name, "a");
}
