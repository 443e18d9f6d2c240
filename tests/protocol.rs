use cat4igp::config::ServerConfig;
use cat4igp::protocol::{
    frame_header, frame_length, DaemonCore, DaemonRequest, DaemonResponse, FrameError,
    RequestPlan, SharedSecret,
};

#[test]
fn test_generate_secret() {
    let secret = SharedSecret::generate();
    assert_eq!(secret.len(), 32);
}

#[test]
fn generated_secret_is_alphanumeric_and_varies() {
    let a = SharedSecret::generate();
    let b = SharedSecret::generate();
    assert!(a.chars().all(|c| c.is_ascii_alphanumeric()));
    assert_ne!(a, b);
}

#[test]
fn test_verify_secret() {
    let secret = SharedSecret::generate();
    let shared = SharedSecret {
        secret: secret.clone(),
    };
    assert!(shared.verify(&secret));
    assert!(!shared.verify("wrong"));
}

#[test]
fn verify_rejects_same_length_mismatch() {
    let shared = SharedSecret { secret: "abcd".to_string() };
    assert!(!shared.verify("abce"));
    assert!(shared.verify("abcd"));
    assert_eq!(shared.value(), "abcd");
}

#[test]
fn test_auth_failure() {
    let core = DaemonCore {
        secret: SharedSecret { secret: "right-secret".to_string() },
        server_config: None,
    };
    match core.plan_request(DaemonRequest::Status, "wrong-secret") {
        RequestPlan::Respond(DaemonResponse::Error(msg)) => {
            assert!(msg.contains("Authentication"));
        }
        _ => panic!("Expected error response"),
    }
}

#[test]
fn test_set_server_config() {
    let mut core = DaemonCore {
        secret: SharedSecret { secret: "s3cret".to_string() },
        server_config: None,
    };
    let req = DaemonRequest::SetServer {
        address: "https://example.com".to_string(),
        invite_code: "test-invite".to_string(),
        verify_tls: true,
    };
    match core.plan_request(req, "s3cret") {
        RequestPlan::SaveServer(cfg) => {
            assert_eq!(cfg.address, "https://example.com");
            match core.commit_server(cfg, true) {
                DaemonResponse::Success(_) => assert!(core.is_server_configured()),
                _ => panic!("Unexpected response"),
            }
        }
        _ => panic!("Unexpected response"),
    }
}

#[test]
fn failed_save_keeps_state() {
    let mut core = DaemonCore {
        secret: SharedSecret { secret: "s".to_string() },
        server_config: None,
    };
    let cfg = ServerConfig::new("http://x".to_string(), "i".to_string());
    match core.commit_server(cfg, false) {
        DaemonResponse::Error(_) => {}
        _ => panic!("expected error"),
    }
    assert!(!core.is_server_configured());
}

#[test]
fn status_and_register_flow() {
    let mut core = DaemonCore {
        secret: SharedSecret { secret: "k".to_string() },
        server_config: Some(ServerConfig::new("http://x".to_string(), "i".to_string())),
    };
    match core.plan_request(DaemonRequest::Status, "k") {
        RequestPlan::Respond(DaemonResponse::Status { running, server_configured, node_key_present, .. }) => {
            assert!(running && server_configured && !node_key_present);
        }
        _ => panic!("expected status"),
    }
    match core.plan_request(DaemonRequest::Register, "k") {
        RequestPlan::SaveServer(cfg) => {
            assert!(cfg.node_key.is_some());
            core.commit_server(cfg, true);
        }
        _ => panic!("expected save"),
    }
    match core.plan_request(DaemonRequest::GetServer, "k") {
        RequestPlan::Respond(DaemonResponse::ServerConfig { registered, address, .. }) => {
            assert!(registered);
            assert_eq!(address, "http://x");
        }
        _ => panic!("expected server config"),
    }
    match core.plan_request(
        DaemonRequest::ModifyConfig { public_hostname_ipv4: None, public_hostname_ipv6: None },
        "k",
    ) {
        RequestPlan::Respond(DaemonResponse::Error(_)) => {}
        _ => panic!("expected error"),
    }
    assert!(matches!(core.plan_request(DaemonRequest::GetConfig, "k"), RequestPlan::SendConfig));
}

#[test]
fn frames_are_length_prefixed_and_bounded() {
    assert_eq!(frame_header(5).unwrap(), vec![0, 0, 0, 5]);
    assert_eq!(frame_header(0x0102_0304 & 0xFFFFF).unwrap(), vec![0x00, 0x02, 0x03, 0x04]);
    assert_eq!(frame_length(&[0, 0x10, 0, 0]), Ok(1048576));
    assert_eq!(frame_length(&[0, 0x10, 0, 1]), Err(FrameError::TooLarge));
    assert_eq!(frame_header(1048577), Err(FrameError::TooLarge));
}

#[test]
fn authentication_failure_message() {
    let core = DaemonCore { secret: SharedSecret { secret: "a".to_string() }, server_config: None };
    match core.plan_request(DaemonRequest::GetServer, "b") {
        RequestPlan::Respond(DaemonResponse::Error(m)) => assert_eq!(m, "Authentication failed"),
        _ => panic!("expected error"),
    }
}
