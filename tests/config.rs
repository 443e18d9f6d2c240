use cat4igp::config::{create_tls_config, ClientConfig, PortRange, ServerConfig, TlsVerifier};

#[test]
fn test_port_range() {
    let range = PortRange::new(1000, 2000).unwrap();
    assert!(range.contains(1500));
    assert!(!range.contains(500));
    assert!(!range.contains(2000));
}

#[test]
fn port_range_rejects_empty_range() {
    assert!(PortRange::new(2000, 2000).is_err());
    assert!(PortRange::new(2001, 2000).is_err());
    let r = PortRange::new(10, 20).unwrap().as_range();
    assert_eq!(r.start, 10);
    assert_eq!(r.end, 20);
}

#[test]
fn test_default_config() {
    let config = ClientConfig::default();
    assert!(config.tunnel_protocols.wireguard);
    assert_eq!(config.public_hostname_ipv4, None);
    assert_eq!(config.public_hostname_ipv6, None);
}

#[test]
fn default_config_values() {
    let config = ClientConfig::default();
    assert_eq!(config.daemon_socket, "/tmp/cat4igp-client.sock");
    assert_eq!(config.data_dir, "/var/lib/cat4igp-client");
    assert_eq!(config.port_range, PortRange { min: 51820, max: 52000 });
}

#[test]
fn test_server_config_creation() {
    let config = ServerConfig::new(
        "https://example.com:8443".to_string(),
        "invite123".to_string(),
    );
    assert_eq!(config.address, "https://example.com:8443");
    assert_eq!(config.invite_code, "invite123");
    assert!(config.verify_tls);
}

#[test]
fn test_get_host() {
    let config = ServerConfig::new(
        "https://example.com:8443".to_string(),
        "invite".to_string(),
    );
    assert_eq!(config.get_host(), "example.com");
}

#[test]
fn get_host_variants() {
    let host = |a: &str| ServerConfig::new(a.to_string(), "i".to_string()).get_host();
    assert_eq!(host("http://127.0.0.1:8080/api"), "127.0.0.1");
    assert_eq!(host("https://[::1]:8443/x"), "::1");
    assert_eq!(host("example.org"), "example.org");
    assert_eq!(host("http://example.org/path"), "example.org");
}

#[test]
fn test_uses_https() {
    let https_config = ServerConfig::new(
        "https://example.com".to_string(),
        "invite".to_string(),
    );
    assert!(https_config.uses_https());

    let http_config = ServerConfig::new(
        "http://example.com".to_string(),
        "invite".to_string(),
    );
    assert!(!http_config.uses_https());
}

#[test]
fn test_tls_verifier_creation() {
    let result = TlsVerifier::new(false);
    assert!(result.is_ok());
}

#[test]
fn test_tls_verifier_with_verification() {
    let result = TlsVerifier::new(true);
    assert!(result.is_ok());
}

#[test]
fn test_create_tls_config_for_https() {
    let config = ClientConfig::default();
    let result = create_tls_config(&config);
    assert!(result.is_ok());
}

#[test]
fn test_create_tls_config_for_http() {
    let config = ClientConfig::default();
    let result = create_tls_config(&config);
    assert!(result.is_ok());
}

#[test]
fn port_range_error_text() {
    assert_eq!(PortRange::new(5, 5).unwrap_err(), "min port must be less than max port");
}
