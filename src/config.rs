//! Client configuration: the daemon's own settings and the controller it
//! talks to.

use crate::text::{
    lemma_last_index_bounds,
    find_first_char,
    find_last_char,
    first_index_of,
    last_index_of,
    parse_trailing_port,
    starts_with_text,
    trailing_port,
};
use vstd::prelude::*;
use vstd::string::*;

verus! {

/// A half-open range of usable ports, `min` included, `max` excluded.
#[derive(Clone, Copy, Debug, PartialEq, Eq, Structural)]
pub struct PortRange {
    pub min: u16,
    pub max: u16,
}

impl PortRange {
    /// A range; `min` must be below `max`.
    pub fn new(min: u16, max: u16) -> (r: Result<PortRange, String>)
        ensures
            r is Ok <==> min < max,
            r matches Ok(p) ==> p == (PortRange { min, max }),
            r matches Err(e) ==> e@ == "min port must be less than max port"@,
    {
        if min >= max {
            proof {
                reveal_strlit("min port must be less than max port");
            }
            return Err(String::from_str("min port must be less than max port"));
        }
        Ok(PortRange { min, max })
    }

    pub fn as_range(&self) -> (r: std::ops::Range<u16>)
        ensures
            r.start == self.min,
            r.end == self.max,
    {
        std::ops::Range { start: self.min, end: self.max }
    }

    pub fn contains(&self, port: u16) -> (r: bool)
        ensures
            r == (self.min <= port < self.max),
    {
        port >= self.min && port < self.max
    }
}

/// Enabled tunnel protocols.
#[derive(Clone, Copy, Debug, PartialEq, Eq, Structural)]
pub struct TunnelProtocols {
    pub wireguard: bool,
}

/// Configuration of the client daemon.
#[derive(Clone, Debug)]
pub struct ClientConfig {
    /// Path of the daemon's socket.
    pub daemon_socket: String,
    /// Directory for working data.
    pub data_dir: String,
    /// Usable port range for tunnels.
    pub port_range: PortRange,
    pub tunnel_protocols: TunnelProtocols,
    /// Public IPv4 hostname offered in answers, if any.
    pub public_hostname_ipv4: Option<String>,
    /// Public IPv6 hostname offered in answers, if any.
    pub public_hostname_ipv6: Option<String>,
}

impl Default for ClientConfig {
    fn default() -> (r: ClientConfig)
        ensures
            r.daemon_socket@ == "/tmp/cat4igp-client.sock"@,
            r.data_dir@ == "/var/lib/cat4igp-client"@,
            r.port_range == (PortRange { min: 51820, max: 52000 }),
            r.tunnel_protocols.wireguard,
            r.public_hostname_ipv4 is None,
            r.public_hostname_ipv6 is None,
    {
        ClientConfig {
            daemon_socket: String::from_str("/tmp/cat4igp-client.sock"),
            data_dir: String::from_str("/var/lib/cat4igp-client"),
            port_range: PortRange { min: 51820, max: 52000 },
            tunnel_protocols: TunnelProtocols { wireguard: true },
            public_hostname_ipv4: None,
            public_hostname_ipv6: None,
        }
    }
}

/// TLS verification is on unless the stored configuration says otherwise.
pub fn default_tls_verify() -> (r: bool)
    ensures
        r,
{
    true
}

/// The controller this node registers with.
#[derive(Clone, Debug)]
pub struct ServerConfig {
    /// Server address, e.g. `https://example.com` or `http://127.0.0.1:8080`.
    pub address: String,
    /// Whether to verify TLS certificates (HTTPS only).
    pub verify_tls: bool,
    /// Invite code for registration.
    pub invite_code: String,
    /// Key obtained at registration.
    pub node_key: Option<String>,
}

pub open spec fn strip_scheme(a: Seq<char>) -> Seq<char> {
    if a.len() >= 8 && a.subrange(0, 8) == "https://"@ {
        a.subrange(8, a.len() as int)
    } else if a.len() >= 7 && a.subrange(0, 7) == "http://"@ {
        a.subrange(7, a.len() as int)
    } else {
        a
    }
}

/// The part of `s` before the first `c`.
pub open spec fn before_first(s: Seq<char>, c: char) -> Seq<char> {
    let i = first_index_of(s, c);
    if i < 0 {
        s
    } else {
        s.subrange(0, i)
    }
}

/// `[address]:port`, as an IPv6 socket address is written.
pub open spec fn is_bracketed(host: Seq<char>) -> bool {
    let e = last_index_of(host, ']');
    &&& host.len() > 0
    &&& host[0] == '['
    &&& e >= 1
    &&& last_index_of(host, ':') == e + 1
    &&& trailing_port(host) is Some
}

/// Host part of a server address: scheme and path removed, then the address
/// inside the brackets of `[address]:port`, or else everything before the
/// first `:`.
pub open spec fn host_of(address: Seq<char>) -> Seq<char> {
    let host = before_first(strip_scheme(address), '/');
    if is_bracketed(host) {
        host.subrange(1, last_index_of(host, ']'))
    } else {
        before_first(host, ':')
    }
}

fn prefix_before<'a>(s: &'a str, c: char) -> (r: &'a str)
    ensures
        r@ == before_first(s@, c),
{
    let n = s.unicode_len();
    match find_first_char(s, c) {
        Some(i) => s.substring_char(0, i),
        None => {
            proof {
                assert(s@.subrange(0, n as int) =~= s@);
            }
            s.substring_char(0, n)
        },
    }
}

impl ServerConfig {
    pub fn new(address: String, invite_code: String) -> (r: ServerConfig)
        ensures
            r.address == address,
            r.invite_code == invite_code,
            r.verify_tls,
            r.node_key is None,
    {
        ServerConfig { address, invite_code, verify_tls: true, node_key: None }
    }

    /// Whether the address uses HTTPS.
    pub fn uses_https(&self) -> (r: bool)
        ensures
            r == (self.address@.len() >= 8 && self.address@.subrange(0, 8) == "https://"@),
    {
        proof {
            reveal_strlit("https://");
        }
        starts_with_text(self.address.as_str(), "https://")
    }

    /// Host part of the server address.
    pub fn get_host(&self) -> (r: String)
        ensures
            r@ == host_of(self.address@),
    {
        let a = self.address.as_str();
        let n = a.unicode_len();
        proof {
            reveal_strlit("https://");
            reveal_strlit("http://");
        }
        let rest = if starts_with_text(a, "https://") {
            a.substring_char(8, n)
        } else if starts_with_text(a, "http://") {
            a.substring_char(7, n)
        } else {
            proof {
                assert(a@.subrange(0, n as int) =~= a@);
            }
            a.substring_char(0, n)
        };
        assert(rest@ == strip_scheme(a@));
        let host = prefix_before(rest, '/');
        let hn = host.unicode_len();
        let bracketed = if hn > 0 && host.get_char(0) == '[' {
            match (find_last_char(host, ']'), find_last_char(host, ':')) {
                (Some(e), Some(c)) => e >= 1 && c > e && c - e == 1 && parse_trailing_port(host).is_some(),
                _ => false,
            }
        } else {
            false
        };
        assert(bracketed == is_bracketed(host@));
        if bracketed {
            proof {
                lemma_last_index_bounds(host@, ']');
            }
            let e = find_last_char(host, ']');
            match e {
                Some(e) => String::from_str(host.substring_char(1, e)),
                None => String::new(),
            }
        } else {
            String::from_str(prefix_before(host, ':'))
        }
    }
}

/// Placeholder for certificate verification of the controller connection.
pub struct TlsVerifier;

/// Why TLS could not be configured.
#[derive(Clone, Copy, Debug, PartialEq, Eq, Structural)]
pub enum TlsError {
    Unsupported,
}

impl TlsVerifier {
    /// A verifier; verification itself is not performed yet.
    pub fn new(enable_verification: bool) -> (r: Result<TlsVerifier, TlsError>)
        ensures
            r is Ok,
    {
        Ok(TlsVerifier)
    }
}

/// TLS settings for controller connections; the server configuration lives
/// apart from `ClientConfig`, so there are none yet.
pub fn create_tls_config(client_config: &ClientConfig) -> (r: Result<Option<TlsVerifier>, TlsError>)
    ensures
        r matches Ok(v) && v is None,
{
    Ok(None)
}

} // verus!
