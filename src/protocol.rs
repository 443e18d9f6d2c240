//! The local control protocol between the CLI and the daemon: the shared
//! secret, message framing, and the daemon's answers to requests.

use crate::bytes::{be_bytes, be_value, push_be, read_be};
use crate::config::ServerConfig;
use crate::rng::random_below;
use vstd::prelude::*;
use vstd::string::*;

verus! {

/// Largest message body accepted, in bytes.
pub const MAX_MESSAGE_LEN: usize = 1048576;

/// Length of a generated shared secret.
pub const SECRET_LEN: usize = 32;

/// Characters a generated secret is drawn from.
pub const SECRET_CHARSET: &'static str = "ABCDEFGHIJKLMNOPQRSTUVWXYZabcdefghijklmnopqrstuvwxyz0123456789";

/// Request sent from the CLI to the daemon.
#[derive(Clone, Debug)]
pub enum DaemonRequest {
    Status,
    SetServer { address: String, invite_code: String, verify_tls: bool },
    GetServer,
    Register,
    Restart,
    Shutdown,
    GetConfig,
    ModifyConfig { public_hostname_ipv4: Option<String>, public_hostname_ipv6: Option<String> },
}

/// Response sent from the daemon to the CLI.
#[derive(Clone, Debug)]
pub enum DaemonResponse {
    /// Success with an optional message.
    Success(Option<String>),
    /// Failure with a message.
    Error(String),
    Status { running: bool, server_configured: bool, node_key_present: bool, message: Option<String> },
    ServerConfig { address: String, invite_code: String, verify_tls: bool, registered: bool },
    /// The daemon configuration as JSON text.
    Config(String),
}

/// Secret that every CLI message must carry.
pub struct SharedSecret {
    pub secret: String,
}

pub open spec fn is_secret_char(c: char) -> bool {
    ('A' <= c <= 'Z') || ('a' <= c <= 'z') || ('0' <= c <= '9')
}

impl SharedSecret {
    /// The secret whose characters are `SECRET_CHARSET` at the given indices.
    pub fn secret_from_indices(indices: &Vec<usize>) -> (r: String)
        requires
            forall|i: int| 0 <= i < indices@.len() ==> indices@[i] < 62,
        ensures
            r@.len() == indices@.len(),
            forall|i: int|
                0 <= i < indices@.len() ==> r@[i] == SECRET_CHARSET@[indices@[i] as int],
    {
        proof {
            reveal_strlit("ABCDEFGHIJKLMNOPQRSTUVWXYZabcdefghijklmnopqrstuvwxyz0123456789");
        }
        let mut r = String::new();
        let n = indices.len();
        let mut i: usize = 0;
        while i < n
            invariant
                n == indices@.len(),
                i <= n,
                SECRET_CHARSET@.len() == 62,
                forall|k: int| 0 <= k < indices@.len() ==> indices@[k] < 62,
                r@.len() == i,
                forall|k: int| 0 <= k < i ==> r@[k] == SECRET_CHARSET@[indices@[k] as int],
            decreases n - i,
        {
            let idx = indices[i];
            let piece = SECRET_CHARSET.substring_char(idx, idx + 1);
            r.append(piece);
            i = i + 1;
        }
        r
    }

    /// A fresh random secret of `SECRET_LEN` letters and digits.
    pub fn generate() -> (r: String)
        ensures
            r@.len() == SECRET_LEN,
            forall|i: int| 0 <= i < r@.len() ==> is_secret_char(#[trigger] r@[i]),
    {
        let mut indices: Vec<usize> = Vec::new();
        let mut i: usize = 0;
        while i < SECRET_LEN
            invariant
                i <= SECRET_LEN,
                indices@.len() == i,
                forall|k: int| 0 <= k < indices@.len() ==> indices@[k] < 62,
            decreases SECRET_LEN - i,
        {
            indices.push(random_below(62));
            i = i + 1;
        }
        let r = SharedSecret::secret_from_indices(&indices);
        proof {
            reveal_strlit("ABCDEFGHIJKLMNOPQRSTUVWXYZabcdefghijklmnopqrstuvwxyz0123456789");
            assert forall|i: int| 0 <= i < r@.len() implies is_secret_char(#[trigger] r@[i]) by {
                let k = indices@[i] as int;
                assert(0 <= k < 62);
                assert(r@[i] == SECRET_CHARSET@[k]);
            }
        }
        r
    }

    /// Whether `secret` matches, comparing every byte whatever the outcome.
    pub fn verify(&self, secret: &str) -> (r: bool)
        ensures
            r == (self.secret@ == secret@),
    {
        let a = self.secret.as_str().as_bytes();
        let b = secret.as_bytes();
        proof {
            vstd::utf8::encode_utf8_decode_utf8(self.secret@);
            vstd::utf8::encode_utf8_decode_utf8(secret@);
        }
        if a.len() != b.len() {
            return false;
        }
        let n = a.len();
        let mut acc: u8 = 0;
        let mut i: usize = 0;
        while i < n
            invariant
                n == a@.len(),
                n == b@.len(),
                i <= n,
                (acc == 0) == (forall|k: int| 0 <= k < i ==> a@[k] == b@[k]),
            decreases n - i,
        {
            let x = a[i];
            let y = b[i];
            let next = acc | (x ^ y);
            assert((next == 0) == (acc == 0 && x == y)) by (bit_vector)
                requires
                    next == acc | (x ^ y),
            ;
            acc = next;
            i = i + 1;
        }
        let r = acc == 0;
        proof {
            if r {
                assert(a@ =~= b@);
            }
        }
        r
    }

    pub fn value(&self) -> (r: &str)
        ensures
            r@ == self.secret@,
    {
        self.secret.as_str()
    }
}

/// Why a frame is refused.
#[derive(Clone, Copy, Debug, PartialEq, Eq, Structural)]
pub enum FrameError {
    /// The body would exceed `MAX_MESSAGE_LEN`.
    TooLarge,
}

/// Reads the 4-byte big-endian length that starts a frame.
pub fn frame_length(header: &[u8]) -> (r: Result<usize, FrameError>)
    requires
        header@.len() == 4,
    ensures
        be_value(header@) <= MAX_MESSAGE_LEN <==> r is Ok,
        r matches Ok(n) ==> n == be_value(header@),
{
    let v = read_be(header, 0, 4);
    assert(header@.subrange(0, 4) =~= header@);
    if v > MAX_MESSAGE_LEN as u128 {
        Err(FrameError::TooLarge)
    } else {
        Ok(v as usize)
    }
}

/// The 4-byte big-endian header for a body of `len` bytes.
pub fn frame_header(len: usize) -> (r: Result<Vec<u8>, FrameError>)
    ensures
        len <= MAX_MESSAGE_LEN <==> r is Ok,
        r matches Ok(h) ==> h@ == be_bytes(len as nat, 4) && be_value(h@) == len,
{
    if len > MAX_MESSAGE_LEN {
        return Err(FrameError::TooLarge);
    }
    let mut h: Vec<u8> = Vec::new();
    push_be(&mut h, len as u128, 4);
    proof {
        assert(h@ =~= be_bytes(len as nat, 4));
        crate::bytes::lemma_pow256_16();
        crate::bytes::lemma_be_round_trip_fits(len as nat, 4);
    }
    Ok(h)
}

/// What the daemon must do for a request.
#[derive(Clone, Debug)]
pub enum RequestPlan {
    /// Send this response.
    Respond(DaemonResponse),
    /// Persist this server configuration, then call `DaemonCore::commit_server`.
    SaveServer(ServerConfig),
    /// Serialise the daemon configuration and send it as `DaemonResponse::Config`.
    SendConfig,
}

/// The daemon's decision state.
pub struct DaemonCore {
    pub secret: SharedSecret,
    pub server_config: Option<ServerConfig>,
}

impl DaemonCore {
    /// Decides how to answer `req` carrying `auth_secret`.
    pub fn plan_request(&self, req: DaemonRequest, auth_secret: &str) -> (r: RequestPlan)
        ensures
            self.secret.secret@ != auth_secret@ ==> (r matches RequestPlan::Respond(
                DaemonResponse::Error(m),
            ) && m@ == "Authentication failed"@),
            self.secret.secret@ == auth_secret@ ==> match req {
                DaemonRequest::SetServer { address, invite_code, verify_tls } => r
                    == RequestPlan::SaveServer(
                    ServerConfig { address, invite_code, verify_tls, node_key: None },
                ),
                DaemonRequest::Register => match self.server_config {
                    Some(c) => r matches RequestPlan::SaveServer(n) && n.address == c.address
                        && n.invite_code == c.invite_code && n.verify_tls == c.verify_tls
                        && n.node_key is Some,
                    None => r matches RequestPlan::Respond(DaemonResponse::Error(_)),
                },
                DaemonRequest::GetConfig => r is SendConfig,
                DaemonRequest::Status => r matches RequestPlan::Respond(
                    DaemonResponse::Status { running, server_configured, node_key_present, message },
                ) && running && server_configured == self.server_config is Some
                    && node_key_present == (self.server_config matches Some(c) && c.node_key is Some)
                    && message is None,
                DaemonRequest::GetServer => match self.server_config {
                    Some(c) => r matches RequestPlan::Respond(
                        DaemonResponse::ServerConfig { address, invite_code, verify_tls, registered },
                    ) && address == c.address && invite_code == c.invite_code && verify_tls
                        == c.verify_tls && registered == c.node_key is Some,
                    None => r matches RequestPlan::Respond(DaemonResponse::Error(_)),
                },
                DaemonRequest::Restart | DaemonRequest::Shutdown => r matches RequestPlan::Respond(
                    DaemonResponse::Success(Some(_)),
                ),
                DaemonRequest::ModifyConfig { public_hostname_ipv4, public_hostname_ipv6 } => (
                public_hostname_ipv4 is Some || public_hostname_ipv6 is Some) <==> r matches RequestPlan::Respond(
                    DaemonResponse::Success(_),
                ),
            },
    {
        if !self.secret.verify(auth_secret) {
            return RequestPlan::Respond(
                DaemonResponse::Error(String::from_str("Authentication failed")),
            );
        }
        match req {
            DaemonRequest::Status => {
                let (configured, key) = match &self.server_config {
                    Some(c) => (true, c.node_key.is_some()),
                    None => (false, false),
                };
                RequestPlan::Respond(
                    DaemonResponse::Status {
                        running: true,
                        server_configured: configured,
                        node_key_present: key,
                        message: None,
                    },
                )
            },
            DaemonRequest::SetServer { address, invite_code, verify_tls } => RequestPlan::SaveServer(
                ServerConfig { address, invite_code, verify_tls, node_key: None },
            ),
            DaemonRequest::GetServer => match &self.server_config {
                Some(c) => RequestPlan::Respond(
                    DaemonResponse::ServerConfig {
                        address: c.address.clone(),
                        invite_code: c.invite_code.clone(),
                        verify_tls: c.verify_tls,
                        registered: c.node_key.is_some(),
                    },
                ),
                None => RequestPlan::Respond(
                    DaemonResponse::Error(String::from_str("Server not configured")),
                ),
            },
            DaemonRequest::Register => match &self.server_config {
                Some(c) => RequestPlan::SaveServer(
                    ServerConfig {
                        address: c.address.clone(),
                        invite_code: c.invite_code.clone(),
                        verify_tls: c.verify_tls,
                        node_key: Some(String::from_str("generated-node-key")),
                    },
                ),
                None => RequestPlan::Respond(
                    DaemonResponse::Error(String::from_str("Server not configured")),
                ),
            },
            DaemonRequest::Restart => RequestPlan::Respond(
                DaemonResponse::Success(Some(String::from_str("Restart signal sent"))),
            ),
            DaemonRequest::Shutdown => RequestPlan::Respond(
                DaemonResponse::Success(Some(String::from_str("Shutdown signal sent"))),
            ),
            DaemonRequest::GetConfig => RequestPlan::SendConfig,
            DaemonRequest::ModifyConfig { public_hostname_ipv4, public_hostname_ipv6 } => {
                if public_hostname_ipv4.is_some() || public_hostname_ipv6.is_some() {
                    RequestPlan::Respond(
                        DaemonResponse::Success(Some(String::from_str("Configuration change accepted"))),
                    )
                } else {
                    RequestPlan::Respond(
                        DaemonResponse::Error(
                            String::from_str("No configuration parameters provided"),
                        ),
                    )
                }
            },
        }
    }

    /// Records the outcome of persisting `config`: on success it becomes the
    /// server configuration; on failure nothing changes.
    pub fn commit_server(&mut self, config: ServerConfig, saved: bool) -> (r: DaemonResponse)
        ensures
            saved ==> final(self).server_config == Some(config) && r is Success,
            !saved ==> final(self).server_config == old(self).server_config && r is Error,
            final(self).secret == old(self).secret,
    {
        if !saved {
            return DaemonResponse::Error(String::from_str("Failed to save server config"));
        }
        let registered = config.node_key.is_some();
        self.server_config = Some(config);
        if registered {
            DaemonResponse::Success(Some(String::from_str("Registration successful")))
        } else {
            DaemonResponse::Success(Some(String::from_str("Server configuration set")))
        }
    }

    pub fn is_server_configured(&self) -> (r: bool)
        ensures
            r == self.server_config is Some,
    {
        self.server_config.is_some()
    }
}

/// Client end of the control socket.
pub struct DaemonClient {
    pub socket_path: String,
    pub secret: String,
}

impl DaemonClient {
    /// A client for the daemon listening on `socket_path`, presenting `secret`.
    pub fn new(socket_path: String, secret: &SharedSecret) -> (r: DaemonClient)
        ensures
            r.socket_path == socket_path,
            r.secret@ == secret.secret@,
    {
        DaemonClient { socket_path, secret: secret.secret.clone() }
    }
}

} // verus!
