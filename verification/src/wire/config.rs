//! Settings of a server.
use crate::proto::constants::MAX_FRAME_SIZE;
use crate::text::{contains_text, texts};
use vstd::prelude::*;

verus! {

/// Settings of a server.
#[derive(Debug)]
pub struct ServerConfig {
    /// The address to listen on.
    pub listen_addr: String,
    /// The certificate; without one connections are not encrypted.
    pub tls_cert_path: Option<String>,
    /// The private key; without one connections are not encrypted.
    pub tls_key_path: Option<String>,
    /// The tokens that authenticate a client. Without any, nobody can.
    pub auth_tokens: Vec<String>,
    /// How many clients may be connected at once.
    pub max_connections: usize,
    /// The longest body that a frame may have.
    pub max_frame_size: u32,
}

impl Default for ServerConfig {
    fn default() -> (r: Self)
        ensures
            r.listen_addr@ == "0.0.0.0:7632"@,
            r.tls_cert_path is None,
            r.tls_key_path is None,
            r.auth_tokens@.len() == 0,
            r.max_connections == 1024,
            r.max_frame_size == MAX_FRAME_SIZE,
    {
        ServerConfig {
            listen_addr: "0.0.0.0:7632".to_owned(),
            tls_cert_path: None,
            tls_key_path: None,
            auth_tokens: Vec::new(),
            max_connections: 1024,
            max_frame_size: MAX_FRAME_SIZE,
        }
    }
}

impl ServerConfig {
    /// Whether a token authenticates a client.
    pub fn accepts_token(&self, token: &str) -> (r: bool)
        ensures
            r == texts(self.auth_tokens@).contains(token@),
    {
        contains_text(&self.auth_tokens, token)
    }

    /// The certificate and key, where connections are to be encrypted: both
    /// have to be named.
    pub fn tls_files(&self) -> (r: Option<(&String, &String)>)
        ensures
            match r {
                Some(f) => self.tls_cert_path == Some(*f.0) && self.tls_key_path == Some(*f.1),
                None => self.tls_cert_path is None || self.tls_key_path is None,
            },
    {
        match (&self.tls_cert_path, &self.tls_key_path) {
            (Some(cert), Some(key)) => Some((cert, key)),
            _ => None,
        }
    }

    /// Whether one more client may connect.
    pub fn admits(&self, connected: usize) -> (r: bool)
        ensures
            r == (connected < self.max_connections),
    {
        connected < self.max_connections
    }
}

} // verus!
