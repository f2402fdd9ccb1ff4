//! Settings of a client.
use std::time::Duration;
use vstd::prelude::*;

verus! {

/// A number of seconds, as a duration.
pub uninterp spec fn seconds(n: u64) -> Duration;

/// `std::time::Duration::from_secs`: the duration of that many seconds.
pub assume_specification[ std::time::Duration::from_secs ](secs: u64) -> (d: Duration)
    ensures
        d == seconds(secs),
;

/// Settings of a client.
#[derive(Debug)]
pub struct ClientConfig {
    /// The address of the server.
    pub addr: String,
    /// The token that authenticates the client.
    pub token: String,
    /// Whether to encrypt the connection.
    pub tls: bool,
    /// How many connections to keep.
    pub pool_size: usize,
    /// How long to wait for a connection.
    pub connect_timeout: Duration,
    /// How long to wait for a reply.
    pub request_timeout: Duration,
    /// How often to try again to connect.
    pub max_retries: u32,
}

/// The contents of a `ClientConfig`.
pub struct ClientConfigView {
    pub addr: Seq<char>,
    pub token: Seq<char>,
    pub tls: bool,
    pub pool_size: usize,
    pub connect_timeout: Duration,
    pub request_timeout: Duration,
    pub max_retries: u32,
}

impl View for ClientConfig {
    type V = ClientConfigView;

    open spec fn view(&self) -> ClientConfigView {
        ClientConfigView {
            addr: self.addr@,
            token: self.token@,
            tls: self.tls,
            pool_size: self.pool_size,
            connect_timeout: self.connect_timeout,
            request_timeout: self.request_timeout,
            max_retries: self.max_retries,
        }
    }
}

/// The settings of a client of which nothing is said.
pub open spec fn default_config() -> ClientConfigView {
    ClientConfigView {
        addr: "localhost:7632"@,
        token: ""@,
        tls: false,
        pool_size: 8,
        connect_timeout: seconds(5),
        request_timeout: seconds(30),
        max_retries: 3,
    }
}

impl Default for ClientConfig {
    fn default() -> (r: Self)
        ensures
            r@ == default_config(),
    {
        ClientConfig {
            addr: "localhost:7632".to_owned(),
            token: "".to_owned(),
            tls: false,
            pool_size: 8,
            connect_timeout: Duration::from_secs(5),
            request_timeout: Duration::from_secs(30),
            max_retries: 3,
        }
    }
}

/// Gathers the settings of a client.
#[derive(Debug)]
pub struct ClientBuilder {
    config: ClientConfig,
}

impl View for ClientBuilder {
    type V = ClientConfigView;

    closed spec fn view(&self) -> ClientConfigView {
        self.config@
    }
}

impl ClientBuilder {
    /// The default settings, for a server at an address.
    pub fn new(addr: &str) -> (r: Self)
        ensures
            r@ == (ClientConfigView { addr: addr@, ..default_config() }),
    {
        ClientBuilder {
            config: ClientConfig { addr: addr.to_owned(), ..ClientConfig::default() },
        }
    }

    /// Sets the token.
    pub fn token(self, token: &str) -> (r: Self)
        ensures
            r@ == (ClientConfigView { token: token@, ..self@ }),
    {
        ClientBuilder { config: ClientConfig { token: token.to_owned(), ..self.config } }
    }

    /// Sets whether to encrypt the connection.
    pub fn tls(self, tls: bool) -> (r: Self)
        ensures
            r@ == (ClientConfigView { tls, ..self@ }),
    {
        ClientBuilder { config: ClientConfig { tls, ..self.config } }
    }

    /// Sets how many connections to keep.
    pub fn pool_size(self, pool_size: usize) -> (r: Self)
        ensures
            r@ == (ClientConfigView { pool_size, ..self@ }),
    {
        ClientBuilder { config: ClientConfig { pool_size, ..self.config } }
    }

    /// Sets how long to wait for a connection.
    pub fn connect_timeout(self, timeout: Duration) -> (r: Self)
        ensures
            r@ == (ClientConfigView { connect_timeout: timeout, ..self@ }),
    {
        ClientBuilder { config: ClientConfig { connect_timeout: timeout, ..self.config } }
    }

    /// Sets how long to wait for a reply.
    pub fn request_timeout(self, timeout: Duration) -> (r: Self)
        ensures
            r@ == (ClientConfigView { request_timeout: timeout, ..self@ }),
    {
        ClientBuilder { config: ClientConfig { request_timeout: timeout, ..self.config } }
    }

    /// Sets how often to try again to connect.
    pub fn max_retries(self, max_retries: u32) -> (r: Self)
        ensures
            r@ == (ClientConfigView { max_retries, ..self@ }),
    {
        ClientBuilder { config: ClientConfig { max_retries, ..self.config } }
    }

    /// The settings.
    pub fn into_config(self) -> (r: ClientConfig)
        ensures
            r@ == self@,
    {
        self.config
    }
}

} // verus!
