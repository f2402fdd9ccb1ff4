//! Settings of the daemon.
use crate::text::{
    contains_text, is_empty_text, opt_text, owned_texts, parts, split_text, texts, trim, trimmed,
};
use vstd::prelude::*;

verus! {

// ---------------------------------------------------------------------------
// The settings in a file
// ---------------------------------------------------------------------------

/// Where to listen.
#[derive(Debug)]
pub struct ServerSection {
    pub listen_addr: String,
    pub metrics_addr: String,
}

impl Default for ServerSection {
    fn default() -> (r: Self)
        ensures
            r.listen_addr@ == "0.0.0.0:7632"@,
            r.metrics_addr@ == "0.0.0.0:7633"@,
    {
        ServerSection {
            listen_addr: "0.0.0.0:7632".to_owned(),
            metrics_addr: "0.0.0.0:7633".to_owned(),
        }
    }
}

/// Where to keep the data.
#[derive(Debug)]
pub struct StorageSection {
    pub data_dir: String,
}

impl Default for StorageSection {
    fn default() -> (r: Self)
        ensures
            r.data_dir@ == "data"@,
    {
        StorageSection { data_dir: "data".to_owned() }
    }
}

/// How to encrypt connections.
#[derive(Debug)]
pub struct TlsSection {
    pub cert_path: Option<String>,
    pub key_path: Option<String>,
}

impl Default for TlsSection {
    fn default() -> (r: Self)
        ensures
            r.cert_path is None,
            r.key_path is None,
    {
        TlsSection { cert_path: None, key_path: None }
    }
}

/// How log lines are written.
#[derive(Debug, Clone, Copy, PartialEq, Eq, Structural)]
pub enum LogFormat {
    Json,
    Text,
}

/// What to log.
#[derive(Debug)]
pub struct LoggingSection {
    pub level: String,
    pub format: LogFormat,
}

impl Default for LoggingSection {
    fn default() -> (r: Self)
        ensures
            r.level@ == "info"@,
            r.format == LogFormat::Json,
    {
        LoggingSection { level: "info".to_owned(), format: LogFormat::Json }
    }
}

/// How often to deliver records.
#[derive(Debug)]
pub struct DispatcherSection {
    pub interval_ms: u64,
}

impl Default for DispatcherSection {
    fn default() -> (r: Self)
        ensures
            r.interval_ms == 100,
    {
        DispatcherSection { interval_ms: 100 }
    }
}

/// Who may connect.
#[derive(Debug)]
pub struct AuthSection {
    pub tokens: Vec<String>,
}

impl Default for AuthSection {
    fn default() -> (r: Self)
        ensures
            r.tokens@.len() == 0,
    {
        AuthSection { tokens: Vec::new() }
    }
}

/// The settings in a file.
#[derive(Debug)]
pub struct FileConfig {
    pub server: ServerSection,
    pub storage: StorageSection,
    pub tls: TlsSection,
    pub logging: LoggingSection,
    pub dispatcher: DispatcherSection,
    pub auth: AuthSection,
}

impl Default for FileConfig {
    fn default() -> (r: Self)
        ensures
            r.is_default(),
    {
        FileConfig {
            server: ServerSection::default(),
            storage: StorageSection::default(),
            tls: TlsSection::default(),
            logging: LoggingSection::default(),
            dispatcher: DispatcherSection::default(),
            auth: AuthSection::default(),
        }
    }
}

impl FileConfig {
    /// Whether these are the settings of a daemon without a file.
    pub open spec fn is_default(self) -> bool {
        &&& self.server.listen_addr@ == "0.0.0.0:7632"@
        &&& self.server.metrics_addr@ == "0.0.0.0:7633"@
        &&& self.storage.data_dir@ == "data"@
        &&& self.tls.cert_path is None
        &&& self.tls.key_path is None
        &&& self.logging.level@ == "info"@
        &&& self.logging.format == LogFormat::Json
        &&& self.dispatcher.interval_ms == 100
        &&& self.auth.tokens@.len() == 0
    }
}

/// Where settings came from.
#[derive(Debug)]
pub enum ConfigSource {
    File(String),
    Defaults,
}

// ---------------------------------------------------------------------------
// The settings in force
// ---------------------------------------------------------------------------

/// The settings in force.
#[derive(Debug)]
pub struct Config {
    pub listen_addr: String,
    pub metrics_addr: String,
    pub data_dir: String,
    pub log_level: String,
    pub log_format: LogFormat,
    pub dispatcher_interval_ms: u64,
    pub tls_cert_path: Option<String>,
    pub tls_key_path: Option<String>,
    pub auth_tokens: Vec<String>,
}

/// Settings given when the daemon is started, in place of those in the file.
#[derive(Debug)]
pub struct Overrides {
    pub listen_addr: Option<String>,
    pub metrics_addr: Option<String>,
    pub data_dir: Option<String>,
    pub log_level: Option<String>,
    pub tls_cert_path: Option<String>,
    pub tls_key_path: Option<String>,
    pub auth_tokens: Option<Vec<String>>,
}

/// What is given, or else what was there.
pub open spec fn given_or(given: Option<String>, there: Seq<char>) -> Seq<char> {
    match given {
        Some(s) => s@,
        None => there,
    }
}

/// What is given, or else what was there.
fn either(given: Option<String>, there: String) -> (r: String)
    ensures
        r@ == given_or(given, there@),
{
    match given {
        Some(s) => s,
        None => there,
    }
}

/// What is given, or else what may have been there.
fn either_of(given: Option<String>, there: Option<String>) -> (r: Option<String>)
    ensures
        opt_text(r) == (if given is Some {
            opt_text(given)
        } else {
            opt_text(there)
        }),
{
    match given {
        Some(s) => Some(s),
        None => there,
    }
}

/// What is known of the things that settings name.
#[derive(Debug, Clone, Copy)]
pub struct Surroundings {
    /// Whether `listen_addr` is an address and a port.
    pub listen_addr_parses: bool,
    /// Whether `metrics_addr` is an address and a port.
    pub metrics_addr_parses: bool,
    /// Whether the certificate is a file.
    pub cert_is_file: bool,
    /// Whether the private key is a file.
    pub key_is_file: bool,
}

/// The levels of logging.
pub open spec fn log_levels() -> Seq<Seq<char>> {
    seq!["trace"@, "debug"@, "info"@, "warn"@, "error"@]
}

/// Why settings cannot be used, if they cannot.
pub open spec fn config_fault(c: Config, around: Surroundings) -> Option<Seq<char>> {
    if !around.listen_addr_parses {
        Some("invalid listen_addr '"@ + c.listen_addr@ + "'"@)
    } else if !around.metrics_addr_parses {
        Some("invalid metrics_addr '"@ + c.metrics_addr@ + "'"@)
    } else if !log_levels().contains(c.log_level@) {
        Some(
            "invalid log level '"@ + c.log_level@
                + "' (expected one of [\"trace\", \"debug\", \"info\", \"warn\", \"error\"])"@,
        )
    } else if c.dispatcher_interval_ms == 0 {
        Some("dispatcher interval_ms must be greater than 0"@)
    } else if c.tls_cert_path is Some != c.tls_key_path is Some {
        Some("tls cert_path and key_path must be set together"@)
    } else if c.tls_cert_path is Some && !around.cert_is_file {
        Some(
            "tls cert_path '"@ + c.tls_cert_path->0@ + "' does not exist or is not a file"@,
        )
    } else if c.tls_key_path is Some && !around.key_is_file {
        Some("tls key_path '"@ + c.tls_key_path->0@ + "' does not exist or is not a file"@)
    } else {
        None
    }
}

impl Config {
    /// The settings in force: what is given when the daemon is started comes
    /// before what the file says.
    pub fn resolve(file: FileConfig, given: Overrides) -> (r: Config)
        ensures
            r.listen_addr@ == given_or(given.listen_addr, file.server.listen_addr@),
            r.metrics_addr@ == given_or(given.metrics_addr, file.server.metrics_addr@),
            r.data_dir@ == given_or(given.data_dir, file.storage.data_dir@),
            r.log_level@ == given_or(given.log_level, file.logging.level@),
            r.log_format == file.logging.format,
            r.dispatcher_interval_ms == file.dispatcher.interval_ms,
            opt_text(r.tls_cert_path) == (if given.tls_cert_path is Some {
                opt_text(given.tls_cert_path)
            } else {
                opt_text(file.tls.cert_path)
            }),
            opt_text(r.tls_key_path) == (if given.tls_key_path is Some {
                opt_text(given.tls_key_path)
            } else {
                opt_text(file.tls.key_path)
            }),
            r.auth_tokens == (match given.auth_tokens {
                Some(tokens) => tokens,
                None => file.auth.tokens,
            }),
    {
        Config {
            listen_addr: either(given.listen_addr, file.server.listen_addr),
            metrics_addr: either(given.metrics_addr, file.server.metrics_addr),
            data_dir: either(given.data_dir, file.storage.data_dir),
            log_level: either(given.log_level, file.logging.level),
            log_format: file.logging.format,
            dispatcher_interval_ms: file.dispatcher.interval_ms,
            tls_cert_path: either_of(given.tls_cert_path, file.tls.cert_path),
            tls_key_path: either_of(given.tls_key_path, file.tls.key_path),
            auth_tokens: match given.auth_tokens {
                Some(tokens) => tokens,
                None => file.auth.tokens,
            },
        }
    }

    /// Checks the settings, given what is known of what they name.
    pub fn validate(&self, around: &Surroundings) -> (r: Result<(), String>)
        ensures
            match r {
                Ok(()) => config_fault(*self, *around) is None,
                Err(e) => config_fault(*self, *around) == Some(e@),
            },
    {
        if !around.listen_addr_parses {
            return Err(
                "invalid listen_addr '".to_owned().concat(self.listen_addr.as_str()).concat("'"),
            );
        }
        if !around.metrics_addr_parses {
            return Err(
                "invalid metrics_addr '".to_owned().concat(self.metrics_addr.as_str()).concat("'"),
            );
        }
        let known: [&str; 5] = ["trace", "debug", "info", "warn", "error"];
        let levels = owned_texts(&known);
        assert(texts(levels@) =~= log_levels());
        if !contains_text(&levels, self.log_level.as_str()) {
            return Err(
                "invalid log level '".to_owned().concat(self.log_level.as_str()).concat(
                    "' (expected one of [\"trace\", \"debug\", \"info\", \"warn\", \"error\"])",
                ),
            );
        }
        if self.dispatcher_interval_ms == 0 {
            return Err("dispatcher interval_ms must be greater than 0".to_owned());
        }
        match (&self.tls_cert_path, &self.tls_key_path) {
            (Some(cert), Some(key)) => {
                if !around.cert_is_file {
                    return Err(
                        "tls cert_path '".to_owned().concat(cert.as_str()).concat(
                            "' does not exist or is not a file",
                        ),
                    );
                }
                if !around.key_is_file {
                    return Err(
                        "tls key_path '".to_owned().concat(key.as_str()).concat(
                            "' does not exist or is not a file",
                        ),
                    );
                }
                Ok(())
            },
            (None, None) => Ok(()),
            _ => Err("tls cert_path and key_path must be set together".to_owned()),
        }
    }
}

/// The tokens in a list that is separated by commas.
pub open spec fn tokens_in(s: Seq<char>) -> Seq<Seq<char>> {
    parts(s, ',').map_values(|t: Seq<char>| trimmed(t)).filter(|t: Seq<char>| t.len() > 0)
}

/// Reads a list of tokens that is separated by commas.
pub fn parse_tokens(s: &str) -> (r: Vec<String>)
    ensures
        texts(r@) == tokens_in(s@),
{
    let all = split_text(s, ',');
    let ghost pieces = texts(all@).map_values(|t: Seq<char>| trimmed(t));
    let ghost stays = |t: Seq<char>| t.len() > 0;
    let mut r: Vec<String> = Vec::new();
    let mut i: usize = 0;
    assert(texts(r@) =~= pieces.take(0).filter(stays)) by {
        reveal_with_fuel(Seq::filter, 1);
    }
    while i < all.len()
        invariant
            i <= all@.len(),
            pieces == texts(all@).map_values(|t: Seq<char>| trimmed(t)),
            stays == (|t: Seq<char>| t.len() > 0),
            texts(r@) == pieces.take(i as int).filter(stays),
        decreases all@.len() - i,
    {
        let ghost before = r@;
        proof {
            assert(pieces[i as int] == trimmed(all@[i as int]@));
            assert(pieces.take(i + 1).drop_last() =~= pieces.take(i as int));
            reveal_with_fuel(Seq::filter, 1);
        }
        let token = trim(all[i].as_str());
        if !is_empty_text(token.as_str()) {
            r.push(token);
            assert(texts(r@) =~= texts(before).push(pieces[i as int]));
        }
        i = i + 1;
    }
    assert(pieces.take(i as int) =~= pieces);
    assert(stays =~= (|t: Seq<char>| t.len() > 0));
    r
}

/// Without a file and without any other word, the settings can be used.
pub proof fn law_default_config_is_valid(c: Config, file: FileConfig)
    requires
        file.is_default(),
        c.listen_addr@ == file.server.listen_addr@,
        c.log_level@ == file.logging.level@,
        c.dispatcher_interval_ms == file.dispatcher.interval_ms,
        c.tls_cert_path == file.tls.cert_path,
        c.tls_key_path == file.tls.key_path,
    ensures
        config_fault(
            c,
            (Surroundings {
                listen_addr_parses: true,
                metrics_addr_parses: true,
                cert_is_file: false,
                key_is_file: false,
            }),
        ) is None,
{
    assert(log_levels()[2] == "info"@);
    assert(log_levels().contains("info"@));
}

} // verus!
