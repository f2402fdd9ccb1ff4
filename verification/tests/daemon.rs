use statemaster::daemon::config::{
    parse_tokens, Config, ConfigSource, FileConfig, LogFormat, Overrides, Surroundings,
};
use statemaster::daemon::file::{load, parse_file, FileOutcome};
use statemaster::daemon::health::{handle_health, MetricsSnapshot};

const EXAMPLE_CONFIG: &str = r#"
[server]
listen_addr = "0.0.0.0:7632"
metrics_addr = "0.0.0.0:7633"

[storage]
data_dir = "/var/lib/statemaster/data"

[logging]
level = "info"
format = "json"

[dispatcher]
interval_ms = 100

[tls]
cert_path = "/etc/statemaster/cert.pem"
key_path = "/etc/statemaster/key.pem"

[auth]
tokens = ["changeme"]
"#;

fn resolved(file: FileConfig) -> Config {
    Config {
        listen_addr: file.server.listen_addr,
        metrics_addr: file.server.metrics_addr,
        data_dir: file.storage.data_dir,
        log_level: file.logging.level,
        log_format: file.logging.format,
        dispatcher_interval_ms: file.dispatcher.interval_ms,
        tls_cert_path: None,
        tls_key_path: None,
        auth_tokens: file.auth.tokens,
    }
}

/// What the daemon finds out about the settings before it checks them.
fn around(c: &Config) -> Surroundings {
    let is_file = |p: &Option<String>| {
        p.as_ref().map(|p| std::path::Path::new(p).is_file()).unwrap_or(false)
    };
    Surroundings {
        listen_addr_parses: c.listen_addr.rsplit_once(':').is_some(),
        metrics_addr_parses: c.metrics_addr.rsplit_once(':').is_some(),
        cert_is_file: is_file(&c.tls_cert_path),
        key_is_file: is_file(&c.tls_key_path),
    }
}

fn validate(c: &Config) -> Result<(), String> {
    c.validate(&around(c))
}

#[test]
fn default_config_validates() {
    let cfg = resolved(FileConfig::default());
    assert!(validate(&cfg).is_ok());
    assert_eq!(cfg.listen_addr, "0.0.0.0:7632");
    assert_eq!(cfg.dispatcher_interval_ms, 100);
    assert_eq!(cfg.log_format, LogFormat::Json);
}

#[test]
fn example_config_parses_and_validates() {
    let file = parse_file(EXAMPLE_CONFIG).unwrap();
    assert_eq!(file.storage.data_dir, "/var/lib/statemaster/data");
    assert_eq!(file.auth.tokens, vec!["changeme"]);
    assert_eq!(file.tls.cert_path.as_deref(), Some("/etc/statemaster/cert.pem"));
    // TLS paths don't exist on the test machine, so validate without them.
    let cfg = resolved(file);
    assert!(validate(&cfg).is_ok());
}

#[test]
fn empty_file_uses_defaults() {
    let file = parse_file("").unwrap();
    assert_eq!(file.server.listen_addr, "0.0.0.0:7632");
    assert_eq!(file.logging.level, "info");
    assert!(file.auth.tokens.is_empty());
}

#[test]
fn unknown_keys_are_rejected() {
    let res = parse_file("[server]\nlisten = \"0.0.0.0:1\"\n");
    assert!(res.is_err());
}

#[test]
fn invalid_addr_fails_validation() {
    let mut cfg = resolved(FileConfig::default());
    cfg.listen_addr = "not-an-addr".to_string();
    assert!(validate(&cfg).is_err());
}

#[test]
fn invalid_log_level_fails_validation() {
    let mut cfg = resolved(FileConfig::default());
    cfg.log_level = "verbose".to_string();
    assert!(validate(&cfg).is_err());
}

#[test]
fn zero_dispatcher_interval_fails_validation() {
    let mut cfg = resolved(FileConfig::default());
    cfg.dispatcher_interval_ms = 0;
    assert!(validate(&cfg).is_err());
}

#[test]
fn tls_paths_must_be_paired() {
    let mut cfg = resolved(FileConfig::default());
    cfg.tls_cert_path = Some("/tmp/cert.pem".to_string());
    assert!(validate(&cfg).is_err());
}

#[test]
fn log_format_text_parses() {
    let file = parse_file("[logging]\nformat = \"text\"\n").unwrap();
    assert_eq!(file.logging.format, LogFormat::Text);
}

#[test]
fn settings_may_go_by_places() {
    let c = parse_file("server = [\"a:1\"]\ntls = [\"c\", \"k\", \"more\"]\nauth = [[\"t\"]]").unwrap();
    assert_eq!(c.server.listen_addr, "a:1");
    assert_eq!(c.server.metrics_addr, "0.0.0.0:7633");
    assert_eq!(c.tls.cert_path, Some("c".to_string()));
    assert_eq!(c.tls.key_path, Some("k".to_string()));
    assert_eq!(c.auth.tokens, vec!["t".to_string()]);
    assert_eq!(parse_file("storage = []").unwrap().storage.data_dir, "data");
    assert_eq!(parse_file("dispatcher = [7]").unwrap().dispatcher.interval_ms, 7);
    assert!(parse_file("dispatcher = [\"x\"]").is_err());
    let format = |s: &str| parse_file(s).map(|c| c.logging.format);
    assert_eq!(format("logging = [\"warn\", \"text\"]"), Ok(LogFormat::Text));
    assert_eq!(format("[logging.format.text]"), Ok(LogFormat::Text));
    assert_eq!(format("[logging]\nformat = { json = [] }"), Ok(LogFormat::Json));
    assert!(format("[logging]\nformat = { json = 1 }").is_err());
    assert!(format("[logging]\nformat = { json = {}, text = {} }").is_err());
    assert!(format("[logging]\nformat = { xml = {} }").is_err());
}

#[test]
fn malformed_files_are_refused() {
    for text in [
        "[server",
        "colour = 1",
        "[nonsense]",
        "server = 3",
        "[server]\nlisten_addr = 7",
        "[dispatcher]\ninterval_ms = -1",
        "[dispatcher]\ninterval_ms = \"100\"",
        "[logging]\nformat = \"xml\"",
        "[auth]\ntokens = [1]",
        "[auth]\ntokens = \"a\"",
        "[tls]\ncert_path = nan",
    ] {
        assert!(parse_file(text).is_err(), "{}", text);
    }
    assert_eq!(parse_file("[dispatcher]\ninterval_ms = 7").unwrap().dispatcher.interval_ms, 7);
}

#[test]
fn complaints_name_the_setting() {
    let c = resolved(FileConfig::default());
    let fine = around(&c);
    let told = |c: &Config, s: Surroundings| c.validate(&s).unwrap_err();
    assert_eq!(
        told(&c, Surroundings { listen_addr_parses: false, ..fine }),
        "invalid listen_addr '0.0.0.0:7632'"
    );
    assert_eq!(
        told(&c, Surroundings { metrics_addr_parses: false, ..fine }),
        "invalid metrics_addr '0.0.0.0:7633'"
    );
    let mut c = resolved(FileConfig::default());
    c.log_level = "loud".to_string();
    assert_eq!(
        told(&c, fine),
        "invalid log level 'loud' (expected one of [\"trace\", \"debug\", \"info\", \"warn\", \"error\"])"
    );
    let mut c = resolved(FileConfig::default());
    c.tls_cert_path = Some("c".to_string());
    assert_eq!(told(&c, fine), "tls cert_path and key_path must be set together");
    c.tls_key_path = Some("k".to_string());
    assert_eq!(told(&c, fine), "tls cert_path 'c' does not exist or is not a file");
    let half = Surroundings { cert_is_file: true, ..fine };
    assert_eq!(told(&c, half), "tls key_path 'k' does not exist or is not a file");
    assert!(c.validate(&Surroundings { key_is_file: true, ..half }).is_ok());
}

#[test]
fn missing_file_is_an_error_only_by_name() {
    match load("x.toml", false, FileOutcome::Missing) {
        Ok((c, ConfigSource::Defaults)) => assert_eq!(c.dispatcher.interval_ms, 100),
        other => panic!("unexpected: {:?}", other),
    }
    assert!(load("x.toml", true, FileOutcome::Missing).is_err());
    match load("x.toml", true, FileOutcome::Text("[storage]\ndata_dir = \"d\"".to_string())) {
        Ok((c, ConfigSource::File(p))) => {
            assert_eq!(p, "x.toml");
            assert_eq!(c.storage.data_dir, "d");
        }
        other => panic!("unexpected: {:?}", other),
    }
    let e = load("x.toml", false, FileOutcome::Text("[".to_string())).unwrap_err();
    assert_eq!(e, format!("parsing config file 'x.toml': {}", parse_file("[").unwrap_err()));
    assert_eq!(
        parse_file("[").unwrap_err(),
        "TOML parse error at line 1, column 1\n  |\n1 | [\n  | ^\ninvalid table header\n"
    );
    let e = load("x.toml", false, FileOutcome::Text("colour = 1".to_string())).unwrap_err();
    assert_eq!(e, "parsing config file 'x.toml': unknown or malformed setting");
    let e = load("x.toml", false, FileOutcome::Unreadable("why".to_string())).unwrap_err();
    assert_eq!(e, "reading config file 'x.toml': why");
}

fn nothing_given() -> Overrides {
    Overrides {
        listen_addr: None,
        metrics_addr: None,
        data_dir: None,
        log_level: None,
        tls_cert_path: None,
        tls_key_path: None,
        auth_tokens: None,
    }
}

#[test]
fn what_is_given_comes_before_the_file() {
    let c = Config::resolve(parse_file(EXAMPLE_CONFIG).unwrap(), nothing_given());
    assert_eq!(c.data_dir, "/var/lib/statemaster/data");
    assert_eq!(c.tls_key_path.as_deref(), Some("/etc/statemaster/key.pem"));
    assert_eq!(c.auth_tokens, vec!["changeme"]);
    let given = Overrides {
        data_dir: Some("d".to_string()),
        tls_key_path: Some("k".to_string()),
        auth_tokens: Some(vec!["t".to_string()]),
        ..nothing_given()
    };
    let c = Config::resolve(parse_file(EXAMPLE_CONFIG).unwrap(), given);
    assert_eq!(c.data_dir, "d");
    assert_eq!(c.tls_key_path.as_deref(), Some("k"));
    assert_eq!(c.tls_cert_path.as_deref(), Some("/etc/statemaster/cert.pem"));
    assert_eq!(c.auth_tokens, vec!["t"]);
    assert_eq!(c.listen_addr, "0.0.0.0:7632");
}

#[test]
fn tokens_are_separated_by_commas() {
    assert_eq!(parse_tokens(" a ,b,, \t,c d "), vec!["a", "b", "c d"]);
    assert!(parse_tokens("").is_empty());
    assert!(parse_tokens(" , ").is_empty());
    assert_eq!(parse_tokens("x"), vec!["x"]);
}

#[test]
fn health_is_told() {
    let m = MetricsSnapshot {
        uptime_secs: 12,
        transitions_total: 34,
        connections_total: 5,
        connections_active: 1,
    };
    assert_eq!(handle_health("/healthz", &m), (200, "{\"status\":\"ok\"}".to_string()));
    assert_eq!(handle_health("/readyz", &m), (200, "{\"status\":\"ready\"}".to_string()));
    assert_eq!(handle_health("/x", &m), (404, "{\"error\":\"not found\"}".to_string()));
    let (status, body) = handle_health("/metrics", &m);
    assert_eq!(status, 200);
    assert_eq!(
        body,
        "# HELP smdbd_uptime_seconds Daemon uptime in seconds\n\
         # TYPE smdbd_uptime_seconds gauge\n\
         smdbd_uptime_seconds 12\n\
         # HELP smdbd_transitions_total Total transitions processed\n\
         # TYPE smdbd_transitions_total counter\n\
         smdbd_transitions_total 34\n\
         # HELP smdbd_connections_total Total accepted connections\n\
         # TYPE smdbd_connections_total counter\n\
         smdbd_connections_total 5\n\
         # HELP smdbd_connections_active Currently active connections\n\
         # TYPE smdbd_connections_active gauge\n\
         smdbd_connections_active 1\n"
    );
}
