//! What the settings of the daemon come to, and what it says of itself.
use crate::daemon::config::{
    config_fault, log_levels, parse_tokens, Config, ConfigSource, FileConfig, LogFormat, Overrides,
    Surroundings,
};
use crate::daemon::file::{
    auth_section, dispatcher_section, file_at, load, logging_section, parse_file, read_file_config,
    server_section, storage_section, tls_section, FileOutcome,
};
use crate::daemon::health::{handle_health, metric, MetricsSnapshot};
use crate::json::{json_view, Json};
use crate::proto::fields::uint_of;
use crate::text::{decimal, opt_text, texts};
use vstd::prelude::*;

verus! {

/// What is given when the daemon is started comes before what the file says; what is
/// not given is as the file says.
pub proof fn law_what_is_given_comes_first(file: FileConfig, given: Overrides, r: Config)
    requires
        call_ensures(Config::resolve, (file, given), r),
    ensures
        r.listen_addr@ == (if given.listen_addr is Some {
            given.listen_addr->0@
        } else {
            file.server.listen_addr@
        }),
        r.metrics_addr@ == (if given.metrics_addr is Some {
            given.metrics_addr->0@
        } else {
            file.server.metrics_addr@
        }),
        r.data_dir@ == (if given.data_dir is Some {
            given.data_dir->0@
        } else {
            file.storage.data_dir@
        }),
        r.log_level@ == (if given.log_level is Some {
            given.log_level->0@
        } else {
            file.logging.level@
        }),
        match (given.tls_cert_path, file.tls.cert_path) {
            (Some(s), _) => r.tls_cert_path matches Some(x) && x@ == s@,
            (None, Some(s)) => r.tls_cert_path matches Some(x) && x@ == s@,
            (None, None) => r.tls_cert_path is None,
        },
        match (given.tls_key_path, file.tls.key_path) {
            (Some(s), _) => r.tls_key_path matches Some(x) && x@ == s@,
            (None, Some(s)) => r.tls_key_path matches Some(x) && x@ == s@,
            (None, None) => r.tls_key_path is None,
        },
        texts(r.auth_tokens@) == (match given.auth_tokens {
            Some(x) => texts(x@),
            None => texts(file.auth.tokens@),
        }),
        r.log_format == file.logging.format,
        r.dispatcher_interval_ms == file.dispatcher.interval_ms,
{
}

/// Settings are accepted exactly where both addresses can be parsed, the level of
/// logging is known, the interval is not zero, and a certificate and a key are named
/// together or not at all, and are files.
pub proof fn law_usable_settings_are_accepted(
    c: Config,
    around: Surroundings,
    r: Result<(), String>,
)
    requires
        call_ensures(Config::validate, (&c, &around), r),
    ensures
        r is Ok <==> {
            &&& around.listen_addr_parses && around.metrics_addr_parses
            &&& c.log_level@ == "trace"@ || c.log_level@ == "debug"@ || c.log_level@ == "info"@
                || c.log_level@ == "warn"@ || c.log_level@ == "error"@
            &&& c.dispatcher_interval_ms > 0
            &&& c.tls_cert_path is Some <==> c.tls_key_path is Some
            &&& c.tls_cert_path is Some ==> around.cert_is_file && around.key_is_file
        },
{
    let levels = log_levels();
    assert(levels[0] == "trace"@ && levels[1] == "debug"@ && levels[2] == "info"@ && levels[3]
        == "warn"@ && levels[4] == "error"@ && levels.len() == 5);
    if levels.contains(c.log_level@) {
        let i = levels.index_of(c.log_level@);
        assert(0 <= i < 5);
    }
    assert(r is Ok <==> config_fault(c, around) is None);
}

/// The member of a section of a file, by the names of both.
pub open spec fn member_of(j: Json, section: Seq<char>, key: Seq<char>) -> Option<Json> {
    match j.member(section) {
        Some(s) => s.member(key),
        None => None,
    }
}

/// Each setting is read from the member of the section that has its name; where there
/// is none, it is as it is without a file.
pub proof fn law_settings_are_read_by_name(v: serde_json::Value, c: FileConfig)
    requires
        call_ensures(read_file_config, (&v,), Some(c)),
        forall|k: Seq<char>| !(#[trigger] json_view(v).member(k) matches Some(Json::List(_))),
    ensures
        c.server.listen_addr@ == (match member_of(json_view(v), "server"@, "listen_addr"@) {
            Some(Json::Text(x)) => x,
            _ => "0.0.0.0:7632"@,
        }),
        c.server.metrics_addr@ == (match member_of(json_view(v), "server"@, "metrics_addr"@) {
            Some(Json::Text(x)) => x,
            _ => "0.0.0.0:7633"@,
        }),
        c.storage.data_dir@ == (match member_of(json_view(v), "storage"@, "data_dir"@) {
            Some(Json::Text(x)) => x,
            _ => "data"@,
        }),
        c.logging.level@ == (match member_of(json_view(v), "logging"@, "level"@) {
            Some(Json::Text(x)) => x,
            _ => "info"@,
        }),
        opt_text(c.tls.cert_path) == (match member_of(json_view(v), "tls"@, "cert_path"@) {
            Some(Json::Text(x)) => Some(x),
            _ => None::<Seq<char>>,
        }),
        opt_text(c.tls.key_path) == (match member_of(json_view(v), "tls"@, "key_path"@) {
            Some(Json::Text(x)) => Some(x),
            _ => None::<Seq<char>>,
        }),
        match member_of(json_view(v), "dispatcher"@, "interval_ms"@) {
            Some(x) => x == Json::uint(c.dispatcher.interval_ms as nat),
            None => c.dispatcher.interval_ms == 100,
        },
        match member_of(json_view(v), "auth"@, "tokens"@) {
            Some(x) => x matches Json::List(l) && l.len() == c.auth.tokens@.len() && forall|i: int|
                0 <= i < l.len() ==> #[trigger] l[i] == Json::Text(c.auth.tokens@[i]@),
            None => c.auth.tokens@.len() == 0,
        },
        match member_of(json_view(v), "logging"@, "format"@) {
            Some(x) => (x == Json::Text("json"@) ==> c.logging.format == LogFormat::Json) && (x
                == Json::Text("text"@) ==> c.logging.format == LogFormat::Text),
            None => c.logging.format == LogFormat::Json,
        },
{
    let j = json_view(v);
    assert(file_at(j) == Some(c@));
    assert forall|x: Json, n: u64| #[trigger] uint_of(x) == Some(n) implies x
        == #[trigger] Json::uint(n as nat) by {}
    assert(j.member("server"@) is Some ==> server_section(j) == j.member("server"@)->0);
    assert(j.member("storage"@) is Some ==> storage_section(j) == j.member("storage"@)->0);
    assert(j.member("tls"@) is Some ==> tls_section(j) == j.member("tls"@)->0);
    assert(j.member("logging"@) is Some ==> logging_section(j) == j.member("logging"@)->0);
    assert(j.member("dispatcher"@) is Some ==> dispatcher_section(j) == j.member("dispatcher"@)->0);
    assert(j.member("auth"@) is Some ==> auth_section(j) == j.member("auth"@)->0);
    assert(texts(c.auth.tokens@).len() == c.auth.tokens@.len());
    assert forall|i: int| 0 <= i < c.auth.tokens@.len() implies texts(c.auth.tokens@)[i] == (
    #[trigger] c.auth.tokens@[i])@ by {}
    reveal_strlit("json");
    reveal_strlit("text");
    assert("json"@[0] == 'j' && "text"@[0] == 't');
}

/// A file that can be read gives its settings, and its path; one that is missing gives
/// the defaults, unless it was asked for by name; one that cannot be read or parsed is
/// an error.
pub proof fn law_files_are_loaded(
    path: &str,
    explicit: bool,
    outcome: FileOutcome,
    r: Result<(FileConfig, ConfigSource), String>,
    text: &str,
    parsed: Result<FileConfig, String>,
)
    requires
        call_ensures(load, (path, explicit, outcome), r),
        call_ensures(parse_file, (text,), parsed),
        outcome matches FileOutcome::Text(t) ==> t@ == text@,
    ensures
        match outcome {
            FileOutcome::Text(_) => match parsed {
                Ok(c) => r matches Ok((f, s)) && f@ == c@ && (s matches ConfigSource::File(p) && p@
                    == path@),
                Err(_) => r is Err,
            },
            FileOutcome::Missing => if explicit {
                r is Err
            } else {
                r matches Ok((f, s)) && s is Defaults && f.is_default()
            },
            FileOutcome::Unreadable(_) => r is Err,
        },
{
}

/// No token that is read from a list is empty.
pub proof fn law_tokens_are_not_empty(s: &str, r: Vec<String>)
    requires
        call_ensures(parse_tokens, (s,), r),
    ensures
        forall|i: int| 0 <= i < r@.len() ==> (#[trigger] r@[i])@.len() > 0,
{
    let all = crate::text::parts(s@, ',').map_values(|t: Seq<char>| crate::text::trimmed(t));
    let stays = |t: Seq<char>| t.len() > 0;
    assert(texts(r@) == all.filter(stays));
    assert forall|i: int| 0 <= i < r@.len() implies (#[trigger] r@[i])@.len() > 0 by {
        all.lemma_filter_pred(stays, i);
        assert(texts(r@)[i] == r@[i]@);
    }
}

/// The daemon answers on three paths and on no other.
pub proof fn law_health_is_told(path: &str, m: MetricsSnapshot, r: (u16, String))
    requires
        call_ensures(handle_health, (path, &m), r),
    ensures
        r.0 == 200 <==> path@ == "/healthz"@ || path@ == "/readyz"@ || path@ == "/metrics"@,
        r.0 == 200 || r.0 == 404,
        path@ == "/healthz"@ ==> r.1@ == "{\"status\":\"ok\"}"@,
        path@ == "/readyz"@ ==> r.1@ == "{\"status\":\"ready\"}"@,
{
    reveal_strlit("/healthz");
    reveal_strlit("/readyz");
    reveal_strlit("/metrics");
    assert("/healthz"@[1] == 'h' && "/readyz"@[1] == 'r' && "/metrics"@[1] == 'm');
}

/// The metrics tell each number behind its name, one after the other.
pub proof fn law_metrics_tell_the_numbers(path: &str, m: MetricsSnapshot, r: (u16, String)) -> (cut:
    Seq<Seq<char>>)
    requires
        call_ensures(handle_health, (path, &m), r),
        path@ == "/metrics"@,
    ensures
        cut.len() == 4,
        r.1@ == cut[0] + cut[1] + cut[2] + cut[3],
        ("smdbd_uptime_seconds "@ + decimal(m.uptime_secs as nat) + "\n"@).is_suffix_of(cut[0]),
        ("smdbd_transitions_total "@ + decimal(m.transitions_total as nat) + "\n"@).is_suffix_of(
            cut[1],
        ),
        ("smdbd_connections_total "@ + decimal(m.connections_total as nat) + "\n"@).is_suffix_of(
            cut[2],
        ),
        ("smdbd_connections_active "@ + decimal(m.connections_active as nat)
            + "\n"@).is_suffix_of(cut[3]),
{
    reveal_strlit("/healthz");
    reveal_strlit("/readyz");
    reveal_strlit("/metrics");
    assert("/healthz"@[1] == 'h' && "/readyz"@[1] == 'r' && "/metrics"@[1] == 'm');
    reveal_strlit(" ");
    reveal_strlit("smdbd_uptime_seconds");
    reveal_strlit("smdbd_uptime_seconds ");
    reveal_strlit("smdbd_transitions_total");
    reveal_strlit("smdbd_transitions_total ");
    reveal_strlit("smdbd_connections_total");
    reveal_strlit("smdbd_connections_total ");
    reveal_strlit("smdbd_connections_active");
    reveal_strlit("smdbd_connections_active ");
    assert("smdbd_uptime_seconds "@ =~= "smdbd_uptime_seconds"@ + " "@);
    assert("smdbd_transitions_total "@ =~= "smdbd_transitions_total"@ + " "@);
    assert("smdbd_connections_total "@ =~= "smdbd_connections_total"@ + " "@);
    assert("smdbd_connections_active "@ =~= "smdbd_connections_active"@ + " "@);
    let a = metric(
        "smdbd_uptime_seconds"@,
        "Daemon uptime in seconds"@,
        "gauge"@,
        m.uptime_secs,
    );
    let b = metric(
        "smdbd_transitions_total"@,
        "Total transitions processed"@,
        "counter"@,
        m.transitions_total,
    );
    let c = metric(
        "smdbd_connections_total"@,
        "Total accepted connections"@,
        "counter"@,
        m.connections_total,
    );
    let d = metric(
        "smdbd_connections_active"@,
        "Currently active connections"@,
        "gauge"@,
        m.connections_active,
    );
    lemma_ends(
        "smdbd_uptime_seconds"@,
        "Daemon uptime in seconds"@,
        "gauge"@,
        m.uptime_secs,
    );
    lemma_ends(
        "smdbd_transitions_total"@,
        "Total transitions processed"@,
        "counter"@,
        m.transitions_total,
    );
    lemma_ends(
        "smdbd_connections_total"@,
        "Total accepted connections"@,
        "counter"@,
        m.connections_total,
    );
    lemma_ends(
        "smdbd_connections_active"@,
        "Currently active connections"@,
        "gauge"@,
        m.connections_active,
    );
    seq![a, b, c, d]
}

/// A metric ends with its name and its number.
proof fn lemma_ends(name: Seq<char>, about: Seq<char>, kind: Seq<char>, n: u64)
    ensures
        (name + " "@ + decimal(n as nat) + "\n"@).is_suffix_of(metric(name, about, kind, n)),
{
    let tail = name + " "@ + decimal(n as nat) + "\n"@;
    let head = "# HELP "@ + name + " "@ + about + "\n# TYPE "@ + name + " "@ + kind + "\n"@;
    let all = metric(name, about, kind, n);
    assert(all =~= head + tail);
    assert(all.skip(all.len() - tail.len()) =~= tail);
}

} // verus!
