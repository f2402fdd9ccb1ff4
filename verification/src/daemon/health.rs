//! What the daemon says of itself over HTTP.
use crate::text::{decimal, decimal_of};
use vstd::prelude::*;

verus! {

/// Numbers that the daemon keeps of itself.
#[derive(Debug, Clone, Copy)]
pub struct MetricsSnapshot {
    /// For how many seconds it has run.
    pub uptime_secs: u64,
    /// How many transitions were made.
    pub transitions_total: u64,
    /// How many connections were accepted.
    pub connections_total: u64,
    /// How many connections are open.
    pub connections_active: u64,
}

/// One number, with what it is and how it moves.
pub open spec fn metric(name: Seq<char>, about: Seq<char>, kind: Seq<char>, n: u64) -> Seq<char> {
    "# HELP "@ + name + " "@ + about + "\n# TYPE "@ + name + " "@ + kind + "\n"@ + name + " "@
        + decimal(n as nat) + "\n"@
}

/// One number, with what it is and how it moves.
fn metric_text(name: &str, about: &str, kind: &str, n: u64) -> (r: String)
    ensures
        r@ == metric(name@, about@, kind@, n),
{
    "# HELP ".to_owned().concat(name).concat(" ").concat(about).concat("\n# TYPE ").concat(
        name,
    ).concat(" ").concat(kind).concat("\n").concat(name).concat(" ").concat(
        decimal_of(n).as_str(),
    ).concat("\n")
}

/// All numbers.
pub open spec fn metrics(m: MetricsSnapshot) -> Seq<char> {
    metric("smdbd_uptime_seconds"@, "Daemon uptime in seconds"@, "gauge"@, m.uptime_secs) + metric(
        "smdbd_transitions_total"@,
        "Total transitions processed"@,
        "counter"@,
        m.transitions_total,
    ) + metric(
        "smdbd_connections_total"@,
        "Total accepted connections"@,
        "counter"@,
        m.connections_total,
    ) + metric(
        "smdbd_connections_active"@,
        "Currently active connections"@,
        "gauge"@,
        m.connections_active,
    )
}

/// The status and the body of the reply to a path.
pub open spec fn health_reply(path: Seq<char>, m: MetricsSnapshot) -> (u16, Seq<char>) {
    if path == "/healthz"@ {
        (200, "{\"status\":\"ok\"}"@)
    } else if path == "/readyz"@ {
        (200, "{\"status\":\"ready\"}"@)
    } else if path == "/metrics"@ {
        (200, metrics(m))
    } else {
        (404, "{\"error\":\"not found\"}"@)
    }
}

/// The status and the body of the reply to a path.
pub fn handle_health(path: &str, m: &MetricsSnapshot) -> (r: (u16, String))
    ensures
        (r.0, r.1@) == health_reply(path@, *m),
{
    if *path == *"/healthz" {
        (200, "{\"status\":\"ok\"}".to_owned())
    } else if *path == *"/readyz" {
        (200, "{\"status\":\"ready\"}".to_owned())
    } else if *path == *"/metrics" {
        let uptime = metric_text(
            "smdbd_uptime_seconds",
            "Daemon uptime in seconds",
            "gauge",
            m.uptime_secs,
        );
        let transitions = metric_text(
            "smdbd_transitions_total",
            "Total transitions processed",
            "counter",
            m.transitions_total,
        );
        let total = metric_text(
            "smdbd_connections_total",
            "Total accepted connections",
            "counter",
            m.connections_total,
        );
        let active = metric_text(
            "smdbd_connections_active",
            "Currently active connections",
            "gauge",
            m.connections_active,
        );
        (
            200,
            uptime.concat(transitions.as_str()).concat(total.as_str()).concat(active.as_str()),
        )
    } else {
        (404, "{\"error\":\"not found\"}".to_owned())
    }
}

} // verus!
