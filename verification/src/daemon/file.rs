//! Settings of the daemon, as a file holds them.
use crate::daemon::config::{
    AuthSection, ConfigSource, DispatcherSection, FileConfig, LogFormat, LoggingSection,
    ServerSection, StorageSection, TlsSection,
};
use crate::json::{
    as_list, as_text, as_uint, json_view, keys, member, object, parse_toml, toml_read, Json,
};
use crate::proto::fields::{by_place, lemma_uint_of, place_items, read_texts, texts_field, uint_of};
use crate::text::{contains_text, opt_text, owned_texts, slice_texts, texts};
use vstd::prelude::*;

verus! {

/// What a file of settings says.
#[verifier::ext_equal]
pub struct FileView {
    pub listen_addr: Seq<char>,
    pub metrics_addr: Seq<char>,
    pub data_dir: Seq<char>,
    pub cert_path: Option<Seq<char>>,
    pub key_path: Option<Seq<char>>,
    pub level: Seq<char>,
    pub format: LogFormat,
    pub interval_ms: u64,
    pub tokens: Seq<Seq<char>>,
}

impl View for FileConfig {
    type V = FileView;

    open spec fn view(&self) -> FileView {
        FileView {
            listen_addr: self.server.listen_addr@,
            metrics_addr: self.server.metrics_addr@,
            data_dir: self.storage.data_dir@,
            cert_path: opt_text(self.tls.cert_path),
            key_path: opt_text(self.tls.key_path),
            level: self.logging.level@,
            format: self.logging.format,
            interval_ms: self.dispatcher.interval_ms,
            tokens: texts(self.auth.tokens@),
        }
    }
}

// ---------------------------------------------------------------------------
// Sections
// ---------------------------------------------------------------------------

/// A section with its settings by name: those of a list go by their places, and
/// items beyond the known places are ignored.
pub open spec fn placed(j: Json, fields: Seq<Seq<char>>) -> Json {
    match j {
        Json::List(s) => Json::Object(
            by_place(
                s,
                fields,
                if s.len() < fields.len() {
                    s.len()
                } else {
                    fields.len()
                },
            ),
        ),
        _ => j,
    }
}

/// A section of a file; an empty one where it is missing.
pub open spec fn section(j: Json, name: Seq<char>, fields: Seq<Seq<char>>) -> Json {
    match j.member(name) {
        Some(s) => placed(s, fields),
        None => Json::Object(Map::empty()),
    }
}

/// Reads `section`.
fn read_section(v: &serde_json::Value, name: &str, fields: &[&str]) -> (r: serde_json::Value)
    ensures
        json_view(r) == section(json_view(*v), name@, slice_texts(fields@)),
{
    match member(v, name) {
        Some(s) => match as_list(&s) {
            Some(items) => if items.len() < fields.len() {
                place_items(&items, fields, items.len())
            } else {
                place_items(&items, fields, fields.len())
            },
            None => s,
        },
        None => object(),
    }
}

/// The server section of a file.
pub open spec fn server_section(j: Json) -> Json {
    section(j, "server"@, seq!["listen_addr"@, "metrics_addr"@])
}

/// The storage section of a file.
pub open spec fn storage_section(j: Json) -> Json {
    section(j, "storage"@, seq!["data_dir"@])
}

/// The TLS section of a file.
pub open spec fn tls_section(j: Json) -> Json {
    section(j, "tls"@, seq!["cert_path"@, "key_path"@])
}

/// The logging section of a file.
pub open spec fn logging_section(j: Json) -> Json {
    section(j, "logging"@, seq!["level"@, "format"@])
}

/// The dispatcher section of a file.
pub open spec fn dispatcher_section(j: Json) -> Json {
    section(j, "dispatcher"@, seq!["interval_ms"@])
}

/// The section of a file on authentication.
pub open spec fn auth_section(j: Json) -> Json {
    section(j, "auth"@, seq!["tokens"@])
}

/// Whether a value is an object with no other keys than these.
pub open spec fn only_keys(j: Json, known: Seq<Seq<char>>) -> bool {
    j is Object && forall|k: Seq<char>| #[trigger] j->Object_0.contains_key(k) ==> known.contains(k)
}

/// Checks `only_keys`.
fn has_only_keys(v: &serde_json::Value, known: &[&str]) -> (r: bool)
    ensures
        r == only_keys(json_view(*v), slice_texts(known@)),
{
    let allowed = owned_texts(known);
    let found = match keys(v) {
        Some(ks) => ks,
        None => {
            return false;
        },
    };
    let ghost names = texts(found@);
    let mut i: usize = 0;
    while i < found.len()
        invariant
            i <= found@.len(),
            names == texts(found@),
            texts(allowed@) == slice_texts(known@),
            json_view(*v) is Object,
            forall|k: Seq<char>| #[trigger]
                names.contains(k) <==> json_view(*v)->Object_0.contains_key(k),
            forall|k: int| 0 <= k < i ==> slice_texts(known@).contains(#[trigger] names[k]),
        decreases found@.len() - i,
    {
        assert(names[i as int] == found@[i as int]@);
        if !contains_text(&allowed, found[i].as_str()) {
            proof {
                assert(names.contains(names[i as int]));
                assert(json_view(*v)->Object_0.contains_key(names[i as int]));
            }
            return false;
        }
        i = i + 1;
    }
    assert forall|k: Seq<char>| #[trigger] json_view(*v)->Object_0.contains_key(k) implies slice_texts(
        known@,
    ).contains(k) by {
        assert(names.contains(k));
        let n = choose|n: int| 0 <= n < names.len() && names[n] == k;
        assert(slice_texts(known@).contains(names[n]));
    }
    true
}

// ---------------------------------------------------------------------------
// Settings
// ---------------------------------------------------------------------------

/// A text, or what stands for a missing one.
pub open spec fn text_or(j: Json, key: Seq<char>, missing: Seq<char>) -> Option<Seq<char>> {
    match j.member(key) {
        Some(Json::Text(t)) => Some(t),
        Some(_) => None,
        None => Some(missing),
    }
}

/// Reads `text_or`.
fn read_text_or(v: &serde_json::Value, key: &str, missing: &str) -> (r: Option<String>)
    ensures
        opt_text(r) == text_or(json_view(*v), key@, missing@),
{
    match member(v, key) {
        Some(m) => as_text(&m),
        None => Some(missing.to_owned()),
    }
}

/// A text that may be missing.
pub open spec fn text_if_any(j: Json, key: Seq<char>) -> Option<Option<Seq<char>>> {
    match j.member(key) {
        Some(Json::Text(t)) => Some(Some(t)),
        Some(_) => None,
        None => Some(None),
    }
}

/// Reads `text_if_any`.
fn read_text_if_any(v: &serde_json::Value, key: &str) -> (r: Option<Option<String>>)
    ensures
        crate::proto::fields::opt_opt_text(r) == text_if_any(json_view(*v), key@),
{
    match member(v, key) {
        Some(m) => match as_text(&m) {
            Some(t) => Some(Some(t)),
            None => None,
        },
        None => Some(None),
    }
}

/// A number, or what stands for a missing one.
pub open spec fn uint_or(j: Json, key: Seq<char>, missing: u64) -> Option<u64> {
    match j.member(key) {
        Some(v) => uint_of(v),
        None => Some(missing),
    }
}

/// Reads `uint_or`.
fn read_uint_or(v: &serde_json::Value, key: &str, missing: u64) -> (r: Option<u64>)
    ensures
        r == uint_or(json_view(*v), key@, missing),
{
    match member(v, key) {
        Some(m) => {
            let r = as_uint(&m);
            proof {
                if r is Some {
                    lemma_uint_of(r->0);
                }
            }
            r
        },
        None => Some(missing),
    }
}

/// A list of texts; an empty one where it is missing.
pub open spec fn texts_or_none(j: Json, key: Seq<char>) -> Option<Seq<Seq<char>>> {
    if j.member(key) is None {
        Some(Seq::empty())
    } else {
        texts_field(j, key)
    }
}

/// Reads `texts_or_none`.
fn read_texts_if_any(v: &serde_json::Value, key: &str) -> (r: Option<Vec<String>>)
    ensures
        crate::proto::fields::opt_texts(r) == texts_or_none(json_view(*v), key@),
{
    match member(v, key) {
        Some(_) => read_texts(v, key),
        None => {
            let none: Vec<String> = Vec::new();
            assert(texts(none@) =~= Seq::<Seq<char>>::empty());
            Some(none)
        },
    }
}

/// Whether a value is a list or an object with nothing in it.
pub open spec fn is_vacant(j: Json) -> bool {
    match j {
        Json::List(s) => s.len() == 0,
        Json::Object(_) => only_keys(j, Seq::empty()),
        _ => false,
    }
}

/// Checks `is_vacant`.
fn has_nothing(v: &serde_json::Value) -> (r: bool)
    ensures
        r == is_vacant(json_view(*v)),
{
    let none: [&str; 0] = [];
    assert(slice_texts(none@) =~= Seq::<Seq<char>>::empty());
    match as_list(v) {
        Some(items) => items.len() == 0,
        None => has_only_keys(v, &none),
    }
}

/// Whether a value names a choice: it is the name, or an object with nothing but
/// an empty member of that name.
pub open spec fn names_choice(j: Json, name: Seq<char>) -> bool {
    ||| j == Json::Text(name)
    ||| only_keys(j, seq![name]) && j.member(name) is Some && is_vacant(j.member(name)->0)
}

/// Checks `names_choice`.
fn is_choice(v: &serde_json::Value, name: &str) -> (r: bool)
    ensures
        r == names_choice(json_view(*v), name@),
{
    let only: [&str; 1] = [name];
    assert(slice_texts(only@) =~= seq![name@]);
    match as_text(v) {
        Some(t) => *t.as_str() == *name,
        None => has_only_keys(v, &only) && match member(v, name) {
            Some(m) => has_nothing(&m),
            None => false,
        },
    }
}

/// The way of logging that a section asks for.
pub open spec fn format_in(j: Json) -> Option<LogFormat> {
    match j.member("format"@) {
        Some(f) => if names_choice(f, "json"@) {
            Some(LogFormat::Json)
        } else if names_choice(f, "text"@) {
            Some(LogFormat::Text)
        } else {
            None
        },
        None => Some(LogFormat::Json),
    }
}

/// Reads `format_in`.
fn read_format(v: &serde_json::Value) -> (r: Option<LogFormat>)
    ensures
        r == format_in(json_view(*v)),
{
    match member(v, "format") {
        Some(f) => if is_choice(&f, "json") {
            Some(LogFormat::Json)
        } else if is_choice(&f, "text") {
            Some(LogFormat::Text)
        } else {
            None
        },
        None => Some(LogFormat::Json),
    }
}

// ---------------------------------------------------------------------------
// Files
// ---------------------------------------------------------------------------

/// Whether a file has no section and no setting that is not known.
pub open spec fn only_known(j: Json) -> bool {
    &&& only_keys(
        j,
        seq!["server"@, "storage"@, "tls"@, "logging"@, "dispatcher"@, "auth"@],
    )
    &&& only_keys(server_section(j), seq!["listen_addr"@, "metrics_addr"@])
    &&& only_keys(storage_section(j), seq!["data_dir"@])
    &&& only_keys(tls_section(j), seq!["cert_path"@, "key_path"@])
    &&& only_keys(logging_section(j), seq!["level"@, "format"@])
    &&& only_keys(dispatcher_section(j), seq!["interval_ms"@])
    &&& only_keys(auth_section(j), seq!["tokens"@])
}

/// The settings that a value stands for, if it stands for any: what is not said
/// is as it is without a file, and nothing unknown may be said.
pub open spec fn file_at(j: Json) -> Option<FileView> {
    match (
        text_or(server_section(j), "listen_addr"@, "0.0.0.0:7632"@),
        text_or(server_section(j), "metrics_addr"@, "0.0.0.0:7633"@),
        text_or(storage_section(j), "data_dir"@, "data"@),
        text_if_any(tls_section(j), "cert_path"@),
        text_if_any(tls_section(j), "key_path"@),
        text_or(logging_section(j), "level"@, "info"@),
        format_in(logging_section(j)),
        uint_or(dispatcher_section(j), "interval_ms"@, 100),
        texts_or_none(auth_section(j), "tokens"@),
    ) {
        (
            Some(listen_addr),
            Some(metrics_addr),
            Some(data_dir),
            Some(cert_path),
            Some(key_path),
            Some(level),
            Some(format),
            Some(interval_ms),
            Some(tokens),
        ) => if only_known(j) {
            Some(
                FileView {
                    listen_addr,
                    metrics_addr,
                    data_dir,
                    cert_path,
                    key_path,
                    level,
                    format,
                    interval_ms,
                    tokens,
                },
            )
        } else {
            None
        },
        _ => None,
    }
}

/// Reads the settings that a value stands for.
pub fn read_file_config(v: &serde_json::Value) -> (r: Option<FileConfig>)
    ensures
        match r {
            Some(c) => file_at(json_view(*v)) == Some(c@),
            None => file_at(json_view(*v)) is None,
        },
{
    let sections: [&str; 6] = ["server", "storage", "tls", "logging", "dispatcher", "auth"];
    let in_server: [&str; 2] = ["listen_addr", "metrics_addr"];
    let in_storage: [&str; 1] = ["data_dir"];
    let in_tls: [&str; 2] = ["cert_path", "key_path"];
    let in_logging: [&str; 2] = ["level", "format"];
    let in_dispatcher: [&str; 1] = ["interval_ms"];
    let in_auth: [&str; 1] = ["tokens"];
    proof {
        assert(slice_texts(sections@) =~= seq![
            "server"@,
            "storage"@,
            "tls"@,
            "logging"@,
            "dispatcher"@,
            "auth"@,
        ]);
        assert(slice_texts(in_server@) =~= seq!["listen_addr"@, "metrics_addr"@]);
        assert(slice_texts(in_storage@) =~= seq!["data_dir"@]);
        assert(slice_texts(in_tls@) =~= seq!["cert_path"@, "key_path"@]);
        assert(slice_texts(in_logging@) =~= seq!["level"@, "format"@]);
        assert(slice_texts(in_dispatcher@) =~= seq!["interval_ms"@]);
        assert(slice_texts(in_auth@) =~= seq!["tokens"@]);
    }
    let server = read_section(v, "server", &in_server);
    let storage = read_section(v, "storage", &in_storage);
    let tls = read_section(v, "tls", &in_tls);
    let logging = read_section(v, "logging", &in_logging);
    let dispatcher = read_section(v, "dispatcher", &in_dispatcher);
    let auth = read_section(v, "auth", &in_auth);
    if !has_only_keys(v, &sections) || !has_only_keys(&server, &in_server) || !has_only_keys(
        &storage,
        &in_storage,
    ) || !has_only_keys(&tls, &in_tls) || !has_only_keys(&logging, &in_logging) || !has_only_keys(
        &dispatcher,
        &in_dispatcher,
    ) || !has_only_keys(&auth, &in_auth) {
        return None;
    }
    match (
        read_text_or(&server, "listen_addr", "0.0.0.0:7632"),
        read_text_or(&server, "metrics_addr", "0.0.0.0:7633"),
        read_text_or(&storage, "data_dir", "data"),
        read_text_if_any(&tls, "cert_path"),
        read_text_if_any(&tls, "key_path"),
        read_text_or(&logging, "level", "info"),
        read_format(&logging),
        read_uint_or(&dispatcher, "interval_ms", 100),
        read_texts_if_any(&auth, "tokens"),
    ) {
        (
            Some(listen_addr),
            Some(metrics_addr),
            Some(data_dir),
            Some(cert_path),
            Some(key_path),
            Some(level),
            Some(format),
            Some(interval_ms),
            Some(tokens),
        ) => Some(
            FileConfig {
                server: ServerSection { listen_addr, metrics_addr },
                storage: StorageSection { data_dir },
                tls: TlsSection { cert_path, key_path },
                logging: LoggingSection { level, format },
                dispatcher: DispatcherSection { interval_ms },
                auth: AuthSection { tokens },
            },
        ),
        _ => None,
    }
}

/// The settings that a text stands for, or the complaint about it.
pub open spec fn settings_in(text: Seq<char>) -> Result<FileView, Seq<char>> {
    match toml_read(text) {
        Ok(j) => match file_at(j) {
            Some(f) => Ok(f),
            None => Err("unknown or malformed setting"@),
        },
        Err(why) => Err(why),
    }
}

/// Reads the text of a file of settings.
pub fn parse_file(text: &str) -> (r: Result<FileConfig, String>)
    ensures
        match r {
            Ok(c) => settings_in(text@) == Ok::<FileView, Seq<char>>(c@),
            Err(e) => settings_in(text@) == Err::<FileView, Seq<char>>(e@),
        },
{
    match parse_toml(text) {
        Ok(v) => match read_file_config(&v) {
            Some(c) => Ok(c),
            None => Err("unknown or malformed setting".to_owned()),
        },
        Err(e) => Err(e),
    }
}

/// How it went to read a file.
#[derive(Debug)]
pub enum FileOutcome {
    /// The file holds this text.
    Text(String),
    /// There is no such file.
    Missing,
    /// The file could not be read.
    Unreadable(String),
}

/// The settings to start from, given how it went to read a file. A file that is
/// missing is an error only where it was asked for by name.
pub fn load(path: &str, explicit: bool, outcome: FileOutcome) -> (r: Result<
    (FileConfig, ConfigSource),
    String,
>)
    ensures
        match (outcome, r) {
            (FileOutcome::Text(t), Ok((f, ConfigSource::File(p)))) => p@ == path@ && settings_in(t@)
                == Ok::<FileView, Seq<char>>(f@),
            (FileOutcome::Text(t), Err(e)) => settings_in(t@) is Err && e@
                == "parsing config file '"@ + path@ + "': "@ + settings_in(t@)->Err_0,
            (FileOutcome::Missing, Ok((f, ConfigSource::Defaults))) => !explicit && f.is_default(),
            (FileOutcome::Missing, Err(e)) => explicit && e@ == "reading config file '"@ + path@
                + "': not found"@,
            (FileOutcome::Unreadable(why), Err(e)) => e@ == "reading config file '"@ + path@
                + "': "@ + why@,
            _ => false,
        },
{
    match outcome {
        FileOutcome::Text(t) => match parse_file(t.as_str()) {
            Ok(c) => Ok((c, ConfigSource::File(path.to_owned()))),
            Err(why) => Err(
                "parsing config file '".to_owned().concat(path).concat("': ").concat(why.as_str()),
            ),
        },
        FileOutcome::Missing => if explicit {
            Err("reading config file '".to_owned().concat(path).concat("': not found"))
        } else {
            Ok((FileConfig::default(), ConfigSource::Defaults))
        },
        FileOutcome::Unreadable(why) => Err(
            "reading config file '".to_owned().concat(path).concat("': ").concat(why.as_str()),
        ),
    }
}

/// A file that says nothing leaves everything as it is without a file.
pub proof fn law_empty_file_is_default(c: FileConfig)
    requires
        file_at(Json::Object(Map::empty())) == Some(c@),
    ensures
        c.is_default(),
{
    let none = Json::Object(Map::<Seq<char>, Json>::empty());
    assert(server_section(none) == none);
    assert(storage_section(none) == none);
    assert(tls_section(none) == none);
    assert(logging_section(none) == none);
    assert(dispatcher_section(none) == none);
    assert(auth_section(none) == none);
    assert(texts(c.auth.tokens@).len() == 0);
}

/// A file with a setting that is not known is refused.
pub proof fn law_unknown_settings_are_refused(j: Json, key: Seq<char>)
    requires
        server_section(j) is Object,
        server_section(j)->Object_0.contains_key(key),
        key != "listen_addr"@,
        key != "metrics_addr"@,
    ensures
        file_at(j) is None,
{
    let known = seq!["listen_addr"@, "metrics_addr"@];
    if only_keys(server_section(j), known) {
        assert(known.contains(key));
        let i = choose|i: int| 0 <= i < known.len() && known[i] == key;
        assert(i == 0 || i == 1);
    }
}

} // verus!
