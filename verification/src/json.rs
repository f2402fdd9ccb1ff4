//! JSON values: what they hold, and how they are made, read, copied and written.
use crate::text::decimal;
use vstd::prelude::*;

verus! {

#[verifier::external_type_specification]
#[verifier::external_body]
pub struct ExJsonValue(serde_json::Value);

/// What a JSON value holds. A number is known by its text.
pub enum Json {
    Null,
    Bool(bool),
    Number(Seq<char>),
    Text(Seq<char>),
    List(Seq<Json>),
    Object(Map<Seq<char>, Json>),
}

/// What a value holds.
pub uninterp spec fn json_view(v: serde_json::Value) -> Json;

/// What comes of reading a JSON text: the value that it stands for, or the
/// complaint of the reader where the text is not JSON.
pub uninterp spec fn json_read(text: Seq<char>) -> Result<Json, Seq<char>>;

/// What comes of reading a TOML text: the value that it stands for, or the
/// complaint of the reader where the text is not TOML.
pub uninterp spec fn toml_read(text: Seq<char>) -> Result<Json, Seq<char>>;

/// The value that a JSON text stands for; `None` where the text is not JSON.
pub open spec fn json_at(text: Seq<char>) -> Option<Json> {
    match json_read(text) {
        Ok(v) => Some(v),
        Err(_) => None,
    }
}

/// What the reader says of a text that is not JSON.
pub open spec fn json_fault(text: Seq<char>) -> Seq<char> {
    json_read(text)->Err_0
}

/// The value that a TOML text stands for; `None` where the text is not TOML.
pub open spec fn toml_at(text: Seq<char>) -> Option<Json> {
    match toml_read(text) {
        Ok(v) => Some(v),
        Err(_) => None,
    }
}

/// What the reader says of a text that is not TOML.
pub open spec fn toml_fault(text: Seq<char>) -> Seq<char> {
    toml_read(text)->Err_0
}

/// The value at the front of MessagePack bytes, for a reader with a limit on
/// nesting; `None` where there is none, or none that JSON can hold.
pub uninterp spec fn value_first(bytes: Seq<u8>, limit: usize) -> Option<Json>;

/// The text at the front of MessagePack bytes, and the bytes behind it; `None`
/// where there is no text.
pub uninterp spec fn text_first(bytes: Seq<u8>) -> Option<(Seq<char>, Seq<u8>)>;

/// The bytes behind whatever stands at the front of MessagePack bytes, for a
/// reader with a limit on nesting; `None` where nothing complete does.
pub uninterp spec fn behind_first(bytes: Seq<u8>, limit: usize) -> Option<Seq<u8>>;

/// What an optional value holds.
pub open spec fn opt_json(v: Option<serde_json::Value>) -> Option<Json> {
    match v {
        Some(j) => Some(json_view(j)),
        None => None,
    }
}

/// What the values of a sequence hold.
pub open spec fn json_views(s: Seq<serde_json::Value>) -> Seq<Json> {
    Seq::new(s.len(), |i: int| json_view(s[i]))
}

impl Json {
    /// A number without sign or fraction.
    pub open spec fn uint(n: nat) -> Json {
        Json::Number(decimal(n))
    }

    /// A list of texts.
    pub open spec fn texts(s: Seq<Seq<char>>) -> Json {
        Json::List(Seq::new(s.len(), |i: int| Json::Text(s[i])))
    }

    /// The member of an object.
    pub open spec fn member(self, key: Seq<char>) -> Option<Json> {
        if self is Object && self->Object_0.contains_key(key) {
            Some(self->Object_0[key])
        } else {
            None
        }
    }

    /// Whether no more than `n` lists and objects stand inside one another.
    pub open spec fn nests_within(self, n: nat) -> bool
        decreases n,
    {
        match self {
            Json::List(s) => n > 0 && forall|i: int|
                0 <= i < s.len() ==> (#[trigger] s[i]).nests_within((n - 1) as nat),
            Json::Object(m) => n > 0 && forall|k: Seq<char>| #[trigger]
                m.contains_key(k) ==> m[k].nests_within((n - 1) as nat),
            _ => true,
        }
    }
}

// ---------------------------------------------------------------------------
// Copying and comparing
// ---------------------------------------------------------------------------

/// `serde_json::Value::clone` copies the value.
pub assume_specification[ <serde_json::Value as Clone>::clone ](v: &serde_json::Value) -> (r:
    serde_json::Value)
    ensures
        json_view(r) == json_view(*v),
;

/// `serde_json::Value::is_null`.
pub assume_specification[ serde_json::Value::is_null ](v: &serde_json::Value) -> (r: bool)
    ensures
        r == (json_view(*v) is Null),
;

/// `serde_json::Value::to_string` on two values: they hold the same exactly
/// where they are written alike.
#[verifier::external_body]
pub(crate) fn same_json(a: &serde_json::Value, b: &serde_json::Value) -> (r: bool)
    ensures
        r == (json_view(*a) == json_view(*b)),
{
    a.to_string() == b.to_string()
}

/// Copies an optional value.
pub fn clone_opt(v: &Option<serde_json::Value>) -> (r: Option<serde_json::Value>)
    ensures
        opt_json(r) == opt_json(*v),
{
    match v {
        Some(j) => Some(j.clone()),
        None => None,
    }
}

// ---------------------------------------------------------------------------
// Making
// ---------------------------------------------------------------------------

/// `serde_json::Value::Null`.
#[verifier::external_body]
pub(crate) fn null() -> (v: serde_json::Value)
    ensures
        json_view(v) == Json::Null,
{
    serde_json::Value::Null
}

/// `serde_json::Value::String`.
#[verifier::external_body]
pub(crate) fn text_value(s: &str) -> (v: serde_json::Value)
    ensures
        json_view(v) == Json::Text(s@),
{
    serde_json::Value::String(s.to_owned())
}

/// `serde_json::Value::from` on an unsigned number, which is written in decimal.
#[verifier::external_body]
pub(crate) fn uint_value(n: u64) -> (v: serde_json::Value)
    ensures
        json_view(v) == Json::uint(n as nat),
{
    serde_json::Value::from(n)
}

/// `serde_json::Value::Array`.
#[verifier::external_body]
pub(crate) fn list_value(s: Vec<serde_json::Value>) -> (v: serde_json::Value)
    ensures
        json_view(v) == Json::List(json_views(s@)),
{
    serde_json::Value::Array(s)
}

/// `serde_json::Value::Object` on a new map.
#[verifier::external_body]
pub(crate) fn object() -> (v: serde_json::Value)
    ensures
        json_view(v) == Json::Object(Map::empty()),
{
    serde_json::Value::Object(serde_json::Map::new())
}

/// `serde_json::Map::insert` on the map of an object: the value replaces what
/// was under the key.
#[verifier::external_body]
pub(crate) fn put_member(v: &mut serde_json::Value, key: &str, value: serde_json::Value)
    requires
        json_view(*old(v)) is Object,
    ensures
        json_view(*final(v)) == Json::Object(
            json_view(*old(v))->Object_0.insert(key@, json_view(value)),
        ),
{
    v.as_object_mut().map(|m| m.insert(key.to_owned(), value));
}

/// A list of texts.
pub(crate) fn texts_value(s: &Vec<String>) -> (v: serde_json::Value)
    ensures
        json_view(v) == Json::texts(crate::text::texts(s@)),
{
    let mut items: Vec<serde_json::Value> = Vec::new();
    let mut i: usize = 0;
    while i < s.len()
        invariant
            i <= s.len(),
            items.len() == i,
            forall|j: int| 0 <= j < i ==> json_view(#[trigger] items[j]) == Json::Text(s[j]@),
        decreases s.len() - i,
    {
        items.push(text_value(s[i].as_str()));
        i = i + 1;
    }
    let v = list_value(items);
    assert(json_view(v)->List_0 =~= Json::texts(crate::text::texts(s@))->List_0);
    v
}

/// An optional text, or the null value.
pub(crate) fn opt_text_value(s: &Option<String>) -> (v: serde_json::Value)
    ensures
        json_view(v) == (match crate::text::opt_text(*s) {
            Some(t) => Json::Text(t),
            None => Json::Null,
        }),
{
    match s {
        Some(t) => text_value(t.as_str()),
        None => null(),
    }
}

/// An optional number, or the null value.
pub(crate) fn opt_uint_value(n: &Option<u64>) -> (v: serde_json::Value)
    ensures
        json_view(v) == (match *n {
            Some(k) => Json::uint(k as nat),
            None => Json::Null,
        }),
{
    match n {
        Some(k) => uint_value(*k),
        None => null(),
    }
}

// ---------------------------------------------------------------------------
// Reading
// ---------------------------------------------------------------------------

/// `serde_json::Value::get` with a key, copied: the member of an object.
#[verifier::external_body]
pub(crate) fn member(v: &serde_json::Value, key: &str) -> (r: Option<serde_json::Value>)
    ensures
        opt_json(r) == json_view(*v).member(key@),
{
    v.get(key).cloned()
}

/// `serde_json::Value::is_object`.
pub assume_specification[ serde_json::Value::is_object ](v: &serde_json::Value) -> (r: bool)
    ensures
        r == (json_view(*v) is Object),
;

/// `serde_json::Value::as_str`, copied.
#[verifier::external_body]
pub(crate) fn as_text(v: &serde_json::Value) -> (r: Option<String>)
    ensures
        match r {
            Some(s) => json_view(*v) == Json::Text(s@),
            None => !(json_view(*v) is Text),
        },
{
    v.as_str().map(|s| s.to_owned())
}

/// `serde_json::Value::as_u64`: the number, where it is an integer from zero up
/// to what 64 bits hold; such a number is written in decimal.
#[verifier::external_body]
pub(crate) fn as_uint(v: &serde_json::Value) -> (r: Option<u64>)
    ensures
        match r {
            Some(n) => json_view(*v) == Json::uint(n as nat),
            None => forall|n: u64| json_view(*v) != #[trigger] Json::uint(n as nat),
        },
{
    v.as_u64()
}

/// `serde_json::Value::as_array`, copied.
#[verifier::external_body]
pub(crate) fn as_list(v: &serde_json::Value) -> (r: Option<Vec<serde_json::Value>>)
    ensures
        match r {
            Some(s) => json_view(*v) == Json::List(json_views(s@)),
            None => !(json_view(*v) is List),
        },
{
    v.as_array().cloned()
}

/// `serde_json::Map::keys` of an object, copied: the keys of its members.
#[verifier::external_body]
pub(crate) fn keys(v: &serde_json::Value) -> (r: Option<Vec<String>>)
    ensures
        match r {
            Some(ks) => json_view(*v) is Object && forall|k: Seq<char>| #[trigger]
                crate::text::texts(ks@).contains(k) <==> json_view(*v)->Object_0.contains_key(k),
            None => !(json_view(*v) is Object),
        },
{
    v.as_object().map(|m| m.keys().cloned().collect())
}

// ---------------------------------------------------------------------------
// Text and bytes
// ---------------------------------------------------------------------------

/// `serde_json::from_str` into a value, with the error as its text.
#[verifier::external_body]
pub(crate) fn parse(text: &str) -> (r: Result<serde_json::Value, String>)
    ensures
        match r {
            Ok(v) => json_read(text@) == Ok::<Json, Seq<char>>(json_view(v)),
            Err(e) => json_read(text@) == Err::<Json, Seq<char>>(e@),
        },
{
    serde_json::from_str(text).map_err(|e| e.to_string())
}

/// `toml::from_str` into a value, with the error as its text.
#[verifier::external_body]
pub(crate) fn parse_toml(text: &str) -> (r: Result<serde_json::Value, String>)
    ensures
        match r {
            Ok(v) => toml_read(text@) == Ok::<Json, Seq<char>>(json_view(v)),
            Err(e) => toml_read(text@) == Err::<Json, Seq<char>>(e@),
        },
{
    toml::from_str::<serde_json::Value>(text).map_err(|e| e.to_string())
}

/// The value at the front of JSON bytes, and the bytes behind it; `None` where
/// there is none.
pub uninterp spec fn json_first(bytes: Seq<u8>) -> Option<(Json, Seq<u8>)>;

/// `serde_json::Deserializer::from_slice` as a stream of values: the first one,
/// and the bytes from the offset on that the stream has reached behind it.
#[verifier::external_body]
pub(crate) fn take_json<'a>(bytes: &'a [u8]) -> (r: Option<(serde_json::Value, &'a [u8])>)
    ensures
        match r {
            Some(t) => json_first(bytes@) == Some((json_view(t.0), t.1@)),
            None => json_first(bytes@) is None,
        },
{
    let reader = serde_json::Deserializer::from_slice(bytes);
    let mut values = reader.into_iter::<serde_json::Value>();
    let value = values.next()?.ok()?;
    Some((value, &bytes[values.byte_offset()..]))
}

/// `rmp_serde::Deserializer::from_read_ref` with a limit on nesting, into a value:
/// the one at the front of the bytes. What stands behind it is not looked at.
#[verifier::external_body]
pub(crate) fn take_value(bytes: &[u8], limit: usize) -> (r: Option<serde_json::Value>)
    requires
        limit > 0,
    ensures
        opt_json(r) == value_first(bytes@, limit),
{
    let mut reader = rmp_serde::Deserializer::from_read_ref(bytes);
    reader.set_max_depth(limit);
    serde::Deserialize::deserialize(&mut reader).ok()
}

/// `rmp_serde::from_read` into a text, on a reader over the bytes: the text at
/// their front, and the bytes that the reader has left.
#[verifier::external_body]
pub(crate) fn take_text<'a>(bytes: &'a [u8]) -> (r: Option<(String, &'a [u8])>)
    ensures
        match r {
            Some(t) => text_first(bytes@) == Some((t.0@, t.1@)),
            None => text_first(bytes@) is None,
        },
{
    let mut rest = bytes;
    let text = rmp_serde::from_read::<&mut &[u8], String>(&mut rest).ok()?;
    Some((text, rest))
}

/// `rmp_serde::Deserializer::new` with a limit on nesting, into
/// `serde::de::IgnoredAny`, on a reader over the bytes: it takes whatever stands
/// at their front, and the bytes that the reader has left are those behind it.
#[verifier::external_body]
pub(crate) fn skip_value<'a>(bytes: &'a [u8], limit: usize) -> (r: Option<&'a [u8]>)
    requires
        limit > 0,
    ensures
        match r {
            Some(rest) => behind_first(bytes@, limit) == Some(rest@),
            None => behind_first(bytes@, limit) is None,
        },
{
    let mut rest = bytes;
    let mut reader = rmp_serde::Deserializer::new(&mut rest);
    reader.set_max_depth(limit);
    let taken: Result<serde::de::IgnoredAny, _> = serde::Deserialize::deserialize(&mut reader);
    taken.ok()?;
    Some(rest)
}

} // verus!
