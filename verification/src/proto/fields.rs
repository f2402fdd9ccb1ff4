//! Fields of message bodies: which value a field has, and when it is in order.
use crate::clock::{instant_at, parse_rfc3339, Timestamp};
use crate::json::{
    as_list, as_text, as_uint, json_view, json_views, member, null, object, put_member, Json,
};
use crate::text::{lemma_decimal_injective, opt_text, slice_texts, texts};
use vstd::prelude::*;

verus! {

/// The number that a value is, if it is one from zero up to what 64 bits hold.
pub open spec fn uint_of(j: Json) -> Option<u64> {
    if exists|n: u64| j == #[trigger] Json::uint(n as nat) {
        Some(choose|n: u64| j == #[trigger] Json::uint(n as nat))
    } else {
        None
    }
}

/// A number is the number that it is.
pub broadcast proof fn lemma_uint_of(n: u64)
    ensures
        #[trigger] uint_of(Json::uint(n as nat)) == Some(n),
{
    let j = Json::uint(n as nat);
    let k = choose|k: u64| j == #[trigger] Json::uint(k as nat);
    assert(j == Json::uint(k as nat));
    lemma_decimal_injective(n as nat, k as nat);
}

/// The first `n` items of a list, each under the field that has its place.
pub open spec fn by_place(s: Seq<Json>, fields: Seq<Seq<char>>, n: nat) -> Map<Seq<char>, Json>
    decreases n,
{
    if n == 0 {
        Map::empty()
    } else {
        by_place(s, fields, (n - 1) as nat).insert(fields[n - 1], s[n - 1])
    }
}

/// A value with its fields by name: a list that has one item for each field is
/// one whose fields go by their places.
pub open spec fn named(j: Json, fields: Seq<Seq<char>>) -> Json {
    if j is List && j->List_0.len() == fields.len() {
        Json::Object(by_place(j->List_0, fields, fields.len()))
    } else {
        j
    }
}

/// Puts the first `n` items of a list under the fields that have their places.
pub(crate) fn place_items(items: &Vec<serde_json::Value>, fields: &[&str], n: usize) -> (r:
    serde_json::Value)
    requires
        n <= items@.len(),
        n <= fields@.len(),
    ensures
        json_view(r) == Json::Object(
            by_place(json_views(items@), slice_texts(fields@), n as nat),
        ),
{
    let mut r = object();
    let mut i: usize = 0;
    while i < n
        invariant
            i <= n,
            n <= items@.len(),
            n <= fields@.len(),
            json_view(r) == Json::Object(
                by_place(json_views(items@), slice_texts(fields@), i as nat),
            ),
        decreases n - i,
    {
        put_member(&mut r, fields[i], items[i].clone());
        i = i + 1;
    }
    r
}

/// Reads `named`.
pub(crate) fn name_fields(v: &serde_json::Value, fields: &[&str]) -> (r: serde_json::Value)
    ensures
        json_view(r) == named(json_view(*v), slice_texts(fields@)),
{
    match as_list(v) {
        Some(items) => if items.len() == fields.len() {
            place_items(&items, fields, fields.len())
        } else {
            v.clone()
        },
        None => v.clone(),
    }
}

/// A text field that has to be there.
pub open spec fn text_field(j: Json, key: Seq<char>) -> Option<Seq<char>> {
    match j.member(key) {
        Some(Json::Text(s)) => Some(s),
        _ => None,
    }
}

/// A number field that has to be there.
pub open spec fn uint_field(j: Json, key: Seq<char>) -> Option<u64> {
    match j.member(key) {
        Some(v) => uint_of(v),
        None => None,
    }
}

/// A number field of 32 bits that has to be there.
pub open spec fn uint32_field(j: Json, key: Seq<char>) -> Option<u32> {
    match uint_field(j, key) {
        Some(n) if n <= u32::MAX => Some(n as u32),
        _ => None,
    }
}

/// A text field that may be missing or null; `None` where it is neither text.
pub open spec fn opt_text_field(j: Json, key: Seq<char>) -> Option<Option<Seq<char>>> {
    match j.member(key) {
        None => Some(None),
        Some(Json::Null) => Some(None),
        Some(Json::Text(s)) => Some(Some(s)),
        _ => None,
    }
}

/// A number field that may be missing or null; `None` where it is no number
/// either.
pub open spec fn opt_uint_field(j: Json, key: Seq<char>) -> Option<Option<u64>> {
    match j.member(key) {
        None => Some(None),
        Some(Json::Null) => Some(None),
        Some(v) => match uint_of(v) {
            Some(n) => Some(Some(n)),
            None => None,
        },
    }
}

/// A number field of 32 bits that may be missing or null.
pub open spec fn opt_uint32_field(j: Json, key: Seq<char>) -> Option<Option<u32>> {
    match opt_uint_field(j, key) {
        Some(None) => Some(None),
        Some(Some(n)) if n <= u32::MAX => Some(Some(n as u32)),
        _ => None,
    }
}

/// A text field that is empty where it is missing or null.
pub open spec fn text_or_empty_field(j: Json, key: Seq<char>) -> Option<Seq<char>> {
    match opt_text_field(j, key) {
        Some(Some(s)) => Some(s),
        Some(None) => Some(Seq::empty()),
        None => None,
    }
}

/// A field with any value; null where it is missing.
pub open spec fn value_or_null_field(j: Json, key: Seq<char>) -> Json {
    match j.member(key) {
        Some(v) => v,
        None => Json::Null,
    }
}

/// A text field that may be missing or null, under either of two names.
pub open spec fn either_text_field(j: Json, key: Seq<char>, other: Seq<char>) -> Option<
    Option<Seq<char>>,
> {
    if j.member(key) is Some {
        opt_text_field(j, key)
    } else {
        opt_text_field(j, other)
    }
}

/// A number field that may be missing or null, under either of two names.
pub open spec fn either_uint_field(j: Json, key: Seq<char>, other: Seq<char>) -> Option<
    Option<u64>,
> {
    if j.member(key) is Some {
        opt_uint_field(j, key)
    } else {
        opt_uint_field(j, other)
    }
}

/// An optional text as JSON: null where there is none.
pub open spec fn opt_text_json(s: Option<Seq<char>>) -> Json {
    match s {
        Some(t) => Json::Text(t),
        None => Json::Null,
    }
}

/// An optional number as JSON: null where there is none.
pub open spec fn opt_uint_json(n: Option<u64>) -> Json {
    match n {
        Some(k) => Json::uint(k as nat),
        None => Json::Null,
    }
}

/// A number of 32 bits, widened.
pub open spec fn widened(n: Option<u32>) -> Option<u64> {
    match n {
        Some(k) => Some(k as u64),
        None => None,
    }
}

/// The texts of a list, if it holds nothing else.
pub open spec fn texts_of(j: Json) -> Option<Seq<Seq<char>>> {
    if j is List && forall|i: int| 0 <= i < j->List_0.len() ==> (#[trigger] j->List_0[i]) is Text {
        Some(Seq::new(j->List_0.len(), |i: int| j->List_0[i]->Text_0))
    } else {
        None
    }
}

/// A field with a list of texts that has to be there.
pub open spec fn texts_field(j: Json, key: Seq<char>) -> Option<Seq<Seq<char>>> {
    match j.member(key) {
        Some(v) => texts_of(v),
        None => None,
    }
}

/// A field with a list of texts; an empty one where it is missing or null.
pub open spec fn texts_or_none_field(j: Json, key: Seq<char>) -> Option<Seq<Seq<char>>> {
    match j.member(key) {
        None => Some(Seq::empty()),
        Some(Json::Null) => Some(Seq::empty()),
        Some(v) => texts_of(v),
    }
}

/// A field with an instant that has to be there.
pub open spec fn instant_field(j: Json, key: Seq<char>) -> Option<Timestamp> {
    match text_field(j, key) {
        Some(s) => match instant_at(s) {
            Some(t) => Some(Timestamp { secs: t.0, nanos: t.1 }),
            None => None,
        },
        None => None,
    }
}

/// Reads `text_field`.
pub fn read_text(v: &serde_json::Value, key: &str) -> (r: Option<String>)
    ensures
        opt_text(r) == text_field(json_view(*v), key@),
{
    match member(v, key) {
        Some(m) => as_text(&m),
        None => None,
    }
}

/// Reads a number.
fn number_in(v: &serde_json::Value) -> (r: Option<u64>)
    ensures
        r == uint_of(json_view(*v)),
{
    let r = as_uint(v);
    proof {
        if r is Some {
            lemma_uint_of(r->0);
        }
    }
    r
}

/// Reads `uint_field`.
pub fn read_uint(v: &serde_json::Value, key: &str) -> (r: Option<u64>)
    ensures
        r == uint_field(json_view(*v), key@),
{
    match member(v, key) {
        Some(m) => number_in(&m),
        None => None,
    }
}

/// Reads `uint32_field`.
pub fn read_uint32(v: &serde_json::Value, key: &str) -> (r: Option<u32>)
    ensures
        r == uint32_field(json_view(*v), key@),
{
    match read_uint(v, key) {
        Some(n) => if n <= u32::MAX as u64 {
            Some(n as u32)
        } else {
            None
        },
        None => None,
    }
}

/// The text of a doubly optional string.
pub open spec fn opt_opt_text(v: Option<Option<String>>) -> Option<Option<Seq<char>>> {
    match v {
        Some(x) => Some(opt_text(x)),
        None => None,
    }
}

/// Reads `opt_text_field`.
pub fn read_opt_text(v: &serde_json::Value, key: &str) -> (r: Option<Option<String>>)
    ensures
        opt_opt_text(r) == opt_text_field(json_view(*v), key@),
{
    match member(v, key) {
        None => Some(None),
        Some(m) => if m.is_null() {
            Some(None)
        } else {
            match as_text(&m) {
                Some(s) => Some(Some(s)),
                None => None,
            }
        },
    }
}

/// Reads `text_or_empty_field`.
pub fn read_text_or_empty(v: &serde_json::Value, key: &str) -> (r: Option<String>)
    ensures
        opt_text(r) == text_or_empty_field(json_view(*v), key@),
{
    match read_opt_text(v, key) {
        Some(Some(s)) => Some(s),
        Some(None) => Some(String::new()),
        None => None,
    }
}

/// Reads `value_or_null_field`.
pub fn read_value_or_null(v: &serde_json::Value, key: &str) -> (r: serde_json::Value)
    ensures
        json_view(r) == value_or_null_field(json_view(*v), key@),
{
    match member(v, key) {
        Some(m) => m,
        None => null(),
    }
}

/// Reads `either_text_field`.
pub fn read_either_text(v: &serde_json::Value, key: &str, other: &str) -> (r: Option<
    Option<String>,
>)
    ensures
        opt_opt_text(r) == either_text_field(json_view(*v), key@, other@),
{
    if member(v, key).is_some() {
        read_opt_text(v, key)
    } else {
        read_opt_text(v, other)
    }
}

/// Reads `either_uint_field`.
pub fn read_either_uint(v: &serde_json::Value, key: &str, other: &str) -> (r: Option<Option<u64>>)
    ensures
        r == either_uint_field(json_view(*v), key@, other@),
{
    if member(v, key).is_some() {
        read_opt_uint(v, key)
    } else {
        read_opt_uint(v, other)
    }
}

/// Widens a number of 32 bits.
pub fn widen(n: &Option<u32>) -> (r: Option<u64>)
    ensures
        r == widened(*n),
{
    match n {
        Some(k) => Some(*k as u64),
        None => None,
    }
}

/// Reads `opt_uint_field`.
pub fn read_opt_uint(v: &serde_json::Value, key: &str) -> (r: Option<Option<u64>>)
    ensures
        r == opt_uint_field(json_view(*v), key@),
{
    match member(v, key) {
        None => Some(None),
        Some(m) => if m.is_null() {
            Some(None)
        } else {
            match number_in(&m) {
                Some(n) => Some(Some(n)),
                None => None,
            }
        },
    }
}

/// Reads `opt_uint32_field`.
pub fn read_opt_uint32(v: &serde_json::Value, key: &str) -> (r: Option<Option<u32>>)
    ensures
        r == opt_uint32_field(json_view(*v), key@),
{
    match read_opt_uint(v, key) {
        Some(None) => Some(None),
        Some(Some(n)) => if n <= u32::MAX as u64 {
            Some(Some(n as u32))
        } else {
            None
        },
        None => None,
    }
}

/// The texts of an optional list of strings.
pub open spec fn opt_texts(v: Option<Vec<String>>) -> Option<Seq<Seq<char>>> {
    match v {
        Some(s) => Some(texts(s@)),
        None => None,
    }
}

/// Reads the texts of a list.
fn texts_in(v: &serde_json::Value) -> (r: Option<Vec<String>>)
    ensures
        opt_texts(r) == texts_of(json_view(*v)),
{
    let items = match as_list(v) {
        Some(items) => items,
        None => {
            return None;
        },
    };
    let ghost list = json_view(*v)->List_0;
    let mut found: Vec<String> = Vec::new();
    let mut i: usize = 0;
    while i < items.len()
        invariant
            i <= items.len(),
            json_view(*v) == Json::List(list),
            list == json_views(items@),
            found.len() == i,
            forall|j: int| 0 <= j < i ==> #[trigger] list[j] == Json::Text(found[j]@),
        decreases items.len() - i,
    {
        assert(list[i as int] == json_view(items[i as int]));
        match as_text(&items[i]) {
            Some(s) => {
                found.push(s);
            },
            None => {
                assert(!(list[i as int] is Text));
                return None;
            },
        }
        i = i + 1;
    }
    proof {
        assert(list.len() == items.len());
        assert forall|j: int| 0 <= j < list.len() implies (#[trigger] json_view(*v)->List_0[j]) is
            Text by {
            assert(list[j] == Json::Text(found[j]@));
        }
        let want = Seq::new(list.len(), |j: int| list[j]->Text_0);
        assert(texts(found@) =~= want) by {
            assert forall|j: int| 0 <= j < list.len() implies texts(found@)[j] == want[j] by {
                assert(list[j] == Json::Text(found[j]@));
            }
        }
    }
    Some(found)
}

/// Reads `texts_field`.
pub fn read_texts(v: &serde_json::Value, key: &str) -> (r: Option<Vec<String>>)
    ensures
        opt_texts(r) == texts_field(json_view(*v), key@),
{
    match member(v, key) {
        Some(m) => texts_in(&m),
        None => None,
    }
}

/// Reads `texts_or_none_field`.
pub fn read_texts_or_none(v: &serde_json::Value, key: &str) -> (r: Option<Vec<String>>)
    ensures
        opt_texts(r) == texts_or_none_field(json_view(*v), key@),
{
    match member(v, key) {
        Some(m) => if m.is_null() {
            let none: Vec<String> = Vec::new();
            assert(texts(none@) =~= Seq::<Seq<char>>::empty());
            Some(none)
        } else {
            texts_in(&m)
        },
        None => {
            let none: Vec<String> = Vec::new();
            assert(texts(none@) =~= Seq::<Seq<char>>::empty());
            Some(none)
        },
    }
}

/// Reads `instant_field`.
pub fn read_instant(v: &serde_json::Value, key: &str) -> (r: Option<Timestamp>)
    ensures
        r == instant_field(json_view(*v), key@),
{
    match read_text(v, key) {
        Some(s) => parse_rfc3339(s.as_str()),
        None => None,
    }
}

/// A list of texts reads back as those texts.
pub broadcast proof fn lemma_texts_of(s: Seq<Seq<char>>)
    ensures
        #[trigger] texts_of(Json::texts(s)) == Some(s),
{
    let j = Json::texts(s);
    assert forall|i: int| 0 <= i < j->List_0.len() implies (#[trigger] j->List_0[i]) is Text by {}
    assert(Seq::new(j->List_0.len(), |i: int| j->List_0[i]->Text_0) =~= s);
}

} // verus!
