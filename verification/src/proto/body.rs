//! Message bodies: MessagePack maps with text keys, of which only the known keys
//! count.
use crate::json::{
    behind_first, json_view, member, object, put_member, skip_value, take_text, take_value,
    text_first, value_first, Json,
};
use crate::proto::parts::is_orderly;
use crate::text::texts;
use vstd::prelude::*;
use vstd::slice::slice_subrange;

verus! {

// ---------------------------------------------------------------------------
// Entries
// ---------------------------------------------------------------------------

/// The limit on nesting for what stands in the map of a body. A reader takes
/// bodies whose nesting stays below 1024, and the map itself is one level.
pub const MEMBER_LIMIT: usize = 1023;

/// An entry of a map: a key, its value where JSON can hold it, and the bytes of
/// the value.
#[verifier::ext_equal]
pub struct Entry {
    pub key: Seq<char>,
    pub value: Option<Json>,
    pub raw: Seq<u8>,
}

/// The bytes in front of the rest of them.
pub open spec fn front(bytes: Seq<u8>, rest: Seq<u8>) -> Seq<u8> {
    if rest.len() <= bytes.len() {
        bytes.take(bytes.len() - rest.len())
    } else {
        bytes
    }
}

/// Takes the bytes in front of the rest of them.
pub(crate) fn front_of<'a>(bytes: &'a [u8], rest: &[u8]) -> (r: &'a [u8])
    ensures
        r@ == front(bytes@, rest@),
{
    if rest.len() <= bytes.len() {
        let r = slice_subrange(bytes, 0, bytes.len() - rest.len());
        assert(r@ =~= front(bytes@, rest@));
        r
    } else {
        bytes
    }
}

/// How many entries the map at the front of bytes has, and the bytes behind its
/// head; `None` where no map stands there.
pub open spec fn map_head(bytes: Seq<u8>) -> Option<(nat, Seq<u8>)> {
    if bytes.len() >= 1 && 0x80 <= bytes[0] <= 0x8f {
        Some(((bytes[0] - 0x80) as nat, bytes.skip(1)))
    } else if bytes.len() >= 3 && bytes[0] == 0xde {
        Some(((bytes[1] * 0x100 + bytes[2]) as nat, bytes.skip(3)))
    } else if bytes.len() >= 5 && bytes[0] == 0xdf {
        Some(
            (
                (bytes[1] * 0x100_0000 + bytes[2] * 0x1_0000 + bytes[3] * 0x100
                    + bytes[4]) as nat,
                bytes.skip(5),
            ),
        )
    } else {
        None
    }
}

/// The entry at the front of bytes, and the bytes behind it.
pub open spec fn entry_first(bytes: Seq<u8>) -> Option<(Entry, Seq<u8>)> {
    match text_first(bytes) {
        Some((key, tail)) => match behind_first(tail, MEMBER_LIMIT) {
            Some(rest) => Some(
                (
                    Entry {
                        key,
                        value: value_first(tail, MEMBER_LIMIT),
                        raw: front(tail, rest),
                    },
                    rest,
                ),
            ),
            None => None,
        },
        None => None,
    }
}

/// The next `n` entries behind those that were read.
pub open spec fn entries_at(bytes: Seq<u8>, n: nat, read: Seq<Entry>) -> Option<Seq<Entry>>
    decreases n,
{
    if n == 0 {
        Some(read)
    } else {
        match entry_first(bytes) {
            Some((e, rest)) => entries_at(rest, (n - 1) as nat, read.push(e)),
            None => None,
        }
    }
}

/// The entries of the map in bytes; `None` where they hold no map with text
/// keys.
pub open spec fn entries_of(bytes: Seq<u8>) -> Option<Seq<Entry>> {
    match map_head(bytes) {
        Some((n, rest)) => entries_at(rest, n, Seq::empty()),
        None => None,
    }
}

/// What stands under the keys of entries: of each the first value that JSON can
/// hold.
pub open spec fn members(es: Seq<Entry>) -> Map<Seq<char>, Json>
    decreases es.len(),
{
    if es.len() == 0 {
        Map::empty()
    } else {
        let m = members(es.drop_last());
        let e = es.last();
        if !m.contains_key(e.key) && e.value is Some {
            m.insert(e.key, e.value->0)
        } else {
            m
        }
    }
}

/// Whether a key cannot be told from entries: it came twice, or with a value that
/// JSON cannot hold.
pub open spec fn spoiled(es: Seq<Entry>, key: Seq<char>) -> bool
    decreases es.len(),
{
    if es.len() == 0 {
        false
    } else {
        let e = es.last();
        ||| spoiled(es.drop_last(), key)
        ||| e.key == key && (members(es.drop_last()).contains_key(key) || e.value is None)
    }
}

/// Whether one of some keys cannot be told from entries.
pub open spec fn spoils(es: Seq<Entry>, fields: Seq<Seq<char>>) -> bool {
    exists|i: int| 0 <= i < fields.len() && spoiled(es, #[trigger] fields[i])
}

/// The body in bytes, for a reader that knows some fields; `None` where they hold
/// no map with text keys, or one from which a known field cannot be told.
pub open spec fn packed_at(bytes: Seq<u8>, fields: Seq<Seq<char>>) -> Option<Json> {
    match entries_of(bytes) {
        Some(es) => if spoils(es, fields) {
            None
        } else {
            Some(Json::Object(members(es)))
        },
        None => None,
    }
}

/// Whether bytes hold each member of an object once, and nothing else.
pub open spec fn holds(bytes: Seq<u8>, m: Map<Seq<char>, Json>) -> bool {
    &&& entries_of(bytes) is Some
    &&& members(entries_of(bytes)->0) == m
    &&& forall|k: Seq<char>| !#[trigger] spoiled(entries_of(bytes)->0, k)
}

// ---------------------------------------------------------------------------
// Writing and reading
// ---------------------------------------------------------------------------

/// `rmp_serde::to_vec_named` on a value, with the error as its text. The bytes of
/// an object hold its members, each once, and no object in it comes with a key
/// twice either, unless they are so many that a length in them does not fit 32
/// bits, or the object is nested more deeply than is read back. Writing succeeds
/// as long as there is memory.
#[verifier::external_body]
pub(crate) fn pack(v: &serde_json::Value) -> (r: Result<Vec<u8>, String>)
    ensures
        r is Ok,
        r matches Ok(b) ==> b@.len() <= u32::MAX && json_view(*v) is Object && json_view(
            *v,
        ).nests_within(1023) ==> holds(b@, json_view(*v)->Object_0) && is_orderly(b@),
{
    rmp_serde::to_vec_named(v).map_err(|e| e.to_string())
}

/// Takes off the head of the map at the front of bytes.
pub(crate) fn take_head<'a>(bytes: &'a [u8]) -> (r: Option<(u32, &'a [u8])>)
    ensures
        match r {
            Some(h) => map_head(bytes@) == Some((h.0 as nat, h.1@)),
            None => map_head(bytes@) is None,
        },
{
    let n = bytes.len();
    if n >= 1 && 0x80 <= bytes[0] && bytes[0] <= 0x8f {
        let rest = slice_subrange(bytes, 1, n);
        assert(rest@ =~= bytes@.skip(1));
        Some(((bytes[0] - 0x80) as u32, rest))
    } else if n >= 3 && bytes[0] == 0xde {
        let rest = slice_subrange(bytes, 3, n);
        assert(rest@ =~= bytes@.skip(3));
        Some((bytes[1] as u32 * 0x100 + bytes[2] as u32, rest))
    } else if n >= 5 && bytes[0] == 0xdf {
        let rest = slice_subrange(bytes, 5, n);
        assert(rest@ =~= bytes@.skip(5));
        let count: u32 = bytes[1] as u32 * 0x100_0000 + bytes[2] as u32 * 0x1_0000
            + bytes[3] as u32 * 0x100 + bytes[4] as u32;
        Some((count, rest))
    } else {
        None
    }
}

/// A body as it was read: its members, and the keys that cannot be told.
struct Body {
    value: serde_json::Value,
    odd: Vec<String>,
}

impl Body {
    /// Whether the body is what entries come to.
    spec fn is_of(self, es: Seq<Entry>) -> bool {
        &&& json_view(self.value) == Json::Object(members(es))
        &&& forall|k: Seq<char>| #[trigger] spoiled(es, k) <==> texts(self.odd@).contains(k)
    }

    /// Adds an entry.
    fn add_entry(
        &mut self,
        key: String,
        value: Option<serde_json::Value>,
        es: Ghost<Seq<Entry>>,
        raw: Ghost<Seq<u8>>,
    )
        requires
            old(self).is_of(es@),
        ensures
            final(self).is_of(
                es@.push(Entry { key: key@, value: crate::json::opt_json(value), raw: raw@ }),
            ),
    {
        let ghost e = Entry { key: key@, value: crate::json::opt_json(value), raw: raw@ };
        let ghost longer = es@.push(e);
        let ghost odd0 = texts(self.odd@);
        assert(longer.drop_last() =~= es@);
        let known = member(&self.value, key.as_str());
        assert(known is Some <==> members(es@).contains_key(key@));
        match value {
            Some(v) => {
                if known.is_some() {
                    self.odd.push(key);
                    assert(texts(self.odd@) =~= odd0.push(e.key));
                } else {
                    put_member(&mut self.value, key.as_str(), v);
                }
            },
            None => {
                self.odd.push(key);
                assert(texts(self.odd@) =~= odd0.push(e.key));
            },
        }
        proof {
            assert forall|k: Seq<char>| odd0.push(e.key).contains(k) <==> odd0.contains(k) || k
                == e.key by {
                if odd0.contains(k) {
                    let i = choose|i: int| 0 <= i < odd0.len() && odd0[i] == k;
                    assert(odd0.push(e.key)[i] == k);
                }
                assert(odd0.push(e.key)[odd0.len() as int] == e.key);
            }
            assert forall|k: Seq<char>| #[trigger] spoiled(longer, k) <==> texts(
                self.odd@,
            ).contains(k) by {
                assert(spoiled(es@, k) <==> odd0.contains(k));
            }
        }
    }
}

/// Reads a body.
fn read_body(bytes: &[u8]) -> (r: Option<Body>)
    ensures
        match r {
            Some(b) => entries_of(bytes@) is Some && b.is_of(entries_of(bytes@)->0),
            None => entries_of(bytes@) is None,
        },
{
    let (n, start) = match take_head(bytes) {
        Some(h) => h,
        None => {
            return None;
        },
    };
    let mut left: u32 = n;
    let mut rest: &[u8] = start;
    let ghost mut es: Seq<Entry> = Seq::empty();
    let mut body = Body { value: object(), odd: Vec::new() };
    assert(texts(body.odd@) =~= Seq::<Seq<char>>::empty());
    while left > 0
        invariant
            entries_at(rest@, left as nat, es) == entries_of(bytes@),
            body.is_of(es),
        decreases left,
    {
        let (key, tail) = match take_text(rest) {
            Some(t) => t,
            None => {
                return None;
            },
        };
        let next = match skip_value(tail, MEMBER_LIMIT) {
            Some(next) => next,
            None => {
                return None;
            },
        };
        let value = take_value(tail, MEMBER_LIMIT);
        let ghost e = Entry {
            key: key@,
            value: crate::json::opt_json(value),
            raw: front(tail@, next@),
        };
        body.add_entry(key, value, Ghost(es), Ghost(e.raw));
        proof {
            es = es.push(e);
        }
        rest = next;
        left = left - 1;
    }
    Some(body)
}

/// The contents of names of fields.
pub open spec fn names(fields: Seq<&str>) -> Seq<Seq<char>> {
    Seq::new(fields.len(), |i: int| fields[i]@)
}

/// Reads a body, for a reader that knows some fields.
pub fn unpack(bytes: &[u8], fields: &Vec<&str>) -> (r: Option<serde_json::Value>)
    ensures
        crate::json::opt_json(r) == packed_at(bytes@, names(fields@)),
{
    let body = match read_body(bytes) {
        Some(body) => body,
        None => {
            return None;
        },
    };
    let ghost es = entries_of(bytes@)->0;
    let ghost ks = names(fields@);
    let ghost odd = texts(body.odd@);
    let mut i: usize = 0;
    while i < body.odd.len()
        invariant
            i <= body.odd@.len(),
            odd == texts(body.odd@),
            ks == names(fields@),
            forall|a: int, b: int|
                #![trigger odd[a], ks[b]]
                0 <= a < i && 0 <= b < ks.len() ==> odd[a] != ks[b],
            entries_of(bytes@) == Some(es),
            body.is_of(es),
        decreases body.odd@.len() - i,
    {
        let mut k: usize = 0;
        while k < fields.len()
            invariant
                i < body.odd@.len(),
                k <= fields@.len(),
                odd == texts(body.odd@),
                ks == names(fields@),
                forall|b: int| #![trigger ks[b]] 0 <= b < k ==> odd[i as int] != ks[b],
                entries_of(bytes@) == Some(es),
                body.is_of(es),
            decreases fields@.len() - k,
        {
            assert(odd[i as int] == body.odd@[i as int]@ && ks[k as int] == fields@[k as int]@);
            if *body.odd[i].as_str() == *fields[k] {
                proof {
                    assert(odd.contains(odd[i as int]));
                    assert(spoiled(es, ks[k as int]));
                }
                return None;
            }
            k = k + 1;
        }
        i = i + 1;
    }
    proof {
        if spoils(es, ks) {
            let b = choose|b: int| 0 <= b < ks.len() && spoiled(es, #[trigger] ks[b]);
            assert(odd.contains(ks[b]));
            let a = choose|a: int| 0 <= a < odd.len() && odd[a] == ks[b];
            assert(odd[a] != ks[b]);
        }
    }
    Some(body.value)
}

// ---------------------------------------------------------------------------
// Laws
// ---------------------------------------------------------------------------

/// The entries whose keys are known.
pub open spec fn known(es: Seq<Entry>, fields: Seq<Seq<char>>) -> Seq<Entry> {
    es.filter(|e: Entry| fields.contains(e.key))
}

/// Whether two bodies have the same under each of some keys.
pub open spec fn agree(a: Json, b: Json, fields: Seq<Seq<char>>) -> bool {
    forall|i: int| 0 <= i < fields.len() ==> a.member(#[trigger] fields[i]) == b.member(fields[i])
}

/// What stands under a known key does not depend on the unknown ones.
proof fn lemma_known_entries_count(es: Seq<Entry>, fields: Seq<Seq<char>>, key: Seq<char>)
    requires
        fields.contains(key),
    ensures
        spoiled(es, key) == spoiled(known(es, fields), key),
        members(es).contains_key(key) == members(known(es, fields)).contains_key(key),
        members(es).contains_key(key) ==> members(es)[key] == members(known(es, fields))[key],
    decreases es.len(),
{
    reveal(Seq::filter);
    if es.len() > 0 {
        let shorter = es.drop_last();
        lemma_known_entries_count(shorter, fields, key);
        if fields.contains(es.last().key) {
            let k = known(shorter, fields);
            assert(known(es, fields) == k.push(es.last()));
            assert(k.push(es.last()).drop_last() =~= k);
        }
    }
}

/// Unknown keys are ignored, whatever their values are and wherever they stand:
/// bodies whose entries under known keys are the same are read alike.
pub proof fn law_unknown_keys_are_ignored(a: Seq<u8>, b: Seq<u8>, fields: Seq<Seq<char>>)
    requires
        entries_of(a) is Some,
        entries_of(b) is Some,
        known(entries_of(a)->0, fields) == known(entries_of(b)->0, fields),
    ensures
        packed_at(a, fields) is Some <==> packed_at(b, fields) is Some,
        packed_at(a, fields) is Some ==> agree(
            packed_at(a, fields)->0,
            packed_at(b, fields)->0,
            fields,
        ),
{
    let x = entries_of(a)->0;
    let y = entries_of(b)->0;
    assert forall|i: int| 0 <= i < fields.len() implies spoiled(x, #[trigger] fields[i])
        == spoiled(y, fields[i]) && members(x).contains_key(fields[i]) == members(
        y,
    ).contains_key(fields[i]) && (members(x).contains_key(fields[i]) ==> members(x)[fields[i]]
        == members(y)[fields[i]]) by {
        lemma_known_entries_count(x, fields, fields[i]);
        lemma_known_entries_count(y, fields, fields[i]);
    }
    if packed_at(a, fields) is Some && packed_at(b, fields) is Some {
        let p = packed_at(a, fields)->0;
        let q = packed_at(b, fields)->0;
        assert forall|i: int| 0 <= i < fields.len() implies p.member(#[trigger] fields[i])
            == q.member(fields[i]) by {
            assert(members(x).contains_key(fields[i]) == members(y).contains_key(fields[i]));
        }
    }
}

/// Bytes that hold an object read as it, whatever fields are known.
pub proof fn law_bytes_that_hold_an_object_read_as_it(
    bytes: Seq<u8>,
    m: Map<Seq<char>, Json>,
    fields: Seq<Seq<char>>,
)
    requires
        holds(bytes, m),
    ensures
        packed_at(bytes, fields) == Some(Json::Object(m)),
{
}

/// A reader that knows fewer fields reads the same, where both can read.
pub proof fn law_fewer_fields_read_the_same(
    bytes: Seq<u8>,
    fields: Seq<Seq<char>>,
    fewer: Seq<Seq<char>>,
)
    requires
        packed_at(bytes, fields) is Some,
        forall|i: int| 0 <= i < fewer.len() ==> fields.contains(#[trigger] fewer[i]),
    ensures
        packed_at(bytes, fewer) == packed_at(bytes, fields),
{
    let es = entries_of(bytes)->0;
    if spoils(es, fewer) {
        let i = choose|i: int| 0 <= i < fewer.len() && spoiled(es, #[trigger] fewer[i]);
        assert(fields.contains(fewer[i]));
        let k = choose|k: int| 0 <= k < fields.len() && fields[k] == fewer[i];
        assert(spoiled(es, fields[k]));
    }
}

} // verus!
