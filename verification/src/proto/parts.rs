//! The parts of a written value, one level deep, and the fields that come twice
//! among them.
use crate::json::{as_text, behind_first, json_first, skip_value, take_json, take_text, Json};
use crate::proto::body::{
    entries_at, entries_of, entry_first, front, front_of, take_head, Entry, MEMBER_LIMIT,
};
use vstd::prelude::*;
use vstd::slice::slice_subrange;

verus! {

/// A field of a written object: its key, and bytes with its value at their front.
#[verifier::ext_equal]
pub struct Field {
    pub key: Seq<char>,
    pub raw: Seq<u8>,
}

/// What the value at the front of bytes consists of.
#[verifier::ext_equal]
pub enum Parts {
    /// It is an object with these fields, in their order.
    Fields(Seq<Field>),
    /// It is a list of these items, each at the front of its bytes.
    Items(Seq<Seq<u8>>),
    /// It is something else.
    Whole,
}

/// A field that was found.
pub struct Piece<'a> {
    pub key: String,
    pub raw: &'a [u8],
}

/// The parts that were found.
pub enum Pieces<'a> {
    Fields(Vec<Piece<'a>>),
    Items(Vec<&'a [u8]>),
    Whole,
}

/// What fields hold.
pub open spec fn piece_views(s: Seq<Piece<'_>>) -> Seq<Field> {
    Seq::new(s.len(), |i: int| Field { key: s[i].key@, raw: s[i].raw@ })
}

/// What items hold.
pub open spec fn item_views(s: Seq<&[u8]>) -> Seq<Seq<u8>> {
    Seq::new(s.len(), |i: int| s[i]@)
}

impl<'a> View for Pieces<'a> {
    type V = Parts;

    open spec fn view(&self) -> Parts {
        match *self {
            Pieces::Fields(v) => Parts::Fields(piece_views(v@)),
            Pieces::Items(v) => Parts::Items(item_views(v@)),
            Pieces::Whole => Parts::Whole,
        }
    }
}

/// A way of writing values down.
pub trait Notation {
    /// What the value at the front of bytes consists of.
    spec fn parts(bytes: Seq<u8>) -> Parts;

    /// Takes the value at the front of bytes apart.
    fn split<'a>(bytes: &'a [u8]) -> (r: Pieces<'a>)
        ensures
            r@ == Self::parts(bytes@),
    ;
}

// ---------------------------------------------------------------------------
// MessagePack
// ---------------------------------------------------------------------------

/// Values in MessagePack.
pub struct MessagePack;

/// How many items the list at the front of bytes has, and the bytes behind its
/// head; `None` where no list stands there.
pub open spec fn list_head(bytes: Seq<u8>) -> Option<(nat, Seq<u8>)> {
    if bytes.len() >= 1 && 0x90 <= bytes[0] <= 0x9f {
        Some(((bytes[0] - 0x90) as nat, bytes.skip(1)))
    } else if bytes.len() >= 3 && bytes[0] == 0xdc {
        Some(((bytes[1] * 0x100 + bytes[2]) as nat, bytes.skip(3)))
    } else if bytes.len() >= 5 && bytes[0] == 0xdd {
        Some(
            (
                (bytes[1] * 0x100_0000 + bytes[2] * 0x1_0000 + bytes[3] * 0x100
                    + bytes[4]) as nat,
                bytes.skip(5),
            ),
        )
    } else {
        None
    }
}

/// The next `n` items behind those that were read.
pub open spec fn items_at(bytes: Seq<u8>, n: nat, read: Seq<Seq<u8>>) -> Option<Seq<Seq<u8>>>
    decreases n,
{
    if n == 0 {
        Some(read)
    } else {
        match behind_first(bytes, MEMBER_LIMIT) {
            Some(rest) => items_at(rest, (n - 1) as nat, read.push(front(bytes, rest))),
            None => None,
        }
    }
}

/// The items of the list in bytes; `None` where they hold no list.
pub open spec fn items_of(bytes: Seq<u8>) -> Option<Seq<Seq<u8>>> {
    match list_head(bytes) {
        Some((n, rest)) => items_at(rest, n, Seq::empty()),
        None => None,
    }
}

/// The fields that entries stand for.
pub open spec fn fields_of(es: Seq<Entry>) -> Seq<Field> {
    Seq::new(es.len(), |i: int| Field { key: es[i].key, raw: es[i].raw })
}

/// What the MessagePack value at the front of bytes consists of.
pub open spec fn packed_parts(bytes: Seq<u8>) -> Parts {
    match entries_of(bytes) {
        Some(es) => Parts::Fields(fields_of(es)),
        None => match items_of(bytes) {
            Some(s) => Parts::Items(s),
            None => Parts::Whole,
        },
    }
}

/// Whether no object comes with a key twice, in the value at the front of bytes
/// and the values in it, `n` levels deep.
pub open spec fn keys_are_single(bytes: Seq<u8>, n: nat) -> bool
    decreases n,
{
    n > 0 ==> match packed_parts(bytes) {
        Parts::Fields(fs) => {
            &&& forall|i: int, j: int|
                0 <= i < j < fs.len() ==> (#[trigger] fs[i]).key != (#[trigger] fs[j]).key
            &&& forall|i: int|
                0 <= i < fs.len() ==> keys_are_single((#[trigger] fs[i]).raw, (n - 1) as nat)
        },
        Parts::Items(s) => forall|i: int|
            0 <= i < s.len() ==> keys_are_single(#[trigger] s[i], (n - 1) as nat),
        Parts::Whole => true,
    }
}

/// Whether no object comes with a key twice, however deep in the value at the
/// front of bytes.
pub open spec fn is_orderly(bytes: Seq<u8>) -> bool {
    forall|n: nat| #[trigger] keys_are_single(bytes, n)
}

/// Takes off the head of the list at the front of bytes.
fn take_list_head<'a>(bytes: &'a [u8]) -> (r: Option<(u32, &'a [u8])>)
    ensures
        match r {
            Some(h) => list_head(bytes@) == Some((h.0 as nat, h.1@)),
            None => list_head(bytes@) is None,
        },
{
    let n = bytes.len();
    if n >= 1 && 0x90 <= bytes[0] && bytes[0] <= 0x9f {
        let rest = slice_subrange(bytes, 1, n);
        assert(rest@ =~= bytes@.skip(1));
        Some(((bytes[0] - 0x90) as u32, rest))
    } else if n >= 3 && bytes[0] == 0xdc {
        let rest = slice_subrange(bytes, 3, n);
        assert(rest@ =~= bytes@.skip(3));
        Some((bytes[1] as u32 * 0x100 + bytes[2] as u32, rest))
    } else if n >= 5 && bytes[0] == 0xdd {
        let rest = slice_subrange(bytes, 5, n);
        assert(rest@ =~= bytes@.skip(5));
        let count: u32 = bytes[1] as u32 * 0x100_0000 + bytes[2] as u32 * 0x1_0000
            + bytes[3] as u32 * 0x100 + bytes[4] as u32;
        Some((count, rest))
    } else {
        None
    }
}

/// Takes a map apart.
fn split_map<'a>(bytes: &'a [u8]) -> (r: Option<Vec<Piece<'a>>>)
    ensures
        match r {
            Some(v) => entries_of(bytes@) is Some && piece_views(v@) == fields_of(
                entries_of(bytes@)->0,
            ),
            None => entries_of(bytes@) is None,
        },
{
    let (n, start) = match take_head(bytes) {
        Some(h) => h,
        None => {
            return None;
        },
    };
    let mut left: u32 = n;
    let mut rest: &'a [u8] = start;
    let ghost mut es: Seq<Entry> = Seq::empty();
    let mut found: Vec<Piece<'a>> = Vec::new();
    assert(piece_views(found@) =~= fields_of(es));
    while left > 0
        invariant
            entries_at(rest@, left as nat, es) == entries_of(bytes@),
            piece_views(found@) == fields_of(es),
        decreases left,
    {
        let (key, tail) = match take_text(rest) {
            Some(t) => t,
            None => {
                return None;
            },
        };
        let next = match skip_value(tail, MEMBER_LIMIT) {
            Some(next) => next,
            None => {
                return None;
            },
        };
        let ghost first = entry_first(rest@)->0;
        let ghost e = first.0;
        let ghost before = found@;
        found.push(Piece { key, raw: front_of(tail, next) });
        proof {
            assert(piece_views(before).len() == fields_of(es).len());
            assert(piece_views(found@) =~= fields_of(es.push(e))) by {
                assert forall|i: int| 0 <= i < es.len() implies piece_views(found@)[i] == fields_of(
                    es.push(e),
                )[i] by {
                    assert(piece_views(before)[i] == fields_of(es)[i]);
                    assert(found@[i] == before[i]);
                }
            }
            es = es.push(e);
        }
        rest = next;
        left = left - 1;
    }
    Some(found)
}

/// Takes a list apart.
fn split_list<'a>(bytes: &'a [u8]) -> (r: Option<Vec<&'a [u8]>>)
    ensures
        match r {
            Some(v) => items_of(bytes@) == Some(item_views(v@)),
            None => items_of(bytes@) is None,
        },
{
    let (n, start) = match take_list_head(bytes) {
        Some(h) => h,
        None => {
            return None;
        },
    };
    let mut left: u32 = n;
    let mut rest: &'a [u8] = start;
    let mut found: Vec<&'a [u8]> = Vec::new();
    assert(item_views(found@) =~= Seq::<Seq<u8>>::empty());
    while left > 0
        invariant
            items_at(rest@, left as nat, item_views(found@)) == items_of(bytes@),
        decreases left,
    {
        let next = match skip_value(rest, MEMBER_LIMIT) {
            Some(next) => next,
            None => {
                return None;
            },
        };
        let ghost before = found@;
        found.push(front_of(rest, next));
        assert(item_views(found@) =~= item_views(before).push(front(rest@, next@)));
        rest = next;
        left = left - 1;
    }
    Some(found)
}

impl Notation for MessagePack {
    open spec fn parts(bytes: Seq<u8>) -> Parts {
        packed_parts(bytes)
    }

    fn split<'a>(bytes: &'a [u8]) -> (r: Pieces<'a>) {
        match split_map(bytes) {
            Some(v) => Pieces::Fields(v),
            None => match split_list(bytes) {
                Some(v) => Pieces::Items(v),
                None => Pieces::Whole,
            },
        }
    }
}

// ---------------------------------------------------------------------------
// JSON
// ---------------------------------------------------------------------------

/// Values in JSON.
pub struct JsonText;

/// Whether a byte may stand between the signs of a JSON text.
pub open spec fn is_blank(b: u8) -> bool {
    b == 0x20 || b == 0x09 || b == 0x0a || b == 0x0d
}

/// Bytes without the blanks in front.
pub open spec fn unblanked(bytes: Seq<u8>) -> Seq<u8>
    decreases bytes.len(),
{
    if bytes.len() > 0 && is_blank(bytes[0]) {
        unblanked(bytes.skip(1))
    } else {
        bytes
    }
}

/// Bytes behind a sign at their front, blanks aside; `None` where it is missing.
pub open spec fn behind_sign(bytes: Seq<u8>, sign: u8) -> Option<Seq<u8>> {
    let b = unblanked(bytes);
    if b.len() > 0 && b[0] == sign {
        Some(b.skip(1))
    } else {
        None
    }
}

/// The field at the front of the bytes of an object, and the bytes behind it.
pub open spec fn json_field_first(bytes: Seq<u8>) -> Option<(Field, Seq<u8>)> {
    match json_first(bytes) {
        Some((Json::Text(key), tail)) => match behind_sign(tail, 0x3a) {
            Some(raw) => match json_first(raw) {
                Some((_, rest)) => Some((Field { key, raw }, rest)),
                None => None,
            },
            None => None,
        },
        _ => None,
    }
}

/// The fields behind those that were read, up to the end of their object.
pub open spec fn json_fields_at(bytes: Seq<u8>, read: Seq<Field>) -> Option<Seq<Field>>
    decreases bytes.len(),
{
    match json_field_first(bytes) {
        Some((f, rest)) => match behind_sign(rest, 0x2c) {
            Some(next) => if next.len() < bytes.len() {
                json_fields_at(next, read.push(f))
            } else {
                None
            },
            None => Some(read.push(f)),
        },
        None => Some(read),
    }
}

/// The items behind those that were read, up to the end of their list.
pub open spec fn json_items_at(bytes: Seq<u8>, read: Seq<Seq<u8>>) -> Option<Seq<Seq<u8>>>
    decreases bytes.len(),
{
    match json_first(bytes) {
        Some((_, rest)) => match behind_sign(rest, 0x2c) {
            Some(next) => if next.len() < bytes.len() {
                json_items_at(next, read.push(bytes))
            } else {
                None
            },
            None => Some(read.push(bytes)),
        },
        None => Some(read),
    }
}

/// What the JSON value at the front of bytes consists of. That the bytes hold a
/// value is not checked.
pub open spec fn json_parts(bytes: Seq<u8>) -> Parts {
    match behind_sign(bytes, 0x7b) {
        Some(inner) => match json_fields_at(inner, Seq::empty()) {
            Some(fs) => Parts::Fields(fs),
            None => Parts::Whole,
        },
        None => match behind_sign(bytes, 0x5b) {
            Some(inner) => match json_items_at(inner, Seq::empty()) {
                Some(s) => Parts::Items(s),
                None => Parts::Whole,
            },
            None => Parts::Whole,
        },
    }
}

/// Takes a sign off the front of bytes, blanks aside.
fn take_sign<'a>(bytes: &'a [u8], sign: u8) -> (r: Option<&'a [u8]>)
    ensures
        match r {
            Some(rest) => behind_sign(bytes@, sign) == Some(rest@),
            None => behind_sign(bytes@, sign) is None,
        },
{
    let n = bytes.len();
    let mut i: usize = 0;
    assert(bytes@.skip(0) =~= bytes@);
    while i < n && (bytes[i] == 0x20 || bytes[i] == 0x09 || bytes[i] == 0x0a || bytes[i] == 0x0d)
        invariant
            i <= n == bytes@.len(),
            unblanked(bytes@.skip(i as int)) == unblanked(bytes@),
        decreases n - i,
    {
        assert(bytes@.skip(i as int)[0] == bytes@[i as int]);
        assert(bytes@.skip(i as int).skip(1) =~= bytes@.skip(i + 1));
        i = i + 1;
    }
    let ghost left = bytes@.skip(i as int);
    assert(i < n ==> left[0] == bytes@[i as int]);
    assert(unblanked(left) == left);
    if i < n && bytes[i] == sign {
        let rest = slice_subrange(bytes, i + 1, n);
        assert(rest@ =~= left.skip(1));
        Some(rest)
    } else {
        None
    }
}

/// Takes the field at the front of the bytes of an object.
fn take_json_field<'a>(bytes: &'a [u8]) -> (r: Option<(Piece<'a>, &'a [u8])>)
    ensures
        match r {
            Some(t) => json_field_first(bytes@) == Some(
                (Field { key: t.0.key@, raw: t.0.raw@ }, t.1@),
            ),
            None => json_field_first(bytes@) is None,
        },
{
    let (name, tail) = match take_json(bytes) {
        Some(t) => t,
        None => {
            return None;
        },
    };
    let key = match as_text(&name) {
        Some(key) => key,
        None => {
            return None;
        },
    };
    let raw = match take_sign(tail, 0x3a) {
        Some(raw) => raw,
        None => {
            return None;
        },
    };
    match take_json(raw) {
        Some((_, rest)) => Some((Piece { key, raw }, rest)),
        None => None,
    }
}

/// Takes the inside of an object apart.
fn split_json_fields<'a>(bytes: &'a [u8]) -> (r: Option<Vec<Piece<'a>>>)
    ensures
        match r {
            Some(v) => json_fields_at(bytes@, Seq::empty()) == Some(piece_views(v@)),
            None => json_fields_at(bytes@, Seq::empty()) is None,
        },
{
    let mut rest: &'a [u8] = bytes;
    let mut found: Vec<Piece<'a>> = Vec::new();
    assert(piece_views(found@) =~= Seq::<Field>::empty());
    loop
        invariant
            json_fields_at(rest@, piece_views(found@)) == json_fields_at(bytes@, Seq::empty()),
        decreases rest@.len(),
    {
        let (piece, behind) = match take_json_field(rest) {
            Some(t) => t,
            None => {
                return Some(found);
            },
        };
        let ghost f = Field { key: piece.key@, raw: piece.raw@ };
        let ghost before = found@;
        found.push(piece);
        assert(piece_views(found@) =~= piece_views(before).push(f));
        match take_sign(behind, 0x2c) {
            Some(next) => {
                if next.len() < rest.len() {
                    rest = next;
                } else {
                    return None;
                }
            },
            None => {
                return Some(found);
            },
        }
    }
}

/// Takes the inside of a list apart.
fn split_json_items<'a>(bytes: &'a [u8]) -> (r: Option<Vec<&'a [u8]>>)
    ensures
        match r {
            Some(v) => json_items_at(bytes@, Seq::empty()) == Some(item_views(v@)),
            None => json_items_at(bytes@, Seq::empty()) is None,
        },
{
    let mut rest: &'a [u8] = bytes;
    let mut found: Vec<&'a [u8]> = Vec::new();
    assert(item_views(found@) =~= Seq::<Seq<u8>>::empty());
    loop
        invariant
            json_items_at(rest@, item_views(found@)) == json_items_at(bytes@, Seq::empty()),
        decreases rest@.len(),
    {
        let behind = match take_json(rest) {
            Some((_, behind)) => behind,
            None => {
                return Some(found);
            },
        };
        let ghost before = found@;
        found.push(rest);
        assert(item_views(found@) =~= item_views(before).push(rest@));
        match take_sign(behind, 0x2c) {
            Some(next) => {
                if next.len() < rest.len() {
                    rest = next;
                } else {
                    return None;
                }
            },
            None => {
                return Some(found);
            },
        }
    }
}

impl Notation for JsonText {
    open spec fn parts(bytes: Seq<u8>) -> Parts {
        json_parts(bytes)
    }

    fn split<'a>(bytes: &'a [u8]) -> (r: Pieces<'a>) {
        match take_sign(bytes, 0x7b) {
            Some(inner) => match split_json_fields(inner) {
                Some(v) => Pieces::Fields(v),
                None => Pieces::Whole,
            },
            None => match take_sign(bytes, 0x5b) {
                Some(inner) => match split_json_items(inner) {
                    Some(v) => Pieces::Items(v),
                    None => Pieces::Whole,
                },
                None => Pieces::Whole,
            },
        }
    }
}

} // verus!
