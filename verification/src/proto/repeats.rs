//! Fields that come twice where a definition is written down. Such a definition
//! is refused, in whatever notation.
use crate::proto::definition::{effect_rule_fields, machine_fields, rule_fields};
use crate::proto::body::{known, Entry};
use crate::proto::parts::{
    fields_of, is_orderly, item_views, keys_are_single, packed_parts, piece_views, Field,
    MessagePack, Notation, Parts, Piece, Pieces,
};
use crate::text::slice_texts;
use vstd::prelude::*;

verus! {

/// Whether one of some fields comes twice.
pub open spec fn repeats(fs: Seq<Field>, fields: Seq<Seq<char>>) -> bool {
    exists|i: int, j: int|
        0 <= i < j < fs.len() && (#[trigger] fs[i]).key == (#[trigger] fs[j]).key
            && fields.contains(fs[i].key)
}

/// The bytes of the first field with a key.
pub open spec fn raw_under(fs: Seq<Field>, key: Seq<char>) -> Option<Seq<u8>>
    decreases fs.len(),
{
    if fs.len() == 0 {
        None
    } else if fs[0].key == key {
        Some(fs[0].raw)
    } else {
        raw_under(fs.skip(1), key)
    }
}

/// The bytes of the field that has a place among some fields: they are found by
/// its name in an object, and by its place in a list with one item for each.
pub open spec fn part_at(p: Parts, fields: Seq<Seq<char>>, place: int) -> Option<Seq<u8>> {
    match p {
        Parts::Fields(fs) => raw_under(fs, fields[place]),
        Parts::Items(s) => if s.len() == fields.len() {
            Some(s[place])
        } else {
            None
        },
        Parts::Whole => None,
    }
}

/// Whether a value is an object in which one of some fields comes twice.
pub open spec fn is_repetitive(p: Parts, fields: Seq<Seq<char>>) -> bool {
    p matches Parts::Fields(fs) && repeats(fs, fields)
}

/// Whether one of some fields comes twice in one of some items.
pub open spec fn one_repeats<N: Notation>(s: Seq<Seq<u8>>, fields: Seq<Seq<char>>) -> bool {
    exists|i: int| 0 <= i < s.len() && is_repetitive(N::parts(#[trigger] s[i]), fields)
}

/// Whether a value is a list with an item in which one of some fields comes twice.
pub open spec fn items_repeat<N: Notation>(bytes: Option<Seq<u8>>, fields: Seq<Seq<char>>) -> bool {
    match bytes {
        Some(b) => match N::parts(b) {
            Parts::Items(s) => one_repeats::<N>(s, fields),
            _ => false,
        },
        None => false,
    }
}

/// Whether a field comes twice in a definition, in one of its rules or in one of
/// its effect rules.
pub open spec fn definition_repeats<N: Notation>(bytes: Seq<u8>) -> bool {
    let p = N::parts(bytes);
    ||| is_repetitive(p, machine_fields())
    ||| items_repeat::<N>(part_at(p, machine_fields(), 4), rule_fields())
    ||| items_repeat::<N>(part_at(p, machine_fields(), 5), effect_rule_fields())
}

/// Whether a key is one of some fields.
fn is_among(key: &str, fields: &[&str]) -> (r: bool)
    ensures
        r == slice_texts(fields@).contains(key@),
{
    let mut i: usize = 0;
    while i < fields.len()
        invariant
            i <= fields@.len(),
            forall|k: int| 0 <= k < i ==> slice_texts(fields@)[k] != key@,
        decreases fields@.len() - i,
    {
        assert(slice_texts(fields@)[i as int] == fields@[i as int]@);
        if *key == *fields[i] {
            return true;
        }
        i = i + 1;
    }
    false
}

/// Checks `repeats`.
fn has_repeats(pieces: &Vec<Piece<'_>>, fields: &[&str]) -> (r: bool)
    ensures
        r == repeats(piece_views(pieces@), slice_texts(fields@)),
{
    let ghost fs = piece_views(pieces@);
    let ghost known = slice_texts(fields@);
    let mut i: usize = 0;
    while i < pieces.len()
        invariant
            i <= pieces@.len(),
            fs == piece_views(pieces@),
            known == slice_texts(fields@),
            forall|a: int, b: int|
                0 <= a < i && a < b < fs.len() && (#[trigger] fs[a]).key == (#[trigger] fs[b]).key
                    ==> !known.contains(fs[a].key),
        decreases pieces@.len() - i,
    {
        if is_among(pieces[i].key.as_str(), fields) {
            let mut j: usize = i + 1;
            while j < pieces.len()
                invariant
                    i < j <= pieces@.len(),
                    fs == piece_views(pieces@),
                    known == slice_texts(fields@),
                    known.contains(fs[i as int].key),
                    forall|b: int| i < b < j ==> (#[trigger] fs[b]).key != fs[i as int].key,
                decreases pieces@.len() - j,
            {
                assert(fs[i as int].key == pieces@[i as int].key@);
                assert(fs[j as int].key == pieces@[j as int].key@);
                if *pieces[i].key.as_str() == *pieces[j].key.as_str() {
                    return true;
                }
                j = j + 1;
            }
        }
        i = i + 1;
    }
    false
}

/// Finds `raw_under`.
pub(crate) fn find_raw<'a>(pieces: &Vec<Piece<'a>>, key: &str) -> (r: Option<&'a [u8]>)
    ensures
        match r {
            Some(b) => raw_under(piece_views(pieces@), key@) == Some(b@),
            None => raw_under(piece_views(pieces@), key@) is None,
        },
{
    let ghost fs = piece_views(pieces@);
    let mut i: usize = 0;
    assert(fs.skip(0) =~= fs);
    while i < pieces.len()
        invariant
            i <= pieces@.len(),
            fs == piece_views(pieces@),
            raw_under(fs.skip(i as int), key@) == raw_under(fs, key@),
        decreases pieces@.len() - i,
    {
        assert(fs.skip(i as int)[0] == fs[i as int]);
        assert(fs.skip(i as int).skip(1) =~= fs.skip(i + 1));
        if *pieces[i].key.as_str() == *key {
            return Some(pieces[i].raw);
        }
        i = i + 1;
    }
    None
}

/// Checks `is_repetitive`.
fn has_repetition(p: &Pieces<'_>, fields: &[&str]) -> (r: bool)
    ensures
        r == is_repetitive(p@, slice_texts(fields@)),
{
    match p {
        Pieces::Fields(v) => has_repeats(v, fields),
        _ => false,
    }
}

/// Finds `part_at`.
fn find_part<'a>(p: &Pieces<'a>, fields: &[&str], place: usize) -> (r: Option<&'a [u8]>)
    requires
        place < fields@.len(),
    ensures
        match r {
            Some(b) => part_at(p@, slice_texts(fields@), place as int) == Some(b@),
            None => part_at(p@, slice_texts(fields@), place as int) is None,
        },
{
    match p {
        Pieces::Fields(v) => find_raw(v, fields[place]),
        Pieces::Items(v) => if v.len() == fields.len() {
            Some(v[place])
        } else {
            None
        },
        Pieces::Whole => None,
    }
}

/// Checks `items_repeat`.
fn has_repetitive_items<N: Notation>(bytes: Option<&[u8]>, fields: &[&str]) -> (r: bool)
    ensures
        r == items_repeat::<N>(
            match bytes {
                Some(b) => Some(b@),
                None => None,
            },
            slice_texts(fields@),
        ),
{
    let b = match bytes {
        Some(b) => b,
        None => {
            return false;
        },
    };
    let items = match N::split(b) {
        Pieces::Items(v) => v,
        _ => {
            return false;
        },
    };
    let ghost s = item_views(items@);
    let mut i: usize = 0;
    while i < items.len()
        invariant
            i <= items@.len(),
            s == item_views(items@),
            bytes == Some(b),
            N::parts(b@) == Parts::Items(s),
            forall|k: int|
                0 <= k < i ==> !is_repetitive(N::parts(#[trigger] s[k]), slice_texts(fields@)),
        decreases items@.len() - i,
    {
        assert(s[i as int] == items@[i as int]@);
        if has_repetition(&N::split(items[i]), fields) {
            assert(one_repeats::<N>(s, slice_texts(fields@)));
            return true;
        }
        i = i + 1;
    }
    false
}

/// Checks `definition_repeats`.
pub fn has_repeated_fields<N: Notation>(bytes: &[u8]) -> (r: bool)
    ensures
        r == definition_repeats::<N>(bytes@),
{
    let of_machine: [&str; 7] = [
        "name",
        "version",
        "states",
        "initial_state",
        "transitions",
        "effects",
        "created_at",
    ];
    let of_rule: [&str; 4] = ["event", "from_states", "to_state", "guards"];
    let of_effect: [&str; 3] = ["on_event", "effect", "payload"];
    proof {
        assert(slice_texts(of_machine@) =~= machine_fields());
        assert(slice_texts(of_rule@) =~= rule_fields());
        assert(slice_texts(of_effect@) =~= effect_rule_fields());
    }
    let p = N::split(bytes);
    let rules = find_part(&p, &of_machine, 4);
    let effects = find_part(&p, &of_machine, 5);
    has_repetition(&p, &of_machine) || has_repetitive_items::<N>(rules, &of_rule)
        || has_repetitive_items::<N>(effects, &of_effect)
}

// ---------------------------------------------------------------------------
// Orderly bytes
// ---------------------------------------------------------------------------

/// A field that is found is one of the fields.
proof fn lemma_found_field(fs: Seq<Field>, key: Seq<char>) -> (i: int)
    requires
        raw_under(fs, key) is Some,
    ensures
        0 <= i < fs.len(),
        fs[i].raw == raw_under(fs, key)->0,
    decreases fs.len(),
{
    if fs[0].key == key {
        0
    } else {
        let i = lemma_found_field(fs.skip(1), key);
        assert(fs.skip(1)[i] == fs[i + 1]);
        i + 1
    }
}

/// What stands in orderly bytes is orderly.
proof fn lemma_parts_are_orderly(bytes: Seq<u8>)
    requires
        is_orderly(bytes),
    ensures
        match packed_parts(bytes) {
            Parts::Fields(fs) => forall|i: int|
                0 <= i < fs.len() ==> is_orderly((#[trigger] fs[i]).raw),
            Parts::Items(s) => forall|i: int| 0 <= i < s.len() ==> is_orderly(#[trigger] s[i]),
            Parts::Whole => true,
        },
{
    match packed_parts(bytes) {
        Parts::Fields(fs) => {
            assert forall|i: int| 0 <= i < fs.len() implies is_orderly((#[trigger] fs[i]).raw) by {
                assert forall|n: nat| #[trigger] keys_are_single(fs[i].raw, n) by {
                    assert(keys_are_single(bytes, n + 1));
                }
            }
        },
        Parts::Items(s) => {
            assert forall|i: int| 0 <= i < s.len() implies is_orderly(#[trigger] s[i]) by {
                assert forall|n: nat| #[trigger] keys_are_single(s[i], n) by {
                    assert(keys_are_single(bytes, n + 1));
                }
            }
        },
        Parts::Whole => {},
    }
}

/// In orderly bytes no field comes twice.
proof fn lemma_nothing_repeats(bytes: Seq<u8>, fields: Seq<Seq<char>>)
    requires
        is_orderly(bytes),
    ensures
        !is_repetitive(packed_parts(bytes), fields),
        !items_repeat::<MessagePack>(Some(bytes), fields),
{
    assert(keys_are_single(bytes, 1));
    lemma_parts_are_orderly(bytes);
    if let Parts::Items(s) = packed_parts(bytes) {
        assert forall|i: int| 0 <= i < s.len() implies !is_repetitive(
            packed_parts(#[trigger] s[i]),
            fields,
        ) by {
            assert(keys_are_single(s[i], 1));
        }
    }
}

/// A part of orderly bytes is orderly.
proof fn lemma_part_is_orderly(bytes: Seq<u8>, fields: Seq<Seq<char>>, place: int)
    requires
        is_orderly(bytes),
        0 <= place < fields.len(),
        part_at(packed_parts(bytes), fields, place) is Some,
    ensures
        is_orderly(part_at(packed_parts(bytes), fields, place)->0),
{
    lemma_parts_are_orderly(bytes);
    if let Parts::Fields(fs) = packed_parts(bytes) {
        let i = lemma_found_field(fs, fields[place]);
        assert(is_orderly(fs[i].raw));
    }
}

/// No field comes twice in a definition whose bytes are orderly.
pub proof fn law_orderly_definitions_do_not_repeat(bytes: Seq<u8>)
    requires
        is_orderly(bytes),
    ensures
        !definition_repeats::<MessagePack>(bytes),
{
    let p = packed_parts(bytes);
    let fields = machine_fields();
    lemma_nothing_repeats(bytes, fields);
    if part_at(p, fields, 4) is Some {
        lemma_part_is_orderly(bytes, fields, 4);
        lemma_nothing_repeats(part_at(p, fields, 4)->0, rule_fields());
    }
    if part_at(p, fields, 5) is Some {
        lemma_part_is_orderly(bytes, fields, 5);
        lemma_nothing_repeats(part_at(p, fields, 5)->0, effect_rule_fields());
    }
}

/// What stands under a key in orderly bytes is orderly.
pub(crate) proof fn lemma_field_is_orderly(bytes: Seq<u8>, fs: Seq<Field>, key: Seq<char>)
    requires
        is_orderly(bytes),
        packed_parts(bytes) == Parts::Fields(fs),
        raw_under(fs, key) is Some,
    ensures
        is_orderly(raw_under(fs, key)->0),
{
    lemma_parts_are_orderly(bytes);
    let i = lemma_found_field(fs, key);
    if let Parts::Fields(same) = packed_parts(bytes) {
        assert(is_orderly(same[i].raw));
    }
}

/// A field at the end is found where none before it has its key.
proof fn lemma_raw_of_longer(fs: Seq<Field>, f: Field, key: Seq<char>)
    ensures
        raw_under(fs.push(f), key) == (match raw_under(fs, key) {
            Some(raw) => Some(raw),
            None => if f.key == key {
                Some(f.raw)
            } else {
                None
            },
        }),
    decreases fs.len(),
{
    reveal_with_fuel(raw_under, 2);
    let longer = fs.push(f);
    if fs.len() == 0 {
        assert(longer.skip(1) =~= Seq::<Field>::empty());
    } else {
        assert(longer[0] == fs[0]);
        assert(longer.skip(1) =~= fs.skip(1).push(f));
        lemma_raw_of_longer(fs.skip(1), f, key);
    }
}

/// What stands under a known key does not depend on the unknown ones.
pub(crate) proof fn lemma_known_raw(es: Seq<Entry>, fields: Seq<Seq<char>>, key: Seq<char>)
    requires
        fields.contains(key),
    ensures
        raw_under(fields_of(es), key) == raw_under(fields_of(known(es, fields)), key),
    decreases es.len(),
{
    reveal(Seq::filter);
    if es.len() > 0 {
        let shorter = es.drop_last();
        let last = es.last();
        let f = Field { key: last.key, raw: last.raw };
        lemma_known_raw(shorter, fields, key);
        assert(fields_of(es) =~= fields_of(shorter).push(f));
        lemma_raw_of_longer(fields_of(shorter), f, key);
        if fields.contains(last.key) {
            let k = known(shorter, fields);
            assert(known(es, fields) == k.push(last));
            assert(fields_of(k.push(last)) =~= fields_of(k).push(f));
            lemma_raw_of_longer(fields_of(k), f, key);
        }
    }
}

/// A definition in which a field comes twice is found out, and so is one of which a
/// rule or an effect does so.
pub proof fn law_repeated_fields_are_found<N: Notation>(
    bytes: &[u8],
    fs: Seq<Field>,
    i: int,
    j: int,
    items: Seq<Seq<u8>>,
    k: int,
    gs: Seq<Field>,
    p: int,
    q: int,
    r: bool,
)
    requires
        call_ensures(has_repeated_fields::<N>, (bytes,), r),
        N::parts(bytes@) == Parts::Fields(fs),
    ensures
        0 <= i < j < fs.len() && fs[i].key == fs[j].key && (fs[i].key == "name"@ || fs[i].key
            == "version"@ || fs[i].key == "states"@ || fs[i].key == "initial_state"@ || fs[i].key
            == "transitions"@ || fs[i].key == "effects"@ || fs[i].key == "created_at"@) ==> r,
        0 <= i < fs.len() && N::parts(fs[i].raw) == Parts::Items(items) && 0 <= k < items.len()
            && N::parts(items[k]) == Parts::Fields(gs) && 0 <= p < q < gs.len() && gs[p].key
            == gs[q].key ==> {
            &&& fs[i].key == "transitions"@ && (gs[p].key == "event"@ || gs[p].key
                == "from_states"@ || gs[p].key == "to_state"@ || gs[p].key == "guards"@) ==> r
            &&& fs[i].key == "effects"@ && (gs[p].key == "on_event"@ || gs[p].key == "effect"@
                || gs[p].key == "payload"@) ==> r
        },
{
    let names = machine_fields();
    assert(names[0] == "name"@ && names[1] == "version"@ && names[2] == "states"@ && names[3]
        == "initial_state"@ && names[4] == "transitions"@ && names[5] == "effects"@ && names[6]
        == "created_at"@);
    let rule = rule_fields();
    assert(rule[0] == "event"@ && rule[1] == "from_states"@ && rule[2] == "to_state"@ && rule[3]
        == "guards"@);
    let effect = effect_rule_fields();
    assert(effect[0] == "on_event"@ && effect[1] == "effect"@ && effect[2] == "payload"@);
    if 0 <= i < fs.len() {
        lemma_first_of_key(fs, i);
        if !repeats(fs, names) && names.contains(fs[i].key) {
            assert(raw_under(fs, fs[i].key) == Some(fs[i].raw));
        }
    }
    if 0 <= k < items.len() {
        assert(items[k] == items[k]);
    }
}

/// Where a key does not come twice, the bytes under it are those of its field.
proof fn lemma_first_of_key(fs: Seq<Field>, i: int)
    requires
        0 <= i < fs.len(),
    ensures
        (forall|j: int| 0 <= j < i ==> (#[trigger] fs[j]).key != fs[i].key) ==> raw_under(
            fs,
            fs[i].key,
        ) == Some(fs[i].raw),
    decreases fs.len(),
{
    if i > 0 && forall|j: int| 0 <= j < i ==> (#[trigger] fs[j]).key != fs[i].key {
        let rest = fs.skip(1);
        assert(rest[i - 1] == fs[i]);
        assert forall|j: int| 0 <= j < i - 1 implies (#[trigger] rest[j]).key != rest[i - 1].key by {
            assert(rest[j] == fs[j + 1]);
        }
        lemma_first_of_key(rest, i - 1);
    }
}

} // verus!
