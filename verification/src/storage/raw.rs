//! How the tables of the embedded database hold a store.
//!
//! | table                | key                                  | value              |
//! |----------------------|--------------------------------------|--------------------|
//! | `machines`           | name, NUL, version in ten digits     | machine            |
//! | `entity_states`      | entity, NUL, machine                 | entity             |
//! | `transitions`        | sequence number                      | transition         |
//! | `transitions_by_id`  | transition identifier                | sequence number    |
//! | `entity_transitions` | entity, NUL, machine, NUL, sequence number in twenty digits | sequence number |
//! | `effects`            | effect identifier                    | effect             |
//! | `effects_by_txn`     | transition identifier, NUL, position in twenty digits | effect identifier |
//! | `idempotency`        | idempotency key                      | sequence number    |
//! | `meta`               | `sequence`                           | last sequence number |
use crate::fsm::record::{EffectStatus, EffectView, EntityView, RecordView};
use crate::fsm::machine::MachineView;
use crate::order::{
    lemma_fixed_injective, lemma_fixed_len, lemma_fixed_order, lemma_text_lt_asymmetric,
    lemma_text_lt_prefix, lemma_widths, text_lt,
};
use crate::storage::engine::with_status;
use crate::storage::model::{
    entity_key, law_machine_keys_differ, lemma_suffix, machine_key, record_key, StoreModel,
};
use crate::storage::rows::{effect_of, entity_of, machine_of, record_of, settled};
use crate::storage::tables::{made, table, Tables};
use crate::text::fixed;
use vstd::arithmetic::power::pow;
use vstd::prelude::*;

verus! {

/// The contents of the nine tables.
#[verifier::ext_equal]
pub struct Raw {
    pub machines: Map<Seq<char>, Seq<u8>>,
    pub entities: Map<Seq<char>, Seq<u8>>,
    pub effects: Map<Seq<char>, Seq<u8>>,
    pub log: Map<u64, Seq<u8>>,
    pub by_id: Map<Seq<char>, u64>,
    pub index: Map<Seq<char>, u64>,
    pub idempotency: Map<Seq<char>, u64>,
    pub meta: Map<Seq<char>, u64>,
    pub emitted: Map<Seq<char>, Seq<char>>,
}

/// The nine tables of a database.
pub open spec fn raw_of(t: Tables) -> Raw {
    Raw {
        machines: table(t.blobs, "machines"@),
        entities: table(t.blobs, "entity_states"@),
        effects: table(t.blobs, "effects"@),
        log: table(t.rows, "transitions"@),
        by_id: table(t.numbers, "transitions_by_id"@),
        index: table(t.numbers, "entity_transitions"@),
        idempotency: table(t.numbers, "idempotency"@),
        meta: table(t.numbers, "meta"@),
        emitted: table(t.names, "effects_by_txn"@),
    }
}

/// The names of the tables from text to bytes.
pub open spec fn blob_tables() -> Seq<Seq<char>> {
    seq!["machines"@, "entity_states"@, "effects"@]
}

/// The names of the tables from text to number.
pub open spec fn number_tables() -> Seq<Seq<char>> {
    seq!["transitions_by_id"@, "entity_transitions"@, "idempotency"@, "meta"@]
}

/// A group in which there are tables with all the names.
pub open spec fn all_made<K, V>(group: Map<Seq<char>, Map<K, V>>, names: Seq<Seq<char>>) -> Map<
    Seq<char>,
    Map<K, V>,
>
    decreases names.len(),
{
    if names.len() == 0 {
        group
    } else {
        made(all_made(group, names.drop_last()), names.last())
    }
}

/// A database with the nine tables: those that were missing are empty, and
/// nothing else differs.
pub open spec fn with_tables(t: Tables) -> Tables {
    Tables {
        blobs: all_made(t.blobs, blob_tables()),
        rows: made(t.rows, "transitions"@),
        numbers: all_made(t.numbers, number_tables()),
        names: made(t.names, "effects_by_txn"@),
    }
}

/// Whether all nine tables are there.
pub open spec fn has_tables(t: Tables) -> bool {
    &&& forall|i: int|
        0 <= i < blob_tables().len() ==> t.blobs.contains_key(#[trigger] blob_tables()[i])
    &&& t.rows.contains_key("transitions"@)
    &&& forall|i: int|
        0 <= i < number_tables().len() ==> t.numbers.contains_key(#[trigger] number_tables()[i])
    &&& t.names.contains_key("effects_by_txn"@)
}

/// Making tables makes those that are named, and changes what no table holds.
proof fn lemma_all_made<K, V>(group: Map<Seq<char>, Map<K, V>>, names: Seq<Seq<char>>)
    ensures
        forall|i: int|
            0 <= i < names.len() ==> all_made(group, names).contains_key(#[trigger] names[i]),
        forall|n: Seq<char>| #[trigger]
            group.contains_key(n) ==> all_made(group, names).contains_key(n),
        forall|n: Seq<char>| #[trigger] table(all_made(group, names), n) == table(group, n),
    decreases names.len(),
{
    if names.len() > 0 {
        let fewer = names.drop_last();
        lemma_all_made(group, fewer);
        assert forall|i: int| 0 <= i < names.len() implies all_made(group, names).contains_key(
            #[trigger] names[i],
        ) by {
            if i < fewer.len() {
                assert(fewer[i] == names[i]);
            }
        }
        assert forall|n: Seq<char>| #[trigger] table(all_made(group, names), n) == table(
            group,
            n,
        ) by {
            assert(table(all_made(group, fewer), n) == table(group, n));
        }
    }
}

/// A database with the nine tables holds what it held.
pub proof fn lemma_with_tables(t: Tables)
    ensures
        has_tables(with_tables(t)),
        raw_of(with_tables(t)) == raw_of(t),
{
    lemma_all_made(t.blobs, blob_tables());
    lemma_all_made(t.numbers, number_tables());
}

/// The names of the tables differ where they have to, and none is empty.
pub proof fn lemma_table_names()
    ensures
        "machines"@ != "entity_states"@,
        "machines"@ != "effects"@,
        "entity_states"@ != "effects"@,
        "transitions_by_id"@ != "entity_transitions"@,
        "transitions_by_id"@ != "idempotency"@,
        "transitions_by_id"@ != "meta"@,
        "entity_transitions"@ != "idempotency"@,
        "entity_transitions"@ != "meta"@,
        "idempotency"@ != "meta"@,
        "machines"@.len() > 0,
        "entity_states"@.len() > 0,
        "effects"@.len() > 0,
        "transitions"@.len() > 0,
        "transitions_by_id"@.len() > 0,
        "entity_transitions"@.len() > 0,
        "effects_by_txn"@.len() > 0,
        "idempotency"@.len() > 0,
        "meta"@.len() > 0,
{
    reveal_strlit("machines");
    reveal_strlit("entity_states");
    reveal_strlit("effects");
    reveal_strlit("transitions");
    reveal_strlit("transitions_by_id");
    reveal_strlit("entity_transitions");
    reveal_strlit("effects_by_txn");
    reveal_strlit("idempotency");
    reveal_strlit("meta");
    assert("machines"@.len() == 8 && "entity_states"@.len() == 13 && "effects"@.len() == 7);
    assert("transitions_by_id"@.len() == 17 && "entity_transitions"@.len() == 18);
    assert("idempotency"@.len() == 11 && "meta"@.len() == 4);
}

/// A key with a number behind it: the base, a NUL, and twenty digits.
pub open spec fn numbered_key(base: Seq<char>, n: nat) -> Seq<char> {
    base + seq!['\0'] + fixed(n, 20)
}

/// Numbered keys differ where the bases or the numbers do.
pub proof fn lemma_numbered_keys_differ(a: Seq<char>, n: u64, b: Seq<char>, m: u64)
    requires
        numbered_key(a, n as nat) == numbered_key(b, m as nat),
    ensures
        a == b,
        n == m,
{
    lemma_fixed_len(n as nat, 20);
    lemma_fixed_len(m as nat, 20);
    lemma_suffix(a + seq!['\0'], fixed(n as nat, 20), b + seq!['\0'], fixed(m as nat, 20));
    lemma_suffix(a, seq!['\0'], b, seq!['\0']);
    lemma_widths();
    lemma_fixed_injective(n as nat, m as nat, 20);
}

/// Numbered keys with one base are ordered as the numbers are.
pub proof fn lemma_numbered_keys_order(base: Seq<char>, n: u64, m: u64)
    requires
        text_lt(numbered_key(base, n as nat), numbered_key(base, m as nat)),
    ensures
        n < m,
{
    lemma_widths();
    let p = base + seq!['\0'];
    lemma_text_lt_prefix(p, fixed(n as nat, 20), fixed(m as nat, 20));
    if m < n {
        lemma_fixed_order(m as nat, n as nat, 20);
        lemma_text_lt_asymmetric(fixed(n as nat, 20), fixed(m as nat, 20));
    }
    if m == n {
        crate::order::lemma_text_lt_irreflexive(fixed(n as nat, 20));
    }
}

/// The identifiers that the index of emitted effects holds for a transition,
/// from a position on up to the first gap.
pub open spec fn ids_from(emitted: Map<Seq<char>, Seq<char>>, t: Seq<char>, i: nat) -> Seq<
    Seq<char>,
>
    decreases u64::MAX - i,
{
    if i < u64::MAX && emitted.contains_key(numbered_key(t, i)) {
        seq![emitted[numbered_key(t, i)]] + ids_from(emitted, t, i + 1)
    } else {
        Seq::empty()
    }
}

/// Whether the index of emitted effects holds `id` at a position.
pub open spec fn id_at(
    emitted: Map<Seq<char>, Seq<char>>,
    t: Seq<char>,
    position: int,
    id: Seq<char>,
) -> bool {
    emitted.contains_key(numbered_key(t, position as nat)) && emitted[numbered_key(
        t,
        position as nat,
    )] == id
}

/// What the identifiers from a position on are, and where they end.
pub proof fn lemma_ids(emitted: Map<Seq<char>, Seq<char>>, t: Seq<char>, i: nat)
    requires
        i <= u64::MAX,
    ensures
        ({
            let ids = ids_from(emitted, t, i);
            &&& i + ids.len() <= u64::MAX
            &&& forall|j: int|
                #![trigger ids[j]]
                0 <= j < ids.len() ==> id_at(emitted, t, i + j, ids[j])
            &&& i + ids.len() < u64::MAX ==> !emitted.contains_key(
                numbered_key(t, (i + ids.len()) as nat),
            )
        }),
    decreases u64::MAX - i,
{
    if i < u64::MAX && emitted.contains_key(numbered_key(t, i)) {
        lemma_ids(emitted, t, i + 1);
        let ids = ids_from(emitted, t, i);
        let rest = ids_from(emitted, t, i + 1);
        assert forall|j: int| #![trigger ids[j]] 0 <= j < ids.len() implies id_at(
            emitted,
            t,
            i + j,
            ids[j],
        ) by {
            if j > 0 {
                assert(ids[j] == rest[j - 1]);
                assert(id_at(emitted, t, (i + 1) + (j - 1), rest[j - 1]));
            }
        }
        assert(i + ids.len() == i + 1 + rest.len());
    }
}

/// A sequence that is what the index holds, and ends where it does, is all the
/// identifiers.
pub proof fn lemma_ids_are(
    emitted: Map<Seq<char>, Seq<char>>,
    t: Seq<char>,
    i: nat,
    s: Seq<Seq<char>>,
)
    requires
        i + s.len() <= u64::MAX,
        forall|j: int| #![trigger s[j]] 0 <= j < s.len() ==> id_at(emitted, t, i + j, s[j]),
        i + s.len() < u64::MAX ==> !emitted.contains_key(
            numbered_key(t, (i + s.len()) as nat),
        ),
    ensures
        ids_from(emitted, t, i) == s,
    decreases s.len(),
{
    if s.len() == 0 {
        assert(ids_from(emitted, t, i) =~= s);
    } else {
        assert(id_at(emitted, t, i + 0int, s[0]));
        let rest = s.drop_first();
        assert forall|j: int| #![trigger rest[j]] 0 <= j < rest.len() implies id_at(
            emitted,
            t,
            (i + 1) + j,
            rest[j],
        ) by {
            assert(rest[j] == s[j + 1]);
            assert(id_at(emitted, t, i + (j + 1), s[j + 1]));
        }
        lemma_ids_are(emitted, t, i + 1, rest);
        assert(ids_from(emitted, t, i) =~= s);
    }
}

/// The store that nine tables hold.
pub open spec fn model_of(raw: Raw) -> StoreModel {
    StoreModel {
        machines: Map::new(
            |k: (Seq<char>, u32)| raw.machines.contains_key(machine_key(k.0, k.1)),
            |k: (Seq<char>, u32)| machine_of(raw.machines[machine_key(k.0, k.1)]),
        ),
        entities: raw.entities.map_values(|b: Seq<u8>| entity_of(b)),
        log: raw.log.map_values(|b: Seq<u8>| record_of(b)),
        by_id: raw.by_id,
        effects: raw.effects.map_values(|b: Seq<u8>| effect_of(b)),
        emitted: Map::total(|t: Seq<char>| ids_from(raw.emitted, t, 0)),
        idempotency: raw.idempotency,
        sequence: if raw.meta.contains_key("sequence"@) {
            raw.meta["sequence"@]
        } else {
            0
        },
    }
}

/// Whether nine tables hold a store in order: the store is, every definition
/// stands under its key, the index of histories matches the log, and the index
/// of emitted effects has no gaps.
pub open spec fn raw_wf(raw: Raw) -> bool {
    let m = model_of(raw);
    &&& m.wf()
    &&& forall|k: Seq<char>| #[trigger]
        raw.machines.contains_key(k) ==> k == machine_key(
            machine_of(raw.machines[k]).name,
            machine_of(raw.machines[k]).version,
        )
    &&& forall|k: Seq<char>| #[trigger]
        raw.index.contains_key(k) ==> m.log.contains_key(raw.index[k]) && k == numbered_key(
            record_key(m.log[raw.index[k]]),
            raw.index[k] as nat,
        )
    &&& forall|n: u64|
        m.log.contains_key(n) ==> raw.index.contains_key(
            numbered_key(record_key(#[trigger] m.log[n]), n as nat),
        )
    &&& forall|t: Seq<char>, j: nat|
        j < u64::MAX && #[trigger] raw.emitted.contains_key(numbered_key(t, j)) ==> j < ids_from(
            raw.emitted,
            t,
            0,
        ).len()
}

/// The tables after a definition was added.
pub open spec fn raw_with_machine(raw: Raw, name: Seq<char>, version: u32, bytes: Seq<u8>) -> Raw {
    Raw { machines: raw.machines.insert(machine_key(name, version), bytes), ..raw }
}

/// The tables after an entity was put in place.
pub open spec fn raw_with_entity(raw: Raw, key: Seq<char>, bytes: Seq<u8>) -> Raw {
    Raw { entities: raw.entities.insert(key, bytes), ..raw }
}

/// The tables after a transition was appended.
pub open spec fn raw_with_record(raw: Raw, n: u64, r: RecordView, bytes: Seq<u8>) -> Raw {
    Raw {
        log: raw.log.insert(n, bytes),
        by_id: raw.by_id.insert(r.id, n),
        index: raw.index.insert(numbered_key(record_key(r), n as nat), n),
        meta: raw.meta.insert("sequence"@, n),
        ..raw
    }
}

/// The tables after an effect was put into the outbox.
pub open spec fn raw_with_effect(raw: Raw, t: Seq<char>, id: Seq<char>, bytes: Seq<u8>) -> Raw {
    let ids = ids_from(raw.emitted, t, 0);
    Raw {
        effects: raw.effects.insert(id, bytes),
        emitted: if ids.contains(id) {
            raw.emitted
        } else {
            raw.emitted.insert(numbered_key(t, ids.len()), id)
        },
        ..raw
    }
}

/// The tables after an idempotency key was stored.
pub open spec fn raw_with_key(raw: Raw, key: Seq<char>, n: u64) -> Raw {
    Raw { idempotency: raw.idempotency.insert(key, n), ..raw }
}

pub proof fn lemma_blank()
    ensures
        raw_wf(raw_of(Tables::blank())),
        model_of(raw_of(Tables::blank())) == StoreModel::empty(),
{
    let raw = raw_of(Tables::blank());
    let m = model_of(raw);
    assert forall|t: Seq<char>| #[trigger] m.emitted[t] == Seq::<Seq<char>>::empty() by {
        assert(ids_from(raw.emitted, t, 0) == Seq::<Seq<char>>::empty());
    }
    assert(m =~= StoreModel::empty());
}

pub proof fn lemma_with_machine(raw: Raw, m: MachineView, bytes: Seq<u8>)
    requires
        raw_wf(raw),
        machine_of(bytes) == settled(m),
    ensures
        ({
            let after = raw_with_machine(raw, m.name, m.version, bytes);
            raw_wf(after) && model_of(after) == model_of(raw).with_machine(m)
        }),
{
    let after = raw_with_machine(raw, m.name, m.version, bytes);
    let want = model_of(raw).with_machine(m);
    assert forall|k: (Seq<char>, u32)| #![trigger want.machines.contains_key(k)]
        (model_of(after).machines.contains_key(k) <==> want.machines.contains_key(k)) && (
        want.machines.contains_key(k) ==> model_of(after).machines[k] == want.machines[k]) by {
        if machine_key(k.0, k.1) == machine_key(m.name, m.version) {
            law_machine_keys_differ(k.0, k.1, m.name, m.version);
        }
    }
    assert(model_of(after).machines =~= want.machines);
    assert(model_of(after) =~= want);
    assert forall|k: (Seq<char>, u32)| #[trigger] want.machines.contains_key(k) implies (
    want.machines[k].name, want.machines[k].version) == k by {
        if k != (m.name, m.version) {
            assert(model_of(raw).machines.contains_key(k));
        }
    }
    assert(want.wf());
}

pub proof fn lemma_with_entity(raw: Raw, e: EntityView, bytes: Seq<u8>)
    requires
        raw_wf(raw),
        entity_of(bytes) == e,
    ensures
        ({
            let after = raw_with_entity(raw, entity_key(e.entity_id, e.machine), bytes);
            raw_wf(after) && model_of(after) == model_of(raw).with_entity(e)
        }),
{
    let k = entity_key(e.entity_id, e.machine);
    let after = raw_with_entity(raw, k, bytes);
    let want = model_of(raw).with_entity(e);
    assert(model_of(after).entities =~= want.entities);
    assert(model_of(after) =~= want);
    assert forall|x: Seq<char>| #[trigger] want.entities.contains_key(x) implies entity_key(
        want.entities[x].entity_id,
        want.entities[x].machine,
    ) == x by {
        if x != k {
            assert(model_of(raw).entities.contains_key(x));
        }
    }
    assert(want.wf());
}

pub proof fn lemma_with_record(raw: Raw, r: RecordView, bytes: Seq<u8>)
    requires
        raw_wf(raw),
        model_of(raw).sequence < u64::MAX,
        record_of(bytes) == model_of(raw).numbered(r),
    ensures
        ({
            let n = (model_of(raw).sequence + 1) as u64;
            let after = raw_with_record(raw, n, r, bytes);
            raw_wf(after) && model_of(after) == model_of(raw).with_record(r)
        }),
{
    let m = model_of(raw);
    let n = (m.sequence + 1) as u64;
    let after = raw_with_record(raw, n, r, bytes);
    let want = m.with_record(r);
    assert(model_of(after).log =~= want.log);
    assert(model_of(after) =~= want);
    assert(!m.log.contains_key(n));
    assert forall|x: u64| #[trigger] want.log.contains_key(x) <==> 1 <= x <= want.sequence by {
        assert(m.log.contains_key(x) <==> 1 <= x <= m.sequence);
    }
    assert forall|x: u64| want.log.contains_key(x) implies (#[trigger] want.log[x]).sequence
        == x by {
        if x != n {
            assert(m.log.contains_key(x));
        }
    }
    assert forall|k: Seq<char>| #[trigger] want.by_id.contains_key(k) implies want.log.contains_key(
        want.by_id[k],
    ) && want.log[want.by_id[k]].id == k by {
        if k != r.id {
            assert(m.by_id.contains_key(k));
        }
    }
    assert forall|x: u64| want.log.contains_key(x) implies want.by_id.contains_key(
        (#[trigger] want.log[x]).id,
    ) by {
        if x != n {
            assert(m.log.contains_key(x));
            assert(m.by_id.contains_key(m.log[x].id));
        }
    }
    assert forall|k: Seq<char>| #[trigger]
        want.idempotency.contains_key(k) implies want.log.contains_key(want.idempotency[k])
        && want.log[want.idempotency[k]].idempotency_key == Some(k) by {
        assert(m.idempotency.contains_key(k));
    }
    assert(want.wf());
    assert forall|k: Seq<char>| #[trigger] after.index.contains_key(k) implies want.log.contains_key(
        after.index[k],
    ) && k == numbered_key(record_key(want.log[after.index[k]]), after.index[k] as nat) by {
        if k != numbered_key(record_key(r), n as nat) {
            assert(raw.index.contains_key(k));
        }
    }
    assert forall|x: u64| want.log.contains_key(x) implies after.index.contains_key(
        numbered_key(record_key(#[trigger] want.log[x]), x as nat),
    ) by {
        if x != n {
            assert(m.log.contains_key(x));
            assert(raw.index.contains_key(numbered_key(record_key(m.log[x]), x as nat)));
        }
    }
}

pub proof fn lemma_with_effect(raw: Raw, e: EffectView, bytes: Seq<u8>)
    requires
        raw_wf(raw),
        effect_of(bytes) == e,
        ids_from(raw.emitted, e.transition_id, 0).len() + 1 < u64::MAX,
    ensures
        ({
            let after = raw_with_effect(raw, e.transition_id, e.id, bytes);
            raw_wf(after) && model_of(after) == model_of(raw).with_effect(e)
        }),
{
    let m = model_of(raw);
    let t = e.transition_id;
    let ids = ids_from(raw.emitted, t, 0);
    let after = raw_with_effect(raw, t, e.id, bytes);
    let want = m.with_effect(e);
    lemma_ids(raw.emitted, t, 0);
    assert(m.emitted[t] == ids);
    assert(model_of(after).effects =~= want.effects);
    if !ids.contains(e.id) {
        let at = numbered_key(t, ids.len());
        let longer = ids.push(e.id);
        assert forall|j: int| #![trigger longer[j]] 0 <= j < longer.len() implies id_at(
            after.emitted,
            t,
            0 + j,
            longer[j],
        ) by {
            if j < ids.len() {
                assert(id_at(raw.emitted, t, 0 + j, ids[j]));
                if numbered_key(t, j as nat) == at {
                    lemma_numbered_keys_differ(t, j as u64, t, ids.len() as u64);
                }
            }
        }
        let next = (ids.len() + 1) as nat;
        if after.emitted.contains_key(numbered_key(t, next)) {
            if numbered_key(t, next) == at {
                lemma_numbered_keys_differ(t, next as u64, t, ids.len() as u64);
            }
            assert(raw.emitted.contains_key(numbered_key(t, next)));
            assert(false);
        }
        lemma_ids_are(after.emitted, t, 0, longer);
        assert forall|u: Seq<char>| u != t implies #[trigger] ids_from(after.emitted, u, 0)
            == ids_from(raw.emitted, u, 0) by {
            lemma_ids(raw.emitted, u, 0);
            let old_ids = ids_from(raw.emitted, u, 0);
            assert forall|j: int| #![trigger old_ids[j]] 0 <= j < old_ids.len() implies id_at(
                after.emitted,
                u,
                0 + j,
                old_ids[j],
            ) by {
                assert(id_at(raw.emitted, u, 0 + j, old_ids[j]));
                if numbered_key(u, j as nat) == at {
                    lemma_numbered_keys_differ(u, j as u64, t, ids.len() as u64);
                }
            }
            if numbered_key(u, old_ids.len()) == at {
                lemma_numbered_keys_differ(u, old_ids.len() as u64, t, ids.len() as u64);
            }
            lemma_ids_are(after.emitted, u, 0, old_ids);
        }
        assert forall|u: Seq<char>| #[trigger] model_of(after).emitted[u] == want.emitted[u] by {
            if u != t {
                assert(ids_from(after.emitted, u, 0) == ids_from(raw.emitted, u, 0));
            }
        }
        assert(model_of(after).emitted =~= want.emitted);
        assert forall|u: Seq<char>, j: nat|
            j < u64::MAX && #[trigger] after.emitted.contains_key(numbered_key(u, j)) implies j
            < ids_from(after.emitted, u, 0).len() by {
            if numbered_key(u, j) == at {
                lemma_numbered_keys_differ(u, j as u64, t, ids.len() as u64);
            } else {
                assert(raw.emitted.contains_key(numbered_key(u, j)));
                if u != t {
                    assert(ids_from(after.emitted, u, 0) == ids_from(raw.emitted, u, 0));
                }
            }
        }
    }
    assert(model_of(after) =~= want);
    assert forall|k: Seq<char>| #[trigger] want.effects.contains_key(k) implies want.effects[k].id
        == k by {
        if k != e.id {
            assert(m.effects.contains_key(k));
        }
    }
    assert forall|u: Seq<char>, i: int| 0 <= i < want.emitted[u].len() implies
        want.effects.contains_key(#[trigger] want.emitted[u][i]) by {
        if i < m.emitted[u].len() {
            assert(want.emitted[u][i] == m.emitted[u][i]);
            assert(m.effects.contains_key(m.emitted[u][i]));
        }
    }
    assert(want.wf());
}

pub proof fn lemma_with_key(raw: Raw, key: Seq<char>)
    requires
        raw_wf(raw),
        model_of(raw).sequence >= 1,
        model_of(raw).log[model_of(raw).sequence].idempotency_key == Some(key),
    ensures
        ({
            let after = raw_with_key(raw, key, model_of(raw).sequence);
            raw_wf(after) && model_of(after) == model_of(raw).with_key(Some(key))
        }),
{
    let m = model_of(raw);
    let after = raw_with_key(raw, key, m.sequence);
    let want = m.with_key(Some(key));
    assert(model_of(after) =~= want);
    assert(m.log.contains_key(m.sequence));
    assert forall|k: Seq<char>| #[trigger]
        want.idempotency.contains_key(k) implies want.log.contains_key(want.idempotency[k])
        && want.log[want.idempotency[k]].idempotency_key == Some(k) by {
        if k != key {
            assert(m.idempotency.contains_key(k));
        }
    }
    assert(want.wf());
}

pub proof fn lemma_with_status(raw: Raw, id: Seq<char>, status: EffectStatus, bytes: Seq<u8>)
    requires
        raw_wf(raw),
        raw.effects.contains_key(id),
        effect_of(bytes) == (EffectView { status, ..model_of(raw).effects[id] }),
    ensures
        ({
            let after = Raw { effects: raw.effects.insert(id, bytes), ..raw };
            raw_wf(after) && model_of(after) == with_status(model_of(raw), id, status)
        }),
{
    let m = model_of(raw);
    let after = Raw { effects: raw.effects.insert(id, bytes), ..raw };
    let want = with_status(m, id, status);
    assert(model_of(after).effects =~= want.effects);
    assert(model_of(after) =~= want);
    assert(m.effects.contains_key(id));
    assert forall|k: Seq<char>| #[trigger] want.effects.contains_key(k) implies want.effects[k].id
        == k by {
        if k != id {
            assert(m.effects.contains_key(k));
        }
    }
    assert forall|u: Seq<char>, i: int| 0 <= i < want.emitted[u].len() implies
        want.effects.contains_key(#[trigger] want.emitted[u][i]) by {
        assert(m.effects.contains_key(m.emitted[u][i]));
    }
    assert(want.wf());
}

/// Ascending numbers that are exactly those of an entity's transitions are its
/// history.
pub proof fn lemma_numbers_are(m: StoreModel, key: Seq<char>, after: u64, upto: u64, s: Seq<u64>)
    requires
        forall|i: int, j: int| 0 <= i < j < s.len() ==> s[i] < s[j],
        forall|n: u64| #[trigger]
            s.contains(n) <==> after < n <= upto && m.log.contains_key(n) && record_key(m.log[n])
                == key,
    ensures
        s == m.numbers_of(key, after, upto),
    decreases upto,
{
    if upto <= after {
        if s.len() > 0 {
            assert(s.contains(s[0]));
        }
        assert(s =~= m.numbers_of(key, after, upto));
    } else {
        let below = (upto - 1) as u64;
        if m.log.contains_key(upto) && record_key(m.log[upto]) == key {
            assert(s.contains(upto));
            let i = choose|i: int| 0 <= i < s.len() && s[i] == upto;
            if i < s.len() - 1 {
                assert(s[i] < s[i + 1]);
                assert(s.contains(s[i + 1]));
            }
            let rest = s.drop_last();
            assert forall|n: u64| #[trigger] rest.contains(n) <==> after < n <= below
                && m.log.contains_key(n) && record_key(m.log[n]) == key by {
                if rest.contains(n) {
                    let j = choose|j: int| 0 <= j < rest.len() && rest[j] == n;
                    assert(s[j] == n && s[j] < s[s.len() - 1]);
                    assert(s.contains(n));
                }
                if after < n <= below && m.log.contains_key(n) && record_key(m.log[n]) == key {
                    assert(s.contains(n));
                    let j = choose|j: int| 0 <= j < s.len() && s[j] == n;
                    assert(rest[j] == n);
                }
            }
            assert forall|i: int, j: int| 0 <= i < j < rest.len() implies rest[i] < rest[j] by {
                assert(s[i] < s[j]);
            }
            lemma_numbers_are(m, key, after, below, rest);
            assert(s =~= rest.push(upto));
        } else {
            assert forall|n: u64| #[trigger] s.contains(n) <==> after < n <= below
                && m.log.contains_key(n) && record_key(m.log[n]) == key by {}
            lemma_numbers_are(m, key, after, below, s);
        }
    }
}

} // verus!
