//! Whether a database holds a store in order.
use crate::fsm::record::TransitionRecord;
use crate::order::{lemma_fixed_len, lemma_fixed_value, lemma_widths};
use crate::storage::error::StorageError;
use crate::storage::keys::{
    definition_key, effect_by_txn_key, entity_state_key, entity_transition_key, key_with_number,
};
use crate::storage::model::{entity_key, law_machine_keys_differ, machine_key, record_key};
use crate::storage::raw::{
    id_at, ids_from, lemma_ids, lemma_numbered_keys_differ, lemma_table_names, model_of,
    numbered_key, raw_wf, Raw,
};
use crate::storage::reading::{
    all_blobs, all_names, all_numbers, all_rows, blob_at, name_at, number_at, read_failed,
    read_sequence, record_at, seen,
};
use crate::storage::rows::{
    effect_of, entity_of, machine_of, read_effect, read_entity, read_machine, read_record,
    record_of,
};
use crate::storage::tables::{
    entry_blobs, entry_keys, entry_names, entry_numbers, lists, lists_rows, row_blobs, row_keys,
};
use crate::text::{chars_of, fixed, is_digits, numeral, parse_u64, string_of};
use vstd::prelude::*;

verus! {

// ---------------------------------------------------------------------------
// What is to be found out
// ---------------------------------------------------------------------------

/// Whether every definition stands under its key.
pub open spec fn machines_sound(raw: Raw) -> bool {
    forall|k: Seq<char>| #[trigger]
        raw.machines.contains_key(k) ==> k == machine_key(
            machine_of(raw.machines[k]).name,
            machine_of(raw.machines[k]).version,
        )
}

/// Whether every entity stands under its key.
pub open spec fn entities_sound(raw: Raw) -> bool {
    forall|k: Seq<char>| #[trigger]
        raw.entities.contains_key(k) ==> k == entity_key(
            entity_of(raw.entities[k]).entity_id,
            entity_of(raw.entities[k]).machine,
        )
}

/// Whether every effect stands under its identifier.
pub open spec fn effects_sound(raw: Raw) -> bool {
    forall|k: Seq<char>| #[trigger]
        raw.effects.contains_key(k) ==> effect_of(raw.effects[k]).id == k
}

/// Whether a row of the log has its number, and both indices lead to it.
pub open spec fn row_sound(raw: Raw, n: u64) -> bool {
    let r = record_of(raw.log[n]);
    &&& r.sequence == n
    &&& raw.by_id.contains_key(r.id)
    &&& raw.index.contains_key(numbered_key(record_key(r), n as nat))
}

/// Whether the log is numbered from one without gaps, and every row is sound.
pub open spec fn log_sound(raw: Raw) -> bool {
    &&& forall|n: u64| #[trigger]
        raw.log.contains_key(n) <==> 1 <= n <= model_of(raw).sequence
    &&& forall|n: u64| #[trigger] raw.log.contains_key(n) ==> row_sound(raw, n)
}

/// Whether every identifier leads to its transition.
pub open spec fn ids_sound(raw: Raw) -> bool {
    forall|k: Seq<char>| #[trigger]
        raw.by_id.contains_key(k) ==> raw.log.contains_key(raw.by_id[k]) && record_of(
            raw.log[raw.by_id[k]],
        ).id == k
}

/// Whether every idempotency key leads to its transition.
pub open spec fn idempotency_sound(raw: Raw) -> bool {
    forall|k: Seq<char>| #[trigger]
        raw.idempotency.contains_key(k) ==> raw.log.contains_key(raw.idempotency[k]) && record_of(
            raw.log[raw.idempotency[k]],
        ).idempotency_key == Some(k)
}

/// Whether every entry of the index of histories leads to its transition.
pub open spec fn index_sound(raw: Raw) -> bool {
    forall|k: Seq<char>| #[trigger]
        raw.index.contains_key(k) ==> raw.log.contains_key(raw.index[k]) && k == numbered_key(
            record_key(record_of(raw.log[raw.index[k]])),
            raw.index[k] as nat,
        )
}

/// Whether an entry of the index of emitted effects, if it is one of position `j`
/// of transition `t`, leads to an effect and has the one before it.
pub open spec fn place_sound(raw: Raw, k: Seq<char>, t: Seq<char>, j: u64) -> bool {
    k == numbered_key(t, j as nat) && j < u64::MAX ==> {
        &&& raw.effects.contains_key(raw.emitted[k])
        &&& j > 0 ==> raw.emitted.contains_key(numbered_key(t, (j - 1) as nat))
    }
}

/// Whether an entry of the index of emitted effects leads to an effect and has
/// the one before it.
pub open spec fn entry_sound(raw: Raw, k: Seq<char>) -> bool {
    forall|t: Seq<char>, j: u64| #[trigger] place_sound(raw, k, t, j)
}

/// Whether the index of emitted effects has no gaps and leads to effects.
pub open spec fn emitted_sound(raw: Raw) -> bool {
    forall|k: Seq<char>| #[trigger] raw.emitted.contains_key(k) ==> entry_sound(raw, k)
}

/// Whether everything in the tables is sound.
pub open spec fn is_sound(raw: Raw) -> bool {
    &&& machines_sound(raw)
    &&& entities_sound(raw)
    &&& effects_sound(raw)
    &&& log_sound(raw)
    &&& ids_sound(raw)
    &&& idempotency_sound(raw)
    &&& index_sound(raw)
    &&& emitted_sound(raw)
}

// ---------------------------------------------------------------------------
// Why that is enough
// ---------------------------------------------------------------------------

/// A position of the index that is taken has all those before it.
proof fn lemma_no_gaps(raw: Raw, t: Seq<char>, j: nat)
    requires
        emitted_sound(raw),
        j < u64::MAX,
        raw.emitted.contains_key(numbered_key(t, j)),
    ensures
        forall|i: nat| i <= j ==> #[trigger] raw.emitted.contains_key(numbered_key(t, i)),
    decreases j,
{
    if j > 0 {
        assert(place_sound(raw, numbered_key(t, j), t, j as u64));
        lemma_no_gaps(raw, t, (j - 1) as nat);
    }
}

proof fn lemma_emitted(raw: Raw)
    requires
        emitted_sound(raw),
    ensures
        forall|t: Seq<char>, j: nat|
            j < u64::MAX && #[trigger] raw.emitted.contains_key(numbered_key(t, j)) ==> j
                < ids_from(raw.emitted, t, 0).len(),
        forall|t: Seq<char>, i: int|
            0 <= i < model_of(raw).emitted[t].len() ==> raw.effects.contains_key(
                #[trigger] model_of(raw).emitted[t][i],
            ),
{
    assert forall|t: Seq<char>, j: nat|
        j < u64::MAX && #[trigger] raw.emitted.contains_key(numbered_key(t, j)) implies j
        < ids_from(raw.emitted, t, 0).len() by {
        lemma_ids(raw.emitted, t, 0);
        let n = ids_from(raw.emitted, t, 0).len();
        if n <= j {
            lemma_no_gaps(raw, t, j);
            assert(raw.emitted.contains_key(numbered_key(t, (0 + n) as nat)));
        }
    }
    assert forall|t: Seq<char>, i: int|
        0 <= i < model_of(raw).emitted[t].len() implies raw.effects.contains_key(
        #[trigger] model_of(raw).emitted[t][i],
    ) by {
        lemma_ids(raw.emitted, t, 0);
        let ids = ids_from(raw.emitted, t, 0);
        assert(ids == model_of(raw).emitted[t]);
        assert(id_at(raw.emitted, t, 0 + i, ids[i]));
        assert(place_sound(raw, numbered_key(t, i as nat), t, i as u64));
    }
}

/// Sound tables hold a store in order.
proof fn lemma_sound_is_wf(raw: Raw)
    requires
        is_sound(raw),
    ensures
        raw_wf(raw),
{
    let m = model_of(raw);
    lemma_emitted(raw);
    assert forall|n: u64| #[trigger] m.log.contains_key(n) <==> 1 <= n <= m.sequence by {
        assert(raw.log.contains_key(n) <==> 1 <= n <= m.sequence);
    }
    assert forall|n: u64| m.log.contains_key(n) implies (#[trigger] m.log[n]).sequence == n by {
        assert(raw.log.contains_key(n));
    }
    assert forall|n: u64| m.log.contains_key(n) implies m.by_id.contains_key(
        (#[trigger] m.log[n]).id,
    ) by {
        assert(raw.log.contains_key(n));
    }
    assert forall|k: Seq<char>| #[trigger] m.by_id.contains_key(k) implies m.log.contains_key(
        m.by_id[k],
    ) && m.log[m.by_id[k]].id == k by {
        assert(raw.by_id.contains_key(k));
    }
    assert forall|k: Seq<char>| #[trigger] m.idempotency.contains_key(k) implies
        m.log.contains_key(m.idempotency[k]) && m.log[m.idempotency[k]].idempotency_key == Some(
        k,
    ) by {
        assert(raw.idempotency.contains_key(k));
    }
    assert forall|k: Seq<char>| #[trigger] m.entities.contains_key(k) implies entity_key(
        m.entities[k].entity_id,
        m.entities[k].machine,
    ) == k by {
        assert(raw.entities.contains_key(k));
    }
    assert forall|k: Seq<char>| #[trigger] m.effects.contains_key(k) implies m.effects[k].id
        == k by {
        assert(raw.effects.contains_key(k));
    }
    assert forall|k: (Seq<char>, u32)| #[trigger] m.machines.contains_key(k) implies (
    m.machines[k].name, m.machines[k].version) == k by {
        let key = machine_key(k.0, k.1);
        assert(raw.machines.contains_key(key));
        law_machine_keys_differ(k.0, k.1, m.machines[k].name, m.machines[k].version);
    }
    assert(m.wf());
    assert forall|k: Seq<char>| #[trigger] raw.index.contains_key(k) implies m.log.contains_key(
        raw.index[k],
    ) && k == numbered_key(record_key(m.log[raw.index[k]]), raw.index[k] as nat) by {
        assert(raw.log.contains_key(raw.index[k]));
    }
    assert forall|n: u64| m.log.contains_key(n) implies raw.index.contains_key(
        numbered_key(record_key(#[trigger] m.log[n]), n as nat),
    ) by {
        assert(raw.log.contains_key(n));
    }
}

/// Tables that hold a store in order are sound.
proof fn lemma_wf_is_sound(raw: Raw)
    requires
        raw_wf(raw),
    ensures
        is_sound(raw),
{
    let m = model_of(raw);
    assert forall|n: u64| #[trigger] raw.log.contains_key(n) <==> 1 <= n <= m.sequence by {
        assert(m.log.contains_key(n) <==> 1 <= n <= m.sequence);
    }
    assert forall|n: u64| #[trigger] raw.log.contains_key(n) implies row_sound(raw, n) by {
        assert(m.log.contains_key(n));
        assert(m.log[n] == record_of(raw.log[n]));
    }
    assert forall|k: Seq<char>| #[trigger] raw.by_id.contains_key(k) implies raw.log.contains_key(
        raw.by_id[k],
    ) && record_of(raw.log[raw.by_id[k]]).id == k by {
        assert(m.by_id.contains_key(k));
    }
    assert forall|k: Seq<char>| #[trigger] raw.idempotency.contains_key(k) implies
        raw.log.contains_key(raw.idempotency[k]) && record_of(
        raw.log[raw.idempotency[k]],
    ).idempotency_key == Some(k) by {
        assert(m.idempotency.contains_key(k));
    }
    assert forall|k: Seq<char>| #[trigger] raw.entities.contains_key(k) implies k == entity_key(
        entity_of(raw.entities[k]).entity_id,
        entity_of(raw.entities[k]).machine,
    ) by {
        assert(m.entities.contains_key(k));
    }
    assert forall|k: Seq<char>| #[trigger] raw.effects.contains_key(k) implies effect_of(
        raw.effects[k],
    ).id == k by {
        assert(m.effects.contains_key(k));
    }
    assert forall|k: Seq<char>| #[trigger] raw.emitted.contains_key(k) implies entry_sound(
        raw,
        k,
    ) by {
        assert forall|t: Seq<char>, j: u64| #[trigger] place_sound(raw, k, t, j) by {
            if k == numbered_key(t, j as nat) && j < u64::MAX {
                lemma_ids(raw.emitted, t, 0);
                let ids = ids_from(raw.emitted, t, 0);
                assert(j < ids.len());
                assert(ids == m.emitted[t]);
                assert(id_at(raw.emitted, t, 0 + j, ids[j as int]));
                assert(m.effects.contains_key(m.emitted[t][j as int]));
                if j > 0 {
                    assert(id_at(raw.emitted, t, 0 + (j - 1), ids[j - 1]));
                }
            }
        }
    }
}

// ---------------------------------------------------------------------------
// Finding it out
// ---------------------------------------------------------------------------

/// Tests whether every definition stands under its key.
fn check_machines(tx: &redb::ReadTransaction) -> (r: Result<bool, StorageError>)
    ensures
        match r {
            Ok(b) => b == machines_sound(seen(*tx)),
            Err(e) => e@.is_fault() && read_failed(*tx),
        },
{
    proof {
        lemma_table_names();
    }
    let ghost raw = seen(*tx);
    let rows = all_blobs(tx, "machines")?;
    let ghost keys = entry_keys(rows@);
    let mut i: usize = 0;
    while i < rows.len()
        invariant
            i <= rows.len(),
            raw == seen(*tx),
            keys == entry_keys(rows@),
            lists(raw.machines, keys, entry_blobs(rows@)),
            forall|j: int|
                0 <= j < i ==> #[trigger] keys[j] == machine_key(
                    machine_of(raw.machines[keys[j]]).name,
                    machine_of(raw.machines[keys[j]]).version,
                ),
        decreases rows.len() - i,
    {
        proof {
            assert(raw.machines.contains_key(keys[i as int]));
            assert(raw.machines[keys[i as int]] == rows[i as int].1@);
            assert(keys[i as int] == rows[i as int].0@);
        }
        let m = read_machine(&rows[i].1)?;
        let key = definition_key(m.name.as_str(), m.version);
        if rows[i].0 != key {
            return Ok(false);
        }
        i = i + 1;
    }
    Ok(true)
}

/// Tests whether every entity stands under its key.
fn check_entities(tx: &redb::ReadTransaction) -> (r: Result<bool, StorageError>)
    ensures
        match r {
            Ok(b) => b == entities_sound(seen(*tx)),
            Err(e) => e@.is_fault() && read_failed(*tx),
        },
{
    proof {
        lemma_table_names();
    }
    let ghost raw = seen(*tx);
    let rows = all_blobs(tx, "entity_states")?;
    let ghost keys = entry_keys(rows@);
    let mut i: usize = 0;
    while i < rows.len()
        invariant
            i <= rows.len(),
            raw == seen(*tx),
            keys == entry_keys(rows@),
            lists(raw.entities, keys, entry_blobs(rows@)),
            forall|j: int|
                0 <= j < i ==> #[trigger] keys[j] == entity_key(
                    entity_of(raw.entities[keys[j]]).entity_id,
                    entity_of(raw.entities[keys[j]]).machine,
                ),
        decreases rows.len() - i,
    {
        proof {
            assert(raw.entities.contains_key(keys[i as int]));
            assert(raw.entities[keys[i as int]] == rows[i as int].1@);
            assert(keys[i as int] == rows[i as int].0@);
        }
        let e = read_entity(&rows[i].1)?;
        let key = entity_state_key(e.entity_id.as_str(), e.machine.as_str());
        if rows[i].0 != key {
            return Ok(false);
        }
        i = i + 1;
    }
    Ok(true)
}

/// Tests whether every effect stands under its identifier.
fn check_effects(tx: &redb::ReadTransaction) -> (r: Result<bool, StorageError>)
    ensures
        match r {
            Ok(b) => b == effects_sound(seen(*tx)),
            Err(e) => e@.is_fault() && read_failed(*tx),
        },
{
    proof {
        lemma_table_names();
    }
    let ghost raw = seen(*tx);
    let rows = all_blobs(tx, "effects")?;
    let ghost keys = entry_keys(rows@);
    let mut i: usize = 0;
    while i < rows.len()
        invariant
            i <= rows.len(),
            raw == seen(*tx),
            keys == entry_keys(rows@),
            lists(raw.effects, keys, entry_blobs(rows@)),
            forall|j: int| 0 <= j < i ==> effect_of(raw.effects[#[trigger] keys[j]]).id == keys[j],
        decreases rows.len() - i,
    {
        proof {
            assert(raw.effects.contains_key(keys[i as int]));
            assert(raw.effects[keys[i as int]] == rows[i as int].1@);
            assert(keys[i as int] == rows[i as int].0@);
        }
        let e = read_effect(&rows[i].1)?;
        if rows[i].0 != e.id {
            return Ok(false);
        }
        i = i + 1;
    }
    Ok(true)
}

/// Tests whether a row of the log is sound.
fn check_row(tx: &redb::ReadTransaction, n: u64, record: &TransitionRecord) -> (r: Result<
    bool,
    StorageError,
>)
    requires
        record@ == record_of(seen(*tx).log[n]),
    ensures
        match r {
            Ok(b) => b == row_sound(seen(*tx), n),
            Err(e) => e@.is_fault() && read_failed(*tx),
        },
{
    proof {
        lemma_table_names();
    }
    if record.sequence != n {
        return Ok(false);
    }
    let by_id = number_at(tx, "transitions_by_id", record.id.as_str())?;
    if by_id.is_none() {
        return Ok(false);
    }
    let key = entity_transition_key(record.entity_id.as_str(), record.machine.as_str(), n);
    let indexed = number_at(tx, "entity_transitions", key.as_str())?;
    Ok(indexed.is_some())
}

/// Tests whether the log is sound.
fn check_log(tx: &redb::ReadTransaction) -> (r: Result<bool, StorageError>)
    ensures
        match r {
            Ok(b) => b == log_sound(seen(*tx)),
            Err(e) => e@.is_fault() && read_failed(*tx),
        },
{
    proof {
        lemma_table_names();
    }
    let ghost raw = seen(*tx);
    let sequence = read_sequence(tx)?;
    let rows = all_rows(tx, "transitions")?;
    let ghost keys = row_keys(rows@);
    let mut i: usize = 0;
    while i < rows.len()
        invariant
            i <= rows.len(),
            raw == seen(*tx),
            keys == row_keys(rows@),
            lists_rows(raw.log, keys, row_blobs(rows@)),
            forall|j: int| 0 <= j < i ==> #[trigger] keys[j] == j + 1 && row_sound(raw, keys[j]),
        decreases rows.len() - i,
    {
        let n = rows[i].0;
        proof {
            assert(keys[i as int] == n);
            assert(raw.log.contains_key(keys[i as int]));
            assert(raw.log[n] == rows[i as int].1@);
        }
        if n == 0 || n - 1 != i as u64 {
            proof {
                lemma_misnumbered(raw, keys, row_blobs(rows@), i as int);
            }
            return Ok(false);
        }
        let record = read_record(&rows[i].1)?;
        if !check_row(tx, n, &record)? {
            return Ok(false);
        }
        i = i + 1;
    }
    proof {
        lemma_numbered(raw, keys, row_blobs(rows@));
    }
    Ok(rows.len() as u64 == sequence)
}

/// A log whose first rows are numbered from one, but not the next, has a gap.
proof fn lemma_misnumbered(raw: Raw, keys: Seq<u64>, values: Seq<Seq<u8>>, i: int)
    requires
        lists_rows(raw.log, keys, values),
        0 <= i < keys.len(),
        forall|j: int| 0 <= j < i ==> #[trigger] keys[j] == j + 1,
        keys[i] != i + 1,
    ensures
        !log_sound(raw),
{
    if log_sound(raw) {
        let n = keys[i];
        assert(raw.log.contains_key(n));
        if i > 0 {
            assert(keys[i - 1] == i);
            assert(keys[i - 1] < keys[i]);
        }
        let missing = (i + 1) as u64;
        assert(raw.log.contains_key(missing));
        assert(keys.contains(missing));
        let k = choose|k: int| 0 <= k < keys.len() && keys[k] == missing;
        if k < i {
            assert(keys[k] == k + 1);
        } else if k > i {
            assert(keys[i] < keys[k]);
        }
    }
}

/// A log whose rows are numbered from one ends with as many as it has.
proof fn lemma_numbered(raw: Raw, keys: Seq<u64>, values: Seq<Seq<u8>>)
    requires
        lists_rows(raw.log, keys, values),
        forall|j: int|
            0 <= j < keys.len() ==> #[trigger] keys[j] == j + 1 && row_sound(raw, keys[j]),
    ensures
        log_sound(raw) <==> keys.len() == model_of(raw).sequence,
{
    let sequence = model_of(raw).sequence;
    assert forall|n: u64| #[trigger] raw.log.contains_key(n) <==> 1 <= n <= keys.len() by {
        if raw.log.contains_key(n) {
            assert(keys.contains(n));
            let k = choose|k: int| 0 <= k < keys.len() && keys[k] == n;
            assert(keys[k] == k + 1);
        }
        if 1 <= n <= keys.len() {
            assert(keys[n - 1] == n);
        }
    }
    assert forall|n: u64| #[trigger] raw.log.contains_key(n) implies row_sound(raw, n) by {
        assert(keys[n - 1] == n);
    }
    if log_sound(raw) && keys.len() != sequence {
        if keys.len() > 0 {
            let last = keys[keys.len() - 1];
            assert(raw.log.contains_key(last));
        }
        if keys.len() < sequence {
            let next = (keys.len() + 1) as u64;
            assert(raw.log.contains_key(next));
        }
    }
}

/// Tests whether every identifier leads to its transition.
fn check_ids(tx: &redb::ReadTransaction) -> (r: Result<bool, StorageError>)
    ensures
        match r {
            Ok(b) => b == ids_sound(seen(*tx)),
            Err(e) => e@.is_fault() && read_failed(*tx),
        },
{
    proof {
        lemma_table_names();
    }
    let ghost raw = seen(*tx);
    let rows = all_numbers(tx, "transitions_by_id")?;
    let ghost keys = entry_keys(rows@);
    let mut i: usize = 0;
    while i < rows.len()
        invariant
            i <= rows.len(),
            raw == seen(*tx),
            keys == entry_keys(rows@),
            lists(raw.by_id, keys, entry_numbers(rows@)),
            forall|j: int|
                0 <= j < i ==> raw.log.contains_key(raw.by_id[#[trigger] keys[j]]) && record_of(
                    raw.log[raw.by_id[keys[j]]],
                ).id == keys[j],
        decreases rows.len() - i,
    {
        proof {
            assert(raw.by_id.contains_key(keys[i as int]));
            assert(raw.by_id[keys[i as int]] == rows[i as int].1);
            assert(keys[i as int] == rows[i as int].0@);
        }
        match record_at(tx, rows[i].1)? {
            Some(t) => {
                if rows[i].0 != t.id {
                    return Ok(false);
                }
            },
            None => {
                return Ok(false);
            },
        }
        i = i + 1;
    }
    Ok(true)
}

/// Tests whether every idempotency key leads to its transition.
fn check_idempotency(tx: &redb::ReadTransaction) -> (r: Result<bool, StorageError>)
    ensures
        match r {
            Ok(b) => b == idempotency_sound(seen(*tx)),
            Err(e) => e@.is_fault() && read_failed(*tx),
        },
{
    proof {
        lemma_table_names();
    }
    let ghost raw = seen(*tx);
    let rows = all_numbers(tx, "idempotency")?;
    let ghost keys = entry_keys(rows@);
    let mut i: usize = 0;
    while i < rows.len()
        invariant
            i <= rows.len(),
            raw == seen(*tx),
            keys == entry_keys(rows@),
            lists(raw.idempotency, keys, entry_numbers(rows@)),
            forall|j: int|
                0 <= j < i ==> raw.log.contains_key(raw.idempotency[#[trigger] keys[j]])
                    && record_of(raw.log[raw.idempotency[keys[j]]]).idempotency_key == Some(
                    keys[j],
                ),
        decreases rows.len() - i,
    {
        proof {
            assert(raw.idempotency.contains_key(keys[i as int]));
            assert(raw.idempotency[keys[i as int]] == rows[i as int].1);
            assert(keys[i as int] == rows[i as int].0@);
        }
        let kept = match record_at(tx, rows[i].1)? {
            Some(t) => t.idempotency_key,
            None => {
                return Ok(false);
            },
        };
        match kept {
            Some(key) => {
                if rows[i].0 != key {
                    return Ok(false);
                }
            },
            None => {
                return Ok(false);
            },
        }
        i = i + 1;
    }
    Ok(true)
}

/// Tests whether every entry of the index of histories leads to its transition.
fn check_index(tx: &redb::ReadTransaction) -> (r: Result<bool, StorageError>)
    ensures
        match r {
            Ok(b) => b == index_sound(seen(*tx)),
            Err(e) => e@.is_fault() && read_failed(*tx),
        },
{
    proof {
        lemma_table_names();
    }
    let ghost raw = seen(*tx);
    let rows = all_numbers(tx, "entity_transitions")?;
    let ghost keys = entry_keys(rows@);
    let mut i: usize = 0;
    while i < rows.len()
        invariant
            i <= rows.len(),
            raw == seen(*tx),
            keys == entry_keys(rows@),
            lists(raw.index, keys, entry_numbers(rows@)),
            forall|j: int|
                0 <= j < i ==> raw.log.contains_key(raw.index[#[trigger] keys[j]]) && keys[j]
                    == numbered_key(
                    record_key(record_of(raw.log[raw.index[keys[j]]])),
                    raw.index[keys[j]] as nat,
                ),
        decreases rows.len() - i,
    {
        let n = rows[i].1;
        proof {
            assert(raw.index.contains_key(keys[i as int]));
            assert(raw.index[keys[i as int]] == n);
            assert(keys[i as int] == rows[i as int].0@);
        }
        match record_at(tx, n)? {
            Some(t) => {
                let key = entity_transition_key(t.entity_id.as_str(), t.machine.as_str(), n);
                if rows[i].0 != key {
                    return Ok(false);
                }
            },
            None => {
                return Ok(false);
            },
        }
        i = i + 1;
    }
    Ok(true)
}

/// Takes a key with a number behind it apart.
fn numbered_parts(key: &str) -> (r: Option<(String, u64)>)
    ensures
        match r {
            Some(p) => key@ == numbered_key(p.0@, p.1 as nat),
            None => forall|t: Seq<char>, j: u64| key@ != #[trigger] numbered_key(t, j as nat),
        },
{
    let chars = chars_of(key);
    let n = chars.len();
    if n < 21 {
        proof {
            assert forall|t: Seq<char>, j: u64| key@ != #[trigger] numbered_key(t, j as nat) by {
                lemma_fixed_len(j as nat, 20);
            }
        }
        return None;
    }
    let base = string_of(&chars, 0, n - 21);
    let digits = string_of(&chars, n - 20, n);
    proof {
        assert forall|t: Seq<char>, j: u64| key@ == #[trigger] numbered_key(t, j as nat) implies t
            == base@ && numeral(digits@) == Some(j as nat) by {
            lemma_parts(key@, t, j);
        }
    }
    match parse_u64(digits.as_str()) {
        Some(j) => {
            let again = key_with_number(base.as_str(), j);
            if *again.as_str() == *key {
                Some((base, j))
            } else {
                None
            }
        },
        None => None,
    }
}

/// The parts of a numbered key stand where they are looked for.
proof fn lemma_parts(key: Seq<char>, t: Seq<char>, j: u64)
    requires
        key == numbered_key(t, j as nat),
    ensures
        key.len() >= 21,
        t == key.subrange(0, key.len() - 21),
        numeral(key.subrange(key.len() - 20, key.len() as int)) == Some(j as nat),
{
    lemma_widths();
    lemma_fixed_len(j as nat, 20);
    lemma_fixed_value(j as nat, 20);
    let digits = fixed(j as nat, 20);
    assert(key.subrange(0, key.len() - 21) =~= t);
    assert(key.subrange(key.len() - 20, key.len() as int) =~= digits);
    assert(is_digits(digits));
    assert(digits[0] != '+');
}

/// Tests whether the index of emitted effects is sound.
fn check_emitted(tx: &redb::ReadTransaction) -> (r: Result<bool, StorageError>)
    ensures
        match r {
            Ok(b) => b == emitted_sound(seen(*tx)),
            Err(e) => e@.is_fault() && read_failed(*tx),
        },
{
    proof {
        lemma_table_names();
    }
    let ghost raw = seen(*tx);
    let rows = all_names(tx, "effects_by_txn")?;
    let ghost keys = entry_keys(rows@);
    let mut i: usize = 0;
    while i < rows.len()
        invariant
            i <= rows.len(),
            raw == seen(*tx),
            keys == entry_keys(rows@),
            lists(raw.emitted, keys, entry_names(rows@)),
            forall|j: int| 0 <= j < i ==> entry_sound(raw, #[trigger] keys[j]),
        decreases rows.len() - i,
    {
        proof {
            assert(raw.emitted.contains_key(keys[i as int]));
            assert(raw.emitted[keys[i as int]] == rows[i as int].1@);
            assert(keys[i as int] == rows[i as int].0@);
        }
        if !check_entry(tx, rows[i].0.as_str(), rows[i].1.as_str())? {
            return Ok(false);
        }
        i = i + 1;
    }
    Ok(true)
}

/// Tests whether an entry of the index of emitted effects is sound.
fn check_entry(tx: &redb::ReadTransaction, key: &str, id: &str) -> (r: Result<bool, StorageError>)
    requires
        seen(*tx).emitted[key@] == id@,
    ensures
        match r {
            Ok(b) => b == entry_sound(seen(*tx), key@),
            Err(e) => e@.is_fault() && read_failed(*tx),
        },
{
    proof {
        lemma_table_names();
    }
    let ghost raw = seen(*tx);
    let (t, j) = match numbered_parts(key) {
        Some(p) => p,
        None => {
            assert(entry_sound(raw, key@));
            return Ok(true);
        },
    };
    proof {
        assert forall|u: Seq<char>, i: u64| key@ == numbered_key(u, i as nat) implies u == t@ && i
            == j by {
            lemma_numbered_keys_differ(u, i, t@, j);
        }
        if place_sound(raw, key@, t@, j) {
            assert forall|u: Seq<char>, i: u64| #[trigger] place_sound(raw, key@, u, i) by {
                if key@ == numbered_key(u, i as nat) {
                    lemma_numbered_keys_differ(u, i, t@, j);
                }
            }
        }
    }
    if j == u64::MAX {
        return Ok(true);
    }
    let effect = blob_at(tx, "effects", id)?;
    if effect.is_none() {
        return Ok(false);
    }
    if j == 0 {
        return Ok(true);
    }
    let before = effect_by_txn_key(t.as_str(), j - 1);
    let found = name_at(tx, "effects_by_txn", before.as_str())?;
    Ok(found.is_some())
}

/// Tests whether what a transaction sees is a store in order.
pub(crate) fn check_all(tx: &redb::ReadTransaction) -> (r: Result<bool, StorageError>)
    ensures
        match r {
            Ok(b) => b == raw_wf(seen(*tx)),
            Err(e) => e@.is_fault() && read_failed(*tx),
        },
{
    proof {
        let raw = seen(*tx);
        if is_sound(raw) {
            lemma_sound_is_wf(raw);
        }
        if raw_wf(raw) {
            lemma_wf_is_sound(raw);
        }
    }
    if !check_machines(tx)? {
        return Ok(false);
    }
    if !check_entities(tx)? {
        return Ok(false);
    }
    if !check_effects(tx)? {
        return Ok(false);
    }
    if !check_log(tx)? {
        return Ok(false);
    }
    if !check_ids(tx)? {
        return Ok(false);
    }
    if !check_idempotency(tx)? {
        return Ok(false);
    }
    if !check_index(tx)? {
        return Ok(false);
    }
    check_emitted(tx)
}

} // verus!
