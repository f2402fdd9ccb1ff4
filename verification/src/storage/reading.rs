//! What a read transaction gives.
use crate::fsm::machine::MachineDefinition;
use crate::fsm::record::{
    effect_views, record_views, Effect, EffectStatus, EffectView, EntityState, TransitionRecord,
};
use crate::order::text_lt;
use crate::storage::engine::execute_conflict;
use crate::storage::error::StorageError;
use crate::storage::model::{
    entity_key, law_machine_keys_differ, machine_key, record_key, StoreModel,
};
use crate::storage::raw::{
    lemma_numbered_keys_differ, lemma_numbered_keys_order, lemma_numbers_are, lemma_table_names,
    model_of, numbered_key, raw_of, raw_wf, Raw,
};
use crate::storage::rows::{
    effect_of, effect_reads, entity_reads, machine_of, machine_reads, read_effect, read_entity,
    read_machine, read_record, record_reads,
};
use crate::storage::tables::{
    entry_blobs, entry_keys, entry_names, entry_numbers, get_blob, get_name, get_number, get_row,
    lists, lists_rows, lookup, opt_bytes, row_blobs, row_keys, scan_blobs, scan_names, scan_numbers,
    scan_rows, snapshot,
};
use crate::text::{decimal_of, opt_text, starts_with};
use crate::storage::keys::{entity_state_key, entity_transition_key, lemma_nul};
use vstd::prelude::*;

verus! {

/// What a read transaction sees.
pub open spec fn seen(tx: redb::ReadTransaction) -> Raw {
    raw_of(snapshot(tx))
}

/// Whether the database failed to give a read transaction what a table holds.
pub closed spec fn unread(tx: redb::ReadTransaction) -> bool {
    ||| exists|table: &str, key: &str, e: redb::Error| #[trigger]
        call_ensures(get_blob, (&tx, table, key), Err(e))
    ||| exists|table: &str, key: u64, e: redb::Error| #[trigger]
        call_ensures(get_row, (&tx, table, key), Err(e))
    ||| exists|table: &str, key: &str, e: redb::Error| #[trigger]
        call_ensures(get_number, (&tx, table, key), Err(e))
    ||| exists|table: &str, key: &str, e: redb::Error| #[trigger]
        call_ensures(get_name, (&tx, table, key), Err(e))
    ||| exists|table: &str, e: redb::Error| #[trigger]
        call_ensures(scan_blobs, (&tx, table), Err(e))
    ||| exists|table: &str, e: redb::Error| #[trigger]
        call_ensures(scan_numbers, (&tx, table), Err(e))
    ||| exists|table: &str, e: redb::Error| #[trigger]
        call_ensures(scan_rows, (&tx, table), Err(e))
    ||| exists|table: &str, e: redb::Error| #[trigger]
        call_ensures(scan_names, (&tx, table), Err(e))
}

/// Whether a row in the tables cannot be decoded.
pub open spec fn unreadable(raw: Raw) -> bool {
    ||| exists|k: Seq<char>| #[trigger]
        raw.machines.contains_key(k) && !machine_reads(raw.machines[k])
    ||| exists|k: Seq<char>| #[trigger]
        raw.entities.contains_key(k) && !entity_reads(raw.entities[k])
    ||| exists|n: u64| #[trigger] raw.log.contains_key(n) && !record_reads(raw.log[n])
    ||| exists|k: Seq<char>| #[trigger]
        raw.effects.contains_key(k) && !effect_reads(raw.effects[k])
}

/// Whether a read transaction failed to get at what is stored.
pub open spec fn read_failed(tx: redb::ReadTransaction) -> bool {
    unread(tx) || unreadable(seen(tx))
}

// ---------------------------------------------------------------------------
// Rows
// ---------------------------------------------------------------------------

/// The bytes under a key.
pub(crate) fn blob_at(tx: &redb::ReadTransaction, table: &str, key: &str) -> (r: Result<
    Option<Vec<u8>>,
    StorageError,
>)
    requires
        table@.len() > 0,
    ensures
        match r {
            Ok(v) => opt_bytes(v) == lookup(snapshot(*tx).blobs[table@], key@)
                && snapshot(*tx).blobs.contains_key(table@),
            Err(e) => e is Internal && read_failed(*tx),
        },
{
    match get_blob(tx, table, key) {
        Ok(v) => Ok(v),
        Err(e) => {
            assert(call_ensures(get_blob, (tx, table, key), Err(e)));
            Err(StorageError::of_table(e))
        },
    }
}

/// The bytes under a number.
pub(crate) fn row_at(tx: &redb::ReadTransaction, table: &str, key: u64) -> (r: Result<
    Option<Vec<u8>>,
    StorageError,
>)
    requires
        table@.len() > 0,
    ensures
        match r {
            Ok(v) => opt_bytes(v) == lookup(snapshot(*tx).rows[table@], key)
                && snapshot(*tx).rows.contains_key(table@),
            Err(e) => e is Internal && read_failed(*tx),
        },
{
    match get_row(tx, table, key) {
        Ok(v) => Ok(v),
        Err(e) => {
            assert(call_ensures(get_row, (tx, table, key), Err(e)));
            Err(StorageError::of_table(e))
        },
    }
}

/// The number under a key.
pub(crate) fn number_at(tx: &redb::ReadTransaction, table: &str, key: &str) -> (r: Result<
    Option<u64>,
    StorageError,
>)
    requires
        table@.len() > 0,
    ensures
        match r {
            Ok(v) => v == lookup(snapshot(*tx).numbers[table@], key@)
                && snapshot(*tx).numbers.contains_key(table@),
            Err(e) => e is Internal && read_failed(*tx),
        },
{
    match get_number(tx, table, key) {
        Ok(v) => Ok(v),
        Err(e) => {
            assert(call_ensures(get_number, (tx, table, key), Err(e)));
            Err(StorageError::of_table(e))
        },
    }
}

/// The text under a key.
pub(crate) fn name_at(tx: &redb::ReadTransaction, table: &str, key: &str) -> (r: Result<
    Option<String>,
    StorageError,
>)
    requires
        table@.len() > 0,
    ensures
        match r {
            Ok(v) => opt_text(v) == lookup(snapshot(*tx).names[table@], key@)
                && snapshot(*tx).names.contains_key(table@),
            Err(e) => e is Internal && read_failed(*tx),
        },
{
    match get_name(tx, table, key) {
        Ok(v) => Ok(v),
        Err(e) => {
            assert(call_ensures(get_name, (tx, table, key), Err(e)));
            Err(StorageError::of_table(e))
        },
    }
}

/// All entries of a table from text to bytes.
pub(crate) fn all_blobs(tx: &redb::ReadTransaction, table: &str) -> (r: Result<
    Vec<(String, Vec<u8>)>,
    StorageError,
>)
    requires
        table@.len() > 0,
    ensures
        match r {
            Ok(v) => lists(snapshot(*tx).blobs[table@], entry_keys(v@), entry_blobs(v@))
                && snapshot(*tx).blobs.contains_key(table@),
            Err(e) => e is Internal && read_failed(*tx),
        },
{
    match scan_blobs(tx, table) {
        Ok(v) => Ok(v),
        Err(e) => {
            assert(call_ensures(scan_blobs, (tx, table), Err(e)));
            Err(StorageError::of_table(e))
        },
    }
}

/// All entries of a table from text to number.
pub(crate) fn all_numbers(tx: &redb::ReadTransaction, table: &str) -> (r: Result<
    Vec<(String, u64)>,
    StorageError,
>)
    requires
        table@.len() > 0,
    ensures
        match r {
            Ok(v) => lists(snapshot(*tx).numbers[table@], entry_keys(v@), entry_numbers(v@))
                && snapshot(*tx).numbers.contains_key(table@),
            Err(e) => e is Internal && read_failed(*tx),
        },
{
    match scan_numbers(tx, table) {
        Ok(v) => Ok(v),
        Err(e) => {
            assert(call_ensures(scan_numbers, (tx, table), Err(e)));
            Err(StorageError::of_table(e))
        },
    }
}

/// All entries of a table from number to bytes.
pub(crate) fn all_rows(tx: &redb::ReadTransaction, table: &str) -> (r: Result<
    Vec<(u64, Vec<u8>)>,
    StorageError,
>)
    requires
        table@.len() > 0,
    ensures
        match r {
            Ok(v) => lists_rows(snapshot(*tx).rows[table@], row_keys(v@), row_blobs(v@))
                && snapshot(*tx).rows.contains_key(table@),
            Err(e) => e is Internal && read_failed(*tx),
        },
{
    match scan_rows(tx, table) {
        Ok(v) => Ok(v),
        Err(e) => {
            assert(call_ensures(scan_rows, (tx, table), Err(e)));
            Err(StorageError::of_table(e))
        },
    }
}

/// All entries of a table from text to text.
pub(crate) fn all_names(tx: &redb::ReadTransaction, table: &str) -> (r: Result<
    Vec<(String, String)>,
    StorageError,
>)
    requires
        table@.len() > 0,
    ensures
        match r {
            Ok(v) => lists(snapshot(*tx).names[table@], entry_keys(v@), entry_names(v@))
                && snapshot(*tx).names.contains_key(table@),
            Err(e) => e is Internal && read_failed(*tx),
        },
{
    match scan_names(tx, table) {
        Ok(v) => Ok(v),
        Err(e) => {
            assert(call_ensures(scan_names, (tx, table), Err(e)));
            Err(StorageError::of_table(e))
        },
    }
}

/// The last sequence number.
pub(crate) fn read_sequence(tx: &redb::ReadTransaction) -> (r: Result<u64, StorageError>)
    ensures
        match r {
            Ok(n) => n == model_of(seen(*tx)).sequence,
            Err(e) => e@.is_fault() && read_failed(*tx),
        },
{
    proof {
        lemma_table_names();
    }
    match number_at(tx, "meta", "sequence")? {
        Some(n) => Ok(n),
        None => Ok(0),
    }
}

/// The entity under a key.
pub(crate) fn entity_at(tx: &redb::ReadTransaction, key: &str) -> (r: Result<
    Option<EntityState>,
    StorageError,
>)
    ensures
        match r {
            Ok(Some(s)) => model_of(seen(*tx)).entities.contains_key(key@) && s@ == model_of(
                seen(*tx),
            ).entities[key@],
            Ok(None) => !model_of(seen(*tx)).entities.contains_key(key@),
            Err(e) => e@.is_fault() && read_failed(*tx),
        },
{
    proof {
        lemma_table_names();
    }
    match blob_at(tx, "entity_states", key)? {
        Some(bytes) => {
            assert(seen(*tx).entities.contains_key(key@));
            Ok(Some(read_entity(&bytes)?))
        },
        None => Ok(None),
    }
}

/// The transition with a sequence number.
pub(crate) fn record_at(tx: &redb::ReadTransaction, n: u64) -> (r: Result<
    Option<TransitionRecord>,
    StorageError,
>)
    ensures
        match r {
            Ok(Some(t)) => model_of(seen(*tx)).log.contains_key(n) && t@ == model_of(
                seen(*tx),
            ).log[n],
            Ok(None) => !model_of(seen(*tx)).log.contains_key(n),
            Err(e) => e@.is_fault() && read_failed(*tx),
        },
{
    proof {
        lemma_table_names();
    }
    match row_at(tx, "transitions", n)? {
        Some(bytes) => {
            assert(seen(*tx).log.contains_key(n));
            Ok(Some(read_record(&bytes)?))
        },
        None => Ok(None),
    }
}

/// The effect with an identifier.
pub(crate) fn effect_at(tx: &redb::ReadTransaction, id: &str) -> (r: Result<Option<Effect>, StorageError>)
    ensures
        match r {
            Ok(Some(f)) => model_of(seen(*tx)).effects.contains_key(id@) && f@ == model_of(
                seen(*tx),
            ).effects[id@],
            Ok(None) => !model_of(seen(*tx)).effects.contains_key(id@),
            Err(e) => e@.is_fault() && read_failed(*tx),
        },
{
    proof {
        lemma_table_names();
    }
    match blob_at(tx, "effects", id)? {
        Some(bytes) => {
            assert(seen(*tx).effects.contains_key(id@));
            Ok(Some(read_effect(&bytes)?))
        },
        None => Ok(None),
    }
}

/// A log entry that an index leads to but the log lacks.
pub(crate) fn missing_sequence(n: u64) -> (e: StorageError)
    ensures
        e is Corrupted,
{
    StorageError::Corrupted("transition seq ".to_owned().concat(decimal_of(n).as_str()))
}

/// The transitions under the first `n` of some numbers.
pub(crate) fn records_under(tx: &redb::ReadTransaction, numbers: &Vec<u64>, n: usize) -> (r: Result<
    Vec<TransitionRecord>,
    StorageError,
>)
    requires
        n <= numbers@.len(),
        forall|j: int|
            0 <= j < numbers@.len() ==> model_of(seen(*tx)).log.contains_key(#[trigger] numbers@[j]),
    ensures
        match r {
            Ok(v) => record_views(v@) == model_of(seen(*tx)).records_at(numbers@.take(n as int)),
            Err(e) => e@.is_fault() && read_failed(*tx),
        },
{
    let ghost log = model_of(seen(*tx)).log;
    let mut found: Vec<TransitionRecord> = Vec::new();
    let mut i: usize = 0;
    while i < n
        invariant
            i <= n <= numbers@.len(),
            log == model_of(seen(*tx)).log,
            forall|j: int| 0 <= j < numbers@.len() ==> log.contains_key(#[trigger] numbers@[j]),
            found.len() == i,
            forall|j: int| 0 <= j < i ==> (#[trigger] found[j])@ == log[numbers@[j]],
        decreases n - i,
    {
        match record_at(tx, numbers[i])? {
            Some(t) => {
                found.push(t);
            },
            None => {
                return Err(missing_sequence(numbers[i]));
            },
        }
        i = i + 1;
    }
    assert(record_views(found@) =~= model_of(seen(*tx)).records_at(numbers@.take(n as int)));
    Ok(found)
}

/// The `n` transitions behind a sequence number.
pub(crate) fn records_behind(tx: &redb::ReadTransaction, after: u64, n: u64) -> (r: Result<
    Vec<TransitionRecord>,
    StorageError,
>)
    requires
        after + n <= u64::MAX,
        forall|k: u64|
            after < k <= after + n ==> #[trigger] model_of(seen(*tx)).log.contains_key(k),
    ensures
        match r {
            Ok(v) => record_views(v@) == Seq::new(
                n as nat,
                |i: int| model_of(seen(*tx)).log[(after + 1 + i) as u64],
            ),
            Err(e) => e@.is_fault() && read_failed(*tx),
        },
{
    let ghost log = model_of(seen(*tx)).log;
    let mut found: Vec<TransitionRecord> = Vec::new();
    let mut i: u64 = 0;
    while i < n
        invariant
            i <= n,
            after + n <= u64::MAX,
            log == model_of(seen(*tx)).log,
            forall|k: u64| after < k <= after + n ==> #[trigger] log.contains_key(k),
            found.len() == i,
            forall|j: int| 0 <= j < i ==> (#[trigger] found[j])@ == log[(after + 1 + j) as u64],
        decreases n - i,
    {
        let at = after + 1 + i;
        assert(log.contains_key(at));
        match record_at(tx, at)? {
            Some(t) => {
                found.push(t);
            },
            None => {
                return Err(missing_sequence(at));
            },
        }
        i = i + 1;
    }
    assert(record_views(found@) =~= Seq::new(n as nat, |i: int| log[(after + 1 + i) as u64]));
    Ok(found)
}

// ---------------------------------------------------------------------------
// Questions
// ---------------------------------------------------------------------------

/// The sequence number that a transition gets, unless it is in conflict with
/// what is stored.
pub(crate) fn next_number(
    tx: &redb::ReadTransaction,
    record: &TransitionRecord,
    new_state: &EntityState,
) -> (r: Result<u64, StorageError>)
    ensures
        match r {
            Ok(n) => {
                &&& execute_conflict(model_of(seen(*tx)), record@, new_state@) is None
                &&& n == model_of(seen(*tx)).sequence + 1
            },
            Err(e) => {
                ||| e@.is_fault() && (read_failed(*tx) || model_of(seen(*tx)).sequence == u64::MAX)
                ||| execute_conflict(model_of(seen(*tx)), record@, new_state@) == Some(e@)
            },
        },
{
    proof {
        lemma_table_names();
    }
    let key = entity_state_key(new_state.entity_id.as_str(), new_state.machine.as_str());
    match entity_at(tx, key.as_str()) {
        Ok(Some(existing)) => {
            let expected: u64 = if new_state.version == 0 {
                0
            } else {
                new_state.version - 1
            };
            if existing.version != expected {
                return Err(
                    StorageError::VersionConflict {
                        entity_id: new_state.entity_id.clone(),
                        expected,
                        actual: existing.version,
                    },
                );
            }
        },
        Ok(None) => {},
        Err(e) => {
            return Err(e);
        },
    }
    if let Some(idem_key) = &record.idempotency_key {
        let known = number_at(tx, "idempotency", idem_key.as_str())?;
        if known.is_some() {
            return Err(
                StorageError::AlreadyExists(
                    "idempotency key '".to_owned().concat(idem_key.as_str()).concat("'"),
                ),
            );
        }
    }
    let sequence = read_sequence(tx)?;
    if sequence == u64::MAX {
        return Err(StorageError::Internal("sequence numbers are used up".to_owned()));
    }
    Ok(sequence + 1)
}

/// The definition with a name that has the highest version.
pub(crate) fn latest_machine(tx: &redb::ReadTransaction, name: &str) -> (r: Result<
    Option<MachineDefinition>,
    StorageError,
>)
    requires
        raw_wf(seen(*tx)),
    ensures
        match r {
            Ok(Some(m)) => model_of(seen(*tx)).finds_machine(name@, None, m@),
            Ok(None) => !model_of(seen(*tx)).has_machine(name@, None),
            Err(e) => e@.is_fault() && read_failed(*tx),
        },
{
    proof {
        lemma_table_names();
        lemma_nul();
    }
    let ghost raw = seen(*tx);
    let ghost m = model_of(raw);
    let rows = all_blobs(tx, "machines")?;
    let ghost keys = entry_keys(rows@);
    let prefix = name.to_owned().concat("\0");
    let mut best: Option<MachineDefinition> = None;
    let mut i: usize = 0;
    while i < rows.len()
        invariant
            i <= rows.len(),
            raw_wf(raw),
            raw == seen(*tx),
            prefix@ == name@ + seq!['\0'],
            keys == entry_keys(rows@),
            lists(raw.machines, keys, entry_blobs(rows@)),
            match best {
                Some(b) => {
                    &&& b@.name == name@
                    &&& exists|j: int|
                        0 <= j < i && machine_of(#[trigger] entry_blobs(rows@)[j]) == b@
                    &&& forall|j: int|
                        0 <= j < i && machine_of(#[trigger] entry_blobs(rows@)[j]).name == name@
                            ==> machine_of(entry_blobs(rows@)[j]).version <= b@.version
                },
                None => forall|j: int|
                    0 <= j < i ==> machine_of(#[trigger] entry_blobs(rows@)[j]).name != name@,
            },
        decreases rows.len() - i,
    {
        let ghost here = machine_of(entry_blobs(rows@)[i as int]);
        proof {
            assert(raw.machines.contains_key(keys[i as int]));
            assert(raw.machines[keys[i as int]] == rows[i as int].1@);
            assert(keys[i as int] == machine_key(here.name, here.version));
            if here.name == name@ {
                let tail = crate::text::fixed(here.version as nat, 10);
                assert((prefix@ + tail).take(prefix@.len() as int) =~= prefix@);
                assert(prefix@.is_prefix_of(keys[i as int]));
            }
        }
        if starts_with(rows[i].0.as_str(), prefix.as_str()) {
            let found = read_machine(&rows[i].1)?;
            assert(found@ == here);
            if *found.name.as_str() == *name {
                let newer = match &best {
                    Some(b) => b.version <= found.version,
                    None => true,
                };
                if newer {
                    best = Some(found);
                }
            }
        }
        i = i + 1;
    }
    proof {
        assert forall|v: u32| #[trigger] m.machines.contains_key((name@, v)) implies exists|j: int|
            0 <= j < rows.len() && (#[trigger] machine_of(entry_blobs(rows@)[j])).name == name@
                && machine_of(entry_blobs(rows@)[j]).version == v by {
            let key = machine_key(name@, v);
            assert(raw.machines.contains_key(key));
            assert(keys.contains(key));
            let j = choose|j: int| 0 <= j < keys.len() && keys[j] == key;
            let found = machine_of(entry_blobs(rows@)[j]);
            assert(raw.machines[keys[j]] == entry_blobs(rows@)[j]);
            law_machine_keys_differ(name@, v, found.name, found.version);
        }
        if best is Some {
            let b = best->0;
            let j = choose|j: int|
                0 <= j < i && machine_of(#[trigger] entry_blobs(rows@)[j]) == b@;
            assert(raw.machines.contains_key(keys[j]));
            assert(raw.machines[keys[j]] == entry_blobs(rows@)[j]);
            assert(keys[j] == machine_key(name@, b@.version));
            assert(m.machines.contains_key((name@, b@.version)));
        }
    }
    Ok(best)
}

/// Whether a row of the index of histories is that of a transition of an entity
/// after a sequence number.
spec fn is_of(key: Seq<char>, n: u64, base: Seq<char>, after: u64) -> bool {
    key == numbered_key(base, n as nat) && n > after
}

/// Whether numbers are those of the rows that are an entity's, in the order of
/// the rows: `origin` names the rows that they came from.
spec fn picked(
    keys: Seq<Seq<char>>,
    nums: Seq<u64>,
    upto: int,
    base: Seq<char>,
    after: u64,
    origin: Seq<int>,
    s: Seq<u64>,
) -> bool {
    &&& s.len() == origin.len()
    &&& forall|a: int|
        0 <= a < origin.len() ==> 0 <= #[trigger] origin[a] < upto && s[a] == nums[origin[a]]
            && is_of(keys[origin[a]], nums[origin[a]], base, after)
    &&& forall|a: int, b: int| 0 <= a < b < origin.len() ==> origin[a] < origin[b]
    &&& forall|j: int|
        #![trigger keys[j]]
        0 <= j < upto && is_of(keys[j], nums[j], base, after) ==> origin.contains(j)
}

/// Picks, from the rows of the index of histories, the sequence numbers after
/// `after` of the transitions of an entity.
fn pick_numbers(rows: &Vec<(String, u64)>, entity_id: &str, machine: &str, after: u64) -> (r: Vec<
    u64,
>)
    ensures
        exists|origin: Seq<int>|
            picked(
                entry_keys(rows@),
                entry_numbers(rows@),
                rows@.len() as int,
                entity_key(entity_id@, machine@),
                after,
                origin,
                r@,
            ),
{
    let ghost base = entity_key(entity_id@, machine@);
    let ghost keys = entry_keys(rows@);
    let ghost nums = entry_numbers(rows@);
    let mut found: Vec<u64> = Vec::new();
    // The rows that the found numbers came from.
    let ghost mut origin: Seq<int> = Seq::empty();
    let mut i: usize = 0;
    while i < rows.len()
        invariant
            i <= rows.len(),
            base == entity_key(entity_id@, machine@),
            keys == entry_keys(rows@),
            nums == entry_numbers(rows@),
            picked(keys, nums, i as int, base, after, origin, found@),
        decreases rows.len() - i,
    {
        let n = rows[i].1;
        let key = entity_transition_key(entity_id, machine, n);
        let ghost before = origin;
        assert(keys[i as int] == rows[i as int].0@ && nums[i as int] == n);
        if rows[i].0 == key && n > after {
            found.push(n);
            proof {
                origin = origin.push(i as int);
                assert(origin[before.len() as int] == i);
                assert forall|j: int| before.contains(j) implies origin.contains(j) by {
                    let a = choose|a: int| 0 <= a < before.len() && before[a] == j;
                    assert(origin[a] == j);
                }
                assert(origin.contains(i as int));
            }
        }
        i = i + 1;
    }
    found
}

/// What was picked from the rows of the index of histories is the history.
proof fn lemma_picked(
    raw: Raw,
    keys: Seq<Seq<char>>,
    nums: Seq<u64>,
    base: Seq<char>,
    after: u64,
    origin: Seq<int>,
    s: Seq<u64>,
)
    requires
        raw_wf(raw),
        lists(raw.index, keys, nums),
        picked(keys, nums, keys.len() as int, base, after, origin, s),
    ensures
        s == model_of(raw).numbers_of(base, after, model_of(raw).sequence),
        forall|i: int| 0 <= i < s.len() ==> model_of(raw).log.contains_key(#[trigger] s[i]),
{
    let m = model_of(raw);
    assert forall|a: int, b: int| 0 <= a < b < s.len() implies s[a] < s[b] by {
        assert(origin[a] < origin[b]);
        assert(text_lt(keys[origin[a]], keys[origin[b]]));
        lemma_numbered_keys_order(base, s[a], s[b]);
    }
    assert forall|a: int| 0 <= a < s.len() implies after < #[trigger] s[a] <= m.sequence
        && m.log.contains_key(s[a]) && record_key(m.log[s[a]]) == base by {
        let n = s[a];
        let k = keys[origin[a]];
        assert(raw.index.contains_key(k) && raw.index[k] == n);
        assert(m.log.contains_key(n));
        lemma_numbered_keys_differ(base, n, record_key(m.log[n]), n);
    }
    assert forall|n: u64| after < n <= m.sequence && m.log.contains_key(n) && record_key(
        m.log[n],
    ) == base implies #[trigger] s.contains(n) by {
        lemma_picks_all(raw, keys, nums, base, after, origin, s, n);
    }
    lemma_numbers_are(m, base, after, m.sequence, s);
}

/// Every transition of an entity after a sequence number is picked.
proof fn lemma_picks_all(
    raw: Raw,
    keys: Seq<Seq<char>>,
    nums: Seq<u64>,
    base: Seq<char>,
    after: u64,
    origin: Seq<int>,
    s: Seq<u64>,
    n: u64,
)
    requires
        raw_wf(raw),
        lists(raw.index, keys, nums),
        picked(keys, nums, keys.len() as int, base, after, origin, s),
        after < n,
        model_of(raw).log.contains_key(n),
        record_key(model_of(raw).log[n]) == base,
    ensures
        s.contains(n),
{
    let m = model_of(raw);
    let k = numbered_key(record_key(m.log[n]), n as nat);
    assert(raw.index.contains_key(k));
    assert(keys.contains(k));
    let j = choose|j: int| 0 <= j < keys.len() && keys[j] == k;
    let found_n = raw.index[k];
    lemma_numbered_keys_differ(base, n, record_key(m.log[found_n]), found_n);
    assert(nums[j] == n);
    assert(is_of(keys[j], nums[j], base, after));
    assert(origin.contains(j));
    let a = choose|a: int| 0 <= a < origin.len() && origin[a] == j;
    assert(s[a] == n);
}

/// The sequence numbers after `after` of the transitions of an entity.
pub(crate) fn history_numbers(
    tx: &redb::ReadTransaction,
    entity_id: &str,
    machine: &str,
    after: u64,
) -> (r: Result<Vec<u64>, StorageError>)
    requires
        raw_wf(seen(*tx)),
    ensures
        match r {
            Ok(v) => {
                &&& v@ == model_of(seen(*tx)).numbers_of(
                    entity_key(entity_id@, machine@),
                    after,
                    model_of(seen(*tx)).sequence,
                )
                &&& forall|i: int|
                    0 <= i < v@.len() ==> model_of(seen(*tx)).log.contains_key(#[trigger] v@[i])
            },
            Err(e) => e@.is_fault() && read_failed(*tx),
        },
{
    proof {
        lemma_table_names();
    }
    let rows = all_numbers(tx, "entity_transitions")?;
    let found = pick_numbers(&rows, entity_id, machine, after);
    proof {
        let base = entity_key(entity_id@, machine@);
        let keys = entry_keys(rows@);
        let nums = entry_numbers(rows@);
        let origin = choose|origin: Seq<int>|
            picked(keys, nums, rows@.len() as int, base, after, origin, found@);
        lemma_picked(seen(*tx), keys, nums, base, after, origin, found@);
    }
    Ok(found)
}

/// Whether effects stand in the order in which they leave the outbox.
spec fn by_time(s: Seq<Effect>) -> bool {
    forall|a: int, b: int|
        0 <= a < b < s.len() ==> StoreModel::leaves_before(
            (#[trigger] s[a])@,
            (#[trigger] s[b])@,
        )
}

/// Inserts an effect behind those of its time and before, where it has the
/// largest identifier so far.
fn insert_by_time(found: &mut Vec<Effect>, effect: Effect) -> (p: usize)
    requires
        by_time(old(found)@),
        forall|a: int| 0 <= a < old(found)@.len() ==> text_lt(
            (#[trigger] old(found)@[a])@.id,
            effect@.id,
        ),
    ensures
        p <= old(found)@.len(),
        final(found)@ == old(found)@.insert(p as int, effect),
        by_time(final(found)@),
{
    let ghost before = found@;
    let ghost e = effect@;
    let mut p: usize = found.len();
    while p > 0 && effect.created_at.is_before(&found[p - 1].created_at)
        invariant
            p <= found.len(),
            found@ == before,
            effect@ == e,
            forall|b: int|
                p <= b < found.len() ==> e.created_at.earlier((#[trigger] before[b])@.created_at),
        decreases p,
    {
        p = p - 1;
    }
    proof {
        assert forall|a: int| 0 <= a < p implies StoreModel::leaves_before(
            (#[trigger] before[a])@,
            e,
        ) by {
            if a < p - 1 {
                assert(StoreModel::leaves_before(before[a]@, before[p - 1]@));
            }
        }
    }
    found.insert(p, effect);
    proof {
        let after = found@;
        assert forall|a: int, b: int| 0 <= a < b < after.len() implies StoreModel::leaves_before(
            (#[trigger] after[a])@,
            (#[trigger] after[b])@,
        ) by {
            if b == p {
                assert(after[a] == before[a]);
            } else if a == p {
                assert(after[b] == before[b - 1]);
            } else {
                let a0 = if a < p { a } else { a - 1 };
                let b0 = if b < p { b } else { b - 1 };
                assert(after[a] == before[a0] && after[b] == before[b0]);
                assert(StoreModel::leaves_before(before[a0]@, before[b0]@));
            }
        }
    }
    p
}

/// The pending effects, earliest first.
pub(crate) fn pending_effects(tx: &redb::ReadTransaction) -> (r: Result<Vec<Effect>, StorageError>)
    requires
        raw_wf(seen(*tx)),
    ensures
        match r {
            Ok(v) => model_of(seen(*tx)).lists_pending(effect_views(v@)),
            Err(e) => e@.is_fault() && read_failed(*tx),
        },
{
    proof {
        lemma_table_names();
    }
    let ghost raw = seen(*tx);
    let ghost m = model_of(raw);
    let rows = all_blobs(tx, "effects")?;
    let ghost keys = entry_keys(rows@);
    let mut found: Vec<Effect> = Vec::new();
    let mut i: usize = 0;
    while i < rows.len()
        invariant
            i <= rows.len(),
            raw_wf(raw),
            raw == seen(*tx),
            m == model_of(raw),
            keys == entry_keys(rows@),
            lists(raw.effects, keys, entry_blobs(rows@)),
            forall|a: int|
                0 <= a < found.len() ==> exists|j: int|
                    0 <= j < i && (#[trigger] found[a])@ == effect_of(
                        #[trigger] entry_blobs(rows@)[j],
                    ),
            forall|a: int| 0 <= a < found.len() ==> (#[trigger] found[a]).status
                == EffectStatus::Pending,
            by_time(found@),
            forall|j: int|
                0 <= j < i && effect_of(#[trigger] entry_blobs(rows@)[j]).status
                    == EffectStatus::Pending ==> effect_views(found@).contains(
                    effect_of(entry_blobs(rows@)[j]),
                ),
        decreases rows.len() - i,
    {
        proof {
            assert(raw.effects.contains_key(keys[i as int]));
            assert(raw.effects[keys[i as int]] == rows[i as int].1@);
        }
        let effect = read_effect(&rows[i].1)?;
        let ghost e = effect@;
        let ghost before = found@;
        assert(e == effect_of(entry_blobs(rows@)[i as int]));
        proof {
            assert(raw.effects.contains_key(keys[i as int]));
            assert(m.effects.contains_key(keys[i as int]));
            assert(e.id == keys[i as int]);
            assert forall|a: int| 0 <= a < before.len() implies text_lt(
                (#[trigger] before[a])@.id,
                e.id,
            ) by {
                let j = choose|j: int|
                    0 <= j < i && before[a]@ == effect_of(#[trigger] entry_blobs(rows@)[j]);
                assert(raw.effects.contains_key(keys[j]));
                assert(m.effects.contains_key(keys[j]));
                assert(before[a]@.id == keys[j]);
                assert(text_lt(keys[j], keys[i as int]));
            }
        }
        if effect.status == EffectStatus::Pending {
            let p = insert_by_time(&mut found, effect);
            proof {
                assert forall|a: int| 0 <= a < found.len() implies exists|j: int|
                    0 <= j < i + 1 && (#[trigger] found[a])@ == effect_of(
                        #[trigger] entry_blobs(rows@)[j],
                    ) by {
                    if a == p {
                        assert(found[a]@ == effect_of(entry_blobs(rows@)[i as int]));
                    } else {
                        let a0 = if a < p { a } else { a - 1 };
                        assert(found[a] == before[a0]);
                        let j = choose|j: int|
                            0 <= j < i && before[a0]@ == effect_of(
                                #[trigger] entry_blobs(rows@)[j],
                            );
                        assert(found[a]@ == effect_of(entry_blobs(rows@)[j]));
                    }
                }
                assert forall|a: int| 0 <= a < found.len() implies (#[trigger] found[a]).status
                    == EffectStatus::Pending by {
                    if a != p {
                        let a0 = if a < p { a } else { a - 1 };
                        assert(found[a] == before[a0]);
                    }
                }
                assert forall|x: EffectView| effect_views(before).contains(x) implies
                    effect_views(found@).contains(x) by {
                    let a = choose|a: int| 0 <= a < before.len() && effect_views(before)[a] == x;
                    let a1 = if a < p { a } else { a + 1 };
                    assert(effect_views(found@)[a1] == x);
                }
                assert(effect_views(found@)[p as int] == e);
            }
        }
        i = i + 1;
    }
    proof {
        let s = effect_views(found@);
        assert forall|a: int| 0 <= a < s.len() implies m.effects.contains_key((#[trigger] s[a]).id)
            && m.effects[s[a].id] == s[a] && s[a].status == EffectStatus::Pending by {
            assert(s[a] == found[a]@);
            let j = choose|j: int|
                0 <= j < i && found[a]@ == effect_of(#[trigger] entry_blobs(rows@)[j]);
            assert(raw.effects.contains_key(keys[j]));
            assert(m.effects.contains_key(keys[j]));
            assert(m.effects[keys[j]] == s[a]);
        }
        assert forall|k: Seq<char>| #[trigger] m.effects.contains_key(k) && m.effects[k].status
            == EffectStatus::Pending implies s.contains(m.effects[k]) by {
            assert(raw.effects.contains_key(k));
            assert(keys.contains(k));
            let j = choose|j: int| 0 <= j < keys.len() && keys[j] == k;
            assert(raw.effects[keys[j]] == entry_blobs(rows@)[j]);
        }
        assert forall|a: int, b: int| 0 <= a < b < s.len() implies StoreModel::leaves_before(
            #[trigger] s[a],
            #[trigger] s[b],
        ) by {
            assert(StoreModel::leaves_before(found[a]@, found[b]@));
        }
    }
    Ok(found)
}

} // verus!
