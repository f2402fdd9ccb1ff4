//! A store in an embedded database.
use crate::fsm::machine::MachineDefinition;
use crate::fsm::record::{
    effect_views, entity_views, record_views, Effect, EffectStatus, EffectView, EntityState,
    TransitionRecord,
};
use crate::storage::engine::{all_pending, as_pending, marked, StorageEngine};
use crate::storage::error::StorageError;
use crate::storage::model::{entity_key, machine_key, StoreModel};
use crate::storage::raw::{
    all_made, blob_tables, has_tables, id_at, ids_from, lemma_blank, lemma_ids, lemma_table_names,
    lemma_with_effect, lemma_with_entity, lemma_with_key, lemma_with_machine, lemma_with_record,
    lemma_with_status, lemma_with_tables, model_of, number_tables, numbered_key, raw_of, raw_wf,
    raw_with_effect, raw_with_entity, raw_with_key, raw_with_machine, raw_with_record, with_tables,
    Raw,
};
use crate::storage::rows::{
    effect_unwritten, entity_of, entity_reads, entity_unwritten, machine_of, machine_reads,
    machine_unwritten, read_entity, read_machine, record_of, record_unwritten, write_effect,
    write_entity, write_machine, write_record,
};
use crate::storage::tables::{
    abort, begin_read, begin_write, commit, create_blobs, create_in_memory, create_names,
    create_numbers, create_rows, entry_blobs, entry_keys, get_staged_name, home, identity, lists,
    put, put_blob, put_name, put_number, put_row, snapshot, staged, stored, writing, Tables,
};
use crate::text::decimal_of;
use crate::storage::keys::{
    definition_key, effect_by_txn_key, entity_state_key, entity_transition_key,
};
use crate::storage::reading::{
    all_blobs, blob_at, effect_at, entity_at, history_numbers, latest_machine, missing_sequence,
    name_at, next_number, number_at, pending_effects, read_failed, read_sequence, record_at,
    records_behind, records_under, seen,
};
use crate::storage::soundness::check_all;
use vstd::prelude::*;

verus! {

/// A store in an embedded database.
pub struct RedbEngine {
    db: redb::Database,
}

/// What a write transaction would commit.
spec fn to_commit(tx: redb::WriteTransaction) -> Raw {
    raw_of(staged(tx))
}

// ---------------------------------------------------------------------------
// Failures
// ---------------------------------------------------------------------------

/// Whether the database with an identity failed to stage a change.
spec fn unstaged(db: int) -> bool {
    ||| exists|tx: &mut redb::WriteTransaction, table: &str, key: &str, value: &Vec<u8>, e: redb::Error|
        home(*tx) == db && #[trigger] call_ensures(put_blob, (tx, table, key, value), Err(e))
    ||| exists|tx: &mut redb::WriteTransaction, table: &str, key: u64, value: &Vec<u8>, e: redb::Error|
        home(*tx) == db && #[trigger] call_ensures(put_row, (tx, table, key, value), Err(e))
    ||| exists|tx: &mut redb::WriteTransaction, table: &str, key: &str, value: u64, e: redb::Error|
        home(*tx) == db && #[trigger] call_ensures(put_number, (tx, table, key, value), Err(e))
    ||| exists|tx: &mut redb::WriteTransaction, table: &str, key: &str, value: &str, e: redb::Error|
        home(*tx) == db && #[trigger] call_ensures(put_name, (tx, table, key, value), Err(e))
    ||| exists|tx: redb::WriteTransaction, table: &str, key: &str, e: redb::Error|
        home(tx) == db && #[trigger] call_ensures(get_staged_name, (&tx, table, key), Err(e))
}

/// Whether the database with an identity failed to make a table.
spec fn unmade(db: int) -> bool {
    ||| exists|tx: &mut redb::WriteTransaction, table: &str, e: redb::Error|
        home(*tx) == db && #[trigger] call_ensures(create_blobs, (tx, table), Err(e))
    ||| exists|tx: &mut redb::WriteTransaction, table: &str, e: redb::Error|
        home(*tx) == db && #[trigger] call_ensures(create_rows, (tx, table), Err(e))
    ||| exists|tx: &mut redb::WriteTransaction, table: &str, e: redb::Error|
        home(*tx) == db && #[trigger] call_ensures(create_numbers, (tx, table), Err(e))
    ||| exists|tx: &mut redb::WriteTransaction, table: &str, e: redb::Error|
        home(*tx) == db && #[trigger] call_ensures(create_names, (tx, table), Err(e))
}

/// Whether no write transaction could begin on a database.
spec fn unbegun(db: redb::Database) -> bool {
    exists|d: &mut redb::Database, e: redb::TransactionError|
        *d == db && #[trigger] call_ensures(begin_write, (d,), Err(e))
}

/// Whether the database with an identity failed to commit.
spec fn uncommitted(db: int) -> bool {
    exists|d: &mut redb::Database, tx: redb::WriteTransaction, e: redb::CommitError|
        identity(*d) == db && #[trigger] call_ensures(commit, (d, tx), Err(e))
}

/// Whether a database failed to read: no transaction could begin, a table could
/// not be read, or a row in it cannot be decoded.
pub closed spec fn db_reading_failed(db: redb::Database) -> bool {
    ||| exists|e: redb::TransactionError| #[trigger] call_ensures(begin_read, (&db,), Err(e))
    ||| exists|tx: redb::ReadTransaction|
        #![trigger read_failed(tx)]
        snapshot(tx) == stored(db) && read_failed(tx)
}

/// Whether a database failed to write: no transaction could begin, a change
/// could not be staged, or the commit failed.
pub closed spec fn db_writing_failed(db: redb::Database) -> bool {
    unbegun(db) || unstaged(identity(db)) || uncommitted(identity(db))
}

/// Whether a database failed to make its tables.
pub closed spec fn db_making_failed(db: redb::Database) -> bool {
    unbegun(db) || unmade(identity(db)) || uncommitted(identity(db))
}

/// Whether a database failed to read once its tables were made.
pub closed spec fn made_reading_failed(db: redb::Database) -> bool {
    exists|made: redb::Database|
        stored(made) == with_tables(stored(db)) && #[trigger] db_reading_failed(made)
}

/// Whether no database could be made in memory.
pub closed spec fn in_memory_failed() -> bool {
    ||| exists|e: redb::DatabaseError| #[trigger] call_ensures(create_in_memory, (), Err(e))
    ||| exists|db: redb::Database| #[trigger]
        call_ensures(create_in_memory, (), Ok(db)) && db_making_failed(db)
}

/// Whether an outcome is a fault of the store.
pub open spec fn fault_of<T>(r: Result<T, StorageError>) -> bool {
    r matches Err(e) && e@.is_fault()
}

/// Whether one of some effects cannot be written.
pub open spec fn effects_unwritten(s: Seq<EffectView>) -> bool {
    exists|i: int| 0 <= i < s.len() && #[trigger] effect_unwritten(s[i])
}

/// Whether an effect finds no number left among those of its transition.
pub open spec fn outbox_full(m: StoreModel, s: Seq<EffectView>) -> bool {
    exists|i: int|
        0 <= i < s.len() && m.with_effects(s.take(i)).emitted[(
        #[trigger] s[i]).transition_id].len() >= u64::MAX - 1
}

// ---------------------------------------------------------------------------
// Writing
// ---------------------------------------------------------------------------

/// Stages bytes under a key.
fn stage_blob(tx: &mut redb::WriteTransaction, table: &str, key: &str, value: &Vec<u8>) -> (r: Result<
    (),
    StorageError,
>)
    requires
        table@.len() > 0,
    ensures
        home(*final(tx)) == home(*old(tx)),
        match r {
            Ok(()) => staged(*final(tx)) == (Tables {
                blobs: put(staged(*old(tx)).blobs, table@, key@, value@),
                ..staged(*old(tx))
            }),
            Err(e) => e is Internal && unstaged(home(*old(tx))),
        },
{
    match put_blob(tx, table, key, value) {
        Ok(()) => Ok(()),
        Err(e) => Err(StorageError::of_table(e)),
    }
}

/// Stages bytes under a number.
fn stage_row(tx: &mut redb::WriteTransaction, table: &str, key: u64, value: &Vec<u8>) -> (r: Result<
    (),
    StorageError,
>)
    requires
        table@.len() > 0,
    ensures
        home(*final(tx)) == home(*old(tx)),
        match r {
            Ok(()) => staged(*final(tx)) == (Tables {
                rows: put(staged(*old(tx)).rows, table@, key, value@),
                ..staged(*old(tx))
            }),
            Err(e) => e is Internal && unstaged(home(*old(tx))),
        },
{
    match put_row(tx, table, key, value) {
        Ok(()) => Ok(()),
        Err(e) => Err(StorageError::of_table(e)),
    }
}

/// Stages a number under a key.
fn stage_number(tx: &mut redb::WriteTransaction, table: &str, key: &str, value: u64) -> (r: Result<
    (),
    StorageError,
>)
    requires
        table@.len() > 0,
    ensures
        home(*final(tx)) == home(*old(tx)),
        match r {
            Ok(()) => staged(*final(tx)) == (Tables {
                numbers: put(staged(*old(tx)).numbers, table@, key@, value),
                ..staged(*old(tx))
            }),
            Err(e) => e is Internal && unstaged(home(*old(tx))),
        },
{
    match put_number(tx, table, key, value) {
        Ok(()) => Ok(()),
        Err(e) => Err(StorageError::of_table(e)),
    }
}

/// Stages a text under a key.
fn stage_name(tx: &mut redb::WriteTransaction, table: &str, key: &str, value: &str) -> (r: Result<
    (),
    StorageError,
>)
    requires
        table@.len() > 0,
    ensures
        home(*final(tx)) == home(*old(tx)),
        match r {
            Ok(()) => staged(*final(tx)) == (Tables {
                names: put(staged(*old(tx)).names, table@, key@, value@),
                ..staged(*old(tx))
            }),
            Err(e) => e is Internal && unstaged(home(*old(tx))),
        },
{
    match put_name(tx, table, key, value) {
        Ok(()) => Ok(()),
        Err(e) => Err(StorageError::of_table(e)),
    }
}

/// Stages a definition.
fn stage_machine(
    tx: &mut redb::WriteTransaction,
    name: &str,
    version: u32,
    bytes: &Vec<u8>,
) -> (r: Result<(), StorageError>)
    ensures
        home(*final(tx)) == home(*old(tx)),
        has_tables(staged(*old(tx))) && r is Ok ==> has_tables(staged(*final(tx))),
        match r {
            Ok(()) => to_commit(*final(tx)) == raw_with_machine(
                to_commit(*old(tx)),
                name@,
                version,
                bytes@,
            ),
            Err(e) => e@.is_fault() && unstaged(home(*old(tx))),
        },
{
    proof {
        lemma_table_names();
    }
    let key = definition_key(name, version);
    stage_blob(tx, "machines", key.as_str(), bytes)
}

/// Stages an entity.
fn stage_entity(tx: &mut redb::WriteTransaction, key: &str, bytes: &Vec<u8>) -> (r: Result<
    (),
    StorageError,
>)
    ensures
        home(*final(tx)) == home(*old(tx)),
        has_tables(staged(*old(tx))) && r is Ok ==> has_tables(staged(*final(tx))),
        match r {
            Ok(()) => to_commit(*final(tx)) == raw_with_entity(to_commit(*old(tx)), key@, bytes@),
            Err(e) => e@.is_fault() && unstaged(home(*old(tx))),
        },
{
    proof {
        lemma_table_names();
    }
    stage_blob(tx, "entity_states", key, bytes)
}

/// Stages a log entry with its number, its indices and the counter.
fn stage_record(
    tx: &mut redb::WriteTransaction,
    n: u64,
    record: &TransitionRecord,
    bytes: &Vec<u8>,
) -> (r: Result<(), StorageError>)
    ensures
        home(*final(tx)) == home(*old(tx)),
        has_tables(staged(*old(tx))) && r is Ok ==> has_tables(staged(*final(tx))),
        match r {
            Ok(()) => to_commit(*final(tx)) == raw_with_record(
                to_commit(*old(tx)),
                n,
                record@,
                bytes@,
            ),
            Err(e) => e@.is_fault() && unstaged(home(*old(tx))),
        },
{
    proof {
        lemma_table_names();
    }
    let ghost before = to_commit(*tx);
    stage_number(tx, "meta", "sequence", n)?;
    stage_row(tx, "transitions", n, bytes)?;
    stage_number(tx, "transitions_by_id", record.id.as_str(), n)?;
    let key = entity_transition_key(record.entity_id.as_str(), record.machine.as_str(), n);
    stage_number(tx, "entity_transitions", key.as_str(), n)?;
    assert(to_commit(*tx) =~= raw_with_record(before, n, record@, bytes@));
    Ok(())
}

/// How many effects of a transition are staged, and whether `id` is one.
fn staged_ids(tx: &redb::WriteTransaction, transition_id: &str, id: &str) -> (r: Result<
    (u64, bool),
    StorageError,
>)
    requires
        has_tables(staged(*tx)),
    ensures
        match r {
            Ok(c) => {
                let ids = ids_from(to_commit(*tx).emitted, transition_id@, 0);
                c.0 == ids.len() && c.1 == ids.contains(id@)
            },
            Err(e) => e@.is_fault() && unstaged(home(*tx)),
        },
{
    proof {
        lemma_table_names();
    }
    let ghost ids = ids_from(to_commit(*tx).emitted, transition_id@, 0);
    proof {
        lemma_ids(to_commit(*tx).emitted, transition_id@, 0);
    }
    let mut i: u64 = 0;
    let mut found = false;
    while i < u64::MAX
        invariant
            ids == ids_from(to_commit(*tx).emitted, transition_id@, 0),
            ids.len() <= u64::MAX,
            forall|j: int|
                #![trigger ids[j]]
                0 <= j < ids.len() ==> id_at(to_commit(*tx).emitted, transition_id@, 0 + j, ids[j]),
            ids.len() < u64::MAX ==> !to_commit(*tx).emitted.contains_key(
                numbered_key(transition_id@, (0 + ids.len()) as nat),
            ),
            i <= ids.len(),
            found == ids.take(i as int).contains(id@),
            "effects_by_txn"@.len() > 0,
            has_tables(staged(*tx)),
        decreases u64::MAX - i,
    {
        let key = effect_by_txn_key(transition_id, i);
        match get_staged_name(tx, "effects_by_txn", key.as_str()) {
            Ok(Some(stored_id)) => {
                proof {
                    assert(i < ids.len());
                    assert(id_at(to_commit(*tx).emitted, transition_id@, 0 + i, ids[i as int]));
                    let longer = ids.take(i + 1);
                    assert(longer =~= ids.take(i as int).push(ids[i as int]));
                    if longer.contains(id@) && ids[i as int] != id@ {
                        let j = choose|j: int| 0 <= j < longer.len() && longer[j] == id@;
                        assert(ids.take(i as int)[j] == id@);
                    }
                    if ids.take(i as int).contains(id@) {
                        let j = choose|j: int| 0 <= j < i && ids.take(i as int)[j] == id@;
                        assert(longer[j] == id@);
                    }
                    if ids[i as int] == id@ {
                        assert(longer[i as int] == id@);
                    }
                }
                if *stored_id.as_str() == *id {
                    found = true;
                }
                i = i + 1;
            },
            Ok(None) => {
                proof {
                    if i < ids.len() {
                        assert(id_at(
                            to_commit(*tx).emitted,
                            transition_id@,
                            0 + i,
                            ids[i as int],
                        ));
                    }
                    assert(ids.take(i as int) =~= ids);
                }
                return Ok((i, found));
            },
            Err(e) => {
                return Err(StorageError::of_table(e));
            },
        }
    }
    assert(ids.take(i as int) =~= ids);
    Ok((i, found))
}

/// Stages an effect.
fn stage_effect(tx: &mut redb::WriteTransaction, effect: &Effect) -> (r: Result<(), StorageError>)
    requires
        has_tables(staged(*old(tx))),
        raw_wf(to_commit(*old(tx))),
    ensures
        home(*final(tx)) == home(*old(tx)),
        match r {
            Ok(()) => {
                &&& has_tables(staged(*final(tx)))
                &&& raw_wf(to_commit(*final(tx)))
                &&& model_of(to_commit(*final(tx))) == model_of(to_commit(*old(tx))).with_effect(
                    effect@,
                )
            },
            Err(e) => {
                &&& e@.is_fault()
                &&& unstaged(home(*old(tx))) || effect_unwritten(effect@) || model_of(
                    to_commit(*old(tx)),
                ).emitted[effect@.transition_id].len() >= u64::MAX - 1
            },
        },
{
    proof {
        lemma_table_names();
    }
    let ghost before = to_commit(*tx);
    let bytes = write_effect(effect)?;
    let (count, known) = staged_ids(tx, effect.transition_id.as_str(), effect.id.as_str())?;
    if count >= u64::MAX - 1 {
        return Err(StorageError::Internal("too many effects of one transition".to_owned()));
    }
    stage_blob(tx, "effects", effect.id.as_str(), &bytes)?;
    if !known {
        let key = effect_by_txn_key(effect.transition_id.as_str(), count);
        stage_name(tx, "effects_by_txn", key.as_str(), effect.id.as_str())?;
    }
    proof {
        assert(to_commit(*tx) =~= raw_with_effect(
            before,
            effect.transition_id@,
            effect.id@,
            bytes@,
        ));
        lemma_with_effect(before, effect@, bytes@);
    }
    Ok(())
}

/// Stages effects, in order.
fn stage_effects(tx: &mut redb::WriteTransaction, effects: &Vec<Effect>) -> (r: Result<
    (),
    StorageError,
>)
    requires
        has_tables(staged(*old(tx))),
        raw_wf(to_commit(*old(tx))),
    ensures
        home(*final(tx)) == home(*old(tx)),
        match r {
            Ok(()) => {
                &&& has_tables(staged(*final(tx)))
                &&& raw_wf(to_commit(*final(tx)))
                &&& model_of(to_commit(*final(tx))) == model_of(to_commit(*old(tx))).with_effects(
                    effect_views(effects@),
                )
            },
            Err(e) => {
                &&& e@.is_fault()
                &&& unstaged(home(*old(tx))) || effects_unwritten(effect_views(effects@))
                    || outbox_full(model_of(to_commit(*old(tx))), effect_views(effects@))
            },
        },
{
    let ghost views = effect_views(effects@);
    let ghost before = model_of(to_commit(*tx));
    let mut i: usize = 0;
    assert(views.take(0) =~= Seq::<EffectView>::empty());
    while i < effects.len()
        invariant
            i <= effects.len(),
            views == effect_views(effects@),
            before == model_of(to_commit(*old(tx))),
            home(*tx) == home(*old(tx)),
            has_tables(staged(*tx)),
            raw_wf(to_commit(*tx)),
            model_of(to_commit(*tx)) == before.with_effects(views.take(i as int)),
        decreases effects.len() - i,
    {
        assert(views[i as int] == effects[i as int]@);
        stage_effect(tx, &effects[i])?;
        proof {
            let longer = views.take(i + 1);
            assert(longer.drop_last() =~= views.take(i as int));
            assert(longer.last() == effects[i as int]@);
        }
        i = i + 1;
    }
    assert(views.take(i as int) =~= views);
    Ok(())
}

/// Stages everything that a transition writes.
fn stage_transition(
    tx: &mut redb::WriteTransaction,
    n: u64,
    record: &TransitionRecord,
    record_bytes: &Vec<u8>,
    state: &EntityState,
    state_bytes: &Vec<u8>,
    effects: &Vec<Effect>,
) -> (r: Result<(), StorageError>)
    requires
        has_tables(staged(*old(tx))),
        raw_wf(to_commit(*old(tx))),
        model_of(to_commit(*old(tx))).sequence < u64::MAX,
        n == model_of(to_commit(*old(tx))).sequence + 1,
        record_of(record_bytes@) == model_of(to_commit(*old(tx))).numbered(record@),
        entity_of(state_bytes@) == state@,
    ensures
        home(*final(tx)) == home(*old(tx)),
        match r {
            Ok(()) => {
                &&& has_tables(staged(*final(tx)))
                &&& raw_wf(to_commit(*final(tx)))
                &&& model_of(to_commit(*final(tx))) == model_of(to_commit(*old(tx))).executed(
                    record@,
                    state@,
                    effect_views(effects@),
                )
            },
            Err(e) => {
                &&& e@.is_fault()
                &&& unstaged(home(*old(tx))) || effects_unwritten(effect_views(effects@))
                    || outbox_full(model_of(to_commit(*old(tx))), effect_views(effects@))
            },
        },
{
    let ghost m0 = model_of(to_commit(*tx));
    let ghost raw0 = to_commit(*tx);
    stage_record(tx, n, record, record_bytes)?;
    proof {
        lemma_with_record(raw0, record@, record_bytes@);
    }
    let ghost raw1 = to_commit(*tx);
    let key = entity_state_key(state.entity_id.as_str(), state.machine.as_str());
    stage_entity(tx, key.as_str(), state_bytes)?;
    proof {
        lemma_with_entity(raw1, state@, state_bytes@);
    }
    let ghost m2 = model_of(to_commit(*tx));
    proof {
        lemma_outbox_full(m2, m0, effect_views(effects@));
    }
    stage_effects(tx, effects)?;
    proof {
        lemma_effects_keep(m2, effect_views(effects@));
    }
    if let Some(idem_key) = &record.idempotency_key {
        let ghost raw3 = to_commit(*tx);
        proof {
            lemma_table_names();
        }
        stage_number(tx, "idempotency", idem_key.as_str(), n)?;
        proof {
            assert(to_commit(*tx) =~= raw_with_key(raw3, idem_key@, n));
            lemma_with_key(raw3, idem_key@);
        }
    }
    Ok(())
}

/// Which effects a transition emitted depends on nothing but that.
proof fn lemma_effects_emitted(a: StoreModel, b: StoreModel, s: Seq<EffectView>)
    requires
        a.emitted == b.emitted,
    ensures
        a.with_effects(s).emitted == b.with_effects(s).emitted,
    decreases s.len(),
{
    if s.len() > 0 {
        lemma_effects_emitted(a, b, s.drop_last());
    }
}

/// Whether the outbox is full depends on nothing but the effects emitted.
proof fn lemma_outbox_full(a: StoreModel, b: StoreModel, s: Seq<EffectView>)
    requires
        a.emitted == b.emitted,
    ensures
        outbox_full(a, s) ==> outbox_full(b, s),
{
    if outbox_full(a, s) {
        let i = choose|i: int|
            0 <= i < s.len() && a.with_effects(s.take(i)).emitted[(
            #[trigger] s[i]).transition_id].len() >= u64::MAX - 1;
        lemma_effects_emitted(a, b, s.take(i));
    }
}

/// Effects touch neither the log nor the counter.
proof fn lemma_effects_keep(m: StoreModel, s: Seq<EffectView>)
    ensures
        m.with_effects(s).log == m.log,
        m.with_effects(s).sequence == m.sequence,
    decreases s.len(),
{
    if s.len() > 0 {
        lemma_effects_keep(m, s.drop_last());
    }
}

/// Ends a write transaction: commits what was staged, or, where staging
/// failed, aborts.
fn finish(
    db: &mut redb::Database,
    tx: redb::WriteTransaction,
    outcome: Result<(), StorageError>,
) -> (r: Result<(), StorageError>)
    requires
        writing(*old(db)),
        home(tx) == identity(*old(db)),
        outcome matches Err(e) ==> e@.is_fault(),
    ensures
        !writing(*final(db)),
        match r {
            Ok(()) => outcome is Ok && stored(*final(db)) == staged(tx),
            Err(e) => {
                &&& e@.is_fault()
                &&& outcome is Ok ==> uncommitted(identity(*old(db)))
                &&& stored(*final(db)) == stored(*old(db)) || (outcome is Ok && e is
                    TransactionFailed && stored(*final(db)) == staged(tx))
            },
        },
{
    match outcome {
        Ok(()) => match commit(db, tx) {
            Ok(()) => Ok(()),
            Err(e) => Err(StorageError::of_commit(e)),
        },
        Err(e) => {
            let _ = abort(db, tx);
            Err(e)
        },
    }
}

impl RedbEngine {
    /// The tables of the database.
    pub closed spec fn tables(&self) -> Tables {
        stored(self.db)
    }

    /// What the tables of the store hold.
    pub closed spec fn raw(&self) -> Raw {
        raw_of(stored(self.db))
    }

    /// Whether the store failed to read: no transaction could begin, a table
    /// could not be read, or a row in it cannot be decoded.
    pub closed spec fn reading_failed(&self) -> bool {
        db_reading_failed(self.db)
    }

    /// Whether the store failed to write: no transaction could begin, a change
    /// could not be staged, or the commit failed.
    pub closed spec fn writing_failed(&self) -> bool {
        db_writing_failed(self.db)
    }

    /// Whether the store failed to commit.
    pub closed spec fn commit_failed(&self) -> bool {
        uncommitted(identity(self.db))
    }

    /// Whether the store failed to change the status of an effect.
    pub open spec fn marking_failed(&self, id: Seq<char>, status: EffectStatus) -> bool {
        ||| self.reading_failed()
        ||| self.writing_failed()
        ||| effect_unwritten(EffectView { status, ..self.model().effects[id] })
    }

    /// Takes over a database that holds a store in order, and makes the tables
    /// that are missing. One that does not is refused.
    pub fn from_database(db: redb::Database) -> (r: Result<RedbEngine, StorageError>)
        requires
            !writing(db),
        ensures
            match r {
                Ok(engine) => {
                    &&& engine.wf()
                    &&& engine.tables() == with_tables(stored(db))
                    &&& engine.model() == model_of(raw_of(stored(db)))
                },
                Err(e) => {
                    &&& e@.is_fault()
                    &&& raw_wf(raw_of(stored(db))) ==> db_making_failed(db) || made_reading_failed(db)
                },
            },
    {
        let engine = RedbEngine::take_over(db)?;
        if engine.is_in_order()? {
            Ok(engine)
        } else {
            Err(StorageError::Corrupted("the database holds no store in order".to_owned()))
        }
    }

    /// Takes over a database, and makes the tables that are missing. What the
    /// database holds stays as it is.
    fn take_over(db: redb::Database) -> (r: Result<RedbEngine, StorageError>)
        requires
            !writing(db),
        ensures
            match r {
                Ok(engine) => {
                    &&& engine.tables() == with_tables(stored(db))
                    &&& engine.raw() == raw_of(stored(db))
                    &&& engine.is_ready()
                    &&& raw_wf(raw_of(stored(db))) <==> engine.wf()
                    &&& engine.model() == model_of(raw_of(stored(db)))
                },
                Err(e) => e@.is_fault() && db_making_failed(db),
            },
    {
        proof {
            lemma_with_tables(stored(db));
        }
        let mut engine = RedbEngine { db };
        match engine.ensure_tables() {
            Ok(()) => Ok(engine),
            Err(e) => Err(e),
        }
    }

    /// Whether all tables are there, and nothing is being written.
    pub closed spec fn is_ready(&self) -> bool {
        !writing(self.db) && has_tables(stored(self.db))
    }

    /// Tests whether the store is in order.
    pub fn is_in_order(&self) -> (r: Result<bool, StorageError>)
        requires
            self.is_ready(),
        ensures
            match r {
                Ok(b) => b == self.wf(),
                Err(e) => e@.is_fault() && self.reading_failed(),
            },
    {
        let tx = self.read()?;
        check_all(&tx)
    }

    /// A new store in memory.
    pub fn in_memory() -> (r: Result<RedbEngine, StorageError>)
        ensures
            match r {
                Ok(engine) => engine.wf() && engine.model() == StoreModel::empty(),
                Err(e) => e@.is_fault() && in_memory_failed(),
            },
    {
        proof {
            lemma_blank();
        }
        match create_in_memory() {
            Ok(db) => {
                assert(call_ensures(create_in_memory, (), Ok(db)));
                RedbEngine::take_over(db)
            },
            Err(e) => {
                assert(call_ensures(create_in_memory, (), Err(e)));
                Err(StorageError::of_database(e))
            },
        }
    }

    /// Makes the tables that are missing. Where that fails, they are all still
    /// missing, or, where the commit failed, they may all be there.
    fn ensure_tables(&mut self) -> (r: Result<(), StorageError>)
        requires
            !writing(old(self).db),
        ensures
            !writing(final(self).db),
            match r {
                Ok(()) => final(self).tables() == with_tables(old(self).tables()),
                Err(e) => {
                    &&& e@.is_fault() && db_making_failed(old(self).db)
                    &&& final(self).tables() == old(self).tables() || (e is TransactionFailed
                        && final(self).tables() == with_tables(old(self).tables()))
                },
            },
    {
        match begin_write(&mut self.db) {
            Ok(tx) => {
                let mut tx = tx;
                let outcome = RedbEngine::create_tables(&mut tx);
                finish(&mut self.db, tx, outcome)
            },
            Err(e) => Err(StorageError::of_begin(e)),
        }
    }

    /// Makes the tables that are missing, in a transaction.
    fn create_tables(tx: &mut redb::WriteTransaction) -> (r: Result<(), StorageError>)
        ensures
            home(*final(tx)) == home(*old(tx)),
            match r {
                Ok(()) => staged(*final(tx)) == with_tables(staged(*old(tx))),
                Err(e) => e@.is_fault() && unmade(home(*old(tx))),
            },
    {
        proof {
            lemma_table_names();
        }
        let ghost before = staged(*tx);
        let blobs: [&str; 3] = ["machines", "entity_states", "effects"];
        let numbers: [&str; 4] = ["transitions_by_id", "entity_transitions", "idempotency", "meta"];
        let ghost blob_names = blob_tables();
        let ghost number_names = number_tables();
        let mut i: usize = 0;
        while i < 3
            invariant
                i <= 3,
                blob_names == blob_tables(),
                forall|j: int|
                    0 <= j < 3 ==> (#[trigger] blobs[j])@ == blob_names[j] && blobs[j]@.len() > 0,
                home(*tx) == home(*old(tx)),
                staged(*tx) == (Tables {
                    blobs: all_made(before.blobs, blob_names.take(i as int)),
                    ..before
                }),
            decreases 3 - i,
        {
            match create_blobs(tx, blobs[i]) {
                Ok(()) => {},
                Err(e) => {
                    return Err(StorageError::of_table(e));
                },
            }
            assert(blob_names.take(i + 1).drop_last() =~= blob_names.take(i as int));
            i = i + 1;
        }
        assert(blob_names.take(3) =~= blob_names);
        let mut k: usize = 0;
        while k < 4
            invariant
                k <= 4,
                number_names == number_tables(),
                forall|j: int|
                    0 <= j < 4 ==> (#[trigger] numbers[j])@ == number_names[j] && numbers[j]@.len()
                        > 0,
                home(*tx) == home(*old(tx)),
                staged(*tx) == (Tables {
                    blobs: all_made(before.blobs, blob_tables()),
                    numbers: all_made(before.numbers, number_names.take(k as int)),
                    ..before
                }),
            decreases 4 - k,
        {
            match create_numbers(tx, numbers[k]) {
                Ok(()) => {},
                Err(e) => {
                    return Err(StorageError::of_table(e));
                },
            }
            assert(number_names.take(k + 1).drop_last() =~= number_names.take(k as int));
            k = k + 1;
        }
        assert(number_names.take(4) =~= number_names);
        match create_rows(tx, "transitions") {
            Ok(()) => {},
            Err(e) => {
                return Err(StorageError::of_table(e));
            },
        }
        match create_names(tx, "effects_by_txn") {
            Ok(()) => Ok(()),
            Err(e) => Err(StorageError::of_table(e)),
        }
    }

    /// Begins to read.
    fn read(&self) -> (r: Result<redb::ReadTransaction, StorageError>)
        ensures
            match r {
                Ok(tx) => snapshot(tx) == stored(self.db) && seen(tx) == self.raw(),
                Err(e) => e@.is_fault() && db_reading_failed(self.db),
            },
    {
        match begin_read(&self.db) {
            Ok(tx) => Ok(tx),
            Err(e) => {
                assert(call_ensures(begin_read, (&self.db,), Err(e)));
                Err(StorageError::of_begin(e))
            },
        }
    }
}

impl StorageEngine for RedbEngine {
    closed spec fn model(&self) -> StoreModel {
        model_of(self.raw())
    }

    closed spec fn wf(&self) -> bool {
        !writing(self.db) && has_tables(stored(self.db)) && raw_wf(self.raw())
    }

    proof fn lemma_wf(&self) {
    }

    fn store_machine(&mut self, machine: &MachineDefinition) -> (r: Result<(), StorageError>)
        ensures
            r is Err ==> final(self).model() == old(self).model() || old(self).commit_failed(),
            fault_of(r) ==> {
                ||| old(self).reading_failed()
                ||| old(self).writing_failed()
                ||| machine_unwritten(machine@)
            },
    {
        proof {
            lemma_table_names();
        }
        let ghost raw = self.raw();
        let key = definition_key(machine.name.as_str(), machine.version);
        let tx = self.read()?;
        let known = blob_at(&tx, "machines", key.as_str())?;
        if known.is_some() {
            return Err(
                StorageError::AlreadyExists(
                    "machine '".to_owned().concat(machine.name.as_str()).concat(
                        "' version ",
                    ).concat(decimal_of(machine.version as u64).as_str()),
                ),
            );
        }
        let bytes = write_machine(machine)?;
        proof {
            lemma_with_machine(raw, machine@, bytes@);
        }
        match begin_write(&mut self.db) {
            Ok(tx) => {
                let mut tx = tx;
                let outcome = stage_machine(
                    &mut tx,
                    machine.name.as_str(),
                    machine.version,
                    &bytes,
                );
                finish(&mut self.db, tx, outcome)
            },
            Err(e) => Err(StorageError::of_begin(e)),
        }
    }

    fn get_machine(&self, name: &str, version: Option<u32>) -> (r: Result<
        MachineDefinition,
        StorageError,
    >)
        ensures
            fault_of(r) ==> self.reading_failed(),
    {
        proof {
            lemma_table_names();
        }
        let tx = self.read()?;
        match version {
            Some(v) => {
                let key = definition_key(name, v);
                match blob_at(&tx, "machines", key.as_str())? {
                    Some(bytes) => {
                        proof {
                            assert(seen(tx).machines.contains_key(key@));
                            assert(!machine_reads(bytes@) ==> read_failed(tx));
                        }
                        read_machine(&bytes)
                    },
                    None => Err(
                        StorageError::NotFound(
                            "machine '".to_owned().concat(name).concat("' version ").concat(
                                decimal_of(v as u64).as_str(),
                            ),
                        ),
                    ),
                }
            },
            None => match latest_machine(&tx, name) {
                Ok(Some(m)) => Ok(m),
                Ok(None) => Err(
                    StorageError::NotFound("machine '".to_owned().concat(name).concat("'")),
                ),
                Err(e) => Err(e),
            },
        }
    }

    fn list_machines(&self) -> (r: Result<Vec<MachineDefinition>, StorageError>)
        ensures
            fault_of(r) ==> self.reading_failed(),
    {
        proof {
            lemma_table_names();
        }
        let ghost raw = self.raw();
        let tx = self.read()?;
        let rows = all_blobs(&tx, "machines")?;
        let ghost keys = entry_keys(rows@);
        let mut found: Vec<MachineDefinition> = Vec::new();
        let mut i: usize = 0;
        while i < rows.len()
            invariant
                i <= rows.len(),
                raw == seen(tx),
                snapshot(tx) == stored(self.db),
                lists(raw.machines, entry_keys(rows@), entry_blobs(rows@)),
                found.len() == i,
                forall|j: int| 0 <= j < i ==> (#[trigger] found[j])@ == machine_of(rows[j].1@),
            decreases rows.len() - i,
        {
            proof {
                let k = entry_keys(rows@)[i as int];
                assert(raw.machines.contains_key(k) && raw.machines[k] == rows[i as int].1@);
                assert(!machine_reads(rows[i as int].1@) ==> read_failed(tx));
            }
            found.push(read_machine(&rows[i].1)?);
            i = i + 1;
        }
        proof {
            let s = Seq::new(found@.len(), |i: int| found@[i]@);
            let m = self.model();
            assert forall|j: int| 0 <= j < s.len() implies keys[j] == machine_key(
                (#[trigger] s[j]).name,
                s[j].version,
            ) && raw.machines.contains_key(keys[j]) && machine_of(raw.machines[keys[j]])
                == s[j] by {
                assert(s[j] == found[j]@);
                assert(raw.machines.contains_key(keys[j]));
                assert(raw.machines[keys[j]] == entry_blobs(rows@)[j]);
            }
            assert forall|k: (Seq<char>, u32)| #[trigger]
                m.machines.contains_key(k) implies s.contains(m.machines[k]) by {
                let key = machine_key(k.0, k.1);
                assert(raw.machines.contains_key(key));
                assert(keys.contains(key));
                let j = choose|j: int| 0 <= j < keys.len() && keys[j] == key;
                assert(s[j] == m.machines[k]);
            }
            assert(m.lists_machines(s));
        }
        Ok(found)
    }

    fn get_entity_state(&self, entity_id: &str, machine: &str) -> (r: Result<
        EntityState,
        StorageError,
    >)
        ensures
            fault_of(r) ==> self.reading_failed(),
    {
        let key = entity_state_key(entity_id, machine);
        let tx = self.read()?;
        match entity_at(&tx, key.as_str()) {
            Ok(Some(s)) => Ok(s),
            Ok(None) => Err(
                StorageError::NotFound(
                    "entity '".to_owned().concat(entity_id).concat("' in machine '").concat(
                        machine,
                    ).concat("'"),
                ),
            ),
            Err(e) => Err(e),
        }
    }

    fn upsert_entity_state(&mut self, state: &EntityState) -> (r: Result<(), StorageError>)
        ensures
            r is Err ==> final(self).model() == old(self).model() || old(self).commit_failed(),
            fault_of(r) ==> {
                ||| old(self).reading_failed()
                ||| old(self).writing_failed()
                ||| entity_unwritten(state@)
            },
    {
        let ghost raw = self.raw();
        let key = entity_state_key(state.entity_id.as_str(), state.machine.as_str());
        let tx = self.read()?;
        match entity_at(&tx, key.as_str()) {
            Ok(Some(existing)) => {
                if state.version == 0 || existing.version != state.version - 1 {
                    return Err(
                        StorageError::VersionConflict {
                            entity_id: state.entity_id.clone(),
                            expected: if state.version == 0 {
                                0
                            } else {
                                state.version - 1
                            },
                            actual: existing.version,
                        },
                    );
                }
            },
            Ok(None) => {},
            Err(e) => {
                return Err(e);
            },
        }
        let bytes = write_entity(state)?;
        proof {
            lemma_with_entity(raw, state@, bytes@);
        }
        match begin_write(&mut self.db) {
            Ok(tx) => {
                let mut tx = tx;
                let outcome = stage_entity(&mut tx, key.as_str(), &bytes);
                finish(&mut self.db, tx, outcome)
            },
            Err(e) => Err(StorageError::of_begin(e)),
        }
    }

    fn list_entities_in_state(&self, machine: &str, state_name: &str) -> (r: Result<
        Vec<EntityState>,
        StorageError,
    >)
        ensures
            fault_of(r) ==> self.reading_failed(),
    {
        proof {
            lemma_table_names();
        }
        let ghost raw = self.raw();
        let ghost m = self.model();
        let tx = self.read()?;
        let rows = all_blobs(&tx, "entity_states")?;
        let ghost keys = entry_keys(rows@);
        let mut found: Vec<EntityState> = Vec::new();
        // The rows that the found entities came from.
        let ghost mut origin: Seq<int> = Seq::empty();
        let mut i: usize = 0;
        while i < rows.len()
            invariant
                i <= rows.len(),
                raw_wf(raw),
                raw == seen(tx),
                snapshot(tx) == stored(self.db),
                m == model_of(raw),
                keys == entry_keys(rows@),
                lists(raw.entities, keys, entry_blobs(rows@)),
                found.len() == origin.len(),
                forall|a: int|
                    0 <= a < origin.len() ==> 0 <= #[trigger] origin[a] < i && (found[a])@
                        == entity_of(rows[origin[a]].1@) && StoreModel::stands_in(
                        found[a]@,
                        machine@,
                        state_name@,
                    ),
                forall|a: int, b: int| 0 <= a < b < origin.len() ==> origin[a] < origin[b],
                forall|j: int|
                    0 <= j < i && StoreModel::stands_in(
                        entity_of(#[trigger] entry_blobs(rows@)[j]),
                        machine@,
                        state_name@,
                    ) ==> origin.contains(j),
            decreases rows.len() - i,
        {
            proof {
                let k = keys[i as int];
                assert(raw.entities.contains_key(k) && raw.entities[k] == rows[i as int].1@);
                assert(!entity_reads(rows[i as int].1@) ==> read_failed(tx));
            }
            let state = read_entity(&rows[i].1)?;
            let ghost before = origin;
            if *state.machine.as_str() == *machine && *state.current_state.as_str() == *state_name {
                found.push(state);
                proof {
                    origin = origin.push(i as int);
                    assert(origin[before.len() as int] == i);
                    assert forall|j: int| before.contains(j) implies origin.contains(j) by {
                        let a = choose|a: int| 0 <= a < before.len() && before[a] == j;
                        assert(origin[a] == j);
                    }
                    assert(origin.contains(i as int));
                }
            }
            i = i + 1;
        }
        proof {
            let s = entity_views(found@);
            assert forall|a: int| 0 <= a < s.len() implies keys[origin[a]] == entity_key(
                (#[trigger] s[a]).entity_id,
                s[a].machine,
            ) && m.entities.contains_key(keys[origin[a]]) && m.entities[keys[origin[a]]]
                == s[a] by {
                let j = origin[a];
                assert(raw.entities.contains_key(keys[j]));
                assert(raw.entities[keys[j]] == entry_blobs(rows@)[j]);
                assert(m.entities.contains_key(keys[j]));
                assert(m.entities[keys[j]] == s[a]);
            }
            assert forall|k: Seq<char>| #[trigger]
                m.entities.contains_key(k) && StoreModel::stands_in(
                    m.entities[k],
                    machine@,
                    state_name@,
                ) implies s.contains(m.entities[k]) by {
                assert(raw.entities.contains_key(k));
                assert(keys.contains(k));
                let j = choose|j: int| 0 <= j < keys.len() && keys[j] == k;
                assert(raw.entities[keys[j]] == entry_blobs(rows@)[j]);
                assert(origin.contains(j));
                let a = choose|a: int| 0 <= a < origin.len() && origin[a] == j;
                assert(s[a] == m.entities[k]);
            }
            assert(m.lists_entities(machine@, state_name@, s));
        }
        Ok(found)
    }

    fn append_transition(&mut self, record: &mut TransitionRecord) -> (r: Result<
        u64,
        StorageError,
    >)
        ensures
            r is Err ==> final(self).model() == old(self).model() || old(self).commit_failed(),
            fault_of(r) ==> {
                ||| old(self).reading_failed()
                ||| old(self).writing_failed()
                ||| record_unwritten(old(self).model().numbered(old(record)@))
                ||| old(self).model().sequence == u64::MAX
            },
    {
        let ghost raw = self.raw();
        let tx = self.read()?;
        let sequence = read_sequence(&tx)?;
        if sequence == u64::MAX {
            return Err(StorageError::Internal("sequence numbers are used up".to_owned()));
        }
        let n = sequence + 1;
        let mut numbered = record.clone();
        numbered.sequence = n;
        let bytes = write_record(&numbered)?;
        proof {
            lemma_with_record(raw, record@, bytes@);
        }
        match begin_write(&mut self.db) {
            Ok(tx) => {
                let mut tx = tx;
                let outcome = stage_record(&mut tx, n, &*record, &bytes);
                match finish(&mut self.db, tx, outcome) {
                    Ok(()) => {
                        record.sequence = n;
                        Ok(n)
                    },
                    Err(e) => Err(e),
                }
            },
            Err(e) => Err(StorageError::of_begin(e)),
        }
    }

    fn get_transition(&self, id: &str) -> (r: Result<TransitionRecord, StorageError>)
        ensures
            fault_of(r) ==> self.reading_failed(),
    {
        proof {
            lemma_table_names();
        }
        let tx = self.read()?;
        let sequence = match number_at(&tx, "transitions_by_id", id)? {
            Some(n) => n,
            None => {
                return Err(
                    StorageError::NotFound("transition '".to_owned().concat(id).concat("'")),
                );
            },
        };
        match record_at(&tx, sequence) {
            Ok(Some(t)) => Ok(t),
            Ok(None) => Err(missing_sequence(sequence)),
            Err(e) => Err(e),
        }
    }

    fn get_history(
        &self,
        entity_id: &str,
        machine: &str,
        limit: Option<u32>,
        after_sequence: Option<u64>,
    ) -> (r: Result<Vec<TransitionRecord>, StorageError>)
        ensures
            fault_of(r) ==> self.reading_failed(),
    {
        let ghost m = self.model();
        let after: u64 = match after_sequence {
            Some(a) => a,
            None => 0,
        };
        let tx = self.read()?;
        let numbers = history_numbers(&tx, entity_id, machine, after)?;
        let ghost all = numbers@;
        let n: usize = match limit {
            Some(l) => if (l as u64) < numbers.len() as u64 {
                l as usize
            } else {
                numbers.len()
            },
            None => numbers.len(),
        };
        let found = records_under(&tx, &numbers, n)?;
        assert(record_views(found@) =~= m.history(entity_id@, machine@, limit, after_sequence));
        Ok(found)
    }

    fn get_transitions_after(&self, after_sequence: u64, limit: u32) -> (r: Result<
        Vec<TransitionRecord>,
        StorageError,
    >)
        ensures
            fault_of(r) ==> self.reading_failed(),
    {
        let ghost m = self.model();
        let tx = self.read()?;
        let sequence = read_sequence(&tx)?;
        let left: u64 = if after_sequence < sequence {
            sequence - after_sequence
        } else {
            0
        };
        let n: u64 = if left < limit as u64 {
            left
        } else {
            limit as u64
        };
        assert forall|k: u64| after_sequence < k <= after_sequence + n implies #[trigger]
            m.log.contains_key(k) by {}
        let found = records_behind(&tx, after_sequence, n)?;
        assert(record_views(found@) =~= m.records_after(after_sequence, limit));
        Ok(found)
    }

    fn insert_effects(&mut self, effects: &Vec<Effect>) -> (r: Result<(), StorageError>)
        ensures
            r is Err ==> final(self).model() == old(self).model() || old(self).commit_failed(),
            fault_of(r) ==> {
                ||| old(self).writing_failed()
                ||| effects_unwritten(all_pending(effect_views(effects@)))
                ||| outbox_full(old(self).model(), all_pending(effect_views(effects@)))
            },
    {
        let mut pending: Vec<Effect> = Vec::new();
        let mut i: usize = 0;
        while i < effects.len()
            invariant
                i <= effects.len(),
                pending.len() == i,
                forall|j: int| 0 <= j < i ==> (#[trigger] pending[j])@ == as_pending(effects[j]@),
            decreases effects.len() - i,
        {
            let mut effect = effects[i].clone();
            effect.status = EffectStatus::Pending;
            pending.push(effect);
            i = i + 1;
        }
        assert(effect_views(pending@) =~= all_pending(effect_views(effects@)));
        match begin_write(&mut self.db) {
            Ok(tx) => {
                let mut tx = tx;
                let outcome = stage_effects(&mut tx, &pending);
                finish(&mut self.db, tx, outcome)
            },
            Err(e) => Err(StorageError::of_begin(e)),
        }
    }

    fn get_pending_effects(&self, limit: u32) -> (r: Result<Vec<Effect>, StorageError>)
        ensures
            fault_of(r) ==> self.reading_failed(),
    {
        let ghost m = self.model();
        let tx = self.read()?;
        let mut found = pending_effects(&tx)?;
        let ghost all = effect_views(found@);
        if found.len() as u64 > limit as u64 {
            found.truncate(limit as usize);
            assert(effect_views(found@) =~= all.take(limit as int));
        }
        assert(m.lists_pending(all));
        Ok(found)
    }

    fn get_effects_for_transition(&self, transition_id: &str) -> (r: Result<
        Vec<Effect>,
        StorageError,
    >)
        ensures
            fault_of(r) ==> self.reading_failed(),
    {
        proof {
            lemma_table_names();
        }
        let ghost raw = self.raw();
        let ghost m = self.model();
        let ghost ids = ids_from(raw.emitted, transition_id@, 0);
        proof {
            lemma_ids(raw.emitted, transition_id@, 0);
        }
        let tx = self.read()?;
        let mut found: Vec<Effect> = Vec::new();
        let mut i: u64 = 0;
        while i < u64::MAX
            invariant
                raw_wf(raw),
                raw == seen(tx),
                snapshot(tx) == stored(self.db),
                m == model_of(raw),
                m == self.model(),
                ids == ids_from(raw.emitted, transition_id@, 0),
                ids == m.emitted[transition_id@],
                ids.len() <= u64::MAX,
                forall|j: int|
                    #![trigger ids[j]]
                    0 <= j < ids.len() ==> id_at(raw.emitted, transition_id@, 0 + j, ids[j]),
                ids.len() < u64::MAX ==> !raw.emitted.contains_key(
                    numbered_key(transition_id@, (0 + ids.len()) as nat),
                ),
                i <= ids.len(),
                found.len() == i,
                forall|j: int| 0 <= j < i ==> (#[trigger] found[j])@ == m.effects[ids[j]],
                "effects_by_txn"@.len() > 0,
            decreases u64::MAX - i,
        {
            let key = effect_by_txn_key(transition_id, i);
            match name_at(&tx, "effects_by_txn", key.as_str())? {
                Some(id) => {
                    proof {
                        assert(i < ids.len());
                        assert(id_at(raw.emitted, transition_id@, 0 + i, ids[i as int]));
                    }
                    match effect_at(&tx, id.as_str()) {
                        Ok(Some(effect)) => {
                            found.push(effect);
                        },
                        Ok(None) => {
                            return Err(
                                StorageError::Corrupted("effect ".to_owned().concat(id.as_str())),
                            );
                        },
                        Err(e) => {
                            return Err(e);
                        },
                    }
                    i = i + 1;
                },
                None => {
                    proof {
                        if i < ids.len() {
                            assert(id_at(raw.emitted, transition_id@, 0 + i, ids[i as int]));
                        }
                        assert(effect_views(found@) =~= m.effects_of(transition_id@));
                    }
                    return Ok(found);
                },
            }
        }
        assert(effect_views(found@) =~= m.effects_of(transition_id@));
        Ok(found)
    }

    fn mark_effect_published(&mut self, effect_id: &str) -> (r: Result<(), StorageError>)
        ensures
            r is Err ==> final(self).model() == old(self).model() || old(self).commit_failed(),
            fault_of(r) ==> old(self).marking_failed(effect_id@, EffectStatus::Published),
    {
        self.update_effect_status(effect_id, EffectStatus::Published)
    }

    fn mark_effect_failed(&mut self, effect_id: &str) -> (r: Result<(), StorageError>)
        ensures
            r is Err ==> final(self).model() == old(self).model() || old(self).commit_failed(),
            fault_of(r) ==> old(self).marking_failed(effect_id@, EffectStatus::Failed),
    {
        self.update_effect_status(effect_id, EffectStatus::Failed)
    }

    fn check_idempotency(&self, key: &str) -> (r: Result<Option<TransitionRecord>, StorageError>)
        ensures
            fault_of(r) ==> self.reading_failed(),
    {
        proof {
            lemma_table_names();
        }
        let tx = self.read()?;
        let sequence = match number_at(&tx, "idempotency", key)? {
            Some(n) => n,
            None => {
                return Ok(None);
            },
        };
        match record_at(&tx, sequence) {
            Ok(Some(t)) => Ok(Some(t)),
            Ok(None) => Err(missing_sequence(sequence)),
            Err(e) => Err(e),
        }
    }

    fn execute_transition(
        &mut self,
        record: &mut TransitionRecord,
        new_state: &EntityState,
        effects: &Vec<Effect>,
    ) -> (r: Result<u64, StorageError>)
        ensures
            r is Err ==> final(self).model() == old(self).model() || old(self).commit_failed(),
            fault_of(r) ==> {
                ||| old(self).reading_failed()
                ||| old(self).writing_failed()
                ||| record_unwritten(old(self).model().numbered(old(record)@))
                ||| entity_unwritten(new_state@)
                ||| effects_unwritten(effect_views(effects@))
                ||| outbox_full(old(self).model(), effect_views(effects@))
                ||| old(self).model().sequence == u64::MAX
            },
    {
        let tx = self.read()?;
        let n = next_number(&tx, &*record, new_state)?;
        let mut numbered = record.clone();
        numbered.sequence = n;
        let record_bytes = write_record(&numbered)?;
        let state_bytes = write_entity(new_state)?;
        match begin_write(&mut self.db) {
            Ok(tx) => {
                let mut tx = tx;
                let outcome = stage_transition(
                    &mut tx,
                    n,
                    &*record,
                    &record_bytes,
                    new_state,
                    &state_bytes,
                    effects,
                );
                match finish(&mut self.db, tx, outcome) {
                    Ok(()) => {
                        record.sequence = n;
                        Ok(n)
                    },
                    Err(e) => Err(e),
                }
            },
            Err(e) => Err(StorageError::of_begin(e)),
        }
    }

    fn current_sequence(&self) -> (r: Result<u64, StorageError>)
        ensures
            fault_of(r) ==> self.reading_failed(),
    {
        let tx = self.read()?;
        read_sequence(&tx)
    }
}

impl RedbEngine {
    /// Changes the status of an effect.
    fn update_effect_status(&mut self, effect_id: &str, status: EffectStatus) -> (r: Result<
        (),
        StorageError,
    >)
        requires
            old(self).wf(),
        ensures
            final(self).wf(),
            marked(old(self).model(), final(self).model(), effect_id@, status, r),
            fault_of(r) ==> old(self).marking_failed(effect_id@, status),
            r is Err ==> final(self).model() == old(self).model() || old(self).commit_failed(),
    {
        proof {
            lemma_table_names();
        }
        let ghost raw = self.raw();
        let tx = self.read()?;
        match effect_at(&tx, effect_id) {
            Ok(Some(found)) => {
                let mut effect = found;
                effect.status = status;
                let bytes = write_effect(&effect)?;
                proof {
                    lemma_with_status(raw, effect_id@, status, bytes@);
                }
                match begin_write(&mut self.db) {
                    Ok(tx) => {
                        let mut tx = tx;
                        let outcome = stage_blob(&mut tx, "effects", effect_id, &bytes);
                        proof {
                            if outcome is Ok {
                                assert(has_tables(staged(tx)));
                                assert(to_commit(tx) =~= (Raw {
                                    effects: raw.effects.insert(effect_id@, bytes@),
                                    ..raw
                                }));
                            }
                        }
                        finish(&mut self.db, tx, outcome)
                    },
                    Err(e) => Err(StorageError::of_begin(e)),
                }
            },
            Ok(None) => Err(
                StorageError::NotFound("effect '".to_owned().concat(effect_id).concat("'")),
            ),
            Err(e) => Err(e),
        }
    }
}

} // verus!
