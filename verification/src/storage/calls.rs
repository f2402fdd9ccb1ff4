//! What the calls on a store come to, in terms of what goes in, what comes out and
//! what is stored.
use crate::fsm::machine::MachineDefinition;
use crate::fsm::record::{
    effect_views, entity_views, record_views, Effect, EffectStatus, EffectView, EntityState,
    TransitionRecord,
};
use crate::json::Json;
use crate::order::text_lt;
use crate::storage::engine::{all_pending, StorageEngine};
use crate::storage::error::StorageError;
use crate::storage::laws::law_numbers_are_ordered_and_complete;
use crate::storage::model::{entity_key, machine_key, record_key, StoreModel};
use vstd::prelude::*;

verus! {

// ---------------------------------------------------------------------------
// Histories
// ---------------------------------------------------------------------------

/// The history of an entity is cut from the log, as `law_histories_are_cut_from_the_log`
/// says of the call.
pub(crate) proof fn lemma_history(
    m: StoreModel,
    entity_id: Seq<char>,
    machine: Seq<char>,
    limit: Option<u32>,
    after: Option<u64>,
)
    requires
        m.wf(),
    ensures
        ({
            let h = m.history(entity_id, machine, limit, after);
            &&& limit matches Some(l) ==> h.len() <= l
            &&& forall|i: int|
                0 <= i < h.len() ==> {
                    let t = #[trigger] h[i];
                    &&& m.log.contains_key(t.sequence) && m.log[t.sequence] == t
                    &&& entity_key(t.entity_id, t.machine) == entity_key(entity_id, machine)
                    &&& after matches Some(a) ==> a < t.sequence
                }
            &&& forall|i: int, j: int|
                0 <= i < j < h.len() ==> (#[trigger] h[i]).sequence < (#[trigger] h[j]).sequence
            &&& forall|n: u64|
                #![trigger m.log[n]]
                m.log.contains_key(n) && entity_key(m.log[n].entity_id, m.log[n].machine)
                    == entity_key(entity_id, machine) && (after matches Some(a) ==> a < n) ==> {
                    ||| exists|i: int| 0 <= i < h.len() && (#[trigger] h[i]).sequence == n
                    ||| limit matches Some(l) && h.len() == l && forall|i: int|
                        0 <= i < h.len() ==> (#[trigger] h[i]).sequence < n
                }
        }),
{
    let from = match after {
        Some(a) => a,
        None => 0,
    };
    let key = entity_key(entity_id, machine);
    let s = m.numbers_of(key, from, m.sequence);
    law_numbers_are_ordered_and_complete(m, key, from, m.sequence);
    let h = m.history(entity_id, machine, limit, after);
    assert forall|i: int| 0 <= i < h.len() implies (#[trigger] h[i]) == m.log[s[i]]
        && h[i].sequence == s[i] && m.log.contains_key(s[i]) && from < s[i] && record_key(h[i])
        == key by {
        assert(s.contains(s[i]));
    }
    assert forall|i: int, j: int| 0 <= i < j < h.len() implies (#[trigger] h[i]).sequence < (
    #[trigger] h[j]).sequence by {
        assert(s[i] < s[j]);
    }
    assert forall|n: u64|
        #![trigger m.log[n]]
        m.log.contains_key(n) && entity_key(m.log[n].entity_id, m.log[n].machine) == entity_key(
            entity_id,
            machine,
        ) && (after matches Some(a) ==> a < n) implies {
        ||| exists|i: int| 0 <= i < h.len() && (#[trigger] h[i]).sequence == n
        ||| limit matches Some(l) && h.len() == l && forall|i: int|
            0 <= i < h.len() ==> (#[trigger] h[i]).sequence < n
    } by {
        assert(1 <= n <= m.sequence);
        assert(s.contains(n));
        let k = choose|k: int| 0 <= k < s.len() && s[k] == n;
        if k < h.len() {
            assert(h[k].sequence == n);
        } else {
            assert forall|i: int| 0 <= i < h.len() implies (#[trigger] h[i]).sequence < n by {
                assert(s[i] < s[k]);
            }
        }
    }
}

/// The history of an entity holds transitions of that entity as they are logged,
/// in the order of the log, all with numbers above the one asked for, and no more
/// than asked for. None is left out, but those behind the last one where there are
/// more than asked for.
pub proof fn law_histories_are_cut_from_the_log<S: StorageEngine>(
    storage: &S,
    entity_id: &str,
    machine: &str,
    limit: Option<u32>,
    after: Option<u64>,
    v: Vec<TransitionRecord>,
)
    requires
        storage.wf(),
        call_ensures(
            S::get_history,
            (storage, entity_id, machine, limit, after),
            Ok::<Vec<TransitionRecord>, StorageError>(v),
        ),
    ensures
        ({
            let m = storage.model();
            &&& limit matches Some(l) ==> v@.len() <= l
            &&& forall|i: int|
                0 <= i < v@.len() ==> {
                    let t = #[trigger] v@[i];
                    &&& m.log.contains_key(t.sequence) && m.log[t.sequence] == t@
                    &&& entity_key(t.entity_id@, t.machine@) == entity_key(entity_id@, machine@)
                    &&& after matches Some(a) ==> a < t.sequence
                }
            &&& forall|i: int, j: int|
                0 <= i < j < v@.len() ==> (#[trigger] v@[i]).sequence < (#[trigger] v@[j]).sequence
            &&& forall|n: u64|
                #![trigger m.log[n]]
                m.log.contains_key(n) && entity_key(m.log[n].entity_id, m.log[n].machine)
                    == entity_key(entity_id@, machine@) && (after matches Some(a) ==> a < n) ==> {
                    ||| exists|i: int| 0 <= i < v@.len() && (#[trigger] v@[i]).sequence == n
                    ||| limit matches Some(l) && v@.len() == l && forall|i: int|
                        0 <= i < v@.len() ==> (#[trigger] v@[i]).sequence < n
                }
        }),
{
    storage.lemma_wf();
    let m = storage.model();
    lemma_history(m, entity_id@, machine@, limit, after);
    let h = m.history(entity_id@, machine@, limit, after);
    assert(record_views(v@).len() == v@.len());
    assert forall|i: int| 0 <= i < v@.len() implies (#[trigger] v@[i])@ == h[i] by {
        assert(record_views(v@)[i] == v@[i]@);
    }
    assert forall|n: u64|
        #![trigger m.log[n]]
        m.log.contains_key(n) && entity_key(m.log[n].entity_id, m.log[n].machine) == entity_key(
            entity_id@,
            machine@,
        ) && (after matches Some(a) ==> a < n) implies {
        ||| exists|i: int| 0 <= i < v@.len() && (#[trigger] v@[i]).sequence == n
        ||| limit matches Some(l) && v@.len() == l && forall|i: int|
            0 <= i < v@.len() ==> (#[trigger] v@[i]).sequence < n
    } by {
        if exists|i: int| 0 <= i < h.len() && (#[trigger] h[i]).sequence == n {
            let i = choose|i: int| 0 <= i < h.len() && (#[trigger] h[i]).sequence == n;
            assert(v@[i].sequence == n);
        } else {
            assert forall|i: int| 0 <= i < v@.len() implies (#[trigger] v@[i]).sequence < n by {
                assert(h[i].sequence < n);
            }
        }
    }
}

/// The transitions behind a number are those with the numbers that follow it, one
/// by one, as they are logged; they end at the end of the log or at the limit.
pub proof fn law_the_log_is_read_number_by_number<S: StorageEngine>(
    storage: &S,
    after: u64,
    limit: u32,
    v: Vec<TransitionRecord>,
)
    requires
        storage.wf(),
        call_ensures(
            S::get_transitions_after,
            (storage, after, limit),
            Ok::<Vec<TransitionRecord>, StorageError>(v),
        ),
    ensures
        v@.len() <= limit,
        forall|i: int|
            0 <= i < v@.len() ==> (#[trigger] v@[i]).sequence == after + 1 + i
                && storage.model().log.contains_key(v@[i].sequence) && v@[i]@
                == storage.model().log[v@[i].sequence],
        v@.len() < limit ==> after + v@.len() >= storage.model().sequence,
{
    storage.lemma_wf();
    let m = storage.model();
    assert(record_views(v@).len() == v@.len());
    assert forall|i: int| 0 <= i < v@.len() implies (#[trigger] v@[i]).sequence == after + 1 + i
        && m.log.contains_key(v@[i].sequence) && v@[i]@ == m.log[v@[i].sequence] by {
        assert(record_views(v@)[i] == v@[i]@);
        let n = (after + 1 + i) as u64;
        assert(m.log.contains_key(n) <==> 1 <= n <= m.sequence);
        assert(m.log[n].sequence == n);
    }
}

// ---------------------------------------------------------------------------
// Definitions
// ---------------------------------------------------------------------------

/// A definition that was stored is kept under its name and version as it was handed
/// in, but that a payload which is the null value is none; nothing else changes.
pub proof fn law_definitions_are_kept<S: StorageEngine>(
    storage: &mut S,
    later: S,
    d: &MachineDefinition,
    r: Result<(), StorageError>,
)
    requires
        old(storage).wf(),
        call_ensures(S::store_machine, (storage, d), r),
        later == *final(storage),
    ensures
        ({
            let m0 = old(storage).model();
            let m1 = later.model();
            let k = (d.name@, d.version);
            let is = m1.machines[k];
            &&& r is Ok ==> {
                &&& !m0.machines.contains_key(k)
                &&& m1.machines == m0.machines.insert(k, is)
                &&& is.name == d@.name && is.version == d@.version && is.states == d@.states
                &&& is.initial_state == d@.initial_state && is.transitions == d@.transitions
                &&& is.created_at == d@.created_at && is.effects.len() == d@.effects.len()
                &&& forall|i: int|
                    0 <= i < d@.effects.len() ==> {
                        let was = #[trigger] d@.effects[i];
                        &&& is.effects[i].on_event == was.on_event
                        &&& is.effects[i].effect == was.effect
                        &&& is.effects[i].payload == (if was.payload == Some(Json::Null) {
                            None
                        } else {
                            was.payload
                        })
                    }
                &&& m1.entities == m0.entities && m1.log == m0.log && m1.by_id == m0.by_id
                &&& m1.effects == m0.effects && m1.emitted == m0.emitted
                &&& m1.idempotency == m0.idempotency && m1.sequence == m0.sequence
            }
            &&& r matches Err(x) ==> {
                &&& m1 == m0 || x is TransactionFailed
                &&& x is TransactionFailed || x is Corrupted || x is Io || x is Internal || (x is
                    AlreadyExists && m0.machines.contains_key(k))
            }
        }),
{
}

/// A definition that is asked for by version is the one of that version, else that
/// of the highest; that there is none is said only where there is none.
pub proof fn law_definitions_are_looked_up<S: StorageEngine>(
    storage: &S,
    name: &str,
    version: Option<u32>,
    r: Result<MachineDefinition, StorageError>,
)
    requires
        storage.wf(),
        call_ensures(S::get_machine, (storage, name, version), r),
    ensures
        ({
            let m = storage.model();
            match r {
                Ok(d) => {
                    &&& m.machines.contains_key((name@, d.version))
                    &&& m.machines[(name@, d.version)] == d@
                    &&& d.name@ == name@
                    &&& version matches Some(v) ==> d.version == v
                    &&& version is None ==> forall|v: u32| #[trigger]
                        m.machines.contains_key((name@, v)) ==> v <= d.version
                },
                Err(StorageError::NotFound(_)) => match version {
                    Some(v) => !m.machines.contains_key((name@, v)),
                    None => forall|v: u32| !#[trigger] m.machines.contains_key((name@, v)),
                },
                Err(x) => x is TransactionFailed || x is Corrupted || x is Io || x is Internal,
            }
        }),
{
    storage.lemma_wf();
}

/// All definitions are listed, each once.
pub proof fn law_definitions_are_listed<S: StorageEngine>(storage: &S, v: Vec<MachineDefinition>)
    requires
        storage.wf(),
        call_ensures(
            S::list_machines,
            (storage,),
            Ok::<Vec<MachineDefinition>, StorageError>(v),
        ),
    ensures
        forall|i: int|
            0 <= i < v@.len() ==> storage.model().machines.contains_key(
                ((#[trigger] v@[i]).name@, v@[i].version),
            ) && storage.model().machines[(v@[i].name@, v@[i].version)] == v@[i]@,
        forall|i: int, j: int|
            0 <= i < j < v@.len() ==> !((#[trigger] v@[i]).name@ == (#[trigger] v@[j]).name@
                && v@[i].version == v@[j].version),
        forall|k: (Seq<char>, u32)| #[trigger]
            storage.model().machines.contains_key(k) ==> exists|i: int|
                0 <= i < v@.len() && (#[trigger] v@[i]).name@ == k.0 && v@[i].version == k.1,
{
    storage.lemma_wf();
    let m = storage.model();
    let s = Seq::new(v@.len(), |i: int| v@[i]@);
    assert forall|i: int| 0 <= i < v@.len() implies m.machines.contains_key(
        ((#[trigger] v@[i]).name@, v@[i].version),
    ) && m.machines[(v@[i].name@, v@[i].version)] == v@[i]@ by {
        assert(s[i] == v@[i]@);
    }
    assert forall|i: int, j: int| 0 <= i < j < v@.len() implies !((#[trigger] v@[i]).name@ == (
    #[trigger] v@[j]).name@ && v@[i].version == v@[j].version) by {
        assert(s[i] == v@[i]@ && s[j] == v@[j]@);
        assert(text_lt(
            machine_key(s[i].name, s[i].version),
            machine_key(s[j].name, s[j].version),
        ));
        if v@[i].name@ == v@[j].name@ && v@[i].version == v@[j].version {
            crate::order::lemma_text_lt_irreflexive(machine_key(s[i].name, s[i].version));
        }
    }
    assert forall|k: (Seq<char>, u32)| #[trigger] m.machines.contains_key(k) implies exists|i: int|
        0 <= i < v@.len() && (#[trigger] v@[i]).name@ == k.0 && v@[i].version == k.1 by {
        assert(s.contains(m.machines[k]));
        let i = choose|i: int| 0 <= i < s.len() && s[i] == m.machines[k];
        assert(v@[i]@ == m.machines[k]);
        assert(v@[i].name@ == k.0 && v@[i].version == k.1);
    }
}

// ---------------------------------------------------------------------------
// Entities and transitions
// ---------------------------------------------------------------------------

/// The entities that are listed are just those that stand in the state of the
/// machine.
pub proof fn law_entities_in_a_state_are_listed<S: StorageEngine>(
    storage: &S,
    machine: &str,
    state: &str,
    v: Vec<EntityState>,
)
    requires
        storage.wf(),
        call_ensures(
            S::list_entities_in_state,
            (storage, machine, state),
            Ok::<Vec<EntityState>, StorageError>(v),
        ),
    ensures
        forall|i: int|
            0 <= i < v@.len() ==> {
                let x = #[trigger] v@[i];
                let k = entity_key(x.entity_id@, x.machine@);
                &&& storage.model().entities.contains_key(k)
                &&& storage.model().entities[k] == x@
                &&& x.machine@ == machine@ && x.current_state@ == state@
            },
        forall|k: Seq<char>| #[trigger]
            storage.model().entities.contains_key(k) && storage.model().entities[k].machine
                == machine@ && storage.model().entities[k].current_state == state@
                    ==> exists|i: int|
                0 <= i < v@.len() && (#[trigger] v@[i])@ == storage.model().entities[k],
{
    let m = storage.model();
    let s = entity_views(v@);
    assert forall|i: int| 0 <= i < v@.len() implies {
        let x = #[trigger] v@[i];
        let k = entity_key(x.entity_id@, x.machine@);
        &&& m.entities.contains_key(k)
        &&& m.entities[k] == x@
        &&& x.machine@ == machine@ && x.current_state@ == state@
    } by {
        assert(s[i] == v@[i]@);
    }
    assert forall|k: Seq<char>| #[trigger]
        m.entities.contains_key(k) && m.entities[k].machine == machine@
            && m.entities[k].current_state == state@ implies exists|i: int|
        0 <= i < v@.len() && (#[trigger] v@[i])@ == m.entities[k] by {
        assert(s.contains(m.entities[k]));
        let i = choose|i: int| 0 <= i < s.len() && s[i] == m.entities[k];
        assert(v@[i]@ == m.entities[k]);
    }
}

/// An entity is put in place where none is there or its version is the one before;
/// else it is refused with the version that is stored, and nothing changes.
pub proof fn law_entities_follow_their_versions<S: StorageEngine>(
    storage: &mut S,
    later: S,
    x: &EntityState,
    r: Result<(), StorageError>,
)
    requires
        old(storage).wf(),
        call_ensures(S::upsert_entity_state, (storage, x), r),
        later == *final(storage),
    ensures
        ({
            let m0 = old(storage).model();
            let m1 = later.model();
            let k = entity_key(x.entity_id@, x.machine@);
            let fits = m0.entities.contains_key(k) ==> m0.entities[k].version + 1 == x.version;
            match r {
                Ok(()) => fits && m1 == (StoreModel { entities: m0.entities.insert(k, x@), ..m0 }),
                Err(StorageError::VersionConflict { entity_id, expected, actual }) => {
                    &&& !fits && m1 == m0
                    &&& entity_id@ == x.entity_id@ && actual == m0.entities[k].version
                    &&& x.version > 0 ==> expected == x.version - 1
                },
                Err(f) => {
                    &&& f is TransactionFailed || f is Corrupted || f is Io || f is Internal
                    &&& m1 == m0 || f is TransactionFailed
                },
            }
        }),
{
}

/// A transition that is appended is logged under the next number, which is written
/// into it; all else that is stored stays.
pub proof fn law_transitions_are_appended<S: StorageEngine>(
    storage: &mut S,
    later: S,
    record: &mut TransitionRecord,
    written: TransitionRecord,
    r: Result<u64, StorageError>,
)
    requires
        old(storage).wf(),
        call_ensures(S::append_transition, (storage, record), r),
        later == *final(storage),
        written == *final(record),
    ensures
        ({
            let m0 = old(storage).model();
            let m1 = later.model();
            let t = (*old(record))@;
            match r {
                Ok(n) => {
                    &&& n == m0.sequence + 1
                    &&& written.sequence == n
                    &&& written.id@ == t.id && written.entity_id@ == t.entity_id
                    &&& written.machine@ == t.machine && written.from_state@ == t.from_state
                    &&& written.to_state@ == t.to_state && written.event@ == t.event
                    &&& written.actor@ == t.actor && written.version == t.version
                    &&& written@.ctx == t.ctx && written.timestamp == t.timestamp
                    &&& written@.idempotency_key == t.idempotency_key
                    &&& m1 == (StoreModel {
                        log: m0.log.insert(n, written@),
                        by_id: m0.by_id.insert(t.id, n),
                        sequence: n,
                        ..m0
                    })
                },
                Err(f) => {
                    &&& f is TransactionFailed || f is Corrupted || f is Io || f is Internal
                    &&& m1 == m0 || f is TransactionFailed
                    &&& written@ == t
                },
            }
        }),
{
}

/// A transition is executed as a whole or not at all: it is logged under the next
/// number, the entity is put in place, its effects are put into the outbox, and
/// its key is tied to its number. It is refused where the entity has another
/// version than the one before, or where the key was used.
pub proof fn law_transitions_are_executed_as_a_whole<S: StorageEngine>(
    storage: &mut S,
    later: S,
    record: &mut TransitionRecord,
    written: TransitionRecord,
    x: &EntityState,
    effects: &Vec<Effect>,
    r: Result<u64, StorageError>,
)
    requires
        old(storage).wf(),
        call_ensures(S::execute_transition, (storage, record, x, effects), r),
        later == *final(storage),
        written == *final(record),
    ensures
        ({
            let m0 = old(storage).model();
            let m1 = later.model();
            let t = (*old(record))@;
            let k = entity_key(x.entity_id@, x.machine@);
            match r {
                Ok(n) => {
                    &&& n == m0.sequence + 1 && written.sequence == n
                    &&& written.id@ == t.id && written@.ctx == t.ctx && written.actor@ == t.actor
                    &&& written.event@ == t.event && written.version == t.version
                    &&& m0.entities.contains_key(k) && x.version > 0 ==> m0.entities[k].version + 1
                        == x.version
                    &&& t.idempotency_key matches Some(key) ==> !m0.idempotency.contains_key(key)
                        && m1.idempotency == m0.idempotency.insert(key, n)
                    &&& t.idempotency_key is None ==> m1.idempotency == m0.idempotency
                    &&& m1.log == m0.log.insert(n, written@) && m1.sequence == n
                    &&& m1.by_id == m0.by_id.insert(t.id, n)
                    &&& m1.entities == m0.entities.insert(k, x@)
                    &&& m1.machines == m0.machines
                    &&& forall|i: int|
                        0 <= i < effects@.len() ==> m1.effects.contains_key(
                            (#[trigger] effects@[i]).id@,
                        )
                    &&& effects@.len() == 0 ==> m1.effects == m0.effects && m1.emitted == m0.emitted
                },
                Err(StorageError::VersionConflict { entity_id, expected, actual }) => {
                    &&& m1 == m0 && m0.entities.contains_key(k)
                    &&& entity_id@ == x.entity_id@ && actual == m0.entities[k].version
                    &&& expected != actual
                },
                Err(StorageError::AlreadyExists(_)) => {
                    &&& m1 == m0
                    &&& t.idempotency_key matches Some(key) && m0.idempotency.contains_key(key)
                },
                Err(f) => {
                    &&& f is TransactionFailed || f is Corrupted || f is Io || f is Internal
                    &&& m1 == m0 || f is TransactionFailed
                },
            }
        }),
{
    let m0 = old(storage).model();
    let t = (*old(record))@;
    if r is Ok {
        let base = m0.with_record(t).with_entity(x@);
        lemma_effects_are_put(base, effect_views(effects@));
        assert forall|i: int| 0 <= i < effects@.len() implies later.model().effects.contains_key(
            (#[trigger] effects@[i]).id@,
        ) by {
            assert(effect_views(effects@)[i] == effects@[i]@);
        }
    }
}

/// Effects that were put into the outbox are there; nothing but the outbox changes.
proof fn lemma_effects_are_put(m: StoreModel, s: Seq<EffectView>)
    ensures
        m.with_effects(s) == (StoreModel {
            effects: m.with_effects(s).effects,
            emitted: m.with_effects(s).emitted,
            ..m
        }),
        forall|i: int|
            0 <= i < s.len() ==> m.with_effects(s).effects.contains_key((#[trigger] s[i]).id),
        forall|k: Seq<char>| #[trigger]
            m.effects.contains_key(k) ==> m.with_effects(s).effects.contains_key(k),
    decreases s.len(),
{
    if s.len() > 0 {
        lemma_effects_are_put(m, s.drop_last());
        assert forall|i: int| 0 <= i < s.len() implies m.with_effects(s).effects.contains_key(
            (#[trigger] s[i]).id,
        ) by {
            if i < s.len() - 1 {
                assert(s.drop_last()[i] == s[i]);
            }
        }
    }
}

/// A key that was used leads to the transition that used it.
pub proof fn law_keys_lead_to_their_transition<S: StorageEngine>(
    storage: &S,
    key: &str,
    found: Option<TransitionRecord>,
)
    requires
        storage.wf(),
        call_ensures(
            S::check_idempotency,
            (storage, key),
            Ok::<Option<TransitionRecord>, StorageError>(found),
        ),
    ensures
        found is Some <==> storage.model().idempotency.contains_key(key@),
        found matches Some(t) ==> t@ == storage.model().log[t.sequence] && t.sequence
            == storage.model().idempotency[key@] && t@.idempotency_key == Some(key@),
{
    storage.lemma_wf();
    if storage.model().idempotency.contains_key(key@) {
        assert(storage.model().log.contains_key(storage.model().idempotency[key@]));
    }
}

// ---------------------------------------------------------------------------
// Effects
// ---------------------------------------------------------------------------

/// The effects that wait are handed out earliest first, and no more than asked for;
/// all of them are waiting, and where fewer come than asked for, none is left out.
pub proof fn law_waiting_effects_come_in_order<S: StorageEngine>(
    storage: &S,
    limit: u32,
    v: Vec<Effect>,
)
    requires
        storage.wf(),
        call_ensures(
            S::get_pending_effects,
            (storage, limit),
            Ok::<Vec<Effect>, StorageError>(v),
        ),
    ensures
        v@.len() <= limit,
        forall|i: int|
            0 <= i < v@.len() ==> {
                let x = #[trigger] v@[i];
                &&& storage.model().effects.contains_key(x.id@)
                &&& storage.model().effects[x.id@] == x@
                &&& x.status == EffectStatus::Pending
            },
        forall|i: int, j: int|
            0 <= i < j < v@.len() ==> !(#[trigger] v@[j]).created_at.earlier(
                (#[trigger] v@[i]).created_at,
            ) && v@[i].id@ != v@[j].id@,
        forall|k: Seq<char>| #[trigger]
            storage.model().effects.contains_key(k) && storage.model().effects[k].status
                == EffectStatus::Pending ==> {
                ||| exists|i: int| 0 <= i < v@.len() && (#[trigger] v@[i]).id@ == k
                ||| v@.len() == limit && forall|i: int|
                    0 <= i < v@.len() ==> !storage.model().effects[k].created_at.earlier(
                        (#[trigger] v@[i]).created_at,
                    )
            },
{
    storage.lemma_wf();
    let m = storage.model();
    let s = effect_views(v@);
    let all = choose|all: Seq<EffectView>| #[trigger]
        m.lists_pending(all) && s == (if limit < all.len() {
            all.take(limit as int)
        } else {
            all
        });
    assert(s.len() == v@.len());
    assert forall|i: int| 0 <= i < v@.len() implies (#[trigger] v@[i])@ == all[i] by {
        assert(s[i] == v@[i]@);
    }
    assert forall|i: int, j: int| 0 <= i < j < all.len() implies !(
    #[trigger] all[j]).created_at.earlier((#[trigger] all[i]).created_at) && all[i].id
        != all[j].id by {
        assert(StoreModel::leaves_before(all[i], all[j]));
        if all[i].id == all[j].id {
            crate::order::lemma_text_lt_irreflexive(all[i].id);
            assert(m.effects[all[i].id] == all[i] && m.effects[all[j].id] == all[j]);
        }
    }
    assert forall|k: Seq<char>| #[trigger]
        m.effects.contains_key(k) && m.effects[k].status == EffectStatus::Pending implies {
        ||| exists|i: int| 0 <= i < v@.len() && (#[trigger] v@[i]).id@ == k
        ||| v@.len() == limit && forall|i: int|
            0 <= i < v@.len() ==> !m.effects[k].created_at.earlier(
                (#[trigger] v@[i]).created_at,
            )
    } by {
        assert(all.contains(m.effects[k]));
        let j = choose|j: int| 0 <= j < all.len() && all[j] == m.effects[k];
        if j < v@.len() {
            assert(v@[j].id@ == k);
        } else {
            assert forall|i: int| 0 <= i < v@.len() implies !m.effects[k].created_at.earlier(
                (#[trigger] v@[i]).created_at,
            ) by {
                assert(!all[j].created_at.earlier(all[i].created_at));
            }
        }
    }
}

/// The effects of a transition are those that it emitted, in their order, as they
/// are stored.
pub proof fn law_effects_are_found_by_transition<S: StorageEngine>(
    storage: &S,
    id: &str,
    v: Vec<Effect>,
)
    requires
        storage.wf(),
        call_ensures(
            S::get_effects_for_transition,
            (storage, id),
            Ok::<Vec<Effect>, StorageError>(v),
        ),
    ensures
        v@.len() == storage.model().emitted[id@].len(),
        forall|i: int|
            0 <= i < v@.len() ==> (#[trigger] v@[i]).id@ == storage.model().emitted[id@][i]
                && v@[i]@
                == storage.model().effects[v@[i].id@],
{
    storage.lemma_wf();
    let m = storage.model();
    assert(effect_views(v@).len() == v@.len());
    assert forall|i: int| 0 <= i < v@.len() implies (#[trigger] v@[i]).id@ == m.emitted[id@][i]
        && v@[i]@ == m.effects[v@[i].id@] by {
        assert(effect_views(v@)[i] == v@[i]@);
        assert(m.effects.contains_key(m.emitted[id@][i]));
    }
}

/// Effects that are put into the outbox wait there, whatever status they came
/// with, and with all else as it was; only the outbox changes.
pub proof fn law_effects_wait_in_the_outbox<S: StorageEngine>(
    storage: &mut S,
    later: S,
    effects: &Vec<Effect>,
    r: Result<(), StorageError>,
    i: int,
)
    requires
        old(storage).wf(),
        call_ensures(S::insert_effects, (storage, effects), r),
        later == *final(storage),
        r is Ok,
        0 <= i < effects@.len(),
        forall|j: int| i < j < effects@.len() ==> (#[trigger] effects@[j]).id@ != effects@[i].id@,
    ensures
        ({
            let m0 = old(storage).model();
            let m1 = later.model();
            let was = effects@[i]@;
            let is = m1.effects[was.id];
            &&& m1.effects.contains_key(was.id)
            &&& is.id == was.id && is.transition_id == was.transition_id
            &&& is.effect_name == was.effect_name && is.payload == was.payload
            &&& is.created_at == was.created_at && is.status == EffectStatus::Pending
            &&& m1 == (StoreModel { effects: m1.effects, emitted: m1.emitted, ..m0 })
        }),
{
    let s = all_pending(effect_views(effects@));
    lemma_effects_are_put(old(storage).model(), s);
    assert forall|j: int| i < j < s.len() implies (#[trigger] s[j]).id != s[i].id by {
        assert(effect_views(effects@)[j] == effects@[j]@);
        assert(effect_views(effects@)[i] == effects@[i]@);
        assert(effects@[j].id@ != effects@[i].id@);
    }
    lemma_last_effect_counts(old(storage).model(), s, i);
    assert(effect_views(effects@)[i] == effects@[i]@);
}

/// An effect whose identifier no later one has is stored as it came.
proof fn lemma_last_effect_counts(m: StoreModel, s: Seq<EffectView>, i: int)
    requires
        0 <= i < s.len(),
        forall|j: int| i < j < s.len() ==> (#[trigger] s[j]).id != s[i].id,
    ensures
        m.with_effects(s).effects[s[i].id] == s[i],
    decreases s.len(),
{
    if i < s.len() - 1 {
        let t = s.drop_last();
        assert forall|j: int| i < j < t.len() implies (#[trigger] t[j]).id != t[i].id by {
            assert(t[j] == s[j]);
        }
        lemma_last_effect_counts(m, t, i);
        assert(t[i] == s[i]);
        assert(s[s.len() - 1].id != s[i].id);
    }
}

/// To mark an effect as published changes its status and nothing else; an effect
/// that is not there is said to be missing.
pub proof fn law_published_effects_are_marked<S: StorageEngine>(
    storage: &mut S,
    later: S,
    id: &str,
    r: Result<(), StorageError>,
)
    requires
        old(storage).wf(),
        call_ensures(S::mark_effect_published, (storage, id), r),
        later == *final(storage),
    ensures
        ({
            let m0 = old(storage).model();
            let m1 = later.model();
            match r {
                Ok(()) => m0.effects.contains_key(id@) && m1 == (StoreModel {
                    effects: m0.effects.insert(
                        id@,
                        EffectView { status: EffectStatus::Published, ..m0.effects[id@] },
                    ),
                    ..m0
                }),
                Err(StorageError::NotFound(_)) => !m0.effects.contains_key(id@) && m1 == m0,
                Err(f) => {
                    &&& f is TransactionFailed || f is Corrupted || f is Io || f is Internal
                    &&& m1 == m0 || f is TransactionFailed
                },
            }
        }),
{
}

/// To mark an effect as failed changes its status and nothing else; an effect that
/// is not there is said to be missing.
pub proof fn law_failed_effects_are_marked<S: StorageEngine>(
    storage: &mut S,
    later: S,
    id: &str,
    r: Result<(), StorageError>,
)
    requires
        old(storage).wf(),
        call_ensures(S::mark_effect_failed, (storage, id), r),
        later == *final(storage),
    ensures
        ({
            let m0 = old(storage).model();
            let m1 = later.model();
            match r {
                Ok(()) => m0.effects.contains_key(id@) && m1 == (StoreModel {
                    effects: m0.effects.insert(
                        id@,
                        EffectView { status: EffectStatus::Failed, ..m0.effects[id@] },
                    ),
                    ..m0
                }),
                Err(StorageError::NotFound(_)) => !m0.effects.contains_key(id@) && m1 == m0,
                Err(f) => {
                    &&& f is TransactionFailed || f is Corrupted || f is Io || f is Internal
                    &&& m1 == m0 || f is TransactionFailed
                },
            }
        }),
{
}

} // verus!
