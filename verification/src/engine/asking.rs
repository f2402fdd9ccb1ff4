//! What an engine tells of what is stored, and what it does with the outbox.
use crate::engine::engine::{all_taken_off, pending_published, publishing_failed, yeses, Engine};
use crate::engine::error::{EngineError, EngineErrorView};
use crate::fsm::machine::{MachineDefinition, MachineView};
use crate::fsm::record::{
    record_views, Effect, EffectStatus, EffectView, EntityState, TransitionRecord,
};
use crate::order::lemma_text_lt_irreflexive;
use crate::storage::calls::lemma_history;
use crate::storage::engine::StorageEngine;
use crate::storage::error::StorageError;
use crate::storage::model::{entity_key, machine_key, StoreModel};
use vstd::prelude::*;

verus! {

/// The definition that an engine gives for a name is the stored one with the highest
/// version. Where there is none, that is the answer; only where the store failed is
/// it another.
pub proof fn law_the_latest_definition_is_given<
    S: StorageEngine,
    G: Fn(&EntityState, &serde_json::Value) -> bool,
>(e: Engine<S, G>, name: &str, r: Result<MachineDefinition, EngineError>)
    requires
        e.wf(),
        call_ensures(Engine::<S, G>::get_machine, (&e, name), r),
    ensures
        ({
            let stored = e.model().machines;
            ||| r matches Ok(d) && stored.contains_key((name@, d.version)) && stored[(
                name@,
                d.version,
            )] == d@ && d.name@ == name@ && forall|v: u32| #[trigger]
                stored.contains_key((name@, v)) ==> v <= d.version
            ||| r is Err && forall|v: u32| !#[trigger] stored.contains_key((name@, v))
            ||| r is Err && exists|n: &str, f: StorageError|
                n@ == name@ && #[trigger] call_ensures(
                    S::get_machine,
                    (&e.store(), n, None::<u32>),
                    Err::<MachineDefinition, StorageError>(f),
                )
        }),
{
    e.law_store_is_in_order();
}

/// An engine lists every definition that is stored, once.
pub proof fn law_all_definitions_are_given<
    S: StorageEngine,
    G: Fn(&EntityState, &serde_json::Value) -> bool,
>(e: Engine<S, G>, r: Result<Vec<MachineDefinition>, EngineError>)
    requires
        e.wf(),
        call_ensures(Engine::<S, G>::list_machines, (&e,), r),
    ensures
        r is Err ==> exists|f: StorageError| #[trigger]
            call_ensures(
                S::list_machines,
                (&e.store(),),
                Err::<Vec<MachineDefinition>, StorageError>(f),
            ),
        r matches Ok(v) ==> {
            let stored = e.model().machines;
            &&& forall|i: int|
                0 <= i < v@.len() ==> stored.contains_key(
                    ((#[trigger] v@[i]).name@, v@[i].version),
                ) && stored[(v@[i].name@, v@[i].version)] == v@[i]@
            &&& forall|i: int, j: int|
                0 <= i < j < v@.len() ==> !((#[trigger] v@[i]).name@ == (#[trigger] v@[j]).name@
                    && v@[i].version == v@[j].version)
            &&& forall|k: (Seq<char>, u32)| #[trigger]
                stored.contains_key(k) ==> exists|i: int|
                    0 <= i < v@.len() && (#[trigger] v@[i])@ == stored[k]
        },
{
    if r is Ok {
        let v = r->Ok_0@;
        let stored = e.model().machines;
        let s = Seq::new(v.len(), |i: int| v[i]@);
        assert(e.model().lists_machines(s));
        assert forall|i: int| 0 <= i < v.len() implies stored.contains_key(
            ((#[trigger] v[i]).name@, v[i].version),
        ) && stored[(v[i].name@, v[i].version)] == v[i]@ by {
            assert(s[i] == v[i]@);
        }
        assert forall|i: int, j: int| 0 <= i < j < v.len() implies !((#[trigger] v[i]).name@ == (
        #[trigger] v[j]).name@ && v[i].version == v[j].version) by {
            assert(s[i] == v[i]@ && s[j] == v[j]@);
            if v[i].name@ == v[j].name@ && v[i].version == v[j].version {
                lemma_text_lt_irreflexive(machine_key(s[i].name, s[i].version));
            }
        }
        assert forall|k: (Seq<char>, u32)| #[trigger] stored.contains_key(k) implies exists|i: int|
            0 <= i < v.len() && (#[trigger] v[i])@ == stored[k] by {
            let i = s.index_of(stored[k]);
            assert(s[i] == v[i]@);
        }
    }
}

/// An engine gives an entity as it is stored. Where there is none, that is the
/// answer; only where the store failed is it another.
pub proof fn law_entities_are_given<
    S: StorageEngine,
    G: Fn(&EntityState, &serde_json::Value) -> bool,
>(e: Engine<S, G>, entity_id: &str, machine: &str, r: Result<EntityState, EngineError>)
    requires
        e.wf(),
        call_ensures(Engine::<S, G>::current, (&e, entity_id, machine), r),
    ensures
        ({
            let key = entity_key(entity_id@, machine@);
            let stored = e.model().entities;
            ||| r matches Ok(x) && stored.contains_key(key) && x.entity_id@
                == stored[key].entity_id && x.machine@ == stored[key].machine && x.current_state@
                == stored[key].current_state && x.version == stored[key].version
            ||| r is Err && !stored.contains_key(key)
            ||| r is Err && exists|i: &str, n: &str, f: StorageError|
                i@ == entity_id@ && n@ == machine@ && #[trigger] call_ensures(
                    S::get_entity_state,
                    (&e.store(), i, n),
                    Err::<EntityState, StorageError>(f),
                )
        }),
{
}

/// How an entity stands is told by its state and version as they are stored. One
/// that has made no transition stands in the initial state of the latest definition,
/// at version zero.
pub proof fn law_standings_are_given<
    S: StorageEngine,
    G: Fn(&EntityState, &serde_json::Value) -> bool,
>(
    e: Engine<S, G>,
    entity_id: &str,
    machine: &str,
    r: Result<Option<(String, u64)>, EngineError>,
    def: MachineView,
)
    requires
        e.wf(),
        call_ensures(Engine::<S, G>::standing_of, (&e, entity_id, machine), r),
        r is Ok,
        e.model().machines.contains_key((machine@, def.version)),
        e.model().machines[(machine@, def.version)] == def,
        forall|v: u32| #[trigger]
            e.model().machines.contains_key((machine@, v)) ==> v <= def.version,
    ensures
        r->Ok_0 matches Some((state, version)) && {
            let key = entity_key(entity_id@, machine@);
            let stored = e.model().entities;
            if stored.contains_key(key) {
                state@ == stored[key].current_state && version == stored[key].version
            } else {
                state@ == def.initial_state && version == 0
            }
        },
{
    e.law_store_is_in_order();
    assert(e.model().finds_machine(machine@, None, def));
    assert forall|d: MachineView| #[trigger] e.model().finds_machine(machine@, None, d) implies d
        == def by {
        crate::storage::laws::law_latest_definition_is_unique(e.model(), machine@, def, d);
    }
}

/// An engine gives the transitions of an entity as they are logged and in the order
/// of the log: those with numbers above the one asked for, as many as the limit
/// allows, the first ones first.
pub proof fn law_histories_are_given<
    S: StorageEngine,
    G: Fn(&EntityState, &serde_json::Value) -> bool,
>(
    e: Engine<S, G>,
    entity_id: &str,
    machine: &str,
    limit: Option<u32>,
    after_sequence: Option<u64>,
    r: Result<Vec<TransitionRecord>, EngineError>,
)
    requires
        e.wf(),
        call_ensures(
            Engine::<S, G>::history,
            (&e, entity_id, machine, limit, after_sequence),
            r,
        ),
    ensures
        r is Err ==> exists|i: &str, n: &str, f: StorageError|
            i@ == entity_id@ && n@ == machine@ && #[trigger] call_ensures(
                S::get_history,
                (&e.store(), i, n, limit, after_sequence),
                Err::<Vec<TransitionRecord>, StorageError>(f),
            ),
        r matches Ok(v) ==> {
            let log = e.model().log;
            let key = entity_key(entity_id@, machine@);
            &&& limit matches Some(l) ==> v@.len() <= l
            &&& forall|i: int|
                0 <= i < v@.len() ==> {
                    let t = (#[trigger] v@[i])@;
                    &&& log.contains_key(t.sequence) && log[t.sequence] == t
                    &&& entity_key(t.entity_id, t.machine) == key
                    &&& after_sequence matches Some(a) ==> a < t.sequence
                }
            &&& forall|i: int, j: int|
                0 <= i < j < v@.len() ==> (#[trigger] v@[i]).sequence < (#[trigger] v@[j]).sequence
            &&& forall|n: u64|
                #![trigger log[n]]
                log.contains_key(n) && entity_key(log[n].entity_id, log[n].machine) == key && (
                after_sequence matches Some(a) ==> a < n) ==> {
                    ||| exists|i: int| 0 <= i < v@.len() && (#[trigger] v@[i]).sequence == n
                    ||| limit matches Some(l) && v@.len() == l && forall|i: int|
                        0 <= i < v@.len() ==> (#[trigger] v@[i]).sequence < n
                }
        },
{
    if r is Ok {
        e.law_store_is_in_order();
        let m = e.model();
        let v = r->Ok_0@;
        let h = m.history(entity_id@, machine@, limit, after_sequence);
        lemma_history(m, entity_id@, machine@, limit, after_sequence);
        assert(record_views(v) == h);
        assert forall|i: int| 0 <= i < v.len() implies (#[trigger] v[i])@ == h[i] by {
            assert(record_views(v)[i] == v[i]@);
        }
        assert forall|n: u64|
            #![trigger m.log[n]]
            m.log.contains_key(n) && entity_key(m.log[n].entity_id, m.log[n].machine)
                == entity_key(entity_id@, machine@) && (after_sequence matches Some(a) ==> a
                < n) implies {
            ||| exists|i: int| 0 <= i < v.len() && (#[trigger] v[i]).sequence == n
            ||| limit matches Some(l) && v.len() == l && forall|i: int|
                0 <= i < v.len() ==> (#[trigger] v[i]).sequence < n
        } by {
            if exists|i: int| 0 <= i < h.len() && (#[trigger] h[i]).sequence == n {
                let i = choose|i: int| 0 <= i < h.len() && (#[trigger] h[i]).sequence == n;
                assert(v[i]@.sequence == n);
            } else {
                assert forall|i: int| 0 <= i < v.len() implies (#[trigger] v[i]).sequence < n by {
                    assert(h[i].sequence < n);
                }
            }
        }
    }
}

/// What publishing does.
proof fn lemma_published<S: StorageEngine>(storage: S, m1: StoreModel, n: usize) -> (list: Seq<
    EffectView,
>)
    requires
        pending_published(storage, m1, Ok(n)),
    ensures
        ({
            let m0 = storage.model();
            &&& m1.log == m0.log && m1.entities == m0.entities && m1.machines == m0.machines
            &&& m1.emitted == m0.emitted && m1.sequence == m0.sequence
            &&& forall|k: Seq<char>| #[trigger]
                m0.effects.contains_key(k) ==> {
                    let x = m0.effects[k];
                    let y = m1.effects[k];
                    &&& m1.effects.contains_key(k)
                    &&& y.id == x.id && y.transition_id == x.transition_id && y.payload == x.payload
                    &&& x.status != EffectStatus::Pending ==> y == x
                }
            &&& list.len() <= 256
            &&& forall|i: int|
                0 <= i < list.len() ==> m0.effects.contains_key((#[trigger] list[i]).id)
                    && list[i].status == EffectStatus::Pending && {
                    ||| m1.effects[list[i].id].status == EffectStatus::Published
                    ||| exists|s: &mut S, t: &str, f: StorageError|
                        t@ == list[i].id && #[trigger] call_ensures(
                            S::mark_effect_published,
                            (s, t),
                            Err::<(), StorageError>(f),
                        )
                }
            &&& forall|k: Seq<char>| #[trigger]
                m0.effects.contains_key(k) && m0.effects[k].status == EffectStatus::Pending
                    ==> list.contains(m0.effects[k]) || (list.len() == 256 && m1.effects[k]
                    == m0.effects[k])
            &&& n <= list.len()
            &&& n == list.len() || exists|s: &mut S, t: &str, f: StorageError|
                #[trigger] call_ensures(
                    S::mark_effect_published,
                    (s, t),
                    Err::<(), StorageError>(f),
                )
        }),
{
    let m0 = storage.model();
    let (list, done) = choose|list: Seq<EffectView>, done: Seq<bool>|
        m0.takes_pending(256, list) && #[trigger] all_taken_off::<S>(m0, m1, list, done)
            && n == yeses(done);
    let all = choose|all: Seq<EffectView>| #[trigger]
        m0.lists_pending(all) && list == (if 256 < all.len() {
            all.take(256)
        } else {
            all
        });
    assert forall|i: int| 0 <= i < list.len() implies list[i] == all[i] by {}
    lemma_yeses(done);
    assert forall|k: Seq<char>| #[trigger]
        m0.effects.contains_key(k) && m0.effects[k].status != EffectStatus::Pending implies
        !list.contains(m0.effects[k]) by {
        if list.contains(m0.effects[k]) {
            let i = list.index_of(m0.effects[k]);
            assert(all[i].status == EffectStatus::Pending);
        }
    }
    assert forall|k: Seq<char>| #[trigger]
        m0.effects.contains_key(k) && m0.effects[k].status == EffectStatus::Pending implies
        list.contains(m0.effects[k]) || (list.len() == 256 && m1.effects[k]
        == m0.effects[k]) by {
        assert(all.contains(m0.effects[k]));
    }
    if n != list.len() {
        let i = choose|i: int| 0 <= i < done.len() && !#[trigger] done[i];
        assert(publishing_failed::<S>(m0, list, list[i].id));
    }
    list
}

/// Publishing takes the effects that wait, up to a limit. Each is published, unless
/// the store failed to mark it; none that does not wait is touched, and nothing but
/// the status of an effect changes. Where the store failed in nothing, all that were
/// taken are counted.
pub proof fn law_waiting_effects_are_published<
    S: StorageEngine,
    G: Fn(&EntityState, &serde_json::Value) -> bool,
>(e: &mut Engine<S, G>, after: Engine<S, G>, r: Result<usize, EngineError>) -> (list: Seq<
    EffectView,
>)
    requires
        old(e).wf(),
        after == *final(e),
        call_ensures(Engine::<S, G>::publish_pending, (e,), r),
        r is Ok,
    ensures
        ({
            let m0 = old(e).model();
            let m1 = after.model();
            &&& m1.log == m0.log && m1.entities == m0.entities && m1.machines == m0.machines
            &&& m1.emitted == m0.emitted && m1.sequence == m0.sequence
            &&& forall|k: Seq<char>| #[trigger]
                m0.effects.contains_key(k) ==> {
                    let x = m0.effects[k];
                    let y = m1.effects[k];
                    &&& m1.effects.contains_key(k)
                    &&& y.id == x.id && y.transition_id == x.transition_id && y.payload == x.payload
                    &&& x.status != EffectStatus::Pending ==> y == x
                }
            &&& list.len() <= 256
            &&& forall|i: int|
                0 <= i < list.len() ==> m0.effects.contains_key((#[trigger] list[i]).id)
                    && list[i].status == EffectStatus::Pending && {
                    ||| m1.effects[list[i].id].status == EffectStatus::Published
                    ||| exists|storage: &mut S, t: &str, f: StorageError|
                        t@ == list[i].id && #[trigger] call_ensures(
                            S::mark_effect_published,
                            (storage, t),
                            Err::<(), StorageError>(f),
                        )
                }
            &&& forall|k: Seq<char>| #[trigger]
                m0.effects.contains_key(k) && m0.effects[k].status == EffectStatus::Pending
                    ==> list.contains(m0.effects[k]) || (list.len() == 256 && m1.effects[k]
                    == m0.effects[k])
            &&& r->Ok_0 <= list.len()
            &&& r->Ok_0 == list.len() || exists|storage: &mut S, t: &str, f: StorageError|
                #[trigger] call_ensures(
                    S::mark_effect_published,
                    (storage, t),
                    Err::<(), StorageError>(f),
                )
        }),
{
    lemma_published(old(e).store(), after.model(), r->Ok_0)
}

/// A round of the dispatcher publishes the effects that wait, unless the store fails to
/// list or to mark them; what is logged, where entities stand and what is defined stays.
pub proof fn law_rounds_publish_effects<
    S: StorageEngine,
    G: Fn(&EntityState, &serde_json::Value) -> bool,
>(e: &mut Engine<S, G>, after: Engine<S, G>, count: usize) -> (list: Seq<EffectView>)
    requires
        old(e).wf(),
        after == *final(e),
        call_ensures(Engine::<S, G>::dispatch, (e,), count),
    ensures
        ({
            let m0 = old(e).model();
            let m1 = after.model();
            &&& m1.log == m0.log && m1.entities == m0.entities && m1.machines == m0.machines
            &&& {
                ||| exists|f: StorageError| #[trigger]
                    call_ensures(
                        S::get_pending_effects,
                        (&old(e).store(), 256u32),
                        Err::<Vec<Effect>, StorageError>(f),
                    )
                ||| {
                    &&& list.len() <= 256
                    &&& forall|i: int|
                        0 <= i < list.len() ==> m0.effects.contains_key((#[trigger] list[i]).id)
                            && list[i].status == EffectStatus::Pending && {
                            ||| m1.effects[list[i].id].status == EffectStatus::Published
                            ||| exists|s: &mut S, t: &str, f: StorageError|
                                t@ == list[i].id && #[trigger] call_ensures(
                                    S::mark_effect_published,
                                    (s, t),
                                    Err::<(), StorageError>(f),
                                )
                        }
                    &&& forall|k: Seq<char>| #[trigger]
                        m0.effects.contains_key(k) && m0.effects[k].status == EffectStatus::Pending
                            ==> list.contains(m0.effects[k]) || list.len() == 256
                }
            }
        }),
{
    let r = choose|r: Result<usize, EngineErrorView>| #[trigger]
        pending_published(old(e).store(), after.model(), r);
    if r is Ok {
        lemma_published(old(e).store(), after.model(), r->Ok_0)
    } else {
        Seq::empty()
    }
}

/// The answers that are yes are all of them, or there is a no.
proof fn lemma_yeses(s: Seq<bool>)
    ensures
        yeses(s) <= s.len(),
        yeses(s) == s.len() || exists|i: int| 0 <= i < s.len() && !#[trigger] s[i],
    decreases s.len(),
{
    if s.len() > 0 {
        lemma_yeses(s.drop_last());
        if !s.last() {
            assert(!s[s.len() - 1]);
        } else if yeses(s.drop_last()) != s.drop_last().len() {
            let i = choose|i: int| 0 <= i < s.drop_last().len() && !#[trigger] s.drop_last()[i];
            assert(!s[i]);
        }
    }
}

} // verus!
