//! What it comes to when a definition is handed in.
use crate::engine::define::same_content;
use crate::engine::engine::{defined, Engine};
use crate::engine::error::{EngineError, EngineErrorView};
use crate::engine::outcome::storing_failed;
use crate::fsm::error::CoreError;
use crate::fsm::machine::{law_fault_free_is_well_formed, same_pair, MachineDefinition, MachineView};
use crate::fsm::record::EntityState;
use crate::json::Json;
use crate::storage::engine::StorageEngine;
use crate::storage::error::{StorageError, StorageErrorView};
use crate::storage::model::StoreModel;
use crate::storage::rows::settled;
use vstd::prelude::*;

verus! {

/// Whether the store failed on the way to a definition: when it was to store it, or
/// when it was asked for the one that it has of that name and version.
pub open spec fn storing_broke<S: StorageEngine>(storage: S, def: MachineView) -> bool {
    ||| exists|s: &mut S, d: &MachineDefinition, f: StorageError|
        *s == storage && d@ == def && (f is TransactionFailed || f is Corrupted || f is Io
            || f is Internal) && #[trigger] call_ensures(
            S::store_machine,
            (s, d),
            Err::<(), StorageError>(f),
        )
    ||| exists|s: S, n: &str, f: StorageError|
        s.model() == storage.model() && n@ == def.name && (f is TransactionFailed
            || f is Corrupted || f is Io || f is Internal) && #[trigger] call_ensures(
            S::get_machine,
            (&s, n, Some(def.version)),
            Err::<MachineDefinition, StorageError>(f),
        )
}

/// What stops a definition is a failure of the store.
pub(crate) proof fn lemma_storing_broke<S: StorageEngine>(
    storage: S,
    def: MachineView,
    x: StorageErrorView,
)
    requires
        storing_failed(storage, def, x),
    ensures
        storing_broke(storage, def),
{
}

/// A definition is found valid exactly where it lists no state twice, lists every
/// state that it refers to, and has no two rules for one event in one state.
pub proof fn law_valid_definitions_are_consistent(d: &MachineDefinition, r: Result<(), CoreError>)
    requires
        call_ensures(MachineDefinition::validate, (d,), r),
    ensures
        r is Ok <==> {
            let m = d@;
            &&& forall|i: int, j: int|
                0 <= i < j < m.states.len() ==> #[trigger] m.states[i] != #[trigger] m.states[j]
            &&& m.states.contains(m.initial_state)
            &&& forall|i: int|
                0 <= i < m.transitions.len() ==> m.states.contains(
                    (#[trigger] m.transitions[i]).to_state,
                )
            &&& forall|i: int, f: int|
                0 <= i < m.transitions.len() && 0 <= f < m.transitions[i].from_states.len()
                    ==> m.states.contains(#[trigger] m.transitions[i].from_states[f])
            &&& forall|i: int, f: int, j: int, g: int|
                0 <= i < m.transitions.len() && 0 <= f < m.transitions[i].from_states.len() && 0
                    <= j < m.transitions.len() && 0 <= g < m.transitions[j].from_states.len()
                    && #[trigger] m.transitions[i].from_states[f]
                    == #[trigger] m.transitions[j].from_states[g] && m.transitions[i].event
                    == m.transitions[j].event ==> i == j && f == g
        },
{
    let m = d@;
    if r is Ok {
        assert forall|i: int, f: int, j: int, g: int|
            0 <= i < m.transitions.len() && 0 <= f < m.transitions[i].from_states.len() && 0 <= j
                < m.transitions.len() && 0 <= g < m.transitions[j].from_states.len()
                && #[trigger] m.transitions[i].from_states[f]
                == #[trigger] m.transitions[j].from_states[g] && m.transitions[i].event
                == m.transitions[j].event implies i == j && f == g by {
            assert(same_pair(m.transitions, i, f, j, g));
            assert(same_pair(m.transitions, j, g, i, f));
        }
    } else {
        lemma_ill_formed(m);
    }
}

/// What is not well formed is inconsistent.
proof fn lemma_ill_formed(m: MachineView)
    requires
        !m.well_formed(),
    ensures
        !({
            &&& forall|i: int, j: int|
                0 <= i < j < m.states.len() ==> #[trigger] m.states[i] != #[trigger] m.states[j]
            &&& m.states.contains(m.initial_state)
            &&& forall|i: int|
                0 <= i < m.transitions.len() ==> m.states.contains(
                    (#[trigger] m.transitions[i]).to_state,
                )
            &&& forall|i: int, f: int|
                0 <= i < m.transitions.len() && 0 <= f < m.transitions[i].from_states.len()
                    ==> m.states.contains(#[trigger] m.transitions[i].from_states[f])
            &&& forall|i: int, f: int, j: int, g: int|
                0 <= i < m.transitions.len() && 0 <= f < m.transitions[i].from_states.len() && 0
                    <= j < m.transitions.len() && 0 <= g < m.transitions[j].from_states.len()
                    && #[trigger] m.transitions[i].from_states[f]
                    == #[trigger] m.transitions[j].from_states[g] && m.transitions[i].event
                    == m.transitions[j].event ==> i == j && f == g
        }),
{
    if !m.states.no_duplicates() {
        let (i, j) = choose|i: int, j: int|
            0 <= i < m.states.len() && 0 <= j < m.states.len() && i != j && m.states[i]
                == m.states[j];
        if i < j {
            assert(m.states[i] == m.states[j]);
        } else {
            assert(m.states[j] == m.states[i]);
        }
    }
}

/// What was accepted is in force.
pub(crate) proof fn lemma_accepted_is_in_force(m0: StoreModel, m1: StoreModel, d: MachineView)
    requires
        m0.wf(),
        defined(m0, m1, d, Ok(())),
    ensures
        ({
            let k = (d.name, d.version);
            let stored = m1.machines[k];
            &&& m1.machines.contains_key(k)
            &&& stored.name == d.name && stored.version == d.version
            &&& stored.states == d.states && stored.initial_state == d.initial_state
            &&& stored.transitions == d.transitions
            &&& stored.effects.len() == d.effects.len()
            &&& forall|i: int|
                0 <= i < d.effects.len() ==> {
                    let was = #[trigger] d.effects[i];
                    let is = stored.effects[i];
                    &&& is.on_event == was.on_event && is.effect == was.effect
                    &&& (is.payload is None || is.payload == Some(Json::Null)) <==> (was.payload is
                        None || was.payload == Some(Json::Null))
                    &&& is.payload == was.payload || is.payload is None || was.payload is None
                }
            &&& !m0.machines.contains_key(k) ==> stored.created_at == d.created_at
            &&& d.states.contains(d.initial_state)
            &&& forall|j: (Seq<char>, u32)|
                j != k ==> (#[trigger] m1.machines.contains_key(j) <==> m0.machines.contains_key(j))
                    && m1.machines[j] == m0.machines[j]
            &&& m0.machines.contains_key(k) ==> m1 == m0
            &&& m1.entities == m0.entities && m1.log == m0.log && m1.by_id == m0.by_id
            &&& m1.effects == m0.effects && m1.emitted == m0.emitted
            &&& m1.idempotency == m0.idempotency && m1.sequence == m0.sequence
        }),
{
    let k = (d.name, d.version);
    law_fault_free_is_well_formed(d);
    if m0.machines.contains_key(k) {
        let stored = m0.machines[k];
        assert(settled(d) == (MachineView { created_at: d.created_at, ..settled(stored) }));
        assert(settled(d).effects == settled(stored).effects);
        assert forall|i: int| 0 <= i < d.effects.len() implies {
            let was = #[trigger] d.effects[i];
            let is = stored.effects[i];
            &&& is.on_event == was.on_event && is.effect == was.effect
            &&& (is.payload is None || is.payload == Some(Json::Null)) <==> (was.payload is None
                || was.payload == Some(Json::Null))
            &&& is.payload == was.payload || is.payload is None || was.payload is None
        } by {
            assert(settled(d).effects[i] == settled(stored).effects[i]);
        }
    }
}

/// A definition that is accepted is in force: afterwards the store holds one under
/// its name and version that says the same, rule for rule; a payload that is the
/// null value counts as none. It is consistent. Nothing else that is stored
/// changes, and no definition that was there is lost.
pub proof fn law_accepted_definitions_are_in_force<
    S: StorageEngine,
    G: Fn(&EntityState, &serde_json::Value) -> bool,
>(
    e: &mut Engine<S, G>,
    after: Engine<S, G>,
    definition: MachineDefinition,
    r: Result<(), EngineError>,
)
    requires
        old(e).wf(),
        call_ensures(Engine::<S, G>::define_machine, (e, definition), r),
        after == *final(e),
        r is Ok,
    ensures
        ({
            let m0 = old(e).model();
            let m1 = after.model();
            let d = definition@;
            let k = (definition.name@, definition.version);
            let stored = m1.machines[k];
            &&& m1.machines.contains_key(k)
            &&& stored.name == d.name && stored.version == d.version
            &&& stored.states == d.states && stored.initial_state == d.initial_state
            &&& stored.transitions == d.transitions
            &&& stored.effects.len() == d.effects.len()
            &&& forall|i: int|
                0 <= i < d.effects.len() ==> {
                    let was = #[trigger] d.effects[i];
                    let is = stored.effects[i];
                    &&& is.on_event == was.on_event && is.effect == was.effect
                    &&& (is.payload is None || is.payload == Some(Json::Null)) <==> (was.payload is
                        None || was.payload == Some(Json::Null))
                    &&& is.payload == was.payload || is.payload is None || was.payload is None
                }
            &&& !m0.machines.contains_key(k) ==> stored.created_at == d.created_at
            &&& d.states.contains(d.initial_state)
            &&& forall|j: (Seq<char>, u32)|
                j != k ==> (#[trigger] m1.machines.contains_key(j) <==> m0.machines.contains_key(j))
                    && m1.machines[j] == m0.machines[j]
            &&& m0.machines.contains_key(k) ==> m1 == m0
            &&& m1.entities == m0.entities && m1.log == m0.log && m1.by_id == m0.by_id
            &&& m1.effects == m0.effects && m1.emitted == m0.emitted
            &&& m1.idempotency == m0.idempotency && m1.sequence == m0.sequence
        }),
{
    old(e).law_store_is_in_order();
    lemma_accepted_is_in_force(old(e).model(), after.model(), definition@);
}

/// A version that is refused because it exists says something else.
pub(crate) proof fn lemma_refused_differs(
    m0: StoreModel,
    m1: StoreModel,
    d: MachineView,
    label: Seq<char>,
)
    requires
        defined(
            m0,
            m1,
            d,
            Err(EngineErrorView::Storage(StorageErrorView::AlreadyExists(label))),
        ),
    ensures
        m0.machines.contains_key((d.name, d.version)),
        ({
            let stored = m0.machines[(d.name, d.version)];
            !(stored.name == d.name && stored.version == d.version && stored.states == d.states
                && stored.initial_state == d.initial_state && stored.transitions == d.transitions
                && stored.effects == d.effects)
        }),
{
    let stored = m0.machines[(d.name, d.version)];
    if stored.effects == d.effects {
        assert(settled(stored).effects =~= settled(d).effects);
    }
    if stored.name == d.name && stored.version == d.version && stored.states == d.states
        && stored.initial_state == d.initial_state && stored.transitions == d.transitions
        && stored.effects == d.effects {
        assert(same_content(d, stored));
    }
}

/// A definition that is refused leaves the store as it was, unless the store failed
/// to commit it. It is refused as inconsistent only where it is, and as a version
/// that exists only where the name has that version with another content.
pub proof fn law_refused_definitions_change_nothing<
    S: StorageEngine,
    G: Fn(&EntityState, &serde_json::Value) -> bool,
>(
    e: &mut Engine<S, G>,
    after: Engine<S, G>,
    definition: MachineDefinition,
    r: Result<(), EngineError>,
)
    requires
        old(e).wf(),
        call_ensures(Engine::<S, G>::define_machine, (e, definition), r),
        after == *final(e),
        r is Err,
    ensures
        ({
            let m0 = old(e).model();
            let d = definition@;
            let stored = m0.machines[(d.name, d.version)];
            &&& after.model() == m0 || (r->Err_0@ matches EngineErrorView::Storage(x) && x is
                TransactionFailed)
            &&& match r->Err_0@ {
                EngineErrorView::Core(x) => !d.well_formed(),
                EngineErrorView::Storage(StorageErrorView::AlreadyExists(label)) => {
                    &&& m0.machines.contains_key((d.name, d.version))
                    &&& !(stored.name == d.name && stored.version == d.version && stored.states
                        == d.states && stored.initial_state == d.initial_state
                        && stored.transitions == d.transitions && stored.effects == d.effects)
                },
                EngineErrorView::Storage(x) => x is TransactionFailed || x is Corrupted || x is Io
                    || x is Internal,
                _ => false,
            }
        }),
{
    let m0 = old(e).model();
    let d = definition@;
    law_fault_free_is_well_formed(d);
    let stored = m0.machines[(d.name, d.version)];
    if stored.effects == d.effects {
        assert(settled(stored).effects =~= settled(d).effects);
    }
    if stored.name == d.name && stored.version == d.version && stored.states == d.states
        && stored.initial_state == d.initial_state && stored.transitions == d.transitions
        && stored.effects == d.effects {
        assert(same_content(d, stored));
    }
}

/// A consistent definition of a version that its name does not have yet is
/// accepted, and so is one that says just what the stored one says, unless the
/// store fails; one that says something else is refused.
pub proof fn law_definitions_are_taken_or_refused<
    S: StorageEngine,
    G: Fn(&EntityState, &serde_json::Value) -> bool,
>(
    e: &mut Engine<S, G>,
    after: Engine<S, G>,
    definition: MachineDefinition,
    r: Result<(), EngineError>,
)
    requires
        old(e).wf(),
        call_ensures(Engine::<S, G>::define_machine, (e, definition), r),
        after == *final(e),
        r matches Err(x) ==> !(x@ matches EngineErrorView::Storage(y) && (y is TransactionFailed
            || y is Corrupted || y is Io || y is Internal)),
    ensures
        ({
            let m0 = old(e).model();
            let d = definition@;
            let known = m0.machines.contains_key((d.name, d.version));
            let stored = m0.machines[(d.name, d.version)];
            &&& d.well_formed() && !known ==> r is Ok
            &&& d.well_formed() && known && stored.states == d.states && stored.initial_state
                == d.initial_state && stored.transitions == d.transitions && stored.effects
                == d.effects ==> r is Ok
            &&& known && !(stored.states == d.states && stored.initial_state == d.initial_state
                && stored.transitions == d.transitions && stored.effects.len() == d.effects.len())
                ==> r is Err
            &&& d.well_formed() <==> !(r matches Err(x) && x@ is Core)
        }),
{
    old(e).law_store_is_in_order();
    let m0 = old(e).model();
    let d = definition@;
    law_fault_free_is_well_formed(d);
    let stored = m0.machines[(d.name, d.version)];
    if stored.effects == d.effects {
        assert(settled(stored).effects =~= settled(d).effects);
    }
    if m0.machines.contains_key((d.name, d.version)) && stored.states == d.states
        && stored.initial_state == d.initial_state && stored.transitions == d.transitions
        && stored.effects == d.effects {
        assert(stored.name == d.name && stored.version == d.version);
        assert(same_content(d, stored));
    }
    if same_content(d, stored) {
        assert(settled(d).effects.len() == settled(stored).effects.len());
    }
}

/// A definition comes to nothing because of the store only where the store failed:
/// when it was to store that definition, or when it was asked for the one that it
/// has.
pub proof fn law_definitions_fail_only_with_the_store<
    S: StorageEngine,
    G: Fn(&EntityState, &serde_json::Value) -> bool,
>(
    e: &mut Engine<S, G>,
    definition: MachineDefinition,
    r: Result<(), EngineError>,
    x: StorageErrorView,
)
    requires
        old(e).wf(),
        call_ensures(Engine::<S, G>::define_machine, (e, definition), r),
        r is Err,
        r->Err_0@ == EngineErrorView::Storage(x),
        x is TransactionFailed || x is Corrupted || x is Io || x is Internal,
    ensures
        ({
            ||| exists|s: &mut S, d: &MachineDefinition, f: StorageError|
                *s == old(e).store() && d@ == definition@ && f@ == x && #[trigger] call_ensures(
                    S::store_machine,
                    (s, d),
                    Err::<(), StorageError>(f),
                )
            ||| exists|s: S, n: &str, f: StorageError|
                s.model() == old(e).model() && n@ == definition.name@ && f@ == x
                    && #[trigger] call_ensures(
                    S::get_machine,
                    (&s, n, Some(definition.version)),
                    Err::<MachineDefinition, StorageError>(f),
                )
        }),
{
    assert(storing_failed(old(e).store(), definition@, x));
}

} // verus!
