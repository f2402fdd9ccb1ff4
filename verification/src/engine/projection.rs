//! An entity is what its history makes of it.
use crate::engine::define::same_content;
use crate::engine::engine::defined;
use crate::engine::error::EngineErrorView;
use crate::engine::laws::{law_history_grows_by_the_transition, law_transition_moves_one_step};
use crate::engine::outcome::{carried_out, state_in, version_in, RequestView, ResultView};
use crate::fsm::machine::{law_fault_free_is_well_formed, MachineView};
use crate::fsm::record::EntityState;
use crate::storage::model::{entity_key, StoreModel};
use crate::storage::rows::settled;
use vstd::prelude::*;

verus! {

/// Whether an entity is what its history makes of it: it is there where it has
/// one, its state is where the last transition led, its version counts them,
/// and each transition began where the one before it ended.
pub open spec fn tracks(m: StoreModel, entity_id: Seq<char>, machine: Seq<char>) -> bool {
    let key = entity_key(entity_id, machine);
    let h = m.history(entity_id, machine, None, None);
    &&& m.entities.contains_key(key) <==> h.len() > 0
    &&& h.len() > 0 ==> m.entities[key].current_state == h.last().to_state
        && m.entities[key].version == h.len()
    &&& forall|i: int| 0 <= i < h.len() ==> (#[trigger] h[i]).version == i + 1
    &&& forall|i: int, j: int|
        #![trigger h[i], h[j]]
        0 <= i && j == i + 1 && j < h.len() ==> h[j].from_state == h[i].to_state
}

/// In an empty store every entity is what its history makes of it.
pub proof fn law_empty_store_tracks(entity_id: Seq<char>, machine: Seq<char>)
    ensures
        tracks(StoreModel::empty(), entity_id, machine),
{
    let h = StoreModel::empty().history(entity_id, machine, None, None);
    assert(h.len() == 0);
}

/// A transition leaves every entity what its history makes of it.
pub proof fn law_transitions_keep_track<G: Fn(&EntityState, &serde_json::Value) -> bool>(
    m0: StoreModel,
    m1: StoreModel,
    guards: Map<Seq<char>, G>,
    def: MachineView,
    req: RequestView,
    out: ResultView,
    entity_id: Seq<char>,
    machine: Seq<char>,
)
    requires
        m0.wf(),
        tracks(m0, entity_id, machine),
        carried_out(m0, m1, guards, def, req, out),
    ensures
        tracks(m1, entity_id, machine),
{
    law_transition_moves_one_step(m0, m1, guards, def, req, out);
    law_history_grows_by_the_transition(m0, m1, guards, def, req, out, entity_id, machine);
    let key = entity_key(entity_id, machine);
    let h0 = m0.history(entity_id, machine, None, None);
    let h1 = m1.history(entity_id, machine, None, None);
    if key == req.key() {
        let last = m1.log[m1.sequence];
        assert(h1 == h0.push(last));
        assert(version_in(m0, key) == h0.len());
        assert(h0.len() > 0 ==> state_in(m0, def, key) == h0.last().to_state);
        assert forall|i: int| 0 <= i < h1.len() implies (#[trigger] h1[i]).version == i + 1 by {
            if i < h0.len() {
                assert(h1[i] == h0[i]);
            }
        }
        assert forall|i: int, j: int|
            #![trigger h1[i], h1[j]]
            0 <= i && j == i + 1 && j < h1.len() implies h1[j].from_state == h1[i].to_state by {
            assert(h1[i] == h0[i]);
            if j < h0.len() {
                assert(h1[j] == h0[j]);
                assert(h0[j].from_state == h0[i].to_state);
            } else {
                assert(h0[i] == h0.last());
            }
        }
    } else {
        assert(m1.entities[key] == m0.entities[key]);
    }
}

/// A definition changes no entity, no history and no effect, whatever becomes
/// of it.
pub proof fn law_definitions_touch_only_machines(
    m0: StoreModel,
    m1: StoreModel,
    def: MachineView,
    r: Result<(), EngineErrorView>,
)
    requires
        defined(m0, m1, def, r),
    ensures
        m1 == (StoreModel { machines: m1.machines, ..m0 }),
        forall|k: (Seq<char>, u32)| #[trigger]
            m0.machines.contains_key(k) ==> m1.machines.contains_key(k) && m1.machines[k]
                == m0.machines[k],
{
}

/// Whether every stored definition is valid.
pub open spec fn all_valid(m: StoreModel) -> bool {
    forall|k: (Seq<char>, u32)| #[trigger]
        m.machines.contains_key(k) ==> m.machines[k].well_formed()
}

/// No definition is ever stored that is not valid.
pub proof fn law_stored_definitions_are_valid(
    m0: StoreModel,
    m1: StoreModel,
    def: MachineView,
    r: Result<(), EngineErrorView>,
)
    requires
        all_valid(m0),
        defined(m0, m1, def, r),
    ensures
        all_valid(m1),
{
    if m1.machines.contains_key((def.name, def.version)) && m1 != m0 {
        law_fault_free_is_well_formed(def);
        assert(def.fault() is None);
        let kept = settled(def);
        assert(kept.states == def.states && kept.transitions == def.transitions
            && kept.initial_state == def.initial_state && kept.name == def.name);
        assert(kept.well_formed());
    }
}

/// To define the same machine again changes nothing and succeeds, unless the
/// store fails.
pub proof fn law_defining_again_changes_nothing(
    m0: StoreModel,
    m1: StoreModel,
    m2: StoreModel,
    def: MachineView,
    r: Result<(), EngineErrorView>,
)
    requires
        defined(m0, m1, def, Ok(())),
        !m0.machines.contains_key((def.name, def.version)),
        defined(m1, m2, def, r),
        r is Err ==> !r->Err_0.is_fault(),
    ensures
        r is Ok,
        m2 == m1,
{
    let kept = settled(def);
    assert(settled(kept).effects =~= kept.effects);
    assert(same_content(def, kept));
}

} // verus!
