//! What holds of every store.
use crate::fsm::machine::MachineView;
use crate::fsm::record::{EffectStatus, EffectView, EntityView, RecordView};
use crate::storage::engine::with_status;
use crate::storage::model::{entity_key, record_key, StoreModel};
use crate::storage::rows::settled;
use vstd::prelude::*;

verus! {

/// A definition that was stored is found under its name and version, and others
/// stay where they are.
pub proof fn law_definitions_are_found(m: StoreModel, def: MachineView, name: Seq<char>, version: u32)
    ensures
        m.with_machine(def).finds_machine(def.name, Some(def.version), settled(def)),
        (name, version) != (def.name, def.version) ==> (m.with_machine(def).has_machine(
            name,
            Some(version),
        ) <==> m.has_machine(name, Some(version))) && (m.has_machine(name, Some(version)) ==> m.with_machine(
            def,
        ).finds_machine(name, Some(version), m.machines[(name, version)])),
{
}

/// The latest definition of a name is the one with the highest version, and
/// there is only one.
pub proof fn law_latest_definition_is_unique(
    m: StoreModel,
    name: Seq<char>,
    a: MachineView,
    b: MachineView,
)
    requires
        m.finds_machine(name, None, a),
        m.finds_machine(name, None, b),
    ensures
        a == b,
        forall|v: u32| #[trigger] m.machines.contains_key((name, v)) ==> v <= a.version,
{
    assert(m.machines.contains_key((name, a.version)));
    assert(m.machines.contains_key((name, b.version)));
}

/// A definition with a higher version than all before it becomes the latest.
pub proof fn law_newer_definition_takes_over(m: StoreModel, def: MachineView)
    requires
        forall|v: u32| #[trigger] m.machines.contains_key((def.name, v)) ==> v < def.version,
    ensures
        m.with_machine(def).finds_machine(def.name, None, settled(def)),
{
    let m1 = m.with_machine(def);
    assert forall|v: u32| #[trigger] m1.machines.contains_key((def.name, v)) implies v
        <= def.version by {
        if v != def.version {
            assert(m.machines.contains_key((def.name, v)));
        }
    }
}

/// An entity that was stored is found, and no other entity changes.
pub proof fn law_entities_are_found(m: StoreModel, e: EntityView, key: Seq<char>)
    ensures
        m.with_entity(e).entities[entity_key(e.entity_id, e.machine)] == e,
        key != entity_key(e.entity_id, e.machine) ==> (m.with_entity(e).entities.contains_key(key)
            <==> m.entities.contains_key(key)) && m.with_entity(e).entities[key] == m.entities[key],
{
}

/// The numbers of an entity's transitions are ascending and lie in the range
/// asked for; every transition of the entity in that range is among them, and
/// none of another.
pub proof fn law_numbers_are_ordered_and_complete(
    m: StoreModel,
    key: Seq<char>,
    after: u64,
    upto: u64,
)
    ensures
        ({
            let s = m.numbers_of(key, after, upto);
            &&& forall|i: int, j: int| 0 <= i < j < s.len() ==> s[i] < s[j]
            &&& forall|n: u64| #[trigger]
                s.contains(n) <==> after < n <= upto && m.log.contains_key(n) && record_key(
                    m.log[n],
                ) == key
        }),
    decreases upto,
{
    let s = m.numbers_of(key, after, upto);
    if upto > after {
        let below = (upto - 1) as u64;
        law_numbers_are_ordered_and_complete(m, key, after, below);
        let rest = m.numbers_of(key, after, below);
        assert forall|i: int, j: int| 0 <= i < j < s.len() implies s[i] < s[j] by {
            assert(s[i] == rest[i]);
            if j < rest.len() {
                assert(s[j] == rest[j]);
            } else {
                assert(rest.contains(rest[i]));
            }
        }
        assert forall|n: u64| #[trigger] s.contains(n) <==> after < n <= upto && m.log.contains_key(
            n,
        ) && record_key(m.log[n]) == key by {
            if s.contains(n) {
                let i = choose|i: int| 0 <= i < s.len() && s[i] == n;
                if i < rest.len() {
                    assert(rest[i] == n);
                    assert(rest.contains(n));
                }
            }
            if after < n <= below && m.log.contains_key(n) && record_key(m.log[n]) == key {
                assert(rest.contains(n));
                let i = choose|i: int| 0 <= i < rest.len() && rest[i] == n;
                assert(s[i] == n);
            }
            if n == upto && m.log.contains_key(n) && record_key(m.log[n]) == key {
                assert(s[rest.len() as int] == n);
            }
        }
    }
}

/// A history is in the order of the log and holds only the transitions of its
/// entity after the number asked for.
pub proof fn law_history_is_ordered(
    m: StoreModel,
    entity_id: Seq<char>,
    machine: Seq<char>,
    limit: Option<u32>,
    after: Option<u64>,
)
    requires
        m.wf(),
    ensures
        ({
            let h = m.history(entity_id, machine, limit, after);
            &&& forall|i: int, j: int|
                0 <= i < j < h.len() ==> (#[trigger] h[i]).sequence < (#[trigger] h[j]).sequence
            &&& forall|i: int|
                0 <= i < h.len() ==> record_key(#[trigger] h[i]) == entity_key(entity_id, machine)
                    && (after is Some ==> after->0 < h[i].sequence)
            &&& limit is Some ==> h.len() <= limit->0
        }),
{
    let from = match after {
        Some(a) => a,
        None => 0,
    };
    let key = entity_key(entity_id, machine);
    let s = m.numbers_of(key, from, m.sequence);
    law_numbers_are_ordered_and_complete(m, key, from, m.sequence);
    let h = m.history(entity_id, machine, limit, after);
    assert forall|i: int| 0 <= i < h.len() implies (#[trigger] h[i]).sequence == s[i] && h[i]
        == m.log[s[i]] && m.log.contains_key(s[i]) && record_key(h[i]) == key && from < s[i] by {
        assert(s.contains(s[i]));
        assert(h[i] == m.log[s[i]]);
    }
}

/// A limit only cuts a history short.
pub proof fn law_limits_cut_histories(
    m: StoreModel,
    entity_id: Seq<char>,
    machine: Seq<char>,
    limit: u32,
    after: Option<u64>,
)
    ensures
        m.history(entity_id, machine, Some(limit), after).is_prefix_of(
            m.history(entity_id, machine, None, after),
        ),
        m.history(entity_id, machine, Some(limit), after).len() == (if limit < m.history(
            entity_id,
            machine,
            None,
            after,
        ).len() {
            limit as nat
        } else {
            m.history(entity_id, machine, None, after).len()
        }),
{
    let all = m.history(entity_id, machine, None, after);
    let some = m.history(entity_id, machine, Some(limit), after);
    assert(some =~= all.subrange(0, some.len() as int));
}

/// Sequence numbers begin at one and leave none out: the log holds exactly the
/// numbers up to the last one given.
pub proof fn law_sequence_has_no_gap(m: StoreModel, r: RecordView, n: u64)
    requires
        m.wf(),
        m.sequence < u64::MAX,
    ensures
        m.log.contains_key(n) <==> 1 <= n <= m.sequence,
        m.with_record(r).sequence == m.sequence + 1,
        m.with_record(r).log.contains_key(n) <==> 1 <= n <= m.with_record(r).sequence,
        m.with_record(r).log[m.with_record(r).sequence] == m.numbered(r),
{
}

/// An effect that is put into the outbox is the last of its transition's, and
/// the effects before it stay as they are.
pub proof fn law_effects_queue_up(m: StoreModel, e: EffectView)
    requires
        m.wf(),
        !m.effects.contains_key(e.id),
    ensures
        m.with_effect(e).effects_of(e.transition_id) == m.effects_of(e.transition_id).push(e),
{
    let ids = m.emitted[e.transition_id];
    assert(!ids.contains(e.id)) by {
        if ids.contains(e.id) {
            let i = choose|i: int| 0 <= i < ids.len() && ids[i] == e.id;
            assert(m.effects.contains_key(m.emitted[e.transition_id][i]));
        }
    }
    let m1 = m.with_effect(e);
    assert forall|i: int| 0 <= i < ids.len() implies #[trigger] m1.effects[ids[i]]
        == m.effects[ids[i]] by {
        assert(ids.contains(ids[i]));
    }
    assert(m1.effects_of(e.transition_id) =~= m.effects_of(e.transition_id).push(e));
}

/// An effect that went out, or failed, is not waiting any more; one that waits
/// is.
pub proof fn law_only_pending_effects_wait(
    m: StoreModel,
    id: Seq<char>,
    status: EffectStatus,
    s: Seq<EffectView>,
)
    requires
        m.wf(),
        m.effects.contains_key(id),
        with_status(m, id, status).lists_pending(s),
    ensures
        s.contains(EffectView { status, ..m.effects[id] }) <==> status == EffectStatus::Pending,
        status != EffectStatus::Pending ==> forall|i: int|
            0 <= i < s.len() ==> (#[trigger] s[i]).id != id,
{
    let m1 = with_status(m, id, status);
    assert(m1.effects.contains_key(id));
    assert(m1.effects[id] == EffectView { status, ..m.effects[id] });
    if status != EffectStatus::Pending {
        assert forall|i: int| 0 <= i < s.len() implies (#[trigger] s[i]).id != id by {
            assert(m1.effects[s[i].id] == s[i]);
        }
    }
}

} // verus!
