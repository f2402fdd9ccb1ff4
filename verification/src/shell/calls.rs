//! What the shell and the command-line tool come to, in terms of what was typed,
//! what is shown and what is stored.
use crate::engine::calls::{
    law_allowed_requests_are_carried_out, law_requests_heed_the_version,
    lemma_carried_out_as_asked, lemma_store_failed, store_failed,
};
use crate::engine::engine::Engine;
use crate::engine::error::EngineErrorView;
use crate::engine::outcome::{came_of, was_carried_out, RequestView, ResultView};
use crate::fsm::machine::MachineView;
use crate::fsm::record::EntityState;
use crate::json::json_view;
use crate::shell::command::Cmd;
use crate::shell::execute::{execute, outcome_lines, shows, Shown};
use crate::storage::engine::StorageEngine;
use crate::storage::model::entity_key;
use crate::text::{decimal, texts};
use vstd::prelude::*;

verus! {

/// A transition that is typed either changes nothing that is stored, or puts one
/// entry at the end of the log. The entry is of the entity, the machine, the event,
/// the actor and the context that were typed, and its version follows the one that
/// the entity had. Where a version was typed, the entity had that one. The line
/// shown tells the states, the version and the number of the entry, unless the store
/// fails at the end of its work.
pub proof fn law_typed_transitions_are_logged<
    S: StorageEngine,
    G: Fn(&EntityState, &serde_json::Value) -> bool,
>(
    e: &mut Engine<S, G>,
    after: Engine<S, G>,
    entity_id: String,
    machine: String,
    event: String,
    actor: String,
    ctx: serde_json::Value,
    expect_version: Option<u64>,
    r: Result<Shown, String>,
)
    requires
        old(e).wf(),
        after == *final(e),
        call_ensures(
            execute::<S, G>,
            (Cmd::Transition { entity_id, machine, event, actor, ctx, expect_version }, e),
            r,
        ),
    ensures
        r is Ok,
        r->Ok_0.proceed,
        r->Ok_0.lines@.len() == 1,
        after.model() == old(e).model() || ({
            let m0 = old(e).model();
            let m1 = after.model();
            let key = entity_key(entity_id@, machine@);
            let entry = m1.log[m1.sequence];
            &&& !old(e).stopped()
            &&& m1.sequence == m0.sequence + 1
            &&& m1.log == m0.log.insert(m1.sequence, entry)
            &&& entry.sequence == m1.sequence
            &&& entry.entity_id == entity_id@ && entry.machine == machine@
            &&& entry.event == event@ && entry.actor == actor@
            &&& entry.ctx == json_view(ctx) && entry.idempotency_key is None
            &&& entry.version == 1 + (if m0.entities.contains_key(key) {
                m0.entities[key].version as int
            } else {
                0
            })
            &&& m0.entities.contains_key(key) ==> entry.from_state == m0.entities[key].current_state
            &&& expect_version matches Some(v) ==> entry.version == v + 1
            &&& m1.entities == m0.entities.insert(key, m1.entities[key])
            &&& m1.entities[key].current_state == entry.to_state
            &&& m1.entities[key].version == entry.version
            &&& m1.machines == m0.machines
            &&& r->Ok_0.lines@[0]@ == "OK  "@ + entry.from_state + " -> "@ + entry.to_state
                + "  (v"@ + decimal(entry.version as nat) + ", seq "@ + decimal(
                entry.sequence as nat,
            ) + ")"@ || ("Error: storage error: "@.is_prefix_of(r->Ok_0.lines@[0]@) && store_failed(
                old(e).store(),
                entity_id@,
                machine@,
                event@,
            ))
        }),
{
    old(e).law_store_is_in_order();
    let m0 = old(e).model();
    let m1 = after.model();
    let guards = old(e).guard_map();
    let q = RequestView {
        entity_id: entity_id@,
        machine: machine@,
        event: event@,
        actor: actor@,
        ctx,
        expected_version: expect_version,
        idempotency_key: None,
    };
    let out = choose|out: Result<ResultView, EngineErrorView>| #[trigger]
        came_of(old(e).store(), m1, old(e).guard_map(), old(e).stopped(), q, out) && shows(
            r,
            outcome_lines(out),
        );
    assert(texts(r->Ok_0.lines@) == outcome_lines(out));
    assert(texts(r->Ok_0.lines@).len() == 1);
    assert(texts(r->Ok_0.lines@)[0] == r->Ok_0.lines@[0]@);
    if out is Ok {
        lemma_carried_out_as_asked(m0, m1, guards, q, out->Ok_0);
    } else if m1 != m0 {
        assert(exists|o: ResultView| #[trigger] was_carried_out(m0, m1, guards, q, o));
        let o = choose|o: ResultView| #[trigger] was_carried_out(m0, m1, guards, q, o);
        lemma_carried_out_as_asked(m0, m1, guards, q, o);
        lemma_store_failed(old(e).store(), q, out->Err_0->Storage_0);
        reveal_strlit("Error: storage error: ");
        reveal_strlit("Error: ");
        reveal_strlit("storage error: ");
        assert("Error: storage error: "@ =~= "Error: "@ + "storage error: "@);
        assert("Error: storage error: "@.is_prefix_of(r->Ok_0.lines@[0]@));
    }
}

/// A transition that is typed with a version that the entity does not have changes
/// nothing that is stored. Where the machine is known and the engine runs, the line
/// shown tells the version that was typed and the one that the entity has, unless
/// the store fails.
pub proof fn law_typed_versions_are_heeded<
    S: StorageEngine,
    G: Fn(&EntityState, &serde_json::Value) -> bool,
>(
    e: &mut Engine<S, G>,
    after: Engine<S, G>,
    entity_id: String,
    machine: String,
    event: String,
    actor: String,
    ctx: serde_json::Value,
    v: u64,
    actual: u64,
    def: MachineView,
    r: Result<Shown, String>,
)
    requires
        old(e).wf(),
        after == *final(e),
        call_ensures(
            execute::<S, G>,
            (
                Cmd::Transition {
                    entity_id,
                    machine,
                    event,
                    actor,
                    ctx,
                    expect_version: Some(v),
                },
                e,
            ),
            r,
        ),
        ({
            let entities = old(e).model().entities;
            let key = entity_key(entity_id@, machine@);
            actual == (if entities.contains_key(key) {
                entities[key].version
            } else {
                0
            })
        }),
        v != actual,
    ensures
        after.model() == old(e).model(),
        r is Ok,
        r->Ok_0.proceed,
        ({
            let machines = old(e).model().machines;
            &&& !old(e).stopped()
            &&& machines.contains_key((machine@, def.version))
            &&& machines[(machine@, def.version)] == def
            &&& forall|n: u32| #[trigger] machines.contains_key((machine@, n)) ==> n <= def.version
        }) ==> (r->Ok_0.lines@.len() == 1 && (r->Ok_0.lines@[0]@
            == "Error: core error: version conflict: entity '"@ + entity_id@ + "' in machine '"@
            + machine@ + "' expected version "@ + decimal(v as nat) + " but found "@ + decimal(
            actual as nat,
        ) || ("Error: storage error: "@.is_prefix_of(r->Ok_0.lines@[0]@) && store_failed(
            old(e).store(),
            entity_id@,
            machine@,
            event@,
        )))),
{
    old(e).law_store_is_in_order();
    let m0 = old(e).model();
    let m1 = after.model();
    let guards = old(e).guard_map();
    let q = RequestView {
        entity_id: entity_id@,
        machine: machine@,
        event: event@,
        actor: actor@,
        ctx,
        expected_version: Some(v),
        idempotency_key: None,
    };
    let out = choose|out: Result<ResultView, EngineErrorView>| #[trigger]
        came_of(old(e).store(), m1, old(e).guard_map(), old(e).stopped(), q, out) && shows(
            r,
            outcome_lines(out),
        );
    assert(texts(r->Ok_0.lines@) == outcome_lines(out));
    assert(texts(r->Ok_0.lines@).len() == 1);
    assert(texts(r->Ok_0.lines@)[0] == r->Ok_0.lines@[0]@);
    if out is Ok {
        lemma_carried_out_as_asked(m0, m1, guards, q, out->Ok_0);
    } else if m1 != m0 {
        assert(exists|o: ResultView| #[trigger] was_carried_out(m0, m1, guards, q, o));
        let o = choose|o: ResultView| #[trigger] was_carried_out(m0, m1, guards, q, o);
        lemma_carried_out_as_asked(m0, m1, guards, q, o);
    }
    assert(m1 == m0);
    if !old(e).stopped() && m0.machines.contains_key((machine@, def.version))
        && m0.machines[(machine@, def.version)] == def && (forall|n: u32| #[trigger]
        m0.machines.contains_key((machine@, n)) ==> n <= def.version) {
        law_requests_heed_the_version(old(e).store(), m1, old(e).guard_map(), q, out, def);
        reveal_strlit("Error: core error: version conflict: entity '");
        reveal_strlit("Error: storage error: ");
        reveal_strlit("Error: ");
        reveal_strlit("core error: ");
        reveal_strlit("storage error: ");
        reveal_strlit("version conflict: entity '");
        let line = r->Ok_0.lines@[0]@;
        if out->Err_0 is Core {
            assert("Error: core error: version conflict: entity '"@ =~= "Error: "@ + "core error: "@
                + "version conflict: entity '"@);
            assert(line =~= "Error: core error: version conflict: entity '"@ + entity_id@
                + "' in machine '"@ + machine@ + "' expected version "@ + decimal(v as nat)
                + " but found "@ + decimal(actual as nat));
        } else {
            assert("Error: storage error: "@ =~= "Error: "@ + "storage error: "@);
            assert("Error: storage error: "@.is_prefix_of(line));
        }
    }
}

/// A transition that is typed, that the latest definition has a rule for, at the
/// version that is typed if one is, is made, and the entity stands where the rule
/// leads, provided that the engine runs and that none of the rule's guards is
/// registered; unless the store fails.
pub proof fn law_allowed_transitions_are_made_as_typed<
    S: StorageEngine,
    G: Fn(&EntityState, &serde_json::Value) -> bool,
>(
    e: &mut Engine<S, G>,
    after: Engine<S, G>,
    entity_id: String,
    machine: String,
    event: String,
    actor: String,
    ctx: serde_json::Value,
    expect_version: Option<u64>,
    r: Result<Shown, String>,
    def: MachineView,
    standing: Seq<char>,
    i: int,
)
    requires
        old(e).wf(),
        after == *final(e),
        call_ensures(
            execute::<S, G>,
            (Cmd::Transition { entity_id, machine, event, actor, ctx, expect_version }, e),
            r,
        ),
        !old(e).stopped(),
        old(e).model().machines.contains_key((machine@, def.version)),
        old(e).model().machines[(machine@, def.version)] == def,
        forall|v: u32| #[trigger]
            old(e).model().machines.contains_key((machine@, v)) ==> v <= def.version,
        ({
            let entities = old(e).model().entities;
            let key = entity_key(entity_id@, machine@);
            &&& standing == (if entities.contains_key(key) {
                entities[key].current_state
            } else {
                def.initial_state
            })
            &&& expect_version matches Some(v) ==> v == (if entities.contains_key(key) {
                entities[key].version
            } else {
                0
            })
        }),
        0 <= i < def.transitions.len(),
        def.transitions[i].event == event@,
        def.transitions[i].from_states.contains(standing),
        forall|j: int|
            0 <= j < i ==> !((#[trigger] def.transitions[j]).event == event@
                && def.transitions[j].from_states.contains(standing)),
        forall|k: int|
            0 <= k < def.transitions[i].guards.len() ==> !old(e).guard_map().contains_key(
                #[trigger] def.transitions[i].guards[k],
            ),
    ensures
        store_failed(old(e).store(), entity_id@, machine@, event@) || ({
            let key = entity_key(entity_id@, machine@);
            &&& after.model().entities.contains_key(key)
            &&& after.model().entities[key].current_state == def.transitions[i].to_state
            &&& r is Ok && r->Ok_0.lines@.len() == 1 && "OK  "@.is_prefix_of(r->Ok_0.lines@[0]@)
        }),
{
    old(e).law_store_is_in_order();
    let m0 = old(e).model();
    let m1 = after.model();
    let guards = old(e).guard_map();
    let q = RequestView {
        entity_id: entity_id@,
        machine: machine@,
        event: event@,
        actor: actor@,
        ctx,
        expected_version: expect_version,
        idempotency_key: None,
    };
    let out = choose|out: Result<ResultView, EngineErrorView>| #[trigger]
        came_of(old(e).store(), m1, old(e).guard_map(), old(e).stopped(), q, out) && shows(
            r,
            outcome_lines(out),
        );
    assert(texts(r->Ok_0.lines@) == outcome_lines(out));
    assert(texts(r->Ok_0.lines@).len() == 1);
    assert(texts(r->Ok_0.lines@)[0] == r->Ok_0.lines@[0]@);
    law_allowed_requests_are_carried_out(
        old(e).store(),
        m1,
        guards,
        q,
        out,
        def,
        standing,
        i,
    );
    if out is Ok {
        lemma_carried_out_as_asked(m0, m1, guards, q, out->Ok_0);
        assert("OK  "@.is_prefix_of(r->Ok_0.lines@[0]@));
    }
}

} // verus!
