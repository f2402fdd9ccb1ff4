//! What the command-line tool comes to, in terms of what it was given, what it
//! prints and what is stored.
use crate::engine::calls::{
    law_allowed_requests_are_carried_out, law_requests_heed_the_version,
    lemma_carried_out_as_asked, lemma_store_failed, store_failed,
};
use crate::engine::engine::Engine;
use crate::engine::error::EngineErrorView;
use crate::engine::outcome::{came_of, was_carried_out, RequestView, ResultView};
use crate::fsm::machine::MachineView;
use crate::fsm::record::EntityState;
use crate::json::{json_at, json_view, Json};
use crate::shell::ctl::{context_in, fails, firing, prints, run, transition_printed, CtlCommand};
use crate::shell::show::transition_lines;
use crate::storage::engine::StorageEngine;
use crate::storage::model::entity_key;
use crate::text::{decimal, texts};
use vstd::prelude::*;

verus! {

/// A transition that the tool is told to make either changes nothing that is stored,
/// or puts one entry at the end of the log. The entry is of the entity, the machine,
/// the event, the actor and the context that the tool was given, and its version
/// follows the one that the entity had. Where a version was given, the entity had
/// that one. Success is printed exactly where the entry was made, and with it; only
/// where the store failed at the end of its work is the entry there all the same.
pub proof fn law_given_transitions_are_logged<
    S: StorageEngine,
    G: Fn(&EntityState, &serde_json::Value) -> bool,
>(
    e: &mut Engine<S, G>,
    after: Engine<S, G>,
    entity_id: String,
    machine: String,
    event: String,
    actor: String,
    ctx: Option<String>,
    expected_version: Option<u64>,
    r: Result<Vec<String>, String>,
)
    requires
        old(e).wf(),
        after == *final(e),
        call_ensures(
            run::<S, G>,
            (
                CtlCommand::Transition { entity_id, machine, event, actor, ctx, expected_version },
                e,
            ),
            r,
        ),
    ensures
        r is Ok ==> after.model() != old(e).model(),
        ctx matches Some(s) ==> json_at(s@) is None ==> r is Err && after == *old(e),
        after.model() == old(e).model() || ({
            let m0 = old(e).model();
            let m1 = after.model();
            let key = entity_key(entity_id@, machine@);
            let entry = m1.log[m1.sequence];
            &&& !old(e).stopped()
            &&& m1.sequence == m0.sequence + 1
            &&& m1.log == m0.log.insert(m1.sequence, entry)
            &&& entry.sequence == m1.sequence
            &&& entry.entity_id == entity_id@ && entry.machine == machine@
            &&& entry.event == event@ && entry.actor == actor@
            &&& match ctx {
                Some(s) => json_at(s@) == Some(entry.ctx),
                None => entry.ctx == Json::Object(Map::empty()),
            }
            &&& entry.idempotency_key is None
            &&& entry.version == 1 + (if m0.entities.contains_key(key) {
                m0.entities[key].version as int
            } else {
                0
            })
            &&& m0.entities.contains_key(key) ==> entry.from_state == m0.entities[key].current_state
            &&& expected_version matches Some(v) ==> entry.version == v + 1
            &&& m1.entities == m0.entities.insert(key, m1.entities[key])
            &&& m1.entities[key].current_state == entry.to_state
            &&& m1.entities[key].version == entry.version
            &&& m1.machines == m0.machines
            &&& r matches Ok(lines) ==> {
                &&& lines@.len() == 9
                &&& lines@[1]@ == "  Entity:    "@ + entry.entity_id
                &&& lines@[2]@ == "  Machine:   "@ + entry.machine
                &&& lines@[3]@ == "  From:      "@ + entry.from_state
                &&& lines@[4]@ == "  To:        "@ + entry.to_state
                &&& lines@[5]@ == "  Version:   "@ + decimal(entry.version as nat)
                &&& lines@[6]@ == "  Seq:       "@ + decimal(entry.sequence as nat)
                &&& lines@[7]@ == "  Txn ID:    "@ + entry.id
            }
            &&& r matches Err(text) ==> ("firing '"@ + event@ + "' on '"@ + entity_id@ + "' in '"@
                + machine@ + "'"@ + ": "@ + "storage error: "@).is_prefix_of(text@) && store_failed(
                old(e).store(),
                entity_id@,
                machine@,
                event@,
            )
        }),
{
    old(e).law_store_is_in_order();
    let m0 = old(e).model();
    let m1 = after.model();
    let guards = old(e).guard_map();
    if context_in(ctx) is Some {
        let value = choose|value: serde_json::Value|
            #![trigger json_view(value)]
            json_view(value) == context_in(ctx)->0 && transition_printed(
                old(e).store(),
                m1,
                guards,
                old(e).stopped(),
                RequestView {
                    entity_id: entity_id@,
                    machine: machine@,
                    event: event@,
                    actor: actor@,
                    ctx: value,
                    expected_version,
                    idempotency_key: None,
                },
                r,
            );
        let q = RequestView {
            entity_id: entity_id@,
            machine: machine@,
            event: event@,
            actor: actor@,
            ctx: value,
            expected_version,
            idempotency_key: None,
        };
        let out = choose|out: Result<ResultView, EngineErrorView>| #[trigger]
            came_of(old(e).store(), m1, guards, old(e).stopped(), q, out) && match out {
                Ok(t) => prints(r, transition_lines(t)),
                Err(x) => fails(r, firing(q.event, q.entity_id, q.machine), x.message()),
            };
        if out is Ok {
            lemma_carried_out_as_asked(m0, m1, guards, q, out->Ok_0);
            let lines = r->Ok_0@;
            assert(texts(lines) == transition_lines(out->Ok_0));
            assert(texts(lines).len() == 9);
            assert forall|i: int| 0 <= i < 9 implies #[trigger] lines[i]@ == transition_lines(
                out->Ok_0,
            )[i] by {
                assert(texts(lines)[i] == lines[i]@);
            }
            assert(m1.sequence != m0.sequence);
        } else if m1 != m0 {
            assert(exists|o: ResultView| #[trigger] was_carried_out(m0, m1, guards, q, o));
            let o = choose|o: ResultView| #[trigger] was_carried_out(m0, m1, guards, q, o);
            lemma_carried_out_as_asked(m0, m1, guards, q, o);
            lemma_store_failed(old(e).store(), q, out->Err_0->Storage_0);
            let head = firing(event@, entity_id@, machine@) + ": "@;
            let text = r->Err_0@;
            assert((head + "storage error: "@).is_prefix_of(text));
        }
    }
}

/// A transition that the tool is told to make at a version that the entity does not
/// have fails and changes nothing that is stored. Where the machine is known, the
/// engine runs and the context can be read, the tool tells the version that it was
/// given and the one that the entity has, unless the store fails.
pub proof fn law_given_versions_are_heeded<
    S: StorageEngine,
    G: Fn(&EntityState, &serde_json::Value) -> bool,
>(
    e: &mut Engine<S, G>,
    after: Engine<S, G>,
    entity_id: String,
    machine: String,
    event: String,
    actor: String,
    ctx: Option<String>,
    v: u64,
    actual: u64,
    def: MachineView,
    r: Result<Vec<String>, String>,
)
    requires
        old(e).wf(),
        after == *final(e),
        call_ensures(
            run::<S, G>,
            (
                CtlCommand::Transition {
                    entity_id,
                    machine,
                    event,
                    actor,
                    ctx,
                    expected_version: Some(v),
                },
                e,
            ),
            r,
        ),
        ({
            let entities = old(e).model().entities;
            let key = entity_key(entity_id@, machine@);
            actual == (if entities.contains_key(key) {
                entities[key].version
            } else {
                0
            })
        }),
        v != actual,
    ensures
        after.model() == old(e).model(),
        r is Err,
        ({
            let machines = old(e).model().machines;
            &&& !old(e).stopped()
            &&& ctx matches Some(s) ==> json_at(s@) is Some
            &&& machines.contains_key((machine@, def.version))
            &&& machines[(machine@, def.version)] == def
            &&& forall|n: u32| #[trigger] machines.contains_key((machine@, n)) ==> n <= def.version
        }) ==> ({
            let at = "firing '"@ + event@ + "' on '"@ + entity_id@ + "' in '"@ + machine@ + "'"@
                + ": "@;
            ||| r->Err_0@ == at + ("core error: "@ + ("version conflict: entity '"@ + entity_id@
                + "' in machine '"@ + machine@ + "' expected version "@ + decimal(v as nat)
                + " but found "@ + decimal(actual as nat)))
            ||| (at + "storage error: "@).is_prefix_of(r->Err_0@) && store_failed(
                old(e).store(),
                entity_id@,
                machine@,
                event@,
            )
        }),
{
    old(e).law_store_is_in_order();
    let m0 = old(e).model();
    let m1 = after.model();
    let guards = old(e).guard_map();
    if context_in(ctx) is Some {
        let value = choose|value: serde_json::Value|
            #![trigger json_view(value)]
            json_view(value) == context_in(ctx)->0 && transition_printed(
                old(e).store(),
                m1,
                guards,
                old(e).stopped(),
                RequestView {
                    entity_id: entity_id@,
                    machine: machine@,
                    event: event@,
                    actor: actor@,
                    ctx: value,
                    expected_version: Some(v),
                    idempotency_key: None,
                },
                r,
            );
        let q = RequestView {
            entity_id: entity_id@,
            machine: machine@,
            event: event@,
            actor: actor@,
            ctx: value,
            expected_version: Some(v),
            idempotency_key: None,
        };
        let out = choose|out: Result<ResultView, EngineErrorView>| #[trigger]
            came_of(old(e).store(), m1, guards, old(e).stopped(), q, out) && match out {
                Ok(t) => prints(r, transition_lines(t)),
                Err(x) => fails(r, firing(q.event, q.entity_id, q.machine), x.message()),
            };
        if out is Ok {
            lemma_carried_out_as_asked(m0, m1, guards, q, out->Ok_0);
        } else if m1 != m0 {
            assert(exists|o: ResultView| #[trigger] was_carried_out(m0, m1, guards, q, o));
            let o = choose|o: ResultView| #[trigger] was_carried_out(m0, m1, guards, q, o);
            lemma_carried_out_as_asked(m0, m1, guards, q, o);
        }
        if !old(e).stopped() && m0.machines.contains_key((machine@, def.version)) && m0.machines[(
            machine@,
            def.version,
        )] == def && (forall|n: u32| #[trigger]
            m0.machines.contains_key((machine@, n)) ==> n <= def.version) {
            law_requests_heed_the_version(old(e).store(), m1, guards, q, out, def);
            let at = firing(event@, entity_id@, machine@) + ": "@;
            assert(out->Err_0 is Storage ==> (at + "storage error: "@).is_prefix_of(r->Err_0@));
        }
    }
}

/// A transition that the tool is told to make, that the latest definition has a rule
/// for, at the version that it was given if it was given one, and with a context that
/// can be read, is made, and the entity stands where the rule leads, provided that the
/// engine runs and that none of the rule's guards is registered; unless the store
/// fails.
pub proof fn law_allowed_transitions_are_made_as_given<
    S: StorageEngine,
    G: Fn(&EntityState, &serde_json::Value) -> bool,
>(
    e: &mut Engine<S, G>,
    after: Engine<S, G>,
    entity_id: String,
    machine: String,
    event: String,
    actor: String,
    ctx: Option<String>,
    expected_version: Option<u64>,
    r: Result<Vec<String>, String>,
    def: MachineView,
    standing: Seq<char>,
    i: int,
)
    requires
        old(e).wf(),
        after == *final(e),
        call_ensures(
            run::<S, G>,
            (
                CtlCommand::Transition { entity_id, machine, event, actor, ctx, expected_version },
                e,
            ),
            r,
        ),
        !old(e).stopped(),
        old(e).model().machines.contains_key((machine@, def.version)),
        old(e).model().machines[(machine@, def.version)] == def,
        forall|v: u32| #[trigger]
            old(e).model().machines.contains_key((machine@, v)) ==> v <= def.version,
        ({
            let entities = old(e).model().entities;
            let key = entity_key(entity_id@, machine@);
            &&& standing == (if entities.contains_key(key) {
                entities[key].current_state
            } else {
                def.initial_state
            })
            &&& expected_version matches Some(v) ==> v == (if entities.contains_key(key) {
                entities[key].version
            } else {
                0
            })
        }),
        0 <= i < def.transitions.len(),
        def.transitions[i].event == event@,
        def.transitions[i].from_states.contains(standing),
        forall|j: int|
            0 <= j < i ==> !((#[trigger] def.transitions[j]).event == event@
                && def.transitions[j].from_states.contains(standing)),
        forall|k: int|
            0 <= k < def.transitions[i].guards.len() ==> !old(e).guard_map().contains_key(
                #[trigger] def.transitions[i].guards[k],
            ),
    ensures
        (ctx matches Some(s) ==> json_at(s@) is Some) ==> store_failed(
            old(e).store(),
            entity_id@,
            machine@,
            event@,
        ) || ({
            let key = entity_key(entity_id@, machine@);
            &&& after.model().entities.contains_key(key)
            &&& after.model().entities[key].current_state == def.transitions[i].to_state
            &&& r is Ok
        }),
{
    old(e).law_store_is_in_order();
    let m0 = old(e).model();
    let m1 = after.model();
    let guards = old(e).guard_map();
    if context_in(ctx) is Some {
        let value = choose|value: serde_json::Value|
            #![trigger json_view(value)]
            json_view(value) == context_in(ctx)->0 && transition_printed(
                old(e).store(),
                m1,
                guards,
                old(e).stopped(),
                RequestView {
                    entity_id: entity_id@,
                    machine: machine@,
                    event: event@,
                    actor: actor@,
                    ctx: value,
                    expected_version,
                    idempotency_key: None,
                },
                r,
            );
        let q = RequestView {
            entity_id: entity_id@,
            machine: machine@,
            event: event@,
            actor: actor@,
            ctx: value,
            expected_version,
            idempotency_key: None,
        };
        let out = choose|out: Result<ResultView, EngineErrorView>| #[trigger]
            came_of(old(e).store(), m1, guards, old(e).stopped(), q, out) && match out {
                Ok(t) => prints(r, transition_lines(t)),
                Err(x) => fails(r, firing(q.event, q.entity_id, q.machine), x.message()),
            };
        law_allowed_requests_are_carried_out(
            old(e).store(),
            m1,
            guards,
            q,
            out,
            def,
            standing,
            i,
        );
        if out is Ok {
            lemma_carried_out_as_asked(m0, m1, guards, q, out->Ok_0);
        }
    }
}

} // verus!
