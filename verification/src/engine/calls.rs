//! What the calls on an engine come to, in terms of what goes in, what comes out
//! and what is stored.
use crate::clock::Timestamp;
use crate::engine::engine::Engine;
use crate::engine::error::{EngineError, EngineErrorView};
use crate::engine::guard::guard_says;
use crate::engine::laws::{
    law_every_guard_agreed, law_transition_moves_one_step, lemma_effects_touch_outbox_only,
};
use crate::engine::outcome::{
    came_of, carried_out, entity_for, execution_failed, guards_said, handing_over_failed,
        lookup_failed, performed_as, record_for, refusal,
    refused, shown_to_guards, state_in, transition_failed, version_in, was_carried_out,
        was_refused, RequestView,
    ResultView, TransitionResult,
};
use crate::fsm::error::CoreErrorView;
use crate::fsm::machine::{EffectRuleView, MachineDefinition, MachineView};
use crate::fsm::planner::{
    failed_guard, has_plan, is_planned, law_guards_pass_together, lemma_first_answer,
    lemma_planned_unique, planned_rule, rule_answers,
};
use crate::fsm::record::{Effect, EffectStatus, EffectView, EntityState, TransitionRecord};
use crate::id::is_uuid4;
use crate::json::{json_view, Json};
use crate::storage::engine::StorageEngine;
use crate::storage::error::{StorageError, StorageErrorView};
use crate::storage::laws::law_latest_definition_is_unique;
use crate::storage::model::{entity_key, StoreModel};
use crate::text::opt_text;
use vstd::prelude::*;

verus! {

/// Whether the store failed on the way to a transition: when it was asked for the
/// entity or for the latest definition of the machine, or when it was handed a
/// transition of the entity on the event. An entity whose version is the last that
/// there is counts as such a failure.
pub open spec fn store_failed<S: StorageEngine>(
    storage: S,
    entity_id: Seq<char>,
    machine: Seq<char>,
    event: Seq<char>,
) -> bool {
    let key = entity_key(entity_id, machine);
    ||| exists|i: &str, n: &str, f: StorageError|
        i@ == entity_id && n@ == machine && (f is TransactionFailed || f is Corrupted
            || f is Io || f is Internal) && #[trigger] call_ensures(
            S::get_entity_state,
            (&storage, i, n),
            Err::<EntityState, StorageError>(f),
        )
    ||| exists|n: &str, f: StorageError|
        n@ == machine && (f is TransactionFailed || f is Corrupted || f is Io
            || f is Internal) && #[trigger] call_ensures(
            S::get_machine,
            (&storage, n, None::<u32>),
            Err::<MachineDefinition, StorageError>(f),
        )
    ||| exists|
        s: &mut S,
        record: &mut TransitionRecord,
        state: &EntityState,
        effects: &Vec<Effect>,
        f: StorageError,
    |
        *s == storage && record.entity_id@ == entity_id && record.machine@
            == machine && record.event@ == event && (f is TransactionFailed || f is Corrupted
                || f is Io || f is Internal) && #[trigger] call_ensures(
            S::execute_transition,
            (s, record, state, effects),
            Err::<u64, StorageError>(f),
        )
    ||| storage.model().entities.contains_key(key) && storage.model().entities[key].version
        == u64::MAX
}

/// What stops a request is a failure of the store.
pub(crate) proof fn lemma_store_failed<S: StorageEngine>(
    storage: S,
    req: RequestView,
    x: StorageErrorView,
)
    requires
        transition_failed(storage, req, x),
        x.is_fault(),
    ensures
        store_failed(storage, req.entity_id, req.machine, req.event),
{
    if execution_failed(storage, req, x) {
        let (def, id, at, now) = choose|
            def: MachineView,
            id: Seq<char>,
            at: Timestamp,
            now: Timestamp,
        |
            storage.model().finds_machine(req.machine, None, def) && refusal(
                storage.model(),
                def,
                req,
            ) is None && #[trigger] handing_over_failed(storage, def, req, id, at, now, x);
        assert(handing_over_failed(storage, def, req, id, at, now, x));
    }
}

/// The rule that a plan takes is the first that answers.
proof fn lemma_plan(m: MachineView, state: Seq<char>, event: Seq<char>) -> (i: int)
    requires
        has_plan(m, state, event),
    ensures
        0 <= i < m.transitions.len(),
        m.transitions[i].event == event,
        m.transitions[i].from_states.contains(state),
        forall|j: int|
            0 <= j < i ==> !((#[trigger] m.transitions[j]).event == event
                && m.transitions[j].from_states.contains(state)),
        planned_rule(m, state, event) == m.transitions[i],
{
    let n = choose|n: int|
        0 <= n < m.transitions.len() && rule_answers(#[trigger] m.transitions[n], state, event);
    let i = lemma_first_answer(m, state, event, n);
    lemma_planned_unique(m, state, event, i);
    assert(is_planned(m, state, event, i));
    assert forall|j: int| 0 <= j < i implies !((#[trigger] m.transitions[j]).event == event
        && m.transitions[j].from_states.contains(state)) by {
        assert(!rule_answers(m.transitions[j], state, event));
    }
    i
}

/// Effects that are put into the outbox under different identifiers, of a
/// transition that had none, are the effects of the transition, in their order.
proof fn lemma_outbox(m: StoreModel, id: Seq<char>, s: Seq<EffectView>, ids: Seq<Seq<char>>)
    requires
        m.emitted[id].len() == 0,
        ids.len() == s.len(),
        ids.no_duplicates(),
        forall|i: int| 0 <= i < s.len() ==> (#[trigger] s[i]).transition_id == id
            && s[i].id == ids[i],
    ensures
        m.with_effects(s).emitted[id] == ids,
        forall|i: int|
            #![trigger ids[i]]
            0 <= i < s.len() ==> m.with_effects(s).effects.contains_key(ids[i])
                && m.with_effects(s).effects[ids[i]] == s[i],
        forall|k: Seq<char>|
            !ids.contains(k) ==> (#[trigger] m.with_effects(s).effects.contains_key(k)
                <==> m.effects.contains_key(k)) && m.with_effects(s).effects[k] == m.effects[k],
        forall|t: Seq<char>| t != id ==> #[trigger] m.with_effects(s).emitted[t] == m.emitted[t],
    decreases s.len(),
{
    if s.len() == 0 {
        assert(m.emitted[id] =~= ids);
    } else {
        let s0 = s.drop_last();
        let ids0 = ids.drop_last();
        let n = s.len() - 1;
        assert forall|i: int| 0 <= i < s0.len() implies (#[trigger] s0[i]).transition_id == id
            && s0[i].id == ids0[i] by {
            assert(s0[i] == s[i]);
        }
        assert(ids0.no_duplicates());
        lemma_outbox(m, id, s0, ids0);
        let m0 = m.with_effects(s0);
        let m1 = m.with_effects(s);
        assert(s.last() == s[n]);
        assert(!ids0.contains(ids[n])) by {
            if ids0.contains(ids[n]) {
                let i = choose|i: int| 0 <= i < ids0.len() && ids0[i] == ids[n];
                assert(ids[i] == ids[n]);
            }
        }
        assert(m1.emitted[id] =~= ids);
        assert forall|i: int| #![trigger ids[i]] 0 <= i < s.len() implies m1.effects.contains_key(
            ids[i],
        ) && m1.effects[ids[i]] == s[i] by {
            if i < n {
                assert(ids0[i] == ids[i]);
                assert(m0.effects.contains_key(ids0[i]));
                assert(ids[i] != ids[n]);
            }
        }
        assert forall|k: Seq<char>| !ids.contains(k) implies (#[trigger] m1.effects.contains_key(k)
            <==> m.effects.contains_key(k)) && m1.effects[k] == m.effects[k] by {
            assert(k != ids[n]);
            if ids0.contains(k) {
                let i = choose|i: int| 0 <= i < ids0.len() && ids0[i] == k;
                assert(ids[i] == k);
            }
            assert(m0.effects.contains_key(k) <==> m.effects.contains_key(k));
        }
        assert forall|t: Seq<char>| t != id implies #[trigger] m1.emitted[t] == m.emitted[t] by {
            assert(m0.emitted[t] == m.emitted[t]);
        }
    }
}

/// A transition that is made does what the machine says. The definition is that
/// with the highest version of the name, and the rule its first for the event in
/// the state of the entity, which before its first transition is the initial one.
/// The transition is logged under the next number with all that was asked; the
/// entity moves on, and its version grows by one; nothing else that is logged,
/// and no other entity, changes. Each effect rule for the event, in the order of
/// the definition, puts one pending effect into the outbox, with the name and the
/// payload of the rule, or the null value where it has none.
pub proof fn law_transitions_do_what_the_machine_says<
    S: StorageEngine,
    G: Fn(&EntityState, &serde_json::Value) -> bool,
>(
    e: &mut Engine<S, G>,
    after: Engine<S, G>,
    entity_id: &str,
    machine: &str,
    event: &str,
    actor: &str,
    ctx: serde_json::Value,
    expected_version: Option<u64>,
    idempotency_key: Option<String>,
    r: Result<TransitionResult, EngineError>,
) -> (w: (MachineView, int, Seq<Seq<char>>))
    requires
        old(e).wf(),
        call_ensures(
            Engine::<S, G>::transition,
            (e, entity_id, machine, event, actor, ctx, expected_version, idempotency_key),
            r,
        ),
        after == *final(e),
        r is Ok,
        idempotency_key matches Some(k) ==> !old(e).model().idempotency.contains_key(k@),
    ensures
        ({
            let m0 = old(e).model();
            let m1 = after.model();
            let out = r->Ok_0;
            let (def, i, ids) = w;
            let key = entity_key(entity_id@, machine@);
            let entry = m1.log[out.sequence];
            let entity = m1.entities[key];
            let rules = def.effects.filter(|x: EffectRuleView| x.on_event == event@);
            &&& !old(e).stopped()
            &&& m0.machines.contains_key((machine@, def.version))
            &&& m0.machines[(machine@, def.version)] == def
            &&& forall|v: u32| #[trigger]
                m0.machines.contains_key((machine@, v)) ==> v <= def.version
            &&& 0 <= i < def.transitions.len()
            &&& def.transitions[i].event == event@
            &&& def.transitions[i].from_states.contains(out.from_state@)
            &&& forall|j: int|
                0 <= j < i ==> !((#[trigger] def.transitions[j]).event == event@
                    && def.transitions[j].from_states.contains(out.from_state@))
            &&& out.from_state@ == (if m0.entities.contains_key(key) {
                m0.entities[key].current_state
            } else {
                def.initial_state
            })
            &&& out.to_state@ == def.transitions[i].to_state
            &&& out.version == 1 + (if m0.entities.contains_key(key) {
                m0.entities[key].version as int
            } else {
                0
            })
            &&& expected_version matches Some(v) ==> out.version == v + 1
            &&& out.entity_id@ == entity_id@ && out.machine@ == machine@
            &&& out.sequence == m0.sequence + 1 && m1.sequence == out.sequence
            &&& m1.log == m0.log.insert(out.sequence, entry)
            &&& entry.sequence == out.sequence && entry.version == out.version
            &&& entry.id == out.transition_id@ && is_uuid4(entry.id)
            &&& entry.timestamp == out.timestamp
            &&& entry.entity_id == entity_id@ && entry.machine == machine@
            &&& entry.from_state == out.from_state@ && entry.to_state == out.to_state@
            &&& entry.event == event@ && entry.actor == actor@ && entry.ctx == json_view(ctx)
            &&& match idempotency_key {
                Some(k) => entry.idempotency_key == Some(k@) && m1.idempotency
                    == m0.idempotency.insert(k@, out.sequence),
                None => entry.idempotency_key is None && m1.idempotency == m0.idempotency,
            }
            &&& m1.by_id == m0.by_id.insert(entry.id, out.sequence)
            &&& m1.entities == m0.entities.insert(key, entity)
            &&& entity.entity_id == entity_id@ && entity.machine == machine@
            &&& entity.current_state == out.to_state@ && entity.version == out.version
            &&& entity.created_at == (if m0.entities.contains_key(key) {
                m0.entities[key].created_at
            } else {
                entity.updated_at
            })
            &&& m1.machines == m0.machines
            &&& ids.len() == rules.len()
            &&& m0.emitted[entry.id].len() == 0 && ids.no_duplicates() ==> {
                &&& m1.emitted[entry.id] == ids
                &&& forall|t: Seq<char>| t != entry.id ==> #[trigger] m1.emitted[t] == m0.emitted[t]
                &&& forall|k: Seq<char>|
                    !ids.contains(k) ==> (#[trigger] m1.effects.contains_key(k)
                        <==> m0.effects.contains_key(k)) && m1.effects[k] == m0.effects[k]
                &&& forall|j: int|
                    #![trigger ids[j]]
                    0 <= j < ids.len() ==> {
                        let f = m1.effects[ids[j]];
                        &&& m1.effects.contains_key(ids[j])
                        &&& f.id == ids[j] && is_uuid4(f.id)
                        &&& f.transition_id == entry.id
                        &&& f.effect_name == rules[j].effect
                        &&& rules[j].payload matches Some(p) ==> f.payload == p
                        &&& rules[j].payload is None ==> f.payload == Json::Null
                        &&& f.status == EffectStatus::Pending
                    }
            }
        }),
{
    let m0 = old(e).model();
    let m1 = after.model();
    old(e).law_store_is_in_order();
    let req = RequestView {
        entity_id: entity_id@,
        machine: machine@,
        event: event@,
        actor: actor@,
        ctx,
        expected_version,
        idempotency_key: opt_text(idempotency_key),
    };
    let out = r->Ok_0@;
    assert(was_carried_out(m0, m1, old(e).guard_map(), req, out));
    let def = choose|def: MachineView| #[trigger]
        carried_out(m0, m1, old(e).guard_map(), def, req, out);
    law_transition_moves_one_step(m0, m1, old(e).guard_map(), def, req, out);
    let (id, at, now, effects) = choose|
        id: Seq<char>,
        at: Timestamp,
        now: Timestamp,
        effects: Seq<EffectView>,
    | #[trigger] performed_as(m0, m1, def, req, out, id, at, now, effects);
    let from = state_in(m0, def, req.key());
    let i = lemma_plan(def, from, req.event);
    let to = planned_rule(def, from, req.event).to_state;
    let version = (version_in(m0, req.key()) + 1) as u64;
    let record = record_for(req, from, to, version, id, at);
    let entity = entity_for(m0, req, to, version, now);
    let base = m0.with_record(record).with_entity(entity);
    lemma_effects_touch_outbox_only(base, effects);
    let ids = Seq::new(effects.len(), |j: int| effects[j].id);
    if m0.emitted[id].len() == 0 && ids.no_duplicates() {
        lemma_outbox(base, id, effects, ids);
    }
    (def, i, ids)
}

/// A request that is refused is told the truth about why, and what is stored stays
/// as it was. Only where the store failed to commit may the transition have been
/// made.
pub proof fn law_refusals_are_true<
    S: StorageEngine,
    G: Fn(&EntityState, &serde_json::Value) -> bool,
>(
    e: &mut Engine<S, G>,
    after: Engine<S, G>,
    entity_id: &str,
    machine: &str,
    event: &str,
    actor: &str,
    ctx: serde_json::Value,
    expected_version: Option<u64>,
    idempotency_key: Option<String>,
    r: Result<TransitionResult, EngineError>,
) -> (w: (MachineView, EntityState))
    requires
        old(e).wf(),
        call_ensures(
            Engine::<S, G>::transition,
            (e, entity_id, machine, event, actor, ctx, expected_version, idempotency_key),
            r,
        ),
        after == *final(e),
        r is Err,
    ensures
        ({
            let m = old(e).model();
            let key = entity_key(entity_id@, machine@);
            let (def, state) = w;
            let known = m.machines.contains_key((machine@, def.version)) && m.machines[(
                machine@,
                def.version,
            )] == def && forall|v: u32| #[trigger]
                m.machines.contains_key((machine@, v)) ==> v <= def.version;
            let standing = if m.entities.contains_key(key) {
                m.entities[key].current_state
            } else {
                def.initial_state
            };
            let version = if m.entities.contains_key(key) {
                m.entities[key].version
            } else {
                0
            };
            &&& after.model() == m || (r->Err_0@ matches EngineErrorView::Storage(x) && x is
                TransactionFailed)
            &&& match r->Err_0@ {
                EngineErrorView::ShuttingDown => old(e).stopped(),
                EngineErrorView::Core(
                    CoreErrorView::VersionConflict { entity_id: i, machine: n, expected, actual },
                ) => known && i == entity_id@ && n == machine@ && expected_version == Some(expected)
                    && actual == version && expected != actual,
                EngineErrorView::Core(
                    CoreErrorView::IllegalTransition { entity_id: i, machine: n, event: v,
                        current_state },
                ) => known && i == entity_id@ && n == machine@ && v == event@ && current_state
                    == standing && forall|j: int|
                    0 <= j < def.transitions.len() ==> !((#[trigger] def.transitions[j]).event
                        == event@ && def.transitions[j].from_states.contains(standing)),
                EngineErrorView::Core(CoreErrorView::GuardFailed { guard_name, reason }) => {
                    &&& known
                    &&& old(e).guard_map().contains_key(guard_name)
                    &&& call_ensures(old(e).guard_map()[guard_name], (&state, &ctx), false)
                    &&& state.entity_id@ == entity_id@ && state.machine@ == machine@
                    &&& state.current_state@ == standing && state.version == version
                    &&& exists|j: int|
                        0 <= j < def.transitions.len() && (#[trigger] def.transitions[j]).event
                            == event@ && def.transitions[j].from_states.contains(standing)
                            && def.transitions[j].guards.contains(guard_name)
                },
                EngineErrorView::Storage(StorageErrorView::NotFound(_)) => forall|v: u32|
                    !#[trigger] m.machines.contains_key((machine@, v)),
                EngineErrorView::Storage(StorageErrorView::AlreadyExists(_)) => idempotency_key
                    matches Some(k) && m.idempotency.contains_key(k@),
                EngineErrorView::Storage(x) => x is TransactionFailed || x is Corrupted || x is Io
                    || x is Internal,
                _ => false,
            }
        }),
{
    let m0 = old(e).model();
    old(e).law_store_is_in_order();
    let req = RequestView {
        entity_id: entity_id@,
        machine: machine@,
        event: event@,
        actor: actor@,
        ctx,
        expected_version,
        idempotency_key: opt_text(idempotency_key),
    };
    let err = r->Err_0@;
    if let EngineErrorView::Core(c) = err {
        assert(was_refused(m0, old(e).guard_map(), req, c));
        let def = choose|def: MachineView| #[trigger]
            refused(m0, old(e).guard_map(), def, req, c);
        let standing = state_in(m0, def, req.key());
        if refusal(m0, def, req) == Some(c) {
            if c is IllegalTransition {
                assert forall|j: int| 0 <= j < def.transitions.len() implies !((
                #[trigger] def.transitions[j]).event == event@
                    && def.transitions[j].from_states.contains(standing)) by {
                    assert(!has_plan(def, standing, event@));
                    assert(!rule_answers(def.transitions[j], standing, event@));
                }
            }
            (def, arbitrary())
        } else {
            let names = planned_rule(def, standing, req.event).guards;
            let verdict = Some(c->guard_name);
            let (state, results) = choose|state: EntityState, results: Map<Seq<char>,
                bool>| #[trigger]
                guards_said(old(e).guard_map(), names, state, req.ctx, results) && shown_to_guards(
                    m0,
                    def,
                    req,
                    state,
                ) && verdict == failed_guard(names, results, names.len());
            law_guards_pass_together(names, results);
            let i = lemma_plan(def, standing, req.event);
            let k = choose|k: int| 0 <= k < names.len() && names[k] == c->guard_name;
            assert(guard_says(old(e).guard_map(), names[k], &state, &req.ctx, results[names[k]]));
            assert(def.transitions[i].guards.contains(c->guard_name));
            (def, state)
        }
    } else {
        arbitrary()
    }
}

/// A request that the machine, the version and the guards allow is carried out,
/// unless the store fails.
pub proof fn law_allowed_transitions_are_made<
    S: StorageEngine,
    G: Fn(&EntityState, &serde_json::Value) -> bool,
>(
    e: &mut Engine<S, G>,
    after: Engine<S, G>,
    entity_id: &str,
    machine: &str,
    event: &str,
    actor: &str,
    ctx: serde_json::Value,
    expected_version: Option<u64>,
    idempotency_key: Option<String>,
    r: Result<TransitionResult, EngineError>,
    def: MachineView,
    standing: Seq<char>,
    actual: u64,
    i: int,
)
    requires
        old(e).wf(),
        call_ensures(
            Engine::<S, G>::transition,
            (e, entity_id, machine, event, actor, ctx, expected_version, idempotency_key),
            r,
        ),
        after == *final(e),
        standing == (if old(e).model().entities.contains_key(entity_key(entity_id@, machine@)) {
            old(e).model().entities[entity_key(entity_id@, machine@)].current_state
        } else {
            def.initial_state
        }),
        actual == (if old(e).model().entities.contains_key(entity_key(entity_id@, machine@)) {
            old(e).model().entities[entity_key(entity_id@, machine@)].version
        } else {
            0
        }),
        !old(e).stopped(),
        idempotency_key matches Some(k) ==> !old(e).model().idempotency.contains_key(k@),
        old(e).model().machines.contains_key((machine@, def.version)),
        old(e).model().machines[(machine@, def.version)] == def,
        forall|v: u32| #[trigger]
            old(e).model().machines.contains_key((machine@, v)) ==> v <= def.version,
        0 <= i < def.transitions.len(),
        def.transitions[i].event == event@,
        def.transitions[i].from_states.contains(standing),
        forall|j: int|
            0 <= j < i ==> !((#[trigger] def.transitions[j]).event == event@
                && def.transitions[j].from_states.contains(standing)),
        expected_version matches Some(v) ==> v
            == actual,
        forall|k: int, state: EntityState|
            #![trigger call_ensures(old(e).guard_map()[def.transitions[i].guards[k]], (&state,
                &ctx), false)]
            0 <= k < def.transitions[i].guards.len() && old(e).guard_map().contains_key(
                def.transitions[i].guards[k],
            ) ==> !call_ensures(
                old(e).guard_map()[def.transitions[i].guards[k]],
                (&state, &ctx),
                false,
            ),
    ensures
        r is Ok || (r->Err_0@ matches EngineErrorView::Storage(x) && (x is TransactionFailed
            || x is Corrupted
            || x is Io || x is Internal)),
{
    let m0 = old(e).model();
    old(e).law_store_is_in_order();
    let req = RequestView {
        entity_id: entity_id@,
        machine: machine@,
        event: event@,
        actor: actor@,
        ctx,
        expected_version,
        idempotency_key: opt_text(idempotency_key),
    };
    assert(standing == state_in(m0, def, req.key()));
    assert(rule_answers(def.transitions[i], standing, req.event));
    assert forall|j: int| 0 <= j < i implies !rule_answers(
        #[trigger] def.transitions[j],
        standing,
        req.event,
    ) by {}
    assert(is_planned(def, standing, req.event, i));
    lemma_planned_unique(def, standing, req.event, i);
    assert(m0.finds_machine(machine@, None, def));
    if r is Err {
        if let EngineErrorView::Core(c) = r->Err_0@ {
            let d = choose|d: MachineView| #[trigger] refused(m0, old(e).guard_map(), d, req, c);
            law_latest_definition_is_unique(m0, machine@, def, d);
            assert(refusal(m0, def, req) is None);
            let names = planned_rule(def, standing, req.event).guards;
            let verdict = Some(c->guard_name);
            let (state, results) = choose|state: EntityState, results: Map<Seq<char>,
                bool>| #[trigger]
                guards_said(old(e).guard_map(), names, state, req.ctx, results) && shown_to_guards(
                    m0,
                    def,
                    req,
                    state,
                ) && verdict == failed_guard(names, results, names.len());
            law_guards_pass_together(names, results);
            let k = choose|k: int| 0 <= k < names.len() && names[k] == c->guard_name;
            assert(guard_says(old(e).guard_map(), names[k], &state, &req.ctx, results[names[k]]));
            assert(false);
        }
    }
}

/// A request that expects another version than the entity has is refused with
/// both, and changes nothing, unless the store fails.
pub proof fn law_wrong_versions_are_refused<
    S: StorageEngine,
    G: Fn(&EntityState, &serde_json::Value) -> bool,
>(
    e: &mut Engine<S, G>,
    after: Engine<S, G>,
    entity_id: &str,
    machine: &str,
    event: &str,
    actor: &str,
    ctx: serde_json::Value,
    expected_version: Option<u64>,
    idempotency_key: Option<String>,
    r: Result<TransitionResult, EngineError>,
    def: MachineView,
    actual: u64,
)
    requires
        old(e).wf(),
        call_ensures(
            Engine::<S, G>::transition,
            (e, entity_id, machine, event, actor, ctx, expected_version, idempotency_key),
            r,
        ),
        after == *final(e),
        actual == (if old(e).model().entities.contains_key(entity_key(entity_id@, machine@)) {
            old(e).model().entities[entity_key(entity_id@, machine@)].version
        } else {
            0
        }),
        !old(e).stopped(),
        idempotency_key matches Some(k) ==> !old(e).model().idempotency.contains_key(k@),
        old(e).model().machines.contains_key((machine@, def.version)),
        old(e).model().machines[(machine@, def.version)] == def,
        forall|v: u32| #[trigger]
            old(e).model().machines.contains_key((machine@, v)) ==> v <= def.version,
        expected_version is Some,
        expected_version->0 != actual,
    ensures
        after.model() == old(e).model(),
        (r matches Err(x) && x@ == EngineErrorView::Core(
            CoreErrorView::VersionConflict {
                entity_id: entity_id@,
                machine: machine@,
                expected: expected_version->0,
                actual,
            },
        )) || (r is Err && (r->Err_0@ matches EngineErrorView::Storage(x)
            && (x is TransactionFailed || x is Corrupted
            || x is Io || x is Internal))),
{
    let m0 = old(e).model();
    old(e).law_store_is_in_order();
    let req = RequestView {
        entity_id: entity_id@,
        machine: machine@,
        event: event@,
        actor: actor@,
        ctx,
        expected_version,
        idempotency_key: opt_text(idempotency_key),
    };
    assert(m0.finds_machine(machine@, None, def));
    assert forall|d: MachineView| #[trigger] m0.finds_machine(machine@, None, d) implies d
        == def by {
        law_latest_definition_is_unique(m0, machine@, def, d);
    }
}

/// An event for which the machine has no rule in the state of the entity is
/// refused with that state, and changes nothing, unless the store fails.
pub proof fn law_events_without_a_rule_are_refused<
    S: StorageEngine,
    G: Fn(&EntityState, &serde_json::Value) -> bool,
>(
    e: &mut Engine<S, G>,
    after: Engine<S, G>,
    entity_id: &str,
    machine: &str,
    event: &str,
    actor: &str,
    ctx: serde_json::Value,
    expected_version: Option<u64>,
    idempotency_key: Option<String>,
    r: Result<TransitionResult, EngineError>,
    def: MachineView,
    standing: Seq<char>,
)
    requires
        old(e).wf(),
        call_ensures(
            Engine::<S, G>::transition,
            (e, entity_id, machine, event, actor, ctx, expected_version, idempotency_key),
            r,
        ),
        after == *final(e),
        standing == (if old(e).model().entities.contains_key(entity_key(entity_id@, machine@)) {
            old(e).model().entities[entity_key(entity_id@, machine@)].current_state
        } else {
            def.initial_state
        }),
        !old(e).stopped(),
        idempotency_key matches Some(k) ==> !old(e).model().idempotency.contains_key(k@),
        old(e).model().machines.contains_key((machine@, def.version)),
        old(e).model().machines[(machine@, def.version)] == def,
        forall|v: u32| #[trigger]
            old(e).model().machines.contains_key((machine@, v)) ==> v <= def.version,
        expected_version is None,
        forall|j: int|
            0 <= j < def.transitions.len() ==> !((#[trigger] def.transitions[j]).event == event@
                && def.transitions[j].from_states.contains(standing)),
    ensures
        after.model() == old(e).model(),
        (r matches Err(x) && x@ == EngineErrorView::Core(
            CoreErrorView::IllegalTransition {
                entity_id: entity_id@,
                machine: machine@,
                event: event@,
                current_state: standing,
            },
        )) || (r is Err && (r->Err_0@ matches EngineErrorView::Storage(x)
            && (x is TransactionFailed || x is Corrupted
            || x is Io || x is Internal))),
{
    let m0 = old(e).model();
    old(e).law_store_is_in_order();
    let req = RequestView {
        entity_id: entity_id@,
        machine: machine@,
        event: event@,
        actor: actor@,
        ctx,
        expected_version,
        idempotency_key: opt_text(idempotency_key),
    };
    assert(m0.finds_machine(machine@, None, def));
    assert forall|d: MachineView| #[trigger] m0.finds_machine(machine@, None, d) implies d
        == def by {
        law_latest_definition_is_unique(m0, machine@, def, d);
    }
    assert(standing == state_in(m0, def, req.key()));
    if has_plan(def, standing, event@) {
        let j = choose|j: int|
            0 <= j < def.transitions.len() && rule_answers(
                #[trigger] def.transitions[j],
                standing,
                event@,
            );
        assert(false);
    }
}

/// A guard of the rule that says no whatever it is asked keeps a request from
/// being carried out.
pub proof fn law_guards_can_veto<
    S: StorageEngine,
    G: Fn(&EntityState, &serde_json::Value) -> bool,
>(
    e: &mut Engine<S, G>,
    after: Engine<S, G>,
    entity_id: &str,
    machine: &str,
    event: &str,
    actor: &str,
    ctx: serde_json::Value,
    expected_version: Option<u64>,
    idempotency_key: Option<String>,
    r: Result<TransitionResult, EngineError>,
    def: MachineView,
    standing: Seq<char>,
    i: int,
    k: int,
)
    requires
        old(e).wf(),
        call_ensures(
            Engine::<S, G>::transition,
            (e, entity_id, machine, event, actor, ctx, expected_version, idempotency_key),
            r,
        ),
        after == *final(e),
        standing == (if old(e).model().entities.contains_key(entity_key(entity_id@, machine@)) {
            old(e).model().entities[entity_key(entity_id@, machine@)].current_state
        } else {
            def.initial_state
        }),
        idempotency_key matches Some(k) ==> !old(e).model().idempotency.contains_key(k@),
        old(e).model().machines.contains_key((machine@, def.version)),
        old(e).model().machines[(machine@, def.version)] == def,
        forall|v: u32| #[trigger]
            old(e).model().machines.contains_key((machine@, v)) ==> v <= def.version,
        0 <= i < def.transitions.len(),
        def.transitions[i].event == event@,
        def.transitions[i].from_states.contains(standing),
        forall|j: int|
            0 <= j < i ==> !((#[trigger] def.transitions[j]).event == event@
                && def.transitions[j].from_states.contains(standing)),
        0 <= k < def.transitions[i].guards.len(),
        old(e).guard_map().contains_key(def.transitions[i].guards[k]),
        forall|state: EntityState| !#[trigger]
            call_ensures(
                old(e).guard_map()[def.transitions[i].guards[k]],
                (&state, &ctx),
                true,
            ),
    ensures
        r is Err,
        after.model() == old(e).model(),
{
    let m0 = old(e).model();
    old(e).law_store_is_in_order();
    let req = RequestView {
        entity_id: entity_id@,
        machine: machine@,
        event: event@,
        actor: actor@,
        ctx,
        expected_version,
        idempotency_key: opt_text(idempotency_key),
    };
    assert(standing == state_in(m0, def, req.key()));
    assert forall|j: int| 0 <= j < i implies !rule_answers(
        #[trigger] def.transitions[j],
        standing,
        req.event,
    ) by {}
    assert(is_planned(def, standing, req.event, i));
    lemma_planned_unique(def, standing, req.event, i);
    assert(m0.finds_machine(machine@, None, def));
    assert forall|out: ResultView| !#[trigger]
        was_carried_out(m0, after.model(), old(e).guard_map(), req, out) by {
        if was_carried_out(m0, after.model(), old(e).guard_map(), req, out) {
            let d = choose|d: MachineView| #[trigger]
                carried_out(m0, after.model(), old(e).guard_map(), d, req, out);
            law_latest_definition_is_unique(m0, machine@, def, d);
            law_transition_moves_one_step(m0, after.model(), old(e).guard_map(), d, req, out);
            let state = law_every_guard_agreed(m0, after.model(), old(e).guard_map(), d, req, out);
            let names = planned_rule(d, out.from_state, req.event).guards;
            assert(guard_says(old(e).guard_map(), names[k], &state, &req.ctx, true));
        }
    }
}

/// Where no machine has the name, a request is refused and changes nothing.
pub proof fn law_unknown_machines_are_refused<
    S: StorageEngine,
    G: Fn(&EntityState, &serde_json::Value) -> bool,
>(
    e: &mut Engine<S, G>,
    after: Engine<S, G>,
    entity_id: &str,
    machine: &str,
    event: &str,
    actor: &str,
    ctx: serde_json::Value,
    expected_version: Option<u64>,
    idempotency_key: Option<String>,
    r: Result<TransitionResult, EngineError>,
)
    requires
        old(e).wf(),
        call_ensures(
            Engine::<S, G>::transition,
            (e, entity_id, machine, event, actor, ctx, expected_version, idempotency_key),
            r,
        ),
        after == *final(e),
        !old(e).stopped(),
        idempotency_key matches Some(k) ==> !old(e).model().idempotency.contains_key(k@),
        forall|v: u32| !#[trigger] old(e).model().machines.contains_key((machine@, v)),
    ensures
        after.model() == old(e).model(),
        (r matches Err(x) && x@ == EngineErrorView::Storage(
            StorageErrorView::NotFound("machine '"@ + machine@ + "'"@),
        )) || (r is Err && (r->Err_0@ matches EngineErrorView::Storage(x)
            && (x is TransactionFailed || x is Corrupted
            || x is Io || x is Internal))),
{
    let m0 = old(e).model();
    old(e).law_store_is_in_order();
    let req = RequestView {
        entity_id: entity_id@,
        machine: machine@,
        event: event@,
        actor: actor@,
        ctx,
        expected_version,
        idempotency_key: opt_text(idempotency_key),
    };
}

/// A request whose key a logged transition of the same entity, machine and event
/// has is answered as that one was, whatever else it asks, and changes nothing;
/// one whose key was used otherwise is refused; unless the store fails.
pub proof fn law_keys_make_repetitions_safe<
    S: StorageEngine,
    G: Fn(&EntityState, &serde_json::Value) -> bool,
>(
    e: &mut Engine<S, G>,
    after: Engine<S, G>,
    entity_id: &str,
    machine: &str,
    event: &str,
    actor: &str,
    ctx: serde_json::Value,
    expected_version: Option<u64>,
    idempotency_key: Option<String>,
    r: Result<TransitionResult, EngineError>,
    n: u64,
)
    requires
        old(e).wf(),
        call_ensures(
            Engine::<S, G>::transition,
            (e, entity_id, machine, event, actor, ctx, expected_version, idempotency_key),
            r,
        ),
        after == *final(e),
        !old(e).stopped(),
        idempotency_key matches Some(k) && old(e).model().idempotency.contains_key(k@)
            && old(e).model().idempotency[k@] == n,
        forall|x: StorageError, k: &str|
            k@ == idempotency_key->0@ ==> !#[trigger] call_ensures(
                S::check_idempotency,
                (&old(e).store(), k),
                Err::<Option<TransitionRecord>, StorageError>(x),
            ),
    ensures
        after.model() == old(e).model(),
        ({
            let logged = old(e).model().log[n];
            if logged.entity_id == entity_id@ && logged.machine == machine@ && logged.event
                == event@ {
                (r matches Ok(out) && out.entity_id@ == logged.entity_id && out.machine@
                    == logged.machine && out.from_state@ == logged.from_state && out.to_state@
                    == logged.to_state && out.version == logged.version && out.transition_id@
                    == logged.id && out.sequence == n && out.timestamp == logged.timestamp)
                        || (r is Err && (r->Err_0@ matches EngineErrorView::Storage(x)
                        && (x is TransactionFailed || x is Corrupted
            || x is Io || x is Internal)))
            } else {
                (r matches Err(x) && x@ == EngineErrorView::Storage(
                    StorageErrorView::AlreadyExists(
                        "idempotency key '"@ + idempotency_key->0@ + "'"@,
                    ),
                )) || (r->Err_0@ matches EngineErrorView::Storage(x) && (x is TransactionFailed
                    || x is Corrupted || x is Io || x is Internal) && r is Err)
            }
        }),
{
    let m0 = old(e).model();
    old(e).law_store_is_in_order();
    let req = RequestView {
        entity_id: entity_id@,
        machine: machine@,
        event: event@,
        actor: actor@,
        ctx,
        expected_version,
        idempotency_key: opt_text(idempotency_key),
    };
    let k = idempotency_key->0;
    assert(m0.log.contains_key(m0.idempotency[k@]));
    assert(m0.log[n].sequence == n);
    assert(!lookup_failed(&old(e).store(), req.idempotency_key));
}

/// An engine that is shutting down refuses every request and changes nothing.
pub proof fn law_a_stopped_engine_makes_no_transition<
    S: StorageEngine,
    G: Fn(&EntityState, &serde_json::Value) -> bool,
>(
    e: &mut Engine<S, G>,
    after: Engine<S, G>,
    entity_id: &str,
    machine: &str,
    event: &str,
    actor: &str,
    ctx: serde_json::Value,
    expected_version: Option<u64>,
    idempotency_key: Option<String>,
    r: Result<TransitionResult, EngineError>,
)
    requires
        old(e).wf(),
        call_ensures(
            Engine::<S, G>::transition,
            (e, entity_id, machine, event, actor, ctx, expected_version, idempotency_key),
            r,
        ),
        after == *final(e),
        old(e).stopped(),
    ensures
        r matches Err(x) && x@ is ShuttingDown,
        after.model() == old(e).model(),
{
}

/// A request that was carried out is logged as it was made.
pub(crate) proof fn lemma_carried_out_as_asked<G: Fn(&EntityState, &serde_json::Value) -> bool>(
    m0: StoreModel,
    m1: StoreModel,
    guards: Map<Seq<char>, G>,
    req: RequestView,
    out: ResultView,
)
    requires
        m0.wf(),
        was_carried_out(m0, m1, guards, req, out),
    ensures
        ({
            let key = entity_key(req.entity_id, req.machine);
            let entry = m1.log[out.sequence];
            &&& out.sequence == m0.sequence + 1 && m1.sequence == out.sequence
            &&& m1.log == m0.log.insert(out.sequence, entry)
            &&& entry.sequence == out.sequence && entry.id == out.transition_id
            &&& entry.entity_id == req.entity_id && entry.machine == req.machine
            &&& entry.event == req.event && entry.actor == req.actor
            &&& entry.ctx == json_view(req.ctx) && entry.idempotency_key == req.idempotency_key
            &&& entry.from_state == out.from_state && entry.to_state == out.to_state
            &&& entry.version == out.version && entry.timestamp == out.timestamp
            &&& out.entity_id == req.entity_id && out.machine == req.machine
            &&& out.version == 1 + (if m0.entities.contains_key(key) {
                m0.entities[key].version as int
            } else {
                0
            })
            &&& m0.entities.contains_key(key) ==> out.from_state == m0.entities[key].current_state
            &&& req.expected_version matches Some(v) ==> out.version == v + 1
            &&& m1.entities == m0.entities.insert(key, m1.entities[key])
            &&& m1.entities[key].current_state == out.to_state
            &&& m1.entities[key].version == out.version
            &&& m1.machines == m0.machines
        }),
{
    let def = choose|def: MachineView| #[trigger] carried_out(m0, m1, guards, def, req, out);
    law_transition_moves_one_step(m0, m1, guards, def, req, out);
    let (id, at, now, effects) = choose|
        id: Seq<char>,
        at: Timestamp,
        now: Timestamp,
        effects: Seq<EffectView>,
    | #[trigger] performed_as(m0, m1, def, req, out, id, at, now, effects);
    let from = state_in(m0, def, req.key());
    let to = planned_rule(def, from, req.event).to_state;
    let version = (version_in(m0, req.key()) + 1) as u64;
    let record = record_for(req, from, to, version, id, at);
    let entity = entity_for(m0, req, to, version, now);
    lemma_effects_touch_outbox_only(m0.with_record(record).with_entity(entity), effects);
}

/// What comes of a request that is carried out: the transition is logged under the
/// next number with all that was asked, at the version that was expected, and the
/// entity is where it led.
pub proof fn law_requests_are_logged_as_asked<
    S: StorageEngine,
    G: Fn(&EntityState, &serde_json::Value) -> bool,
>(
    storage: S,
    m1: StoreModel,
    guards: Map<Seq<char>, G>,
    stopped: bool,
    req: RequestView,
    out: ResultView,
)
    requires
        storage.model().wf(),
        came_of(storage, m1, guards, stopped, req, Ok(out)),
        req.idempotency_key matches Some(k) ==> !storage.model().idempotency.contains_key(k),
    ensures
        ({
            let m0 = storage.model();
            let key = entity_key(req.entity_id, req.machine);
            let entry = m1.log[out.sequence];
            &&& !stopped
            &&& out.sequence == m0.sequence + 1 && m1.sequence == out.sequence
            &&& m1.log == m0.log.insert(out.sequence, entry)
            &&& entry.sequence == out.sequence && entry.id == out.transition_id
            &&& entry.entity_id == req.entity_id && entry.machine == req.machine
            &&& entry.event == req.event && entry.actor == req.actor
            &&& entry.ctx == json_view(req.ctx) && entry.idempotency_key == req.idempotency_key
            &&& entry.from_state == out.from_state && entry.to_state == out.to_state
            &&& entry.version == out.version && entry.timestamp == out.timestamp
            &&& out.entity_id == req.entity_id && out.machine == req.machine
            &&& out.version == 1 + (if m0.entities.contains_key(key) {
                m0.entities[key].version as int
            } else {
                0
            })
            &&& m0.entities.contains_key(key) ==> out.from_state == m0.entities[key].current_state
            &&& req.expected_version matches Some(v) ==> out.version == v + 1
            &&& m1.entities == m0.entities.insert(key, m1.entities[key])
            &&& m1.entities[key].current_state == out.to_state
            &&& m1.entities[key].version == out.version
            &&& m1.machines == m0.machines
        }),
{
    lemma_carried_out_as_asked(storage.model(), m1, guards, req, out);
}

/// What comes of a request that expects another version than the entity has, where
/// its key was not used, its machine is known and the engine runs: it is refused
/// with both versions, and changes nothing, unless the store fails.
pub proof fn law_requests_heed_the_version<
    S: StorageEngine,
    G: Fn(&EntityState, &serde_json::Value) -> bool,
>(
    storage: S,
    m1: StoreModel,
    guards: Map<Seq<char>, G>,
    req: RequestView,
    r: Result<ResultView, EngineErrorView>,
    def: MachineView,
)
    requires
        storage.model().wf(),
        came_of(storage, m1, guards, false, req, r),
        req.idempotency_key matches Some(k) ==> !storage.model().idempotency.contains_key(k),
        storage.model().machines.contains_key((req.machine, def.version)),
        storage.model().machines[(req.machine, def.version)] == def,
        forall|v: u32| #[trigger]
            storage.model().machines.contains_key((req.machine, v)) ==> v <= def.version,
        ({
            let key = entity_key(req.entity_id, req.machine);
            req.expected_version is Some && req.expected_version->0 != (
            if storage.model().entities.contains_key(key) {
                storage.model().entities[key].version
            } else {
                0
            })
        }),
    ensures
        m1 == storage.model(),
        ({
            let key = entity_key(req.entity_id, req.machine);
            ||| r == Err::<ResultView, EngineErrorView>(
                EngineErrorView::Core(
                    CoreErrorView::VersionConflict {
                        entity_id: req.entity_id,
                        machine: req.machine,
                        expected: req.expected_version->0,
                        actual: if storage.model().entities.contains_key(key) {
                            storage.model().entities[key].version
                        } else {
                            0
                        },
                    },
                ),
            )
            ||| r matches Err(EngineErrorView::Storage(x)) && (x is TransactionFailed || x is
                Corrupted || x is Io || x is Internal) && store_failed(
                storage,
                req.entity_id,
                req.machine,
                req.event,
            )
        }),
{
    let m0 = storage.model();
    assert(m0.finds_machine(req.machine, None, def));
    assert forall|d: MachineView| #[trigger] m0.finds_machine(req.machine, None, d) implies d
        == def by {
        law_latest_definition_is_unique(m0, req.machine, def, d);
    }
    if r matches Err(EngineErrorView::Storage(x)) && x.is_fault() {
        lemma_store_failed(storage, req, r->Err_0->Storage_0);
    }
}

/// A request comes to nothing because of the store only where the store failed:
/// when it was asked for the entity or for the definition, or when it was handed
/// the transition that was asked for. The one exception is an entity whose version
/// is the last that there is.
pub proof fn law_transitions_fail_only_with_the_store<
    S: StorageEngine,
    G: Fn(&EntityState, &serde_json::Value) -> bool,
>(
    e: &mut Engine<S, G>,
    entity_id: &str,
    machine: &str,
    event: &str,
    actor: &str,
    ctx: serde_json::Value,
    expected_version: Option<u64>,
    idempotency_key: Option<String>,
    r: Result<TransitionResult, EngineError>,
    x: StorageErrorView,
)
    requires
        old(e).wf(),
        call_ensures(
            Engine::<S, G>::transition,
            (e, entity_id, machine, event, actor, ctx, expected_version, idempotency_key),
            r,
        ),
        r is Err,
        r->Err_0@ == EngineErrorView::Storage(x),
        x is TransactionFailed || x is Corrupted || x is Io || x is Internal,
    ensures
        ({
            let key = entity_key(entity_id@, machine@);
            ||| exists|i: &str, n: &str, f: StorageError|
                i@ == entity_id@ && n@ == machine@ && f@ == x && #[trigger] call_ensures(
                    S::get_entity_state,
                    (&old(e).store(), i, n),
                    Err::<EntityState, StorageError>(f),
                )
            ||| exists|n: &str, f: StorageError|
                n@ == machine@ && f@ == x && #[trigger] call_ensures(
                    S::get_machine,
                    (&old(e).store(), n, None::<u32>),
                    Err::<MachineDefinition, StorageError>(f),
                )
            ||| exists|
                s: &mut S,
                record: &mut TransitionRecord,
                state: &EntityState,
                effects: &Vec<Effect>,
                f: StorageError,
            |
                *s == old(e).store() && record.entity_id@ == entity_id@ && record.machine@
                    == machine@ && record.event@ == event@ && f@ == x && #[trigger] call_ensures(
                    S::execute_transition,
                    (s, record, state, effects),
                    Err::<u64, StorageError>(f),
                )
            ||| old(e).model().entities.contains_key(key) && old(e).model().entities[key].version
                == u64::MAX
        }),
{
    let storage = old(e).store();
    let req = RequestView {
        entity_id: entity_id@,
        machine: machine@,
        event: event@,
        actor: actor@,
        ctx,
        expected_version,
        idempotency_key: opt_text(idempotency_key),
    };
    assert(transition_failed(storage, req, x));
    if execution_failed(storage, req, x) {
        let (def, id, at, now) = choose|
            def: MachineView,
            id: Seq<char>,
            at: Timestamp,
            now: Timestamp,
        |
            storage.model().finds_machine(req.machine, None, def) && refusal(
                storage.model(),
                def,
                req,
            ) is None && #[trigger] handing_over_failed(storage, def, req, id, at, now, x);
        assert(handing_over_failed(storage, def, req, id, at, now, x));
    }
}

/// What comes of a request that the latest definition has a rule for, at the version
/// that it expects if it expects one, with a key that was not used, where none of the
/// rule's guards is registered and the engine runs: it is carried out, unless the
/// store fails.
pub proof fn law_allowed_requests_are_carried_out<
    S: StorageEngine,
    G: Fn(&EntityState, &serde_json::Value) -> bool,
>(
    storage: S,
    m1: StoreModel,
    guards: Map<Seq<char>, G>,
    req: RequestView,
    r: Result<ResultView, EngineErrorView>,
    def: MachineView,
    standing: Seq<char>,
    i: int,
)
    requires
        storage.model().wf(),
        came_of(storage, m1, guards, false, req, r),
        req.idempotency_key matches Some(k) ==> !storage.model().idempotency.contains_key(k),
        storage.model().machines.contains_key((req.machine, def.version)),
        storage.model().machines[(req.machine, def.version)] == def,
        forall|v: u32| #[trigger]
            storage.model().machines.contains_key((req.machine, v)) ==> v <= def.version,
        ({
            let entities = storage.model().entities;
            let key = entity_key(req.entity_id, req.machine);
            &&& standing == (if entities.contains_key(key) {
                entities[key].current_state
            } else {
                def.initial_state
            })
            &&& req.expected_version matches Some(v) ==> v == (if entities.contains_key(key) {
                entities[key].version
            } else {
                0
            })
        }),
        0 <= i < def.transitions.len(),
        def.transitions[i].event == req.event,
        def.transitions[i].from_states.contains(standing),
        forall|j: int|
            0 <= j < i ==> !((#[trigger] def.transitions[j]).event == req.event
                && def.transitions[j].from_states.contains(standing)),
        forall|k: int|
            0 <= k < def.transitions[i].guards.len() ==> !guards.contains_key(
                #[trigger] def.transitions[i].guards[k],
            ),
    ensures
        r is Ok || (r->Err_0 is Storage && store_failed(
            storage,
            req.entity_id,
            req.machine,
            req.event,
        )),
        r matches Ok(out) ==> out.to_state == def.transitions[i].to_state,
{
    let m0 = storage.model();
    assert(standing == state_in(m0, def, req.key()));
    assert(rule_answers(def.transitions[i], standing, req.event));
    assert forall|j: int| 0 <= j < i implies !rule_answers(
        #[trigger] def.transitions[j],
        standing,
        req.event,
    ) by {}
    assert(is_planned(def, standing, req.event, i));
    lemma_planned_unique(def, standing, req.event, i);
    assert(m0.finds_machine(req.machine, None, def));
    if r is Ok {
        let d = choose|d: MachineView| #[trigger] carried_out(m0, m1, guards, d, req, r->Ok_0);
        law_latest_definition_is_unique(m0, req.machine, def, d);
        law_transition_moves_one_step(m0, m1, guards, def, req, r->Ok_0);
    } else if r->Err_0 is Core {
        let c = r->Err_0->Core_0;
        let d = choose|d: MachineView| #[trigger] refused(m0, guards, d, req, c);
        law_latest_definition_is_unique(m0, req.machine, def, d);
        assert(refusal(m0, def, req) is None);
        let names = planned_rule(def, standing, req.event).guards;
        let verdict = Some(c->guard_name);
        let (state, results) = choose|state: EntityState, results: Map<Seq<char>, bool>| #[trigger]
            guards_said(guards, names, state, req.ctx, results) && shown_to_guards(
                m0,
                def,
                req,
                state,
            ) && verdict == failed_guard(names, results, names.len());
        law_guards_pass_together(names, results);
        let k = choose|k: int| 0 <= k < names.len() && names[k] == c->guard_name;
        assert(guard_says(guards, names[k], &state, &req.ctx, results[names[k]]));
        assert(false);
    } else {
        assert forall|d: MachineView| #[trigger] m0.finds_machine(req.machine, None, d) implies d
            == def by {
            law_latest_definition_is_unique(m0, req.machine, def, d);
        }
        assert(r->Err_0 is Storage);
        lemma_store_failed(storage, req, r->Err_0->Storage_0);
    }
}

} // verus!
