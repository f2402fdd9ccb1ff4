//! What holds of the engine as a whole.
use crate::clock::Timestamp;
use crate::engine::delivery::keeps;
use crate::engine::error::EngineErrorView;
use crate::engine::guard::guard_says;
use crate::engine::outcome::{
    answered, carried_out, entity_for, guards_said, performed_as, record_for, result_of,
    shown_to_guards, state_in, version_in, was_repeated, RequestView, ResultView,
};
use crate::engine::stream::{drained, wanted, Drained, FilterView, SubscriberView};
use crate::fsm::error::CoreErrorView;
use crate::fsm::machine::MachineView;
use crate::fsm::planner::{
    failed_guard, has_plan, law_guards_pass_together, law_plan_stays_in_states, planned_rule,
};
use crate::fsm::record::{EffectView, EntityState};
use crate::storage::engine::key_label;
use crate::storage::error::StorageErrorView;
use crate::storage::model::{record_key, StoreModel};
use vstd::prelude::*;

verus! {

/// Effects touch nothing but the outbox.
pub proof fn lemma_effects_touch_outbox_only(m: StoreModel, s: Seq<EffectView>)
    ensures
        m.with_effects(s) == (StoreModel {
            effects: m.with_effects(s).effects,
            emitted: m.with_effects(s).emitted,
            ..m
        }),
    decreases s.len(),
{
    if s.len() > 0 {
        lemma_effects_touch_outbox_only(m, s.drop_last());
    }
}

/// A transition that was carried out moves the entity to the state that the
/// definition names and raises its version by one; the log gains exactly one
/// entry, under the next number, and loses none; no other entity changes.
pub proof fn law_transition_moves_one_step<G: Fn(&EntityState, &serde_json::Value) -> bool>(
    m0: StoreModel,
    m1: StoreModel,
    guards: Map<Seq<char>, G>,
    def: MachineView,
    req: RequestView,
    out: ResultView,
)
    requires
        m0.wf(),
        carried_out(m0, m1, guards, def, req, out),
    ensures
        m1.entities.contains_key(req.key()),
        m1.entities[req.key()].current_state == planned_rule(
            def,
            state_in(m0, def, req.key()),
            req.event,
        ).to_state,
        m1.entities[req.key()].version == version_in(m0, req.key()) + 1,
        forall|k: Seq<char>|
            #![trigger m1.entities[k]]
            k != req.key() ==> (m1.entities.contains_key(k) <==> m0.entities.contains_key(k))
                && m1.entities[k] == m0.entities[k],
        m1.sequence == m0.sequence + 1,
        m1.log.dom() == m0.log.dom().insert(m1.sequence),
        forall|n: u64| m0.log.contains_key(n) ==> #[trigger] m1.log[n] == m0.log[n],
        m1.machines == m0.machines,
        out == result_of(m1.log[m1.sequence]),
        out.sequence == m1.sequence,
        out.version == m1.entities[req.key()].version,
        out.to_state == m1.entities[req.key()].current_state,
        out.from_state == state_in(m0, def, req.key()),
        out.entity_id == req.entity_id && out.machine == req.machine,
{
    let (id, at, now, effects) = choose|
        id: Seq<char>,
        at: Timestamp,
        now: Timestamp,
        effects: Seq<EffectView>,
    | #[trigger] performed_as(m0, m1, def, req, out, id, at, now, effects);
    let from = state_in(m0, def, req.key());
    let to = planned_rule(def, from, req.event).to_state;
    let version = (version_in(m0, req.key()) + 1) as u64;
    let record = record_for(req, from, to, version, id, at);
    let entity = entity_for(m0, req, to, version, now);
    let base = m0.with_record(record).with_entity(entity);
    lemma_effects_touch_outbox_only(base, effects);
    assert(!m0.log.contains_key(m1.sequence));
    assert(m1.log.dom() =~= m0.log.dom().insert(m1.sequence));
    assert forall|n: u64| m0.log.contains_key(n) implies #[trigger] m1.log[n] == m0.log[n] by {
        assert(n <= m0.sequence);
    }
}

/// In a valid machine a transition leaves an entity in a state that the machine
/// lists.
pub proof fn law_transition_stays_in_machine<G: Fn(&EntityState, &serde_json::Value) -> bool>(
    m0: StoreModel,
    m1: StoreModel,
    guards: Map<Seq<char>, G>,
    def: MachineView,
    req: RequestView,
    out: ResultView,
)
    requires
        m0.wf(),
        def.well_formed(),
        carried_out(m0, m1, guards, def, req, out),
    ensures
        def.states.contains(out.from_state),
        def.states.contains(out.to_state),
        def.states.contains(m1.entities[req.key()].current_state),
{
    law_transition_moves_one_step(m0, m1, guards, def, req, out);
    law_plan_stays_in_states(def, state_in(m0, def, req.key()), req.event);
}

/// A transition is made only at the version that the request expects, where it
/// expects one, and only where the machine has a rule for it.
pub proof fn law_expected_version_is_met<G: Fn(&EntityState, &serde_json::Value) -> bool>(
    m0: StoreModel,
    m1: StoreModel,
    guards: Map<Seq<char>, G>,
    def: MachineView,
    req: RequestView,
    out: ResultView,
)
    requires
        m0.wf(),
        carried_out(m0, m1, guards, def, req, out),
    ensures
        req.expected_version matches Some(v) ==> version_in(m0, req.key()) == v && out.version == v
            + 1,
        has_plan(def, out.from_state, req.event),
{
    law_transition_moves_one_step(m0, m1, guards, def, req, out);
}

/// Of two requests that expect the same version of an entity, at most one is
/// carried out: once the first is, the second is refused for its version, unless
/// it repeats an earlier one by its key or the store fails.
pub proof fn law_one_of_two_writers_wins<G: Fn(&EntityState, &serde_json::Value) -> bool>(
    m0: StoreModel,
    m1: StoreModel,
    m2: StoreModel,
    guards: Map<Seq<char>, G>,
    def: MachineView,
    first: RequestView,
    out: ResultView,
    second: RequestView,
    r: Result<ResultView, EngineErrorView>,
)
    requires
        m0.wf(),
        carried_out(m0, m1, guards, def, first, out),
        first.expected_version is Some,
        second.expected_version == first.expected_version,
        second.entity_id == first.entity_id,
        second.machine == first.machine,
        second.is_new(m1),
        answered(m1, m2, guards, false, second, r),
        r is Err ==> !r->Err_0.is_fault(),
    ensures
        m2 == m1,
        r == Err::<ResultView, EngineErrorView>(
            EngineErrorView::Core(
                CoreErrorView::VersionConflict {
                    entity_id: second.entity_id,
                    machine: second.machine,
                    expected: second.expected_version->0,
                    actual: out.version,
                },
            ),
        ),
{
    law_expected_version_is_met(m0, m1, guards, def, first, out);
    law_transition_moves_one_step(m0, m1, guards, def, first, out);
    assert(m1.finds_machine(second.machine, None, def));
}

/// A transition is made only where every guard of its rule agreed to it, asked
/// about the entity as it was.
pub proof fn law_every_guard_agreed<G: Fn(&EntityState, &serde_json::Value) -> bool>(
    m0: StoreModel,
    m1: StoreModel,
    guards: Map<Seq<char>, G>,
    def: MachineView,
    req: RequestView,
    out: ResultView,
) -> (state: EntityState)
    requires
        m0.wf(),
        carried_out(m0, m1, guards, def, req, out),
    ensures
        shown_to_guards(m0, def, req, state),
        forall|i: int|
            0 <= i < planned_rule(def, out.from_state, req.event).guards.len() ==> guard_says(
                guards,
                #[trigger] planned_rule(def, out.from_state, req.event).guards[i],
                &state,
                &req.ctx,
                true,
            ),
{
    law_transition_moves_one_step(m0, m1, guards, def, req, out);
    let names = planned_rule(def, out.from_state, req.event).guards;
    let (state, results) = choose|state: EntityState, results: Map<Seq<char>, bool>| #[trigger]
        guards_said(guards, names, state, req.ctx, results) && shown_to_guards(m0, def, req, state)
            && None::<Seq<char>> == failed_guard(names, results, names.len());
    law_guards_pass_together(names, results);
    state
}

/// The time of creation of an entity never changes.
pub proof fn law_creation_time_is_kept<G: Fn(&EntityState, &serde_json::Value) -> bool>(
    m0: StoreModel,
    m1: StoreModel,
    guards: Map<Seq<char>, G>,
    def: MachineView,
    req: RequestView,
    out: ResultView,
)
    requires
        m0.entities.contains_key(req.key()),
        carried_out(m0, m1, guards, def, req, out),
    ensures
        m1.entities[req.key()].created_at == m0.entities[req.key()].created_at,
{
    let (id, at, now, effects) = choose|
        id: Seq<char>,
        at: Timestamp,
        now: Timestamp,
        effects: Seq<EffectView>,
    | #[trigger] performed_as(m0, m1, def, req, out, id, at, now, effects);
    let from = state_in(m0, def, req.key());
    let to = planned_rule(def, from, req.event).to_state;
    let version = (version_in(m0, req.key()) + 1) as u64;
    let record = record_for(req, from, to, version, id, at);
    let entity = entity_for(m0, req, to, version, now);
    lemma_effects_touch_outbox_only(m0.with_record(record).with_entity(entity), effects);
}

/// A request that was carried out under an idempotency key is answered the same
/// when it is made again, whatever version it expects by then.
pub proof fn law_repeat_is_answered_alike<G: Fn(&EntityState, &serde_json::Value) -> bool>(
    m0: StoreModel,
    m1: StoreModel,
    guards: Map<Seq<char>, G>,
    def: MachineView,
    req: RequestView,
    out: ResultView,
    again: RequestView,
)
    requires
        m0.wf(),
        carried_out(m0, m1, guards, def, req, out),
        req.idempotency_key is Some,
        again.idempotency_key == req.idempotency_key,
        again.entity_id == req.entity_id,
        again.machine == req.machine,
        again.event == req.event,
    ensures
        was_repeated(m1, again, out),
{
    law_transition_moves_one_step(m0, m1, guards, def, req, out);
    let (id, at, now, effects) = choose|
        id: Seq<char>,
        at: Timestamp,
        now: Timestamp,
        effects: Seq<EffectView>,
    | #[trigger] performed_as(m0, m1, def, req, out, id, at, now, effects);
    let from = state_in(m0, def, req.key());
    let to = planned_rule(def, from, req.event).to_state;
    let version = (version_in(m0, req.key()) + 1) as u64;
    let record = record_for(req, from, to, version, id, at);
    let entity = entity_for(m0, req, to, version, now);
    lemma_effects_touch_outbox_only(m0.with_record(record).with_entity(entity), effects);
}

/// While the store works and the engine runs, a request that was carried out
/// under an idempotency key gets the first answer whenever it is made again,
/// whatever else was asked for in between.
pub proof fn law_retry_gets_the_first_answer<G: Fn(&EntityState, &serde_json::Value) -> bool>(
    m0: StoreModel,
    m1: StoreModel,
    m2: StoreModel,
    m3: StoreModel,
    guards: Map<Seq<char>, G>,
    def: MachineView,
    req: RequestView,
    out: ResultView,
    later_guards: Map<Seq<char>, G>,
    again: RequestView,
    r: Result<ResultView, EngineErrorView>,
)
    requires
        m0.wf(),
        carried_out(m0, m1, guards, def, req, out),
        m1.wf(),
        keeps(m1, m2),
        req.idempotency_key is Some,
        again.idempotency_key == req.idempotency_key,
        again.entity_id == req.entity_id,
        again.machine == req.machine,
        again.event == req.event,
        answered(m2, m3, later_guards, false, again, r),
        r is Err ==> !r->Err_0.is_fault(),
    ensures
        r == Ok::<ResultView, EngineErrorView>(out),
        m3 == m2,
{
    law_repeat_is_answered_alike(m0, m1, guards, def, req, out, again);
    let key = req.idempotency_key->0;
    assert(m1.idempotency.contains_key(key));
    assert(m1.log.contains_key(m1.idempotency[key]));
    assert(m2.keyed(key) == m1.keyed(key));
}

/// A key that was used for something else is refused as a duplicate.
pub proof fn law_key_is_not_reused<G: Fn(&EntityState, &serde_json::Value) -> bool>(
    m0: StoreModel,
    m1: StoreModel,
    guards: Map<Seq<char>, G>,
    req: RequestView,
    r: Result<ResultView, EngineErrorView>,
)
    requires
        !req.is_new(m0),
        !req.repeats(m0.keyed(req.idempotency_key->0)->0),
        answered(m0, m1, guards, false, req, r),
        r is Err ==> !r->Err_0.is_fault(),
    ensures
        m1 == m0,
        r == Err::<ResultView, EngineErrorView>(
            EngineErrorView::Storage(
                StorageErrorView::AlreadyExists(key_label(req.idempotency_key->0)),
            ),
        ),
{
}

/// Where a key was used before, no request with that key changes the store.
pub proof fn law_used_key_changes_nothing<G: Fn(&EntityState, &serde_json::Value) -> bool>(
    m0: StoreModel,
    m1: StoreModel,
    guards: Map<Seq<char>, G>,
    stopped: bool,
    req: RequestView,
    r: Result<ResultView, EngineErrorView>,
)
    requires
        answered(m0, m1, guards, stopped, req, r),
        req.idempotency_key is Some,
        m0.keyed(req.idempotency_key->0) is Some,
    ensures
        m1 == m0,
        r matches Ok(out) ==> was_repeated(m0, req, out),
{
}

/// A request that is refused leaves the store as it was.
pub proof fn law_refusal_changes_nothing<G: Fn(&EntityState, &serde_json::Value) -> bool>(
    m0: StoreModel,
    m1: StoreModel,
    guards: Map<Seq<char>, G>,
    stopped: bool,
    req: RequestView,
    r: Result<ResultView, EngineErrorView>,
)
    requires
        answered(m0, m1, guards, stopped, req, r),
        r matches Err(e) && !e.is_fault(),
    ensures
        m1 == m0,
{
}

/// An engine that is shutting down makes no transition.
pub proof fn law_stopped_engine_refuses<G: Fn(&EntityState, &serde_json::Value) -> bool>(
    m0: StoreModel,
    m1: StoreModel,
    guards: Map<Seq<char>, G>,
    req: RequestView,
    r: Result<ResultView, EngineErrorView>,
)
    requires
        answered(m0, m1, guards, true, req, r),
    ensures
        r == Err::<ResultView, EngineErrorView>(EngineErrorView::ShuttingDown),
        m1 == m0,
{
}

/// Whether two logs have the same entry, or none, under a number.
spec fn same_entry(m0: StoreModel, m1: StoreModel, n: u64) -> bool {
    (m1.log.contains_key(n) <==> m0.log.contains_key(n)) && m1.log[n] == m0.log[n]
}

proof fn lemma_numbers_only_grow(m0: StoreModel, m1: StoreModel, key: Seq<char>, after: u64, upto: u64)
    requires
        upto <= m0.sequence,
        forall|n: u64| n <= m0.sequence ==> #[trigger] same_entry(m0, m1, n),
    ensures
        m1.numbers_of(key, after, upto) == m0.numbers_of(key, after, upto),
    decreases upto,
{
    if upto > after {
        lemma_numbers_only_grow(m0, m1, key, after, (upto - 1) as u64);
        assert(same_entry(m0, m1, upto));
    }
}

/// A transition appends itself to the history of its entity, and to no other.
pub proof fn law_history_grows_by_the_transition<
    G: Fn(&EntityState, &serde_json::Value) -> bool,
>(
    m0: StoreModel,
    m1: StoreModel,
    guards: Map<Seq<char>, G>,
    def: MachineView,
    req: RequestView,
    out: ResultView,
    entity_id: Seq<char>,
    machine: Seq<char>,
)
    requires
        m0.wf(),
        carried_out(m0, m1, guards, def, req, out),
    ensures
        ({
            let h0 = m0.history(entity_id, machine, None, None);
            let h1 = m1.history(entity_id, machine, None, None);
            if crate::storage::model::entity_key(entity_id, machine) == req.key() {
                h1 == h0.push(m1.log[m1.sequence])
            } else {
                h1 == h0
            }
        }),
{
    law_transition_moves_one_step(m0, m1, guards, def, req, out);
    let key = crate::storage::model::entity_key(entity_id, machine);
    assert forall|n: u64| n <= m0.sequence implies #[trigger] same_entry(m0, m1, n) by {
        if m0.log.contains_key(n) {
        } else {
            assert(n == 0);
            assert(n != m1.sequence);
            lemma_log_elsewhere(m0, m1, guards, def, req, out, n);
        }
    }
    lemma_numbers_only_grow(m0, m1, key, 0, m0.sequence);
    let n0 = m0.numbers_of(key, 0, m0.sequence);
    let n1 = m1.numbers_of(key, 0, m1.sequence);
    lemma_numbers_bounded(m0, key, 0, m0.sequence);
    assert(record_key(m1.log[m1.sequence]) == req.key()) by {
        lemma_new_entry_key(m0, m1, guards, def, req, out);
    }
    let h0 = m0.history(entity_id, machine, None, None);
    let h1 = m1.history(entity_id, machine, None, None);
    assert(m1.log.contains_key(m1.sequence));
    assert forall|i: int| 0 <= i < n0.len() implies m1.log[#[trigger] n0[i]] == m0.log[n0[i]] by {
        assert(same_entry(m0, m1, n0[i]));
    }
    if key == req.key() {
        assert(n1 == n0.push(m1.sequence));
        assert(h1 =~= h0.push(m1.log[m1.sequence]));
    } else {
        assert(n1 == n0);
        assert(h1 =~= h0);
    }
}

proof fn lemma_numbers_bounded(m: StoreModel, key: Seq<char>, after: u64, upto: u64)
    ensures
        forall|i: int|
            0 <= i < m.numbers_of(key, after, upto).len() ==> #[trigger] m.numbers_of(
                key,
                after,
                upto,
            )[i] <= upto,
    decreases upto,
{
    if upto > after {
        lemma_numbers_bounded(m, key, after, (upto - 1) as u64);
        let rest = m.numbers_of(key, after, (upto - 1) as u64);
        let all = m.numbers_of(key, after, upto);
        assert forall|i: int| 0 <= i < all.len() implies #[trigger] all[i] <= upto by {
            if i < rest.len() {
                assert(all[i] == rest[i]);
            }
        }
    }
}

proof fn lemma_log_elsewhere<G: Fn(&EntityState, &serde_json::Value) -> bool>(
    m0: StoreModel,
    m1: StoreModel,
    guards: Map<Seq<char>, G>,
    def: MachineView,
    req: RequestView,
    out: ResultView,
    n: u64,
)
    requires
        carried_out(m0, m1, guards, def, req, out),
        n != m1.sequence,
    ensures
        m1.log[n] == m0.log[n],
        m1.log.contains_key(n) <==> m0.log.contains_key(n),
{
    let (id, at, now, effects) = choose|
        id: Seq<char>,
        at: Timestamp,
        now: Timestamp,
        effects: Seq<EffectView>,
    | #[trigger] performed_as(m0, m1, def, req, out, id, at, now, effects);
    let from = state_in(m0, def, req.key());
    let to = planned_rule(def, from, req.event).to_state;
    let version = (version_in(m0, req.key()) + 1) as u64;
    let record = record_for(req, from, to, version, id, at);
    let entity = entity_for(m0, req, to, version, now);
    lemma_effects_touch_outbox_only(m0.with_record(record).with_entity(entity), effects);
}

proof fn lemma_new_entry_key<G: Fn(&EntityState, &serde_json::Value) -> bool>(
    m0: StoreModel,
    m1: StoreModel,
    guards: Map<Seq<char>, G>,
    def: MachineView,
    req: RequestView,
    out: ResultView,
)
    requires
        carried_out(m0, m1, guards, def, req, out),
    ensures
        record_key(m1.log[m1.sequence]) == req.key(),
{
    let (id, at, now, effects) = choose|
        id: Seq<char>,
        at: Timestamp,
        now: Timestamp,
        effects: Seq<EffectView>,
    | #[trigger] performed_as(m0, m1, def, req, out, id, at, now, effects);
    let from = state_in(m0, def, req.key());
    let to = planned_rule(def, from, req.event).to_state;
    let version = (version_in(m0, req.key()) + 1) as u64;
    let record = record_for(req, from, to, version, id, at);
    let entity = entity_for(m0, req, to, version, now);
    lemma_effects_touch_outbox_only(m0.with_record(record).with_entity(entity), effects);
}

/// The sequence numbers that a subscriber gets are ascending, lie behind its
/// cursor, and miss none that it wants.
pub proof fn law_delivery_is_ordered_and_complete(
    m: StoreModel,
    f: FilterView,
    after: u64,
    upto: u64,
)
    ensures
        ({
            let s = wanted(m, f, after, upto);
            &&& forall|i: int, j: int| 0 <= i < j < s.len() ==> s[i] < s[j]
            &&& forall|n: u64| #[trigger]
                s.contains(n) <==> after < n <= upto && f.wants(m.log[n])
        }),
    decreases upto,
{
    let s = wanted(m, f, after, upto);
    if upto > after {
        let below = (upto - 1) as u64;
        law_delivery_is_ordered_and_complete(m, f, after, below);
        let rest = wanted(m, f, after, below);
        assert forall|i: int, j: int| 0 <= i < j < s.len() implies s[i] < s[j] by {
            assert(s[i] == rest[i]);
            if j < rest.len() {
                assert(s[j] == rest[j]);
            } else {
                assert(rest.contains(rest[i]));
            }
        }
        assert forall|n: u64| #[trigger] s.contains(n) <==> after < n <= upto && f.wants(
            m.log[n],
        ) by {
            if s.contains(n) {
                let i = choose|i: int| 0 <= i < s.len() && s[i] == n;
                if i < rest.len() {
                    assert(rest[i] == n);
                    assert(rest.contains(n));
                }
            }
            if after < n <= below && f.wants(m.log[n]) {
                assert(rest.contains(n));
                let i = choose|i: int| 0 <= i < rest.len() && rest[i] == n;
                assert(s[i] == n);
            }
            if n == upto && f.wants(m.log[n]) {
                assert(s[rest.len() as int] == n);
            }
        }
    }
}

/// A subscriber without filters gets every transition behind its cursor.
pub proof fn law_no_filter_gets_all(m: StoreModel, after: u64, upto: u64)
    requires
        after <= upto,
    ensures
        wanted(m, FilterView { machine: None, entity: None }, after, upto) == Seq::new(
            (upto - after) as nat,
            |i: int| (after + 1 + i) as u64,
        ),
    decreases upto,
{
    let f = FilterView { machine: None, entity: None };
    let all = Seq::new((upto - after) as nat, |i: int| (after + 1 + i) as u64);
    if upto > after {
        law_no_filter_gets_all(m, after, (upto - 1) as u64);
    }
    assert(wanted(m, f, after, upto) =~= all);
}

/// What was delivered once is not delivered again: a subscriber that was served
/// to the end of the log gets nothing more from the same log.
pub proof fn law_nothing_is_delivered_twice(
    m: StoreModel,
    before: SubscriberView,
    between: SubscriberView,
    after: SubscriberView,
    first: Drained,
    second: Drained,
)
    requires
        drained(m, before, between, first),
        first.complete,
        drained(m, between, after, second),
    ensures
        second.delivered == 0,
        !second.dead,
        after == between,
{
    if second.dead {
        assert(after.cursor <= m.sequence);
    }
    assert(after.cursor == between.cursor);
    assert(wanted(m, between.filter, between.cursor, after.cursor).len() == 0);
    assert(after.sent =~= between.sent) by {
        assert(between.sent =~= after.sent.take(between.sent.len() as int));
    }
}

/// Two rounds of delivery over a growing log send what one round over the grown
/// log would have sent: nothing is lost between them.
pub proof fn law_rounds_leave_no_gap(
    m: StoreModel,
    f: FilterView,
    a: u64,
    b: u64,
    c: u64,
)
    requires
        a <= b <= c,
    ensures
        wanted(m, f, a, c) == wanted(m, f, a, b) + wanted(m, f, b, c),
    decreases c,
{
    if b < c {
        law_rounds_leave_no_gap(m, f, a, b, (c - 1) as u64);
        assert(wanted(m, f, a, c) =~= wanted(m, f, a, b) + wanted(m, f, b, c));
    } else {
        assert(wanted(m, f, a, c) =~= wanted(m, f, a, b) + wanted(m, f, b, c));
    }
}

} // verus!
