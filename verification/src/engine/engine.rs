//! The engine itself.
use crate::clock::{now, Timestamp};
use crate::engine::config::EngineConfig;
use crate::engine::define::{same_content, same_definition};
use crate::engine::error::{EngineError, EngineErrorView};
use crate::engine::guard::{all_answer, answers_all, guard_says, GuardRegistry};
use crate::engine::outcome::{
    came_of, carried_out, definition_failed, emits, entity_failed, entity_for, guards_ruled,
    guards_said, handing_over_failed, history_failed, lookup_failed, machines_failed, performed_as,
    record_for, refused, result_of, shown_to_guards, standing_failed, stands, state_in,
    storing_failed, version_in, was_carried_out, was_refused, was_repeated, RequestView, ResultView,
    TransitionResult,
};
use crate::engine::stream::{
    channel, channel_to, drained, sent, served_by, Drained, FilterView, Subscriber, SubscriberView,
};
use crate::fsm::error::CoreError;
use crate::fsm::machine::{MachineDefinition, MachineView, TransitionRule};
use crate::fsm::planner::{effect_ref_views, effects_on, failed_guard, planned_rule, FsmPlanner};
use crate::fsm::record::{
    effect_views, record_views, ChangeRecord, Effect, EffectStatus, EffectView, EntityState,
    TransitionRecord,
};
use crate::id::is_uuid4;
use crate::json::{null, Json};
use crate::names::NameMap;
use crate::storage::engine::{
    entity_label, execute_conflict, kept, key_label, machine_label, with_status, StorageEngine,
};
use crate::storage::error::{StorageError, StorageErrorView};
use crate::storage::model::{entity_key, StoreModel};
use crate::text::{contains_text, opt_text, texts};
use vstd::prelude::*;

verus! {

/// The engine: a store, the guards, and the subscribers.
pub struct Engine<S, G> {
    storage: S,
    guards: GuardRegistry<G>,
    subscribers: Vec<Subscriber>,
    max_subscribers: usize,
    shutting_down: bool,
}

/// What the engine knows of an entity before a transition.
struct Standing {
    state: String,
    version: u64,
    created_at: Timestamp,
}

/// The answer to a request under a key that a stored transition has: the one
/// that the transition got, or `AlreadyExists` where the transition did
/// something else.
pub fn replay_of(
    existing: &TransitionRecord,
    key: &str,
    entity_id: &str,
    machine: &str,
    event: &str,
) -> (r: Result<TransitionResult, EngineError>)
    ensures
        ({
            let repeats = existing@.entity_id == entity_id@ && existing@.machine == machine@
                && existing@.event == event@;
            match r {
                Ok(out) => repeats && out@ == result_of(existing@),
                Err(e) => !repeats && e@ == EngineErrorView::Storage(
                    StorageErrorView::AlreadyExists(key_label(key@)),
                ),
            }
        }),
{
    if *existing.entity_id.as_str() == *entity_id && *existing.machine.as_str() == *machine
        && *existing.event.as_str() == *event {
        Ok(TransitionResult::of_record(existing))
    } else {
        Err(
            EngineError::Storage(
                StorageError::AlreadyExists(
                    "idempotency key '".to_owned().concat(key).concat("'"),
                ),
            ),
        )
    }
}

/// The effects that a transition on `event` emits.
fn build_effects(definition: &MachineDefinition, event: &str, transition_id: &str) -> (r: Vec<
    Effect,
>)
    ensures
        emits(definition@, event@, transition_id@, effect_views(r@)),
{
    let rules = FsmPlanner::compute_effects(definition, event);
    let ghost views = effects_on(definition@, event@);
    assert(effect_ref_views(rules@).len() == rules.len());
    let mut r: Vec<Effect> = Vec::new();
    let mut i: usize = 0;
    while i < rules.len()
        invariant
            i <= rules.len(),
            views == effect_ref_views(rules@),
            r.len() == i,
            forall|j: int|
                #![trigger r[j]]
                0 <= j < i ==> {
                    let e = r[j]@;
                    &&& e.transition_id == transition_id@
                    &&& e.effect_name == views[j].effect
                    &&& e.payload == (match views[j].payload {
                        Some(p) => p,
                        None => Json::Null,
                    })
                    &&& e.status == EffectStatus::Pending
                    &&& is_uuid4(e.id)
                },
        decreases rules.len() - i,
    {
        let rule = rules[i];
        assert(views[i as int] == rule@);
        let payload = match &rule.payload {
            Some(p) => p.clone(),
            None => null(),
        };
        r.push(Effect::new(transition_id.to_owned(), rule.effect.clone(), payload));
        i = i + 1;
    }
    assert forall|j: int| 0 <= j < effect_views(r@).len() implies (#[trigger] effect_views(
        r@,
    )[j]).transition_id == transition_id@ by {
        assert(effect_views(r@)[j] == r[j]@);
    }
    r
}

impl<S: StorageEngine, G: Fn(&EntityState, &serde_json::Value) -> bool> Engine<S, G> {
    /// What the store holds.
    pub open spec fn model(&self) -> StoreModel {
        self.store().model()
    }

    /// The store.
    pub closed spec fn store(&self) -> S {
        self.storage
    }

    /// The registered guards.
    pub closed spec fn guard_map(&self) -> Map<Seq<char>, G> {
        self.guards@
    }

    /// The subscribers, oldest first.
    pub closed spec fn subscribed(&self) -> Seq<SubscriberView> {
        Seq::new(self.subscribers@.len(), |i: int| self.subscribers@[i]@)
    }

    /// How many subscribers there may be.
    pub closed spec fn subscriber_limit(&self) -> usize {
        self.max_subscribers
    }

    /// Whether the engine takes no more requests.
    pub closed spec fn stopped(&self) -> bool {
        self.shutting_down
    }

    /// Whether the engine is in order.
    pub closed spec fn wf(&self) -> bool {
        &&& self.storage.wf()
        &&& all_answer(self.guards@)
        &&& self.subscribers@.len() <= self.max_subscribers
    }

    /// The store of an engine in order is in order.
    pub proof fn law_store_is_in_order(&self)
        requires
            self.wf(),
        ensures
            self.model().wf(),
            self.subscribed().len() <= self.subscriber_limit(),
    {
        self.storage.lemma_wf();
    }

    /// An engine over a store, with the default limit on subscribers.
    pub fn new(storage: S) -> (r: Self)
        requires
            storage.wf(),
        ensures
            r.wf(),
            r.store() == storage,
            r.model() == storage.model(),
            r.guard_map() == Map::<Seq<char>, G>::empty(),
            r.subscribed() == Seq::<SubscriberView>::empty(),
            r.subscriber_limit() == 1024,
            !r.stopped(),
    {
        Engine::with_limit(storage, EngineConfig::default().max_subscribers)
    }

    /// An engine over a store, with a limit on subscribers.
    pub fn with_limit(storage: S, max_subscribers: usize) -> (r: Self)
        requires
            storage.wf(),
        ensures
            r.wf(),
            r.store() == storage,
            r.model() == storage.model(),
            r.guard_map() == Map::<Seq<char>, G>::empty(),
            r.subscribed() == Seq::<SubscriberView>::empty(),
            r.subscriber_limit() == max_subscribers,
            !r.stopped(),
    {
        let r = Engine {
            storage,
            guards: GuardRegistry::new(),
            subscribers: Vec::new(),
            max_subscribers,
            shutting_down: false,
        };
        assert(r.subscribed() =~= Seq::<SubscriberView>::empty());
        r
    }

    /// The store.
    pub fn storage(&self) -> (r: &S)
        requires
            self.wf(),
        ensures
            r.wf(),
            *r == self.store(),
            r.model() == self.model(),
    {
        &self.storage
    }

    /// From now on no transition is made.
    pub fn shutdown(&mut self)
        requires
            old(self).wf(),
        ensures
            final(self).wf(),
            final(self).stopped(),
            final(self).model() == old(self).model(),
            final(self).guard_map() == old(self).guard_map(),
            final(self).subscribed() == old(self).subscribed(),
            final(self).subscriber_limit() == old(self).subscriber_limit(),
    {
        self.shutting_down = true;
    }

    /// Whether the engine takes no more requests.
    pub fn is_shutting_down(&self) -> (r: bool)
        ensures
            r == self.stopped(),
    {
        self.shutting_down
    }

    /// Registers a guard, in place of one with the same name.
    pub fn register_guard(&mut self, name: &str, guard: G)
        requires
            old(self).wf(),
            answers_all(guard),
        ensures
            final(self).wf(),
            final(self).guard_map() == old(self).guard_map().insert(name@, guard),
            final(self).model() == old(self).model(),
            final(self).subscribed() == old(self).subscribed(),
            final(self).subscriber_limit() == old(self).subscriber_limit(),
            final(self).stopped() == old(self).stopped(),
    {
        self.guards.register(name, guard);
    }

    /// What an entity is before a transition.
    fn standing(&self, definition: &MachineDefinition, entity_id: &str, machine: &str, at: Timestamp)
        -> (r: Result<Standing, StorageError>)
        requires
            self.wf(),
        ensures
            ({
                let key = entity_key(entity_id@, machine@);
                match r {
                    Ok(s) => {
                        &&& s.state@ == state_in(self.model(), definition@, key)
                        &&& s.version == version_in(self.model(), key)
                        &&& s.created_at == (if self.model().entities.contains_key(key) {
                            self.model().entities[key].created_at
                        } else {
                            at
                        })
                    },
                    Err(e) => entity_failed(&self.store(), entity_id@, machine@, e@),
                }
            }),
    {
        match self.storage.get_entity_state(entity_id, machine) {
            Ok(s) => Ok(
                Standing { state: s.current_state, version: s.version, created_at: s.created_at },
            ),
            Err(StorageError::NotFound(_)) => Ok(
                Standing { state: definition.initial_state.clone(), version: 0, created_at: at },
            ),
            Err(e) => Err(e),
        }
    }

    /// Asks the guards of a rule.
    fn ask_guards(&self, rule: &TransitionRule, state: &EntityState, ctx: &serde_json::Value) -> (r:
        NameMap<bool>)
        requires
            self.wf(),
        ensures
            guards_said(self.guard_map(), rule@.guards, *state, *ctx, r@),
    {
        let ghost names = rule@.guards;
        let mut results: NameMap<bool> = NameMap::new();
        let mut i: usize = 0;
        while i < rule.guards.len()
            invariant
                i <= rule.guards.len(),
                self.wf(),
                names == texts(rule.guards@),
                forall|j: int|
                    0 <= j < i ==> results@.contains_key(#[trigger] names[j]) && guard_says(
                        self.guard_map(),
                        names[j],
                        state,
                        ctx,
                        results@[names[j]],
                    ),
            decreases rule.guards.len() - i,
        {
            let name = &rule.guards[i];
            assert(names[i as int] == name@);
            let passed = self.guards.evaluate(name.as_str(), state, ctx);
            results.insert(name.clone(), passed);
            i = i + 1;
        }
        results
    }

    /// The answer that an earlier request with the same key got, if there was
    /// one. `AlreadyExists` where that one asked for something else. A key that
    /// the store fails to look up is taken for a new one.
    fn replay(&self, key: &Option<String>, entity_id: &str, machine: &str, event: &str) -> (r:
        Result<Option<TransitionResult>, EngineError>)
        requires
            self.wf(),
        ensures
            ({
                let kept = if key is Some {
                    self.model().keyed(key->0@)
                } else {
                    None
                };
                match r {
                    Ok(Some(out)) => {
                        &&& kept is Some
                        &&& kept->0.entity_id == entity_id@
                        &&& kept->0.machine == machine@
                        &&& kept->0.event == event@
                        &&& out@ == result_of(kept->0)
                    },
                    Ok(None) => kept is None || lookup_failed(&self.store(), opt_text(*key)),
                    Err(e) => kept is Some && !(kept->0.entity_id == entity_id@
                        && kept->0.machine == machine@ && kept->0.event == event@) && e@
                        == EngineErrorView::Storage(
                        StorageErrorView::AlreadyExists(key_label(key->0@)),
                    ),
                }
            }),
    {
        if let Some(k) = key {
            match self.storage.check_idempotency(k.as_str()) {
                Ok(Some(existing)) => {
                    return match replay_of(&existing, k.as_str(), entity_id, machine, event) {
                        Ok(out) => Ok(Some(out)),
                        Err(e) => Err(e),
                    };
                },
                Ok(None) => {},
                Err(_) => {
                    assert(lookup_failed(&self.store(), opt_text(*key)));
                },
            }
        }
        Ok(None)
    }

    /// Fires `event` on an entity.
    pub fn transition(
        &mut self,
        entity_id: &str,
        machine_name: &str,
        event: &str,
        actor: &str,
        ctx: serde_json::Value,
        expected_version: Option<u64>,
        idempotency_key: Option<String>,
    ) -> (r: Result<TransitionResult, EngineError>)
        requires
            old(self).wf(),
        ensures
            final(self).wf(),
            final(self).guard_map() == old(self).guard_map(),
            final(self).subscribed() == old(self).subscribed(),
            final(self).subscriber_limit() == old(self).subscriber_limit(),
            final(self).stopped() == old(self).stopped(),
            came_of(
                old(self).store(),
                final(self).model(),
                old(self).guard_map(),
                old(self).stopped(),
                RequestView {
                    entity_id: entity_id@,
                    machine: machine_name@,
                    event: event@,
                    actor: actor@,
                    ctx,
                    expected_version,
                    idempotency_key: opt_text(idempotency_key),
                },
                match r {
                    Ok(t) => Ok::<ResultView, EngineErrorView>(t@),
                    Err(e) => Err::<ResultView, EngineErrorView>(e@),
                },
            ),
    {
        let ghost m0 = self.model();
        let ghost store = self.store();
        let ghost req = RequestView {
            entity_id: entity_id@,
            machine: machine_name@,
            event: event@,
            actor: actor@,
            ctx,
            expected_version,
            idempotency_key: opt_text(idempotency_key),
        };
        if self.shutting_down {
            return Err(EngineError::ShuttingDown);
        }
        match self.replay(&idempotency_key, entity_id, machine_name, event) {
            Ok(Some(out)) => {
                assert(was_repeated(m0, req, out@));
                return Ok(out);
            },
            Ok(None) => {},
            Err(e) => {
                return Err(e);
            },
        }
        assert(req.is_new(m0) || lookup_failed(&store, req.idempotency_key));
        let definition = match self.storage.get_machine(machine_name, None) {
            Ok(d) => d,
            Err(e) => {
                assert(e@.is_fault() ==> definition_failed(&store, machine_name@, None, e@));
                return Err(EngineError::Storage(e));
            },
        };
        let at = now();
        let standing = match self.standing(&definition, entity_id, machine_name, at) {
            Ok(s) => s,
            Err(e) => {
                return Err(EngineError::Storage(e));
            },
        };
        if let Some(expected) = expected_version {
            if expected != standing.version {
                let e = CoreError::VersionConflict {
                    entity_id: entity_id.to_owned(),
                    machine: machine_name.to_owned(),
                    expected,
                    actual: standing.version,
                };
                assert(refused(m0, self.guard_map(), definition@, req, e@));
                assert(was_refused(m0, self.guard_map(), req, e@));
                return Err(EngineError::Core(e));
            }
        }
        let rule = match FsmPlanner::plan_transition(
            &definition,
            standing.state.as_str(),
            event,
            entity_id,
        ) {
            Ok(rule) => rule,
            Err(e) => {
                assert(refused(m0, self.guard_map(), definition@, req, e@));
                assert(was_refused(m0, self.guard_map(), req, e@));
                return Err(EngineError::Core(e));
            },
        };
        let probe = EntityState {
            entity_id: entity_id.to_owned(),
            machine: machine_name.to_owned(),
            current_state: standing.state.clone(),
            version: standing.version,
            updated_at: now(),
            created_at: now(),
        };
        let results = self.ask_guards(rule, &probe, &ctx);
        let ghost names = rule@.guards;
        assert(shown_to_guards(m0, definition@, req, probe));
        match FsmPlanner::validate_guards(rule, &results) {
            Ok(()) => {
                assert(guards_ruled(self.guard_map(), m0, definition@, req, None)) by {
                    assert(guards_said(self.guard_map(), names, probe, req.ctx, results@));
                }
            },
            Err(e) => {
                proof {
                    assert(guards_said(self.guard_map(), names, probe, req.ctx, results@));
                    assert(guards_ruled(
                        self.guard_map(),
                        m0,
                        definition@,
                        req,
                        failed_guard(names, results@, names.len()),
                    ));
                    assert(refused(m0, self.guard_map(), definition@, req, e@));
                    assert(was_refused(m0, self.guard_map(), req, e@));
                }
                return Err(EngineError::Core(e));
            },
        }
        if standing.version == u64::MAX {
            return Err(
                EngineError::Storage(
                    StorageError::Internal("version numbers are used up".to_owned()),
                ),
            );
        }
        let version = standing.version + 1;
        let to_state = rule.to_state.clone();
        let mut record = FsmPlanner::build_transition_record(
            entity_id.to_owned(),
            machine_name.to_owned(),
            standing.state,
            to_state.clone(),
            event.to_owned(),
            actor.to_owned(),
            ctx,
            idempotency_key,
        );
        record.version = version;
        let effects = build_effects(&definition, event, record.id.as_str());
        let state = EntityState {
            entity_id: entity_id.to_owned(),
            machine: machine_name.to_owned(),
            current_state: to_state,
            version,
            updated_at: at,
            created_at: standing.created_at,
        };
        let ghost from = state_in(m0, definition@, req.key());
        let ghost entry = record_for(
            req,
            from,
            planned_rule(definition@, from, event@).to_state,
            version,
            record.id@,
            record.timestamp,
        );
        proof {
            assert(record@ =~= entry);
            assert(state@ =~= entity_for(
                m0,
                req,
                planned_rule(definition@, from, event@).to_state,
                version,
                at,
            ));
        }
        let ghost id = record.id@;
        let ghost made_at = record.timestamp;
        let done = self.storage.execute_transition(&mut record, &state, &effects);
        let ghost m1 = self.model();
        proof {
            let out = result_of(m0.numbered(entry));
            if m1 == m0.executed(entry, state@, effect_views(effects@)) && m0.sequence < u64::MAX {
                assert(performed_as(
                    m0,
                    m1,
                    definition@,
                    req,
                    out,
                    entry.id,
                    entry.timestamp,
                    at,
                    effect_views(effects@),
                ));
                if execute_conflict(m0, entry, state@) is None {
                    assert(carried_out(m0, m1, self.guard_map(), definition@, req, out));
                }
            }
        }
        match done {
            Ok(_) => {
                let out = TransitionResult::of_record(&record);
                assert(was_carried_out(m0, m1, self.guard_map(), req, out@));
                Ok(out)
            },
            Err(e) => {
                proof {
                    if e@.is_fault() {
                        assert(handing_over_failed(
                            store,
                            definition@,
                            req,
                            id,
                            made_at,
                            at,
                            e@,
                        ));
                    }
                    if m1 != m0 {
                        let out = result_of(m0.numbered(entry));
                        assert(was_carried_out(m0, m1, self.guard_map(), req, out));
                    }
                }
                Err(EngineError::Storage(e))
            },
        }
    }
}

/// What may come of a definition that is handed in. It is stored where it is
/// valid and new; it is accepted again where it says what the stored one says.
pub open spec fn defined(
    m0: StoreModel,
    m1: StoreModel,
    def: MachineView,
    r: Result<(), EngineErrorView>,
) -> bool {
    let known = m0.machines.contains_key((def.name, def.version));
    match r {
        Ok(()) => def.fault() is None && if known {
            m1 == m0 && same_content(def, m0.machines[(def.name, def.version)])
        } else {
            m1 == m0.with_machine(def)
        },
        Err(EngineErrorView::Core(e)) => def.fault() == Some(e) && m1 == m0,
        Err(EngineErrorView::Storage(e)) => def.fault() is None && {
            ||| e.is_fault() && kept(m0, m1, !known, m0.with_machine(def), e)
            ||| known && m1 == m0 && !same_content(def, m0.machines[(def.name, def.version)])
                && e == StorageErrorView::AlreadyExists(machine_label(def.name, Some(def.version)))
        },
        _ => false,
    }
}

/// The subscribers that are not called `id`.
pub open spec fn without(s: Seq<SubscriberView>, id: Seq<char>) -> Seq<SubscriberView> {
    s.filter(|x: SubscriberView| x.id != id)
}

/// The newest subscribers, as many as the limit allows.
pub open spec fn newest(s: Seq<SubscriberView>, limit: usize) -> Seq<SubscriberView> {
    if s.len() > limit {
        s.skip(s.len() - limit)
    } else {
        s
    }
}

/// The subscribers after one acknowledged a sequence number: its cursor moves
/// there, but never back.
pub open spec fn acknowledged(s: Seq<SubscriberView>, id: Seq<char>, upto: u64) -> Seq<
    SubscriberView,
> {
    Seq::new(
        s.len(),
        |i: int|
            if s[i].id == id && s[i].cursor < upto {
                SubscriberView { cursor: upto, ..s[i] }
            } else {
                s[i]
            },
    )
}

/// How many records a pass delivered.
pub open spec fn total(ds: Seq<Drained>) -> nat
    decreases ds.len(),
{
    if ds.len() == 0 {
        0
    } else {
        total(ds.drop_last()) + ds.last().delivered as nat
    }
}

/// Whether one of the subscribers called `id` was found gone.
pub open spec fn is_dead(mid: Seq<SubscriberView>, ds: Seq<Drained>, id: Seq<char>) -> bool {
    exists|i: int| 0 <= i < mid.len() && (#[trigger] mid[i]).id == id && ds[i].dead
}

/// What a pass did: every subscriber was drained, and those found gone were
/// dropped.
pub open spec fn passed(
    m: StoreModel,
    before: Seq<SubscriberView>,
    after: Seq<SubscriberView>,
    mid: Seq<SubscriberView>,
    ds: Seq<Drained>,
    count: usize,
) -> bool {
    &&& mid.len() == before.len()
    &&& ds.len() == before.len()
    &&& forall|i: int|
        0 <= i < before.len() ==> drained(m, before[i], #[trigger] mid[i], ds[i])
    &&& after == mid.filter(|x: SubscriberView| !is_dead(mid, ds, x.id))
    &&& count == (if total(ds) > usize::MAX {
        usize::MAX as nat
    } else {
        total(ds)
    })
}

/// Whether all that a pass left undone is owed to the store.
pub open spec fn all_served<S: StorageEngine>(
    storage: S,
    before: Seq<SubscriberView>,
    mid: Seq<SubscriberView>,
    ds: Seq<Drained>,
) -> bool {
    forall|i: int|
        0 <= i < before.len() ==> served_by(&storage, before[i], #[trigger] mid[i], ds[i])
}

/// Whether only the statuses of effects differ, and only of those listed.
pub open spec fn only_statuses(m0: StoreModel, m1: StoreModel, list: Seq<EffectView>) -> bool {
    &&& m1 == (StoreModel { effects: m1.effects, ..m0 })
    &&& m1.effects.dom() == m0.effects.dom()
    &&& forall|k: Seq<char>| #[trigger]
        m0.effects.contains_key(k) ==> m1.effects[k] == (EffectView {
            status: m1.effects[k].status,
            ..m0.effects[k]
        })
    &&& forall|k: Seq<char>| #[trigger]
        m0.effects.contains_key(k) && !list.contains(m0.effects[k]) ==> m1.effects[k]
            == m0.effects[k]
}

/// How many of the answers are yes.
pub open spec fn yeses(s: Seq<bool>) -> nat
    decreases s.len(),
{
    if s.len() == 0 {
        0
    } else if s.last() {
        yeses(s.drop_last()) + 1
    } else {
        yeses(s.drop_last())
    }
}

/// Whether the store failed with `x` when it was asked for pending effects.
pub open spec fn listing_failed<S: StorageEngine>(storage: &S, x: StorageErrorView) -> bool {
    exists|e: StorageError|
        e@ == x && #[trigger] call_ensures(
            S::get_pending_effects,
            (storage, 256u32),
            Err::<Vec<Effect>, StorageError>(e),
        )
}

/// Whether a store failed to mark an effect as published, at a time when it
/// differed from `m0` in the statuses of the listed effects at most.
pub open spec fn publishing_failed<S: StorageEngine>(
    m0: StoreModel,
    list: Seq<EffectView>,
    id: Seq<char>,
) -> bool {
    exists|storage: &mut S, t: &str, e: StorageError|
        t@ == id && only_statuses(m0, (*storage).model(), list) && #[trigger] call_ensures(
            S::mark_effect_published,
            (storage, t),
            Err::<(), StorageError>(e),
        )
}

/// Whether a store failed to mark an effect as failed, at a time when it
/// differed from `m0` in the statuses of the listed effects at most.
pub open spec fn failing_failed<S: StorageEngine>(
    m0: StoreModel,
    list: Seq<EffectView>,
    id: Seq<char>,
) -> bool {
    exists|storage: &mut S, t: &str, e: StorageError|
        t@ == id && only_statuses(m0, (*storage).model(), list) && #[trigger] call_ensures(
            S::mark_effect_failed,
            (storage, t),
            Err::<(), StorageError>(e),
        )
}

/// Whether an effect was taken off the list of those that wait: it is published,
/// or, where the store failed to mark it so, it is marked as failed, unless the
/// store failed in that too.
pub open spec fn taken_off<S: StorageEngine>(
    m0: StoreModel,
    m1: StoreModel,
    list: Seq<EffectView>,
    id: Seq<char>,
    published: bool,
) -> bool {
    if published {
        m1.effects[id].status == EffectStatus::Published
    } else {
        publishing_failed::<S>(m0, list, id) && (m1.effects[id].status == EffectStatus::Failed
            || failing_failed::<S>(m0, list, id))
    }
}

/// Whether all listed effects were taken off, and nothing else was touched.
pub open spec fn all_taken_off<S: StorageEngine>(
    m0: StoreModel,
    m1: StoreModel,
    list: Seq<EffectView>,
    published: Seq<bool>,
) -> bool {
    &&& published.len() == list.len()
    &&& only_statuses(m0, m1, list)
    &&& forall|i: int|
        0 <= i < list.len() ==> taken_off::<S>(
            m0,
            m1,
            list,
            (#[trigger] list[i]).id,
            published[i],
        )
}

/// What publishing does: the first pending effects are taken off, and those that
/// were published are counted. It fails only where the store failed to list
/// them.
pub open spec fn pending_published<S: StorageEngine>(
    storage: S,
    m1: StoreModel,
    r: Result<usize, EngineErrorView>,
) -> bool {
    let m0 = storage.model();
    match r {
        Ok(n) => exists|list: Seq<EffectView>, published: Seq<bool>|
            m0.takes_pending(256, list) && #[trigger] all_taken_off::<S>(m0, m1, list, published)
                && n == yeses(published),
        Err(EngineErrorView::Storage(e)) => e.is_fault() && m1 == m0 && listing_failed(&storage, e),
        Err(_) => false,
    }
}

/// What became of publishing.
pub open spec fn publishing_view(r: Result<usize, EngineError>) -> Result<usize, EngineErrorView> {
    match r {
        Ok(n) => Ok(n),
        Err(e) => Err(e@),
    }
}

/// The subscribers of a list.
spec fn subscriber_views(s: Seq<Subscriber>) -> Seq<SubscriberView> {
    Seq::new(s.len(), |i: int| s[i]@)
}

/// Drops the subscribers whose identifiers are listed.
fn drop_listed(subscribers: &mut Vec<Subscriber>, ids: &Vec<String>)
    ensures
        final(subscribers)@.len() <= old(subscribers)@.len(),
        subscriber_views(final(subscribers)@) == subscriber_views(old(subscribers)@).filter(
            |x: SubscriberView| !texts(ids@).contains(x.id),
        ),
{
    let ghost start = subscriber_views(subscribers@);
    let ghost stay = |x: SubscriberView| !texts(ids@).contains(x.id);
    let ghost mut seen: int = 0;
    let mut i: usize = 0;
    assert(start.take(0).filter(stay) =~= Seq::<SubscriberView>::empty()) by {
        reveal_with_fuel(Seq::filter, 1);
    }
    assert(start.skip(0) =~= start);
    assert(subscriber_views(subscribers@).take(0) =~= Seq::<SubscriberView>::empty());
    assert(subscriber_views(subscribers@).skip(0) =~= start);
    while i < subscribers.len()
        invariant
            stay == (|x: SubscriberView| !texts(ids@).contains(x.id)),
            i <= subscribers@.len(),
            0 <= seen <= start.len(),
            i <= seen,
            subscribers@.len() - i == start.len() - seen,
            subscriber_views(subscribers@).take(i as int) == start.take(seen).filter(stay),
            subscriber_views(subscribers@).skip(i as int) == start.skip(seen),
        decreases subscribers@.len() - i,
    {
        let ghost now_views = subscriber_views(subscribers@);
        proof {
            assert(now_views[i as int] == now_views.skip(i as int)[0]);
            assert(start[seen] == start.skip(seen)[0]);
            assert(start.take(seen + 1).drop_last() =~= start.take(seen));
            reveal_with_fuel(Seq::filter, 1);
        }
        let listed = contains_text(ids, subscribers[i].id.as_str());
        if listed {
            let _ = subscribers.remove(i);
            proof {
                let after = subscriber_views(subscribers@);
                assert(after.take(i as int) =~= now_views.take(i as int));
                assert(after.skip(i as int) =~= now_views.skip(i + 1));
                assert(now_views.skip(i + 1) =~= now_views.skip(i as int).skip(1));
                assert(start.skip(seen + 1) =~= start.skip(seen).skip(1));
            }
        } else {
            proof {
                assert(now_views.take(i + 1) =~= now_views.take(i as int).push(
                    now_views[i as int],
                ));
                assert(now_views.skip(i + 1) =~= now_views.skip(i as int).skip(1));
                assert(start.skip(seen + 1) =~= start.skip(seen).skip(1));
            }
            i = i + 1;
        }
        proof {
            seen = seen + 1;
        }
    }
    proof {
        assert(seen == start.len());
        assert(start.take(seen) =~= start);
        assert(subscriber_views(subscribers@).take(i as int) =~= subscriber_views(subscribers@));
    }
}

impl<S: StorageEngine, G: Fn(&EntityState, &serde_json::Value) -> bool> Engine<S, G> {
    /// Whether nothing but the store may differ.
    pub open spec fn same_but_store(&self, other: &Self) -> bool {
        &&& self.guard_map() == other.guard_map()
        &&& self.subscribed() == other.subscribed()
        &&& self.subscriber_limit() == other.subscriber_limit()
        &&& self.stopped() == other.stopped()
    }

    /// Whether nothing but the subscribers may differ.
    pub open spec fn same_but_subscribers(&self, other: &Self) -> bool {
        &&& self.store() == other.store()
        &&& self.guard_map() == other.guard_map()
        &&& self.model() == other.model()
        &&& self.subscriber_limit() == other.subscriber_limit()
        &&& self.stopped() == other.stopped()
    }

    /// Checks a definition and stores it.
    pub fn define_machine(&mut self, definition: MachineDefinition) -> (r: Result<(), EngineError>)
        requires
            old(self).wf(),
        ensures
            final(self).wf(),
            final(self).same_but_store(old(self)),
            defined(
                old(self).model(),
                final(self).model(),
                definition@,
                match r {
                    Ok(()) => Ok::<(), EngineErrorView>(()),
                    Err(e) => Err::<(), EngineErrorView>(e@),
                },
            ),
            r matches Err(e) ==> e@.is_fault() ==> storing_failed(
                old(self).store(),
                definition@,
                e@->Storage_0,
            ),
    {
        match definition.validate() {
            Ok(()) => {},
            Err(e) => {
                return Err(EngineError::Core(e));
            },
        }
        match self.storage.store_machine(&definition) {
            Ok(()) => Ok(()),
            Err(StorageError::AlreadyExists(text)) => {
                match self.storage.get_machine(
                    definition.name.as_str(),
                    Some(definition.version),
                ) {
                    Ok(stored) => if same_definition(&definition, &stored) {
                        Ok(())
                    } else {
                        Err(EngineError::Storage(StorageError::AlreadyExists(text)))
                    },
                    Err(e) => Err(EngineError::Storage(e)),
                }
            },
            Err(e) => Err(EngineError::Storage(e)),
        }
    }

    /// The latest definition with a name.
    pub fn get_machine(&self, name: &str) -> (r: Result<MachineDefinition, EngineError>)
        requires
            self.wf(),
        ensures
            match r {
                Ok(m) => self.model().finds_machine(name@, None, m@),
                Err(e) => {
                    ||| e@.is_fault() && definition_failed(
                        &self.store(),
                        name@,
                        None,
                        e@->Storage_0,
                    )
                    ||| !self.model().has_machine(name@, None) && e@ == EngineErrorView::Storage(
                        StorageErrorView::NotFound(machine_label(name@, None)),
                    )
                },
            },
    {
        match self.storage.get_machine(name, None) {
            Ok(m) => Ok(m),
            Err(e) => Err(EngineError::Storage(e)),
        }
    }

    /// All definitions.
    pub fn list_machines(&self) -> (r: Result<Vec<MachineDefinition>, EngineError>)
        requires
            self.wf(),
        ensures
            match r {
                Ok(v) => self.model().lists_machines(Seq::new(v@.len(), |i: int| v@[i]@)),
                Err(e) => e@.is_fault() && machines_failed(&self.store(), e@->Storage_0),
            },
    {
        match self.storage.list_machines() {
            Ok(v) => Ok(v),
            Err(e) => Err(EngineError::Storage(e)),
        }
    }

    /// The state of an entity.
    pub fn current(&self, entity_id: &str, machine: &str) -> (r: Result<EntityState, EngineError>)
        requires
            self.wf(),
        ensures
            ({
                let k = entity_key(entity_id@, machine@);
                match r {
                    Ok(s) => self.model().entities.contains_key(k) && s@
                        == self.model().entities[k],
                    Err(e) => {
                        ||| e@.is_fault() && entity_failed(
                            &self.store(),
                            entity_id@,
                            machine@,
                            e@->Storage_0,
                        )
                        ||| !self.model().entities.contains_key(k) && e@
                            == EngineErrorView::Storage(
                            StorageErrorView::NotFound(entity_label(entity_id@, machine@)),
                        )
                    },
                }
            }),
    {
        match self.storage.get_entity_state(entity_id, machine) {
            Ok(s) => Ok(s),
            Err(e) => Err(EngineError::Storage(e)),
        }
    }

    /// The state and version of an entity, if there is such a machine.
    pub fn standing_of(&self, entity_id: &str, machine: &str) -> (r: Result<
        Option<(String, u64)>,
        EngineError,
    >)
        requires
            self.wf(),
        ensures
            match r {
                Ok(Some(s)) => stands(self.model(), entity_id@, machine@, s.0@, s.1),
                Ok(None) => !self.model().entities.contains_key(entity_key(entity_id@, machine@))
                    && !self.model().has_machine(machine@, None),
                Err(e) => e@.is_fault() && standing_failed(
                    &self.store(),
                    entity_id@,
                    machine@,
                    e@->Storage_0,
                ),
            },
    {
        match self.storage.get_entity_state(entity_id, machine) {
            Ok(s) => Ok(Some((s.current_state, s.version))),
            Err(StorageError::NotFound(_)) => match self.storage.get_machine(machine, None) {
                Ok(d) => Ok(Some((d.initial_state, 0))),
                Err(StorageError::NotFound(_)) => Ok(None),
                Err(e) => Err(EngineError::Storage(e)),
            },
            Err(e) => Err(EngineError::Storage(e)),
        }
    }

    /// The transitions of an entity after a sequence number, in order.
    pub fn history(
        &self,
        entity_id: &str,
        machine: &str,
        limit: Option<u32>,
        after_sequence: Option<u64>,
    ) -> (r: Result<Vec<TransitionRecord>, EngineError>)
        requires
            self.wf(),
        ensures
            match r {
                Ok(v) => record_views(v@) == self.model().history(
                    entity_id@,
                    machine@,
                    limit,
                    after_sequence,
                ),
                Err(e) => e@.is_fault() && history_failed(
                    &self.store(),
                    entity_id@,
                    machine@,
                    limit,
                    after_sequence,
                    e@->Storage_0,
                ),
            },
    {
        match self.storage.get_history(entity_id, machine, limit, after_sequence) {
            Ok(v) => Ok(v),
            Err(e) => Err(EngineError::Storage(e)),
        }
    }

    /// Registers a subscriber to one machine or all.
    pub fn subscribe(
        &mut self,
        id: String,
        machine_filter: Option<String>,
        after_sequence: u64,
    ) -> (r: Result<tokio::sync::mpsc::UnboundedReceiver<ChangeRecord>, EngineError>)
        requires
            old(self).wf(),
        ensures
            r is Ok,
            final(self).wf(),
            final(self).same_but_subscribers(old(self)),
            final(self).subscribed() == newest(
                old(self).subscribed().push(
                    SubscriberView {
                        id: id@,
                        filter: FilterView { machine: opt_text(machine_filter), entity: None },
                        cursor: after_sequence,
                        channel: channel_to(r->Ok_0),
                        sent: Seq::empty(),
                    },
                ),
                old(self).subscriber_limit(),
            ),
    {
        Ok(self.enroll(id, machine_filter, None, after_sequence))
    }

    /// Registers a subscriber to one machine or all, and to one entity or all.
    /// Where there is one too many now, the oldest goes.
    pub fn enroll(
        &mut self,
        id: String,
        machine_filter: Option<String>,
        entity_filter: Option<String>,
        after_sequence: u64,
    ) -> (rx: tokio::sync::mpsc::UnboundedReceiver<ChangeRecord>)
        requires
            old(self).wf(),
        ensures
            final(self).wf(),
            final(self).same_but_subscribers(old(self)),
            final(self).subscribed() == newest(
                old(self).subscribed().push(
                    SubscriberView {
                        id: id@,
                        filter: FilterView {
                            machine: opt_text(machine_filter),
                            entity: opt_text(entity_filter),
                        },
                        cursor: after_sequence,
                        channel: channel_to(rx),
                        sent: Seq::empty(),
                    },
                ),
                old(self).subscriber_limit(),
            ),
    {
        let ghost before = self.subscribed();
        let (tx, rx) = channel();
        let subscriber = Subscriber {
            id,
            machine_filter,
            entity_filter,
            sender: tx,
            delivered_through: after_sequence,
        };
        let ghost new = subscriber@;
        let full = self.subscribers.len() >= self.max_subscribers;
        self.subscribers.push(subscriber);
        assert(self.subscribed() =~= before.push(new));
        if full {
            let ghost all = self.subscribed();
            let _ = self.subscribers.remove(0);
            assert(self.subscribed() =~= all.skip(1));
        }
        rx
    }

    /// Drops the subscribers called `id`.
    pub fn unsubscribe(&mut self, id: &str)
        requires
            old(self).wf(),
        ensures
            final(self).wf(),
            final(self).same_but_subscribers(old(self)),
            final(self).subscribed() == without(old(self).subscribed(), id@),
    {
        let mut ids: Vec<String> = Vec::new();
        ids.push(id.to_owned());
        let ghost before = self.subscribed();
        drop_listed(&mut self.subscribers, &ids);
        proof {
            let listed = |x: SubscriberView| !texts(ids@).contains(x.id);
            let other = |x: SubscriberView| x.id != id@;
            assert forall|x: SubscriberView| #[trigger] listed(x) == other(x) by {
                assert(texts(ids@)[0] == id@);
            }
            assert(listed =~= other);
            assert(before.filter(listed) == before.filter(other));
        }
    }

    /// Moves the cursor of the subscribers called `id` forward to a sequence
    /// number.
    pub fn acknowledge(&mut self, id: &str, up_to_sequence: u64)
        requires
            old(self).wf(),
        ensures
            final(self).wf(),
            final(self).same_but_subscribers(old(self)),
            final(self).subscribed() == acknowledged(old(self).subscribed(), id@, up_to_sequence),
    {
        let ghost before = self.subscribed();
        let ghost want = acknowledged(before, id@, up_to_sequence);
        let mut i: usize = 0;
        while i < self.subscribers.len()
            invariant
                i <= self.subscribers@.len(),
                self.wf(),
                self.same_but_subscribers(old(self)),
                before == old(self).subscribed(),
                want == acknowledged(before, id@, up_to_sequence),
                self.subscribers@.len() == before.len(),
                forall|j: int| 0 <= j < i ==> (#[trigger] self.subscribers@[j])@ == want[j],
                forall|j: int|
                    i <= j < before.len() ==> (#[trigger] self.subscribers@[j])@ == before[j],
            decreases self.subscribers@.len() - i,
        {
            if *self.subscribers[i].id.as_str() == *id && self.subscribers[i].delivered_through
                < up_to_sequence {
                self.subscribers[i].delivered_through = up_to_sequence;
            }
            i = i + 1;
        }
        assert(self.subscribed() =~= want);
    }

    /// Sends every subscriber what it wants of what the log holds behind its
    /// cursor, and drops those whose receivers are gone. Returns how many
    /// records went out.
    pub fn dispatch_pass(&mut self) -> (count: usize)
        requires
            old(self).wf(),
        ensures
            final(self).wf(),
            final(self).same_but_subscribers(old(self)),
            exists|mid: Seq<SubscriberView>, ds: Seq<Drained>| #[trigger]
                passed(
                    old(self).model(),
                    old(self).subscribed(),
                    final(self).subscribed(),
                    mid,
                    ds,
                    count,
                ) && all_served(old(self).store(), old(self).subscribed(), mid, ds),
    {
        let ghost m = self.model();
        let ghost before = self.subscribed();
        let mut count: usize = 0;
        let mut dead: Vec<String> = Vec::new();
        let ghost mut ds: Seq<Drained> = Seq::empty();
        let mut i: usize = 0;
        while i < self.subscribers.len()
            invariant
                i <= self.subscribers@.len(),
                self.wf(),
                self.same_but_subscribers(old(self)),
                m == old(self).model(),
                before == old(self).subscribed(),
                self.subscribers@.len() == before.len(),
                ds.len() == i,
                forall|j: int|
                    0 <= j < i ==> drained(m, before[j], (#[trigger] self.subscribers@[j])@, ds[j])
                        && served_by(&self.storage, before[j], self.subscribers@[j]@, ds[j]),
                self.storage == old(self).storage,
                forall|j: int|
                    i <= j < before.len() ==> (#[trigger] self.subscribers@[j])@ == before[j],
                count == (if total(ds) > usize::MAX {
                    usize::MAX as nat
                } else {
                    total(ds)
                }),
                forall|id: Seq<char>| #[trigger]
                    texts(dead@).contains(id) <==> exists|j: int|
                        0 <= j < i && (#[trigger] before[j]).id == id && ds[j].dead,
            decreases self.subscribers@.len() - i,
        {
            let d = self.subscribers[i].drain(&self.storage);
            let ghost ds0 = ds;
            let ghost dead0 = texts(dead@);
            if d.dead {
                dead.push(self.subscribers[i].id.clone());
            }
            let room = usize::MAX - count;
            if d.delivered <= room as u64 {
                count = count + d.delivered as usize;
            } else {
                count = usize::MAX;
            }
            proof {
                ds = ds.push(d);
                assert(ds.drop_last() =~= ds0);
                assert forall|id: Seq<char>| #[trigger] texts(dead@).contains(id) <==> exists|
                    j: int,
                |
                    0 <= j < i + 1 && (#[trigger] before[j]).id == id && ds[j].dead by {
                    if d.dead {
                        assert(texts(dead@) =~= dead0.push(before[i as int].id));
                        if dead0.contains(id) {
                            let k = choose|k: int| 0 <= k < dead0.len() && dead0[k] == id;
                            assert(texts(dead@)[k] == id);
                            let j = choose|j: int|
                                0 <= j < i && (#[trigger] before[j]).id == id && ds0[j].dead;
                            assert(ds[j].dead);
                        }
                        if before[i as int].id == id {
                            assert(texts(dead@)[dead0.len() as int] == id);
                            assert(ds[i as int].dead);
                        }
                        if texts(dead@).contains(id) && before[i as int].id != id {
                            let k = choose|k: int|
                                0 <= k < texts(dead@).len() && texts(dead@)[k] == id;
                            assert(dead0[k] == id);
                        }
                    }
                    if exists|j: int|
                        0 <= j < i + 1 && (#[trigger] before[j]).id == id && ds[j].dead {
                        let j = choose|j: int|
                            0 <= j < i + 1 && (#[trigger] before[j]).id == id && ds[j].dead;
                        if j < i {
                            assert(ds0[j].dead);
                            assert(dead0.contains(id));
                            let k = choose|k: int| 0 <= k < dead0.len() && dead0[k] == id;
                            assert(texts(dead@)[k] == id);
                        }
                    }
                    if texts(dead@).contains(id) && !d.dead {
                        assert(dead0.contains(id));
                        let j = choose|j: int|
                            0 <= j < i && (#[trigger] before[j]).id == id && ds0[j].dead;
                        assert(ds[j].dead);
                    }
                }
            }
            i = i + 1;
        }
        let ghost mid = self.subscribed();
        drop_listed(&mut self.subscribers, &dead);
        proof {
            let listed = |x: SubscriberView| !texts(dead@).contains(x.id);
            let gone = |x: SubscriberView| !is_dead(mid, ds, x.id);
            assert forall|x: SubscriberView| #[trigger] listed(x) == gone(x) by {
                if is_dead(mid, ds, x.id) {
                    let j = choose|j: int|
                        0 <= j < mid.len() && (#[trigger] mid[j]).id == x.id && ds[j].dead;
                    assert(before[j].id == x.id);
                }
                if texts(dead@).contains(x.id) {
                    let j = choose|j: int|
                        0 <= j < i && (#[trigger] before[j]).id == x.id && ds[j].dead;
                    assert(mid[j].id == x.id);
                }
            }
            assert(listed =~= gone);
            assert(mid.filter(listed) == mid.filter(gone));
            assert(passed(m, before, self.subscribed(), mid, ds, count));
            assert(all_served(self.storage, before, mid, ds));
        }
        count
    }
}

impl<S: StorageEngine, G: Fn(&EntityState, &serde_json::Value) -> bool> Engine<S, G> {
    /// Marks the first pending effects as published, and as failed where that
    /// does not work. Returns how many were published.
    pub fn publish_pending(&mut self) -> (r: Result<usize, EngineError>)
        requires
            old(self).wf(),
        ensures
            final(self).wf(),
            final(self).same_but_store(old(self)),
            pending_published(old(self).store(), final(self).model(), publishing_view(r)),
    {
        let ghost m0 = self.model();
        let effects = match self.storage.get_pending_effects(256) {
            Ok(effects) => effects,
            Err(e) => {
                return Err(EngineError::Storage(e));
            },
        };
        let ghost list = effect_views(effects@);
        proof {
            let all = choose|all: Seq<EffectView>| #[trigger]
                m0.lists_pending(all) && list == (if 256 < all.len() {
                    all.take(256)
                } else {
                    all
                });
            assert forall|j: int| 0 <= j < list.len() implies m0.effects.contains_key(
                (#[trigger] list[j]).id,
            ) && m0.effects[list[j].id] == list[j] by {
                assert(list[j] == all[j]);
            }
            assert forall|j: int, k: int| 0 <= j < k < list.len() implies (#[trigger] list[j]).id
                != (#[trigger] list[k]).id by {
                assert(list[j] == all[j] && list[k] == all[k]);
                assert(StoreModel::leaves_before(all[j], all[k]));
                if list[j].id == list[k].id {
                    crate::order::lemma_text_lt_irreflexive(list[j].id);
                }
            }
        }
        let mut published: usize = 0;
        let ghost mut done: Seq<bool> = Seq::empty();
        let mut i: usize = 0;
        while i < effects.len()
            invariant
                i <= effects.len(),
                self.wf(),
                self.same_but_store(old(self)),
                m0 == old(self).model(),
                list == effect_views(effects@),
                forall|j: int|
                    0 <= j < list.len() ==> m0.effects.contains_key((#[trigger] list[j]).id)
                        && m0.effects[list[j].id] == list[j],
                forall|j: int, k: int|
                    0 <= j < k < list.len() ==> (#[trigger] list[j]).id != (#[trigger] list[k]).id,
                only_statuses(m0, self.model(), list),
                done.len() == i,
                published == yeses(done),
                published <= i,
                forall|j: int|
                    0 <= j < i ==> taken_off::<S>(
                        m0,
                        self.model(),
                        list,
                        (#[trigger] list[j]).id,
                        done[j],
                    ),
            decreases effects.len() - i,
        {
            let ghost m1 = self.model();
            let ghost done0 = done;
            let ghost id = list[i as int].id;
            assert(list[i as int] == effects[i as int]@);
            assert(m0.effects.contains_key(id));
            assert(m1.effects.contains_key(id));
            assert(list.contains(m0.effects[id]));
            proof {
                lemma_only_statuses(m0, m1, list, id, EffectStatus::Published);
            }
            match self.storage.mark_effect_published(effects[i].id.as_str()) {
                Ok(()) => {
                    published = published + 1;
                    proof {
                        done = done0.push(true);
                    }
                },
                Err(_) => {
                    let ghost m2 = self.model();
                    proof {
                        assert(publishing_failed::<S>(m0, list, id));
                        assert(m2.effects.contains_key(id));
                        lemma_only_statuses(m0, m2, list, id, EffectStatus::Failed);
                        done = done0.push(false);
                    }
                    let marked_failed = self.storage.mark_effect_failed(effects[i].id.as_str());
                    proof {
                        if marked_failed is Err {
                            assert(failing_failed::<S>(m0, list, id));
                        }
                    }
                },
            }
            proof {
                assert(done.drop_last() =~= done0);
                assert forall|j: int| 0 <= j < i + 1 implies taken_off::<S>(
                    m0,
                    self.model(),
                    list,
                    (#[trigger] list[j]).id,
                    done[j],
                ) by {
                    if j < i {
                        assert(list[j].id != id);
                        assert(taken_off::<S>(m0, m1, list, list[j].id, done0[j]));
                        assert(self.model().effects[list[j].id] == m1.effects[list[j].id]);
                    }
                }
            }
            i = i + 1;
        }
        assert(list.len() == effects.len());
        assert(all_taken_off::<S>(m0, self.model(), list, done));
        Ok(published)
    }

    /// One round of the dispatcher: delivers change records, then publishes
    /// pending effects. Returns how many records went out.
    pub fn dispatch(&mut self) -> (count: usize)
        requires
            old(self).wf(),
        ensures
            final(self).wf(),
            final(self).guard_map() == old(self).guard_map(),
            final(self).stopped() == old(self).stopped(),
            final(self).subscriber_limit() == old(self).subscriber_limit(),
            exists|r: Result<usize, EngineErrorView>| #[trigger]
                pending_published(old(self).store(), final(self).model(), r),
            exists|mid: Seq<SubscriberView>, ds: Seq<Drained>| #[trigger]
                passed(
                    old(self).model(),
                    old(self).subscribed(),
                    final(self).subscribed(),
                    mid,
                    ds,
                    count,
                ) && all_served(old(self).store(), old(self).subscribed(), mid, ds),
    {
        let count = self.dispatch_pass();
        let published = self.publish_pending();
        assert(pending_published(
            old(self).store(),
            self.model(),
            publishing_view(published),
        ));
        count
    }
}

proof fn lemma_only_statuses(
    m0: StoreModel,
    m1: StoreModel,
    list: Seq<EffectView>,
    id: Seq<char>,
    status: EffectStatus,
)
    requires
        only_statuses(m0, m1, list),
        m0.effects.contains_key(id),
        list.contains(m0.effects[id]),
    ensures
        only_statuses(m0, with_status(m1, id, status), list),
{
    let m2 = with_status(m1, id, status);
    assert(m1.effects.contains_key(id));
    assert(m2.effects.dom() =~= m0.effects.dom());
    assert forall|k: Seq<char>| #[trigger] m0.effects.contains_key(k) implies m2.effects[k] == (
    EffectView { status: m2.effects[k].status, ..m0.effects[k] }) by {
        assert(m1.effects[k] == (EffectView { status: m1.effects[k].status, ..m0.effects[k] }));
    }
}

} // verus!
