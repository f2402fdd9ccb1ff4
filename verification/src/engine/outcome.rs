//! What a request for a transition asks, and what may come of it.
use crate::clock::Timestamp;
use crate::engine::error::EngineErrorView;
use crate::engine::guard::guard_says;
use crate::fsm::error::CoreErrorView;
use crate::fsm::machine::{MachineDefinition, MachineView};
use crate::fsm::planner::{effects_on, failed_guard, has_plan, planned_rule};
use crate::fsm::record::{
    effect_views, Effect, EffectStatus, EffectView, EntityState, EntityView, RecordView,
    TransitionRecord,
};
use crate::id::is_uuid4;
use crate::json::{json_view, Json};
use crate::storage::engine::{key_label, machine_label, StorageEngine};
use crate::storage::error::{StorageError, StorageErrorView};
use crate::storage::model::{entity_key, StoreModel};
use vstd::prelude::*;

verus! {

/// The answer to a transition that was made.
#[derive(Debug)]
pub struct TransitionResult {
    pub entity_id: String,
    pub machine: String,
    pub from_state: String,
    pub to_state: String,
    pub version: u64,
    pub transition_id: String,
    pub sequence: u64,
    pub timestamp: Timestamp,
}

/// The contents of a `TransitionResult`.
#[verifier::ext_equal]
pub struct ResultView {
    pub entity_id: Seq<char>,
    pub machine: Seq<char>,
    pub from_state: Seq<char>,
    pub to_state: Seq<char>,
    pub version: u64,
    pub transition_id: Seq<char>,
    pub sequence: u64,
    pub timestamp: Timestamp,
}

impl View for TransitionResult {
    type V = ResultView;

    open spec fn view(&self) -> ResultView {
        ResultView {
            entity_id: self.entity_id@,
            machine: self.machine@,
            from_state: self.from_state@,
            to_state: self.to_state@,
            version: self.version,
            transition_id: self.transition_id@,
            sequence: self.sequence,
            timestamp: self.timestamp,
        }
    }
}

/// What a stored transition is answered with.
pub open spec fn result_of(r: RecordView) -> ResultView {
    ResultView {
        entity_id: r.entity_id,
        machine: r.machine,
        from_state: r.from_state,
        to_state: r.to_state,
        version: r.version,
        transition_id: r.id,
        sequence: r.sequence,
        timestamp: r.timestamp,
    }
}

impl TransitionResult {
    /// The answer to a stored transition.
    pub fn of_record(record: &TransitionRecord) -> (r: TransitionResult)
        ensures
            r@ == result_of(record@),
    {
        TransitionResult {
            entity_id: record.entity_id.clone(),
            machine: record.machine.clone(),
            from_state: record.from_state.clone(),
            to_state: record.to_state.clone(),
            version: record.version,
            transition_id: record.id.clone(),
            sequence: record.sequence,
            timestamp: record.timestamp,
        }
    }
}

/// What a request for a transition says.
#[verifier::ext_equal]
pub struct RequestView {
    pub entity_id: Seq<char>,
    pub machine: Seq<char>,
    pub event: Seq<char>,
    pub actor: Seq<char>,
    pub ctx: serde_json::Value,
    pub expected_version: Option<u64>,
    pub idempotency_key: Option<Seq<char>>,
}

impl RequestView {
    /// The key of the entity.
    pub open spec fn key(self) -> Seq<char> {
        entity_key(self.entity_id, self.machine)
    }

    /// Whether no transition was stored under the key of the request.
    pub open spec fn is_new(self, m: StoreModel) -> bool {
        self.idempotency_key is Some ==> m.keyed(self.idempotency_key->0) is None
    }

    /// Whether a stored transition did what the request asks for.
    pub open spec fn repeats(self, r: RecordView) -> bool {
        r.entity_id == self.entity_id && r.machine == self.machine && r.event == self.event
    }
}

/// The state that an entity is in; the initial one before its first transition.
pub open spec fn state_in(m: StoreModel, def: MachineView, key: Seq<char>) -> Seq<char> {
    if m.entities.contains_key(key) {
        m.entities[key].current_state
    } else {
        def.initial_state
    }
}

/// The version that an entity has; zero before its first transition.
pub open spec fn version_in(m: StoreModel, key: Seq<char>) -> u64 {
    if m.entities.contains_key(key) {
        m.entities[key].version
    } else {
        0
    }
}

/// Whether an entity is in a state and has a version: before its first
/// transition those are the initial state of the latest definition and zero.
pub open spec fn stands(
    m: StoreModel,
    entity_id: Seq<char>,
    machine: Seq<char>,
    state: Seq<char>,
    version: u64,
) -> bool {
    let key = entity_key(entity_id, machine);
    if m.entities.contains_key(key) {
        state == m.entities[key].current_state && version == m.entities[key].version
    } else {
        version == 0 && exists|def: MachineView| #[trigger]
            m.finds_machine(machine, None, def) && state == def.initial_state
    }
}

/// Why a request is refused before any guard is asked, if it is.
pub open spec fn refusal(m: StoreModel, def: MachineView, req: RequestView) -> Option<
    CoreErrorView,
> {
    let version = version_in(m, req.key());
    let state = state_in(m, def, req.key());
    if req.expected_version is Some && req.expected_version->0 != version {
        Some(
            CoreErrorView::VersionConflict {
                entity_id: req.entity_id,
                machine: req.machine,
                expected: req.expected_version->0,
                actual: version,
            },
        )
    } else if !has_plan(def, state, req.event) {
        Some(
            CoreErrorView::IllegalTransition {
                entity_id: req.entity_id,
                machine: def.name,
                event: req.event,
                current_state: state,
            },
        )
    } else {
        None
    }
}

/// Whether `state` is what guards are shown of an entity.
pub open spec fn shown_to_guards(
    m: StoreModel,
    def: MachineView,
    req: RequestView,
    state: EntityState,
) -> bool {
    &&& state.entity_id@ == req.entity_id
    &&& state.machine@ == req.machine
    &&& state.current_state@ == state_in(m, def, req.key())
    &&& state.version == version_in(m, req.key())
}

/// Whether `results` are answers of the guards called `names`.
pub open spec fn guards_said<G: Fn(&EntityState, &serde_json::Value) -> bool>(
    guards: Map<Seq<char>, G>,
    names: Seq<Seq<char>>,
    state: EntityState,
    ctx: serde_json::Value,
    results: Map<Seq<char>, bool>,
) -> bool {
    forall|i: int|
        0 <= i < names.len() ==> results.contains_key(#[trigger] names[i]) && guard_says(
            guards,
            names[i],
            &state,
            &ctx,
            results[names[i]],
        )
}

/// The verdict of the guards on a request that is otherwise in order: the first
/// that objects, for some answers that they may give.
pub open spec fn guards_ruled<G: Fn(&EntityState, &serde_json::Value) -> bool>(
    guards: Map<Seq<char>, G>,
    m: StoreModel,
    def: MachineView,
    req: RequestView,
    verdict: Option<Seq<char>>,
) -> bool {
    let names = planned_rule(def, state_in(m, def, req.key()), req.event).guards;
    exists|state: EntityState, results: Map<Seq<char>, bool>| #[trigger]
        guards_said(guards, names, state, req.ctx, results) && shown_to_guards(m, def, req, state)
            && verdict == failed_guard(names, results, names.len())
}

/// The log entry of a transition, not yet numbered.
pub open spec fn record_for(
    req: RequestView,
    from: Seq<char>,
    to: Seq<char>,
    version: u64,
    id: Seq<char>,
    at: Timestamp,
) -> RecordView {
    RecordView {
        id,
        sequence: 0,
        entity_id: req.entity_id,
        machine: req.machine,
        from_state: from,
        to_state: to,
        event: req.event,
        actor: req.actor,
        ctx: json_view(req.ctx),
        idempotency_key: req.idempotency_key,
        version,
        timestamp: at,
    }
}

/// The entity after a transition. Its time of creation is that of its first.
pub open spec fn entity_for(
    m: StoreModel,
    req: RequestView,
    to: Seq<char>,
    version: u64,
    now: Timestamp,
) -> EntityView {
    EntityView {
        entity_id: req.entity_id,
        machine: req.machine,
        current_state: to,
        version,
        updated_at: now,
        created_at: if m.entities.contains_key(req.key()) {
            m.entities[req.key()].created_at
        } else {
            now
        },
    }
}

/// Whether `s` are the effects that a transition on `event` emits.
pub open spec fn emits(def: MachineView, event: Seq<char>, id: Seq<char>, s: Seq<EffectView>) -> bool {
    let rules = effects_on(def, event);
    &&& s.len() == rules.len()
    &&& forall|i: int|
        0 <= i < s.len() ==> {
            let e = #[trigger] s[i];
            &&& e.transition_id == id
            &&& e.effect_name == rules[i].effect
            &&& e.payload == (match rules[i].payload {
                Some(p) => p,
                None => Json::Null,
            })
            &&& e.status == EffectStatus::Pending
            &&& is_uuid4(e.id)
        }
}

/// What a transition with a given identifier, times and effects leaves behind
/// and is answered with.
pub open spec fn performed_as(
    m0: StoreModel,
    m1: StoreModel,
    def: MachineView,
    req: RequestView,
    out: ResultView,
    id: Seq<char>,
    at: Timestamp,
    now: Timestamp,
    effects: Seq<EffectView>,
) -> bool {
    let from = state_in(m0, def, req.key());
    let to = planned_rule(def, from, req.event).to_state;
    let version = (version_in(m0, req.key()) + 1) as u64;
    let record = record_for(req, from, to, version, id, at);
    &&& version_in(m0, req.key()) < u64::MAX
    &&& m0.sequence < u64::MAX
    &&& is_uuid4(id)
    &&& emits(def, req.event, id, effects)
    &&& m1 == m0.executed(record, entity_for(m0, req, to, version, now), effects)
    &&& out == result_of(m0.numbered(record))
}

/// What a transition leaves behind and is answered with.
pub open spec fn performed(
    m0: StoreModel,
    m1: StoreModel,
    def: MachineView,
    req: RequestView,
    out: ResultView,
) -> bool {
    exists|id: Seq<char>, at: Timestamp, now: Timestamp, effects: Seq<EffectView>| #[trigger]
        performed_as(m0, m1, def, req, out, id, at, now, effects)
}

/// What may come of a request. It is answered from the log where its
/// idempotency key is there; else it is refused as the definition, the version
/// or a guard demands, or carried out. Only the last changes the store.
pub open spec fn answered<G: Fn(&EntityState, &serde_json::Value) -> bool>(
    m0: StoreModel,
    m1: StoreModel,
    guards: Map<Seq<char>, G>,
    shutting_down: bool,
    req: RequestView,
    r: Result<ResultView, EngineErrorView>,
) -> bool {
    match r {
        Ok(out) => !shutting_down && {
            ||| m1 == m0 && was_repeated(m0, req, out)
            ||| was_carried_out(m0, m1, guards, req, out)
        },
        Err(EngineErrorView::ShuttingDown) => shutting_down && m1 == m0,
        Err(EngineErrorView::Core(e)) => !shutting_down && m1 == m0 && req.is_new(m0) && was_refused(
            m0,
            guards,
            req,
            e,
        ),
        Err(EngineErrorView::Storage(e)) => !shutting_down && {
            ||| e.is_fault() && (m1 == m0 || e is TransactionFailed && exists|out: ResultView|
                #[trigger] was_carried_out(m0, m1, guards, req, out))
            ||| m1 == m0 && req.is_new(m0) && !m0.has_machine(req.machine, None) && e
                == StorageErrorView::NotFound(machine_label(req.machine, None))
            ||| m1 == m0 && !req.is_new(m0) && !req.repeats(m0.keyed(req.idempotency_key->0)->0)
                && e == StorageErrorView::AlreadyExists(key_label(req.idempotency_key->0))
        },
        _ => false,
    }
}

// ---------------------------------------------------------------------------
// Failures of the store
// ---------------------------------------------------------------------------

/// Whether the store failed when it was asked for what is kept under a key.
pub open spec fn lookup_failed<S: StorageEngine>(storage: &S, key: Option<Seq<char>>) -> bool {
    key is Some && exists|k: &str, e: StorageError|
        k@ == key->0 && #[trigger] call_ensures(
            S::check_idempotency,
            (storage, k),
            Err::<Option<TransitionRecord>, StorageError>(e),
        )
}

/// Whether the store failed with `x` when it was asked for a definition.
pub open spec fn definition_failed<S: StorageEngine>(
    storage: &S,
    name: Seq<char>,
    version: Option<u32>,
    x: StorageErrorView,
) -> bool {
    x.is_fault() && exists|n: &str, e: StorageError|
        n@ == name && e@ == x && #[trigger] call_ensures(
            S::get_machine,
            (storage, n, version),
            Err::<MachineDefinition, StorageError>(e),
        )
}

/// Whether the store failed with `x` when it was asked for the state of an
/// entity.
pub open spec fn entity_failed<S: StorageEngine>(
    storage: &S,
    entity_id: Seq<char>,
    machine: Seq<char>,
    x: StorageErrorView,
) -> bool {
    x.is_fault() && exists|i: &str, n: &str, e: StorageError|
        i@ == entity_id && n@ == machine && e@ == x && #[trigger] call_ensures(
            S::get_entity_state,
            (storage, i, n),
            Err::<EntityState, StorageError>(e),
        )
}

/// Whether the store failed with `x` when it was asked for all definitions.
pub open spec fn machines_failed<S: StorageEngine>(storage: &S, x: StorageErrorView) -> bool {
    x.is_fault() && exists|e: StorageError|
        e@ == x && #[trigger] call_ensures(
            S::list_machines,
            (storage,),
            Err::<Vec<MachineDefinition>, StorageError>(e),
        )
}

/// Whether the store failed with `x` when it was asked for a history.
pub open spec fn history_failed<S: StorageEngine>(
    storage: &S,
    entity_id: Seq<char>,
    machine: Seq<char>,
    limit: Option<u32>,
    after: Option<u64>,
    x: StorageErrorView,
) -> bool {
    x.is_fault() && exists|i: &str, n: &str, e: StorageError|
        i@ == entity_id && n@ == machine && e@ == x && #[trigger] call_ensures(
            S::get_history,
            (storage, i, n, limit, after),
            Err::<Vec<TransitionRecord>, StorageError>(e),
        )
}

/// Whether the store failed with `x` when it was to store a definition, or, where
/// it has one of that version, to give that one.
pub open spec fn storing_failed<S: StorageEngine>(
    storage: S,
    def: MachineView,
    x: StorageErrorView,
) -> bool {
    ||| x.is_fault() && exists|s: &mut S, d: &MachineDefinition, e: StorageError|
        *s == storage && d@ == def && e@ == x && #[trigger] call_ensures(
            S::store_machine,
            (s, d),
            Err::<(), StorageError>(e),
        )
    ||| x.is_fault() && exists|s: S, n: &str, e: StorageError|
        s.model() == storage.model() && n@ == def.name && e@ == x && #[trigger] call_ensures(
            S::get_machine,
            (&s, n, Some(def.version)),
            Err::<MachineDefinition, StorageError>(e),
        )
}

/// Whether the store failed with `x` when it was asked how an entity stands.
pub open spec fn standing_failed<S: StorageEngine>(
    storage: &S,
    entity_id: Seq<char>,
    machine: Seq<char>,
    x: StorageErrorView,
) -> bool {
    entity_failed(storage, entity_id, machine, x) || definition_failed(storage, machine, None, x)
}

/// Whether the transition that a definition plans for a request was handed to
/// the store, with a given identifier and times, and the store failed with `x`.
pub open spec fn handing_over_failed<S: StorageEngine>(
    storage: S,
    def: MachineView,
    req: RequestView,
    id: Seq<char>,
    at: Timestamp,
    now: Timestamp,
    x: StorageErrorView,
) -> bool {
    let m0 = storage.model();
    let from = state_in(m0, def, req.key());
    let to = planned_rule(def, from, req.event).to_state;
    let version = (version_in(m0, req.key()) + 1) as u64;
    exists|
        s: &mut S,
        record: &mut TransitionRecord,
        state: &EntityState,
        effects: &Vec<Effect>,
        e: StorageError,
    |
        *s == storage && (*record)@ == record_for(req, from, to, version, id, at) && state@
            == entity_for(m0, req, to, version, now) && emits(
            def,
            req.event,
            id,
            effect_views(effects@),
        ) && e@ == x && #[trigger] call_ensures(
            S::execute_transition,
            (s, record, state, effects),
            Err::<u64, StorageError>(e),
        )
}

/// Whether the store failed with `x` when it was to carry a request out, which
/// nothing else stood against.
pub open spec fn execution_failed<S: StorageEngine>(
    storage: S,
    req: RequestView,
    x: StorageErrorView,
) -> bool {
    exists|def: MachineView, id: Seq<char>, at: Timestamp, now: Timestamp|
        storage.model().finds_machine(req.machine, None, def) && refusal(
            storage.model(),
            def,
            req,
        ) is None && #[trigger] handing_over_failed(storage, def, req, id, at, now, x)
}

/// Whether a request came to nothing because of the store: it failed with `x` in
/// one of the steps, or the versions of the entity are used up.
pub open spec fn transition_failed<S: StorageEngine>(
    storage: S,
    req: RequestView,
    x: StorageErrorView,
) -> bool {
    ||| standing_failed(&storage, req.entity_id, req.machine, x)
    ||| execution_failed(storage, req, x)
    ||| version_in(storage.model(), req.key()) == u64::MAX && x == StorageErrorView::Internal(
        "version numbers are used up"@,
    )
}

/// What may come of a request whose key the store failed to look up. It is
/// treated as one that was not made before; that it was is found out when it is
/// to be carried out.
pub open spec fn answered_unseen<G: Fn(&EntityState, &serde_json::Value) -> bool>(
    m0: StoreModel,
    m1: StoreModel,
    guards: Map<Seq<char>, G>,
    req: RequestView,
    r: Result<ResultView, EngineErrorView>,
) -> bool {
    m1 == m0 && match r {
        Err(EngineErrorView::Core(e)) => was_refused(m0, guards, req, e),
        Err(EngineErrorView::Storage(e)) => {
            ||| !m0.has_machine(req.machine, None) && e == StorageErrorView::NotFound(
                machine_label(req.machine, None),
            )
            ||| !req.is_new(m0) && e == StorageErrorView::AlreadyExists(
                key_label(req.idempotency_key->0),
            )
        },
        _ => false,
    }
}

/// What comes of a request that is made of an engine over `storage`. It is
/// answered as its key demands, unless the store failed to look the key up, and
/// it comes to nothing only where the store failed.
pub open spec fn came_of<S: StorageEngine, G: Fn(&EntityState, &serde_json::Value) -> bool>(
    storage: S,
    m1: StoreModel,
    guards: Map<Seq<char>, G>,
    stopped: bool,
    req: RequestView,
    r: Result<ResultView, EngineErrorView>,
) -> bool {
    &&& answered(storage.model(), m1, guards, stopped, req, r) || (!stopped && lookup_failed(
        &storage,
        req.idempotency_key,
    ) && answered_unseen(storage.model(), m1, guards, req, r))
    &&& r matches Err(EngineErrorView::Storage(x)) ==> x.is_fault() ==> transition_failed(
        storage,
        req,
        x,
    )
}

/// Whether the request was answered before, with `out`.
pub open spec fn was_repeated(m: StoreModel, req: RequestView, out: ResultView) -> bool {
    &&& req.idempotency_key is Some
    &&& m.keyed(req.idempotency_key->0) is Some
    &&& req.repeats(m.keyed(req.idempotency_key->0)->0)
    &&& out == result_of(m.keyed(req.idempotency_key->0)->0)
}

/// Whether the latest definition allowed the request, no guard objected, and it
/// was carried out.
pub open spec fn carried_out<G: Fn(&EntityState, &serde_json::Value) -> bool>(
    m0: StoreModel,
    m1: StoreModel,
    guards: Map<Seq<char>, G>,
    def: MachineView,
    req: RequestView,
    out: ResultView,
) -> bool {
    &&& m0.finds_machine(req.machine, None, def)
    &&& req.is_new(m0)
    &&& refusal(m0, def, req) is None
    &&& guards_ruled(guards, m0, def, req, None)
    &&& performed(m0, m1, def, req, out)
}

/// Whether the request was carried out.
pub open spec fn was_carried_out<G: Fn(&EntityState, &serde_json::Value) -> bool>(
    m0: StoreModel,
    m1: StoreModel,
    guards: Map<Seq<char>, G>,
    req: RequestView,
    out: ResultView,
) -> bool {
    exists|def: MachineView| #[trigger] carried_out(m0, m1, guards, def, req, out)
}

/// Whether the request was refused with `e`.
pub open spec fn was_refused<G: Fn(&EntityState, &serde_json::Value) -> bool>(
    m: StoreModel,
    guards: Map<Seq<char>, G>,
    req: RequestView,
    e: CoreErrorView,
) -> bool {
    exists|def: MachineView| #[trigger] refused(m, guards, def, req, e)
}

/// Whether the latest definition or a guard refuses the request with `e`.
pub open spec fn refused<G: Fn(&EntityState, &serde_json::Value) -> bool>(
    m: StoreModel,
    guards: Map<Seq<char>, G>,
    def: MachineView,
    req: RequestView,
    e: CoreErrorView,
) -> bool {
    &&& m.finds_machine(req.machine, None, def)
    &&& {
        ||| refusal(m, def, req) == Some(e)
        ||| refusal(m, def, req) is None && e is GuardFailed && guards_ruled(
            guards,
            m,
            def,
            req,
            Some(e->guard_name),
        ) && e == (CoreErrorView::GuardFailed {
            guard_name: e->guard_name,
            reason: "guard evaluated to false"@,
        })
    }
}

} // verus!
