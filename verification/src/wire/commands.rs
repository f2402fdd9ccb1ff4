//! Commands on machines and entities, and how each is answered.
use crate::engine::engine::{defined, Engine};
use crate::engine::error::{EngineError, EngineErrorView};
use crate::engine::outcome::{
    came_of, entity_failed, history_failed, refused, standing_failed, stands, storing_failed,
    was_refused, RequestView, ResultView, TransitionResult,
};
use crate::fsm::error::{CoreError, CoreErrorView};
use crate::fsm::machine::MachineView;
use crate::fsm::record::{record_views, EntityState, RecordView, TransitionRecord};
use crate::json::{
    json_view, json_views, list_value, object, put_member, text_value, uint_value, Json,
};
use crate::proto::body::{names, packed_at};
use crate::proto::codec::{body_fault, decode_fields};
use crate::proto::error::{ProtoError, ProtoErrorView};
use crate::proto::fields::{
    either_uint_field, opt_text_field, opt_uint32_field, opt_uint_field, read_uint, text_field,
    text_or_empty_field, uint_field, value_or_null_field,
};
use crate::proto::frame::{held, Frame, FrameTag};
use crate::proto::messages::{CurrentMessage, HistoryMessage, TransitionMessage};
use crate::proto::push::{definition_field, repeats_in, DefineMachineMessage};
use crate::proto::records::{
    entity_json, entity_value, record_json, record_value, result_json, result_value,
};
use crate::storage::engine::{entity_label, StorageEngine};
use crate::storage::error::StorageErrorView;
use crate::storage::laws::law_latest_definition_is_unique;
use crate::storage::model::{entity_key, StoreModel};
use crate::text::{is_empty_text, opt_text};
use crate::wire::reply::{
    definition_code, definition_code_of, lookup_code, lookup_code_of, make_rejection, make_result,
    rejection_body, rejection_code, rejection_code_of, result_body, says, Answer,
};
use vstd::prelude::*;

verus! {

/// How many records of a history are sent where no limit is given.
pub const DEFAULT_HISTORY_LIMIT: u32 = 1000;

// ---------------------------------------------------------------------------
// Bodies that cannot be read
// ---------------------------------------------------------------------------

/// The body of a frame, for a reader that knows some fields.
pub open spec fn body_of(frame: Frame, fields: Seq<Seq<char>>) -> Option<Json> {
    packed_at(held(frame.body), fields)
}

/// The number of the request in a body; zero where it has none.
pub open spec fn request_of(body: Option<Json>) -> u64 {
    match body {
        Some(j) => match uint_field(j, "request_id"@) {
            Some(n) => n,
            None => 0,
        },
        None => 0,
    }
}

/// The number of the request in a frame; zero where it has none.
pub open spec fn request_in(frame: Frame) -> u64 {
    request_of(body_of(frame, seq!["request_id"@]))
}

/// Whether an answer rejects a request because its body cannot be read.
pub open spec fn is_bad_request(a: Answer, frame: Frame, fault: ProtoErrorView) -> bool {
    says(
        a,
        FrameTag::Rejection,
        rejection_body(request_in(frame), "bad_request"@, fault.message(), None, None),
    )
}

/// Rejects a request whose body cannot be read.
pub fn reject_body(frame: &Frame, e: &ProtoError) -> (a: Answer)
    ensures
        is_bad_request(a, *frame, e@),
{
    let fields: Vec<&str> = vec!["request_id"];
    assert(names(fields@) =~= seq!["request_id"@]);
    let request_id: u64 = match decode_fields(frame, &fields) {
        Ok(v) => match read_uint(&v, "request_id") {
            Some(n) => n,
            None => 0,
        },
        Err(_) => 0,
    };
    make_rejection(request_id, "bad_request".to_owned(), e.message(), None, None)
}

// ---------------------------------------------------------------------------
// Definitions
// ---------------------------------------------------------------------------

/// The name and version of a definition, as a reply shows them.
pub open spec fn machine_ref_json(name: Seq<char>, version: u32) -> Json {
    Json::Object(
        Map::empty().insert(
            "machine_ref"@,
            Json::Object(
                Map::empty().insert("name"@, Json::Text(name)).insert(
                    "version"@,
                    Json::uint(version as nat),
                ),
            ),
        ),
    )
}

/// What became of a definition.
pub open spec fn definition_view(r: Result<(), EngineError>) -> Result<(), EngineErrorView> {
    match r {
        Ok(()) => Ok(()),
        Err(e) => Err(e@),
    }
}

/// The answer to a definition, given what became of it.
pub open spec fn answers_definition(
    a: Answer,
    request_id: u64,
    name: Seq<char>,
    version: u32,
    r: Result<(), EngineErrorView>,
) -> bool {
    match r {
        Ok(()) => says(
            a,
            FrameTag::Result,
            result_body(request_id, machine_ref_json(name, version)),
        ),
        Err(e) => says(
            a,
            FrameTag::Rejection,
            rejection_body(request_id, definition_code(e), e.message(), None, None),
        ),
    }
}

/// The answer to a definition, given what became of it.
pub fn answer_definition(
    request_id: u64,
    name: &str,
    version: u32,
    r: &Result<(), EngineError>,
) -> (a: Answer)
    ensures
        answers_definition(
            a,
            request_id,
            name@,
            version,
            definition_view(*r),
        ),
{
    match r {
        Ok(()) => {
            let mut machine_ref = object();
            put_member(&mut machine_ref, "name", text_value(name));
            put_member(&mut machine_ref, "version", uint_value(version as u64));
            let mut payload = object();
            put_member(&mut payload, "machine_ref", machine_ref);
            make_result(request_id, payload)
        },
        Err(e) => make_rejection(request_id, definition_code_of(e), e.message(), None, None),
    }
}

/// Whether a definition was taken or refused, and the answer says so. It comes to
/// nothing only where the store failed.
pub open spec fn definition_handled<S: StorageEngine>(
    storage: S,
    m1: StoreModel,
    request_id: u64,
    def: MachineView,
    a: Answer,
) -> bool {
    exists|r: Result<(), EngineErrorView>| #[trigger]
        defined(storage.model(), m1, def, r) && answers_definition(
            a,
            request_id,
            def.name,
            def.version,
            r,
        ) && (r matches Err(e) ==> e.is_fault() ==> storing_failed(storage, def, e->Storage_0))
}

/// What a `DefineMachine` frame does.
pub open spec fn define_replied<S: StorageEngine>(
    storage: S,
    m1: StoreModel,
    frame: Frame,
    a: Answer,
) -> bool {
    let body = body_of(frame, DefineMachineMessage::fields());
    if body is None || !DefineMachineMessage::readable(body->0) || repeats_in(held(frame.body)) {
        m1 == storage.model() && is_bad_request(
            a,
            frame,
            body_fault(body, "malformed DefineMachine body"@),
        )
    } else {
        definition_handled(storage, m1, request_of(body), definition_field(body->0)->0, a)
    }
}

/// Registers a definition.
pub fn on_define<S: StorageEngine, G: Fn(&EntityState, &serde_json::Value) -> bool>(
    engine: &mut Engine<S, G>,
    frame: &Frame,
) -> (a: Answer)
    requires
        old(engine).wf(),
    ensures
        final(engine).wf(),
        final(engine).same_but_store(old(engine)),
        define_replied(old(engine).store(), final(engine).model(), *frame, a),
{
    let ghost s0 = engine.store();
    match DefineMachineMessage::from_frame(frame) {
        Err(e) => reject_body(frame, &e),
        Ok(msg) => {
            let name = msg.definition.name.clone();
            let version = msg.definition.version;
            let ghost def = msg.definition@;
            let r = engine.define_machine(msg.definition);
            let a = answer_definition(msg.request_id, name.as_str(), version, &r);
            assert(defined(s0.model(), engine.model(), def, definition_view(r)));
            a
        },
    }
}

// ---------------------------------------------------------------------------
// Transitions
// ---------------------------------------------------------------------------

/// Whether a body asks for a transition. Where it names no actor, the client
/// is taken for it.
pub open spec fn asks(j: Json, identity: Seq<char>, q: RequestView) -> bool {
    let actor = text_or_empty_field(j, "actor"@)->0;
    &&& q.entity_id == text_field(j, "entity_id"@)->0
    &&& q.machine == text_field(j, "machine"@)->0
    &&& q.event == text_field(j, "event"@)->0
    &&& q.actor == (if actor.len() == 0 {
        identity
    } else {
        actor
    })
    &&& json_view(q.ctx) == value_or_null_field(j, "ctx"@)
    &&& q.expected_version == opt_uint_field(j, "expected_version"@)->0
    &&& q.idempotency_key == opt_text_field(j, "idempotency_key"@)->0
}

/// What became of a transition.
pub open spec fn transition_view(r: Result<TransitionResult, EngineError>) -> Result<
    ResultView,
    EngineErrorView,
> {
    match r {
        Ok(t) => Ok(t@),
        Err(e) => Err(e@),
    }
}

/// What is known of an entity.
pub open spec fn standing_view(s: Option<(String, u64)>) -> Option<(Seq<char>, u64)> {
    match s {
        Some(k) => Some((k.0@, k.1)),
        None => None,
    }
}

/// The state that a rejection shows: the one that the error names, or else the
/// one that is known.
pub open spec fn state_shown(e: EngineErrorView, known: Option<(Seq<char>, u64)>) -> Option<
    Seq<char>,
> {
    match e {
        EngineErrorView::Core(CoreErrorView::IllegalTransition { current_state, .. }) => Some(
            current_state,
        ),
        _ => match known {
            Some(x) => Some(x.0),
            None => None,
        },
    }
}

/// The version that a rejection shows: the one that the error names, or else the
/// one that is known.
pub open spec fn version_shown(e: EngineErrorView, known: Option<(Seq<char>, u64)>) -> Option<u64> {
    match e {
        EngineErrorView::Core(CoreErrorView::VersionConflict { actual, .. }) => Some(actual),
        _ => match known {
            Some(x) => Some(x.1),
            None => None,
        },
    }
}

/// The answer to a transition, given what became of it and, where it was
/// refused, what is known of the entity.
pub open spec fn answers_transition(
    a: Answer,
    request_id: u64,
    r: Result<ResultView, EngineErrorView>,
    known: Option<(Seq<char>, u64)>,
) -> bool {
    match r {
        Ok(t) => says(a, FrameTag::Result, result_body(request_id, result_json(t))),
        Err(e) => says(
            a,
            FrameTag::Rejection,
            rejection_body(
                request_id,
                rejection_code(e),
                e.message(),
                state_shown(e, known),
                version_shown(e, known),
            ),
        ),
    }
}

/// The answer to a transition, given what became of it and what is known of
/// the entity.
pub fn answer_transition(
    request_id: u64,
    r: &Result<TransitionResult, EngineError>,
    known: Option<(String, u64)>,
) -> (a: Answer)
    ensures
        answers_transition(
            a,
            request_id,
            transition_view(*r),
            standing_view(known),
        ),
{
    match r {
        Ok(t) => make_result(request_id, result_value(t)),
        Err(e) => {
            let (known_state, known_version): (Option<String>, Option<u64>) = match known {
                Some((s, v)) => (Some(s), Some(v)),
                None => (None, None),
            };
            let state = match e {
                EngineError::Core(CoreError::IllegalTransition { current_state, .. }) => Some(
                    current_state.clone(),
                ),
                _ => known_state,
            };
            let version: Option<u64> = match e {
                EngineError::Core(CoreError::VersionConflict { actual, .. }) => Some(*actual),
                _ => known_version,
            };
            make_rejection(request_id, rejection_code_of(e), e.message(), state, version)
        },
    }
}

/// Whether what is said of an entity is so. Nothing is said of it where there is
/// no such machine, or where the store failed to give it.
pub open spec fn is_known<S: StorageEngine>(
    storage: S,
    q: RequestView,
    known: Option<(Seq<char>, u64)>,
) -> bool {
    let m = storage.model();
    match known {
        Some(k) => stands(m, q.entity_id, q.machine, k.0, k.1),
        None => {
            ||| !m.entities.contains_key(q.key()) && !m.has_machine(q.machine, None)
            ||| exists|x: StorageErrorView| #[trigger]
                standing_failed(&storage, q.entity_id, q.machine, x)
        },
    }
}

/// Whether a transition was made or refused, and the answer says so. The store
/// is `s0` before and `s1` after.
pub open spec fn transition_handled<
    S: StorageEngine,
    G: Fn(&EntityState, &serde_json::Value) -> bool,
>(
    s0: S,
    s1: S,
    guards: Map<Seq<char>, G>,
    stopped: bool,
    identity: Seq<char>,
    body: Json,
    a: Answer,
) -> bool {
    exists|
        q: RequestView,
        r: Result<ResultView, EngineErrorView>,
        known: Option<(Seq<char>, u64)>,
    |
        asks(body, identity, q) && #[trigger] came_of(s0, s1.model(), guards, stopped, q, r) && (
        r is Err ==> is_known(s1, q, known)) && #[trigger] answers_transition(
            a,
            uint_field(body, "request_id"@)->0,
            r,
            known,
        )
}

/// What a `Transition` frame does.
pub open spec fn transition_replied<
    S: StorageEngine,
    G: Fn(&EntityState, &serde_json::Value) -> bool,
>(
    s0: S,
    s1: S,
    guards: Map<Seq<char>, G>,
    stopped: bool,
    identity: Seq<char>,
    frame: Frame,
    a: Answer,
) -> bool {
    let body = body_of(frame, TransitionMessage::fields());
    if body is None || !TransitionMessage::readable(body->0) {
        s1 == s0 && is_bad_request(a, frame, body_fault(body, "malformed Transition body"@))
    } else {
        transition_handled(s0, s1, guards, stopped, identity, body->0, a)
    }
}

/// Fires an event on an entity.
pub fn on_transition<S: StorageEngine, G: Fn(&EntityState, &serde_json::Value) -> bool>(
    engine: &mut Engine<S, G>,
    identity: &str,
    frame: &Frame,
) -> (a: Answer)
    requires
        old(engine).wf(),
    ensures
        final(engine).wf(),
        final(engine).same_but_store(old(engine)),
        transition_replied(
            old(engine).store(),
            final(engine).store(),
            old(engine).guard_map(),
            old(engine).stopped(),
            identity@,
            *frame,
            a,
        ),
{
    let ghost s0 = engine.store();
    let msg = match TransitionMessage::from_frame(frame) {
        Err(e) => {
            return reject_body(frame, &e);
        },
        Ok(msg) => msg,
    };
    let ghost j = body_of(*frame, TransitionMessage::fields())->0;
    let actor = if is_empty_text(msg.actor.as_str()) {
        identity.to_owned()
    } else {
        msg.actor
    };
    let ghost q = RequestView {
        entity_id: msg.entity_id@,
        machine: msg.machine@,
        event: msg.event@,
        actor: actor@,
        ctx: msg.ctx,
        expected_version: msg.expected_version,
        idempotency_key: opt_text(msg.idempotency_key),
    };
    assert(asks(j, identity@, q));
    let r = engine.transition(
        msg.entity_id.as_str(),
        msg.machine.as_str(),
        msg.event.as_str(),
        actor.as_str(),
        msg.ctx,
        msg.expected_version,
        msg.idempotency_key,
    );
    let known: Option<(String, u64)> = match &r {
        Ok(_) => None,
        Err(_) => match engine.standing_of(msg.entity_id.as_str(), msg.machine.as_str()) {
            Ok(s) => s,
            Err(_) => None,
        },
    };
    assert(came_of(
        s0,
        engine.store().model(),
        engine.guard_map(),
        engine.stopped(),
        q,
        transition_view(r),
    ));
    assert(r is Err ==> is_known(engine.store(), q, standing_view(known)));
    let ghost told = standing_view(known);
    let a = answer_transition(msg.request_id, &r, known);
    assert(answers_transition(a, uint_field(j, "request_id"@)->0, transition_view(r), told));
    a
}

/// A transition that is refused is rejected with the state that the entity is in
/// and the version that it has, unless the store failed to give them.
pub proof fn law_refusals_show_where_the_entity_stands<
    S: StorageEngine,
    G: Fn(&EntityState, &serde_json::Value) -> bool,
>(
    s0: S,
    s1: S,
    guards: Map<Seq<char>, G>,
    q: RequestView,
    e: CoreErrorView,
    request_id: u64,
    known: Option<(Seq<char>, u64)>,
    a: Answer,
) -> (shown: (Seq<char>, u64))
    requires
        s0.model().wf(),
        came_of(s0, s1.model(), guards, false, q, Err(EngineErrorView::Core(e))),
        is_known(s1, q, known),
        answers_transition(a, request_id, Err(EngineErrorView::Core(e)), known),
        forall|x: StorageErrorView| !#[trigger]
            standing_failed(&s1, q.entity_id, q.machine, x),
    ensures
        stands(s1.model(), q.entity_id, q.machine, shown.0, shown.1),
        says(
            a,
            FrameTag::Rejection,
            rejection_body(
                request_id,
                rejection_code(EngineErrorView::Core(e)),
                EngineErrorView::Core(e).message(),
                Some(shown.0),
                Some(shown.1),
            ),
        ),
{
    let m = s0.model();
    assert(was_refused(m, guards, q, e));
    let def = choose|def: MachineView| #[trigger] refused(m, guards, def, q, e);
    assert(m.has_machine(q.machine, None));
    assert forall|d: MachineView| #[trigger] m.finds_machine(q.machine, None, d) implies d == def by {
        law_latest_definition_is_unique(m, q.machine, d, def);
    }
    known->0
}

// ---------------------------------------------------------------------------
// States
// ---------------------------------------------------------------------------

/// The answer to a question about an entity, given what was found.
pub open spec fn answers_current(
    a: Answer,
    request_id: u64,
    r: Result<crate::fsm::record::EntityView, EngineErrorView>,
) -> bool {
    match r {
        Ok(s) => says(a, FrameTag::Result, result_body(request_id, entity_json(s))),
        Err(e) => says(
            a,
            FrameTag::Rejection,
            rejection_body(request_id, lookup_code(e), e.message(), None, None),
        ),
    }
}

/// The answer to a question about an entity, given what was found.
pub fn answer_current(request_id: u64, r: &Result<EntityState, EngineError>) -> (a: Answer)
    ensures
        answers_current(
            a,
            request_id,
            match *r {
                Ok(s) => Ok::<crate::fsm::record::EntityView, EngineErrorView>(s@),
                Err(e) => Err::<crate::fsm::record::EntityView, EngineErrorView>(e@),
            },
        ),
{
    match r {
        Ok(s) => make_result(request_id, entity_value(s)),
        Err(e) => make_rejection(request_id, lookup_code_of(e), e.message(), None, None),
    }
}

/// Whether the answer is that of a store that failed with `x`.
pub open spec fn fault_answered(a: Answer, request_id: u64, x: StorageErrorView) -> bool {
    says(
        a,
        FrameTag::Rejection,
        rejection_body(
            request_id,
            "internal_error"@,
            EngineErrorView::Storage(x).message(),
            None,
            None,
        ),
    )
}

/// What a `Current` frame is answered with.
pub open spec fn current_replied<S: StorageEngine>(storage: S, frame: Frame, a: Answer) -> bool {
    let m = storage.model();
    let body = body_of(frame, CurrentMessage::fields());
    if body is None || !CurrentMessage::readable(body->0) {
        is_bad_request(a, frame, body_fault(body, "malformed Current body"@))
    } else {
        let id = request_of(body);
        let entity_id = text_field(body->0, "entity_id"@)->0;
        let machine = text_field(body->0, "machine"@)->0;
        let key = entity_key(entity_id, machine);
        ||| exists|x: StorageErrorView| #[trigger]
            entity_failed(&storage, entity_id, machine, x) && fault_answered(a, id, x)
        ||| m.entities.contains_key(key) && says(
            a,
            FrameTag::Result,
            result_body(id, entity_json(m.entities[key])),
        )
        ||| !m.entities.contains_key(key) && says(
            a,
            FrameTag::Rejection,
            rejection_body(
                id,
                "unknown_entity"@,
                EngineErrorView::Storage(
                    StorageErrorView::NotFound(entity_label(entity_id, machine)),
                ).message(),
                None,
                None,
            ),
        )
    }
}

/// Tells the state of an entity.
pub fn on_current<S: StorageEngine, G: Fn(&EntityState, &serde_json::Value) -> bool>(
    engine: &Engine<S, G>,
    frame: &Frame,
) -> (a: Answer)
    requires
        engine.wf(),
    ensures
        current_replied(engine.store(), *frame, a),
{
    match CurrentMessage::from_frame(frame) {
        Err(e) => reject_body(frame, &e),
        Ok(msg) => {
            let r = engine.current(msg.entity_id.as_str(), msg.machine.as_str());
            let a = answer_current(msg.request_id, &r);
            proof {
                if r is Err && r->Err_0@.is_fault() {
                    let x = r->Err_0@->Storage_0;
                    assert(lookup_code(r->Err_0@) == "internal_error"@);
                    assert(entity_failed(&engine.store(), msg.entity_id@, msg.machine@, x));
                    assert(fault_answered(a, msg.request_id, x));
                }
            }
            a
        },
    }
}

// ---------------------------------------------------------------------------
// Histories
// ---------------------------------------------------------------------------

/// Records, as a reply shows them.
pub open spec fn records_json(s: Seq<RecordView>) -> Json {
    Json::Object(
        Map::empty().insert(
            "records"@,
            Json::List(Seq::new(s.len(), |i: int| record_json(s[i]))),
        ),
    )
}

/// Records, as a reply shows them.
pub fn records_value(records: &Vec<TransitionRecord>) -> (v: serde_json::Value)
    ensures
        json_view(v) == records_json(record_views(records@)),
{
    let mut items: Vec<serde_json::Value> = Vec::new();
    let mut i: usize = 0;
    while i < records.len()
        invariant
            i <= records@.len(),
            items@.len() == i,
            forall|k: int|
                0 <= k < i ==> json_view(#[trigger] items@[k]) == record_json(records@[k]@),
        decreases records@.len() - i,
    {
        items.push(record_value(&records[i]));
        i = i + 1;
    }
    let mut v = object();
    assert(json_views(items@) =~= Seq::new(
        record_views(records@).len(),
        |k: int| record_json(record_views(records@)[k]),
    ));
    put_member(&mut v, "records", list_value(items));
    v
}

/// The answer to a question about a history, given what was found.
pub open spec fn answers_history(
    a: Answer,
    request_id: u64,
    r: Result<Seq<RecordView>, EngineErrorView>,
) -> bool {
    match r {
        Ok(s) => says(a, FrameTag::Result, result_body(request_id, records_json(s))),
        Err(e) => says(
            a,
            FrameTag::Rejection,
            rejection_body(request_id, lookup_code(e), e.message(), None, None),
        ),
    }
}

/// The answer to a question about a history, given what was found.
pub fn answer_history(request_id: u64, r: &Result<Vec<TransitionRecord>, EngineError>) -> (a: Answer)
    ensures
        answers_history(
            a,
            request_id,
            match *r {
                Ok(v) => Ok::<Seq<RecordView>, EngineErrorView>(record_views(v@)),
                Err(e) => Err::<Seq<RecordView>, EngineErrorView>(e@),
            },
        ),
{
    match r {
        Ok(records) => make_result(request_id, records_value(records)),
        Err(e) => make_rejection(request_id, lookup_code_of(e), e.message(), None, None),
    }
}

/// Whether the store failed to give a history, and the answer says so.
pub open spec fn history_unavailable<S: StorageEngine>(
    storage: S,
    entity_id: Seq<char>,
    machine: Seq<char>,
    limit: Option<u32>,
    after: Option<u64>,
    request_id: u64,
    a: Answer,
) -> bool {
    exists|x: StorageErrorView| #[trigger]
        history_failed(&storage, entity_id, machine, limit, after, x) && fault_answered(
            a,
            request_id,
            x,
        )
}

/// What a `History` frame is answered with.
pub open spec fn history_replied<S: StorageEngine>(storage: S, frame: Frame, a: Answer) -> bool {
    let m = storage.model();
    let body = body_of(frame, HistoryMessage::fields());
    if body is None || !HistoryMessage::readable(body->0) {
        is_bad_request(a, frame, body_fault(body, "malformed History body"@))
    } else {
        let j = body->0;
        let limit = match opt_uint32_field(j, "limit"@)->0 {
            Some(n) => n,
            None => DEFAULT_HISTORY_LIMIT,
        };
        ||| history_unavailable(
            storage,
            text_field(j, "entity_id"@)->0,
            text_field(j, "machine"@)->0,
            Some(limit),
            either_uint_field(j, "after_seq"@, "after_sequence"@)->0,
            request_of(body),
            a,
        )
        ||| says(
            a,
            FrameTag::Result,
            result_body(
                request_of(body),
                records_json(
                    m.history(
                        text_field(j, "entity_id"@)->0,
                        text_field(j, "machine"@)->0,
                        Some(limit),
                        either_uint_field(j, "after_seq"@, "after_sequence"@)->0,
                    ),
                ),
            ),
        )
    }
}

/// Tells the history of an entity.
pub fn on_history<S: StorageEngine, G: Fn(&EntityState, &serde_json::Value) -> bool>(
    engine: &Engine<S, G>,
    frame: &Frame,
) -> (a: Answer)
    requires
        engine.wf(),
    ensures
        history_replied(engine.store(), *frame, a),
{
    match HistoryMessage::from_frame(frame) {
        Err(e) => reject_body(frame, &e),
        Ok(msg) => {
            let limit: u32 = match msg.limit {
                Some(n) => n,
                None => DEFAULT_HISTORY_LIMIT,
            };
            let r = engine.history(
                msg.entity_id.as_str(),
                msg.machine.as_str(),
                Some(limit),
                msg.after_sequence,
            );
            let a = answer_history(msg.request_id, &r);
            proof {
                if r is Err {
                    let x = r->Err_0@->Storage_0;
                    assert(lookup_code(r->Err_0@) == "internal_error"@);
                    assert(history_failed(
                        &engine.store(),
                        msg.entity_id@,
                        msg.machine@,
                        Some(limit),
                        msg.after_sequence,
                        x,
                    ));
                    assert(fault_answered(a, msg.request_id, x));
                    assert(history_unavailable(
                        engine.store(),
                        msg.entity_id@,
                        msg.machine@,
                        Some(limit),
                        msg.after_sequence,
                        msg.request_id,
                        a,
                    ));
                }
            }
            a
        },
    }
}

} // verus!
