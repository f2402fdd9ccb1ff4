//! What the frames of a client come to, in terms of the fields of their bodies, of
//! what is stored and of what is answered.
use crate::engine::calls::{
    law_allowed_requests_are_carried_out, law_requests_heed_the_version,
    lemma_carried_out_as_asked, lemma_store_failed, store_failed,
};
use crate::engine::defining::{
    lemma_accepted_is_in_force, lemma_refused_differs, lemma_storing_broke, storing_broke,
};
use crate::engine::engine::{defined, Engine};
use crate::engine::error::EngineErrorView;
use crate::engine::outcome::{
    came_of, history_failed, state_in, storing_failed, was_carried_out, RequestView, ResultView,
};
use crate::fsm::machine::{law_fault_free_is_well_formed, MachineDefinition, MachineView};
use crate::fsm::planner::{has_plan, rule_answers};
use crate::fsm::record::{EntityState, RecordView, TransitionRecord};
use crate::json::{json_view, Json};
use crate::proto::body::{holds, law_bytes_that_hold_an_object_read_as_it};
use crate::proto::codec::body_fault;
use crate::proto::definition::read_machine;
use crate::proto::fields::lemma_uint_of;
use crate::proto::frame::{held, Frame, FrameTag};
use crate::proto::messages::{HistoryMessage, TransitionMessage};
use crate::proto::push::{definition_field, repeats_in, DefineMachineMessage};
use crate::proto::records::{record_json, result_json};
use crate::storage::calls::lemma_history;
use crate::storage::engine::StorageEngine;
use crate::storage::error::{StorageError, StorageErrorView};
use crate::storage::laws::law_latest_definition_is_unique;
use crate::storage::model::entity_key;
use crate::wire::commands::{
    answers_definition, answers_transition, asks, body_of, fault_answered, history_unavailable,
    is_known, machine_ref_json, records_json, request_in,
    state_shown, version_shown,
};
use crate::wire::reply::{definition_code, rejection_code, Answer};
use crate::wire::server::{handle_frame, Reply};
use crate::wire::session::Session;
use crate::wire::shapes::{
    law_record_shape, law_rejection_body_shape, law_result_body_shape, law_result_shape,
};
use vstd::prelude::*;

verus! {

/// A history is read page by page: the records of a reply are transitions of the
/// entity with numbers above the one asked for, whatever limit is given, as they
/// are logged and in the order of the log. They are the first of those, as many as
/// the limit allows, or a thousand where none is given. Only where the store failed
/// to give them is there no result.
pub proof fn law_histories_are_read_page_by_page<
    S: StorageEngine,
    G: Fn(&EntityState, &serde_json::Value) -> bool,
>(
    e: &mut Engine<S, G>,
    after: Engine<S, G>,
    s: &mut Session,
    frame: Frame,
    body: Map<Seq<char>, Json>,
    r: Reply,
    request_id: u64,
    entity_id: Seq<char>,
    machine: Seq<char>,
    limit: Option<u32>,
    cursor: Option<u64>,
) -> (numbers: Seq<u64>)
    requires
        old(e).wf(),
        call_ensures(handle_frame::<S, G>, (e, s, frame), r),
        after == *final(e),
        frame.tag == FrameTag::History,
        holds(held(frame.body), body),
        body.contains_key("request_id"@) && body["request_id"@] == Json::uint(request_id as nat),
        body.contains_key("entity_id"@) && body["entity_id"@] == Json::Text(entity_id),
        body.contains_key("machine"@) && body["machine"@] == Json::Text(machine),
        match limit {
            Some(n) => body.contains_key("limit"@) && body["limit"@] == Json::uint(n as nat),
            None => !body.contains_key("limit"@) || body["limit"@] is Null,
        },
        match cursor {
            Some(n) => if body.contains_key("after_seq"@) {
                body["after_seq"@] == Json::uint(n as nat)
            } else {
                body.contains_key("after_sequence"@) && body["after_sequence"@] == Json::uint(
                    n as nat,
                )
            },
            None => !body.contains_key("after_seq"@) && !body.contains_key("after_sequence"@),
        },
    ensures
        ({
            let m = old(e).model();
            let key = entity_key(entity_id, machine);
            let most = match limit {
                Some(l) => l as int,
                None => 1000,
            };
            &&& after.model() == m
            &&& !r.close
            &&& r.answer matches Some(Answer::Say { tag, body: said })
            &&& json_view(said).member("request_id"@) == Some(Json::uint(request_id as nat))
            &&& tag == FrameTag::Result || (tag == FrameTag::Rejection && exists|
                i: &str,
                n: &str,
                l: Option<u32>,
                f: StorageError,
            |
                i@ == entity_id && n@ == machine && #[trigger] call_ensures(
                    S::get_history,
                    (&old(e).store(), i, n, l, cursor),
                    Err::<Vec<TransitionRecord>, StorageError>(f),
                ))
            &&& tag == FrameTag::Result ==> {
                &&& json_view(said).member("payload"@) matches Some(payload)
                &&& payload.member("records"@) matches Some(Json::List(records))
                &&& records.len() == numbers.len() && numbers.len() <= most
                &&& forall|i: int|
                    #![trigger records[i]]
                    0 <= i < records.len() ==> {
                        let t = m.log[numbers[i]];
                        &&& m.log.contains_key(numbers[i])
                        &&& entity_key(t.entity_id, t.machine) == key
                        &&& cursor matches Some(a) ==> a < numbers[i]
                        &&& records[i].member("sequence"@) == Some(Json::uint(numbers[i] as nat))
                        &&& records[i].member("id"@) == Some(Json::Text(t.id))
                        &&& records[i].member("entity_id"@) == Some(Json::Text(t.entity_id))
                        &&& records[i].member("machine"@) == Some(Json::Text(t.machine))
                        &&& records[i].member("from_state"@) == Some(Json::Text(t.from_state))
                        &&& records[i].member("to_state"@) == Some(Json::Text(t.to_state))
                        &&& records[i].member("event"@) == Some(Json::Text(t.event))
                        &&& records[i].member("actor"@) == Some(Json::Text(t.actor))
                        &&& records[i].member("ctx"@) == Some(t.ctx)
                        &&& records[i].member("version"@) == Some(Json::uint(t.version as nat))
                    }
                &&& forall|i: int, j: int| 0 <= i < j < numbers.len() ==> numbers[i] < numbers[j]
                &&& forall|n: u64|
                    #![trigger m.log[n]]
                    m.log.contains_key(n) && entity_key(m.log[n].entity_id, m.log[n].machine) == key
                        && (cursor matches Some(a) ==> a < n) ==> numbers.contains(n) || (
                    numbers.len() == most && forall|i: int|
                        0 <= i < numbers.len() ==> #[trigger] numbers[i] < n)
            }
        }),
{
    let j = Json::Object(body);
    law_bytes_that_hold_an_object_read_as_it(held(frame.body), body, HistoryMessage::fields());
    broadcast use lemma_uint_of;

    old(e).law_store_is_in_order();
    let m = old(e).model();
    let most: u32 = match limit {
        Some(l) => l,
        None => 1000,
    };
    if limit is Some {
        lemma_uint_of(limit->0 as u64);
    }
    if cursor is Some {
        lemma_uint_of(cursor->0);
    }
    lemma_uint_of(request_id);
    let h = m.history(entity_id, machine, Some(most), cursor);
    lemma_history(m, entity_id, machine, Some(most), cursor);
    let numbers = Seq::new(h.len(), |i: int| h[i].sequence);
    assert(HistoryMessage::readable(j));
    law_result_body_shape(request_id, records_json(h));
    let a = r.answer->0;
    if history_unavailable(
        old(e).store(),
        entity_id,
        machine,
        Some(most),
        cursor,
        request_id,
        a,
    ) {
        let x = choose|x: StorageErrorView| #[trigger]
            history_failed(&old(e).store(), entity_id, machine, Some(most), cursor, x)
                && fault_answered(a, request_id, x);
        law_rejection_body_shape(
            request_id,
            "internal_error"@,
            EngineErrorView::Storage(x).message(),
            None,
            None,
        );
    }
    let records = Seq::new(h.len(), |i: int| record_json(h[i]));
    assert(records_json(h).member("records"@) == Some(Json::List(records)));
    assert forall|i: int| 0 <= i < h.len() implies #[trigger] records[i] == record_json(h[i])
        && m.log[numbers[i]] == h[i] by {
        law_record_shape(h[i]);
    }
    assert forall|i: int| #![trigger records[i]] 0 <= i < h.len() implies records[i].member(
        "sequence"@,
    ) == Some(Json::uint(numbers[i] as nat)) by {
        law_record_shape(h[i]);
    }
    assert forall|x: RecordView| #![trigger record_json(x)] record_json(x).member("id"@) == Some(
        Json::Text(x.id),
    ) && record_json(x).member("entity_id"@) == Some(Json::Text(x.entity_id)) && record_json(
        x,
    ).member("machine"@) == Some(Json::Text(x.machine)) && record_json(x).member("from_state"@)
        == Some(Json::Text(x.from_state)) && record_json(x).member("to_state"@) == Some(
        Json::Text(x.to_state),
    ) && record_json(x).member("event"@) == Some(Json::Text(x.event)) && record_json(x).member(
        "actor"@,
    ) == Some(Json::Text(x.actor)) && record_json(x).member("ctx"@) == Some(x.ctx) && record_json(
        x,
    ).member("version"@) == Some(Json::uint(x.version as nat)) by {
        law_record_shape(x);
    }
    assert forall|n: u64|
        #![trigger m.log[n]]
        m.log.contains_key(n) && entity_key(m.log[n].entity_id, m.log[n].machine) == entity_key(
            entity_id,
            machine,
        ) && (cursor matches Some(a) ==> a < n) implies numbers.contains(n) || (numbers.len()
        == most && forall|i: int| 0 <= i < numbers.len() ==> #[trigger] numbers[i] < n) by {
        if exists|i: int| 0 <= i < h.len() && (#[trigger] h[i]).sequence == n {
            let i = choose|i: int| 0 <= i < h.len() && (#[trigger] h[i]).sequence == n;
            assert(numbers[i] == n);
        } else {
            assert forall|i: int| 0 <= i < numbers.len() implies #[trigger] numbers[i] < n by {
                assert(h[i].sequence < n);
            }
        }
    }
    numbers
}


/// A `Transition` frame with a key that was not used either changes nothing that is
/// stored, or puts one entry at the end of the log. The entry is of the entity, the
/// machine, the event, the context and the key that the body names, and of the actor
/// that it names, or else of the client. Where the body names a version, the entity
/// had that one. A result tells of that entry, and there is none where nothing was
/// logged.
pub proof fn law_requested_transitions_are_logged<
    S: StorageEngine,
    G: Fn(&EntityState, &serde_json::Value) -> bool,
>(
    e: &mut Engine<S, G>,
    after: Engine<S, G>,
    s: &mut Session,
    frame: Frame,
    body: Map<Seq<char>, Json>,
    r: Reply,
    request_id: u64,
    entity_id: Seq<char>,
    machine: Seq<char>,
    event: Seq<char>,
    actor: Option<Seq<char>>,
    ctx: Json,
    expected_version: Option<u64>,
    idempotency_key: Option<Seq<char>>,
)
    requires
        old(e).wf(),
        call_ensures(handle_frame::<S, G>, (e, s, frame), r),
        after == *final(e),
        frame.tag == FrameTag::Transition,
        holds(held(frame.body), body),
        body.contains_key("request_id"@) && body["request_id"@] == Json::uint(request_id as nat),
        body.contains_key("entity_id"@) && body["entity_id"@] == Json::Text(entity_id),
        body.contains_key("machine"@) && body["machine"@] == Json::Text(machine),
        body.contains_key("event"@) && body["event"@] == Json::Text(event),
        match actor {
            Some(t) => body.contains_key("actor"@) && body["actor"@] == Json::Text(t),
            None => !body.contains_key("actor"@) || body["actor"@] is Null,
        },
        ctx == (if body.contains_key("ctx"@) {
            body["ctx"@]
        } else {
            Json::Null
        }),
        match expected_version {
            Some(n) => body.contains_key("expected_version"@)
                && body["expected_version"@] == Json::uint(n as nat),
            None => !body.contains_key("expected_version"@) || body["expected_version"@] is Null,
        },
        match idempotency_key {
            Some(t) => body.contains_key("idempotency_key"@)
                && body["idempotency_key"@] == Json::Text(t),
            None => !body.contains_key("idempotency_key"@) || body["idempotency_key"@] is Null,
        },
        idempotency_key matches Some(k) ==> !old(e).model().idempotency.contains_key(k),
    ensures
        !r.close,
        r.answer matches Some(Answer::Say { tag, body: said }) && (tag == FrameTag::Result || tag
            == FrameTag::Rejection) && json_view(said).member("request_id"@) == Some(
            Json::uint(request_id as nat),
        ) && (tag == FrameTag::Result ==> after.model() != old(e).model()),
        after.model() == old(e).model() || ({
            let m0 = old(e).model();
            let m1 = after.model();
            let key = entity_key(entity_id, machine);
            let entry = m1.log[m1.sequence];
            &&& !old(e).stopped()
            &&& m1.sequence == m0.sequence + 1
            &&& m1.log == m0.log.insert(m1.sequence, entry)
            &&& entry.sequence == m1.sequence
            &&& entry.entity_id == entity_id && entry.machine == machine
            &&& entry.event == event && entry.ctx == ctx
            &&& entry.idempotency_key == idempotency_key
            &&& entry.actor == (if actor is Some && actor->0.len() > 0 {
                actor->0
            } else {
                old(s).id@
            })
            &&& entry.version == 1 + (if m0.entities.contains_key(key) {
                m0.entities[key].version as int
            } else {
                0
            })
            &&& m0.entities.contains_key(key) ==> entry.from_state == m0.entities[key].current_state
            &&& expected_version matches Some(v) ==> entry.version == v + 1
            &&& m1.entities == m0.entities.insert(key, m1.entities[key])
            &&& m1.entities[key].current_state == entry.to_state
            &&& m1.entities[key].version == entry.version
            &&& m1.machines == m0.machines
            &&& r.answer matches Some(Answer::Say { tag, body: said }) ==> tag == FrameTag::Result
                ==> {
                &&& json_view(said).member("payload"@) matches Some(p)
                &&& p.member("entity_id"@) == Some(Json::Text(entity_id))
                &&& p.member("machine"@) == Some(Json::Text(machine))
                &&& p.member("from"@) == Some(Json::Text(entry.from_state))
                &&& p.member("state"@) == Some(Json::Text(entry.to_state))
                &&& p.member("version"@) == Some(Json::uint(entry.version as nat))
                &&& p.member("transition_id"@) == Some(Json::Text(entry.id))
                &&& p.member("sequence"@) == Some(Json::uint(entry.sequence as nat))
            }
        }),
{
    let j = Json::Object(body);
    law_bytes_that_hold_an_object_read_as_it(held(frame.body), body, TransitionMessage::fields());
    broadcast use lemma_uint_of;

    old(e).law_store_is_in_order();
    lemma_uint_of(request_id);
    if expected_version is Some {
        lemma_uint_of(expected_version->0);
    }
    let m0 = old(e).model();
    let m1 = after.model();
    let guards = old(e).guard_map();
    assert(TransitionMessage::readable(j));
    let a = r.answer->0;
    let (q, out, known) = choose|
        q: RequestView,
        out: Result<ResultView, EngineErrorView>,
        known: Option<(Seq<char>, u64)>,
    |
        asks(j, old(s).id@, q) && #[trigger] came_of(
            old(e).store(),
            m1,
            guards,
            old(e).stopped(),
            q,
            out,
        ) && (out is Err ==> is_known(after.store(), q, known)) && #[trigger] answers_transition(
            a,
            request_id,
            out,
            known,
        );
    if out is Ok {
        lemma_carried_out_as_asked(m0, m1, guards, q, out->Ok_0);
        law_result_shape(out->Ok_0);
        law_result_body_shape(request_id, result_json(out->Ok_0));
        assert(m1.sequence != m0.sequence);
    } else {
        law_rejection_body_shape(
            request_id,
            rejection_code(out->Err_0),
            out->Err_0.message(),
            state_shown(out->Err_0, known),
            version_shown(out->Err_0, known),
        );
        if m1 != m0 {
            assert(exists|o: ResultView| #[trigger] was_carried_out(m0, m1, guards, q, o));
            let o = choose|o: ResultView| #[trigger] was_carried_out(m0, m1, guards, q, o);
            lemma_carried_out_as_asked(m0, m1, guards, q, o);
        }
    }
}

/// A `Transition` frame that names another version than the entity has, with a key
/// that was not used, changes nothing that is stored and is rejected. Where the
/// machine is known and the engine runs, the rejection tells of a conflict and of
/// the version that the entity has, unless the store failed.
pub proof fn law_requested_versions_are_heeded<
    S: StorageEngine,
    G: Fn(&EntityState, &serde_json::Value) -> bool,
>(
    e: &mut Engine<S, G>,
    after: Engine<S, G>,
    s: &mut Session,
    frame: Frame,
    body: Map<Seq<char>, Json>,
    r: Reply,
    request_id: u64,
    entity_id: Seq<char>,
    machine: Seq<char>,
    event: Seq<char>,
    actor: Option<Seq<char>>,
    ctx: Json,
    expected_version: Option<u64>,
    idempotency_key: Option<Seq<char>>,
    actual: u64,
    def: MachineView,
)
    requires
        old(e).wf(),
        call_ensures(handle_frame::<S, G>, (e, s, frame), r),
        after == *final(e),
        frame.tag == FrameTag::Transition,
        holds(held(frame.body), body),
        body.contains_key("request_id"@) && body["request_id"@] == Json::uint(request_id as nat),
        body.contains_key("entity_id"@) && body["entity_id"@] == Json::Text(entity_id),
        body.contains_key("machine"@) && body["machine"@] == Json::Text(machine),
        body.contains_key("event"@) && body["event"@] == Json::Text(event),
        match actor {
            Some(t) => body.contains_key("actor"@) && body["actor"@] == Json::Text(t),
            None => !body.contains_key("actor"@) || body["actor"@] is Null,
        },
        ctx == (if body.contains_key("ctx"@) {
            body["ctx"@]
        } else {
            Json::Null
        }),
        match expected_version {
            Some(n) => body.contains_key("expected_version"@)
                && body["expected_version"@] == Json::uint(n as nat),
            None => !body.contains_key("expected_version"@) || body["expected_version"@] is Null,
        },
        match idempotency_key {
            Some(t) => body.contains_key("idempotency_key"@)
                && body["idempotency_key"@] == Json::Text(t),
            None => !body.contains_key("idempotency_key"@) || body["idempotency_key"@] is Null,
        },
        idempotency_key matches Some(k) ==> !old(e).model().idempotency.contains_key(k),
        ({
            let entities = old(e).model().entities;
            let key = entity_key(entity_id, machine);
            actual == (if entities.contains_key(key) {
                entities[key].version
            } else {
                0
            })
        }),
        expected_version is Some,
        expected_version->0 != actual,
    ensures
        after.model() == old(e).model(),
        r.answer matches Some(Answer::Say { tag, body: said }) && tag == FrameTag::Rejection && (({
            let machines = old(e).model().machines;
            &&& !old(e).stopped()
            &&& machines.contains_key((machine, def.version))
            &&& machines[(machine, def.version)] == def
            &&& forall|n: u32| #[trigger] machines.contains_key((machine, n)) ==> n <= def.version
        }) ==> {
            ||| json_view(said).member("code"@) == Some(Json::Text("version_conflict"@))
                && json_view(said).member("version"@) == Some(Json::uint(actual as nat))
            ||| json_view(said).member("code"@) == Some(Json::Text("internal_error"@))
                && store_failed(old(e).store(), entity_id, machine, event)
        }),
{
    let j = Json::Object(body);
    law_bytes_that_hold_an_object_read_as_it(held(frame.body), body, TransitionMessage::fields());
    broadcast use lemma_uint_of;

    old(e).law_store_is_in_order();
    lemma_uint_of(request_id);
    if expected_version is Some {
        lemma_uint_of(expected_version->0);
    }
    let m0 = old(e).model();
    let m1 = after.model();
    let guards = old(e).guard_map();
    assert(TransitionMessage::readable(j));
    let a = r.answer->0;
    let (q, out, known) = choose|
        q: RequestView,
        out: Result<ResultView, EngineErrorView>,
        known: Option<(Seq<char>, u64)>,
    |
        asks(j, old(s).id@, q) && #[trigger] came_of(
            old(e).store(),
            m1,
            guards,
            old(e).stopped(),
            q,
            out,
        ) && (out is Err ==> is_known(after.store(), q, known)) && #[trigger] answers_transition(
            a,
            request_id,
            out,
            known,
        );
    if out is Ok {
        lemma_carried_out_as_asked(m0, m1, guards, q, out->Ok_0);
    } else if m1 != m0 {
        assert(exists|o: ResultView| #[trigger] was_carried_out(m0, m1, guards, q, o));
        let o = choose|o: ResultView| #[trigger] was_carried_out(m0, m1, guards, q, o);
        lemma_carried_out_as_asked(m0, m1, guards, q, o);
    }
    law_rejection_body_shape(
        request_id,
        rejection_code(out->Err_0),
        out->Err_0.message(),
        state_shown(out->Err_0, known),
        version_shown(out->Err_0, known),
    );
    if out matches Err(EngineErrorView::Storage(x)) && x.is_fault() {
        lemma_store_failed(old(e).store(), q, out->Err_0->Storage_0);
    }
    if !old(e).stopped() && m0.machines.contains_key((machine, def.version)) && m0.machines[(
        machine,
        def.version,
    )] == def && (forall|n: u32| #[trigger]
        m0.machines.contains_key((machine, n)) ==> n <= def.version) {
        law_requests_heed_the_version(old(e).store(), m1, guards, q, out, def);
    }
}


/// A `Transition` frame for an event that no rule of the latest definition takes
/// from the state of the entity, with a key that was not used, changes nothing that
/// is stored. Where the engine runs and no version stands in the way, it is rejected
/// as illegal, with the state of the entity, unless the store failed.
pub proof fn law_requested_events_need_a_rule<
    S: StorageEngine,
    G: Fn(&EntityState, &serde_json::Value) -> bool,
>(
    e: &mut Engine<S, G>,
    after: Engine<S, G>,
    s: &mut Session,
    frame: Frame,
    body: Map<Seq<char>, Json>,
    r: Reply,
    request_id: u64,
    entity_id: Seq<char>,
    machine: Seq<char>,
    event: Seq<char>,
    actor: Option<Seq<char>>,
    ctx: Json,
    expected_version: Option<u64>,
    idempotency_key: Option<Seq<char>>,
    def: MachineView,
    standing: Seq<char>,
)
    requires
        old(e).wf(),
        call_ensures(handle_frame::<S, G>, (e, s, frame), r),
        after == *final(e),
        frame.tag == FrameTag::Transition,
        holds(held(frame.body), body),
        body.contains_key("request_id"@) && body["request_id"@] == Json::uint(request_id as nat),
        body.contains_key("entity_id"@) && body["entity_id"@] == Json::Text(entity_id),
        body.contains_key("machine"@) && body["machine"@] == Json::Text(machine),
        body.contains_key("event"@) && body["event"@] == Json::Text(event),
        match actor {
            Some(t) => body.contains_key("actor"@) && body["actor"@] == Json::Text(t),
            None => !body.contains_key("actor"@) || body["actor"@] is Null,
        },
        ctx == (if body.contains_key("ctx"@) {
            body["ctx"@]
        } else {
            Json::Null
        }),
        match expected_version {
            Some(n) => body.contains_key("expected_version"@)
                && body["expected_version"@] == Json::uint(n as nat),
            None => !body.contains_key("expected_version"@) || body["expected_version"@] is Null,
        },
        match idempotency_key {
            Some(t) => body.contains_key("idempotency_key"@)
                && body["idempotency_key"@] == Json::Text(t),
            None => !body.contains_key("idempotency_key"@) || body["idempotency_key"@] is Null,
        },
        idempotency_key matches Some(k) ==> !old(e).model().idempotency.contains_key(k),
        !old(e).stopped(),
        old(e).model().machines.contains_key((machine, def.version)),
        old(e).model().machines[(machine, def.version)] == def,
        forall|n: u32| #[trigger]
            old(e).model().machines.contains_key((machine, n)) ==> n <= def.version,
        ({
            let entities = old(e).model().entities;
            let key = entity_key(entity_id, machine);
            &&& standing == (if entities.contains_key(key) {
                entities[key].current_state
            } else {
                def.initial_state
            })
            &&& expected_version matches Some(v) ==> v == (if entities.contains_key(key) {
                entities[key].version
            } else {
                0
            })
        }),
        forall|j: int|
            0 <= j < def.transitions.len() ==> !((#[trigger] def.transitions[j]).event == event
                && def.transitions[j].from_states.contains(standing)),
    ensures
        after.model() == old(e).model(),
        r.answer matches Some(Answer::Say { tag, body: said }) && tag == FrameTag::Rejection && {
            ||| json_view(said).member("code"@) == Some(Json::Text("illegal_transition"@))
                && json_view(said).member("current_state"@) == Some(Json::Text(standing))
            ||| json_view(said).member("code"@) == Some(Json::Text("internal_error"@))
                && store_failed(old(e).store(), entity_id, machine, event)
        },
{
    let j = Json::Object(body);
    law_bytes_that_hold_an_object_read_as_it(held(frame.body), body, TransitionMessage::fields());
    broadcast use lemma_uint_of;

    old(e).law_store_is_in_order();
    lemma_uint_of(request_id);
    if expected_version is Some {
        lemma_uint_of(expected_version->0);
    }
    let m0 = old(e).model();
    let m1 = after.model();
    let guards = old(e).guard_map();
    assert(TransitionMessage::readable(j));
    let a = r.answer->0;
    let (q, out, known) = choose|
        q: RequestView,
        out: Result<ResultView, EngineErrorView>,
        known: Option<(Seq<char>, u64)>,
    |
        asks(j, old(s).id@, q) && #[trigger] came_of(
            old(e).store(),
            m1,
            guards,
            old(e).stopped(),
            q,
            out,
        ) && (out is Err ==> is_known(after.store(), q, known)) && #[trigger] answers_transition(
            a,
            request_id,
            out,
            known,
        );
    law_rejection_body_shape(
        request_id,
        rejection_code(out->Err_0),
        out->Err_0.message(),
        state_shown(out->Err_0, known),
        version_shown(out->Err_0, known),
    );
    if out matches Err(EngineErrorView::Storage(x)) && x.is_fault() {
        lemma_store_failed(old(e).store(), q, out->Err_0->Storage_0);
    }
    assert(m0.finds_machine(machine, None, def));
    assert forall|d: MachineView| #[trigger] m0.finds_machine(machine, None, d) implies d
        == def by {
        law_latest_definition_is_unique(m0, machine, def, d);
    }
    assert(standing == state_in(m0, def, q.key()));
    if has_plan(def, standing, event) {
        let j = choose|j: int|
            0 <= j < def.transitions.len() && rule_answers(
                #[trigger] def.transitions[j],
                standing,
                event,
            );
        assert(false);
    }
}

/// A `Transition` frame for a machine that has no definition, with a key that was
/// not used, changes nothing that is stored. Where the engine runs, the rejection
/// says that the machine is unknown, unless the store failed.
pub proof fn law_requests_need_a_machine<
    S: StorageEngine,
    G: Fn(&EntityState, &serde_json::Value) -> bool,
>(
    e: &mut Engine<S, G>,
    after: Engine<S, G>,
    s: &mut Session,
    frame: Frame,
    body: Map<Seq<char>, Json>,
    r: Reply,
    request_id: u64,
    entity_id: Seq<char>,
    machine: Seq<char>,
    event: Seq<char>,
    actor: Option<Seq<char>>,
    ctx: Json,
    expected_version: Option<u64>,
    idempotency_key: Option<Seq<char>>,
)
    requires
        old(e).wf(),
        call_ensures(handle_frame::<S, G>, (e, s, frame), r),
        after == *final(e),
        frame.tag == FrameTag::Transition,
        holds(held(frame.body), body),
        body.contains_key("request_id"@) && body["request_id"@] == Json::uint(request_id as nat),
        body.contains_key("entity_id"@) && body["entity_id"@] == Json::Text(entity_id),
        body.contains_key("machine"@) && body["machine"@] == Json::Text(machine),
        body.contains_key("event"@) && body["event"@] == Json::Text(event),
        match actor {
            Some(t) => body.contains_key("actor"@) && body["actor"@] == Json::Text(t),
            None => !body.contains_key("actor"@) || body["actor"@] is Null,
        },
        ctx == (if body.contains_key("ctx"@) {
            body["ctx"@]
        } else {
            Json::Null
        }),
        match expected_version {
            Some(n) => body.contains_key("expected_version"@)
                && body["expected_version"@] == Json::uint(n as nat),
            None => !body.contains_key("expected_version"@) || body["expected_version"@] is Null,
        },
        match idempotency_key {
            Some(t) => body.contains_key("idempotency_key"@)
                && body["idempotency_key"@] == Json::Text(t),
            None => !body.contains_key("idempotency_key"@) || body["idempotency_key"@] is Null,
        },
        idempotency_key matches Some(k) ==> !old(e).model().idempotency.contains_key(k),
        !old(e).stopped(),
        forall|n: u32| !#[trigger] old(e).model().machines.contains_key((machine, n)),
    ensures
        after.model() == old(e).model(),
        r.answer matches Some(Answer::Say { tag, body: said }) && tag == FrameTag::Rejection && {
            ||| json_view(said).member("code"@) == Some(Json::Text("unknown_machine"@))
            ||| json_view(said).member("code"@) == Some(Json::Text("internal_error"@))
                && store_failed(old(e).store(), entity_id, machine, event)
        },
{
    let j = Json::Object(body);
    law_bytes_that_hold_an_object_read_as_it(held(frame.body), body, TransitionMessage::fields());
    broadcast use lemma_uint_of;

    old(e).law_store_is_in_order();
    lemma_uint_of(request_id);
    if expected_version is Some {
        lemma_uint_of(expected_version->0);
    }
    let m0 = old(e).model();
    let m1 = after.model();
    let guards = old(e).guard_map();
    assert(TransitionMessage::readable(j));
    let a = r.answer->0;
    let (q, out, known) = choose|
        q: RequestView,
        out: Result<ResultView, EngineErrorView>,
        known: Option<(Seq<char>, u64)>,
    |
        asks(j, old(s).id@, q) && #[trigger] came_of(
            old(e).store(),
            m1,
            guards,
            old(e).stopped(),
            q,
            out,
        ) && (out is Err ==> is_known(after.store(), q, known)) && #[trigger] answers_transition(
            a,
            request_id,
            out,
            known,
        );
    law_rejection_body_shape(
        request_id,
        rejection_code(out->Err_0),
        out->Err_0.message(),
        state_shown(out->Err_0, known),
        version_shown(out->Err_0, known),
    );
    if out matches Err(EngineErrorView::Storage(x)) && x.is_fault() {
        lemma_store_failed(old(e).store(), q, out->Err_0->Storage_0);
    }
}


/// A `DefineMachine` frame whose definition reads as `d` is answered with the name
/// and the version of `d` only where that definition, rule for rule, is in force
/// afterwards. Where it is rejected, what is stored stays, unless the store failed.
/// A version that the store has with other states, another initial state or other
/// rules is rejected, and so is a definition that is not consistent.
pub proof fn law_requested_definitions_are_in_force<
    S: StorageEngine,
    G: Fn(&EntityState, &serde_json::Value) -> bool,
>(
    e: &mut Engine<S, G>,
    after: Engine<S, G>,
    s: &mut Session,
    frame: Frame,
    body: Map<Seq<char>, Json>,
    r: Reply,
    request_id: u64,
    name: Seq<char>,
    version: u32,
    v: serde_json::Value,
    read: MachineDefinition,
)
    requires
        old(e).wf(),
        call_ensures(handle_frame::<S, G>, (e, s, frame), r),
        after == *final(e),
        frame.tag == FrameTag::DefineMachine,
        holds(held(frame.body), body),
        body.contains_key("request_id"@) && body["request_id"@] == Json::uint(request_id as nat),
        body.contains_key("name"@) && body["name"@] == Json::Text(name),
        body.contains_key("version"@) && body["version"@] == Json::uint(version as nat),
        body.contains_key("definition"@) && body["definition"@] == json_view(v),
        call_ensures(read_machine, (&v,), Some(read)),
    ensures
        ({
            let m0 = old(e).model();
            let m1 = after.model();
            let d = read@;
            &&& !r.close
            &&& r.answer matches Some(Answer::Say { tag, body: said })
            &&& tag == FrameTag::Result || tag == FrameTag::Rejection
            &&& tag == FrameTag::Result ==> {
                let k = (d.name, d.version);
                let stored = m1.machines[k];
                &&& m1.machines.contains_key(k)
                &&& stored.name == d.name && stored.version == d.version
                &&& stored.states == d.states && stored.initial_state == d.initial_state
                &&& stored.transitions == d.transitions
                &&& stored.effects.len() == d.effects.len()
                &&& forall|i: int|
                    0 <= i < d.effects.len() ==> {
                        let was = #[trigger] d.effects[i];
                        let is = stored.effects[i];
                        &&& is.on_event == was.on_event && is.effect == was.effect
                        &&& (is.payload is None || is.payload == Some(Json::Null)) <==> (
                        was.payload is None || was.payload == Some(Json::Null))
                        &&& is.payload == was.payload || is.payload is None || was.payload is None
                    }
                &&& forall|j: (Seq<char>, u32)|
                    j != k ==> (#[trigger] m1.machines.contains_key(j)
                        <==> m0.machines.contains_key(j)) && m1.machines[j] == m0.machines[j]
                &&& m0.machines.contains_key(k) ==> m1 == m0
                &&& m1.entities == m0.entities && m1.log == m0.log
                &&& json_view(said).member("request_id"@) == Some(Json::uint(request_id as nat))
                &&& json_view(said).member("payload"@) matches Some(p)
                &&& p.member("machine_ref"@) matches Some(it)
                &&& it.member("name"@) == Some(Json::Text(d.name))
                &&& it.member("version"@) == Some(Json::uint(d.version as nat))
            }
            &&& tag == FrameTag::Rejection ==> m1 == m0 || storing_broke(old(e).store(), d)
            &&& tag == FrameTag::Rejection && !repeats_in(held(frame.body)) ==> {
                ||| !d.well_formed() && json_view(said).member("code"@) == Some(
                    Json::Text("invalid_definition"@),
                )
                ||| m0.machines.contains_key((d.name, d.version)) && m0.machines[(
                    d.name,
                    d.version,
                )] != (MachineView {
                    created_at: m0.machines[(d.name, d.version)].created_at,
                    ..d
                }) && json_view(said).member("code"@) == Some(
                    Json::Text("version_already_exists"@),
                )
                ||| json_view(said).member("code"@) == Some(Json::Text("internal_error"@))
                    && storing_broke(old(e).store(), d)
            }
            &&& !d.well_formed() ==> tag == FrameTag::Rejection
        }),
{
    let j = Json::Object(body);
    law_bytes_that_hold_an_object_read_as_it(held(frame.body), body,
        DefineMachineMessage::fields());
    broadcast use lemma_uint_of;

    old(e).law_store_is_in_order();
    lemma_uint_of(request_id);
    lemma_uint_of(version as u64);
    let m0 = old(e).model();
    let m1 = after.model();
    let d = read@;
    let a = r.answer->0;
    assert(definition_field(j) == Some(d));
    assert(DefineMachineMessage::readable(j));
    law_fault_free_is_well_formed(d);
    reveal_strlit("name");
    reveal_strlit("version");
    assert("name"@.len() == 4 && "version"@.len() == 7);
    law_result_body_shape(request_id, machine_ref_json(d.name, d.version));
    if repeats_in(held(frame.body)) {
        let fault = body_fault(
            body_of(frame, DefineMachineMessage::fields()),
            "malformed DefineMachine body"@,
        );
        law_rejection_body_shape(request_in(frame), "bad_request"@, fault.message(), None, None);
    } else {
        let out = choose|out: Result<(), EngineErrorView>| #[trigger]
            defined(m0, m1, d, out) && answers_definition(
                a,
                request_id,
                d.name,
                d.version,
                out,
            ) && (out matches Err(x) ==> x.is_fault() ==> storing_failed(
                old(e).store(),
                d,
                x->Storage_0,
            ));
        if out is Err && out->Err_0.is_fault() {
            lemma_storing_broke(old(e).store(), d, out->Err_0->Storage_0);
        }
        if out is Ok {
            lemma_accepted_is_in_force(m0, m1, d);
        } else {
            if let EngineErrorView::Storage(StorageErrorView::AlreadyExists(label)) = out->Err_0 {
                lemma_refused_differs(m0, m1, d, label);
            }
            law_rejection_body_shape(
                request_id,
                definition_code(out->Err_0),
                out->Err_0.message(),
                None,
                None,
            );
        }
    }
}

/// A `Transition` frame that the latest definition has a rule for, at the version that
/// it names if it names one, with a key that was not used, is answered with a result,
/// and the entity stands where the rule leads, provided that the engine runs and that
/// none of the rule's guards is registered; unless the store fails.
pub proof fn law_allowed_requests_are_granted<
    S: StorageEngine,
    G: Fn(&EntityState, &serde_json::Value) -> bool,
>(
    e: &mut Engine<S, G>,
    after: Engine<S, G>,
    s: &mut Session,
    frame: Frame,
    body: Map<Seq<char>, Json>,
    r: Reply,
    request_id: u64,
    entity_id: Seq<char>,
    machine: Seq<char>,
    event: Seq<char>,
    actor: Option<Seq<char>>,
    ctx: Json,
    expected_version: Option<u64>,
    idempotency_key: Option<Seq<char>>,
    def: MachineView,
    standing: Seq<char>,
    i: int,
)
    requires
        old(e).wf(),
        call_ensures(handle_frame::<S, G>, (e, s, frame), r),
        after == *final(e),
        frame.tag == FrameTag::Transition,
        holds(held(frame.body), body),
        body.contains_key("request_id"@) && body["request_id"@] == Json::uint(request_id as nat),
        body.contains_key("entity_id"@) && body["entity_id"@] == Json::Text(entity_id),
        body.contains_key("machine"@) && body["machine"@] == Json::Text(machine),
        body.contains_key("event"@) && body["event"@] == Json::Text(event),
        match actor {
            Some(t) => body.contains_key("actor"@) && body["actor"@] == Json::Text(t),
            None => !body.contains_key("actor"@) || body["actor"@] is Null,
        },
        ctx == (if body.contains_key("ctx"@) {
            body["ctx"@]
        } else {
            Json::Null
        }),
        match expected_version {
            Some(n) => body.contains_key("expected_version"@)
                && body["expected_version"@] == Json::uint(n as nat),
            None => !body.contains_key("expected_version"@) || body["expected_version"@] is Null,
        },
        match idempotency_key {
            Some(t) => body.contains_key("idempotency_key"@)
                && body["idempotency_key"@] == Json::Text(t),
            None => !body.contains_key("idempotency_key"@) || body["idempotency_key"@] is Null,
        },
        idempotency_key matches Some(k) ==> !old(e).model().idempotency.contains_key(k),
        !old(e).stopped(),
        old(e).model().machines.contains_key((machine, def.version)),
        old(e).model().machines[(machine, def.version)] == def,
        forall|v: u32| #[trigger]
            old(e).model().machines.contains_key((machine, v)) ==> v <= def.version,
        ({
            let entities = old(e).model().entities;
            let key = entity_key(entity_id, machine);
            &&& standing == (if entities.contains_key(key) {
                entities[key].current_state
            } else {
                def.initial_state
            })
            &&& expected_version matches Some(v) ==> v == (if entities.contains_key(key) {
                entities[key].version
            } else {
                0
            })
        }),
        0 <= i < def.transitions.len(),
        def.transitions[i].event == event,
        def.transitions[i].from_states.contains(standing),
        forall|j: int|
            0 <= j < i ==> !((#[trigger] def.transitions[j]).event == event
                && def.transitions[j].from_states.contains(standing)),
        forall|k: int|
            0 <= k < def.transitions[i].guards.len() ==> !old(e).guard_map().contains_key(
                #[trigger] def.transitions[i].guards[k],
            ),
    ensures
        store_failed(old(e).store(), entity_id, machine, event) || ({
            let key = entity_key(entity_id, machine);
            &&& r.answer matches Some(Answer::Say { tag, .. }) && tag == FrameTag::Result
            &&& after.model().entities.contains_key(key)
            &&& after.model().entities[key].current_state == def.transitions[i].to_state
        }),
{
    let j = Json::Object(body);
    law_bytes_that_hold_an_object_read_as_it(held(frame.body), body, TransitionMessage::fields());
    broadcast use lemma_uint_of;

    old(e).law_store_is_in_order();
    lemma_uint_of(request_id);
    if expected_version is Some {
        lemma_uint_of(expected_version->0);
    }
    let m0 = old(e).model();
    let m1 = after.model();
    let guards = old(e).guard_map();
    assert(TransitionMessage::readable(j));
    let a = r.answer->0;
    let (q, out, known) = choose|
        q: RequestView,
        out: Result<ResultView, EngineErrorView>,
        known: Option<(Seq<char>, u64)>,
    |
        asks(j, old(s).id@, q) && #[trigger] came_of(
            old(e).store(),
            m1,
            guards,
            old(e).stopped(),
            q,
            out,
        ) && (out is Err ==> is_known(after.store(), q, known)) && #[trigger] answers_transition(
            a,
            request_id,
            out,
            known,
        );
    law_allowed_requests_are_carried_out(
        old(e).store(),
        m1,
        guards,
        q,
        out,
        def,
        standing,
        i,
    );
    if out is Ok {
        lemma_carried_out_as_asked(m0, m1, guards, q, out->Ok_0);
    }
}

} // verus!
