//! What a client asks for, in terms of what it was told, and what it makes of the
//! replies, in terms of their bodies.
use crate::clock::instant_at;
use crate::engine::outcome::ResultView;
use crate::fsm::record::{record_views, EntityState, EntityView, RecordView, TransitionRecord};
use crate::json::{json_view, Json};
use crate::proto::body::{holds, law_bytes_that_hold_an_object_read_as_it};
use crate::proto::fields::lemma_uint_of;
use crate::proto::frame::{held, Frame, FrameTag};
use crate::proto::messages::{HistoryMessage, RejectionMessage, ResultMessage, TransitionMessage};
use crate::proto::records::record_at;
use crate::sdk::error::SdkError;
use crate::sdk::request::{history_asked, transition_asked, HistoryBuilder, TransitionBuilder};
use crate::sdk::response::{
    payload_of, read_current_reply, read_done, read_history_reply, read_transition_reply,
    records_at, refusal_in, TransitionResponse,
};
use crate::text::opt_text;
use vstd::prelude::*;

verus! {

/// A request for a transition that was told nothing more asks for the event on the
/// entity: at any version, without context and key, in the name of whoever is
/// connected.
pub proof fn law_plain_requests(
    entity_id: &str,
    machine: &str,
    event: &str,
    request_id: u64,
    b: TransitionBuilder,
    m: TransitionMessage,
)
    requires
        call_ensures(TransitionBuilder::new, (entity_id, machine, event), b),
        call_ensures(TransitionBuilder::into_message, (b, request_id), m),
    ensures
        m.request_id == request_id,
        m.entity_id@ == entity_id@ && m.machine@ == machine@ && m.event@ == event@,
        m.expected_version is None && m.idempotency_key is None && m.actor@.len() == 0,
        json_view(m.ctx) == Json::Null,
{
    assert(opt_text(m.idempotency_key) is None);
}

/// A request for a transition that is told the version asks for that, and for all else as
/// before.
pub proof fn law_requests_take_expected_version(
    b: TransitionBuilder,
    c: TransitionBuilder,
    version: u64,
    request_id: u64,
    m1: TransitionMessage,
    m2: TransitionMessage,
)
    requires
        call_ensures(TransitionBuilder::expected_version, (b, version), c),
        call_ensures(TransitionBuilder::into_message, (b, request_id), m1),
        call_ensures(TransitionBuilder::into_message, (c, request_id), m2),
    ensures
        m2.request_id == request_id,
        m2.expected_version == Some(version),
        m2.entity_id@ == m1.entity_id@,
        m2.machine@ == m1.machine@,
        m2.event@ == m1.event@,
        json_view(m2.ctx) == json_view(m1.ctx),
        m2.actor@ == m1.actor@,
        opt_text(m2.idempotency_key) == opt_text(m1.idempotency_key),
{
    assert(transition_asked(m1) == b@ && transition_asked(m2) == c@);
}

/// A request for a transition that is told the context asks for that, and for all else as
/// before.
pub proof fn law_requests_take_ctx(
    b: TransitionBuilder,
    c: TransitionBuilder,
    ctx: serde_json::Value,
    request_id: u64,
    m1: TransitionMessage,
    m2: TransitionMessage,
)
    requires
        call_ensures(TransitionBuilder::ctx, (b, ctx), c),
        call_ensures(TransitionBuilder::into_message, (b, request_id), m1),
        call_ensures(TransitionBuilder::into_message, (c, request_id), m2),
    ensures
        m2.request_id == request_id,
        json_view(m2.ctx) == json_view(ctx),
        m2.entity_id@ == m1.entity_id@,
        m2.machine@ == m1.machine@,
        m2.event@ == m1.event@,
        m2.expected_version == m1.expected_version,
        m2.actor@ == m1.actor@,
        opt_text(m2.idempotency_key) == opt_text(m1.idempotency_key),
{
    assert(transition_asked(m1) == b@ && transition_asked(m2) == c@);
}

/// A request for a transition that is told the actor asks for that, and for all else as
/// before.
pub proof fn law_requests_take_actor(
    b: TransitionBuilder,
    c: TransitionBuilder,
    actor: &str,
    request_id: u64,
    m1: TransitionMessage,
    m2: TransitionMessage,
)
    requires
        call_ensures(TransitionBuilder::actor, (b, actor), c),
        call_ensures(TransitionBuilder::into_message, (b, request_id), m1),
        call_ensures(TransitionBuilder::into_message, (c, request_id), m2),
    ensures
        m2.request_id == request_id,
        m2.actor@ == actor@,
        m2.entity_id@ == m1.entity_id@,
        m2.machine@ == m1.machine@,
        m2.event@ == m1.event@,
        m2.expected_version == m1.expected_version,
        json_view(m2.ctx) == json_view(m1.ctx),
        opt_text(m2.idempotency_key) == opt_text(m1.idempotency_key),
{
    assert(transition_asked(m1) == b@ && transition_asked(m2) == c@);
}

/// A request for a transition that is told the key asks for that, and for all else as
/// before.
pub proof fn law_requests_take_idempotency_key(
    b: TransitionBuilder,
    c: TransitionBuilder,
    key: &str,
    request_id: u64,
    m1: TransitionMessage,
    m2: TransitionMessage,
)
    requires
        call_ensures(TransitionBuilder::idempotency_key, (b, key), c),
        call_ensures(TransitionBuilder::into_message, (b, request_id), m1),
        call_ensures(TransitionBuilder::into_message, (c, request_id), m2),
    ensures
        m2.request_id == request_id,
        opt_text(m2.idempotency_key) == Some(key@),
        m2.entity_id@ == m1.entity_id@,
        m2.machine@ == m1.machine@,
        m2.event@ == m1.event@,
        m2.expected_version == m1.expected_version,
        json_view(m2.ctx) == json_view(m1.ctx),
        m2.actor@ == m1.actor@,
{
    assert(transition_asked(m1) == b@ && transition_asked(m2) == c@);
}

/// A request for a history that was told nothing more asks for all of it.
pub proof fn law_plain_history_requests(
    entity_id: &str,
    machine: &str,
    request_id: u64,
    b: HistoryBuilder,
    m: HistoryMessage,
)
    requires
        call_ensures(HistoryBuilder::new, (entity_id, machine), b),
        call_ensures(HistoryBuilder::into_message, (b, request_id), m),
    ensures
        m.request_id == request_id,
        m.entity_id@ == entity_id@ && m.machine@ == machine@,
        m.limit is None && m.after_sequence is None,
{
}

/// A request for a history that is told a limit asks for that, and for all else as
/// before.
pub proof fn law_history_requests_take_limit(
    b: HistoryBuilder,
    c: HistoryBuilder,
    limit: u32,
    request_id: u64,
    m1: HistoryMessage,
    m2: HistoryMessage,
)
    requires
        call_ensures(HistoryBuilder::limit, (b, limit), c),
        call_ensures(HistoryBuilder::into_message, (b, request_id), m1),
        call_ensures(HistoryBuilder::into_message, (c, request_id), m2),
    ensures
        m2.request_id == request_id,
        m2.limit == Some(limit),
        m2.entity_id@ == m1.entity_id@,
        m2.machine@ == m1.machine@,
        m2.after_sequence == m1.after_sequence,
{
    assert(history_asked(m1) == b@ && history_asked(m2) == c@);
}

/// A request for a history that is told where to begin asks for that, and for all else as
/// before.
pub proof fn law_history_requests_take_after_sequence(
    b: HistoryBuilder,
    c: HistoryBuilder,
    seq: u64,
    request_id: u64,
    m1: HistoryMessage,
    m2: HistoryMessage,
)
    requires
        call_ensures(HistoryBuilder::after_sequence, (b, seq), c),
        call_ensures(HistoryBuilder::into_message, (b, request_id), m1),
        call_ensures(HistoryBuilder::into_message, (c, request_id), m2),
    ensures
        m2.request_id == request_id,
        m2.after_sequence == Some(seq),
        m2.entity_id@ == m1.entity_id@,
        m2.machine@ == m1.machine@,
        m2.limit == m1.limit,
{
    assert(history_asked(m1) == b@ && history_asked(m2) == c@);
}

/// A client reads the outcome of a transition from the members of the payload.
pub proof fn law_outcomes_are_read(
    frame: Frame,
    body: Map<Seq<char>, Json>,
    request_id: u64,
    p: Json,
    x: ResultView,
    time: Seq<char>,
    r: Result<TransitionResponse, SdkError>,
)
    requires
        call_ensures(read_transition_reply, (&frame,), r),
        frame.tag == FrameTag::Result,
        holds(held(frame.body), body),
        body.contains_key("request_id"@) && body["request_id"@] == Json::uint(request_id as nat),
        body.contains_key("payload"@) && body["payload"@] == p,
        p.member("entity_id"@) == Some(Json::Text(x.entity_id)),
        p.member("machine"@) == Some(Json::Text(x.machine)),
        p.member("from"@) == Some(Json::Text(x.from_state)),
        p.member("state"@) == Some(Json::Text(x.to_state)),
        p.member("version"@) == Some(Json::uint(x.version as nat)),
        p.member("transition_id"@) == Some(Json::Text(x.transition_id)),
        p.member("sequence"@) == Some(Json::uint(x.sequence as nat)),
        p.member("ts"@) == Some(Json::Text(time)),
    ensures
        instant_at(time) is Some ==> (r matches Ok(t) && t.entity_id@ == x.entity_id && t.machine@
            == x.machine && t.from_state@ == x.from_state && t.to_state@ == x.to_state && t.version
            == x.version && t.transition_id@ == x.transition_id && t.sequence == x.sequence),
{
    let j = Json::Object(body);
    law_bytes_that_hold_an_object_read_as_it(held(frame.body), body, ResultMessage::fields());
    lemma_uint_of(request_id);
    lemma_uint_of(x.version);
    lemma_uint_of(x.sequence);
    assert(ResultMessage::readable(j));
    assert(payload_of(frame) == Some(p));
}

/// A client reads the state of an entity from the members of the payload.
pub proof fn law_states_are_read(
    frame: Frame,
    body: Map<Seq<char>, Json>,
    request_id: u64,
    p: Json,
    x: EntityView,
    updated: Seq<char>,
    created: Seq<char>,
    r: Result<EntityState, SdkError>,
)
    requires
        call_ensures(read_current_reply, (&frame,), r),
        frame.tag == FrameTag::Result,
        holds(held(frame.body), body),
        body.contains_key("request_id"@) && body["request_id"@] == Json::uint(request_id as nat),
        body.contains_key("payload"@) && body["payload"@] == p,
        p.member("entity_id"@) == Some(Json::Text(x.entity_id)),
        p.member("machine"@) == Some(Json::Text(x.machine)),
        p.member("state"@) == Some(Json::Text(x.current_state)),
        p.member("version"@) == Some(Json::uint(x.version as nat)),
        p.member("updated_at"@) == Some(Json::Text(updated)),
        p.member("created_at"@) == Some(Json::Text(created)),
    ensures
        instant_at(updated) is Some && instant_at(created) is Some ==> (r matches Ok(t)
            && t.entity_id@ == x.entity_id && t.machine@ == x.machine && t.current_state@
            == x.current_state && t.version == x.version),
{
    let j = Json::Object(body);
    law_bytes_that_hold_an_object_read_as_it(held(frame.body), body, ResultMessage::fields());
    lemma_uint_of(request_id);
    lemma_uint_of(x.version);
    assert(ResultMessage::readable(j));
    assert(payload_of(frame) == Some(p));
}

/// A client reads a history record by record, from the members of each.
pub proof fn law_histories_are_read(
    frame: Frame,
    body: Map<Seq<char>, Json>,
    request_id: u64,
    p: Json,
    items: Seq<Json>,
    xs: Seq<RecordView>,
    times: Seq<Seq<char>>,
    r: Result<Vec<TransitionRecord>, SdkError>,
)
    requires
        call_ensures(read_history_reply, (&frame,), r),
        frame.tag == FrameTag::Result,
        holds(held(frame.body), body),
        body.contains_key("request_id"@) && body["request_id"@] == Json::uint(request_id as nat),
        body.contains_key("payload"@) && body["payload"@] == p,
        p.member("records"@) == Some(Json::List(items)),
        items.len() == xs.len(),
        items.len() == times.len(),
        forall|i: int|
            #![trigger items[i]]
            0 <= i < items.len() ==> {
                &&& items[i].member("id"@) == Some(Json::Text(xs[i].id))
                &&& items[i].member("sequence"@) == Some(Json::uint(xs[i].sequence as nat))
                &&& items[i].member("entity_id"@) == Some(Json::Text(xs[i].entity_id))
                &&& items[i].member("machine"@) == Some(Json::Text(xs[i].machine))
                &&& items[i].member("from_state"@) == Some(Json::Text(xs[i].from_state))
                &&& items[i].member("to_state"@) == Some(Json::Text(xs[i].to_state))
                &&& items[i].member("event"@) == Some(Json::Text(xs[i].event))
                &&& items[i].member("actor"@) == Some(Json::Text(xs[i].actor))
                &&& items[i].member("ctx"@) == Some(xs[i].ctx)
                &&& items[i].member("version"@) == Some(Json::uint(xs[i].version as nat))
                &&& items[i].member("idempotency_key"@) == Some(
                    match xs[i].idempotency_key {
                        Some(k) => Json::Text(k),
                        None => Json::Null,
                    },
                )
                &&& items[i].member("timestamp"@) == Some(Json::Text(times[i]))
            },
    ensures
        (forall|i: int| 0 <= i < items.len() ==> instant_at(#[trigger] times[i]) is Some) ==> (
        r matches Ok(v) && v@.len() == xs.len() && forall|i: int|
            0 <= i < xs.len() ==> {
                let t = (#[trigger] v@[i])@;
                &&& t.id == xs[i].id && t.sequence == xs[i].sequence
                &&& t.entity_id == xs[i].entity_id && t.machine == xs[i].machine
                &&& t.from_state == xs[i].from_state && t.to_state == xs[i].to_state
                &&& t.event == xs[i].event && t.actor == xs[i].actor && t.ctx == xs[i].ctx
                &&& t.version == xs[i].version && t.idempotency_key == xs[i].idempotency_key
            }),
{
    let j = Json::Object(body);
    law_bytes_that_hold_an_object_read_as_it(held(frame.body), body, ResultMessage::fields());
    lemma_uint_of(request_id);
    assert(ResultMessage::readable(j));
    assert(payload_of(frame) == Some(p));
    if forall|i: int| 0 <= i < items.len() ==> instant_at(#[trigger] times[i]) is Some {
        assert forall|i: int| 0 <= i < items.len() implies record_at(#[trigger] items[i]) == Some(
            RecordView { timestamp: record_at(items[i])->0.timestamp, ..xs[i] },
        ) by {
            lemma_uint_of(xs[i].sequence);
            lemma_uint_of(xs[i].version);
            assert(instant_at(times[i]) is Some);
        }
        let all = Seq::new(items.len(), |i: int| record_at(items[i])->0);
        assert(records_at(p) == Some(all));
        let v = r->Ok_0@;
        assert(record_views(v) == all);
        assert(v.len() == all.len());
        assert forall|i: int| 0 <= i < v.len() implies (#[trigger] v[i])@ == (RecordView {
            timestamp: v[i]@.timestamp,
            ..xs[i]
        }) by {
            assert(record_views(v)[i] == v[i]@);
            assert(record_at(items[i]) == Some(all[i]));
        }
    }
}

/// A client learns of a refusal from the members of its body: the code, the reason,
/// and how the entity stands where that is told.
pub proof fn law_refusals_are_read(
    frame: Frame,
    body: Map<Seq<char>, Json>,
    request_id: u64,
    code: Seq<char>,
    message: Seq<char>,
    current_state: Option<Seq<char>>,
    version: Option<u64>,
    e: SdkError,
)
    requires
        call_ensures(refusal_in, (&frame,), e),
        frame.tag == FrameTag::Rejection,
        holds(held(frame.body), body),
        body.contains_key("request_id"@) && body["request_id"@] == Json::uint(request_id as nat),
        body.contains_key("code"@) && body["code"@] == Json::Text(code),
        body.contains_key("message"@) && body["message"@] == Json::Text(message),
        match current_state {
            Some(t) => body.contains_key("current_state"@) && body["current_state"@] == Json::Text(
                t,
            ),
            None => !body.contains_key("current_state"@) || body["current_state"@] is Null,
        },
        match version {
            Some(n) => body.contains_key("version"@) && body["version"@] == Json::uint(n as nat),
            None => !body.contains_key("version"@) || body["version"@] is Null,
        },
    ensures
        e matches SdkError::Rejected { code: c, message: m, current_state: s, version: v } && c@
            == code && m@ == message && opt_text(s) == current_state && v == version,
{
    let j = Json::Object(body);
    law_bytes_that_hold_an_object_read_as_it(held(frame.body), body, RejectionMessage::fields());
    lemma_uint_of(request_id);
    if version is Some {
        lemma_uint_of(version->0);
    }
    assert(RejectionMessage::readable(j));
    assert(e@ is Rejected);
}

/// Only a result says that a request was carried out.
pub proof fn law_only_results_are_done(
    frame: Frame,
    done: Result<(), SdkError>,
    transition: Result<TransitionResponse, SdkError>,
    current: Result<EntityState, SdkError>,
    history: Result<Vec<TransitionRecord>, SdkError>,
)
    requires
        call_ensures(read_done, (&frame,), done),
        call_ensures(read_transition_reply, (&frame,), transition),
        call_ensures(read_current_reply, (&frame,), current),
        call_ensures(read_history_reply, (&frame,), history),
    ensures
        done is Ok <==> frame.tag == FrameTag::Result,
        frame.tag != FrameTag::Result ==> transition is Err && current is Err && history is Err,
{
}

} // verus!
