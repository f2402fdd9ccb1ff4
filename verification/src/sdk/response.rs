//! What a client makes of a reply.
use crate::clock::Timestamp;
use crate::engine::outcome::{ResultView, TransitionResult};
use crate::fsm::record::{record_views, EntityState, EntityView, RecordView, TransitionRecord};
use crate::json::{as_list, json_view, json_views, member, Json};
use crate::proto::body::packed_at;
use crate::proto::codec::{body_fault, law_decoding_undoes_encoding, packs};
use crate::proto::fields::{opt_text_field, opt_uint_field, text_field, uint_field};
use crate::proto::frame::{held, Frame, FrameTag};
use crate::proto::messages::{ErrorMessage, RejectionMessage, ResultMessage};
use crate::proto::records::{
    entity_at, read_entity, read_record, read_result, reads_back, record_at, record_json, result_at,
    result_json,
};
use crate::sdk::error::{SdkError, SdkErrorView};
use crate::wire::commands::records_json;
use crate::wire::reply::{rejection_body, result_body};
use vstd::prelude::*;

verus! {

/// The outcome of a transition.
#[derive(Debug)]
pub struct TransitionResponse {
    pub entity_id: String,
    pub machine: String,
    pub from_state: String,
    pub to_state: String,
    pub version: u64,
    pub transition_id: String,
    pub sequence: u64,
    pub timestamp: Timestamp,
}

impl View for TransitionResponse {
    type V = ResultView;

    open spec fn view(&self) -> ResultView {
        ResultView {
            entity_id: self.entity_id@,
            machine: self.machine@,
            from_state: self.from_state@,
            to_state: self.to_state@,
            version: self.version,
            transition_id: self.transition_id@,
            sequence: self.sequence,
            timestamp: self.timestamp,
        }
    }
}

/// The outcome of a transition, as a client is given it.
fn response_of(t: TransitionResult) -> (r: TransitionResponse)
    ensures
        r@ == t@,
{
    TransitionResponse {
        entity_id: t.entity_id,
        machine: t.machine,
        from_state: t.from_state,
        to_state: t.to_state,
        version: t.version,
        transition_id: t.transition_id,
        sequence: t.sequence,
        timestamp: t.timestamp,
    }
}

/// What a body says went wrong; `other` where it cannot be read.
pub open spec fn said(body: Option<Json>, other: Seq<char>) -> Seq<char> {
    if body is Some && ErrorMessage::readable(body->0) {
        text_field(body->0, "message"@)->0
    } else {
        other
    }
}

/// What the `Error` or `AuthError` in a frame says; `other` where it cannot be
/// read.
pub fn said_in(frame: &Frame, other: &str) -> (r: String)
    ensures
        r@ == said(packed_at(held(frame.body), ErrorMessage::fields()), other@),
{
    match ErrorMessage::from_frame(frame) {
        Ok(m) => m.message,
        Err(_) => other.to_owned(),
    }
}

/// Whether `e` is the error that a reply stands for which is no result.
pub open spec fn stands_for(frame: Frame, e: SdkErrorView) -> bool {
    let body = packed_at(held(frame.body), RejectionMessage::fields());
    match frame.tag {
        FrameTag::Result => false,
        FrameTag::Rejection => if body is Some && RejectionMessage::readable(body->0) {
            e == (SdkErrorView::Rejected {
                code: text_field(body->0, "code"@)->0,
                message: text_field(body->0, "message"@)->0,
                current_state: opt_text_field(body->0, "current_state"@)->0,
                version: opt_uint_field(body->0, "version"@)->0,
            })
        } else {
            e == SdkErrorView::Proto(body_fault(body, "malformed Rejection body"@))
        },
        FrameTag::Error => e == SdkErrorView::Internal(
            said(packed_at(held(frame.body), ErrorMessage::fields()), "unknown server error"@),
        ),
        other => e == SdkErrorView::Internal("unexpected response tag: "@ + other.named()),
    }
}

/// The error that a reply stands for which is no result.
pub fn refusal_in(frame: &Frame) -> (e: SdkError)
    requires
        frame.tag != FrameTag::Result,
    ensures
        stands_for(*frame, e@),
{
    match frame.tag {
        FrameTag::Rejection => match RejectionMessage::from_frame(frame) {
            Ok(m) => SdkError::Rejected {
                code: m.code,
                message: m.message,
                current_state: m.current_state,
                version: m.version,
            },
            Err(e) => SdkError::Proto(e),
        },
        FrameTag::Error => SdkError::Internal(said_in(frame, "unknown server error")),
        other => SdkError::Internal(
            "unexpected response tag: ".to_owned().concat(other.name()),
        ),
    }
}

/// Whether a reply says that a request was carried out.
pub fn read_done(frame: &Frame) -> (r: Result<(), SdkError>)
    ensures
        match r {
            Ok(()) => frame.tag == FrameTag::Result,
            Err(e) => frame.tag != FrameTag::Result && stands_for(*frame, e@),
        },
{
    if frame.tag == FrameTag::Result {
        Ok(())
    } else {
        Err(refusal_in(frame))
    }
}

/// The payload of a result, if it has one.
pub open spec fn payload_of(frame: Frame) -> Option<Json> {
    let body = packed_at(held(frame.body), ResultMessage::fields());
    if body is Some && ResultMessage::readable(body->0) {
        body->0.member("payload"@)
    } else {
        None
    }
}

/// Whether `e` is the error of a result whose payload cannot be read.
pub open spec fn unreadable(frame: Frame, e: SdkErrorView) -> bool {
    if payload_of(frame) is None {
        e == SdkErrorView::Proto(
            body_fault(
                packed_at(held(frame.body), ResultMessage::fields()),
                "malformed Result body"@,
            ),
        )
    } else {
        e == SdkErrorView::Internal("deserialize payload: unexpected shape"@)
    }
}

/// The payload of a result.
pub fn payload_in(frame: &Frame) -> (r: Result<serde_json::Value, SdkError>)
    ensures
        match r {
            Ok(v) => frame.tag == FrameTag::Result && payload_of(*frame) == Some(json_view(v)),
            Err(e) => if frame.tag == FrameTag::Result {
                payload_of(*frame) is None && unreadable(*frame, e@)
            } else {
                stands_for(*frame, e@)
            },
        },
{
    if frame.tag != FrameTag::Result {
        return Err(refusal_in(frame));
    }
    match ResultMessage::from_frame(frame) {
        Ok(m) => Ok(m.payload),
        Err(e) => Err(SdkError::Proto(e)),
    }
}

/// A payload that does not have the expected shape.
fn misshapen() -> (e: SdkError)
    ensures
        e@ == SdkErrorView::Internal("deserialize payload: unexpected shape"@),
{
    SdkError::Internal("deserialize payload: unexpected shape".to_owned())
}

/// What a client makes of the reply to a transition.
pub open spec fn transition_read(frame: Frame, r: Result<ResultView, SdkErrorView>) -> bool {
    if frame.tag != FrameTag::Result {
        r is Err && stands_for(frame, r->Err_0)
    } else if payload_of(frame) is Some && result_at(payload_of(frame)->0) is Some {
        r == Ok::<ResultView, SdkErrorView>(result_at(payload_of(frame)->0)->0)
    } else {
        r is Err && unreadable(frame, r->Err_0)
    }
}

/// What a client makes of the reply to a transition.
pub fn read_transition_reply(frame: &Frame) -> (r: Result<TransitionResponse, SdkError>)
    ensures
        transition_read(
            *frame,
            match r {
                Ok(t) => Ok::<ResultView, SdkErrorView>(t@),
                Err(e) => Err::<ResultView, SdkErrorView>(e@),
            },
        ),
{
    let payload = match payload_in(frame) {
        Ok(v) => v,
        Err(e) => {
            return Err(e);
        },
    };
    match read_result(&payload) {
        Some(t) => Ok(response_of(t)),
        None => Err(misshapen()),
    }
}

/// What a client makes of the reply to a question about an entity.
pub open spec fn current_read(frame: Frame, r: Result<EntityView, SdkErrorView>) -> bool {
    if frame.tag != FrameTag::Result {
        r is Err && stands_for(frame, r->Err_0)
    } else if payload_of(frame) is Some && entity_at(payload_of(frame)->0) is Some {
        r == Ok::<EntityView, SdkErrorView>(entity_at(payload_of(frame)->0)->0)
    } else {
        r is Err && unreadable(frame, r->Err_0)
    }
}

/// What a client makes of the reply to a question about an entity.
pub fn read_current_reply(frame: &Frame) -> (r: Result<EntityState, SdkError>)
    ensures
        current_read(
            *frame,
            match r {
                Ok(s) => Ok::<EntityView, SdkErrorView>(s@),
                Err(e) => Err::<EntityView, SdkErrorView>(e@),
            },
        ),
{
    let payload = match payload_in(frame) {
        Ok(v) => v,
        Err(e) => {
            return Err(e);
        },
    };
    match read_entity(&payload) {
        Some(s) => Ok(s),
        None => Err(misshapen()),
    }
}

/// The records that a payload stands for, if it stands for any.
pub open spec fn records_at(j: Json) -> Option<Seq<RecordView>> {
    match j.member("records"@) {
        Some(Json::List(s)) => if forall|i: int|
            0 <= i < s.len() ==> record_at(#[trigger] s[i]) is Some {
            Some(Seq::new(s.len(), |i: int| record_at(s[i])->0))
        } else {
            None
        },
        _ => None,
    }
}

/// Reads the records of a payload.
pub fn read_records(v: &serde_json::Value) -> (r: Option<Vec<TransitionRecord>>)
    ensures
        match r {
            Some(s) => records_at(json_view(*v)) == Some(record_views(s@)),
            None => records_at(json_view(*v)) is None,
        },
{
    let list = match member(v, "records") {
        Some(m) => match as_list(&m) {
            Some(list) => list,
            None => {
                return None;
            },
        },
        None => {
            return None;
        },
    };
    let ghost items = json_views(list@);
    assert(json_view(*v).member("records"@) == Some(Json::List(items)));
    let mut r: Vec<TransitionRecord> = Vec::new();
    let mut i: usize = 0;
    while i < list.len()
        invariant
            i <= list@.len(),
            r@.len() == i,
            items == json_views(list@),
            json_view(*v).member("records"@) == Some(Json::List(items)),
            forall|k: int| 0 <= k < i ==> record_at(#[trigger] items[k]) == Some(r@[k]@),
        decreases list@.len() - i,
    {
        assert(items[i as int] == json_view(list@[i as int]));
        match read_record(&list[i]) {
            Some(x) => {
                r.push(x);
            },
            None => {
                return None;
            },
        }
        i = i + 1;
    }
    assert(Seq::new(items.len(), |k: int| record_at(items[k])->0) =~= record_views(r@));
    Some(r)
}

/// What a client makes of the reply to a question about a history.
pub open spec fn history_read(frame: Frame, r: Result<Seq<RecordView>, SdkErrorView>) -> bool {
    if frame.tag != FrameTag::Result {
        r is Err && stands_for(frame, r->Err_0)
    } else if payload_of(frame) is Some && records_at(payload_of(frame)->0) is Some {
        r == Ok::<Seq<RecordView>, SdkErrorView>(records_at(payload_of(frame)->0)->0)
    } else {
        r is Err && unreadable(frame, r->Err_0)
    }
}

/// What a client makes of the reply to a question about a history.
pub fn read_history_reply(frame: &Frame) -> (r: Result<Vec<TransitionRecord>, SdkError>)
    ensures
        history_read(
            *frame,
            match r {
                Ok(s) => Ok::<Seq<RecordView>, SdkErrorView>(record_views(s@)),
                Err(e) => Err::<Seq<RecordView>, SdkErrorView>(e@),
            },
        ),
{
    let payload = match payload_in(frame) {
        Ok(v) => v,
        Err(e) => {
            return Err(e);
        },
    };
    match read_records(&payload) {
        Some(s) => Ok(s),
        None => Err(misshapen()),
    }
}

/// A client makes of a transition's result what the server put into its frame.
pub proof fn law_client_reads_results(
    frame: Frame,
    request_id: u64,
    t: ResultView,
    r: Result<ResultView, SdkErrorView>,
)
    requires
        frame.tag == FrameTag::Result,
        packs(held(frame.body), result_body(request_id, result_json(t))),
        held(frame.body).len() <= u32::MAX,
        reads_back(t.timestamp),
        transition_read(frame, r),
    ensures
        r == Ok::<ResultView, SdkErrorView>(t),
{
    broadcast use crate::proto::fields::lemma_uint_of;

    crate::proto::records::law_result_reads_back(t);
    reveal_strlit("request_id");
    reveal_strlit("payload");
    assert("request_id"@.len() == 10 && "payload"@.len() == 7);
    assert(crate::proto::fields::uint_of(Json::uint(request_id as nat)) == Some(request_id));
    let body = result_body(request_id, result_json(t));
    assert(body.nests_within(1023)) by {
        assert(result_json(t).nests_within(1022)) by {
            reveal_with_fuel(Json::nests_within, 2);
        }
        reveal_with_fuel(Json::nests_within, 2);
    }
    law_decoding_undoes_encoding(held(frame.body), body, ResultMessage::fields());
    assert(body.member("payload"@) == Some(result_json(t)));
    assert(body.member("request_id"@) == Some(Json::uint(request_id as nat)));
}

/// A client makes of a history what the server put into its frame, unless a
/// context in it is nested too deeply to be read.
pub proof fn law_client_reads_histories(
    frame: Frame,
    request_id: u64,
    s: Seq<RecordView>,
    r: Result<Seq<RecordView>, SdkErrorView>,
)
    requires
        frame.tag == FrameTag::Result,
        packs(held(frame.body), result_body(request_id, records_json(s))),
        held(frame.body).len() <= u32::MAX,
        result_body(request_id, records_json(s)).nests_within(1023),
        forall|i: int| 0 <= i < s.len() ==> reads_back((#[trigger] s[i]).timestamp),
        history_read(frame, r),
    ensures
        r == Ok::<Seq<RecordView>, SdkErrorView>(s),
{
    broadcast use crate::proto::fields::lemma_uint_of;

    reveal_strlit("request_id");
    reveal_strlit("payload");
    assert("request_id"@.len() == 10 && "payload"@.len() == 7);
    assert(crate::proto::fields::uint_of(Json::uint(request_id as nat)) == Some(request_id));
    let body = result_body(request_id, records_json(s));
    law_decoding_undoes_encoding(held(frame.body), body, ResultMessage::fields());
    assert(body.member("payload"@) == Some(records_json(s)));
    assert(body.member("request_id"@) == Some(Json::uint(request_id as nat)));
    let items = Seq::new(s.len(), |i: int| record_json(s[i]));
    assert(records_json(s).member("records"@) == Some(Json::List(items)));
    assert forall|i: int| 0 <= i < items.len() implies record_at(#[trigger] items[i]) == Some(
        s[i],
    ) by {
        crate::proto::records::law_record_reads_back(s[i]);
        assert(reads_back(s[i].timestamp));
    }
    assert(Seq::new(items.len(), |i: int| record_at(items[i])->0) =~= s);
}

/// A client learns of a refusal what the server said of it: the code, the
/// reason and how the entity stands.
pub proof fn law_client_reads_rejections(
    frame: Frame,
    request_id: u64,
    code: Seq<char>,
    message: Seq<char>,
    current_state: Option<Seq<char>>,
    version: Option<u64>,
    r: Result<ResultView, SdkErrorView>,
)
    requires
        frame.tag == FrameTag::Rejection,
        packs(
            held(frame.body),
            rejection_body(request_id, code, message, current_state, version),
        ),
        held(frame.body).len() <= u32::MAX,
        transition_read(frame, r),
    ensures
        r == Err::<ResultView, SdkErrorView>(
            SdkErrorView::Rejected { code, message, current_state, version },
        ),
{
    broadcast use crate::proto::fields::lemma_uint_of;

    reveal_strlit("request_id");
    reveal_strlit("code");
    reveal_strlit("message");
    reveal_strlit("current_state");
    reveal_strlit("version");
    assert("request_id"@.len() == 10 && "code"@.len() == 4 && "message"@.len() == 7);
    assert("current_state"@.len() == 13 && "version"@.len() == 7);
    assert("message"@[0] == 'm' && "version"@[0] == 'v');
    assert(crate::proto::fields::uint_of(Json::uint(request_id as nat)) == Some(request_id));
    if version is Some {
        assert(crate::proto::fields::uint_of(Json::uint(version->0 as nat)) == Some(version->0));
    }
    let body = rejection_body(request_id, code, message, current_state, version);
    assert(body.nests_within(1023)) by {
        reveal_with_fuel(Json::nests_within, 2);
    }
    law_decoding_undoes_encoding(held(frame.body), body, RejectionMessage::fields());
    assert(body.member("request_id"@) == Some(Json::uint(request_id as nat)));
    assert(body.member("code"@) == Some(Json::Text(code)));
    assert(body.member("message"@) == Some(Json::Text(message)));
    assert(uint_field(body, "request_id"@) == Some(request_id));
    assert(opt_text_field(body, "current_state"@) == Some(current_state));
    assert(opt_uint_field(body, "version"@) == Some(version));
}

} // verus!
