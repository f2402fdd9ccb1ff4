//! How messages are written, read and carried, field by field.
use crate::json::{json_view, Json};
use crate::proto::body::{holds, law_bytes_that_hold_an_object_read_as_it};
use crate::proto::error::ProtoError;
use crate::proto::fields::uint_of;
use crate::proto::frame::{held, Frame, FrameTag};
use crate::proto::messages::{
    law_ack_reads_back, law_auth_reads_back, law_current_reads_back, law_error_reads_back,
    law_history_reads_back, law_notice_reads_back, law_ready_reads_back, law_rejection_reads_back,
    law_result_reads_back, law_startup_reads_back, law_subscribe_reads_back,
    law_transition_reads_back, law_unsubscribe_reads_back, AckMessage, AuthMessage, CurrentMessage,
    ErrorMessage, HistoryMessage, NoticeMessage, ReadyMessage, RejectionMessage, ResultMessage,
    StartupMessage, SubscribeMessage, TransitionMessage, UnsubscribeMessage,
};
use crate::text::{opt_text, texts};
use vstd::prelude::*;

verus! {

/// A value that is a number is written as that number.
proof fn lemma_numbers()
    ensures
        forall|j: Json, n: u64| #[trigger] uint_of(j) == Some(n) ==> j
            == #[trigger] Json::uint(n as nat),
{
    assert forall|j: Json, n: u64| #[trigger] uint_of(j) == Some(n) implies j
        == #[trigger] Json::uint(n as nat) by {}
}

/// A Startup message is written with its fields under their names.
pub proof fn law_startup_is_written(m: StartupMessage, frame: Frame) -> (body: Map<Seq<char>, Json>)
    requires
        call_ensures(StartupMessage::to_frame, (&m,), Ok::<Frame, ProtoError>(frame)),
        held(frame.body).len() <= u32::MAX,
    ensures
        frame.tag == FrameTag::Startup,
        holds(held(frame.body), body),
        body.contains_key("protocol_version"@),
        body["protocol_version"@] == Json::uint(m.protocol_version as nat),
        body.contains_key("capabilities"@),
        body["capabilities"@] matches Json::List(s) && s.len() == m.capabilities@.len()
            && forall|i: int|
            0 <= i < s.len() ==> #[trigger] s[i] == Json::Text(m.capabilities@[i]@),
{
    law_startup_reads_back(m);
    reveal_strlit("protocol_version");
    reveal_strlit("capabilities");
    assert("protocol_version"@.len() == 16 && "capabilities"@.len() == 12);
    m.json()->Object_0
}

/// A Startup message is read from the fields of a body by their names.
pub proof fn law_startup_is_read(frame: Frame, body: Map<Seq<char>, Json>, m: StartupMessage)
    requires
        holds(held(frame.body), body),
        call_ensures(StartupMessage::from_frame, (&frame,), Ok::<StartupMessage, ProtoError>(m)),
    ensures
        body.contains_key("protocol_version"@)
            && body["protocol_version"@] == Json::uint(m.protocol_version as nat),
        if body.contains_key("capabilities"@) && !(body["capabilities"@] is Null) {
            body["capabilities"@] matches Json::List(s) && s.len() == m.capabilities@.len()
                && forall|i: int|
                0 <= i < s.len() ==> #[trigger] s[i] == Json::Text(m.capabilities@[i]@)
        } else {
            m.capabilities@.len() == 0
        },
{
    law_bytes_that_hold_an_object_read_as_it(held(frame.body), body, StartupMessage::fields());
    lemma_numbers();
    if body.contains_key("capabilities"@) && !(body["capabilities"@] is Null) {
        let s = body["capabilities"@]->List_0;
        assert(texts(m.capabilities@).len() == s.len());
        assert forall|i: int| 0 <= i < s.len() implies #[trigger] s[i] == Json::Text(
            m.capabilities@[i]@,
        ) by {
            assert(texts(m.capabilities@)[i] == s[i]->Text_0);
        }
    } else {
        assert(texts(m.capabilities@).len() == 0);
    }
}

/// A Startup message that is sent arrives with all its fields.
pub proof fn law_startup_arrives(m: StartupMessage, frame: Frame, r: Result<StartupMessage,
    ProtoError>)
    requires
        call_ensures(StartupMessage::to_frame, (&m,), Ok::<Frame, ProtoError>(frame)),
        call_ensures(StartupMessage::from_frame, (&frame,), r),
        held(frame.body).len() <= u32::MAX,
    ensures
        r matches Ok(got) && {
            &&& got.protocol_version == m.protocol_version
            &&& texts(got.capabilities@) == texts(m.capabilities@)
        },
{
    law_startup_reads_back(m);
    law_bytes_that_hold_an_object_read_as_it(
        held(frame.body),
        m.json()->Object_0,
        StartupMessage::fields(),
    );
}

/// An Auth message is written with its fields under their names.
pub proof fn law_auth_is_written(m: AuthMessage, frame: Frame) -> (body: Map<Seq<char>, Json>)
    requires
        call_ensures(AuthMessage::to_frame, (&m,), Ok::<Frame, ProtoError>(frame)),
        held(frame.body).len() <= u32::MAX,
    ensures
        frame.tag == FrameTag::Auth,
        holds(held(frame.body), body),
        body.contains_key("token"@),
        body["token"@] == Json::Text(m.token@),
{
    law_auth_reads_back(m);
    reveal_strlit("token");
    assert("token"@.len() == 5);
    m.json()->Object_0
}

/// An Auth message is read from the fields of a body by their names.
pub proof fn law_auth_is_read(frame: Frame, body: Map<Seq<char>, Json>, m: AuthMessage)
    requires
        holds(held(frame.body), body),
        call_ensures(AuthMessage::from_frame, (&frame,), Ok::<AuthMessage, ProtoError>(m)),
    ensures
        body.contains_key("token"@) && body["token"@] == Json::Text(m.token@),
{
    law_bytes_that_hold_an_object_read_as_it(held(frame.body), body, AuthMessage::fields());
    lemma_numbers();
}

/// An Auth message that is sent arrives with all its fields.
pub proof fn law_auth_arrives(m: AuthMessage, frame: Frame, r: Result<AuthMessage, ProtoError>)
    requires
        call_ensures(AuthMessage::to_frame, (&m,), Ok::<Frame, ProtoError>(frame)),
        call_ensures(AuthMessage::from_frame, (&frame,), r),
        held(frame.body).len() <= u32::MAX,
    ensures
        r matches Ok(got) && {
            &&& got.token@ == m.token@
        },
{
    law_auth_reads_back(m);
    law_bytes_that_hold_an_object_read_as_it(
        held(frame.body),
        m.json()->Object_0,
        AuthMessage::fields(),
    );
}

/// A Transition message is written with its fields under their names.
pub proof fn law_transition_is_written(m: TransitionMessage,
    frame: Frame) -> (body: Map<Seq<char>, Json>)
    requires
        call_ensures(TransitionMessage::to_frame, (&m,), Ok::<Frame, ProtoError>(frame)),
        held(frame.body).len() <= u32::MAX,
        json_view(m.ctx).nests_within(1022),
    ensures
        frame.tag == FrameTag::Transition,
        holds(held(frame.body), body),
        body.contains_key("request_id"@),
        body["request_id"@] == Json::uint(m.request_id as nat),
        body.contains_key("entity_id"@),
        body["entity_id"@] == Json::Text(m.entity_id@),
        body.contains_key("machine"@),
        body["machine"@] == Json::Text(m.machine@),
        body.contains_key("event"@),
        body["event"@] == Json::Text(m.event@),
        body.contains_key("expected_version"@),
        match m.expected_version {
            Some(n) => body["expected_version"@] == Json::uint(n as nat),
            None => body["expected_version"@] == Json::Null,
        },
        body.contains_key("idempotency_key"@),
        match m.idempotency_key {
            Some(t) => body["idempotency_key"@] == Json::Text(t@),
            None => body["idempotency_key"@] == Json::Null,
        },
        body.contains_key("ctx"@),
        body["ctx"@] == json_view(m.ctx),
        body.contains_key("actor"@),
        body["actor"@] == Json::Text(m.actor@),
{
    law_transition_reads_back(m);
    reveal_strlit("request_id");
    reveal_strlit("entity_id");
    reveal_strlit("machine");
    reveal_strlit("event");
    reveal_strlit("expected_version");
    reveal_strlit("idempotency_key");
    reveal_strlit("ctx");
    reveal_strlit("actor");
    assert("request_id"@.len() == 10 && "entity_id"@.len() == 9 && "machine"@.len() == 7
        && "event"@.len() == 5 && "expected_version"@.len() == 16
        && "idempotency_key"@.len() == 15 && "ctx"@.len() == 3 && "actor"@.len() == 5);
    assert("event"@[0] == 'e');
    assert("actor"@[0] == 'a');
    m.json()->Object_0
}

/// A Transition message is read from the fields of a body by their names.
pub proof fn law_transition_is_read(frame: Frame, body: Map<Seq<char>, Json>, m: TransitionMessage)
    requires
        holds(held(frame.body), body),
        call_ensures(TransitionMessage::from_frame, (&frame,), Ok::<TransitionMessage,
            ProtoError>(m)),
    ensures
        body.contains_key("request_id"@) && body["request_id"@] == Json::uint(m.request_id as nat),
        body.contains_key("entity_id"@) && body["entity_id"@] == Json::Text(m.entity_id@),
        body.contains_key("machine"@) && body["machine"@] == Json::Text(m.machine@),
        body.contains_key("event"@) && body["event"@] == Json::Text(m.event@),
        match m.expected_version {
            Some(n) => body.contains_key("expected_version"@)
                && body["expected_version"@] == Json::uint(n as nat),
            None => !body.contains_key("expected_version"@) || body["expected_version"@] is Null,
        },
        match m.idempotency_key {
            Some(t) => body.contains_key("idempotency_key"@)
                && body["idempotency_key"@] == Json::Text(t@),
            None => !body.contains_key("idempotency_key"@) || body["idempotency_key"@] is Null,
        },
        json_view(m.ctx) == (if body.contains_key("ctx"@) {
            body["ctx"@]
        } else {
            Json::Null
        }),
        if body.contains_key("actor"@) && !(body["actor"@] is Null) {
            body["actor"@] == Json::Text(m.actor@)
        } else {
            m.actor@.len() == 0
        },
{
    law_bytes_that_hold_an_object_read_as_it(held(frame.body), body, TransitionMessage::fields());
    lemma_numbers();
}

/// A Transition message that is sent arrives with all its fields.
pub proof fn law_transition_arrives(m: TransitionMessage, frame: Frame,
    r: Result<TransitionMessage, ProtoError>)
    requires
        call_ensures(TransitionMessage::to_frame, (&m,), Ok::<Frame, ProtoError>(frame)),
        call_ensures(TransitionMessage::from_frame, (&frame,), r),
        held(frame.body).len() <= u32::MAX,
        json_view(m.ctx).nests_within(1022),
    ensures
        r matches Ok(got) && {
            &&& got.request_id == m.request_id
            &&& got.entity_id@ == m.entity_id@
            &&& got.machine@ == m.machine@
            &&& got.event@ == m.event@
            &&& got.expected_version == m.expected_version
            &&& opt_text(got.idempotency_key) == opt_text(m.idempotency_key)
            &&& json_view(got.ctx) == json_view(m.ctx)
            &&& got.actor@ == m.actor@
        },
{
    law_transition_reads_back(m);
    law_bytes_that_hold_an_object_read_as_it(
        held(frame.body),
        m.json()->Object_0,
        TransitionMessage::fields(),
    );
}

/// A Current message is written with its fields under their names.
pub proof fn law_current_is_written(m: CurrentMessage, frame: Frame) -> (body: Map<Seq<char>, Json>)
    requires
        call_ensures(CurrentMessage::to_frame, (&m,), Ok::<Frame, ProtoError>(frame)),
        held(frame.body).len() <= u32::MAX,
    ensures
        frame.tag == FrameTag::Current,
        holds(held(frame.body), body),
        body.contains_key("request_id"@),
        body["request_id"@] == Json::uint(m.request_id as nat),
        body.contains_key("entity_id"@),
        body["entity_id"@] == Json::Text(m.entity_id@),
        body.contains_key("machine"@),
        body["machine"@] == Json::Text(m.machine@),
{
    law_current_reads_back(m);
    reveal_strlit("request_id");
    reveal_strlit("entity_id");
    reveal_strlit("machine");
    assert("request_id"@.len() == 10 && "entity_id"@.len() == 9 && "machine"@.len() == 7);
    m.json()->Object_0
}

/// A Current message is read from the fields of a body by their names.
pub proof fn law_current_is_read(frame: Frame, body: Map<Seq<char>, Json>, m: CurrentMessage)
    requires
        holds(held(frame.body), body),
        call_ensures(CurrentMessage::from_frame, (&frame,), Ok::<CurrentMessage, ProtoError>(m)),
    ensures
        body.contains_key("request_id"@) && body["request_id"@] == Json::uint(m.request_id as nat),
        body.contains_key("entity_id"@) && body["entity_id"@] == Json::Text(m.entity_id@),
        body.contains_key("machine"@) && body["machine"@] == Json::Text(m.machine@),
{
    law_bytes_that_hold_an_object_read_as_it(held(frame.body), body, CurrentMessage::fields());
    lemma_numbers();
}

/// A Current message that is sent arrives with all its fields.
pub proof fn law_current_arrives(m: CurrentMessage, frame: Frame, r: Result<CurrentMessage,
    ProtoError>)
    requires
        call_ensures(CurrentMessage::to_frame, (&m,), Ok::<Frame, ProtoError>(frame)),
        call_ensures(CurrentMessage::from_frame, (&frame,), r),
        held(frame.body).len() <= u32::MAX,
    ensures
        r matches Ok(got) && {
            &&& got.request_id == m.request_id
            &&& got.entity_id@ == m.entity_id@
            &&& got.machine@ == m.machine@
        },
{
    law_current_reads_back(m);
    law_bytes_that_hold_an_object_read_as_it(
        held(frame.body),
        m.json()->Object_0,
        CurrentMessage::fields(),
    );
}

/// A History message is written with its fields under their names.
pub proof fn law_history_is_written(m: HistoryMessage, frame: Frame) -> (body: Map<Seq<char>, Json>)
    requires
        call_ensures(HistoryMessage::to_frame, (&m,), Ok::<Frame, ProtoError>(frame)),
        held(frame.body).len() <= u32::MAX,
    ensures
        frame.tag == FrameTag::History,
        holds(held(frame.body), body),
        body.contains_key("request_id"@),
        body["request_id"@] == Json::uint(m.request_id as nat),
        body.contains_key("entity_id"@),
        body["entity_id"@] == Json::Text(m.entity_id@),
        body.contains_key("machine"@),
        body["machine"@] == Json::Text(m.machine@),
        body.contains_key("limit"@),
        match m.limit {
            Some(n) => body["limit"@] == Json::uint(n as nat),
            None => body["limit"@] == Json::Null,
        },
        body.contains_key("after_seq"@),
        match m.after_sequence {
            Some(n) => body["after_seq"@] == Json::uint(n as nat),
            None => body["after_seq"@] == Json::Null,
        },
{
    law_history_reads_back(m);
    reveal_strlit("request_id");
    reveal_strlit("entity_id");
    reveal_strlit("machine");
    reveal_strlit("limit");
    reveal_strlit("after_seq");
    assert("request_id"@.len() == 10 && "entity_id"@.len() == 9 && "machine"@.len() == 7
        && "limit"@.len() == 5 && "after_seq"@.len() == 9);
    assert("entity_id"@[0] == 'e');
    assert("after_seq"@[0] == 'a');
    m.json()->Object_0
}

/// A History message is read from the fields of a body by their names.
pub proof fn law_history_is_read(frame: Frame, body: Map<Seq<char>, Json>, m: HistoryMessage)
    requires
        holds(held(frame.body), body),
        call_ensures(HistoryMessage::from_frame, (&frame,), Ok::<HistoryMessage, ProtoError>(m)),
    ensures
        body.contains_key("request_id"@) && body["request_id"@] == Json::uint(m.request_id as nat),
        body.contains_key("entity_id"@) && body["entity_id"@] == Json::Text(m.entity_id@),
        body.contains_key("machine"@) && body["machine"@] == Json::Text(m.machine@),
        match m.limit {
            Some(n) => body.contains_key("limit"@) && body["limit"@] == Json::uint(n as nat),
            None => !body.contains_key("limit"@) || body["limit"@] is Null,
        },
        ({
            let key = if body.contains_key("after_seq"@) {
                "after_seq"@
            } else {
                "after_sequence"@
            };
            match m.after_sequence {
                Some(n) => body.contains_key(key) && body[key] == Json::uint(n as nat),
                None => !body.contains_key(key) || body[key] is Null,
            }
        }),
{
    law_bytes_that_hold_an_object_read_as_it(held(frame.body), body, HistoryMessage::fields());
    lemma_numbers();
}

/// A History message that is sent arrives with all its fields.
pub proof fn law_history_arrives(m: HistoryMessage, frame: Frame, r: Result<HistoryMessage,
    ProtoError>)
    requires
        call_ensures(HistoryMessage::to_frame, (&m,), Ok::<Frame, ProtoError>(frame)),
        call_ensures(HistoryMessage::from_frame, (&frame,), r),
        held(frame.body).len() <= u32::MAX,
    ensures
        r matches Ok(got) && {
            &&& got.request_id == m.request_id
            &&& got.entity_id@ == m.entity_id@
            &&& got.machine@ == m.machine@
            &&& got.limit == m.limit
            &&& got.after_sequence == m.after_sequence
        },
{
    law_history_reads_back(m);
    law_bytes_that_hold_an_object_read_as_it(
        held(frame.body),
        m.json()->Object_0,
        HistoryMessage::fields(),
    );
}

/// A Subscribe message is written with its fields under their names.
pub proof fn law_subscribe_is_written(m: SubscribeMessage, frame: Frame) -> (body: Map<Seq<char>,
    Json>)
    requires
        call_ensures(SubscribeMessage::to_frame, (&m,), Ok::<Frame, ProtoError>(frame)),
        held(frame.body).len() <= u32::MAX,
    ensures
        frame.tag == FrameTag::Subscribe,
        holds(held(frame.body), body),
        body.contains_key("request_id"@),
        body["request_id"@] == Json::uint(m.request_id as nat),
        body.contains_key("subscription_id"@),
        body["subscription_id"@] == Json::Text(m.subscription_id@),
        body.contains_key("filter_machine"@),
        match m.machine_filter {
            Some(t) => body["filter_machine"@] == Json::Text(t@),
            None => body["filter_machine"@] == Json::Null,
        },
        body.contains_key("filter_entity"@),
        match m.entity_filter {
            Some(t) => body["filter_entity"@] == Json::Text(t@),
            None => body["filter_entity"@] == Json::Null,
        },
        body.contains_key("after_sequence"@),
        body["after_sequence"@] == Json::uint(m.after_sequence as nat),
{
    law_subscribe_reads_back(m);
    reveal_strlit("request_id");
    reveal_strlit("subscription_id");
    reveal_strlit("filter_machine");
    reveal_strlit("filter_entity");
    reveal_strlit("after_sequence");
    assert("request_id"@.len() == 10 && "subscription_id"@.len() == 15
        && "filter_machine"@.len() == 14 && "filter_entity"@.len() == 13
        && "after_sequence"@.len() == 14);
    assert("filter_machine"@[0] == 'f');
    assert("after_sequence"@[0] == 'a');
    m.json()->Object_0
}

/// A Subscribe message is read from the fields of a body by their names.
pub proof fn law_subscribe_is_read(frame: Frame, body: Map<Seq<char>, Json>, m: SubscribeMessage)
    requires
        holds(held(frame.body), body),
        call_ensures(SubscribeMessage::from_frame, (&frame,), Ok::<SubscribeMessage,
            ProtoError>(m)),
    ensures
        body.contains_key("request_id"@) && body["request_id"@] == Json::uint(m.request_id as nat),
        body.contains_key("subscription_id"@)
            && body["subscription_id"@] == Json::Text(m.subscription_id@),
        ({
            let key = if body.contains_key("filter_machine"@) {
                "filter_machine"@
            } else {
                "machine_filter"@
            };
            match m.machine_filter {
                Some(t) => body.contains_key(key) && body[key] == Json::Text(t@),
                None => !body.contains_key(key) || body[key] is Null,
            }
        }),
        match m.entity_filter {
            Some(t) => body.contains_key("filter_entity"@)
                && body["filter_entity"@] == Json::Text(t@),
            None => !body.contains_key("filter_entity"@) || body["filter_entity"@] is Null,
        },
        body.contains_key("after_sequence"@)
            && body["after_sequence"@] == Json::uint(m.after_sequence as nat),
{
    law_bytes_that_hold_an_object_read_as_it(held(frame.body), body, SubscribeMessage::fields());
    lemma_numbers();
}

/// A Subscribe message that is sent arrives with all its fields.
pub proof fn law_subscribe_arrives(m: SubscribeMessage, frame: Frame, r: Result<SubscribeMessage,
    ProtoError>)
    requires
        call_ensures(SubscribeMessage::to_frame, (&m,), Ok::<Frame, ProtoError>(frame)),
        call_ensures(SubscribeMessage::from_frame, (&frame,), r),
        held(frame.body).len() <= u32::MAX,
    ensures
        r matches Ok(got) && {
            &&& got.request_id == m.request_id
            &&& got.subscription_id@ == m.subscription_id@
            &&& opt_text(got.machine_filter) == opt_text(m.machine_filter)
            &&& opt_text(got.entity_filter) == opt_text(m.entity_filter)
            &&& got.after_sequence == m.after_sequence
        },
{
    law_subscribe_reads_back(m);
    law_bytes_that_hold_an_object_read_as_it(
        held(frame.body),
        m.json()->Object_0,
        SubscribeMessage::fields(),
    );
}

/// An Ack message is written with its fields under their names.
pub proof fn law_ack_is_written(m: AckMessage, frame: Frame) -> (body: Map<Seq<char>, Json>)
    requires
        call_ensures(AckMessage::to_frame, (&m,), Ok::<Frame, ProtoError>(frame)),
        held(frame.body).len() <= u32::MAX,
    ensures
        frame.tag == FrameTag::Ack,
        holds(held(frame.body), body),
        body.contains_key("subscription_id"@),
        body["subscription_id"@] == Json::Text(m.subscription_id@),
        body.contains_key("up_to_sequence"@),
        body["up_to_sequence"@] == Json::uint(m.up_to_sequence as nat),
{
    law_ack_reads_back(m);
    reveal_strlit("subscription_id");
    reveal_strlit("up_to_sequence");
    assert("subscription_id"@.len() == 15 && "up_to_sequence"@.len() == 14);
    m.json()->Object_0
}

/// An Ack message is read from the fields of a body by their names.
pub proof fn law_ack_is_read(frame: Frame, body: Map<Seq<char>, Json>, m: AckMessage)
    requires
        holds(held(frame.body), body),
        call_ensures(AckMessage::from_frame, (&frame,), Ok::<AckMessage, ProtoError>(m)),
    ensures
        body.contains_key("subscription_id"@)
            && body["subscription_id"@] == Json::Text(m.subscription_id@),
        body.contains_key("up_to_sequence"@)
            && body["up_to_sequence"@] == Json::uint(m.up_to_sequence as nat),
{
    law_bytes_that_hold_an_object_read_as_it(held(frame.body), body, AckMessage::fields());
    lemma_numbers();
}

/// An Ack message that is sent arrives with all its fields.
pub proof fn law_ack_arrives(m: AckMessage, frame: Frame, r: Result<AckMessage, ProtoError>)
    requires
        call_ensures(AckMessage::to_frame, (&m,), Ok::<Frame, ProtoError>(frame)),
        call_ensures(AckMessage::from_frame, (&frame,), r),
        held(frame.body).len() <= u32::MAX,
    ensures
        r matches Ok(got) && {
            &&& got.subscription_id@ == m.subscription_id@
            &&& got.up_to_sequence == m.up_to_sequence
        },
{
    law_ack_reads_back(m);
    law_bytes_that_hold_an_object_read_as_it(
        held(frame.body),
        m.json()->Object_0,
        AckMessage::fields(),
    );
}

/// An Unsubscribe message is written with its fields under their names.
pub proof fn law_unsubscribe_is_written(m: UnsubscribeMessage,
    frame: Frame) -> (body: Map<Seq<char>, Json>)
    requires
        call_ensures(UnsubscribeMessage::to_frame, (&m,), Ok::<Frame, ProtoError>(frame)),
        held(frame.body).len() <= u32::MAX,
    ensures
        frame.tag == FrameTag::Unsubscribe,
        holds(held(frame.body), body),
        body.contains_key("request_id"@),
        body["request_id"@] == Json::uint(m.request_id as nat),
        body.contains_key("subscription_id"@),
        body["subscription_id"@] == Json::Text(m.subscription_id@),
{
    law_unsubscribe_reads_back(m);
    reveal_strlit("request_id");
    reveal_strlit("subscription_id");
    assert("request_id"@.len() == 10 && "subscription_id"@.len() == 15);
    m.json()->Object_0
}

/// An Unsubscribe message is read from the fields of a body by their names.
pub proof fn law_unsubscribe_is_read(frame: Frame, body: Map<Seq<char>, Json>,
    m: UnsubscribeMessage)
    requires
        holds(held(frame.body), body),
        call_ensures(UnsubscribeMessage::from_frame, (&frame,), Ok::<UnsubscribeMessage,
            ProtoError>(m)),
    ensures
        body.contains_key("request_id"@) && body["request_id"@] == Json::uint(m.request_id as nat),
        body.contains_key("subscription_id"@)
            && body["subscription_id"@] == Json::Text(m.subscription_id@),
{
    law_bytes_that_hold_an_object_read_as_it(held(frame.body), body, UnsubscribeMessage::fields());
    lemma_numbers();
}

/// An Unsubscribe message that is sent arrives with all its fields.
pub proof fn law_unsubscribe_arrives(m: UnsubscribeMessage, frame: Frame,
    r: Result<UnsubscribeMessage, ProtoError>)
    requires
        call_ensures(UnsubscribeMessage::to_frame, (&m,), Ok::<Frame, ProtoError>(frame)),
        call_ensures(UnsubscribeMessage::from_frame, (&frame,), r),
        held(frame.body).len() <= u32::MAX,
    ensures
        r matches Ok(got) && {
            &&& got.request_id == m.request_id
            &&& got.subscription_id@ == m.subscription_id@
        },
{
    law_unsubscribe_reads_back(m);
    law_bytes_that_hold_an_object_read_as_it(
        held(frame.body),
        m.json()->Object_0,
        UnsubscribeMessage::fields(),
    );
}

/// A Ready message is written with its fields under their names.
pub proof fn law_ready_is_written(m: ReadyMessage, frame: Frame) -> (body: Map<Seq<char>, Json>)
    requires
        call_ensures(ReadyMessage::to_frame, (&m,), Ok::<Frame, ProtoError>(frame)),
        held(frame.body).len() <= u32::MAX,
    ensures
        frame.tag == FrameTag::Ready,
        holds(held(frame.body), body),
        body.contains_key("session_id"@),
        body["session_id"@] == Json::Text(m.session_id@),
        body.contains_key("server_version"@),
        body["server_version"@] == Json::Text(m.server_version@),
        body.contains_key("protocol_version"@),
        body["protocol_version"@] == Json::uint(m.protocol_version as nat),
        body.contains_key("capabilities"@),
        body["capabilities"@] matches Json::List(s) && s.len() == m.capabilities@.len()
            && forall|i: int|
            0 <= i < s.len() ==> #[trigger] s[i] == Json::Text(m.capabilities@[i]@),
{
    law_ready_reads_back(m);
    reveal_strlit("session_id");
    reveal_strlit("server_version");
    reveal_strlit("protocol_version");
    reveal_strlit("capabilities");
    assert("session_id"@.len() == 10 && "server_version"@.len() == 14
        && "protocol_version"@.len() == 16 && "capabilities"@.len() == 12);
    m.json()->Object_0
}

/// A Ready message is read from the fields of a body by their names.
pub proof fn law_ready_is_read(frame: Frame, body: Map<Seq<char>, Json>, m: ReadyMessage)
    requires
        holds(held(frame.body), body),
        call_ensures(ReadyMessage::from_frame, (&frame,), Ok::<ReadyMessage, ProtoError>(m)),
    ensures
        body.contains_key("session_id"@) && body["session_id"@] == Json::Text(m.session_id@),
        body.contains_key("server_version"@)
            && body["server_version"@] == Json::Text(m.server_version@),
        body.contains_key("protocol_version"@)
            && body["protocol_version"@] == Json::uint(m.protocol_version as nat),
        if body.contains_key("capabilities"@) && !(body["capabilities"@] is Null) {
            body["capabilities"@] matches Json::List(s) && s.len() == m.capabilities@.len()
                && forall|i: int|
                0 <= i < s.len() ==> #[trigger] s[i] == Json::Text(m.capabilities@[i]@)
        } else {
            m.capabilities@.len() == 0
        },
{
    law_bytes_that_hold_an_object_read_as_it(held(frame.body), body, ReadyMessage::fields());
    lemma_numbers();
    if body.contains_key("capabilities"@) && !(body["capabilities"@] is Null) {
        let s = body["capabilities"@]->List_0;
        assert(texts(m.capabilities@).len() == s.len());
        assert forall|i: int| 0 <= i < s.len() implies #[trigger] s[i] == Json::Text(
            m.capabilities@[i]@,
        ) by {
            assert(texts(m.capabilities@)[i] == s[i]->Text_0);
        }
    } else {
        assert(texts(m.capabilities@).len() == 0);
    }
}

/// A Ready message that is sent arrives with all its fields.
pub proof fn law_ready_arrives(m: ReadyMessage, frame: Frame, r: Result<ReadyMessage, ProtoError>)
    requires
        call_ensures(ReadyMessage::to_frame, (&m,), Ok::<Frame, ProtoError>(frame)),
        call_ensures(ReadyMessage::from_frame, (&frame,), r),
        held(frame.body).len() <= u32::MAX,
    ensures
        r matches Ok(got) && {
            &&& got.session_id@ == m.session_id@
            &&& got.server_version@ == m.server_version@
            &&& got.protocol_version == m.protocol_version
            &&& texts(got.capabilities@) == texts(m.capabilities@)
        },
{
    law_ready_reads_back(m);
    law_bytes_that_hold_an_object_read_as_it(
        held(frame.body),
        m.json()->Object_0,
        ReadyMessage::fields(),
    );
}

/// A Result message is written with its fields under their names.
pub proof fn law_result_is_written(m: ResultMessage, frame: Frame) -> (body: Map<Seq<char>, Json>)
    requires
        call_ensures(ResultMessage::to_frame, (&m,), Ok::<Frame, ProtoError>(frame)),
        held(frame.body).len() <= u32::MAX,
        json_view(m.payload).nests_within(1022),
    ensures
        frame.tag == FrameTag::Result,
        holds(held(frame.body), body),
        body.contains_key("request_id"@),
        body["request_id"@] == Json::uint(m.request_id as nat),
        body.contains_key("payload"@),
        body["payload"@] == json_view(m.payload),
{
    law_result_reads_back(m);
    reveal_strlit("request_id");
    reveal_strlit("payload");
    assert("request_id"@.len() == 10 && "payload"@.len() == 7);
    m.json()->Object_0
}

/// A Result message is read from the fields of a body by their names.
pub proof fn law_result_is_read(frame: Frame, body: Map<Seq<char>, Json>, m: ResultMessage)
    requires
        holds(held(frame.body), body),
        call_ensures(ResultMessage::from_frame, (&frame,), Ok::<ResultMessage, ProtoError>(m)),
    ensures
        body.contains_key("request_id"@) && body["request_id"@] == Json::uint(m.request_id as nat),
        body.contains_key("payload"@) && body["payload"@] == json_view(m.payload),
{
    law_bytes_that_hold_an_object_read_as_it(held(frame.body), body, ResultMessage::fields());
    lemma_numbers();
}

/// A Result message that is sent arrives with all its fields.
pub proof fn law_result_arrives(m: ResultMessage, frame: Frame, r: Result<ResultMessage,
    ProtoError>)
    requires
        call_ensures(ResultMessage::to_frame, (&m,), Ok::<Frame, ProtoError>(frame)),
        call_ensures(ResultMessage::from_frame, (&frame,), r),
        held(frame.body).len() <= u32::MAX,
        json_view(m.payload).nests_within(1022),
    ensures
        r matches Ok(got) && {
            &&& got.request_id == m.request_id
            &&& json_view(got.payload) == json_view(m.payload)
        },
{
    law_result_reads_back(m);
    law_bytes_that_hold_an_object_read_as_it(
        held(frame.body),
        m.json()->Object_0,
        ResultMessage::fields(),
    );
}

/// A Rejection message is written with its fields under their names.
pub proof fn law_rejection_is_written(m: RejectionMessage, frame: Frame) -> (body: Map<Seq<char>,
    Json>)
    requires
        call_ensures(RejectionMessage::to_frame, (&m,), Ok::<Frame, ProtoError>(frame)),
        held(frame.body).len() <= u32::MAX,
    ensures
        frame.tag == FrameTag::Rejection,
        holds(held(frame.body), body),
        body.contains_key("request_id"@),
        body["request_id"@] == Json::uint(m.request_id as nat),
        body.contains_key("code"@),
        body["code"@] == Json::Text(m.code@),
        body.contains_key("message"@),
        body["message"@] == Json::Text(m.message@),
        body.contains_key("current_state"@),
        match m.current_state {
            Some(t) => body["current_state"@] == Json::Text(t@),
            None => body["current_state"@] == Json::Null,
        },
        body.contains_key("version"@),
        match m.version {
            Some(n) => body["version"@] == Json::uint(n as nat),
            None => body["version"@] == Json::Null,
        },
{
    law_rejection_reads_back(m);
    reveal_strlit("request_id");
    reveal_strlit("code");
    reveal_strlit("message");
    reveal_strlit("current_state");
    reveal_strlit("version");
    assert("request_id"@.len() == 10 && "code"@.len() == 4 && "message"@.len() == 7
        && "current_state"@.len() == 13 && "version"@.len() == 7);
    assert("message"@[0] == 'm');
    assert("version"@[0] == 'v');
    m.json()->Object_0
}

/// A Rejection message is read from the fields of a body by their names.
pub proof fn law_rejection_is_read(frame: Frame, body: Map<Seq<char>, Json>, m: RejectionMessage)
    requires
        holds(held(frame.body), body),
        call_ensures(RejectionMessage::from_frame, (&frame,), Ok::<RejectionMessage,
            ProtoError>(m)),
    ensures
        body.contains_key("request_id"@) && body["request_id"@] == Json::uint(m.request_id as nat),
        body.contains_key("code"@) && body["code"@] == Json::Text(m.code@),
        body.contains_key("message"@) && body["message"@] == Json::Text(m.message@),
        match m.current_state {
            Some(t) => body.contains_key("current_state"@)
                && body["current_state"@] == Json::Text(t@),
            None => !body.contains_key("current_state"@) || body["current_state"@] is Null,
        },
        match m.version {
            Some(n) => body.contains_key("version"@) && body["version"@] == Json::uint(n as nat),
            None => !body.contains_key("version"@) || body["version"@] is Null,
        },
{
    law_bytes_that_hold_an_object_read_as_it(held(frame.body), body, RejectionMessage::fields());
    lemma_numbers();
}

/// A Rejection message that is sent arrives with all its fields.
pub proof fn law_rejection_arrives(m: RejectionMessage, frame: Frame, r: Result<RejectionMessage,
    ProtoError>)
    requires
        call_ensures(RejectionMessage::to_frame, (&m,), Ok::<Frame, ProtoError>(frame)),
        call_ensures(RejectionMessage::from_frame, (&frame,), r),
        held(frame.body).len() <= u32::MAX,
    ensures
        r matches Ok(got) && {
            &&& got.request_id == m.request_id
            &&& got.code@ == m.code@
            &&& got.message@ == m.message@
            &&& opt_text(got.current_state) == opt_text(m.current_state)
            &&& got.version == m.version
        },
{
    law_rejection_reads_back(m);
    law_bytes_that_hold_an_object_read_as_it(
        held(frame.body),
        m.json()->Object_0,
        RejectionMessage::fields(),
    );
}

/// A Notice message is written with its fields under their names.
pub proof fn law_notice_is_written(m: NoticeMessage, frame: Frame) -> (body: Map<Seq<char>, Json>)
    requires
        call_ensures(NoticeMessage::to_frame, (&m,), Ok::<Frame, ProtoError>(frame)),
        held(frame.body).len() <= u32::MAX,
    ensures
        frame.tag == FrameTag::Notice,
        holds(held(frame.body), body),
        body.contains_key("message"@),
        body["message"@] == Json::Text(m.message@),
        body.contains_key("code"@),
        match m.code {
            Some(t) => body["code"@] == Json::Text(t@),
            None => body["code"@] == Json::Null,
        },
{
    law_notice_reads_back(m);
    reveal_strlit("message");
    reveal_strlit("code");
    assert("message"@.len() == 7 && "code"@.len() == 4);
    m.json()->Object_0
}

/// A Notice message is read from the fields of a body by their names.
pub proof fn law_notice_is_read(frame: Frame, body: Map<Seq<char>, Json>, m: NoticeMessage)
    requires
        holds(held(frame.body), body),
        call_ensures(NoticeMessage::from_frame, (&frame,), Ok::<NoticeMessage, ProtoError>(m)),
    ensures
        body.contains_key("message"@) && body["message"@] == Json::Text(m.message@),
        match m.code {
            Some(t) => body.contains_key("code"@) && body["code"@] == Json::Text(t@),
            None => !body.contains_key("code"@) || body["code"@] is Null,
        },
{
    law_bytes_that_hold_an_object_read_as_it(held(frame.body), body, NoticeMessage::fields());
    lemma_numbers();
}

/// A Notice message that is sent arrives with all its fields.
pub proof fn law_notice_arrives(m: NoticeMessage, frame: Frame, r: Result<NoticeMessage,
    ProtoError>)
    requires
        call_ensures(NoticeMessage::to_frame, (&m,), Ok::<Frame, ProtoError>(frame)),
        call_ensures(NoticeMessage::from_frame, (&frame,), r),
        held(frame.body).len() <= u32::MAX,
    ensures
        r matches Ok(got) && {
            &&& got.message@ == m.message@
            &&& opt_text(got.code) == opt_text(m.code)
        },
{
    law_notice_reads_back(m);
    law_bytes_that_hold_an_object_read_as_it(
        held(frame.body),
        m.json()->Object_0,
        NoticeMessage::fields(),
    );
}

/// An Error message is written with its fields under their names.
pub proof fn law_error_is_written(m: ErrorMessage, frame: Frame) -> (body: Map<Seq<char>, Json>)
    requires
        call_ensures(ErrorMessage::to_frame, (&m,), Ok::<Frame, ProtoError>(frame)),
        held(frame.body).len() <= u32::MAX,
    ensures
        frame.tag == FrameTag::Error,
        holds(held(frame.body), body),
        body.contains_key("code"@),
        body["code"@] == Json::Text(m.code@),
        body.contains_key("message"@),
        body["message"@] == Json::Text(m.message@),
{
    law_error_reads_back(m);
    reveal_strlit("code");
    reveal_strlit("message");
    assert("code"@.len() == 4 && "message"@.len() == 7);
    m.json()->Object_0
}

/// An Error message is read from the fields of a body by their names.
pub proof fn law_error_is_read(frame: Frame, body: Map<Seq<char>, Json>, m: ErrorMessage)
    requires
        holds(held(frame.body), body),
        call_ensures(ErrorMessage::from_frame, (&frame,), Ok::<ErrorMessage, ProtoError>(m)),
    ensures
        if body.contains_key("code"@) && !(body["code"@] is Null) {
            body["code"@] == Json::Text(m.code@)
        } else {
            m.code@.len() == 0
        },
        body.contains_key("message"@) && body["message"@] == Json::Text(m.message@),
{
    law_bytes_that_hold_an_object_read_as_it(held(frame.body), body, ErrorMessage::fields());
    lemma_numbers();
}

/// An Error message that is sent arrives with all its fields.
pub proof fn law_error_arrives(m: ErrorMessage, frame: Frame, r: Result<ErrorMessage, ProtoError>)
    requires
        call_ensures(ErrorMessage::to_frame, (&m,), Ok::<Frame, ProtoError>(frame)),
        call_ensures(ErrorMessage::from_frame, (&frame,), r),
        held(frame.body).len() <= u32::MAX,
    ensures
        r matches Ok(got) && {
            &&& got.code@ == m.code@
            &&& got.message@ == m.message@
        },
{
    law_error_reads_back(m);
    law_bytes_that_hold_an_object_read_as_it(
        held(frame.body),
        m.json()->Object_0,
        ErrorMessage::fields(),
    );
}

} // verus!
