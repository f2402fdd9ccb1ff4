//! Messages on their way: what is read of a frame is what was put into it,
//! whatever else stands in its body.
use crate::json::Json;
use crate::proto::body::{entries_of, known, packed_at};
use crate::proto::codec::{law_decoding_ignores_unknown_keys, packs};
use crate::proto::definition::law_definitions_read_back;
use crate::proto::fields::{lemma_uint_of, uint_of};
use crate::proto::frame::{held, Frame, FrameTag};
use crate::proto::messages::{
    law_ack_heeds_its_fields, law_ack_reads_back, law_auth_heeds_its_fields, law_auth_reads_back,
    law_current_heeds_its_fields, law_current_reads_back, law_error_heeds_its_fields,
    law_error_reads_back, law_history_heeds_its_fields, law_history_reads_back,
    law_notice_heeds_its_fields, law_notice_reads_back, law_ready_heeds_its_fields,
    law_ready_reads_back, law_rejection_heeds_its_fields, law_rejection_reads_back,
    law_result_heeds_its_fields, law_result_reads_back, law_startup_heeds_its_fields,
    law_startup_reads_back, law_subscribe_heeds_its_fields, law_subscribe_reads_back,
    law_transition_heeds_its_fields, law_transition_reads_back, law_unsubscribe_heeds_its_fields,
    law_unsubscribe_reads_back, AckMessage, AuthMessage, CurrentMessage, ErrorMessage,
    HistoryMessage, NoticeMessage, ReadyMessage, RejectionMessage, ResultMessage, StartupMessage,
    SubscribeMessage, TransitionMessage, UnsubscribeMessage,
};
use crate::proto::push::{
    law_change_record_heeds_its_fields, law_changes_read_back, law_define_machine_heeds_its_fields,
    repeats_in, ChangeRecordMessage, DefineMachineMessage,
};
use crate::proto::parts::{fields_of, is_orderly};
use crate::proto::records::reads_back;
use crate::proto::repeats::{
    law_orderly_definitions_do_not_repeat, lemma_field_is_orderly, lemma_known_raw, raw_under,
};
use crate::storage::rows::settled;
use vstd::prelude::*;

verus! {

/// Whether `more` is a body like that in `bytes`, with entries put in anywhere
/// under keys that a reader of some fields does not know.
pub open spec fn extends(more: Seq<u8>, bytes: Seq<u8>, fields: Seq<Seq<char>>) -> bool {
    &&& entries_of(more) is Some
    &&& known(entries_of(more)->0, fields) == known(entries_of(bytes)->0, fields)
}

/// A Startup message is read as it was written, whatever unknown keys join it.
pub proof fn law_startup_travels(m: StartupMessage, bytes: Seq<u8>, more: Seq<u8>)
    requires
        packs(bytes, m.json()),
        bytes.len() <= u32::MAX,
        extends(more, bytes, StartupMessage::fields()),
    ensures
        packed_at(more, StartupMessage::fields()) is Some,
        m.reads(packed_at(more, StartupMessage::fields())->0),
{
    law_startup_reads_back(m);
    law_decoding_ignores_unknown_keys(bytes, m.json(), more, StartupMessage::fields());
    law_startup_heeds_its_fields(m, packed_at(more, StartupMessage::fields())->0, m.json());
}

/// An Auth message is read as it was written, whatever unknown keys join it.
pub proof fn law_auth_travels(m: AuthMessage, bytes: Seq<u8>, more: Seq<u8>)
    requires
        packs(bytes, m.json()),
        bytes.len() <= u32::MAX,
        extends(more, bytes, AuthMessage::fields()),
    ensures
        packed_at(more, AuthMessage::fields()) is Some,
        m.reads(packed_at(more, AuthMessage::fields())->0),
{
    law_auth_reads_back(m);
    law_decoding_ignores_unknown_keys(bytes, m.json(), more, AuthMessage::fields());
    law_auth_heeds_its_fields(m, packed_at(more, AuthMessage::fields())->0, m.json());
}

/// A Transition message is read as it was written, whatever unknown keys join it,
/// unless what it carries is nested too deeply.
pub proof fn law_transition_travels(m: TransitionMessage, bytes: Seq<u8>, more: Seq<u8>)
    requires
        packs(bytes, m.json()),
        bytes.len() <= u32::MAX,
        m.json().nests_within(1023),
        extends(more, bytes, TransitionMessage::fields()),
    ensures
        packed_at(more, TransitionMessage::fields()) is Some,
        m.reads(packed_at(more, TransitionMessage::fields())->0),
{
    law_transition_reads_back(m);
    law_decoding_ignores_unknown_keys(bytes, m.json(), more, TransitionMessage::fields());
    law_transition_heeds_its_fields(m, packed_at(more, TransitionMessage::fields())->0, m.json());
}

/// A Current message is read as it was written, whatever unknown keys join it.
pub proof fn law_current_travels(m: CurrentMessage, bytes: Seq<u8>, more: Seq<u8>)
    requires
        packs(bytes, m.json()),
        bytes.len() <= u32::MAX,
        extends(more, bytes, CurrentMessage::fields()),
    ensures
        packed_at(more, CurrentMessage::fields()) is Some,
        m.reads(packed_at(more, CurrentMessage::fields())->0),
{
    law_current_reads_back(m);
    law_decoding_ignores_unknown_keys(bytes, m.json(), more, CurrentMessage::fields());
    law_current_heeds_its_fields(m, packed_at(more, CurrentMessage::fields())->0, m.json());
}

/// A History message is read as it was written, whatever unknown keys join it.
pub proof fn law_history_travels(m: HistoryMessage, bytes: Seq<u8>, more: Seq<u8>)
    requires
        packs(bytes, m.json()),
        bytes.len() <= u32::MAX,
        extends(more, bytes, HistoryMessage::fields()),
    ensures
        packed_at(more, HistoryMessage::fields()) is Some,
        m.reads(packed_at(more, HistoryMessage::fields())->0),
{
    law_history_reads_back(m);
    law_decoding_ignores_unknown_keys(bytes, m.json(), more, HistoryMessage::fields());
    law_history_heeds_its_fields(m, packed_at(more, HistoryMessage::fields())->0, m.json());
}

/// A Subscribe message is read as it was written, whatever unknown keys join it.
pub proof fn law_subscribe_travels(m: SubscribeMessage, bytes: Seq<u8>, more: Seq<u8>)
    requires
        packs(bytes, m.json()),
        bytes.len() <= u32::MAX,
        extends(more, bytes, SubscribeMessage::fields()),
    ensures
        packed_at(more, SubscribeMessage::fields()) is Some,
        m.reads(packed_at(more, SubscribeMessage::fields())->0),
{
    law_subscribe_reads_back(m);
    law_decoding_ignores_unknown_keys(bytes, m.json(), more, SubscribeMessage::fields());
    law_subscribe_heeds_its_fields(m, packed_at(more, SubscribeMessage::fields())->0, m.json());
}

/// An Ack message is read as it was written, whatever unknown keys join it.
pub proof fn law_ack_travels(m: AckMessage, bytes: Seq<u8>, more: Seq<u8>)
    requires
        packs(bytes, m.json()),
        bytes.len() <= u32::MAX,
        extends(more, bytes, AckMessage::fields()),
    ensures
        packed_at(more, AckMessage::fields()) is Some,
        m.reads(packed_at(more, AckMessage::fields())->0),
{
    law_ack_reads_back(m);
    law_decoding_ignores_unknown_keys(bytes, m.json(), more, AckMessage::fields());
    law_ack_heeds_its_fields(m, packed_at(more, AckMessage::fields())->0, m.json());
}

/// An Unsubscribe message is read as it was written, whatever unknown keys join it.
pub proof fn law_unsubscribe_travels(m: UnsubscribeMessage, bytes: Seq<u8>, more: Seq<u8>)
    requires
        packs(bytes, m.json()),
        bytes.len() <= u32::MAX,
        extends(more, bytes, UnsubscribeMessage::fields()),
    ensures
        packed_at(more, UnsubscribeMessage::fields()) is Some,
        m.reads(packed_at(more, UnsubscribeMessage::fields())->0),
{
    law_unsubscribe_reads_back(m);
    law_decoding_ignores_unknown_keys(bytes, m.json(), more, UnsubscribeMessage::fields());
    law_unsubscribe_heeds_its_fields(m, packed_at(more, UnsubscribeMessage::fields())->0, m.json());
}

/// A Ready message is read as it was written, whatever unknown keys join it.
pub proof fn law_ready_travels(m: ReadyMessage, bytes: Seq<u8>, more: Seq<u8>)
    requires
        packs(bytes, m.json()),
        bytes.len() <= u32::MAX,
        extends(more, bytes, ReadyMessage::fields()),
    ensures
        packed_at(more, ReadyMessage::fields()) is Some,
        m.reads(packed_at(more, ReadyMessage::fields())->0),
{
    law_ready_reads_back(m);
    law_decoding_ignores_unknown_keys(bytes, m.json(), more, ReadyMessage::fields());
    law_ready_heeds_its_fields(m, packed_at(more, ReadyMessage::fields())->0, m.json());
}

/// A Result message is read as it was written, whatever unknown keys join it,
/// unless what it carries is nested too deeply.
pub proof fn law_result_travels(m: ResultMessage, bytes: Seq<u8>, more: Seq<u8>)
    requires
        packs(bytes, m.json()),
        bytes.len() <= u32::MAX,
        m.json().nests_within(1023),
        extends(more, bytes, ResultMessage::fields()),
    ensures
        packed_at(more, ResultMessage::fields()) is Some,
        m.reads(packed_at(more, ResultMessage::fields())->0),
{
    law_result_reads_back(m);
    law_decoding_ignores_unknown_keys(bytes, m.json(), more, ResultMessage::fields());
    law_result_heeds_its_fields(m, packed_at(more, ResultMessage::fields())->0, m.json());
}

/// A Rejection message is read as it was written, whatever unknown keys join it.
pub proof fn law_rejection_travels(m: RejectionMessage, bytes: Seq<u8>, more: Seq<u8>)
    requires
        packs(bytes, m.json()),
        bytes.len() <= u32::MAX,
        extends(more, bytes, RejectionMessage::fields()),
    ensures
        packed_at(more, RejectionMessage::fields()) is Some,
        m.reads(packed_at(more, RejectionMessage::fields())->0),
{
    law_rejection_reads_back(m);
    law_decoding_ignores_unknown_keys(bytes, m.json(), more, RejectionMessage::fields());
    law_rejection_heeds_its_fields(m, packed_at(more, RejectionMessage::fields())->0, m.json());
}

/// A Notice message is read as it was written, whatever unknown keys join it.
pub proof fn law_notice_travels(m: NoticeMessage, bytes: Seq<u8>, more: Seq<u8>)
    requires
        packs(bytes, m.json()),
        bytes.len() <= u32::MAX,
        extends(more, bytes, NoticeMessage::fields()),
    ensures
        packed_at(more, NoticeMessage::fields()) is Some,
        m.reads(packed_at(more, NoticeMessage::fields())->0),
{
    law_notice_reads_back(m);
    law_decoding_ignores_unknown_keys(bytes, m.json(), more, NoticeMessage::fields());
    law_notice_heeds_its_fields(m, packed_at(more, NoticeMessage::fields())->0, m.json());
}

/// An Error message is read as it was written, whatever unknown keys join it.
pub proof fn law_error_travels(m: ErrorMessage, bytes: Seq<u8>, more: Seq<u8>)
    requires
        packs(bytes, m.json()),
        bytes.len() <= u32::MAX,
        extends(more, bytes, ErrorMessage::fields()),
    ensures
        packed_at(more, ErrorMessage::fields()) is Some,
        m.reads(packed_at(more, ErrorMessage::fields())->0),
{
    law_error_reads_back(m);
    law_decoding_ignores_unknown_keys(bytes, m.json(), more, ErrorMessage::fields());
    law_error_heeds_its_fields(m, packed_at(more, ErrorMessage::fields())->0, m.json());
}

/// A change record is read as it was written, whatever unknown keys join it,
/// unless its context or an effect is nested too deeply.
pub proof fn law_change_record_travels(m: ChangeRecordMessage, bytes: Seq<u8>, more: Seq<u8>)
    requires
        packs(bytes, m.json()),
        bytes.len() <= u32::MAX,
        m.json().nests_within(1023),
        reads_back(m.record.timestamp),
        extends(more, bytes, ChangeRecordMessage::fields()),
    ensures
        packed_at(more, ChangeRecordMessage::fields()) is Some,
        m.reads(packed_at(more, ChangeRecordMessage::fields())->0),
{
    law_changes_read_back(m);
    let fields = ChangeRecordMessage::fields();
    law_decoding_ignores_unknown_keys(bytes, m.json(), more, fields);
    law_change_record_heeds_its_fields(m, packed_at(more, fields)->0, m.json());
}

/// A definition in which no field comes twice stays so, whatever joins it.
proof fn lemma_definition_comes_once(bytes: Seq<u8>, more: Seq<u8>)
    requires
        is_orderly(bytes),
        entries_of(bytes) is Some,
        extends(more, bytes, DefineMachineMessage::fields()),
    ensures
        !repeats_in(more),
{
    let fields = DefineMachineMessage::fields();
    let a = entries_of(bytes)->0;
    let b = entries_of(more)->0;
    assert(fields[3] == "definition"@);
    lemma_known_raw(a, fields, "definition"@);
    lemma_known_raw(b, fields, "definition"@);
    if raw_under(fields_of(a), "definition"@) is Some {
        lemma_field_is_orderly(bytes, fields_of(a), "definition"@);
        law_orderly_definitions_do_not_repeat(raw_under(fields_of(a), "definition"@)->0);
    }
}

/// A DefineMachine message is read as it was written, whatever unknown keys join
/// it, unless a payload is the null value, which is none, or nested too deeply.
pub proof fn law_define_machine_travels(m: DefineMachineMessage, bytes: Seq<u8>, more: Seq<u8>)
    requires
        packs(bytes, m.json()),
        bytes.len() <= u32::MAX,
        m.json().nests_within(1023),
        settled(m.definition@) == m.definition@,
        reads_back(m.definition.created_at),
        extends(more, bytes, DefineMachineMessage::fields()),
    ensures
        packed_at(more, DefineMachineMessage::fields()) is Some,
        m.reads(packed_at(more, DefineMachineMessage::fields())->0),
        !repeats_in(more),
{
    broadcast use lemma_uint_of;

    lemma_definition_comes_once(bytes, more);

    law_definitions_read_back(m.definition@);
    reveal_strlit("request_id");
    reveal_strlit("name");
    reveal_strlit("version");
    reveal_strlit("definition");
    assert("request_id"@.len() == 10 && "name"@.len() == 4 && "version"@.len() == 7);
    assert("definition"@.len() == 10 && "request_id"@[0] == 'r' && "definition"@[0] == 'd');
    assert(uint_of(Json::uint(m.request_id as nat)) == Some(m.request_id));
    assert(uint_of(Json::uint(m.version as u64 as nat)) == Some(m.version as u64));
    assert(m.reads(m.json()));
    let fields = DefineMachineMessage::fields();
    law_decoding_ignores_unknown_keys(bytes, m.json(), more, fields);
    law_define_machine_heeds_its_fields(m, packed_at(more, fields)->0, m.json());
}

// ---------------------------------------------------------------------------
// All messages
// ---------------------------------------------------------------------------

/// A message of the protocol.
pub enum Message {
    Startup(StartupMessage),
    Auth(AuthMessage),
    DefineMachine(DefineMachineMessage),
    Transition(TransitionMessage),
    Current(CurrentMessage),
    History(HistoryMessage),
    Subscribe(SubscribeMessage),
    Ack(AckMessage),
    Unsubscribe(UnsubscribeMessage),
    Ready(ReadyMessage),
    Result(ResultMessage),
    Rejection(RejectionMessage),
    Notice(NoticeMessage),
    ChangeRecord(ChangeRecordMessage),
    Error(ErrorMessage),
}

impl Message {
    /// The tag of the frame that carries the message. The answers to an
    /// authentication have the body of an Error message under tags of their own.
    pub open spec fn tag(self) -> FrameTag {
        match self {
            Message::Startup(_) => FrameTag::Startup,
            Message::Auth(_) => FrameTag::Auth,
            Message::DefineMachine(_) => FrameTag::DefineMachine,
            Message::Transition(_) => FrameTag::Transition,
            Message::Current(_) => FrameTag::Current,
            Message::History(_) => FrameTag::History,
            Message::Subscribe(_) => FrameTag::Subscribe,
            Message::Ack(_) => FrameTag::Ack,
            Message::Unsubscribe(_) => FrameTag::Unsubscribe,
            Message::Ready(_) => FrameTag::Ready,
            Message::Result(_) => FrameTag::Result,
            Message::Rejection(_) => FrameTag::Rejection,
            Message::Notice(_) => FrameTag::Notice,
            Message::ChangeRecord(_) => FrameTag::ChangeRecord,
            Message::Error(_) => FrameTag::Error,
        }
    }

    /// The body of the message.
    pub open spec fn json(self) -> Json {
        match self {
            Message::Startup(m) => m.json(),
            Message::Auth(m) => m.json(),
            Message::DefineMachine(m) => m.json(),
            Message::Transition(m) => m.json(),
            Message::Current(m) => m.json(),
            Message::History(m) => m.json(),
            Message::Subscribe(m) => m.json(),
            Message::Ack(m) => m.json(),
            Message::Unsubscribe(m) => m.json(),
            Message::Ready(m) => m.json(),
            Message::Result(m) => m.json(),
            Message::Rejection(m) => m.json(),
            Message::Notice(m) => m.json(),
            Message::ChangeRecord(m) => m.json(),
            Message::Error(m) => m.json(),
        }
    }

    /// The fields that the message knows.
    pub open spec fn fields(self) -> Seq<Seq<char>> {
        match self {
            Message::Startup(_) => StartupMessage::fields(),
            Message::Auth(_) => AuthMessage::fields(),
            Message::DefineMachine(_) => DefineMachineMessage::fields(),
            Message::Transition(_) => TransitionMessage::fields(),
            Message::Current(_) => CurrentMessage::fields(),
            Message::History(_) => HistoryMessage::fields(),
            Message::Subscribe(_) => SubscribeMessage::fields(),
            Message::Ack(_) => AckMessage::fields(),
            Message::Unsubscribe(_) => UnsubscribeMessage::fields(),
            Message::Ready(_) => ReadyMessage::fields(),
            Message::Result(_) => ResultMessage::fields(),
            Message::Rejection(_) => RejectionMessage::fields(),
            Message::Notice(_) => NoticeMessage::fields(),
            Message::ChangeRecord(_) => ChangeRecordMessage::fields(),
            Message::Error(_) => ErrorMessage::fields(),
        }
    }

    /// Whether a body reads as this message.
    pub open spec fn reads(self, j: Json) -> bool {
        match self {
            Message::Startup(m) => m.reads(j),
            Message::Auth(m) => m.reads(j),
            Message::DefineMachine(m) => m.reads(j),
            Message::Transition(m) => m.reads(j),
            Message::Current(m) => m.reads(j),
            Message::History(m) => m.reads(j),
            Message::Subscribe(m) => m.reads(j),
            Message::Ack(m) => m.reads(j),
            Message::Unsubscribe(m) => m.reads(j),
            Message::Ready(m) => m.reads(j),
            Message::Result(m) => m.reads(j),
            Message::Rejection(m) => m.reads(j),
            Message::Notice(m) => m.reads(j),
            Message::ChangeRecord(m) => m.reads(j),
            Message::Error(m) => m.reads(j),
        }
    }

    /// Whether all of the message can be written down: its instants lie in the
    /// calendar, and none of its payloads is the null value, which is none.
    pub open spec fn is_plain(self) -> bool {
        match self {
            Message::DefineMachine(m) => settled(m.definition@) == m.definition@ && reads_back(
                m.definition.created_at,
            ),
            Message::ChangeRecord(m) => reads_back(m.record.timestamp),
            _ => true,
        }
    }

    /// Whether the message can be taken from the body in bytes: it reads as the
    /// message, and no field comes twice in a definition in it.
    pub open spec fn is_taken_from(self, bytes: Seq<u8>) -> bool {
        &&& packed_at(bytes, self.fields()) is Some
        &&& self.reads(packed_at(bytes, self.fields())->0)
        &&& self is DefineMachine ==> !repeats_in(bytes)
    }

    /// Whether a frame carries the message.
    pub open spec fn is_in(self, frame: Frame) -> bool {
        frame.tag == self.tag() && packs(held(frame.body), self.json())
    }
}

/// Whatever the message, what is read of a frame that carries it is the message,
/// whatever unknown keys join its body on the way, unless the body is too long or
/// nested too deeply.
pub proof fn law_messages_travel(m: Message, sent: Frame, got: Frame)
    requires
        m.is_in(sent),
        m.is_plain(),
        m.json().nests_within(1023),
        held(sent.body).len() <= u32::MAX,
        got.tag == sent.tag,
        extends(held(got.body), held(sent.body), m.fields()),
    ensures
        got.tag == m.tag(),
        m.is_taken_from(held(got.body)),
{
    let bytes = held(sent.body);
    let more = held(got.body);
    match m {
        Message::Startup(m) => {
            law_startup_travels(m, bytes, more);
        },
        Message::Auth(m) => {
            law_auth_travels(m, bytes, more);
        },
        Message::DefineMachine(m) => {
            law_define_machine_travels(m, bytes, more);
        },
        Message::Transition(m) => {
            law_transition_travels(m, bytes, more);
        },
        Message::Current(m) => {
            law_current_travels(m, bytes, more);
        },
        Message::History(m) => {
            law_history_travels(m, bytes, more);
        },
        Message::Subscribe(m) => {
            law_subscribe_travels(m, bytes, more);
        },
        Message::Ack(m) => {
            law_ack_travels(m, bytes, more);
        },
        Message::Unsubscribe(m) => {
            law_unsubscribe_travels(m, bytes, more);
        },
        Message::Ready(m) => {
            law_ready_travels(m, bytes, more);
        },
        Message::Result(m) => {
            law_result_travels(m, bytes, more);
        },
        Message::Rejection(m) => {
            law_rejection_travels(m, bytes, more);
        },
        Message::Notice(m) => {
            law_notice_travels(m, bytes, more);
        },
        Message::ChangeRecord(m) => {
            law_change_record_travels(m, bytes, more);
        },
        Message::Error(m) => {
            law_error_travels(m, bytes, more);
        },
    }
}

/// Whatever the message, what is read of the frame that it was put into is the
/// message.
pub proof fn law_messages_read_back(m: Message, frame: Frame)
    requires
        m.is_in(frame),
        m.is_plain(),
        m.json().nests_within(1023),
        held(frame.body).len() <= u32::MAX,
    ensures
        m.is_taken_from(held(frame.body)),
{
    assert(m.json() is Object);
    law_messages_travel(m, frame, frame);
}

} // verus!
