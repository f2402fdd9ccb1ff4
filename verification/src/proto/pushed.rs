//! How change records and definitions are written and read, field by field.
use crate::json::{json_view, Json};
use crate::proto::body::{holds, law_bytes_that_hold_an_object_read_as_it};
use crate::proto::definition::machine_value;
use crate::proto::error::ProtoError;
use crate::proto::fields::uint_of;
use crate::proto::frame::{held, Frame, FrameTag};
use crate::proto::push::{payload_at, payload_json, ChangeRecordMessage, DefineMachineMessage};
use vstd::prelude::*;

verus! {

/// The names in a pushed body differ.
proof fn lemma_names()
    ensures
        "subscription_id"@.len() == 15,
        "sequence"@.len() == 8,
        "transition_id"@.len() == 13,
        "entity_id"@.len() == 9,
        "machine"@.len() == 7,
        "from"@.len() == 4,
        "to"@.len() == 2,
        "event"@.len() == 5,
        "actor"@.len() == 5,
        "version"@.len() == 7,
        "ts"@.len() == 2,
        "ctx"@.len() == 3,
        "effects"@.len() == 7,
        "type"@.len() == 4,
        "payload"@.len() == 7,
        "request_id"@.len() == 10,
        "name"@.len() == 4,
        "definition"@.len() == 10,
        "machine"@[0] == 'm' && "version"@[0] == 'v' && "effects"@[0] == 'e'
            && "payload"@[0] == 'p',
        "to"@[1] == 'o' && "ts"@[1] == 's',
        "event"@[0] == 'e' && "actor"@[0] == 'a',
        "from"@[0] == 'f' && "type"@[0] == 't' && "name"@[0] == 'n',
        "definition"@[0] == 'd' && "request_id"@[0] == 'r',
{
    reveal_strlit("subscription_id");
    reveal_strlit("sequence");
    reveal_strlit("transition_id");
    reveal_strlit("entity_id");
    reveal_strlit("machine");
    reveal_strlit("from");
    reveal_strlit("to");
    reveal_strlit("event");
    reveal_strlit("actor");
    reveal_strlit("version");
    reveal_strlit("ts");
    reveal_strlit("ctx");
    reveal_strlit("effects");
    reveal_strlit("type");
    reveal_strlit("payload");
    reveal_strlit("request_id");
    reveal_strlit("name");
    reveal_strlit("definition");
}

/// A change record is written with its fields under their names, and each of its
/// effects with its name and its payload, in their order.
pub proof fn law_change_record_is_written(m: ChangeRecordMessage, frame: Frame) -> (body: Map<
    Seq<char>,
    Json,
>)
    requires
        call_ensures(ChangeRecordMessage::to_frame, (&m,), Ok::<Frame, ProtoError>(frame)),
        held(frame.body).len() <= u32::MAX,
        m.json().nests_within(1023),
    ensures
        frame.tag == FrameTag::ChangeRecord,
        holds(held(frame.body), body),
        body["subscription_id"@] == Json::Text(m.subscription_id@) && body.contains_key(
            "subscription_id"@,
        ),
        body["transition_id"@] == Json::Text(m.record.transition_id@)
            && body.contains_key("transition_id"@),
        body["entity_id"@] == Json::Text(m.record.entity_id@) && body.contains_key("entity_id"@),
        body["machine"@] == Json::Text(m.record.machine@) && body.contains_key("machine"@),
        body["from"@] == Json::Text(m.record.from_state@) && body.contains_key("from"@),
        body["to"@] == Json::Text(m.record.to_state@) && body.contains_key("to"@),
        body["event"@] == Json::Text(m.record.event@) && body.contains_key("event"@),
        body["actor"@] == Json::Text(m.record.actor@) && body.contains_key("actor"@),
        body["sequence"@] == Json::uint(m.record.sequence as nat) && body.contains_key("sequence"@),
        body["version"@] == Json::uint(m.record.version as nat) && body.contains_key("version"@),
        body["ctx"@] == json_view(m.record.ctx) && body.contains_key("ctx"@),
        body.contains_key("effects"@),
        body["effects"@] matches Json::List(l) && l.len() == m.record.effects@.len() && forall|
            i: int,
        |
            0 <= i < l.len() ==> (#[trigger] l[i]).member("type"@) == Some(
                Json::Text(m.record.effects@[i].effect_name@),
            ) && l[i].member("payload"@) == Some(json_view(m.record.effects@[i].payload)),
{
    lemma_names();
    let c = m.record@;
    let list = Seq::new(c.effects.len(), |i: int| payload_json(c.effects[i]));
    let body = m.json()->Object_0;
    assert(body["effects"@] == Json::List(list));
    assert forall|i: int| 0 <= i < list.len() implies (#[trigger] list[i]).member("type"@) == Some(
        Json::Text(m.record.effects@[i].effect_name@),
    ) && list[i].member("payload"@) == Some(json_view(m.record.effects@[i].payload)) by {
        assert(c.effects[i] == m.record.effects@[i]@);
    }
    body
}

/// A change record is read from the fields of a body by their names. A context that
/// is missing is null, and so is the payload of an effect.
pub proof fn law_change_record_is_read(
    frame: Frame,
    body: Map<Seq<char>, Json>,
    m: ChangeRecordMessage,
)
    requires
        holds(held(frame.body), body),
        call_ensures(
            ChangeRecordMessage::from_frame,
            (&frame,),
            Ok::<ChangeRecordMessage, ProtoError>(m),
        ),
    ensures
        body.contains_key("subscription_id"@) && body["subscription_id"@] == Json::Text(
            m.subscription_id@,
        ),
        body.contains_key("transition_id"@)
            && body["transition_id"@] == Json::Text(m.record.transition_id@),
        body.contains_key("entity_id"@) && body["entity_id"@] == Json::Text(m.record.entity_id@),
        body.contains_key("machine"@) && body["machine"@] == Json::Text(m.record.machine@),
        body.contains_key("from"@) && body["from"@] == Json::Text(m.record.from_state@),
        body.contains_key("to"@) && body["to"@] == Json::Text(m.record.to_state@),
        body.contains_key("event"@) && body["event"@] == Json::Text(m.record.event@),
        body.contains_key("actor"@) && body["actor"@] == Json::Text(m.record.actor@),
        body.contains_key("sequence"@) && body["sequence"@] == Json::uint(m.record.sequence as nat),
        body.contains_key("version"@) && body["version"@] == Json::uint(m.record.version as nat),
        json_view(m.record.ctx) == (if body.contains_key("ctx"@) {
            body["ctx"@]
        } else {
            Json::Null
        }),
        body.contains_key("effects"@),
        body["effects"@] matches Json::List(l) && l.len() == m.record.effects@.len() && forall|
            i: int,
        |
            0 <= i < l.len() ==> (#[trigger] l[i]).member("type"@) == Some(
                Json::Text(m.record.effects@[i].effect_name@),
            ) && json_view(m.record.effects@[i].payload) == (match l[i].member("payload"@) {
                Some(p) => p,
                None => Json::Null,
            }),
{
    law_bytes_that_hold_an_object_read_as_it(
        held(frame.body),
        body,
        ChangeRecordMessage::fields(),
    );
    assert forall|j: Json, n: u64| #[trigger] uint_of(j) == Some(n) implies j
        == #[trigger] Json::uint(n as nat) by {}
    let c = m.record@;
    let l = body["effects"@]->List_0;
    assert(c.effects =~= Seq::new(l.len(), |i: int| payload_at(l[i])->0));
    assert forall|i: int| 0 <= i < l.len() implies (#[trigger] l[i]).member("type"@) == Some(
        Json::Text(m.record.effects@[i].effect_name@),
    ) && json_view(m.record.effects@[i].payload) == (match l[i].member("payload"@) {
        Some(p) => p,
        None => Json::Null,
    }) by {
        assert(payload_at(l[i]) is Some);
        assert(c.effects[i] == payload_at(l[i])->0);
        assert(c.effects[i] == m.record.effects@[i]@);
    }
}

/// A `DefineMachine` message is written with its fields under their names, and its
/// definition as a definition is written.
pub proof fn law_define_machine_is_written(
    m: DefineMachineMessage,
    frame: Frame,
    v: serde_json::Value,
) -> (body: Map<Seq<char>, Json>)
    requires
        call_ensures(DefineMachineMessage::to_frame, (&m,), Ok::<Frame, ProtoError>(frame)),
        call_ensures(machine_value, (&m.definition,), v),
        held(frame.body).len() <= u32::MAX,
        m.json().nests_within(1023),
    ensures
        frame.tag == FrameTag::DefineMachine,
        holds(held(frame.body), body),
        body["request_id"@] == Json::uint(m.request_id as nat) && body.contains_key("request_id"@),
        body["name"@] == Json::Text(m.name@) && body.contains_key("name"@),
        body["version"@] == Json::uint(m.version as nat) && body.contains_key("version"@),
        body["definition"@] == json_view(v) && body.contains_key("definition"@),
{
    lemma_names();
    m.json()->Object_0
}

} // verus!
