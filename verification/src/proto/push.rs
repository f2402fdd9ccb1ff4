//! The messages that carry a definition or a change record.
use crate::fsm::machine::MachineDefinition;
use crate::fsm::record::{payload_views, ChangeRecord, ChangeView, EffectPayload, EffectPayloadView};
use crate::json::{
    as_list, json_view, json_views, list_value, member, object, put_member, text_value, uint_value,
    Json,
};
use crate::proto::body::{agree, names, packed_at};
use crate::proto::codec::{body_fault, decode_fields, encode_message, packs};
use crate::proto::definition::{
    instant_json, instant_value, machine_at, machine_json, machine_value, read_machine,
};
use crate::proto::error::ProtoError;
use crate::proto::fields::{
    instant_field, lemma_uint_of, read_instant, read_text, read_uint, read_uint32,
    read_value_or_null, text_field, uint32_field, uint_field, uint_of, value_or_null_field,
};
use crate::proto::frame::{held, vec_of, Frame, FrameTag};
use crate::proto::parts::{packed_parts, MessagePack, Notation, Parts, Pieces};
use crate::proto::records::reads_back;
use crate::proto::repeats::{definition_repeats, find_raw, has_repeated_fields, raw_under};
use vstd::prelude::*;

verus! {

/// Registers a definition.
#[derive(Debug)]
pub struct DefineMachineMessage {
    /// Comes back in the reply.
    pub request_id: u64,
    pub name: String,
    pub version: u32,
    pub definition: MachineDefinition,
}

/// The definition in a body.
pub open spec fn definition_field(j: Json) -> Option<crate::fsm::machine::MachineView> {
    match j.member("definition"@) {
        Some(d) => machine_at(d),
        None => None,
    }
}

/// Whether a field comes twice in the definition in a body.
pub open spec fn repeats_in(bytes: Seq<u8>) -> bool {
    match packed_parts(bytes) {
        Parts::Fields(fs) => match raw_under(fs, "definition"@) {
            Some(raw) => definition_repeats::<MessagePack>(raw),
            None => false,
        },
        _ => false,
    }
}

/// Checks `repeats_in`.
fn has_repeats_in(bytes: &[u8]) -> (r: bool)
    ensures
        r == repeats_in(bytes@),
{
    match MessagePack::split(bytes) {
        Pieces::Fields(v) => match find_raw(&v, "definition") {
            Some(raw) => has_repeated_fields::<MessagePack>(raw),
            None => false,
        },
        _ => false,
    }
}

impl DefineMachineMessage {
    /// The body of the message.
    pub open spec fn json(self) -> Json {
        Json::Object(
            Map::empty().insert("request_id"@, Json::uint(self.request_id as nat)).insert(
                "name"@,
                Json::Text(self.name@),
            ).insert("version"@, Json::uint(self.version as nat)).insert(
                "definition"@,
                machine_json(self.definition@),
            ),
        )
    }

    /// The fields that the message knows.
    pub open spec fn fields() -> Seq<Seq<char>> {
        seq!["request_id"@, "name"@, "version"@, "definition"@]
    }

    /// Whether a body can be read.
    pub open spec fn readable(j: Json) -> bool {
        &&& j is Object
        &&& uint_field(j, "request_id"@) is Some
        &&& text_field(j, "name"@) is Some
        &&& uint32_field(j, "version"@) is Some
        &&& definition_field(j) is Some
    }

    /// Whether a body reads as this message.
    pub open spec fn reads(self, j: Json) -> bool {
        &&& j is Object
        &&& uint_field(j, "request_id"@) == Some(self.request_id)
        &&& text_field(j, "name"@) == Some(self.name@)
        &&& uint32_field(j, "version"@) == Some(self.version)
        &&& definition_field(j) == Some(self.definition@)
    }

    /// The message in a frame.
    pub fn to_frame(&self) -> (r: Result<Frame, ProtoError>)
        ensures
            r matches Ok(f) && f.tag == FrameTag::DefineMachine && packs(held(f.body), self.json()),
    {
        let mut v = object();
        put_member(&mut v, "request_id", uint_value(self.request_id));
        put_member(&mut v, "name", text_value(self.name.as_str()));
        put_member(&mut v, "version", uint_value(self.version as u64));
        put_member(&mut v, "definition", machine_value(&self.definition));
        encode_message(FrameTag::DefineMachine, &v)
    }

    /// Reads the message from the body of a frame.
    pub fn from_frame(frame: &Frame) -> (r: Result<DefineMachineMessage, ProtoError>)
        ensures
            ({
                let body = packed_at(held(frame.body), DefineMachineMessage::fields());
                match r {
                    Ok(m) => body is Some && m.reads(body->0) && !repeats_in(held(frame.body)),
                    Err(e) => e@ == body_fault(body, "malformed DefineMachine body"@) && (
                    body is None || !DefineMachineMessage::readable(body->0) || repeats_in(
                        held(frame.body),
                    )),
                }
            }),
    {
        let fields: Vec<&str> = vec!["request_id", "name", "version", "definition"];
        assert(names(fields@) =~= DefineMachineMessage::fields());
        let v = match decode_fields(frame, &fields) {
            Ok(v) => v,
            Err(e) => {
                return Err(e);
            },
        };
        let definition = match member(&v, "definition") {
            Some(d) => read_machine(&d),
            None => None,
        };
        let request_id = read_uint(&v, "request_id");
        let name = read_text(&v, "name");
        let version = read_uint32(&v, "version");
        if v.is_object() && !has_repeats_in(vec_of(&frame.body).as_slice()) {
            if let (Some(request_id), Some(name), Some(version), Some(definition)) = (
                request_id,
                name,
                version,
                definition,
            ) {
                return Ok(DefineMachineMessage { request_id, name, version, definition });
            }
        }
        Err(ProtoError::DeserializationError("malformed DefineMachine body".to_owned()))
    }
}

/// Reading a DefineMachine message depends on nothing but its fields.
pub proof fn law_define_machine_heeds_its_fields(m: DefineMachineMessage, a: Json, b: Json)
    requires
        a is Object,
        b is Object,
        agree(a, b, DefineMachineMessage::fields()),
    ensures
        DefineMachineMessage::readable(a) == DefineMachineMessage::readable(b),
        m.reads(a) == m.reads(b),
{
    let fields = DefineMachineMessage::fields();
    assert(fields[0] == "request_id"@);
    assert(fields[1] == "name"@);
    assert(fields[2] == "version"@);
    assert(fields[3] == "definition"@);
}

/// An effect as JSON.
pub open spec fn payload_json(e: EffectPayloadView) -> Json {
    Json::Object(
        Map::empty().insert("type"@, Json::Text(e.effect_name)).insert("payload"@, e.payload),
    )
}

/// A change record for a subscription as JSON.
pub open spec fn change_json(subscription_id: Seq<char>, c: ChangeView) -> Json {
    Json::Object(
        Map::empty().insert("subscription_id"@, Json::Text(subscription_id)).insert(
            "sequence"@,
            Json::uint(c.sequence as nat),
        ).insert("transition_id"@, Json::Text(c.transition_id)).insert(
            "entity_id"@,
            Json::Text(c.entity_id),
        ).insert("machine"@, Json::Text(c.machine)).insert("from"@, Json::Text(c.from_state)).insert(
            "to"@,
            Json::Text(c.to_state),
        ).insert("event"@, Json::Text(c.event)).insert("actor"@, Json::Text(c.actor)).insert(
            "version"@,
            Json::uint(c.version as nat),
        ).insert("ts"@, instant_json(c.timestamp)).insert("ctx"@, c.ctx).insert(
            "effects"@,
            Json::List(Seq::new(c.effects.len(), |i: int| payload_json(c.effects[i]))),
        ),
    )
}

/// The effect that a value stands for, if it stands for one.
pub open spec fn payload_at(j: Json) -> Option<EffectPayloadView> {
    match text_field(j, "type"@) {
        Some(effect_name) => Some(
            EffectPayloadView { effect_name, payload: value_or_null_field(j, "payload"@) },
        ),
        None => None,
    }
}

/// The effects of a body, if every item is one.
pub open spec fn effects_field(j: Json) -> Option<Seq<EffectPayloadView>> {
    match j.member("effects"@) {
        Some(Json::List(s)) => if forall|i: int|
            0 <= i < s.len() ==> payload_at(#[trigger] s[i]) is Some {
            Some(Seq::new(s.len(), |i: int| payload_at(s[i])->0))
        } else {
            None
        },
        _ => None,
    }
}

/// The change record that a body holds, if it holds one.
pub open spec fn change_at(j: Json) -> Option<ChangeView> {
    match (
        uint_field(j, "sequence"@),
        text_field(j, "transition_id"@),
        text_field(j, "entity_id"@),
        text_field(j, "machine"@),
        text_field(j, "from"@),
        text_field(j, "to"@),
        text_field(j, "event"@),
        text_field(j, "actor"@),
        uint_field(j, "version"@),
        instant_field(j, "ts"@),
        effects_field(j),
    ) {
        (
            Some(sequence),
            Some(transition_id),
            Some(entity_id),
            Some(machine),
            Some(from_state),
            Some(to_state),
            Some(event),
            Some(actor),
            Some(version),
            Some(timestamp),
            Some(effects),
        ) => Some(
            ChangeView {
                sequence,
                transition_id,
                entity_id,
                machine,
                from_state,
                to_state,
                event,
                actor,
                version,
                timestamp,
                ctx: value_or_null_field(j, "ctx"@),
                effects,
            },
        ),
        _ => None,
    }
}

/// Pushes a change record to a subscriber.
#[derive(Debug)]
pub struct ChangeRecordMessage {
    pub subscription_id: String,
    pub record: ChangeRecord,
}

/// The effects of a change record as values.
fn effect_values(effects: &Vec<EffectPayload>) -> (r: Vec<serde_json::Value>)
    ensures
        json_views(r@) == Seq::new(
            payload_views(effects@).len(),
            |i: int| payload_json(payload_views(effects@)[i]),
        ),
{
    let mut r: Vec<serde_json::Value> = Vec::new();
    let mut i: usize = 0;
    while i < effects.len()
        invariant
            i <= effects.len(),
            r.len() == i,
            forall|j: int| 0 <= j < i ==> json_view(#[trigger] r[j]) == payload_json(effects[j]@),
        decreases effects.len() - i,
    {
        let mut e = object();
        put_member(&mut e, "type", text_value(effects[i].effect_name.as_str()));
        put_member(&mut e, "payload", effects[i].payload.clone());
        r.push(e);
        i = i + 1;
    }
    assert(json_views(r@) =~= Seq::new(
        payload_views(effects@).len(),
        |i: int| payload_json(payload_views(effects@)[i]),
    ));
    r
}

/// Reads the effects of a body.
fn read_effects(v: &serde_json::Value) -> (r: Option<Vec<EffectPayload>>)
    ensures
        match r {
            Some(s) => effects_field(json_view(*v)) == Some(payload_views(s@)),
            None => effects_field(json_view(*v)) is None,
        },
{
    let items = match member(v, "effects") {
        Some(m) => match as_list(&m) {
            Some(items) => items,
            None => {
                return None;
            },
        },
        None => {
            return None;
        },
    };
    let ghost list = json_views(items@);
    assert(json_view(*v).member("effects"@) == Some(Json::List(list)));
    let mut found: Vec<EffectPayload> = Vec::new();
    let mut i: usize = 0;
    while i < items.len()
        invariant
            i <= items.len(),
            list == json_views(items@),
            json_view(*v).member("effects"@) == Some(Json::List(list)),
            found.len() == i,
            forall|j: int| 0 <= j < i ==> payload_at(#[trigger] list[j]) == Some(found[j]@),
        decreases items.len() - i,
    {
        assert(list[i as int] == json_view(items[i as int]));
        match read_text(&items[i], "type") {
            Some(effect_name) => {
                let payload = read_value_or_null(&items[i], "payload");
                found.push(EffectPayload { effect_name, payload });
            },
            None => {
                assert(payload_at(list[i as int]) is None);
                return None;
            },
        }
        i = i + 1;
    }
    proof {
        let want = Seq::new(list.len(), |j: int| payload_at(list[j])->0);
        assert(list.len() == items.len());
        assert(payload_views(found@) =~= want) by {
            assert forall|j: int| 0 <= j < list.len() implies want[j] == found[j]@ by {
                assert(payload_at(list[j]) == Some(found[j]@));
            }
        }
    }
    Some(found)
}

impl ChangeRecordMessage {
    /// The body of the message.
    pub open spec fn json(self) -> Json {
        change_json(self.subscription_id@, self.record@)
    }

    /// The fields that the message knows.
    pub open spec fn fields() -> Seq<Seq<char>> {
        seq![
            "subscription_id"@,
            "sequence"@,
            "transition_id"@,
            "entity_id"@,
            "machine"@,
            "from"@,
            "to"@,
            "event"@,
            "actor"@,
            "version"@,
            "ts"@,
            "effects"@,
            "ctx"@,
        ]
    }

    /// Whether a body can be read.
    pub open spec fn readable(j: Json) -> bool {
        text_field(j, "subscription_id"@) is Some && change_at(j) is Some
    }

    /// Whether a body reads as this message.
    pub open spec fn reads(self, j: Json) -> bool {
        text_field(j, "subscription_id"@) == Some(self.subscription_id@) && change_at(j) == Some(
            self.record@,
        )
    }

    /// The message in a frame.
    pub fn to_frame(&self) -> (r: Result<Frame, ProtoError>)
        ensures
            r matches Ok(f) && f.tag == FrameTag::ChangeRecord && packs(held(f.body), self.json()),
    {
        let mut v = object();
        put_member(&mut v, "subscription_id", text_value(self.subscription_id.as_str()));
        put_member(&mut v, "sequence", uint_value(self.record.sequence));
        put_member(&mut v, "transition_id", text_value(self.record.transition_id.as_str()));
        put_member(&mut v, "entity_id", text_value(self.record.entity_id.as_str()));
        put_member(&mut v, "machine", text_value(self.record.machine.as_str()));
        put_member(&mut v, "from", text_value(self.record.from_state.as_str()));
        put_member(&mut v, "to", text_value(self.record.to_state.as_str()));
        put_member(&mut v, "event", text_value(self.record.event.as_str()));
        put_member(&mut v, "actor", text_value(self.record.actor.as_str()));
        put_member(&mut v, "version", uint_value(self.record.version));
        put_member(&mut v, "ts", instant_value(&self.record.timestamp));
        put_member(&mut v, "ctx", self.record.ctx.clone());
        put_member(&mut v, "effects", list_value(effect_values(&self.record.effects)));
        encode_message(FrameTag::ChangeRecord, &v)
    }

    /// Reads the message from the body of a frame.
    pub fn from_frame(frame: &Frame) -> (r: Result<ChangeRecordMessage, ProtoError>)
        ensures
            ({
                let body = packed_at(held(frame.body), ChangeRecordMessage::fields());
                match r {
                    Ok(m) => body is Some && m.reads(body->0),
                    Err(e) => e@ == body_fault(body, "malformed ChangeRecord body"@) && (body is None
                        || !ChangeRecordMessage::readable(body->0)),
                }
            }),
    {
        let fields: Vec<&str> = vec![
            "subscription_id",
            "sequence",
            "transition_id",
            "entity_id",
            "machine",
            "from",
            "to",
            "event",
            "actor",
            "version",
            "ts",
            "effects",
            "ctx",
        ];
        assert(names(fields@) =~= ChangeRecordMessage::fields());
        let v = match decode_fields(frame, &fields) {
            Ok(v) => v,
            Err(e) => {
                return Err(e);
            },
        };
        let subscription_id = read_text(&v, "subscription_id");
        let sequence = read_uint(&v, "sequence");
        let transition_id = read_text(&v, "transition_id");
        let entity_id = read_text(&v, "entity_id");
        let machine = read_text(&v, "machine");
        let from_state = read_text(&v, "from");
        let to_state = read_text(&v, "to");
        let event = read_text(&v, "event");
        let actor = read_text(&v, "actor");
        let version = read_uint(&v, "version");
        let timestamp = read_instant(&v, "ts");
        let ctx = read_value_or_null(&v, "ctx");
        let effects = read_effects(&v);
        match (
            subscription_id,
            sequence,
            transition_id,
            entity_id,
            machine,
            from_state,
            to_state,
            event,
            actor,
            version,
            timestamp,
            effects,
        ) {
            (
                Some(subscription_id),
                Some(sequence),
                Some(transition_id),
                Some(entity_id),
                Some(machine),
                Some(from_state),
                Some(to_state),
                Some(event),
                Some(actor),
                Some(version),
                Some(timestamp),
                Some(effects),
            ) => Ok(
                ChangeRecordMessage {
                    subscription_id,
                    record: ChangeRecord {
                        sequence,
                        transition_id,
                        entity_id,
                        machine,
                        from_state,
                        to_state,
                        event,
                        actor,
                        version,
                        timestamp,
                        ctx,
                        effects,
                    },
                },
            ),
            _ => Err(ProtoError::DeserializationError("malformed ChangeRecord body".to_owned())),
        }
    }
}

/// Reading a ChangeRecord message depends on nothing but its fields.
pub proof fn law_change_record_heeds_its_fields(m: ChangeRecordMessage, a: Json, b: Json)
    requires
        a is Object,
        b is Object,
        agree(a, b, ChangeRecordMessage::fields()),
    ensures
        ChangeRecordMessage::readable(a) == ChangeRecordMessage::readable(b),
        m.reads(a) == m.reads(b),
{
    let fields = ChangeRecordMessage::fields();
    assert(fields[0] == "subscription_id"@);
    assert(fields[1] == "sequence"@);
    assert(fields[2] == "transition_id"@);
    assert(fields[3] == "entity_id"@);
    assert(fields[4] == "machine"@);
    assert(fields[5] == "from"@);
    assert(fields[6] == "to"@);
    assert(fields[7] == "event"@);
    assert(fields[8] == "actor"@);
    assert(fields[9] == "version"@);
    assert(fields[10] == "ts"@);
    assert(fields[11] == "effects"@);
    assert(fields[12] == "ctx"@);
}

proof fn lemma_change_keys()
    ensures
        forall|i: int, j: int|
            0 <= i < j < 13 ==> #[trigger] change_keys()[i] != #[trigger] change_keys()[j],
        "type"@ != "payload"@,
{
    reveal_strlit("subscription_id");
    reveal_strlit("sequence");
    reveal_strlit("transition_id");
    reveal_strlit("entity_id");
    reveal_strlit("machine");
    reveal_strlit("from");
    reveal_strlit("to");
    reveal_strlit("event");
    reveal_strlit("actor");
    reveal_strlit("version");
    reveal_strlit("ts");
    reveal_strlit("ctx");
    reveal_strlit("effects");
    reveal_strlit("type");
    reveal_strlit("payload");
    assert("subscription_id"@.len() == 15 && "sequence"@.len() == 8 && "transition_id"@.len() == 13);
    assert("entity_id"@.len() == 9 && "machine"@.len() == 7 && "from"@.len() == 4);
    assert("to"@.len() == 2 && "event"@.len() == 5 && "actor"@.len() == 5);
    assert("version"@.len() == 7 && "ts"@.len() == 2 && "ctx"@.len() == 3 && "effects"@.len() == 7);
    assert("machine"@[0] == 'm' && "version"@[0] == 'v' && "effects"@[0] == 'e');
    assert("to"@[1] == 'o' && "ts"@[1] == 's' && "event"@[0] == 'e' && "actor"@[0] == 'a');
    assert("type"@.len() == 4 && "payload"@.len() == 7);
}

/// The keys of a change record.
spec fn change_keys() -> Seq<Seq<char>> {
    seq![
        "subscription_id"@,
        "sequence"@,
        "transition_id"@,
        "entity_id"@,
        "machine"@,
        "from"@,
        "to"@,
        "event"@,
        "actor"@,
        "version"@,
        "ts"@,
        "ctx"@,
        "effects"@,
    ]
}

/// A change record that was written reads back as it was, provided that its
/// instant does.
pub proof fn law_changes_read_back(m: ChangeRecordMessage)
    ensures
        reads_back(m.record.timestamp) ==> m.reads(m.json()),
{
    broadcast use lemma_uint_of;

    lemma_change_keys();
    let k = change_keys();
    let c = m.record@;
    let j = m.json();
    assert(k[0] == "subscription_id"@ && k[1] == "sequence"@ && k[2] == "transition_id"@);
    assert(k[3] == "entity_id"@ && k[4] == "machine"@ && k[5] == "from"@ && k[6] == "to"@);
    assert(k[7] == "event"@ && k[8] == "actor"@ && k[9] == "version"@ && k[10] == "ts"@);
    assert(k[11] == "ctx"@ && k[12] == "effects"@);
    assert(uint_of(Json::uint(c.sequence as nat)) == Some(c.sequence));
    assert(uint_of(Json::uint(c.version as nat)) == Some(c.version));
    let list = Seq::new(c.effects.len(), |i: int| payload_json(c.effects[i]));
    assert forall|i: int| 0 <= i < list.len() implies payload_at(#[trigger] list[i]) == Some(
        c.effects[i],
    ) by {
        assert(list[i].member("type"@) == Some(Json::Text(c.effects[i].effect_name)));
        assert(list[i].member("payload"@) == Some(c.effects[i].payload));
    }
    assert(j.member("effects"@) == Some(Json::List(list)));
    assert(Seq::new(list.len(), |i: int| payload_at(list[i])->0) =~= c.effects);
    assert(effects_field(j) == Some(c.effects));
    assert(text_field(j, "subscription_id"@) == Some(m.subscription_id@));
    assert(uint_field(j, "sequence"@) == Some(c.sequence));
    assert(text_field(j, "transition_id"@) == Some(c.transition_id));
    assert(text_field(j, "entity_id"@) == Some(c.entity_id));
    assert(text_field(j, "machine"@) == Some(c.machine));
    assert(text_field(j, "from"@) == Some(c.from_state));
    assert(text_field(j, "to"@) == Some(c.to_state));
    assert(text_field(j, "event"@) == Some(c.event));
    assert(text_field(j, "actor"@) == Some(c.actor));
    assert(uint_field(j, "version"@) == Some(c.version));
    assert(j.member("ts"@) == Some(instant_json(c.timestamp)));
    assert(j.member("ctx"@) == Some(c.ctx));
}

} // verus!
