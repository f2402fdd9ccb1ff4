//! The messages of the protocol, field by field.
use crate::json::{
    json_view, member, object, opt_text_value, opt_uint_value, put_member, text_value, texts_value,
    uint_value, Json,
};
use crate::proto::body::{agree, names, packed_at};
use crate::proto::codec::{body_fault, decode_fields, encode_message, packs};
use crate::proto::error::ProtoError;
use crate::proto::fields::{
    either_text_field, either_uint_field, lemma_texts_of, lemma_uint_of, opt_text_field,
    opt_text_json, opt_uint32_field, opt_uint_field, opt_uint_json, read_either_text,
    read_either_uint, read_opt_text, read_opt_uint, read_opt_uint32, read_text, read_text_or_empty,
    read_texts_or_none, read_uint, read_uint32, read_value_or_null, text_field, text_or_empty_field,
    texts_of, texts_or_none_field, uint32_field, uint_field, uint_of, value_or_null_field, widen,
    widened,
};
use crate::proto::frame::{held, Frame, FrameTag};
use crate::text::{opt_text, texts};
use vstd::prelude::*;

verus! {

/// Opens the negotiation.
#[derive(Debug)]
pub struct StartupMessage {
    /// The version that the client wants.
    pub protocol_version: u32,
    /// What the client can do.
    pub capabilities: Vec<String>,
}

impl StartupMessage {
    /// The body of the message.
    pub open spec fn json(self) -> Json {
        Json::Object(
            Map::empty()
                .insert("protocol_version"@, Json::uint(self.protocol_version as nat))
                .insert("capabilities"@, Json::texts(texts(self.capabilities@)))
        )
    }

    /// The fields that the message knows.
    pub open spec fn fields() -> Seq<Seq<char>> {
        seq!["protocol_version"@, "capabilities"@]
    }

    /// Whether a body can be read.
    pub open spec fn readable(j: Json) -> bool {
        &&& j is Object
        &&& uint32_field(j, "protocol_version"@) is Some
        &&& texts_or_none_field(j, "capabilities"@) is Some
    }

    /// Whether a body reads as this message.
    pub open spec fn reads(self, j: Json) -> bool {
        &&& j is Object
        &&& uint32_field(j, "protocol_version"@) == Some(self.protocol_version)
        &&& texts_or_none_field(j, "capabilities"@) == Some(texts(self.capabilities@))
    }

    /// The body of the message, as a value.
    pub fn to_value(&self) -> (v: serde_json::Value)
        ensures
            json_view(v) == self.json(),
    {
        let mut v = object();
        put_member(&mut v, "protocol_version", uint_value(self.protocol_version as u64));
        put_member(&mut v, "capabilities", texts_value(&self.capabilities));
        v
    }

    /// Reads the message from its body.
    pub fn from_value(v: &serde_json::Value) -> (r: Option<StartupMessage>)
        ensures
            match r {
                Some(m) => StartupMessage::readable(json_view(*v)) && m.reads(json_view(*v)),
                None => !StartupMessage::readable(json_view(*v)),
            },
    {
        if !v.is_object() {
            return None;
        }
        let protocol_version = read_uint32(v, "protocol_version");
        let capabilities = read_texts_or_none(v, "capabilities");
        match (protocol_version, capabilities) {
            (Some(protocol_version), Some(capabilities)) => Some(
                StartupMessage { protocol_version, capabilities },
            ),
            _ => None,
        }
    }

    /// The message in a frame.
    pub fn to_frame(&self) -> (r: Result<Frame, ProtoError>)
        ensures
            r matches Ok(f) && f.tag == FrameTag::Startup && packs(held(f.body), self.json()),
    {
        encode_message(FrameTag::Startup, &self.to_value())
    }

    /// Reads the message from the body of a frame.
    pub fn from_frame(frame: &Frame) -> (r: Result<StartupMessage, ProtoError>)
        ensures
            ({
                let body = packed_at(held(frame.body), StartupMessage::fields());
                match r {
                    Ok(m) => body is Some && m.reads(body->0),
                    Err(e) => e@ == body_fault(body, "malformed Startup body"@) && (body is None
                        || !StartupMessage::readable(body->0)),
                }
            }),
    {
        let fields: Vec<&str> = vec!["protocol_version", "capabilities"];
        assert(names(fields@) =~= StartupMessage::fields());
        match decode_fields(frame, &fields) {
            Ok(v) => match StartupMessage::from_value(&v) {
                Some(m) => Ok(m),
                None => Err(
                    ProtoError::DeserializationError("malformed Startup body".to_owned()),
                ),
            },
            Err(e) => Err(e),
        }
    }
}

/// Reading a Startup message depends on nothing but its fields.
pub proof fn law_startup_heeds_its_fields(m: StartupMessage, a: Json, b: Json)
    requires
        a is Object,
        b is Object,
        agree(a, b, StartupMessage::fields()),
    ensures
        StartupMessage::readable(a) == StartupMessage::readable(b),
        m.reads(a) == m.reads(b),
{
    let fields = StartupMessage::fields();
    assert(fields[0] == "protocol_version"@);
    assert(fields[1] == "capabilities"@);
}

/// A Startup message that was written reads back as it was.
pub proof fn law_startup_reads_back(m: StartupMessage)
    ensures
        StartupMessage::readable(m.json()),
        m.reads(m.json()),
        m.json().nests_within(1023),
{
    reveal_with_fuel(Json::nests_within, 3);
    broadcast use {lemma_texts_of, lemma_uint_of};

    reveal_strlit("protocol_version");
    reveal_strlit("capabilities");
    assert("protocol_version"@.len() == 16 && "capabilities"@.len() == 12);
    assert(uint_of(Json::uint(m.protocol_version as u64 as nat)) == Some(m.protocol_version as u64));
    assert(texts_of(Json::texts(texts(m.capabilities@))) == Some(texts(m.capabilities@)));
}

/// Authenticates the session.
#[derive(Debug)]
pub struct AuthMessage {
    /// The bearer token.
    pub token: String,
}

impl AuthMessage {
    /// The body of the message.
    pub open spec fn json(self) -> Json {
        Json::Object(
            Map::empty()
                .insert("token"@, Json::Text(self.token@))
        )
    }

    /// The fields that the message knows.
    pub open spec fn fields() -> Seq<Seq<char>> {
        seq!["token"@]
    }

    /// Whether a body can be read.
    pub open spec fn readable(j: Json) -> bool {
        &&& j is Object
        &&& text_field(j, "token"@) is Some
    }

    /// Whether a body reads as this message.
    pub open spec fn reads(self, j: Json) -> bool {
        &&& j is Object
        &&& text_field(j, "token"@) == Some(self.token@)
    }

    /// The body of the message, as a value.
    pub fn to_value(&self) -> (v: serde_json::Value)
        ensures
            json_view(v) == self.json(),
    {
        let mut v = object();
        put_member(&mut v, "token", text_value(self.token.as_str()));
        v
    }

    /// Reads the message from its body.
    pub fn from_value(v: &serde_json::Value) -> (r: Option<AuthMessage>)
        ensures
            match r {
                Some(m) => AuthMessage::readable(json_view(*v)) && m.reads(json_view(*v)),
                None => !AuthMessage::readable(json_view(*v)),
            },
    {
        if !v.is_object() {
            return None;
        }
        let token = read_text(v, "token");
        match token {
            Some(token) => Some(AuthMessage { token }),
            None => None,
        }
    }

    /// The message in a frame.
    pub fn to_frame(&self) -> (r: Result<Frame, ProtoError>)
        ensures
            r matches Ok(f) && f.tag == FrameTag::Auth && packs(held(f.body), self.json()),
    {
        encode_message(FrameTag::Auth, &self.to_value())
    }

    /// Reads the message from the body of a frame.
    pub fn from_frame(frame: &Frame) -> (r: Result<AuthMessage, ProtoError>)
        ensures
            ({
                let body = packed_at(held(frame.body), AuthMessage::fields());
                match r {
                    Ok(m) => body is Some && m.reads(body->0),
                    Err(e) => e@ == body_fault(body, "malformed Auth body"@) && (body is None
                        || !AuthMessage::readable(body->0)),
                }
            }),
    {
        let fields: Vec<&str> = vec!["token"];
        assert(names(fields@) =~= AuthMessage::fields());
        match decode_fields(frame, &fields) {
            Ok(v) => match AuthMessage::from_value(&v) {
                Some(m) => Ok(m),
                None => Err(
                    ProtoError::DeserializationError("malformed Auth body".to_owned()),
                ),
            },
            Err(e) => Err(e),
        }
    }
}

/// Reading a Auth message depends on nothing but its fields.
pub proof fn law_auth_heeds_its_fields(m: AuthMessage, a: Json, b: Json)
    requires
        a is Object,
        b is Object,
        agree(a, b, AuthMessage::fields()),
    ensures
        AuthMessage::readable(a) == AuthMessage::readable(b),
        m.reads(a) == m.reads(b),
{
    let fields = AuthMessage::fields();
    assert(fields[0] == "token"@);
}

/// A Auth message that was written reads back as it was.
pub proof fn law_auth_reads_back(m: AuthMessage)
    ensures
        AuthMessage::readable(m.json()),
        m.reads(m.json()),
        m.json().nests_within(1023),
{
    reveal_with_fuel(Json::nests_within, 3);
    reveal_strlit("token");
}

/// Fires an event on an entity.
#[derive(Debug)]
pub struct TransitionMessage {
    /// Comes back in the reply.
    pub request_id: u64,
    pub entity_id: String,
    pub machine: String,
    pub event: String,
    /// The version that the entity has to have.
    pub expected_version: Option<u64>,
    /// Makes a repetition safe.
    pub idempotency_key: Option<String>,
    /// Whatever the caller wants to say.
    pub ctx: serde_json::Value,
    /// Who does it; empty for the session itself.
    pub actor: String,
}

impl TransitionMessage {
    /// The body of the message.
    pub open spec fn json(self) -> Json {
        Json::Object(
            Map::empty()
                .insert("request_id"@, Json::uint(self.request_id as nat))
                .insert("entity_id"@, Json::Text(self.entity_id@))
                .insert("machine"@, Json::Text(self.machine@))
                .insert("event"@, Json::Text(self.event@))
                .insert("expected_version"@, opt_uint_json(self.expected_version))
                .insert("idempotency_key"@, opt_text_json(opt_text(self.idempotency_key)))
                .insert("ctx"@, json_view(self.ctx))
                .insert("actor"@, Json::Text(self.actor@))
        )
    }

    /// The fields that the message knows.
    pub open spec fn fields() -> Seq<Seq<char>> {
        seq![
            "request_id"@,
            "entity_id"@,
            "machine"@,
            "event"@,
            "expected_version"@,
            "idempotency_key"@,
            "actor"@,
            "ctx"@,
        ]
    }

    /// Whether a body can be read.
    pub open spec fn readable(j: Json) -> bool {
        &&& j is Object
        &&& uint_field(j, "request_id"@) is Some
        &&& text_field(j, "entity_id"@) is Some
        &&& text_field(j, "machine"@) is Some
        &&& text_field(j, "event"@) is Some
        &&& opt_uint_field(j, "expected_version"@) is Some
        &&& opt_text_field(j, "idempotency_key"@) is Some
        &&& text_or_empty_field(j, "actor"@) is Some
    }

    /// Whether a body reads as this message.
    pub open spec fn reads(self, j: Json) -> bool {
        &&& j is Object
        &&& uint_field(j, "request_id"@) == Some(self.request_id)
        &&& text_field(j, "entity_id"@) == Some(self.entity_id@)
        &&& text_field(j, "machine"@) == Some(self.machine@)
        &&& text_field(j, "event"@) == Some(self.event@)
        &&& opt_uint_field(j, "expected_version"@) == Some(self.expected_version)
        &&& opt_text_field(j, "idempotency_key"@) == Some(opt_text(self.idempotency_key))
        &&& value_or_null_field(j, "ctx"@) == json_view(self.ctx)
        &&& text_or_empty_field(j, "actor"@) == Some(self.actor@)
    }

    /// The body of the message, as a value.
    pub fn to_value(&self) -> (v: serde_json::Value)
        ensures
            json_view(v) == self.json(),
    {
        let mut v = object();
        put_member(&mut v, "request_id", uint_value(self.request_id));
        put_member(&mut v, "entity_id", text_value(self.entity_id.as_str()));
        put_member(&mut v, "machine", text_value(self.machine.as_str()));
        put_member(&mut v, "event", text_value(self.event.as_str()));
        put_member(&mut v, "expected_version", opt_uint_value(&self.expected_version));
        put_member(&mut v, "idempotency_key", opt_text_value(&self.idempotency_key));
        put_member(&mut v, "ctx", self.ctx.clone());
        put_member(&mut v, "actor", text_value(self.actor.as_str()));
        v
    }

    /// Reads the message from its body.
    pub fn from_value(v: &serde_json::Value) -> (r: Option<TransitionMessage>)
        ensures
            match r {
                Some(m) => TransitionMessage::readable(json_view(*v)) && m.reads(json_view(*v)),
                None => !TransitionMessage::readable(json_view(*v)),
            },
    {
        if !v.is_object() {
            return None;
        }
        let request_id = read_uint(v, "request_id");
        let entity_id = read_text(v, "entity_id");
        let machine = read_text(v, "machine");
        let event = read_text(v, "event");
        let expected_version = read_opt_uint(v, "expected_version");
        let idempotency_key = read_opt_text(v, "idempotency_key");
        let ctx = read_value_or_null(v, "ctx");
        let actor = read_text_or_empty(v, "actor");
        match (request_id, entity_id, machine, event, expected_version, idempotency_key, actor) {
            (Some(request_id), Some(entity_id), Some(machine), Some(event), Some(expected_version), Some(idempotency_key), Some(actor)) => Some(
                TransitionMessage { request_id, entity_id, machine, event, expected_version, idempotency_key, ctx, actor },
            ),
            _ => None,
        }
    }

    /// The message in a frame.
    pub fn to_frame(&self) -> (r: Result<Frame, ProtoError>)
        ensures
            r matches Ok(f) && f.tag == FrameTag::Transition && packs(held(f.body), self.json()),
    {
        encode_message(FrameTag::Transition, &self.to_value())
    }

    /// Reads the message from the body of a frame.
    pub fn from_frame(frame: &Frame) -> (r: Result<TransitionMessage, ProtoError>)
        ensures
            ({
                let body = packed_at(held(frame.body), TransitionMessage::fields());
                match r {
                    Ok(m) => body is Some && m.reads(body->0),
                    Err(e) => e@ == body_fault(body, "malformed Transition body"@) && (body is None
                        || !TransitionMessage::readable(body->0)),
                }
            }),
    {
        let fields: Vec<&str> = vec![
            "request_id",
            "entity_id",
            "machine",
            "event",
            "expected_version",
            "idempotency_key",
            "actor",
            "ctx",
        ];
        assert(names(fields@) =~= TransitionMessage::fields());
        match decode_fields(frame, &fields) {
            Ok(v) => match TransitionMessage::from_value(&v) {
                Some(m) => Ok(m),
                None => Err(
                    ProtoError::DeserializationError("malformed Transition body".to_owned()),
                ),
            },
            Err(e) => Err(e),
        }
    }
}

/// Reading a Transition message depends on nothing but its fields.
pub proof fn law_transition_heeds_its_fields(m: TransitionMessage, a: Json, b: Json)
    requires
        a is Object,
        b is Object,
        agree(a, b, TransitionMessage::fields()),
    ensures
        TransitionMessage::readable(a) == TransitionMessage::readable(b),
        m.reads(a) == m.reads(b),
{
    let fields = TransitionMessage::fields();
    assert(fields[0] == "request_id"@);
    assert(fields[1] == "entity_id"@);
    assert(fields[2] == "machine"@);
    assert(fields[3] == "event"@);
    assert(fields[4] == "expected_version"@);
    assert(fields[5] == "idempotency_key"@);
    assert(fields[6] == "actor"@);
    assert(fields[7] == "ctx"@);
}

/// A Transition message that was written reads back as it was.
pub proof fn law_transition_reads_back(m: TransitionMessage)
    ensures
        TransitionMessage::readable(m.json()),
        m.reads(m.json()),
        json_view(m.ctx).nests_within(1022) ==> m.json().nests_within(1023),
{
    reveal_with_fuel(Json::nests_within, 2);
    broadcast use lemma_uint_of;

    reveal_strlit("request_id");
    reveal_strlit("entity_id");
    reveal_strlit("machine");
    reveal_strlit("event");
    reveal_strlit("expected_version");
    reveal_strlit("idempotency_key");
    reveal_strlit("ctx");
    reveal_strlit("actor");
    assert("request_id"@.len() == 10 && "entity_id"@.len() == 9 && "machine"@.len() == 7 && "event"@.len() == 5 && "expected_version"@.len() == 16 && "idempotency_key"@.len() == 15 && "ctx"@.len() == 3 && "actor"@.len() == 5);
    assert("event"@[0] == 'e' && "actor"@[0] == 'a');
    assert(uint_of(Json::uint(m.request_id as u64 as nat)) == Some(m.request_id as u64));
    if m.expected_version is Some {
        assert(uint_of(Json::uint(m.expected_version->0 as nat)) == Some(m.expected_version->0));
    }
}

/// Asks for the state of an entity.
#[derive(Debug)]
pub struct CurrentMessage {
    /// Comes back in the reply.
    pub request_id: u64,
    pub entity_id: String,
    pub machine: String,
}

impl CurrentMessage {
    /// The body of the message.
    pub open spec fn json(self) -> Json {
        Json::Object(
            Map::empty()
                .insert("request_id"@, Json::uint(self.request_id as nat))
                .insert("entity_id"@, Json::Text(self.entity_id@))
                .insert("machine"@, Json::Text(self.machine@))
        )
    }

    /// The fields that the message knows.
    pub open spec fn fields() -> Seq<Seq<char>> {
        seq!["request_id"@, "entity_id"@, "machine"@]
    }

    /// Whether a body can be read.
    pub open spec fn readable(j: Json) -> bool {
        &&& j is Object
        &&& uint_field(j, "request_id"@) is Some
        &&& text_field(j, "entity_id"@) is Some
        &&& text_field(j, "machine"@) is Some
    }

    /// Whether a body reads as this message.
    pub open spec fn reads(self, j: Json) -> bool {
        &&& j is Object
        &&& uint_field(j, "request_id"@) == Some(self.request_id)
        &&& text_field(j, "entity_id"@) == Some(self.entity_id@)
        &&& text_field(j, "machine"@) == Some(self.machine@)
    }

    /// The body of the message, as a value.
    pub fn to_value(&self) -> (v: serde_json::Value)
        ensures
            json_view(v) == self.json(),
    {
        let mut v = object();
        put_member(&mut v, "request_id", uint_value(self.request_id));
        put_member(&mut v, "entity_id", text_value(self.entity_id.as_str()));
        put_member(&mut v, "machine", text_value(self.machine.as_str()));
        v
    }

    /// Reads the message from its body.
    pub fn from_value(v: &serde_json::Value) -> (r: Option<CurrentMessage>)
        ensures
            match r {
                Some(m) => CurrentMessage::readable(json_view(*v)) && m.reads(json_view(*v)),
                None => !CurrentMessage::readable(json_view(*v)),
            },
    {
        if !v.is_object() {
            return None;
        }
        let request_id = read_uint(v, "request_id");
        let entity_id = read_text(v, "entity_id");
        let machine = read_text(v, "machine");
        match (request_id, entity_id, machine) {
            (Some(request_id), Some(entity_id), Some(machine)) => Some(
                CurrentMessage { request_id, entity_id, machine },
            ),
            _ => None,
        }
    }

    /// The message in a frame.
    pub fn to_frame(&self) -> (r: Result<Frame, ProtoError>)
        ensures
            r matches Ok(f) && f.tag == FrameTag::Current && packs(held(f.body), self.json()),
    {
        encode_message(FrameTag::Current, &self.to_value())
    }

    /// Reads the message from the body of a frame.
    pub fn from_frame(frame: &Frame) -> (r: Result<CurrentMessage, ProtoError>)
        ensures
            ({
                let body = packed_at(held(frame.body), CurrentMessage::fields());
                match r {
                    Ok(m) => body is Some && m.reads(body->0),
                    Err(e) => e@ == body_fault(body, "malformed Current body"@) && (body is None
                        || !CurrentMessage::readable(body->0)),
                }
            }),
    {
        let fields: Vec<&str> = vec!["request_id", "entity_id", "machine"];
        assert(names(fields@) =~= CurrentMessage::fields());
        match decode_fields(frame, &fields) {
            Ok(v) => match CurrentMessage::from_value(&v) {
                Some(m) => Ok(m),
                None => Err(
                    ProtoError::DeserializationError("malformed Current body".to_owned()),
                ),
            },
            Err(e) => Err(e),
        }
    }
}

/// Reading a Current message depends on nothing but its fields.
pub proof fn law_current_heeds_its_fields(m: CurrentMessage, a: Json, b: Json)
    requires
        a is Object,
        b is Object,
        agree(a, b, CurrentMessage::fields()),
    ensures
        CurrentMessage::readable(a) == CurrentMessage::readable(b),
        m.reads(a) == m.reads(b),
{
    let fields = CurrentMessage::fields();
    assert(fields[0] == "request_id"@);
    assert(fields[1] == "entity_id"@);
    assert(fields[2] == "machine"@);
}

/// A Current message that was written reads back as it was.
pub proof fn law_current_reads_back(m: CurrentMessage)
    ensures
        CurrentMessage::readable(m.json()),
        m.reads(m.json()),
        m.json().nests_within(1023),
{
    reveal_with_fuel(Json::nests_within, 3);
    broadcast use lemma_uint_of;

    reveal_strlit("request_id");
    reveal_strlit("entity_id");
    reveal_strlit("machine");
    assert("request_id"@.len() == 10 && "entity_id"@.len() == 9 && "machine"@.len() == 7);
    assert(uint_of(Json::uint(m.request_id as u64 as nat)) == Some(m.request_id as u64));
}

/// Asks for the transitions of an entity.
#[derive(Debug)]
pub struct HistoryMessage {
    /// Comes back in the reply.
    pub request_id: u64,
    pub entity_id: String,
    pub machine: String,
    /// How many at most.
    pub limit: Option<u32>,
    /// Only those with a higher sequence number.
    pub after_sequence: Option<u64>,
}

impl HistoryMessage {
    /// The body of the message.
    pub open spec fn json(self) -> Json {
        Json::Object(
            Map::empty()
                .insert("request_id"@, Json::uint(self.request_id as nat))
                .insert("entity_id"@, Json::Text(self.entity_id@))
                .insert("machine"@, Json::Text(self.machine@))
                .insert("limit"@, opt_uint_json(widened(self.limit)))
                .insert("after_seq"@, opt_uint_json(self.after_sequence))
        )
    }

    /// The fields that the message knows.
    pub open spec fn fields() -> Seq<Seq<char>> {
        seq!["request_id"@, "entity_id"@, "machine"@, "limit"@, "after_seq"@, "after_sequence"@]
    }

    /// Whether a body can be read.
    pub open spec fn readable(j: Json) -> bool {
        &&& j is Object
        &&& uint_field(j, "request_id"@) is Some
        &&& text_field(j, "entity_id"@) is Some
        &&& text_field(j, "machine"@) is Some
        &&& opt_uint32_field(j, "limit"@) is Some
        &&& either_uint_field(j, "after_seq"@, "after_sequence"@) is Some
    }

    /// Whether a body reads as this message.
    pub open spec fn reads(self, j: Json) -> bool {
        &&& j is Object
        &&& uint_field(j, "request_id"@) == Some(self.request_id)
        &&& text_field(j, "entity_id"@) == Some(self.entity_id@)
        &&& text_field(j, "machine"@) == Some(self.machine@)
        &&& opt_uint32_field(j, "limit"@) == Some(self.limit)
        &&& either_uint_field(j, "after_seq"@, "after_sequence"@) == Some(self.after_sequence)
    }

    /// The body of the message, as a value.
    pub fn to_value(&self) -> (v: serde_json::Value)
        ensures
            json_view(v) == self.json(),
    {
        let mut v = object();
        put_member(&mut v, "request_id", uint_value(self.request_id));
        put_member(&mut v, "entity_id", text_value(self.entity_id.as_str()));
        put_member(&mut v, "machine", text_value(self.machine.as_str()));
        put_member(&mut v, "limit", opt_uint_value(&widen(&self.limit)));
        put_member(&mut v, "after_seq", opt_uint_value(&self.after_sequence));
        v
    }

    /// Reads the message from its body.
    pub fn from_value(v: &serde_json::Value) -> (r: Option<HistoryMessage>)
        ensures
            match r {
                Some(m) => HistoryMessage::readable(json_view(*v)) && m.reads(json_view(*v)),
                None => !HistoryMessage::readable(json_view(*v)),
            },
    {
        if !v.is_object() {
            return None;
        }
        let request_id = read_uint(v, "request_id");
        let entity_id = read_text(v, "entity_id");
        let machine = read_text(v, "machine");
        let limit = read_opt_uint32(v, "limit");
        let after_sequence = read_either_uint(v, "after_seq", "after_sequence");
        match (request_id, entity_id, machine, limit, after_sequence) {
            (Some(request_id), Some(entity_id), Some(machine), Some(limit), Some(after_sequence)) => Some(
                HistoryMessage { request_id, entity_id, machine, limit, after_sequence },
            ),
            _ => None,
        }
    }

    /// The message in a frame.
    pub fn to_frame(&self) -> (r: Result<Frame, ProtoError>)
        ensures
            r matches Ok(f) && f.tag == FrameTag::History && packs(held(f.body), self.json()),
    {
        encode_message(FrameTag::History, &self.to_value())
    }

    /// Reads the message from the body of a frame.
    pub fn from_frame(frame: &Frame) -> (r: Result<HistoryMessage, ProtoError>)
        ensures
            ({
                let body = packed_at(held(frame.body), HistoryMessage::fields());
                match r {
                    Ok(m) => body is Some && m.reads(body->0),
                    Err(e) => e@ == body_fault(body, "malformed History body"@) && (body is None
                        || !HistoryMessage::readable(body->0)),
                }
            }),
    {
        let fields: Vec<&str> = vec![
            "request_id",
            "entity_id",
            "machine",
            "limit",
            "after_seq",
            "after_sequence",
        ];
        assert(names(fields@) =~= HistoryMessage::fields());
        match decode_fields(frame, &fields) {
            Ok(v) => match HistoryMessage::from_value(&v) {
                Some(m) => Ok(m),
                None => Err(
                    ProtoError::DeserializationError("malformed History body".to_owned()),
                ),
            },
            Err(e) => Err(e),
        }
    }
}

/// Reading a History message depends on nothing but its fields.
pub proof fn law_history_heeds_its_fields(m: HistoryMessage, a: Json, b: Json)
    requires
        a is Object,
        b is Object,
        agree(a, b, HistoryMessage::fields()),
    ensures
        HistoryMessage::readable(a) == HistoryMessage::readable(b),
        m.reads(a) == m.reads(b),
{
    let fields = HistoryMessage::fields();
    assert(fields[0] == "request_id"@);
    assert(fields[1] == "entity_id"@);
    assert(fields[2] == "machine"@);
    assert(fields[3] == "limit"@);
    assert(fields[4] == "after_seq"@);
    assert(fields[5] == "after_sequence"@);
}

/// A History message that was written reads back as it was.
pub proof fn law_history_reads_back(m: HistoryMessage)
    ensures
        HistoryMessage::readable(m.json()),
        m.reads(m.json()),
        m.json().nests_within(1023),
{
    reveal_with_fuel(Json::nests_within, 3);
    broadcast use lemma_uint_of;

    reveal_strlit("request_id");
    reveal_strlit("entity_id");
    reveal_strlit("machine");
    reveal_strlit("limit");
    reveal_strlit("after_seq");
    reveal_strlit("after_sequence");
    assert("request_id"@.len() == 10 && "entity_id"@.len() == 9 && "machine"@.len() == 7 && "limit"@.len() == 5 && "after_seq"@.len() == 9 && "after_sequence"@.len() == 14);
    assert("entity_id"@[0] == 'e' && "after_seq"@[0] == 'a');
    assert(uint_of(Json::uint(m.request_id as u64 as nat)) == Some(m.request_id as u64));
    if m.limit is Some {
        assert(uint_of(Json::uint(m.limit->0 as u64 as nat)) == Some(m.limit->0 as u64));
    }
    if m.after_sequence is Some {
        assert(uint_of(Json::uint(m.after_sequence->0 as nat)) == Some(m.after_sequence->0));
    }
}

/// Begins a subscription.
#[derive(Debug)]
pub struct SubscribeMessage {
    /// Comes back in the reply.
    pub request_id: u64,
    /// Comes back with every record.
    pub subscription_id: String,
    /// Only this machine.
    pub machine_filter: Option<String>,
    /// Only this entity.
    pub entity_filter: Option<String>,
    /// Only records with a higher sequence number.
    pub after_sequence: u64,
}

impl SubscribeMessage {
    /// The body of the message.
    pub open spec fn json(self) -> Json {
        Json::Object(
            Map::empty()
                .insert("request_id"@, Json::uint(self.request_id as nat))
                .insert("subscription_id"@, Json::Text(self.subscription_id@))
                .insert("filter_machine"@, opt_text_json(opt_text(self.machine_filter)))
                .insert("filter_entity"@, opt_text_json(opt_text(self.entity_filter)))
                .insert("after_sequence"@, Json::uint(self.after_sequence as nat))
        )
    }

    /// The fields that the message knows.
    pub open spec fn fields() -> Seq<Seq<char>> {
        seq![
            "request_id"@,
            "subscription_id"@,
            "filter_machine"@,
            "machine_filter"@,
            "filter_entity"@,
            "after_sequence"@,
        ]
    }

    /// Whether a body can be read.
    pub open spec fn readable(j: Json) -> bool {
        &&& j is Object
        &&& uint_field(j, "request_id"@) is Some
        &&& text_field(j, "subscription_id"@) is Some
        &&& either_text_field(j, "filter_machine"@, "machine_filter"@) is Some
        &&& opt_text_field(j, "filter_entity"@) is Some
        &&& uint_field(j, "after_sequence"@) is Some
    }

    /// Whether a body reads as this message.
    pub open spec fn reads(self, j: Json) -> bool {
        &&& j is Object
        &&& uint_field(j, "request_id"@) == Some(self.request_id)
        &&& text_field(j, "subscription_id"@) == Some(self.subscription_id@)
        &&& either_text_field(j, "filter_machine"@, "machine_filter"@) == Some(opt_text(self.machine_filter))
        &&& opt_text_field(j, "filter_entity"@) == Some(opt_text(self.entity_filter))
        &&& uint_field(j, "after_sequence"@) == Some(self.after_sequence)
    }

    /// The body of the message, as a value.
    pub fn to_value(&self) -> (v: serde_json::Value)
        ensures
            json_view(v) == self.json(),
    {
        let mut v = object();
        put_member(&mut v, "request_id", uint_value(self.request_id));
        put_member(&mut v, "subscription_id", text_value(self.subscription_id.as_str()));
        put_member(&mut v, "filter_machine", opt_text_value(&self.machine_filter));
        put_member(&mut v, "filter_entity", opt_text_value(&self.entity_filter));
        put_member(&mut v, "after_sequence", uint_value(self.after_sequence));
        v
    }

    /// Reads the message from its body.
    pub fn from_value(v: &serde_json::Value) -> (r: Option<SubscribeMessage>)
        ensures
            match r {
                Some(m) => SubscribeMessage::readable(json_view(*v)) && m.reads(json_view(*v)),
                None => !SubscribeMessage::readable(json_view(*v)),
            },
    {
        if !v.is_object() {
            return None;
        }
        let request_id = read_uint(v, "request_id");
        let subscription_id = read_text(v, "subscription_id");
        let machine_filter = read_either_text(v, "filter_machine", "machine_filter");
        let entity_filter = read_opt_text(v, "filter_entity");
        let after_sequence = read_uint(v, "after_sequence");
        match (request_id, subscription_id, machine_filter, entity_filter, after_sequence) {
            (Some(request_id), Some(subscription_id), Some(machine_filter), Some(entity_filter), Some(after_sequence)) => Some(
                SubscribeMessage { request_id, subscription_id, machine_filter, entity_filter, after_sequence },
            ),
            _ => None,
        }
    }

    /// The message in a frame.
    pub fn to_frame(&self) -> (r: Result<Frame, ProtoError>)
        ensures
            r matches Ok(f) && f.tag == FrameTag::Subscribe && packs(held(f.body), self.json()),
    {
        encode_message(FrameTag::Subscribe, &self.to_value())
    }

    /// Reads the message from the body of a frame.
    pub fn from_frame(frame: &Frame) -> (r: Result<SubscribeMessage, ProtoError>)
        ensures
            ({
                let body = packed_at(held(frame.body), SubscribeMessage::fields());
                match r {
                    Ok(m) => body is Some && m.reads(body->0),
                    Err(e) => e@ == body_fault(body, "malformed Subscribe body"@) && (body is None
                        || !SubscribeMessage::readable(body->0)),
                }
            }),
    {
        let fields: Vec<&str> = vec![
            "request_id",
            "subscription_id",
            "filter_machine",
            "machine_filter",
            "filter_entity",
            "after_sequence",
        ];
        assert(names(fields@) =~= SubscribeMessage::fields());
        match decode_fields(frame, &fields) {
            Ok(v) => match SubscribeMessage::from_value(&v) {
                Some(m) => Ok(m),
                None => Err(
                    ProtoError::DeserializationError("malformed Subscribe body".to_owned()),
                ),
            },
            Err(e) => Err(e),
        }
    }
}

/// Reading a Subscribe message depends on nothing but its fields.
pub proof fn law_subscribe_heeds_its_fields(m: SubscribeMessage, a: Json, b: Json)
    requires
        a is Object,
        b is Object,
        agree(a, b, SubscribeMessage::fields()),
    ensures
        SubscribeMessage::readable(a) == SubscribeMessage::readable(b),
        m.reads(a) == m.reads(b),
{
    let fields = SubscribeMessage::fields();
    assert(fields[0] == "request_id"@);
    assert(fields[1] == "subscription_id"@);
    assert(fields[2] == "filter_machine"@);
    assert(fields[3] == "machine_filter"@);
    assert(fields[4] == "filter_entity"@);
    assert(fields[5] == "after_sequence"@);
}

/// A Subscribe message that was written reads back as it was.
pub proof fn law_subscribe_reads_back(m: SubscribeMessage)
    ensures
        SubscribeMessage::readable(m.json()),
        m.reads(m.json()),
        m.json().nests_within(1023),
{
    reveal_with_fuel(Json::nests_within, 3);
    broadcast use lemma_uint_of;

    reveal_strlit("request_id");
    reveal_strlit("subscription_id");
    reveal_strlit("filter_machine");
    reveal_strlit("machine_filter");
    reveal_strlit("filter_entity");
    reveal_strlit("after_sequence");
    assert("request_id"@.len() == 10 && "subscription_id"@.len() == 15 && "filter_machine"@.len() == 14 && "machine_filter"@.len() == 14 && "filter_entity"@.len() == 13 && "after_sequence"@.len() == 14);
    assert("filter_machine"@[0] == 'f' && "machine_filter"@[0] == 'm');
    assert("filter_machine"@[0] == 'f' && "after_sequence"@[0] == 'a');
    assert("machine_filter"@[0] == 'm' && "after_sequence"@[0] == 'a');
    assert(uint_of(Json::uint(m.request_id as u64 as nat)) == Some(m.request_id as u64));
    assert(uint_of(Json::uint(m.after_sequence as u64 as nat)) == Some(m.after_sequence as u64));
}

/// Moves the cursor of a subscription.
#[derive(Debug)]
pub struct AckMessage {
    pub subscription_id: String,
    /// The highest sequence number that was processed.
    pub up_to_sequence: u64,
}

impl AckMessage {
    /// The body of the message.
    pub open spec fn json(self) -> Json {
        Json::Object(
            Map::empty()
                .insert("subscription_id"@, Json::Text(self.subscription_id@))
                .insert("up_to_sequence"@, Json::uint(self.up_to_sequence as nat))
        )
    }

    /// The fields that the message knows.
    pub open spec fn fields() -> Seq<Seq<char>> {
        seq!["subscription_id"@, "up_to_sequence"@]
    }

    /// Whether a body can be read.
    pub open spec fn readable(j: Json) -> bool {
        &&& j is Object
        &&& text_field(j, "subscription_id"@) is Some
        &&& uint_field(j, "up_to_sequence"@) is Some
    }

    /// Whether a body reads as this message.
    pub open spec fn reads(self, j: Json) -> bool {
        &&& j is Object
        &&& text_field(j, "subscription_id"@) == Some(self.subscription_id@)
        &&& uint_field(j, "up_to_sequence"@) == Some(self.up_to_sequence)
    }

    /// The body of the message, as a value.
    pub fn to_value(&self) -> (v: serde_json::Value)
        ensures
            json_view(v) == self.json(),
    {
        let mut v = object();
        put_member(&mut v, "subscription_id", text_value(self.subscription_id.as_str()));
        put_member(&mut v, "up_to_sequence", uint_value(self.up_to_sequence));
        v
    }

    /// Reads the message from its body.
    pub fn from_value(v: &serde_json::Value) -> (r: Option<AckMessage>)
        ensures
            match r {
                Some(m) => AckMessage::readable(json_view(*v)) && m.reads(json_view(*v)),
                None => !AckMessage::readable(json_view(*v)),
            },
    {
        if !v.is_object() {
            return None;
        }
        let subscription_id = read_text(v, "subscription_id");
        let up_to_sequence = read_uint(v, "up_to_sequence");
        match (subscription_id, up_to_sequence) {
            (Some(subscription_id), Some(up_to_sequence)) => Some(
                AckMessage { subscription_id, up_to_sequence },
            ),
            _ => None,
        }
    }

    /// The message in a frame.
    pub fn to_frame(&self) -> (r: Result<Frame, ProtoError>)
        ensures
            r matches Ok(f) && f.tag == FrameTag::Ack && packs(held(f.body), self.json()),
    {
        encode_message(FrameTag::Ack, &self.to_value())
    }

    /// Reads the message from the body of a frame.
    pub fn from_frame(frame: &Frame) -> (r: Result<AckMessage, ProtoError>)
        ensures
            ({
                let body = packed_at(held(frame.body), AckMessage::fields());
                match r {
                    Ok(m) => body is Some && m.reads(body->0),
                    Err(e) => e@ == body_fault(body, "malformed Ack body"@) && (body is None
                        || !AckMessage::readable(body->0)),
                }
            }),
    {
        let fields: Vec<&str> = vec!["subscription_id", "up_to_sequence"];
        assert(names(fields@) =~= AckMessage::fields());
        match decode_fields(frame, &fields) {
            Ok(v) => match AckMessage::from_value(&v) {
                Some(m) => Ok(m),
                None => Err(
                    ProtoError::DeserializationError("malformed Ack body".to_owned()),
                ),
            },
            Err(e) => Err(e),
        }
    }
}

/// Reading a Ack message depends on nothing but its fields.
pub proof fn law_ack_heeds_its_fields(m: AckMessage, a: Json, b: Json)
    requires
        a is Object,
        b is Object,
        agree(a, b, AckMessage::fields()),
    ensures
        AckMessage::readable(a) == AckMessage::readable(b),
        m.reads(a) == m.reads(b),
{
    let fields = AckMessage::fields();
    assert(fields[0] == "subscription_id"@);
    assert(fields[1] == "up_to_sequence"@);
}

/// A Ack message that was written reads back as it was.
pub proof fn law_ack_reads_back(m: AckMessage)
    ensures
        AckMessage::readable(m.json()),
        m.reads(m.json()),
        m.json().nests_within(1023),
{
    reveal_with_fuel(Json::nests_within, 3);
    broadcast use lemma_uint_of;

    reveal_strlit("subscription_id");
    reveal_strlit("up_to_sequence");
    assert("subscription_id"@.len() == 15 && "up_to_sequence"@.len() == 14);
    assert(uint_of(Json::uint(m.up_to_sequence as u64 as nat)) == Some(m.up_to_sequence as u64));
}

/// Ends a subscription.
#[derive(Debug)]
pub struct UnsubscribeMessage {
    /// Comes back in the reply.
    pub request_id: u64,
    pub subscription_id: String,
}

impl UnsubscribeMessage {
    /// The body of the message.
    pub open spec fn json(self) -> Json {
        Json::Object(
            Map::empty()
                .insert("request_id"@, Json::uint(self.request_id as nat))
                .insert("subscription_id"@, Json::Text(self.subscription_id@))
        )
    }

    /// The fields that the message knows.
    pub open spec fn fields() -> Seq<Seq<char>> {
        seq!["request_id"@, "subscription_id"@]
    }

    /// Whether a body can be read.
    pub open spec fn readable(j: Json) -> bool {
        &&& j is Object
        &&& uint_field(j, "request_id"@) is Some
        &&& text_field(j, "subscription_id"@) is Some
    }

    /// Whether a body reads as this message.
    pub open spec fn reads(self, j: Json) -> bool {
        &&& j is Object
        &&& uint_field(j, "request_id"@) == Some(self.request_id)
        &&& text_field(j, "subscription_id"@) == Some(self.subscription_id@)
    }

    /// The body of the message, as a value.
    pub fn to_value(&self) -> (v: serde_json::Value)
        ensures
            json_view(v) == self.json(),
    {
        let mut v = object();
        put_member(&mut v, "request_id", uint_value(self.request_id));
        put_member(&mut v, "subscription_id", text_value(self.subscription_id.as_str()));
        v
    }

    /// Reads the message from its body.
    pub fn from_value(v: &serde_json::Value) -> (r: Option<UnsubscribeMessage>)
        ensures
            match r {
                Some(m) => UnsubscribeMessage::readable(json_view(*v)) && m.reads(json_view(*v)),
                None => !UnsubscribeMessage::readable(json_view(*v)),
            },
    {
        if !v.is_object() {
            return None;
        }
        let request_id = read_uint(v, "request_id");
        let subscription_id = read_text(v, "subscription_id");
        match (request_id, subscription_id) {
            (Some(request_id), Some(subscription_id)) => Some(
                UnsubscribeMessage { request_id, subscription_id },
            ),
            _ => None,
        }
    }

    /// The message in a frame.
    pub fn to_frame(&self) -> (r: Result<Frame, ProtoError>)
        ensures
            r matches Ok(f) && f.tag == FrameTag::Unsubscribe && packs(held(f.body), self.json()),
    {
        encode_message(FrameTag::Unsubscribe, &self.to_value())
    }

    /// Reads the message from the body of a frame.
    pub fn from_frame(frame: &Frame) -> (r: Result<UnsubscribeMessage, ProtoError>)
        ensures
            ({
                let body = packed_at(held(frame.body), UnsubscribeMessage::fields());
                match r {
                    Ok(m) => body is Some && m.reads(body->0),
                    Err(e) => e@ == body_fault(body, "malformed Unsubscribe body"@) && (body is None
                        || !UnsubscribeMessage::readable(body->0)),
                }
            }),
    {
        let fields: Vec<&str> = vec!["request_id", "subscription_id"];
        assert(names(fields@) =~= UnsubscribeMessage::fields());
        match decode_fields(frame, &fields) {
            Ok(v) => match UnsubscribeMessage::from_value(&v) {
                Some(m) => Ok(m),
                None => Err(
                    ProtoError::DeserializationError("malformed Unsubscribe body".to_owned()),
                ),
            },
            Err(e) => Err(e),
        }
    }
}

/// Reading a Unsubscribe message depends on nothing but its fields.
pub proof fn law_unsubscribe_heeds_its_fields(m: UnsubscribeMessage, a: Json, b: Json)
    requires
        a is Object,
        b is Object,
        agree(a, b, UnsubscribeMessage::fields()),
    ensures
        UnsubscribeMessage::readable(a) == UnsubscribeMessage::readable(b),
        m.reads(a) == m.reads(b),
{
    let fields = UnsubscribeMessage::fields();
    assert(fields[0] == "request_id"@);
    assert(fields[1] == "subscription_id"@);
}

/// A Unsubscribe message that was written reads back as it was.
pub proof fn law_unsubscribe_reads_back(m: UnsubscribeMessage)
    ensures
        UnsubscribeMessage::readable(m.json()),
        m.reads(m.json()),
        m.json().nests_within(1023),
{
    reveal_with_fuel(Json::nests_within, 3);
    broadcast use lemma_uint_of;

    reveal_strlit("request_id");
    reveal_strlit("subscription_id");
    assert("request_id"@.len() == 10 && "subscription_id"@.len() == 15);
    assert(uint_of(Json::uint(m.request_id as u64 as nat)) == Some(m.request_id as u64));
}

/// Says that the session is open.
#[derive(Debug)]
pub struct ReadyMessage {
    pub session_id: String,
    pub server_version: String,
    /// The version that was agreed on.
    pub protocol_version: u32,
    /// What both ends can do.
    pub capabilities: Vec<String>,
}

impl ReadyMessage {
    /// The body of the message.
    pub open spec fn json(self) -> Json {
        Json::Object(
            Map::empty()
                .insert("session_id"@, Json::Text(self.session_id@))
                .insert("server_version"@, Json::Text(self.server_version@))
                .insert("protocol_version"@, Json::uint(self.protocol_version as nat))
                .insert("capabilities"@, Json::texts(texts(self.capabilities@)))
        )
    }

    /// The fields that the message knows.
    pub open spec fn fields() -> Seq<Seq<char>> {
        seq!["session_id"@, "server_version"@, "protocol_version"@, "capabilities"@]
    }

    /// Whether a body can be read.
    pub open spec fn readable(j: Json) -> bool {
        &&& j is Object
        &&& text_field(j, "session_id"@) is Some
        &&& text_field(j, "server_version"@) is Some
        &&& uint32_field(j, "protocol_version"@) is Some
        &&& texts_or_none_field(j, "capabilities"@) is Some
    }

    /// Whether a body reads as this message.
    pub open spec fn reads(self, j: Json) -> bool {
        &&& j is Object
        &&& text_field(j, "session_id"@) == Some(self.session_id@)
        &&& text_field(j, "server_version"@) == Some(self.server_version@)
        &&& uint32_field(j, "protocol_version"@) == Some(self.protocol_version)
        &&& texts_or_none_field(j, "capabilities"@) == Some(texts(self.capabilities@))
    }

    /// The body of the message, as a value.
    pub fn to_value(&self) -> (v: serde_json::Value)
        ensures
            json_view(v) == self.json(),
    {
        let mut v = object();
        put_member(&mut v, "session_id", text_value(self.session_id.as_str()));
        put_member(&mut v, "server_version", text_value(self.server_version.as_str()));
        put_member(&mut v, "protocol_version", uint_value(self.protocol_version as u64));
        put_member(&mut v, "capabilities", texts_value(&self.capabilities));
        v
    }

    /// Reads the message from its body.
    pub fn from_value(v: &serde_json::Value) -> (r: Option<ReadyMessage>)
        ensures
            match r {
                Some(m) => ReadyMessage::readable(json_view(*v)) && m.reads(json_view(*v)),
                None => !ReadyMessage::readable(json_view(*v)),
            },
    {
        if !v.is_object() {
            return None;
        }
        let session_id = read_text(v, "session_id");
        let server_version = read_text(v, "server_version");
        let protocol_version = read_uint32(v, "protocol_version");
        let capabilities = read_texts_or_none(v, "capabilities");
        match (session_id, server_version, protocol_version, capabilities) {
            (Some(session_id), Some(server_version), Some(protocol_version), Some(capabilities)) => Some(
                ReadyMessage { session_id, server_version, protocol_version, capabilities },
            ),
            _ => None,
        }
    }

    /// The message in a frame.
    pub fn to_frame(&self) -> (r: Result<Frame, ProtoError>)
        ensures
            r matches Ok(f) && f.tag == FrameTag::Ready && packs(held(f.body), self.json()),
    {
        encode_message(FrameTag::Ready, &self.to_value())
    }

    /// Reads the message from the body of a frame.
    pub fn from_frame(frame: &Frame) -> (r: Result<ReadyMessage, ProtoError>)
        ensures
            ({
                let body = packed_at(held(frame.body), ReadyMessage::fields());
                match r {
                    Ok(m) => body is Some && m.reads(body->0),
                    Err(e) => e@ == body_fault(body, "malformed Ready body"@) && (body is None
                        || !ReadyMessage::readable(body->0)),
                }
            }),
    {
        let fields: Vec<&str> = vec![
            "session_id",
            "server_version",
            "protocol_version",
            "capabilities",
        ];
        assert(names(fields@) =~= ReadyMessage::fields());
        match decode_fields(frame, &fields) {
            Ok(v) => match ReadyMessage::from_value(&v) {
                Some(m) => Ok(m),
                None => Err(
                    ProtoError::DeserializationError("malformed Ready body".to_owned()),
                ),
            },
            Err(e) => Err(e),
        }
    }
}

/// Reading a Ready message depends on nothing but its fields.
pub proof fn law_ready_heeds_its_fields(m: ReadyMessage, a: Json, b: Json)
    requires
        a is Object,
        b is Object,
        agree(a, b, ReadyMessage::fields()),
    ensures
        ReadyMessage::readable(a) == ReadyMessage::readable(b),
        m.reads(a) == m.reads(b),
{
    let fields = ReadyMessage::fields();
    assert(fields[0] == "session_id"@);
    assert(fields[1] == "server_version"@);
    assert(fields[2] == "protocol_version"@);
    assert(fields[3] == "capabilities"@);
}

/// A Ready message that was written reads back as it was.
pub proof fn law_ready_reads_back(m: ReadyMessage)
    ensures
        ReadyMessage::readable(m.json()),
        m.reads(m.json()),
        m.json().nests_within(1023),
{
    reveal_with_fuel(Json::nests_within, 3);
    broadcast use {lemma_texts_of, lemma_uint_of};

    reveal_strlit("session_id");
    reveal_strlit("server_version");
    reveal_strlit("protocol_version");
    reveal_strlit("capabilities");
    assert("session_id"@.len() == 10 && "server_version"@.len() == 14 && "protocol_version"@.len() == 16 && "capabilities"@.len() == 12);
    assert(uint_of(Json::uint(m.protocol_version as u64 as nat)) == Some(m.protocol_version as u64));
    assert(texts_of(Json::texts(texts(m.capabilities@))) == Some(texts(m.capabilities@)));
}

/// Answers a command that succeeded.
#[derive(Debug)]
pub struct ResultMessage {
    /// That of the command.
    pub request_id: u64,
    /// What the command gave.
    pub payload: serde_json::Value,
}

impl ResultMessage {
    /// The body of the message.
    pub open spec fn json(self) -> Json {
        Json::Object(
            Map::empty()
                .insert("request_id"@, Json::uint(self.request_id as nat))
                .insert("payload"@, json_view(self.payload))
        )
    }

    /// The fields that the message knows.
    pub open spec fn fields() -> Seq<Seq<char>> {
        seq!["request_id"@, "payload"@]
    }

    /// Whether a body can be read.
    pub open spec fn readable(j: Json) -> bool {
        &&& j is Object
        &&& uint_field(j, "request_id"@) is Some
        &&& j.member("payload"@) is Some
    }

    /// Whether a body reads as this message.
    pub open spec fn reads(self, j: Json) -> bool {
        &&& j is Object
        &&& uint_field(j, "request_id"@) == Some(self.request_id)
        &&& j.member("payload"@) == Some(json_view(self.payload))
    }

    /// The body of the message, as a value.
    pub fn to_value(&self) -> (v: serde_json::Value)
        ensures
            json_view(v) == self.json(),
    {
        let mut v = object();
        put_member(&mut v, "request_id", uint_value(self.request_id));
        put_member(&mut v, "payload", self.payload.clone());
        v
    }

    /// Reads the message from its body.
    pub fn from_value(v: &serde_json::Value) -> (r: Option<ResultMessage>)
        ensures
            match r {
                Some(m) => ResultMessage::readable(json_view(*v)) && m.reads(json_view(*v)),
                None => !ResultMessage::readable(json_view(*v)),
            },
    {
        if !v.is_object() {
            return None;
        }
        let request_id = read_uint(v, "request_id");
        let payload = member(v, "payload");
        match (request_id, payload) {
            (Some(request_id), Some(payload)) => Some(
                ResultMessage { request_id, payload },
            ),
            _ => None,
        }
    }

    /// The message in a frame.
    pub fn to_frame(&self) -> (r: Result<Frame, ProtoError>)
        ensures
            r matches Ok(f) && f.tag == FrameTag::Result && packs(held(f.body), self.json()),
    {
        encode_message(FrameTag::Result, &self.to_value())
    }

    /// Reads the message from the body of a frame.
    pub fn from_frame(frame: &Frame) -> (r: Result<ResultMessage, ProtoError>)
        ensures
            ({
                let body = packed_at(held(frame.body), ResultMessage::fields());
                match r {
                    Ok(m) => body is Some && m.reads(body->0),
                    Err(e) => e@ == body_fault(body, "malformed Result body"@) && (body is None
                        || !ResultMessage::readable(body->0)),
                }
            }),
    {
        let fields: Vec<&str> = vec!["request_id", "payload"];
        assert(names(fields@) =~= ResultMessage::fields());
        match decode_fields(frame, &fields) {
            Ok(v) => match ResultMessage::from_value(&v) {
                Some(m) => Ok(m),
                None => Err(
                    ProtoError::DeserializationError("malformed Result body".to_owned()),
                ),
            },
            Err(e) => Err(e),
        }
    }
}

/// Reading a Result message depends on nothing but its fields.
pub proof fn law_result_heeds_its_fields(m: ResultMessage, a: Json, b: Json)
    requires
        a is Object,
        b is Object,
        agree(a, b, ResultMessage::fields()),
    ensures
        ResultMessage::readable(a) == ResultMessage::readable(b),
        m.reads(a) == m.reads(b),
{
    let fields = ResultMessage::fields();
    assert(fields[0] == "request_id"@);
    assert(fields[1] == "payload"@);
}

/// A Result message that was written reads back as it was.
pub proof fn law_result_reads_back(m: ResultMessage)
    ensures
        ResultMessage::readable(m.json()),
        m.reads(m.json()),
        json_view(m.payload).nests_within(1022) ==> m.json().nests_within(1023),
{
    reveal_with_fuel(Json::nests_within, 2);
    broadcast use lemma_uint_of;

    reveal_strlit("request_id");
    reveal_strlit("payload");
    assert("request_id"@.len() == 10 && "payload"@.len() == 7);
    assert(uint_of(Json::uint(m.request_id as u64 as nat)) == Some(m.request_id as u64));
}

/// Answers a command that was refused.
#[derive(Debug)]
pub struct RejectionMessage {
    /// That of the command.
    pub request_id: u64,
    /// Why, for machines.
    pub code: String,
    /// Why, for people.
    pub message: String,
    /// The state that the entity is in.
    pub current_state: Option<String>,
    /// The version that the entity has.
    pub version: Option<u64>,
}

impl RejectionMessage {
    /// The body of the message.
    pub open spec fn json(self) -> Json {
        Json::Object(
            Map::empty()
                .insert("request_id"@, Json::uint(self.request_id as nat))
                .insert("code"@, Json::Text(self.code@))
                .insert("message"@, Json::Text(self.message@))
                .insert("current_state"@, opt_text_json(opt_text(self.current_state)))
                .insert("version"@, opt_uint_json(self.version))
        )
    }

    /// The fields that the message knows.
    pub open spec fn fields() -> Seq<Seq<char>> {
        seq!["request_id"@, "code"@, "message"@, "current_state"@, "version"@]
    }

    /// Whether a body can be read.
    pub open spec fn readable(j: Json) -> bool {
        &&& j is Object
        &&& uint_field(j, "request_id"@) is Some
        &&& text_field(j, "code"@) is Some
        &&& text_field(j, "message"@) is Some
        &&& opt_text_field(j, "current_state"@) is Some
        &&& opt_uint_field(j, "version"@) is Some
    }

    /// Whether a body reads as this message.
    pub open spec fn reads(self, j: Json) -> bool {
        &&& j is Object
        &&& uint_field(j, "request_id"@) == Some(self.request_id)
        &&& text_field(j, "code"@) == Some(self.code@)
        &&& text_field(j, "message"@) == Some(self.message@)
        &&& opt_text_field(j, "current_state"@) == Some(opt_text(self.current_state))
        &&& opt_uint_field(j, "version"@) == Some(self.version)
    }

    /// The body of the message, as a value.
    pub fn to_value(&self) -> (v: serde_json::Value)
        ensures
            json_view(v) == self.json(),
    {
        let mut v = object();
        put_member(&mut v, "request_id", uint_value(self.request_id));
        put_member(&mut v, "code", text_value(self.code.as_str()));
        put_member(&mut v, "message", text_value(self.message.as_str()));
        put_member(&mut v, "current_state", opt_text_value(&self.current_state));
        put_member(&mut v, "version", opt_uint_value(&self.version));
        v
    }

    /// Reads the message from its body.
    pub fn from_value(v: &serde_json::Value) -> (r: Option<RejectionMessage>)
        ensures
            match r {
                Some(m) => RejectionMessage::readable(json_view(*v)) && m.reads(json_view(*v)),
                None => !RejectionMessage::readable(json_view(*v)),
            },
    {
        if !v.is_object() {
            return None;
        }
        let request_id = read_uint(v, "request_id");
        let code = read_text(v, "code");
        let message = read_text(v, "message");
        let current_state = read_opt_text(v, "current_state");
        let version = read_opt_uint(v, "version");
        match (request_id, code, message, current_state, version) {
            (Some(request_id), Some(code), Some(message), Some(current_state), Some(version)) => Some(
                RejectionMessage { request_id, code, message, current_state, version },
            ),
            _ => None,
        }
    }

    /// The message in a frame.
    pub fn to_frame(&self) -> (r: Result<Frame, ProtoError>)
        ensures
            r matches Ok(f) && f.tag == FrameTag::Rejection && packs(held(f.body), self.json()),
    {
        encode_message(FrameTag::Rejection, &self.to_value())
    }

    /// Reads the message from the body of a frame.
    pub fn from_frame(frame: &Frame) -> (r: Result<RejectionMessage, ProtoError>)
        ensures
            ({
                let body = packed_at(held(frame.body), RejectionMessage::fields());
                match r {
                    Ok(m) => body is Some && m.reads(body->0),
                    Err(e) => e@ == body_fault(body, "malformed Rejection body"@) && (body is None
                        || !RejectionMessage::readable(body->0)),
                }
            }),
    {
        let fields: Vec<&str> = vec!["request_id", "code", "message", "current_state", "version"];
        assert(names(fields@) =~= RejectionMessage::fields());
        match decode_fields(frame, &fields) {
            Ok(v) => match RejectionMessage::from_value(&v) {
                Some(m) => Ok(m),
                None => Err(
                    ProtoError::DeserializationError("malformed Rejection body".to_owned()),
                ),
            },
            Err(e) => Err(e),
        }
    }
}

/// Reading a Rejection message depends on nothing but its fields.
pub proof fn law_rejection_heeds_its_fields(m: RejectionMessage, a: Json, b: Json)
    requires
        a is Object,
        b is Object,
        agree(a, b, RejectionMessage::fields()),
    ensures
        RejectionMessage::readable(a) == RejectionMessage::readable(b),
        m.reads(a) == m.reads(b),
{
    let fields = RejectionMessage::fields();
    assert(fields[0] == "request_id"@);
    assert(fields[1] == "code"@);
    assert(fields[2] == "message"@);
    assert(fields[3] == "current_state"@);
    assert(fields[4] == "version"@);
}

/// A Rejection message that was written reads back as it was.
pub proof fn law_rejection_reads_back(m: RejectionMessage)
    ensures
        RejectionMessage::readable(m.json()),
        m.reads(m.json()),
        m.json().nests_within(1023),
{
    reveal_with_fuel(Json::nests_within, 3);
    broadcast use lemma_uint_of;

    reveal_strlit("request_id");
    reveal_strlit("code");
    reveal_strlit("message");
    reveal_strlit("current_state");
    reveal_strlit("version");
    assert("request_id"@.len() == 10 && "code"@.len() == 4 && "message"@.len() == 7 && "current_state"@.len() == 13 && "version"@.len() == 7);
    assert("message"@[0] == 'm' && "version"@[0] == 'v');
    assert(uint_of(Json::uint(m.request_id as u64 as nat)) == Some(m.request_id as u64));
    if m.version is Some {
        assert(uint_of(Json::uint(m.version->0 as nat)) == Some(m.version->0));
    }
}

/// Tells something that is no error.
#[derive(Debug)]
pub struct NoticeMessage {
    pub message: String,
    pub code: Option<String>,
}

impl NoticeMessage {
    /// The body of the message.
    pub open spec fn json(self) -> Json {
        Json::Object(
            Map::empty()
                .insert("message"@, Json::Text(self.message@))
                .insert("code"@, opt_text_json(opt_text(self.code)))
        )
    }

    /// The fields that the message knows.
    pub open spec fn fields() -> Seq<Seq<char>> {
        seq!["message"@, "code"@]
    }

    /// Whether a body can be read.
    pub open spec fn readable(j: Json) -> bool {
        &&& j is Object
        &&& text_field(j, "message"@) is Some
        &&& opt_text_field(j, "code"@) is Some
    }

    /// Whether a body reads as this message.
    pub open spec fn reads(self, j: Json) -> bool {
        &&& j is Object
        &&& text_field(j, "message"@) == Some(self.message@)
        &&& opt_text_field(j, "code"@) == Some(opt_text(self.code))
    }

    /// The body of the message, as a value.
    pub fn to_value(&self) -> (v: serde_json::Value)
        ensures
            json_view(v) == self.json(),
    {
        let mut v = object();
        put_member(&mut v, "message", text_value(self.message.as_str()));
        put_member(&mut v, "code", opt_text_value(&self.code));
        v
    }

    /// Reads the message from its body.
    pub fn from_value(v: &serde_json::Value) -> (r: Option<NoticeMessage>)
        ensures
            match r {
                Some(m) => NoticeMessage::readable(json_view(*v)) && m.reads(json_view(*v)),
                None => !NoticeMessage::readable(json_view(*v)),
            },
    {
        if !v.is_object() {
            return None;
        }
        let message = read_text(v, "message");
        let code = read_opt_text(v, "code");
        match (message, code) {
            (Some(message), Some(code)) => Some(
                NoticeMessage { message, code },
            ),
            _ => None,
        }
    }

    /// The message in a frame.
    pub fn to_frame(&self) -> (r: Result<Frame, ProtoError>)
        ensures
            r matches Ok(f) && f.tag == FrameTag::Notice && packs(held(f.body), self.json()),
    {
        encode_message(FrameTag::Notice, &self.to_value())
    }

    /// Reads the message from the body of a frame.
    pub fn from_frame(frame: &Frame) -> (r: Result<NoticeMessage, ProtoError>)
        ensures
            ({
                let body = packed_at(held(frame.body), NoticeMessage::fields());
                match r {
                    Ok(m) => body is Some && m.reads(body->0),
                    Err(e) => e@ == body_fault(body, "malformed Notice body"@) && (body is None
                        || !NoticeMessage::readable(body->0)),
                }
            }),
    {
        let fields: Vec<&str> = vec!["message", "code"];
        assert(names(fields@) =~= NoticeMessage::fields());
        match decode_fields(frame, &fields) {
            Ok(v) => match NoticeMessage::from_value(&v) {
                Some(m) => Ok(m),
                None => Err(
                    ProtoError::DeserializationError("malformed Notice body".to_owned()),
                ),
            },
            Err(e) => Err(e),
        }
    }
}

/// Reading a Notice message depends on nothing but its fields.
pub proof fn law_notice_heeds_its_fields(m: NoticeMessage, a: Json, b: Json)
    requires
        a is Object,
        b is Object,
        agree(a, b, NoticeMessage::fields()),
    ensures
        NoticeMessage::readable(a) == NoticeMessage::readable(b),
        m.reads(a) == m.reads(b),
{
    let fields = NoticeMessage::fields();
    assert(fields[0] == "message"@);
    assert(fields[1] == "code"@);
}

/// A Notice message that was written reads back as it was.
pub proof fn law_notice_reads_back(m: NoticeMessage)
    ensures
        NoticeMessage::readable(m.json()),
        m.reads(m.json()),
        m.json().nests_within(1023),
{
    reveal_with_fuel(Json::nests_within, 3);
    reveal_strlit("message");
    reveal_strlit("code");
    assert("message"@.len() == 7 && "code"@.len() == 4);
}

/// Tells why the connection ends, or how authentication went.
#[derive(Debug)]
pub struct ErrorMessage {
    /// Why, for machines.
    pub code: String,
    /// Why, for people.
    pub message: String,
}

impl ErrorMessage {
    /// The body of the message.
    pub open spec fn json(self) -> Json {
        Json::Object(
            Map::empty()
                .insert("code"@, Json::Text(self.code@))
                .insert("message"@, Json::Text(self.message@))
        )
    }

    /// The fields that the message knows.
    pub open spec fn fields() -> Seq<Seq<char>> {
        seq!["code"@, "message"@]
    }

    /// Whether a body can be read.
    pub open spec fn readable(j: Json) -> bool {
        &&& j is Object
        &&& text_or_empty_field(j, "code"@) is Some
        &&& text_field(j, "message"@) is Some
    }

    /// Whether a body reads as this message.
    pub open spec fn reads(self, j: Json) -> bool {
        &&& j is Object
        &&& text_or_empty_field(j, "code"@) == Some(self.code@)
        &&& text_field(j, "message"@) == Some(self.message@)
    }

    /// The body of the message, as a value.
    pub fn to_value(&self) -> (v: serde_json::Value)
        ensures
            json_view(v) == self.json(),
    {
        let mut v = object();
        put_member(&mut v, "code", text_value(self.code.as_str()));
        put_member(&mut v, "message", text_value(self.message.as_str()));
        v
    }

    /// Reads the message from its body.
    pub fn from_value(v: &serde_json::Value) -> (r: Option<ErrorMessage>)
        ensures
            match r {
                Some(m) => ErrorMessage::readable(json_view(*v)) && m.reads(json_view(*v)),
                None => !ErrorMessage::readable(json_view(*v)),
            },
    {
        if !v.is_object() {
            return None;
        }
        let code = read_text_or_empty(v, "code");
        let message = read_text(v, "message");
        match (code, message) {
            (Some(code), Some(message)) => Some(
                ErrorMessage { code, message },
            ),
            _ => None,
        }
    }

    /// The message in a frame.
    pub fn to_frame(&self) -> (r: Result<Frame, ProtoError>)
        ensures
            r matches Ok(f) && f.tag == FrameTag::Error && packs(held(f.body), self.json()),
    {
        encode_message(FrameTag::Error, &self.to_value())
    }

    /// Reads the message from the body of a frame.
    pub fn from_frame(frame: &Frame) -> (r: Result<ErrorMessage, ProtoError>)
        ensures
            ({
                let body = packed_at(held(frame.body), ErrorMessage::fields());
                match r {
                    Ok(m) => body is Some && m.reads(body->0),
                    Err(e) => e@ == body_fault(body, "malformed Error body"@) && (body is None
                        || !ErrorMessage::readable(body->0)),
                }
            }),
    {
        let fields: Vec<&str> = vec!["code", "message"];
        assert(names(fields@) =~= ErrorMessage::fields());
        match decode_fields(frame, &fields) {
            Ok(v) => match ErrorMessage::from_value(&v) {
                Some(m) => Ok(m),
                None => Err(
                    ProtoError::DeserializationError("malformed Error body".to_owned()),
                ),
            },
            Err(e) => Err(e),
        }
    }
}

/// Reading a Error message depends on nothing but its fields.
pub proof fn law_error_heeds_its_fields(m: ErrorMessage, a: Json, b: Json)
    requires
        a is Object,
        b is Object,
        agree(a, b, ErrorMessage::fields()),
    ensures
        ErrorMessage::readable(a) == ErrorMessage::readable(b),
        m.reads(a) == m.reads(b),
{
    let fields = ErrorMessage::fields();
    assert(fields[0] == "code"@);
    assert(fields[1] == "message"@);
}

/// A Error message that was written reads back as it was.
pub proof fn law_error_reads_back(m: ErrorMessage)
    ensures
        ErrorMessage::readable(m.json()),
        m.reads(m.json()),
        m.json().nests_within(1023),
{
    reveal_with_fuel(Json::nests_within, 3);
    reveal_strlit("code");
    reveal_strlit("message");
    assert("code"@.len() == 4 && "message"@.len() == 7);
}

} // verus!
