//! The shapes of what a server says.
use crate::engine::outcome::ResultView;
use crate::fsm::record::{EntityView, RecordView};
use crate::json::Json;
use crate::proto::records::{entity_json, record_json, result_json};
use crate::wire::reply::{error_body, rejection_body, result_body};
use vstd::prelude::*;

verus! {

/// The state of an entity is written with its fields under their names.
pub proof fn law_entity_shape(x: EntityView)
    ensures
        entity_json(x).member("entity_id"@) == Some(Json::Text(x.entity_id)),
        entity_json(x).member("machine"@) == Some(Json::Text(x.machine)),
        entity_json(x).member("state"@) == Some(Json::Text(x.current_state)),
        entity_json(x).member("version"@) == Some(Json::uint(x.version as nat)),
{
    reveal_strlit("entity_id");
    reveal_strlit("machine");
    reveal_strlit("state");
    reveal_strlit("version");
    reveal_strlit("updated_at");
    reveal_strlit("created_at");
    assert("entity_id"@.len() == 9 && "machine"@.len() == 7 && "state"@.len() == 5
        && "version"@.len() == 7 && "updated_at"@.len() == 10 && "created_at"@.len() == 10);
    assert("machine"@[0] == 'm');
    assert("version"@[0] == 'v');
    assert("updated_at"@[0] == 'u');
    assert("created_at"@[0] == 'c');
}

/// A transition is written with its fields under their names.
pub proof fn law_record_shape(x: RecordView)
    ensures
        record_json(x).member("id"@) == Some(Json::Text(x.id)),
        record_json(x).member("sequence"@) == Some(Json::uint(x.sequence as nat)),
        record_json(x).member("entity_id"@) == Some(Json::Text(x.entity_id)),
        record_json(x).member("machine"@) == Some(Json::Text(x.machine)),
        record_json(x).member("from_state"@) == Some(Json::Text(x.from_state)),
        record_json(x).member("to_state"@) == Some(Json::Text(x.to_state)),
        record_json(x).member("event"@) == Some(Json::Text(x.event)),
        record_json(x).member("actor"@) == Some(Json::Text(x.actor)),
        record_json(x).member("ctx"@) == Some(x.ctx),
        record_json(x).member("version"@) == Some(Json::uint(x.version as nat)),
        record_json(x).member("idempotency_key"@) == Some(
            match x.idempotency_key {
                Some(k) => Json::Text(k),
                None => Json::Null,
            },
        ),
{
    reveal_strlit("id");
    reveal_strlit("sequence");
    reveal_strlit("entity_id");
    reveal_strlit("machine");
    reveal_strlit("from_state");
    reveal_strlit("to_state");
    reveal_strlit("event");
    reveal_strlit("actor");
    reveal_strlit("ctx");
    reveal_strlit("version");
    reveal_strlit("idempotency_key");
    reveal_strlit("timestamp");
    assert("id"@.len() == 2 && "sequence"@.len() == 8 && "entity_id"@.len() == 9
        && "machine"@.len() == 7 && "from_state"@.len() == 10 && "to_state"@.len() == 8
        && "event"@.len() == 5 && "actor"@.len() == 5 && "ctx"@.len() == 3
        && "version"@.len() == 7 && "idempotency_key"@.len() == 15 && "timestamp"@.len() == 9);
    assert("sequence"@[0] == 's');
    assert("to_state"@[0] == 't');
    assert("entity_id"@[0] == 'e');
    assert("timestamp"@[0] == 't');
    assert("machine"@[0] == 'm');
    assert("version"@[0] == 'v');
    assert("event"@[0] == 'e');
    assert("actor"@[0] == 'a');
}

/// The answer to a transition is written with its fields under their names.
pub proof fn law_result_shape(x: ResultView)
    ensures
        result_json(x).member("entity_id"@) == Some(Json::Text(x.entity_id)),
        result_json(x).member("machine"@) == Some(Json::Text(x.machine)),
        result_json(x).member("from"@) == Some(Json::Text(x.from_state)),
        result_json(x).member("state"@) == Some(Json::Text(x.to_state)),
        result_json(x).member("version"@) == Some(Json::uint(x.version as nat)),
        result_json(x).member("transition_id"@) == Some(Json::Text(x.transition_id)),
        result_json(x).member("sequence"@) == Some(Json::uint(x.sequence as nat)),
{
    reveal_strlit("entity_id");
    reveal_strlit("machine");
    reveal_strlit("from");
    reveal_strlit("state");
    reveal_strlit("version");
    reveal_strlit("transition_id");
    reveal_strlit("sequence");
    reveal_strlit("ts");
    assert("entity_id"@.len() == 9 && "machine"@.len() == 7 && "from"@.len() == 4
        && "state"@.len() == 5 && "version"@.len() == 7 && "transition_id"@.len() == 13
        && "sequence"@.len() == 8 && "ts"@.len() == 2);
    assert("machine"@[0] == 'm');
    assert("version"@[0] == 'v');
}

/// A result carries the number of the request and a payload.
pub proof fn law_result_body_shape(request_id: u64, payload: Json)
    ensures
        result_body(request_id, payload).member("request_id"@) == Some(
            Json::uint(request_id as nat),
        ),
        result_body(request_id, payload).member("payload"@) == Some(payload),
{
    reveal_strlit("request_id");
    reveal_strlit("payload");
    assert("request_id"@.len() == 10 && "payload"@.len() == 7);
}

/// A rejection carries the number of the request, a code, a message, and the state
/// and the version of the entity where they are known.
pub proof fn law_rejection_body_shape(
    request_id: u64,
    code: Seq<char>,
    message: Seq<char>,
    current_state: Option<Seq<char>>,
    version: Option<u64>,
)
    ensures
        ({
            let j = rejection_body(request_id, code, message, current_state, version);
            &&& j.member("request_id"@) == Some(Json::uint(request_id as nat))
            &&& j.member("code"@) == Some(Json::Text(code))
            &&& j.member("message"@) == Some(Json::Text(message))
            &&& j.member("current_state"@) == Some(
                match current_state {
                    Some(s) => Json::Text(s),
                    None => Json::Null,
                },
            )
            &&& j.member("version"@) == Some(
                match version {
                    Some(n) => Json::uint(n as nat),
                    None => Json::Null,
                },
            )
        }),
{
    reveal_strlit("request_id");
    reveal_strlit("code");
    reveal_strlit("message");
    reveal_strlit("current_state");
    reveal_strlit("version");
    assert("request_id"@.len() == 10 && "code"@.len() == 4 && "message"@.len() == 7
        && "current_state"@.len() == 13 && "version"@.len() == 7);
    assert("message"@[0] == 'm');
    assert("version"@[0] == 'v');
}

/// An error carries a code and a message.
pub proof fn law_error_body_shape(code: Seq<char>, message: Seq<char>)
    ensures
        error_body(code, message).member("code"@) == Some(Json::Text(code)),
        error_body(code, message).member("message"@) == Some(Json::Text(message)),
{
    reveal_strlit("code");
    reveal_strlit("message");
    assert("code"@.len() == 4 && "message"@.len() == 7);
}

} // verus!
