//! Entities, transitions and answers as JSON values.
use crate::clock::{instant_at, instant_text, Timestamp};
use crate::engine::outcome::{ResultView, TransitionResult};
use crate::fsm::record::{EntityState, EntityView, RecordView, TransitionRecord};
use crate::json::{json_view, object, opt_text_value, put_member, text_value, uint_value, Json};
use crate::proto::definition::{instant_json, instant_value};
use crate::proto::fields::{
    instant_field, lemma_uint_of, opt_text_field, opt_text_json, read_instant, read_opt_text,
    read_text, read_uint, read_value_or_null, text_field, uint_field, uint_of, value_or_null_field,
};
use vstd::prelude::*;

verus! {

/// Whether an instant has a text that reads back as the instant.
pub open spec fn reads_back(t: Timestamp) -> bool {
    t.valid() && instant_at(instant_text(t.secs, t.nanos)) == Some((t.secs, t.nanos))
}

/// The state of an entity as JSON.
pub open spec fn entity_json(x: EntityView) -> Json {
    Json::Object(
        Map::empty()
            .insert("entity_id"@, Json::Text(x.entity_id))
            .insert("machine"@, Json::Text(x.machine))
            .insert("state"@, Json::Text(x.current_state))
            .insert("version"@, Json::uint(x.version as nat))
            .insert("updated_at"@, instant_json(x.updated_at))
            .insert("created_at"@, instant_json(x.created_at))
    )
}

/// The state of an entity that a value stands for, if it stands for one.
pub open spec fn entity_at(j: Json) -> Option<EntityView> {
    match (
        text_field(j, "entity_id"@),
        text_field(j, "machine"@),
        text_field(j, "state"@),
        uint_field(j, "version"@),
        instant_field(j, "updated_at"@),
        instant_field(j, "created_at"@),
    ) {
        (
            Some(entity_id),
            Some(machine),
            Some(current_state),
            Some(version),
            Some(updated_at),
            Some(created_at),
        ) => Some(
            EntityView {
                entity_id,
                machine,
                current_state,
                version,
                updated_at,
                created_at,
            },
        ),
        _ => None,
    }
}

/// The state of an entity as a value.
pub fn entity_value(x: &EntityState) -> (v: serde_json::Value)
    ensures
        json_view(v) == entity_json(x@),
{
    let mut v = object();
    put_member(&mut v, "entity_id", text_value(x.entity_id.as_str()));
    put_member(&mut v, "machine", text_value(x.machine.as_str()));
    put_member(&mut v, "state", text_value(x.current_state.as_str()));
    put_member(&mut v, "version", uint_value(x.version));
    put_member(&mut v, "updated_at", instant_value(&x.updated_at));
    put_member(&mut v, "created_at", instant_value(&x.created_at));
    v
}

/// Reads the state of an entity.
pub fn read_entity(v: &serde_json::Value) -> (r: Option<EntityState>)
    ensures
        match r {
            Some(x) => entity_at(json_view(*v)) == Some(x@),
            None => entity_at(json_view(*v)) is None,
        },
{
    let entity_id = read_text(v, "entity_id");
    let machine = read_text(v, "machine");
    let current_state = read_text(v, "state");
    let version = read_uint(v, "version");
    let updated_at = read_instant(v, "updated_at");
    let created_at = read_instant(v, "created_at");
    match (entity_id, machine, current_state, version, updated_at, created_at) {
        (Some(entity_id), Some(machine), Some(current_state), Some(version), Some(updated_at), Some(created_at)) => Some(
            EntityState { entity_id, machine, current_state, version, updated_at, created_at },
        ),
        _ => None,
    }
}

/// What was written as JSON for the state of an entity reads back as it was, provided that
/// its instants do.
pub proof fn law_entity_reads_back(x: EntityView)
    ensures
        reads_back(x.updated_at) && reads_back(x.created_at) ==> entity_at(entity_json(x)) == Some(x),
{
    broadcast use lemma_uint_of;

    reveal_strlit("entity_id");
    reveal_strlit("machine");
    reveal_strlit("state");
    reveal_strlit("version");
    reveal_strlit("updated_at");
    reveal_strlit("created_at");
    assert("entity_id"@.len() == 9 && "machine"@.len() == 7 && "state"@.len() == 5 && "version"@.len() == 7 && "updated_at"@.len() == 10 && "created_at"@.len() == 10);
    assert("machine"@[0] == 'm' && "version"@[0] == 'v');
    assert("updated_at"@[0] == 'u' && "created_at"@[0] == 'c');
    let j = entity_json(x);
    assert(uint_of(Json::uint(x.version as nat)) == Some(x.version));
    assert(j.member("entity_id"@) == Some(Json::Text(x.entity_id)));
    assert(j.member("machine"@) == Some(Json::Text(x.machine)));
    assert(j.member("state"@) == Some(Json::Text(x.current_state)));
    assert(j.member("version"@) == Some(Json::uint(x.version as nat)));
    assert(j.member("updated_at"@) == Some(instant_json(x.updated_at)));
    assert(j.member("created_at"@) == Some(instant_json(x.created_at)));
}

/// A transition as JSON.
pub open spec fn record_json(x: RecordView) -> Json {
    Json::Object(
        Map::empty()
            .insert("id"@, Json::Text(x.id))
            .insert("sequence"@, Json::uint(x.sequence as nat))
            .insert("entity_id"@, Json::Text(x.entity_id))
            .insert("machine"@, Json::Text(x.machine))
            .insert("from_state"@, Json::Text(x.from_state))
            .insert("to_state"@, Json::Text(x.to_state))
            .insert("event"@, Json::Text(x.event))
            .insert("actor"@, Json::Text(x.actor))
            .insert("ctx"@, x.ctx)
            .insert("idempotency_key"@, opt_text_json(x.idempotency_key))
            .insert("version"@, Json::uint(x.version as nat))
            .insert("timestamp"@, instant_json(x.timestamp))
    )
}

/// A transition that a value stands for, if it stands for one.
pub open spec fn record_at(j: Json) -> Option<RecordView> {
    match (
        text_field(j, "id"@),
        uint_field(j, "sequence"@),
        text_field(j, "entity_id"@),
        text_field(j, "machine"@),
        text_field(j, "from_state"@),
        text_field(j, "to_state"@),
        text_field(j, "event"@),
        text_field(j, "actor"@),
        opt_text_field(j, "idempotency_key"@),
        uint_field(j, "version"@),
        instant_field(j, "timestamp"@),
    ) {
        (
            Some(id),
            Some(sequence),
            Some(entity_id),
            Some(machine),
            Some(from_state),
            Some(to_state),
            Some(event),
            Some(actor),
            Some(idempotency_key),
            Some(version),
            Some(timestamp),
        ) => Some(
            RecordView {
                id,
                sequence,
                entity_id,
                machine,
                from_state,
                to_state,
                event,
                actor,
                ctx: value_or_null_field(j, "ctx"@),
                idempotency_key,
                version,
                timestamp,
            },
        ),
        _ => None,
    }
}

/// A transition as a value.
pub fn record_value(x: &TransitionRecord) -> (v: serde_json::Value)
    ensures
        json_view(v) == record_json(x@),
{
    let mut v = object();
    put_member(&mut v, "id", text_value(x.id.as_str()));
    put_member(&mut v, "sequence", uint_value(x.sequence));
    put_member(&mut v, "entity_id", text_value(x.entity_id.as_str()));
    put_member(&mut v, "machine", text_value(x.machine.as_str()));
    put_member(&mut v, "from_state", text_value(x.from_state.as_str()));
    put_member(&mut v, "to_state", text_value(x.to_state.as_str()));
    put_member(&mut v, "event", text_value(x.event.as_str()));
    put_member(&mut v, "actor", text_value(x.actor.as_str()));
    put_member(&mut v, "ctx", x.ctx.clone());
    put_member(&mut v, "idempotency_key", opt_text_value(&x.idempotency_key));
    put_member(&mut v, "version", uint_value(x.version));
    put_member(&mut v, "timestamp", instant_value(&x.timestamp));
    v
}

/// Reads a transition.
pub fn read_record(v: &serde_json::Value) -> (r: Option<TransitionRecord>)
    ensures
        match r {
            Some(x) => record_at(json_view(*v)) == Some(x@),
            None => record_at(json_view(*v)) is None,
        },
{
    let id = read_text(v, "id");
    let sequence = read_uint(v, "sequence");
    let entity_id = read_text(v, "entity_id");
    let machine = read_text(v, "machine");
    let from_state = read_text(v, "from_state");
    let to_state = read_text(v, "to_state");
    let event = read_text(v, "event");
    let actor = read_text(v, "actor");
    let ctx = read_value_or_null(v, "ctx");
    let idempotency_key = read_opt_text(v, "idempotency_key");
    let version = read_uint(v, "version");
    let timestamp = read_instant(v, "timestamp");
    match (id, sequence, entity_id, machine, from_state, to_state, event, actor, idempotency_key, version, timestamp) {
        (Some(id), Some(sequence), Some(entity_id), Some(machine), Some(from_state), Some(to_state), Some(event), Some(actor), Some(idempotency_key), Some(version), Some(timestamp)) => Some(
            TransitionRecord { id, sequence, entity_id, machine, from_state, to_state, event, actor, ctx, idempotency_key, version, timestamp },
        ),
        _ => None,
    }
}

/// What was written as JSON for a transition reads back as it was, provided that
/// its instants do.
pub proof fn law_record_reads_back(x: RecordView)
    ensures
        reads_back(x.timestamp) ==> record_at(record_json(x)) == Some(x),
{
    broadcast use lemma_uint_of;

    reveal_strlit("id");
    reveal_strlit("sequence");
    reveal_strlit("entity_id");
    reveal_strlit("machine");
    reveal_strlit("from_state");
    reveal_strlit("to_state");
    reveal_strlit("event");
    reveal_strlit("actor");
    reveal_strlit("ctx");
    reveal_strlit("idempotency_key");
    reveal_strlit("version");
    reveal_strlit("timestamp");
    assert("id"@.len() == 2 && "sequence"@.len() == 8 && "entity_id"@.len() == 9 && "machine"@.len() == 7 && "from_state"@.len() == 10 && "to_state"@.len() == 8 && "event"@.len() == 5 && "actor"@.len() == 5 && "ctx"@.len() == 3 && "idempotency_key"@.len() == 15 && "version"@.len() == 7 && "timestamp"@.len() == 9);
    assert("sequence"@[0] == 's' && "to_state"@[0] == 't');
    assert("entity_id"@[0] == 'e' && "timestamp"@[0] == 't');
    assert("machine"@[0] == 'm' && "version"@[0] == 'v');
    assert("event"@[0] == 'e' && "actor"@[0] == 'a');
    let j = record_json(x);
    assert(uint_of(Json::uint(x.sequence as nat)) == Some(x.sequence));
    assert(uint_of(Json::uint(x.version as nat)) == Some(x.version));
    assert(j.member("id"@) == Some(Json::Text(x.id)));
    assert(j.member("sequence"@) == Some(Json::uint(x.sequence as nat)));
    assert(j.member("entity_id"@) == Some(Json::Text(x.entity_id)));
    assert(j.member("machine"@) == Some(Json::Text(x.machine)));
    assert(j.member("from_state"@) == Some(Json::Text(x.from_state)));
    assert(j.member("to_state"@) == Some(Json::Text(x.to_state)));
    assert(j.member("event"@) == Some(Json::Text(x.event)));
    assert(j.member("actor"@) == Some(Json::Text(x.actor)));
    assert(j.member("ctx"@) == Some(x.ctx));
    assert(j.member("idempotency_key"@) == Some(opt_text_json(x.idempotency_key)));
    assert(j.member("version"@) == Some(Json::uint(x.version as nat)));
    assert(j.member("timestamp"@) == Some(instant_json(x.timestamp)));
}

/// The answer to a transition as JSON.
pub open spec fn result_json(x: ResultView) -> Json {
    Json::Object(
        Map::empty()
            .insert("entity_id"@, Json::Text(x.entity_id))
            .insert("machine"@, Json::Text(x.machine))
            .insert("from"@, Json::Text(x.from_state))
            .insert("state"@, Json::Text(x.to_state))
            .insert("version"@, Json::uint(x.version as nat))
            .insert("transition_id"@, Json::Text(x.transition_id))
            .insert("sequence"@, Json::uint(x.sequence as nat))
            .insert("ts"@, instant_json(x.timestamp))
    )
}

/// The answer to a transition that a value stands for, if it stands for one.
pub open spec fn result_at(j: Json) -> Option<ResultView> {
    match (
        text_field(j, "entity_id"@),
        text_field(j, "machine"@),
        text_field(j, "from"@),
        text_field(j, "state"@),
        uint_field(j, "version"@),
        text_field(j, "transition_id"@),
        uint_field(j, "sequence"@),
        instant_field(j, "ts"@),
    ) {
        (
            Some(entity_id),
            Some(machine),
            Some(from_state),
            Some(to_state),
            Some(version),
            Some(transition_id),
            Some(sequence),
            Some(timestamp),
        ) => Some(
            ResultView {
                entity_id,
                machine,
                from_state,
                to_state,
                version,
                transition_id,
                sequence,
                timestamp,
            },
        ),
        _ => None,
    }
}

/// The answer to a transition as a value.
pub fn result_value(x: &TransitionResult) -> (v: serde_json::Value)
    ensures
        json_view(v) == result_json(x@),
{
    let mut v = object();
    put_member(&mut v, "entity_id", text_value(x.entity_id.as_str()));
    put_member(&mut v, "machine", text_value(x.machine.as_str()));
    put_member(&mut v, "from", text_value(x.from_state.as_str()));
    put_member(&mut v, "state", text_value(x.to_state.as_str()));
    put_member(&mut v, "version", uint_value(x.version));
    put_member(&mut v, "transition_id", text_value(x.transition_id.as_str()));
    put_member(&mut v, "sequence", uint_value(x.sequence));
    put_member(&mut v, "ts", instant_value(&x.timestamp));
    v
}

/// Reads the answer to a transition.
pub fn read_result(v: &serde_json::Value) -> (r: Option<TransitionResult>)
    ensures
        match r {
            Some(x) => result_at(json_view(*v)) == Some(x@),
            None => result_at(json_view(*v)) is None,
        },
{
    let entity_id = read_text(v, "entity_id");
    let machine = read_text(v, "machine");
    let from_state = read_text(v, "from");
    let to_state = read_text(v, "state");
    let version = read_uint(v, "version");
    let transition_id = read_text(v, "transition_id");
    let sequence = read_uint(v, "sequence");
    let timestamp = read_instant(v, "ts");
    match (entity_id, machine, from_state, to_state, version, transition_id, sequence, timestamp) {
        (Some(entity_id), Some(machine), Some(from_state), Some(to_state), Some(version), Some(transition_id), Some(sequence), Some(timestamp)) => Some(
            TransitionResult { entity_id, machine, from_state, to_state, version, transition_id, sequence, timestamp },
        ),
        _ => None,
    }
}

/// What was written as JSON for the answer to a transition reads back as it was, provided that
/// its instants do.
pub proof fn law_result_reads_back(x: ResultView)
    ensures
        reads_back(x.timestamp) ==> result_at(result_json(x)) == Some(x),
{
    broadcast use lemma_uint_of;

    reveal_strlit("entity_id");
    reveal_strlit("machine");
    reveal_strlit("from");
    reveal_strlit("state");
    reveal_strlit("version");
    reveal_strlit("transition_id");
    reveal_strlit("sequence");
    reveal_strlit("ts");
    assert("entity_id"@.len() == 9 && "machine"@.len() == 7 && "from"@.len() == 4 && "state"@.len() == 5 && "version"@.len() == 7 && "transition_id"@.len() == 13 && "sequence"@.len() == 8 && "ts"@.len() == 2);
    assert("machine"@[0] == 'm' && "version"@[0] == 'v');
    let j = result_json(x);
    assert(uint_of(Json::uint(x.version as nat)) == Some(x.version));
    assert(uint_of(Json::uint(x.sequence as nat)) == Some(x.sequence));
    assert(j.member("entity_id"@) == Some(Json::Text(x.entity_id)));
    assert(j.member("machine"@) == Some(Json::Text(x.machine)));
    assert(j.member("from"@) == Some(Json::Text(x.from_state)));
    assert(j.member("state"@) == Some(Json::Text(x.to_state)));
    assert(j.member("version"@) == Some(Json::uint(x.version as nat)));
    assert(j.member("transition_id"@) == Some(Json::Text(x.transition_id)));
    assert(j.member("sequence"@) == Some(Json::uint(x.sequence as nat)));
    assert(j.member("ts"@) == Some(instant_json(x.timestamp)));
}

} // verus!
