//! How a refusal reads to a client.
use crate::engine::error::EngineError;
use crate::engine::outcome::TransitionResult;
use crate::fsm::error::CoreError;
use crate::fsm::record::{EntityState, TransitionRecord};
use crate::json::{json_view, Json};
use crate::proto::frame::FrameTag;
use crate::storage::error::StorageError;
use crate::wire::commands::{
    answer_current, answer_definition, answer_history, answer_transition,
};
use crate::wire::reply::{rejection_body, Answer};
use crate::wire::shapes::law_rejection_body_shape;
use vstd::prelude::*;

verus! {

/// Whether an answer refuses a request with a code.
pub open spec fn is_rejection(a: Answer, request_id: u64, code: Seq<char>) -> bool {
    a matches Answer::Say { tag, body } && tag == FrameTag::Rejection && json_view(body).member(
        "request_id"@,
    ) == Some(Json::uint(request_id as nat)) && json_view(body).member("code"@) == Some(
        Json::Text(code),
    )
}

/// A refused transition is answered under the number of its request, with a code for
/// each cause: a client can tell a rule that does not apply, a guard that said no, a
/// version that has passed, a machine that is not there and a key that was used before
/// from one another, and from a fault of the server.
pub proof fn law_refused_transitions_are_told_apart(
    request_id: u64,
    e: EngineError,
    r: Result<TransitionResult, EngineError>,
    known: Option<(String, u64)>,
    a: Answer,
)
    requires
        call_ensures(answer_transition, (request_id, &r, known), a),
        r == Err::<TransitionResult, EngineError>(e),
    ensures
        a matches Answer::Say { tag, body } && tag == FrameTag::Rejection && json_view(body).member(
            "request_id"@,
        ) == Some(Json::uint(request_id as nat)) && json_view(body).member("code"@) == Some(
            Json::Text(
                match e {
                    EngineError::Core(CoreError::IllegalTransition { .. }) => "illegal_transition"@,
                    EngineError::Core(CoreError::GuardFailed { .. }) => "guard_failed"@,
                    EngineError::Core(CoreError::VersionConflict { .. }) => "version_conflict"@,
                    EngineError::Core(CoreError::UnknownMachine { .. }) => "unknown_machine"@,
                    EngineError::MachineNotFound(_) => "unknown_machine"@,
                    EngineError::Storage(StorageError::NotFound(_)) => "unknown_machine"@,
                    EngineError::Core(CoreError::UnknownEntity { .. }) => "unknown_entity"@,
                    EngineError::Storage(StorageError::AlreadyExists(_)) =>
                        "duplicate_idempotency_key"@,
                    _ => "internal_error"@,
                },
            ),
        ),
{
    if let Answer::Say { tag, body } = a {
        let j = json_view(body);
        assert forall|code: Seq<char>, m: Seq<char>, s: Option<Seq<char>>, v: Option<u64>|
            j == #[trigger] rejection_body(request_id, code, m, s, v) implies
            j.member("request_id"@) == Some(Json::uint(request_id as nat)) && j.member("code"@)
            == Some(Json::Text(code)) by {
            law_rejection_body_shape(request_id, code, m, s, v);
        }
    }
}

/// A refused transition shows where the entity stands, as far as the engine or the
/// caller knows it: the state that the rule does not apply to, the version that it has
/// reached, or else what was known of it; and nothing where nothing is known.
pub proof fn law_refused_transitions_show_what_is_known(
    request_id: u64,
    e: EngineError,
    r: Result<TransitionResult, EngineError>,
    known: Option<(String, u64)>,
    a: Answer,
)
    requires
        call_ensures(answer_transition, (request_id, &r, known), a),
        r == Err::<TransitionResult, EngineError>(e),
    ensures
        a is Say,
        json_view(a->body).member("current_state"@) == Some(
            match e {
                EngineError::Core(CoreError::IllegalTransition { current_state, .. }) => Json::Text(
                    current_state@,
                ),
                _ => match known {
                    Some(k) => Json::Text(k.0@),
                    None => Json::Null,
                },
            },
        ),
        json_view(a->body).member("version"@) == Some(
            match e {
                EngineError::Core(CoreError::VersionConflict { actual, .. }) => Json::uint(
                    actual as nat,
                ),
                _ => match known {
                    Some(k) => Json::uint(k.1 as nat),
                    None => Json::Null,
                },
            },
        ),
{
    let j = json_view(a->body);
    assert forall|code: Seq<char>, m: Seq<char>, s: Option<Seq<char>>, v: Option<u64>|
        j == #[trigger] rejection_body(request_id, code, m, s, v) implies
        j.member("current_state"@) == Some(
        match s {
            Some(x) => Json::Text(x),
            None => Json::Null,
        },
    ) && j.member("version"@) == Some(
        match v {
            Some(n) => Json::uint(n as nat),
            None => Json::Null,
        },
    ) by {
        law_rejection_body_shape(request_id, code, m, s, v);
    }
}

/// A refused definition is answered under the number of its request: as invalid where
/// the definition is wrong, as taken where the version exists with other contents, and
/// as a fault of the server otherwise. It shows no state and no version.
pub proof fn law_refused_definitions_are_told_apart(
    request_id: u64,
    name: &str,
    version: u32,
    e: EngineError,
    r: Result<(), EngineError>,
    a: Answer,
)
    requires
        call_ensures(answer_definition, (request_id, name, version, &r), a),
        r == Err::<(), EngineError>(e),
    ensures
        a matches Answer::Say { tag, body } && tag == FrameTag::Rejection && json_view(body).member(
            "request_id"@,
        ) == Some(Json::uint(request_id as nat)) && json_view(body).member("code"@) == Some(
            Json::Text(
                match e {
                    EngineError::Core(_) => "invalid_definition"@,
                    EngineError::Storage(StorageError::AlreadyExists(_)) =>
                        "version_already_exists"@,
                    _ => "internal_error"@,
                },
            ),
        ) && json_view(body).member("current_state"@) == Some(Json::Null) && json_view(body).member(
            "version"@,
        ) == Some(Json::Null),
{
    if let Answer::Say { tag, body } = a {
        let j = json_view(body);
        assert forall|code: Seq<char>, m: Seq<char>| j
            == #[trigger] rejection_body(
            request_id,
            code,
            m,
            None,
            None,
        ) implies j.member("request_id"@) == Some(Json::uint(request_id as nat)) && j.member(
            "code"@,
        ) == Some(Json::Text(code)) && j.member("current_state"@) == Some(Json::Null) && j.member(
            "version"@,
        ) == Some(Json::Null) by {
            law_rejection_body_shape(request_id, code, m, None, None);
        }
    }
}

/// A question about an entity that is not there is answered so; one that the store
/// could not answer is a fault of the server.
pub proof fn law_unanswered_questions_are_told_apart(
    request_id: u64,
    e: EngineError,
    current: Result<EntityState, EngineError>,
    history: Result<Vec<TransitionRecord>, EngineError>,
    code: Seq<char>,
    a: Answer,
    b: Answer,
)
    requires
        call_ensures(answer_current, (request_id, &current), a),
        call_ensures(answer_history, (request_id, &history), b),
        current == Err::<EntityState, EngineError>(e),
        history == Err::<Vec<TransitionRecord>, EngineError>(e),
        code == (match e {
            EngineError::Storage(StorageError::NotFound(_)) => "unknown_entity"@,
            _ => "internal_error"@,
        }),
    ensures
        is_rejection(a, request_id, code),
        is_rejection(b, request_id, code),
{
    law_rejection_body_shape(request_id, code, e@.message(), None, None);
}

} // verus!
