//! What a server answers: results, rejections and errors.
use crate::engine::error::{EngineError, EngineErrorView};
use crate::fsm::error::{CoreError, CoreErrorView};
use crate::json::{json_view, Json};
use crate::proto::codec::{encode_message, packs};
use crate::proto::error::ProtoError;
use crate::proto::fields::{opt_text_json, opt_uint_json};
use crate::proto::frame::{bytes_of, held, Frame, FrameTag};
use crate::proto::messages::{ErrorMessage, RejectionMessage, ResultMessage};
use crate::storage::error::{StorageError, StorageErrorView};
use crate::text::opt_text;
use vstd::prelude::*;

verus! {

/// What a server answers.
#[derive(Debug)]
pub enum Answer {
    /// A body under a tag.
    Say { tag: FrameTag, body: serde_json::Value },
    /// The bytes of a `Ping`, sent back in a `Pong`.
    Echo(bytes::Bytes),
}

/// Whether an answer is a body under a tag.
pub open spec fn says(a: Answer, tag: FrameTag, body: Json) -> bool {
    a matches Answer::Say { tag: t, body: b } && t == tag && json_view(b) == body
}

/// The body of a result.
pub open spec fn result_body(request_id: u64, payload: Json) -> Json {
    Json::Object(
        Map::empty().insert("request_id"@, Json::uint(request_id as nat)).insert(
            "payload"@,
            payload,
        ),
    )
}

/// The body of a rejection.
pub open spec fn rejection_body(
    request_id: u64,
    code: Seq<char>,
    message: Seq<char>,
    current_state: Option<Seq<char>>,
    version: Option<u64>,
) -> Json {
    Json::Object(
        Map::empty().insert("request_id"@, Json::uint(request_id as nat)).insert(
            "code"@,
            Json::Text(code),
        ).insert("message"@, Json::Text(message)).insert(
            "current_state"@,
            opt_text_json(current_state),
        ).insert("version"@, opt_uint_json(version)),
    )
}

/// The body of an error.
pub open spec fn error_body(code: Seq<char>, message: Seq<char>) -> Json {
    Json::Object(
        Map::empty().insert("code"@, Json::Text(code)).insert("message"@, Json::Text(message)),
    )
}

/// The code of a rejection.
pub open spec fn rejection_code(e: EngineErrorView) -> Seq<char> {
    match e {
        EngineErrorView::Core(c) => match c {
            CoreErrorView::IllegalTransition { .. } => "illegal_transition"@,
            CoreErrorView::GuardFailed { .. } => "guard_failed"@,
            CoreErrorView::VersionConflict { .. } => "version_conflict"@,
            CoreErrorView::UnknownMachine { .. } => "unknown_machine"@,
            CoreErrorView::UnknownEntity { .. } => "unknown_entity"@,
            _ => "internal_error"@,
        },
        EngineErrorView::Storage(StorageErrorView::NotFound(_)) => "unknown_machine"@,
        EngineErrorView::Storage(StorageErrorView::AlreadyExists(_)) =>
            "duplicate_idempotency_key"@,
        EngineErrorView::MachineNotFound(_) => "unknown_machine"@,
        _ => "internal_error"@,
    }
}

/// The code of a rejection of a definition.
pub open spec fn definition_code(e: EngineErrorView) -> Seq<char> {
    match e {
        EngineErrorView::Core(_) => "invalid_definition"@,
        EngineErrorView::Storage(StorageErrorView::AlreadyExists(_)) => "version_already_exists"@,
        _ => "internal_error"@,
    }
}

/// The code of a rejection of a question about an entity.
pub open spec fn lookup_code(e: EngineErrorView) -> Seq<char> {
    match e {
        EngineErrorView::Storage(StorageErrorView::NotFound(_)) => "unknown_entity"@,
        _ => "internal_error"@,
    }
}

/// The code of a rejection.
pub fn rejection_code_of(e: &EngineError) -> (r: String)
    ensures
        r@ == rejection_code(e@),
{
    match e {
        EngineError::Core(CoreError::IllegalTransition { .. }) => "illegal_transition".to_owned(),
        EngineError::Core(CoreError::GuardFailed { .. }) => "guard_failed".to_owned(),
        EngineError::Core(CoreError::VersionConflict { .. }) => "version_conflict".to_owned(),
        EngineError::Core(CoreError::UnknownMachine { .. }) => "unknown_machine".to_owned(),
        EngineError::Core(CoreError::UnknownEntity { .. }) => "unknown_entity".to_owned(),
        EngineError::Storage(StorageError::NotFound(_)) => "unknown_machine".to_owned(),
        EngineError::Storage(StorageError::AlreadyExists(_)) =>
            "duplicate_idempotency_key".to_owned(),
        EngineError::MachineNotFound(_) => "unknown_machine".to_owned(),
        _ => "internal_error".to_owned(),
    }
}

/// The code of a rejection of a definition.
pub fn definition_code_of(e: &EngineError) -> (r: String)
    ensures
        r@ == definition_code(e@),
{
    match e {
        EngineError::Core(_) => "invalid_definition".to_owned(),
        EngineError::Storage(StorageError::AlreadyExists(_)) => "version_already_exists".to_owned(),
        _ => "internal_error".to_owned(),
    }
}

/// The code of a rejection of a question about an entity.
pub fn lookup_code_of(e: &EngineError) -> (r: String)
    ensures
        r@ == lookup_code(e@),
{
    match e {
        EngineError::Storage(StorageError::NotFound(_)) => "unknown_entity".to_owned(),
        _ => "internal_error".to_owned(),
    }
}

/// A result.
pub fn make_result(request_id: u64, payload: serde_json::Value) -> (a: Answer)
    ensures
        says(a, FrameTag::Result, result_body(request_id, json_view(payload))),
{
    let m = ResultMessage { request_id, payload };
    Answer::Say { tag: FrameTag::Result, body: m.to_value() }
}

/// A rejection.
pub fn make_rejection(
    request_id: u64,
    code: String,
    message: String,
    current_state: Option<String>,
    version: Option<u64>,
) -> (a: Answer)
    ensures
        says(
            a,
            FrameTag::Rejection,
            rejection_body(request_id, code@, message@, opt_text(current_state), version),
        ),
{
    let m = RejectionMessage { request_id, code, message, current_state, version };
    Answer::Say { tag: FrameTag::Rejection, body: m.to_value() }
}

/// An error, under the tag `Error`, `AuthError` or `AuthOk`.
pub fn make_error(tag: FrameTag, code: &str, message: &str) -> (a: Answer)
    ensures
        says(a, tag, error_body(code@, message@)),
{
    let m = ErrorMessage { code: code.to_owned(), message: message.to_owned() };
    Answer::Say { tag, body: m.to_value() }
}

/// The frame of an answer, given how writing its body went. Where it failed the
/// frame reports that.
pub fn framed(r: Result<Frame, ProtoError>) -> (f: Frame)
    ensures
        match r {
            Ok(x) => f == x,
            Err(e) => f.tag == FrameTag::Error && packs(
                held(f.body),
                error_body("internal_error"@, e@.message()),
            ),
        },
{
    match r {
        Ok(f) => f,
        Err(e) => {
            let text = e.message();
            let m = ErrorMessage { code: "internal_error".to_owned(), message: text };
            match encode_message(FrameTag::Error, &m.to_value()) {
                Ok(f) => f,
                Err(_) => Frame {
                    tag: FrameTag::Error,
                    body: bytes_of(
                        vec![
                            0x65u8,
                            0x6e,
                            0x63,
                            0x6f,
                            0x64,
                            0x69,
                            0x6e,
                            0x67,
                            0x20,
                            0x65,
                            0x72,
                            0x72,
                            0x6f,
                            0x72,
                        ],
                    ),
                },
            }
        },
    }
}

impl Answer {
    /// The answer as a frame.
    pub fn to_frame(self) -> (f: Frame)
        ensures
            match self {
                Answer::Say { tag, body } => f.tag == tag && packs(held(f.body), json_view(body)),
                Answer::Echo(b) => f.tag == FrameTag::Pong && f.body == b,
            },
    {
        match self {
            Answer::Say { tag, body } => framed(encode_message(tag, &body)),
            Answer::Echo(b) => Frame { tag: FrameTag::Pong, body: b },
        }
    }
}

} // verus!
