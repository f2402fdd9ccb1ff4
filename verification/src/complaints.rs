//! What errors say.
use crate::engine::error::EngineError;
use crate::fsm::error::CoreError;
use crate::proto::error::ProtoError;
use crate::sdk::error::SdkError;
use crate::storage::error::StorageError;
use crate::text::decimal;
use crate::wire::error::WireError;
use vstd::prelude::*;

verus! {

/// What the errors of machines and requests say.
pub proof fn law_core_errors_say(e: CoreError, r: String)
    requires
        call_ensures(CoreError::message, (&e,), r),
    ensures
        match e {
            CoreError::IllegalTransition { entity_id, machine, event, current_state } => r@
                == "illegal transition: entity '"@ + entity_id@ + "' in machine '"@ + machine@
                + "' has no transition for event '"@ + event@ + "' from state '"@ + current_state@
                + "'"@,
            CoreError::GuardFailed { guard_name, reason } => r@ == "guard '"@ + guard_name@
                + "' failed: "@ + reason@,
            CoreError::VersionConflict { entity_id, machine, expected, actual } => r@
                == "version conflict: entity '"@ + entity_id@ + "' in machine '"@ + machine@
                + "' expected version "@ + decimal(expected as nat) + " but found "@ + decimal(
                actual as nat,
            ),
            CoreError::UnknownMachine { name } => r@ == "unknown machine: '"@ + name@ + "'"@,
            CoreError::UnknownEntity { entity_id, machine } => r@ == "unknown entity '"@
                + entity_id@ + "' in machine '"@ + machine@ + "'"@,
            CoreError::InvalidDefinition { reason } => r@ == "invalid machine definition: "@
                + reason@,
            CoreError::DuplicateState { name } => r@ == "duplicate state: '"@ + name@ + "'"@,
            CoreError::DuplicateEvent { name } => r@ == "duplicate event: '"@ + name@ + "'"@,
        },
{
}

/// What the errors of a store say.
pub proof fn law_storage_errors_say(e: StorageError, r: String)
    requires
        call_ensures(StorageError::message, (&e,), r),
    ensures
        match e {
            StorageError::NotFound(s) => r@ == "not found: "@ + s@,
            StorageError::AlreadyExists(s) => r@ == "already exists: "@ + s@,
            StorageError::VersionConflict { entity_id, expected, actual } => r@
                == "version conflict: entity '"@ + entity_id@ + "' expected version "@ + decimal(
                expected as nat,
            ) + " but found "@ + decimal(actual as nat),
            StorageError::TransactionFailed(s) => r@ == "transaction failed: "@ + s@,
            StorageError::Corrupted(s) => r@ == "corrupted data: "@ + s@,
            StorageError::Io(s) => r@ == "io error: "@ + s@,
            StorageError::Internal(s) => r@ == "internal error: "@ + s@,
        },
{
}

/// What the errors of an engine say: where a machine or the store is at fault, what
/// that error says.
pub proof fn law_engine_errors_say(e: EngineError, r: String, inner: String)
    requires
        call_ensures(EngineError::message, (&e,), r),
        e matches EngineError::Core(x) ==> call_ensures(CoreError::message, (&x,), inner),
        e matches EngineError::Storage(x) ==> call_ensures(StorageError::message, (&x,), inner),
    ensures
        match e {
            EngineError::Core(_) => r@ == "core error: "@ + inner@,
            EngineError::Storage(_) => r@ == "storage error: "@ + inner@,
            EngineError::MachineNotFound(s) => r@ == "machine not found: '"@ + s@ + "'"@,
            EngineError::EntityLocked(s) => r@ == "entity locked: '"@ + s@ + "'"@,
            EngineError::ShuttingDown => r@ == "engine is shutting down"@,
        },
{
}

/// What the errors of the protocol say.
pub proof fn law_protocol_errors_say(e: ProtoError, r: String)
    requires
        call_ensures(ProtoError::message, (&e,), r),
    ensures
        match e {
            ProtoError::Io(s) => r@ == "io error: "@ + s@,
            ProtoError::InvalidFrameType(_) => "invalid frame type: 0x"@.is_prefix_of(r@)
                && r@.len()
                == "invalid frame type: 0x"@.len() + 2,
            ProtoError::FrameTooLarge { size, max } => r@ == "frame too large: "@ + decimal(
                size as nat,
            ) + " bytes exceeds maximum "@ + decimal(max as nat) + " bytes"@,
            ProtoError::DeserializationError(s) => r@ == "deserialization error: "@ + s@,
            ProtoError::SerializationError(s) => r@ == "serialization error: "@ + s@,
            ProtoError::IncompleteFrame => r@ == "incomplete frame"@,
            ProtoError::InvalidHandshake(s) => r@ == "invalid handshake: "@ + s@,
        },
{
}

/// What the errors of a connection say, seen by the server.
pub proof fn law_wire_errors_say(e: WireError, r: String, inner: String)
    requires
        call_ensures(WireError::message, (&e,), r),
        e matches WireError::Proto(x) ==> call_ensures(ProtoError::message, (&x,), inner),
        e matches WireError::Engine(x) ==> call_ensures(EngineError::message, (&x,), inner),
    ensures
        match e {
            WireError::Io(s) => r@ == "io error: "@ + s@,
            WireError::Proto(_) => r@ == "protocol error: "@ + inner@,
            WireError::Engine(_) => r@ == "engine error: "@ + inner@,
            WireError::Tls(s) => r@ == "tls error: "@ + s@,
            WireError::Auth(s) => r@ == "auth error: "@ + s@,
            WireError::SessionNotFound(s) => r@ == "session not found: "@ + s@,
            WireError::ConnectionClosed => r@ == "connection closed"@,
        },
{
}

/// What the errors of a client say.
pub proof fn law_client_errors_say(e: SdkError, r: String, inner: String)
    requires
        call_ensures(SdkError::message, (&e,), r),
        e matches SdkError::Proto(x) ==> call_ensures(ProtoError::message, (&x,), inner),
    ensures
        match e {
            SdkError::ConnectionFailed(s) => r@ == "connection failed: "@ + s@,
            SdkError::AuthFailed(s) => r@ == "authentication failed: "@ + s@,
            SdkError::Timeout => r@ == "request timed out"@,
            SdkError::Rejected { code, message, .. } => r@ == "transition rejected: ["@ + code@
                + "] "@ + message@,
            SdkError::Proto(_) => r@ == "proto error: "@ + inner@,
            SdkError::Io(s) => r@ == "io error: "@ + s@,
            SdkError::Disconnected => r@ == "disconnected from server"@,
            SdkError::Internal(s) => r@ == "internal error: "@ + s@,
        },
{
}

} // verus!
