//! What can be wrong with a definition or a requested transition.
use crate::text::{decimal, decimal_of};
use vstd::prelude::*;

verus! {

/// An error of the planner.
#[derive(Debug, Clone)]
pub enum CoreError {
    /// No rule of the machine leads away from the state on the event.
    IllegalTransition {
        entity_id: String,
        machine: String,
        event: String,
        current_state: String,
    },
    /// A guard vetoed the transition.
    GuardFailed { guard_name: String, reason: String },
    /// The entity moved on since the caller looked at it.
    VersionConflict { entity_id: String, machine: String, expected: u64, actual: u64 },
    /// No machine has the name.
    UnknownMachine { name: String },
    /// The machine holds no such entity.
    UnknownEntity { entity_id: String, machine: String },
    /// The definition contradicts itself.
    InvalidDefinition { reason: String },
    /// The definition lists a state twice.
    DuplicateState { name: String },
    /// The definition lists an event twice.
    DuplicateEvent { name: String },
}

/// The contents of a `CoreError`.
pub enum CoreErrorView {
    IllegalTransition {
        entity_id: Seq<char>,
        machine: Seq<char>,
        event: Seq<char>,
        current_state: Seq<char>,
    },
    GuardFailed { guard_name: Seq<char>, reason: Seq<char> },
    VersionConflict { entity_id: Seq<char>, machine: Seq<char>, expected: u64, actual: u64 },
    UnknownMachine { name: Seq<char> },
    UnknownEntity { entity_id: Seq<char>, machine: Seq<char> },
    InvalidDefinition { reason: Seq<char> },
    DuplicateState { name: Seq<char> },
    DuplicateEvent { name: Seq<char> },
}

impl View for CoreError {
    type V = CoreErrorView;

    open spec fn view(&self) -> CoreErrorView {
        match *self {
            CoreError::IllegalTransition { entity_id, machine, event, current_state } =>
                CoreErrorView::IllegalTransition {
                entity_id: entity_id@,
                machine: machine@,
                event: event@,
                current_state: current_state@,
            },
            CoreError::GuardFailed { guard_name, reason } => CoreErrorView::GuardFailed {
                guard_name: guard_name@,
                reason: reason@,
            },
            CoreError::VersionConflict { entity_id, machine, expected, actual } =>
                CoreErrorView::VersionConflict {
                entity_id: entity_id@,
                machine: machine@,
                expected,
                actual,
            },
            CoreError::UnknownMachine { name } => CoreErrorView::UnknownMachine { name: name@ },
            CoreError::UnknownEntity { entity_id, machine } => CoreErrorView::UnknownEntity {
                entity_id: entity_id@,
                machine: machine@,
            },
            CoreError::InvalidDefinition { reason } => CoreErrorView::InvalidDefinition {
                reason: reason@,
            },
            CoreError::DuplicateState { name } => CoreErrorView::DuplicateState { name: name@ },
            CoreError::DuplicateEvent { name } => CoreErrorView::DuplicateEvent { name: name@ },
        }
    }
}

impl CoreErrorView {
    /// The error in words.
    pub open spec fn message(self) -> Seq<char> {
        match self {
            CoreErrorView::IllegalTransition { entity_id, machine, event, current_state } =>
                "illegal transition: entity '"@ + entity_id + "' in machine '"@ + machine
                + "' has no transition for event '"@ + event + "' from state '"@ + current_state
                + "'"@,
            CoreErrorView::GuardFailed { guard_name, reason } => "guard '"@ + guard_name
                + "' failed: "@ + reason,
            CoreErrorView::VersionConflict { entity_id, machine, expected, actual } =>
                "version conflict: entity '"@ + entity_id + "' in machine '"@ + machine
                + "' expected version "@ + decimal(expected as nat) + " but found "@ + decimal(
                actual as nat,
            ),
            CoreErrorView::UnknownMachine { name } => "unknown machine: '"@ + name + "'"@,
            CoreErrorView::UnknownEntity { entity_id, machine } => "unknown entity '"@ + entity_id
                + "' in machine '"@ + machine + "'"@,
            CoreErrorView::InvalidDefinition { reason } => "invalid machine definition: "@
                + reason,
            CoreErrorView::DuplicateState { name } => "duplicate state: '"@ + name + "'"@,
            CoreErrorView::DuplicateEvent { name } => "duplicate event: '"@ + name + "'"@,
        }
    }
}

impl CoreError {
    /// The error in words.
    pub fn message(&self) -> (r: String)
        ensures
            r@ == self@.message(),
    {
        match self {
            CoreError::IllegalTransition { entity_id, machine, event, current_state } =>
                "illegal transition: entity '".to_owned().concat(entity_id).concat(
                "' in machine '",
            ).concat(machine).concat("' has no transition for event '").concat(event).concat(
                "' from state '",
            ).concat(current_state).concat("'"),
            CoreError::GuardFailed { guard_name, reason } => "guard '".to_owned().concat(
                guard_name,
            ).concat("' failed: ").concat(reason),
            CoreError::VersionConflict { entity_id, machine, expected, actual } =>
                "version conflict: entity '".to_owned().concat(entity_id).concat(
                "' in machine '",
            ).concat(machine).concat("' expected version ").concat(
                decimal_of(*expected).as_str(),
            ).concat(" but found ").concat(decimal_of(*actual).as_str()),
            CoreError::UnknownMachine { name } => "unknown machine: '".to_owned().concat(
                name,
            ).concat("'"),
            CoreError::UnknownEntity { entity_id, machine } => "unknown entity '".to_owned().concat(
            entity_id).concat("' in machine '").concat(machine).concat("'"),
            CoreError::InvalidDefinition { reason } =>
                "invalid machine definition: ".to_owned().concat(reason),
            CoreError::DuplicateState { name } => "duplicate state: '".to_owned().concat(
                name,
            ).concat("'"),
            CoreError::DuplicateEvent { name } => "duplicate event: '".to_owned().concat(
                name,
            ).concat("'"),
        }
    }
}

} // verus!
