//! Errors of the engine.
use crate::fsm::error::{CoreError, CoreErrorView};
use crate::storage::error::{StorageError, StorageErrorView};
use vstd::prelude::*;

verus! {

/// An error of the engine.
#[derive(Debug)]
pub enum EngineError {
    /// The definition or the request is wrong.
    Core(CoreError),
    /// The store refused or failed.
    Storage(StorageError),
    /// No machine has the name.
    MachineNotFound(String),
    /// Another request holds the entity.
    EntityLocked(String),
    /// The engine takes no more requests.
    ShuttingDown,
}

/// The contents of an `EngineError`.
pub enum EngineErrorView {
    Core(CoreErrorView),
    Storage(StorageErrorView),
    MachineNotFound(Seq<char>),
    EntityLocked(Seq<char>),
    ShuttingDown,
}

impl View for EngineError {
    type V = EngineErrorView;

    open spec fn view(&self) -> EngineErrorView {
        match *self {
            EngineError::Core(e) => EngineErrorView::Core(e@),
            EngineError::Storage(e) => EngineErrorView::Storage(e@),
            EngineError::MachineNotFound(s) => EngineErrorView::MachineNotFound(s@),
            EngineError::EntityLocked(s) => EngineErrorView::EntityLocked(s@),
            EngineError::ShuttingDown => EngineErrorView::ShuttingDown,
        }
    }
}

impl EngineErrorView {
    /// Whether the store failed, and not what was asked.
    pub open spec fn is_fault(self) -> bool {
        self is Storage && self->Storage_0.is_fault()
    }

    /// The error in words.
    pub open spec fn message(self) -> Seq<char> {
        match self {
            EngineErrorView::Core(e) => "core error: "@ + e.message(),
            EngineErrorView::Storage(e) => "storage error: "@ + e.message(),
            EngineErrorView::MachineNotFound(s) => "machine not found: '"@ + s + "'"@,
            EngineErrorView::EntityLocked(s) => "entity locked: '"@ + s + "'"@,
            EngineErrorView::ShuttingDown => "engine is shutting down"@,
        }
    }
}

impl EngineError {
    /// The error in words.
    pub fn message(&self) -> (r: String)
        ensures
            r@ == self@.message(),
    {
        match self {
            EngineError::Core(e) => "core error: ".to_owned().concat(e.message().as_str()),
            EngineError::Storage(e) => "storage error: ".to_owned().concat(e.message().as_str()),
            EngineError::MachineNotFound(s) => "machine not found: '".to_owned().concat(s).concat(
                "'",
            ),
            EngineError::EntityLocked(s) => "entity locked: '".to_owned().concat(s).concat("'"),
            EngineError::ShuttingDown => "engine is shutting down".to_owned(),
        }
    }
}

} // verus!
