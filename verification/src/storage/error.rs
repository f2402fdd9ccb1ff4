//! Errors of the store.
use crate::text::{decimal, decimal_of};
use vstd::prelude::*;

verus! {

#[verifier::external_type_specification]
#[verifier::external_body]
pub struct ExRedbError(redb::Error);

#[verifier::external_type_specification]
#[verifier::external_body]
pub struct ExRedbDatabaseError(redb::DatabaseError);

#[verifier::external_type_specification]
#[verifier::external_body]
pub struct ExRedbTransactionError(redb::TransactionError);

#[verifier::external_type_specification]
#[verifier::external_body]
pub struct ExRedbCommitError(redb::CommitError);

#[verifier::external_type_specification]
#[verifier::external_body]
pub struct ExEncodeError(rmp_serde::encode::Error);

#[verifier::external_type_specification]
#[verifier::external_body]
pub struct ExDecodeError(rmp_serde::decode::Error);

/// An error of the store.
#[derive(Debug)]
pub enum StorageError {
    /// There is no such thing.
    NotFound(String),
    /// There is such a thing already.
    AlreadyExists(String),
    /// The stored version is not the one before the new one.
    VersionConflict { entity_id: String, expected: u64, actual: u64 },
    /// A transaction could not begin or commit.
    TransactionFailed(String),
    /// Stored bytes could not be written or read as a row.
    Corrupted(String),
    /// A file could not be read or written.
    Io(String),
    /// Anything else.
    Internal(String),
}

/// The contents of a `StorageError`.
pub enum StorageErrorView {
    NotFound(Seq<char>),
    AlreadyExists(Seq<char>),
    VersionConflict { entity_id: Seq<char>, expected: u64, actual: u64 },
    TransactionFailed(Seq<char>),
    Corrupted(Seq<char>),
    Io(Seq<char>),
    Internal(Seq<char>),
}

impl View for StorageError {
    type V = StorageErrorView;

    open spec fn view(&self) -> StorageErrorView {
        match *self {
            StorageError::NotFound(s) => StorageErrorView::NotFound(s@),
            StorageError::AlreadyExists(s) => StorageErrorView::AlreadyExists(s@),
            StorageError::VersionConflict { entity_id, expected, actual } =>
                StorageErrorView::VersionConflict { entity_id: entity_id@, expected, actual },
            StorageError::TransactionFailed(s) => StorageErrorView::TransactionFailed(s@),
            StorageError::Corrupted(s) => StorageErrorView::Corrupted(s@),
            StorageError::Io(s) => StorageErrorView::Io(s@),
            StorageError::Internal(s) => StorageErrorView::Internal(s@),
        }
    }
}

impl StorageErrorView {
    /// Whether the error came from the database, the encoding or a machine
    /// limit, and not from what was asked.
    pub open spec fn is_fault(self) -> bool {
        self is TransactionFailed || self is Corrupted || self is Io || self is Internal
    }

    /// The error in words.
    pub open spec fn message(self) -> Seq<char> {
        match self {
            StorageErrorView::NotFound(s) => "not found: "@ + s,
            StorageErrorView::AlreadyExists(s) => "already exists: "@ + s,
            StorageErrorView::VersionConflict { entity_id, expected, actual } =>
                "version conflict: entity '"@ + entity_id + "' expected version "@ + decimal(
                expected as nat,
            ) + " but found "@ + decimal(actual as nat),
            StorageErrorView::TransactionFailed(s) => "transaction failed: "@ + s,
            StorageErrorView::Corrupted(s) => "corrupted data: "@ + s,
            StorageErrorView::Io(s) => "io error: "@ + s,
            StorageErrorView::Internal(s) => "internal error: "@ + s,
        }
    }
}

impl StorageError {
    /// The error in words.
    pub fn message(&self) -> (r: String)
        ensures
            r@ == self@.message(),
    {
        match self {
            StorageError::NotFound(s) => "not found: ".to_owned().concat(s),
            StorageError::AlreadyExists(s) => "already exists: ".to_owned().concat(s),
            StorageError::VersionConflict { entity_id, expected, actual } =>
                "version conflict: entity '".to_owned().concat(entity_id).concat(
                "' expected version ",
            ).concat(decimal_of(*expected).as_str()).concat(" but found ").concat(
                decimal_of(*actual).as_str(),
            ),
            StorageError::TransactionFailed(s) => "transaction failed: ".to_owned().concat(s),
            StorageError::Corrupted(s) => "corrupted data: ".to_owned().concat(s),
            StorageError::Io(s) => "io error: ".to_owned().concat(s),
            StorageError::Internal(s) => "internal error: ".to_owned().concat(s),
        }
    }

    /// A failed table operation.
    pub fn of_table(e: redb::Error) -> (r: StorageError)
        ensures
            r is Internal,
    {
        StorageError::Internal(e.to_string())
    }

    /// A database that could not be opened.
    pub fn of_database(e: redb::DatabaseError) -> (r: StorageError)
        ensures
            r is Internal,
    {
        StorageError::Internal(e.to_string())
    }

    /// A transaction that could not begin.
    pub fn of_begin(e: redb::TransactionError) -> (r: StorageError)
        ensures
            r is TransactionFailed,
    {
        StorageError::TransactionFailed(e.to_string())
    }

    /// A transaction that could not commit.
    pub fn of_commit(e: redb::CommitError) -> (r: StorageError)
        ensures
            r is TransactionFailed,
    {
        StorageError::TransactionFailed(e.to_string())
    }

    /// A row that could not be encoded.
    pub fn of_encode(e: rmp_serde::encode::Error) -> (r: StorageError)
        ensures
            r is Corrupted,
    {
        StorageError::Corrupted("serialization error: ".to_owned().concat(e.to_string().as_str()))
    }

    /// A row that could not be decoded.
    pub fn of_decode(e: rmp_serde::decode::Error) -> (r: StorageError)
        ensures
            r is Corrupted,
    {
        StorageError::Corrupted(
            "deserialization error: ".to_owned().concat(e.to_string().as_str()),
        )
    }
}

} // verus!
