//! The store: what it holds, the interface to it, and an embedded
//! implementation.
pub mod error;
pub mod tables;
pub mod rows;
pub mod model;
pub mod engine;
pub mod raw;
pub mod keys;
pub mod reading;
pub mod soundness;
pub mod redb_engine;
pub mod laws;
pub mod calls;
