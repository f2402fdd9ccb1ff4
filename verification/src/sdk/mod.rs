//! The client's side: settings, requests, replies and the state of a
//! connection.
pub mod config;
pub mod error;
pub mod retry;
pub mod request;
pub mod response;
pub mod connection;
pub mod talk;
pub mod keeping;
