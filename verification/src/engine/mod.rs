//! The engine: it plans transitions, executes them against a store, and
//! delivers what happened to subscribers.
pub mod config;
pub mod error;
pub mod guard;
pub mod stream;
pub mod engine;
pub mod outcome;
pub mod define;
pub mod laws;
pub mod projection;
pub mod runs;
pub mod asking;
pub mod calls;
pub mod defining;
pub mod steering;
pub mod streaming;
pub mod delivery;
