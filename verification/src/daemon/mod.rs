//! The daemon: its settings and what it says of itself.
pub mod config;
pub mod health;
pub mod file;
pub mod settling;
