//! The server's side of a connection.
pub mod config;
pub mod tls;
pub mod error;
pub mod reply;
pub mod session;
pub mod handshake;
pub mod commands;
pub mod streams;
pub mod server;
pub mod refusing;
pub mod shapes;
pub mod calls;
pub mod closing;
pub mod following;
pub mod opening;
pub mod pem;
