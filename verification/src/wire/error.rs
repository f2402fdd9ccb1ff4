//! Errors of a connection.
use crate::engine::error::{EngineError, EngineErrorView};
use crate::proto::error::{ProtoError, ProtoErrorView};
use vstd::prelude::*;

verus! {

/// An error of a connection.
#[derive(Debug)]
pub enum WireError {
    /// The connection could not be read or written.
    Io(String),
    /// The peer broke the protocol.
    Proto(ProtoError),
    /// The engine failed.
    Engine(EngineError),
    /// The connection could not be encrypted.
    Tls(String),
    /// The peer could not be authenticated.
    Auth(String),
    /// There is no such session.
    SessionNotFound(String),
    /// The peer is gone.
    ConnectionClosed,
}

/// The contents of a `WireError`.
pub enum WireErrorView {
    Io(Seq<char>),
    Proto(ProtoErrorView),
    Engine(EngineErrorView),
    Tls(Seq<char>),
    Auth(Seq<char>),
    SessionNotFound(Seq<char>),
    ConnectionClosed,
}

impl View for WireError {
    type V = WireErrorView;

    open spec fn view(&self) -> WireErrorView {
        match *self {
            WireError::Io(s) => WireErrorView::Io(s@),
            WireError::Proto(e) => WireErrorView::Proto(e@),
            WireError::Engine(e) => WireErrorView::Engine(e@),
            WireError::Tls(s) => WireErrorView::Tls(s@),
            WireError::Auth(s) => WireErrorView::Auth(s@),
            WireError::SessionNotFound(s) => WireErrorView::SessionNotFound(s@),
            WireError::ConnectionClosed => WireErrorView::ConnectionClosed,
        }
    }
}

impl WireErrorView {
    /// The error in words.
    pub open spec fn message(self) -> Seq<char> {
        match self {
            WireErrorView::Io(s) => "io error: "@ + s,
            WireErrorView::Proto(e) => "protocol error: "@ + e.message(),
            WireErrorView::Engine(e) => "engine error: "@ + e.message(),
            WireErrorView::Tls(s) => "tls error: "@ + s,
            WireErrorView::Auth(s) => "auth error: "@ + s,
            WireErrorView::SessionNotFound(s) => "session not found: "@ + s,
            WireErrorView::ConnectionClosed => "connection closed"@,
        }
    }
}

impl WireError {
    /// The error in words.
    pub fn message(&self) -> (r: String)
        ensures
            r@ == self@.message(),
    {
        match self {
            WireError::Io(s) => "io error: ".to_owned().concat(s),
            WireError::Proto(e) => "protocol error: ".to_owned().concat(e.message().as_str()),
            WireError::Engine(e) => "engine error: ".to_owned().concat(e.message().as_str()),
            WireError::Tls(s) => "tls error: ".to_owned().concat(s),
            WireError::Auth(s) => "auth error: ".to_owned().concat(s),
            WireError::SessionNotFound(s) => "session not found: ".to_owned().concat(s),
            WireError::ConnectionClosed => "connection closed".to_owned(),
        }
    }
}

} // verus!
