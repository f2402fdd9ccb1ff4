//! Errors of a client.
use crate::proto::error::{ProtoError, ProtoErrorView};
use crate::text::opt_text;
use vstd::prelude::*;

verus! {

/// An error of a client.
#[derive(Debug)]
pub enum SdkError {
    /// There is no connection.
    ConnectionFailed(String),
    /// The server does not know the token.
    AuthFailed(String),
    /// No reply came in time.
    Timeout,
    /// The server refused a request.
    Rejected {
        code: String,
        message: String,
        current_state: Option<String>,
        version: Option<u64>,
    },
    /// A frame could not be written or read.
    Proto(ProtoError),
    /// The connection could not be read or written.
    Io(String),
    /// The connection was lost.
    Disconnected,
    /// The server failed, or answered what it should not.
    Internal(String),
}

/// The contents of an `SdkError`.
pub enum SdkErrorView {
    ConnectionFailed(Seq<char>),
    AuthFailed(Seq<char>),
    Timeout,
    Rejected {
        code: Seq<char>,
        message: Seq<char>,
        current_state: Option<Seq<char>>,
        version: Option<u64>,
    },
    Proto(ProtoErrorView),
    Io(Seq<char>),
    Disconnected,
    Internal(Seq<char>),
}

impl View for SdkError {
    type V = SdkErrorView;

    open spec fn view(&self) -> SdkErrorView {
        match *self {
            SdkError::ConnectionFailed(s) => SdkErrorView::ConnectionFailed(s@),
            SdkError::AuthFailed(s) => SdkErrorView::AuthFailed(s@),
            SdkError::Timeout => SdkErrorView::Timeout,
            SdkError::Rejected { code, message, current_state, version } => SdkErrorView::Rejected {
                code: code@,
                message: message@,
                current_state: opt_text(current_state),
                version,
            },
            SdkError::Proto(e) => SdkErrorView::Proto(e@),
            SdkError::Io(s) => SdkErrorView::Io(s@),
            SdkError::Disconnected => SdkErrorView::Disconnected,
            SdkError::Internal(s) => SdkErrorView::Internal(s@),
        }
    }
}

impl SdkErrorView {
    /// The error in words.
    pub open spec fn message(self) -> Seq<char> {
        match self {
            SdkErrorView::ConnectionFailed(s) => "connection failed: "@ + s,
            SdkErrorView::AuthFailed(s) => "authentication failed: "@ + s,
            SdkErrorView::Timeout => "request timed out"@,
            SdkErrorView::Rejected { code, message, .. } => "transition rejected: ["@ + code
                + "] "@ + message,
            SdkErrorView::Proto(e) => "proto error: "@ + e.message(),
            SdkErrorView::Io(s) => "io error: "@ + s,
            SdkErrorView::Disconnected => "disconnected from server"@,
            SdkErrorView::Internal(s) => "internal error: "@ + s,
        }
    }
}

impl SdkError {
    /// The error in words.
    pub fn message(&self) -> (r: String)
        ensures
            r@ == self@.message(),
    {
        match self {
            SdkError::ConnectionFailed(s) => "connection failed: ".to_owned().concat(s),
            SdkError::AuthFailed(s) => "authentication failed: ".to_owned().concat(s),
            SdkError::Timeout => "request timed out".to_owned(),
            SdkError::Rejected { code, message, .. } => "transition rejected: [".to_owned().concat(
                code,
            ).concat("] ").concat(message),
            SdkError::Proto(e) => "proto error: ".to_owned().concat(e.message().as_str()),
            SdkError::Io(s) => "io error: ".to_owned().concat(s),
            SdkError::Disconnected => "disconnected from server".to_owned(),
            SdkError::Internal(s) => "internal error: ".to_owned().concat(s),
        }
    }
}

} // verus!
