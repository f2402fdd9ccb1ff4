//! Errors of the protocol.
use crate::text::{decimal, decimal_of};
use vstd::prelude::*;

verus! {

/// An error of the protocol.
#[derive(Debug)]
pub enum ProtoError {
    /// The connection could not be read or written.
    Io(String),
    /// A frame has a tag that is not in the registry.
    InvalidFrameType(u8),
    /// A frame says that its body is longer than allowed.
    FrameTooLarge { size: u32, max: u32 },
    /// A body could not be read.
    DeserializationError(String),
    /// A body could not be written.
    SerializationError(String),
    /// A frame ended early.
    IncompleteFrame,
    /// The handshake went wrong.
    InvalidHandshake(String),
}

/// The contents of a `ProtoError`.
pub enum ProtoErrorView {
    Io(Seq<char>),
    InvalidFrameType(u8),
    FrameTooLarge { size: u32, max: u32 },
    DeserializationError(Seq<char>),
    SerializationError(Seq<char>),
    IncompleteFrame,
    InvalidHandshake(Seq<char>),
}

impl View for ProtoError {
    type V = ProtoErrorView;

    open spec fn view(&self) -> ProtoErrorView {
        match *self {
            ProtoError::Io(s) => ProtoErrorView::Io(s@),
            ProtoError::InvalidFrameType(b) => ProtoErrorView::InvalidFrameType(b),
            ProtoError::FrameTooLarge { size, max } => ProtoErrorView::FrameTooLarge { size, max },
            ProtoError::DeserializationError(s) => ProtoErrorView::DeserializationError(s@),
            ProtoError::SerializationError(s) => ProtoErrorView::SerializationError(s@),
            ProtoError::IncompleteFrame => ProtoErrorView::IncompleteFrame,
            ProtoError::InvalidHandshake(s) => ProtoErrorView::InvalidHandshake(s@),
        }
    }
}

/// The upper-case hexadecimal digit of a number below sixteen.
pub open spec fn hex_digit(d: nat) -> char {
    if d < 10 {
        (48 + d) as char
    } else {
        (55 + d) as char
    }
}

/// A byte in two upper-case hexadecimal digits.
pub open spec fn hex_byte(b: u8) -> Seq<char> {
    seq![hex_digit((b / 16) as nat), hex_digit((b % 16) as nat)]
}

impl ProtoErrorView {
    /// The error in words.
    pub open spec fn message(self) -> Seq<char> {
        match self {
            ProtoErrorView::Io(s) => "io error: "@ + s,
            ProtoErrorView::InvalidFrameType(b) => "invalid frame type: 0x"@ + hex_byte(b),
            ProtoErrorView::FrameTooLarge { size, max } => "frame too large: "@ + decimal(
                size as nat,
            ) + " bytes exceeds maximum "@ + decimal(max as nat) + " bytes"@,
            ProtoErrorView::DeserializationError(s) => "deserialization error: "@ + s,
            ProtoErrorView::SerializationError(s) => "serialization error: "@ + s,
            ProtoErrorView::IncompleteFrame => "incomplete frame"@,
            ProtoErrorView::InvalidHandshake(s) => "invalid handshake: "@ + s,
        }
    }
}

/// The upper-case hexadecimal digit of a number below sixteen.
fn hex_char(d: u8) -> (c: char)
    requires
        d < 16,
    ensures
        c == hex_digit(d as nat),
{
    if d < 10 {
        (48u8 + d) as char
    } else {
        (55u8 + d) as char
    }
}

/// A byte in two upper-case hexadecimal digits.
fn hex_of(b: u8) -> (r: String)
    ensures
        r@ == hex_byte(b),
{
    let mut r = String::new();
    r.push(hex_char(b / 16));
    r.push(hex_char(b % 16));
    assert(r@ =~= hex_byte(b));
    r
}

impl ProtoError {
    /// The error in words.
    pub fn message(&self) -> (r: String)
        ensures
            r@ == self@.message(),
    {
        match self {
            ProtoError::Io(s) => "io error: ".to_owned().concat(s),
            ProtoError::InvalidFrameType(b) => "invalid frame type: 0x".to_owned().concat(
                hex_of(*b).as_str(),
            ),
            ProtoError::FrameTooLarge { size, max } => "frame too large: ".to_owned().concat(
                decimal_of(*size as u64).as_str(),
            ).concat(" bytes exceeds maximum ").concat(decimal_of(*max as u64).as_str()).concat(
                " bytes",
            ),
            ProtoError::DeserializationError(s) => "deserialization error: ".to_owned().concat(s),
            ProtoError::SerializationError(s) => "serialization error: ".to_owned().concat(s),
            ProtoError::IncompleteFrame => "incomplete frame".to_owned(),
            ProtoError::InvalidHandshake(s) => "invalid handshake: ".to_owned().concat(s),
        }
    }
}

} // verus!
