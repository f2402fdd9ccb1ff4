//! Frames: a tag, a length and a body.
use crate::proto::constants::MAX_FRAME_SIZE;
use crate::proto::error::{ProtoError, ProtoErrorView};
use vstd::prelude::*;

verus! {

#[verifier::external_type_specification]
#[verifier::external_body]
pub struct ExBytes(bytes::Bytes);

#[verifier::external_type_specification]
#[verifier::external_body]
pub struct ExBytesMut(bytes::BytesMut);

/// The bytes of a `bytes::Bytes`.
pub uninterp spec fn held(b: bytes::Bytes) -> Seq<u8>;

/// The bytes of a `bytes::BytesMut`.
pub uninterp spec fn buffered(b: bytes::BytesMut) -> Seq<u8>;

/// `bytes::Bytes::len`.
pub assume_specification[ bytes::Bytes::len ](b: &bytes::Bytes) -> (n: usize)
    ensures
        n == held(*b).len(),
;

/// `bytes::Bytes::clone` shares the bytes.
pub assume_specification[ <bytes::Bytes as Clone>::clone ](b: &bytes::Bytes) -> (c: bytes::Bytes)
    ensures
        held(c) == held(*b),
;

/// `bytes::Bytes::from` takes a vector over.
#[verifier::external_body]
pub(crate) fn bytes_of(v: Vec<u8>) -> (b: bytes::Bytes)
    ensures
        held(b) == v@,
{
    bytes::Bytes::from(v)
}

/// `bytes::Bytes::to_vec` copies the bytes out.
#[verifier::external_body]
pub(crate) fn vec_of(b: &bytes::Bytes) -> (v: Vec<u8>)
    ensures
        v@ == held(*b),
{
    b.to_vec()
}

/// `bytes::BytesMut::len`.
pub assume_specification[ bytes::BytesMut::len ](b: &bytes::BytesMut) -> (n: usize)
    ensures
        n == buffered(*b).len(),
;

/// Indexing a `bytes::BytesMut`.
#[verifier::external_body]
fn byte_at(b: &bytes::BytesMut, i: usize) -> (r: u8)
    requires
        i < buffered(*b).len(),
    ensures
        r == buffered(*b)[i as int],
{
    b[i]
}

/// `bytes::BytesMut::reserve` makes room and changes no byte. More than a
/// machine can address cannot be reserved.
#[verifier::external_body]
fn reserve(b: &mut bytes::BytesMut, additional: usize)
    requires
        buffered(*old(b)).len() + additional <= isize::MAX,
    ensures
        buffered(*final(b)) == buffered(*old(b)),
{
    b.reserve(additional)
}

/// `bytes::Buf::advance` drops bytes at the front.
#[verifier::external_body]
fn advance(b: &mut bytes::BytesMut, n: usize)
    requires
        n <= buffered(*old(b)).len(),
    ensures
        buffered(*final(b)) == buffered(*old(b)).skip(n as int),
{
    bytes::Buf::advance(b, n)
}

/// `bytes::BytesMut::split_to`, then `freeze`: takes bytes off the front.
#[verifier::external_body]
fn take_front(b: &mut bytes::BytesMut, n: usize) -> (front: bytes::Bytes)
    requires
        n <= buffered(*old(b)).len(),
    ensures
        held(front) == buffered(*old(b)).take(n as int),
        buffered(*final(b)) == buffered(*old(b)).skip(n as int),
{
    b.split_to(n).freeze()
}

/// `bytes::BufMut::put_u8` appends a byte.
#[verifier::external_body]
fn append_u8(b: &mut bytes::BytesMut, n: u8)
    requires
        buffered(*old(b)).len() + 1 <= isize::MAX,
    ensures
        buffered(*final(b)) == buffered(*old(b)).push(n),
{
    bytes::BufMut::put_u8(b, n)
}

/// `bytes::BufMut::put_u32` appends a number, its highest byte first.
#[verifier::external_body]
fn append_u32(b: &mut bytes::BytesMut, n: u32)
    requires
        buffered(*old(b)).len() + 4 <= isize::MAX,
    ensures
        buffered(*final(b)) == buffered(*old(b)) + big_endian(n),
{
    bytes::BufMut::put_u32(b, n)
}

/// `bytes::BufMut::put` appends all the bytes.
#[verifier::external_body]
fn append(b: &mut bytes::BytesMut, body: bytes::Bytes)
    requires
        buffered(*old(b)).len() + held(body).len() <= isize::MAX,
    ensures
        buffered(*final(b)) == buffered(*old(b)) + held(body),
{
    bytes::BufMut::put(b, body)
}

/// A number in four bytes, the highest first.
pub open spec fn big_endian(n: u32) -> Seq<u8> {
    seq![
        (n / 0x100_0000) as u8,
        (n / 0x1_0000 % 0x100) as u8,
        (n / 0x100 % 0x100) as u8,
        (n % 0x100) as u8,
    ]
}

/// The number that four bytes write, the highest first.
pub open spec fn number_at(s: Seq<u8>, i: int) -> nat {
    (s[i] * 0x100_0000 + s[i + 1] * 0x1_0000 + s[i + 2] * 0x100 + s[i + 3]) as nat
}

/// What a frame is for.
#[derive(Debug, Clone, Copy, PartialEq, Eq, Structural)]
pub enum FrameTag {
    Startup,
    Auth,
    DefineMachine,
    Transition,
    Current,
    History,
    Subscribe,
    Ack,
    Unsubscribe,
    Ping,
    Terminate,
    Ready,
    AuthOk,
    AuthError,
    Result,
    Rejection,
    ChangeRecord,
    Notice,
    Error,
    Pong,
}

impl FrameTag {
    /// The byte of the tag in the registry.
    pub open spec fn code(self) -> u8 {
        match self {
            FrameTag::Startup => 0x01,
            FrameTag::Auth => 0x02,
            FrameTag::DefineMachine => 0x10,
            FrameTag::Transition => 0x11,
            FrameTag::Current => 0x12,
            FrameTag::History => 0x13,
            FrameTag::Subscribe => 0x20,
            FrameTag::Ack => 0x21,
            FrameTag::Unsubscribe => 0x22,
            FrameTag::Ping => 0x30,
            FrameTag::Terminate => 0x31,
            FrameTag::Ready => 0x80,
            FrameTag::AuthOk => 0x81,
            FrameTag::AuthError => 0x82,
            FrameTag::Result => 0x90,
            FrameTag::Rejection => 0x91,
            FrameTag::ChangeRecord => 0xA0,
            FrameTag::Notice => 0xB0,
            FrameTag::Error => 0xB1,
            FrameTag::Pong => 0xC0,
        }
    }

    /// The tag with a byte.
    pub open spec fn coded(byte: u8) -> Option<FrameTag> {
        match byte {
            0x01 => Some(FrameTag::Startup),
            0x02 => Some(FrameTag::Auth),
            0x10 => Some(FrameTag::DefineMachine),
            0x11 => Some(FrameTag::Transition),
            0x12 => Some(FrameTag::Current),
            0x13 => Some(FrameTag::History),
            0x20 => Some(FrameTag::Subscribe),
            0x21 => Some(FrameTag::Ack),
            0x22 => Some(FrameTag::Unsubscribe),
            0x30 => Some(FrameTag::Ping),
            0x31 => Some(FrameTag::Terminate),
            0x80 => Some(FrameTag::Ready),
            0x81 => Some(FrameTag::AuthOk),
            0x82 => Some(FrameTag::AuthError),
            0x90 => Some(FrameTag::Result),
            0x91 => Some(FrameTag::Rejection),
            0xA0 => Some(FrameTag::ChangeRecord),
            0xB0 => Some(FrameTag::Notice),
            0xB1 => Some(FrameTag::Error),
            0xC0 => Some(FrameTag::Pong),
            _ => None,
        }
    }

    /// The name of the tag in the registry.
    pub open spec fn named(self) -> Seq<char> {
        match self {
            FrameTag::Startup => "Startup"@,
            FrameTag::Auth => "Auth"@,
            FrameTag::DefineMachine => "DefineMachine"@,
            FrameTag::Transition => "Transition"@,
            FrameTag::Current => "Current"@,
            FrameTag::History => "History"@,
            FrameTag::Subscribe => "Subscribe"@,
            FrameTag::Ack => "Ack"@,
            FrameTag::Unsubscribe => "Unsubscribe"@,
            FrameTag::Ping => "Ping"@,
            FrameTag::Terminate => "Terminate"@,
            FrameTag::Ready => "Ready"@,
            FrameTag::AuthOk => "AuthOk"@,
            FrameTag::AuthError => "AuthError"@,
            FrameTag::Result => "Result"@,
            FrameTag::Rejection => "Rejection"@,
            FrameTag::ChangeRecord => "ChangeRecord"@,
            FrameTag::Notice => "Notice"@,
            FrameTag::Error => "Error"@,
            FrameTag::Pong => "Pong"@,
        }
    }

    /// The name of the tag in the registry.
    pub fn name(self) -> (r: &'static str)
        ensures
            r@ == self.named(),
    {
        match self {
            FrameTag::Startup => "Startup",
            FrameTag::Auth => "Auth",
            FrameTag::DefineMachine => "DefineMachine",
            FrameTag::Transition => "Transition",
            FrameTag::Current => "Current",
            FrameTag::History => "History",
            FrameTag::Subscribe => "Subscribe",
            FrameTag::Ack => "Ack",
            FrameTag::Unsubscribe => "Unsubscribe",
            FrameTag::Ping => "Ping",
            FrameTag::Terminate => "Terminate",
            FrameTag::Ready => "Ready",
            FrameTag::AuthOk => "AuthOk",
            FrameTag::AuthError => "AuthError",
            FrameTag::Result => "Result",
            FrameTag::Rejection => "Rejection",
            FrameTag::ChangeRecord => "ChangeRecord",
            FrameTag::Notice => "Notice",
            FrameTag::Error => "Error",
            FrameTag::Pong => "Pong",
        }
    }

    /// The byte of the tag in the registry.
    pub fn to_byte(self) -> (r: u8)
        ensures
            r == self.code(),
    {
        match self {
            FrameTag::Startup => 0x01,
            FrameTag::Auth => 0x02,
            FrameTag::DefineMachine => 0x10,
            FrameTag::Transition => 0x11,
            FrameTag::Current => 0x12,
            FrameTag::History => 0x13,
            FrameTag::Subscribe => 0x20,
            FrameTag::Ack => 0x21,
            FrameTag::Unsubscribe => 0x22,
            FrameTag::Ping => 0x30,
            FrameTag::Terminate => 0x31,
            FrameTag::Ready => 0x80,
            FrameTag::AuthOk => 0x81,
            FrameTag::AuthError => 0x82,
            FrameTag::Result => 0x90,
            FrameTag::Rejection => 0x91,
            FrameTag::ChangeRecord => 0xA0,
            FrameTag::Notice => 0xB0,
            FrameTag::Error => 0xB1,
            FrameTag::Pong => 0xC0,
        }
    }
}

impl TryFrom<u8> for FrameTag {
    type Error = ProtoError;

    fn try_from(byte: u8) -> (r: Result<Self, ProtoError>) {
        match byte {
            0x01 => Ok(FrameTag::Startup),
            0x02 => Ok(FrameTag::Auth),
            0x10 => Ok(FrameTag::DefineMachine),
            0x11 => Ok(FrameTag::Transition),
            0x12 => Ok(FrameTag::Current),
            0x13 => Ok(FrameTag::History),
            0x20 => Ok(FrameTag::Subscribe),
            0x21 => Ok(FrameTag::Ack),
            0x22 => Ok(FrameTag::Unsubscribe),
            0x30 => Ok(FrameTag::Ping),
            0x31 => Ok(FrameTag::Terminate),
            0x80 => Ok(FrameTag::Ready),
            0x81 => Ok(FrameTag::AuthOk),
            0x82 => Ok(FrameTag::AuthError),
            0x90 => Ok(FrameTag::Result),
            0x91 => Ok(FrameTag::Rejection),
            0xA0 => Ok(FrameTag::ChangeRecord),
            0xB0 => Ok(FrameTag::Notice),
            0xB1 => Ok(FrameTag::Error),
            0xC0 => Ok(FrameTag::Pong),
            other => Err(ProtoError::InvalidFrameType(other)),
        }
    }
}

impl vstd::std_specs::convert::TryFromSpecImpl<u8> for FrameTag {
    open spec fn obeys_try_from_spec() -> bool {
        true
    }

    open spec fn try_from_spec(byte: u8) -> Result<Self, ProtoError> {
        match FrameTag::coded(byte) {
            Some(tag) => Ok(tag),
            None => Err(ProtoError::InvalidFrameType(byte)),
        }
    }
}

/// The registry gives every tag a byte of its own.
pub proof fn law_tags_have_their_own_bytes(tag: FrameTag, byte: u8)
    ensures
        FrameTag::coded(tag.code()) == Some(tag),
        FrameTag::coded(byte) == Some(tag) <==> byte == tag.code(),
{
}

/// A frame.
#[derive(Debug)]
pub struct Frame {
    pub tag: FrameTag,
    pub body: bytes::Bytes,
}

/// The contents of a `Frame`.
#[verifier::ext_equal]
pub struct FrameView {
    pub tag: FrameTag,
    pub body: Seq<u8>,
}

impl View for Frame {
    type V = FrameView;

    open spec fn view(&self) -> FrameView {
        FrameView { tag: self.tag, body: held(self.body) }
    }
}

impl Clone for Frame {
    fn clone(&self) -> (r: Self)
        ensures
            r@ == self@,
    {
        Frame { tag: self.tag, body: self.body.clone() }
    }
}

/// A tag takes one byte, a length four.
pub const HEADER_LEN: usize = 5;

impl FrameView {
    /// The bytes of a frame. Of a length that does not fit four bytes the lower
    /// part is written.
    pub open spec fn encoded(self) -> Seq<u8> {
        seq![self.tag.code()] + big_endian((self.body.len() % 0x1_0000_0000) as u32) + self.body
    }
}

/// What reading a frame from the front of a buffer gives: the frame and the
/// rest; nothing yet; or an error.
pub open spec fn decoded(s: Seq<u8>) -> Result<Option<(FrameView, Seq<u8>)>, ProtoErrorView> {
    if s.len() < HEADER_LEN {
        Ok(None)
    } else {
        let length = number_at(s, 1);
        if length > MAX_FRAME_SIZE {
            Err(ProtoErrorView::FrameTooLarge { size: length as u32, max: MAX_FRAME_SIZE })
        } else if s.len() < HEADER_LEN + length {
            Ok(None)
        } else {
            match FrameTag::coded(s[0]) {
                Some(tag) => Ok(
                    Some(
                        (
                            FrameView {
                                tag,
                                body: s.subrange(HEADER_LEN as int, HEADER_LEN + length as int),
                            },
                            s.skip(HEADER_LEN + length as int),
                        ),
                    ),
                ),
                None => Err(ProtoErrorView::InvalidFrameType(s[0])),
            }
        }
    }
}

/// Reads and writes frames.
#[derive(Debug, Default, Clone, Copy)]
pub struct FrameCodec;

impl FrameCodec {
    /// Takes the first frame off a buffer, if it is there in full.
    pub fn decode(&mut self, src: &mut bytes::BytesMut) -> (r: Result<Option<Frame>, ProtoError>)
        ensures
            match decoded(buffered(*old(src))) {
                Ok(Some((frame, rest))) => r matches Ok(Some(f)) && f@ == frame && buffered(
                    *final(src),
                ) == rest,
                Ok(None) => r matches Ok(None) && buffered(*final(src)) == buffered(*old(src)),
                Err(e) => r matches Err(x) && x@ == e && buffered(*final(src)) == buffered(
                    *old(src),
                ),
            },
    {
        let ghost s = buffered(*src);
        if src.len() < HEADER_LEN {
            return Ok(None);
        }
        let tag_byte = byte_at(src, 0);
        let b1 = byte_at(src, 1);
        let b2 = byte_at(src, 2);
        let b3 = byte_at(src, 3);
        let b4 = byte_at(src, 4);
        let length: u32 = b1 as u32 * 0x100_0000 + b2 as u32 * 0x1_0000 + b3 as u32 * 0x100
            + b4 as u32;
        assert(length == number_at(s, 1));
        if length > MAX_FRAME_SIZE {
            return Err(ProtoError::FrameTooLarge { size: length, max: MAX_FRAME_SIZE });
        }
        let total: usize = HEADER_LEN + length as usize;
        let have = src.len();
        if have < total {
            reserve(src, total - have);
            return Ok(None);
        }
        let tag = match FrameTag::try_from(tag_byte) {
            Ok(tag) => tag,
            Err(e) => {
                return Err(e);
            },
        };
        advance(src, HEADER_LEN);
        let body = take_front(src, length as usize);
        proof {
            let rest = s.skip(HEADER_LEN as int);
            assert(rest.take(length as int) =~= s.subrange(5, 5 + length as int));
            assert(rest.skip(length as int) =~= s.skip(5 + length as int));
        }
        Ok(Some(Frame { tag, body }))
    }

    /// Appends a frame to a buffer.
    pub fn encode(&mut self, frame: Frame, dst: &mut bytes::BytesMut) -> (r: Result<
        (),
        ProtoError,
    >)
        requires
            buffered(*old(dst)).len() + HEADER_LEN + held(frame.body).len() <= isize::MAX,
        ensures
            r is Ok,
            buffered(*final(dst)) == buffered(*old(dst)) + frame@.encoded(),
    {
        let ghost before = buffered(*dst);
        let n = frame.body.len();
        let length = (n as u64 % 0x1_0000_0000) as u32;
        reserve(dst, HEADER_LEN + n);
        append_u8(dst, frame.tag.to_byte());
        append_u32(dst, length);
        let ghost body = held(frame.body);
        append(dst, frame.body);
        assert(buffered(*dst) =~= before + frame@.encoded());
        Ok(())
    }
}

/// Four bytes that write a number read back as that number.
pub proof fn lemma_big_endian(n: u32)
    ensures
        big_endian(n).len() == 4,
        number_at(big_endian(n), 0) == n,
{
    let a = n / 0x100_0000;
    let b = n / 0x1_0000 % 0x100;
    let c = n / 0x100 % 0x100;
    let d = n % 0x100;
    assert(a * 0x100_0000 + b * 0x1_0000 + c * 0x100 + d == n);
}

/// A frame that was written, followed by anything, reads back as itself and
/// leaves what follows.
pub proof fn law_frames_read_back(frame: FrameView, rest: Seq<u8>)
    requires
        frame.body.len() <= MAX_FRAME_SIZE,
    ensures
        decoded(frame.encoded() + rest) == Ok::<Option<(FrameView, Seq<u8>)>, ProtoErrorView>(
            Some((frame, rest)),
        ),
{
    let n = frame.body.len() as u32;
    let s = frame.encoded() + rest;
    lemma_big_endian(n);
    assert(s[0] == frame.tag.code());
    assert(s[1] == big_endian(n)[0] && s[2] == big_endian(n)[1] && s[3] == big_endian(n)[2] && s[4]
        == big_endian(n)[3]);
    assert(number_at(s, 1) == n);
    law_tags_have_their_own_bytes(frame.tag, s[0]);
    assert(s.subrange(5, 5 + n as int) =~= frame.body);
    assert(s.skip(5 + n as int) =~= rest);
}

/// A frame that has not arrived in full is left in the buffer, and is no error.
pub proof fn law_partial_frames_wait(frame: FrameView, n: int)
    requires
        frame.body.len() <= MAX_FRAME_SIZE,
        0 <= n < frame.encoded().len(),
    ensures
        decoded(frame.encoded().take(n)) == Ok::<
            Option<(FrameView, Seq<u8>)>,
            ProtoErrorView,
        >(None),
{
    let len = frame.body.len() as u32;
    let s = frame.encoded().take(n);
    lemma_big_endian(len);
    if n >= 5 {
        assert(s[1] == big_endian(len)[0] && s[2] == big_endian(len)[1] && s[3] == big_endian(
            len,
        )[2] && s[4] == big_endian(len)[3]);
        assert(number_at(s, 1) == len);
    }
}

} // verus!
