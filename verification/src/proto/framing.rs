//! What frames are as bytes.
use crate::proto::error::ProtoError;
use crate::proto::frame::{
    big_endian, buffered, held, law_tags_have_their_own_bytes, lemma_big_endian, Frame, FrameCodec,
    FrameTag,
};
use vstd::prelude::*;

verus! {

/// The byte of each tag, and its name.
pub proof fn law_tags_have_their_bytes(tag: FrameTag, byte: u8, name: &'static str)
    requires
        call_ensures(FrameTag::to_byte, (tag,), byte),
        call_ensures(FrameTag::name, (tag,), name),
    ensures
        match tag {
            FrameTag::Startup => byte == 0x01 && name@ == "Startup"@,
            FrameTag::Auth => byte == 0x02 && name@ == "Auth"@,
            FrameTag::DefineMachine => byte == 0x10 && name@ == "DefineMachine"@,
            FrameTag::Transition => byte == 0x11 && name@ == "Transition"@,
            FrameTag::Current => byte == 0x12 && name@ == "Current"@,
            FrameTag::History => byte == 0x13 && name@ == "History"@,
            FrameTag::Subscribe => byte == 0x20 && name@ == "Subscribe"@,
            FrameTag::Ack => byte == 0x21 && name@ == "Ack"@,
            FrameTag::Unsubscribe => byte == 0x22 && name@ == "Unsubscribe"@,
            FrameTag::Ping => byte == 0x30 && name@ == "Ping"@,
            FrameTag::Terminate => byte == 0x31 && name@ == "Terminate"@,
            FrameTag::Ready => byte == 0x80 && name@ == "Ready"@,
            FrameTag::AuthOk => byte == 0x81 && name@ == "AuthOk"@,
            FrameTag::AuthError => byte == 0x82 && name@ == "AuthError"@,
            FrameTag::Result => byte == 0x90 && name@ == "Result"@,
            FrameTag::Rejection => byte == 0x91 && name@ == "Rejection"@,
            FrameTag::ChangeRecord => byte == 0xA0 && name@ == "ChangeRecord"@,
            FrameTag::Notice => byte == 0xB0 && name@ == "Notice"@,
            FrameTag::Error => byte == 0xB1 && name@ == "Error"@,
            FrameTag::Pong => byte == 0xC0 && name@ == "Pong"@,
        },
{
}

/// A frame is written behind what is in the buffer: the byte of its tag, the length
/// of its body in four bytes with the highest first, and the body.
pub proof fn law_frames_are_written(
    codec: &mut FrameCodec,
    frame: Frame,
    dst: &mut bytes::BytesMut,
    r: Result<(), ProtoError>,
    byte: u8,
)
    requires
        call_ensures(FrameCodec::encode, (codec, frame, dst), r),
        call_ensures(FrameTag::to_byte, (frame.tag,), byte),
        held(frame.body).len() <= u32::MAX,
    ensures
        r is Ok,
        ({
            let s = buffered(*old(dst));
            let t = buffered(*final(dst));
            let b = held(frame.body);
            let n = s.len() as int;
            &&& t.len() == n + 5 + b.len()
            &&& t.take(n) == s
            &&& t[n] == byte
            &&& t[n + 1] * 0x100_0000 + t[n + 2] * 0x1_0000 + t[n + 3] * 0x100 + t[n + 4] == b.len()
            &&& t.skip(n + 5) == b
        }),
{
    let s = buffered(*old(dst));
    let t = buffered(*final(dst));
    let b = held(frame.body);
    let n = s.len() as int;
    let len = (b.len() % 0x1_0000_0000) as u32;
    lemma_big_endian(len);
    assert(len == b.len());
    let e = seq![frame.tag.code()] + big_endian(len) + b;
    assert(t == s + e);
    assert(t[n + 1] == big_endian(len)[0] && t[n + 2] == big_endian(len)[1] && t[n + 3]
        == big_endian(len)[2] && t[n + 4] == big_endian(len)[3]);
    assert(t.take(n) =~= s);
    assert(t.skip(n + 5) =~= b);
}

/// A buffer that begins with the byte of a tag and with a length that is allowed,
/// and that has so many bytes more, is read as that frame, and what follows is left.
/// Where bytes lack it is left as it is, and so it is where the length is above the
/// limit or no tag has the byte, which are errors.
pub proof fn law_frames_are_read(
    codec: &mut FrameCodec,
    src: &mut bytes::BytesMut,
    r: Result<Option<Frame>, ProtoError>,
    tag: FrameTag,
    byte: u8,
    n: u32,
)
    requires
        call_ensures(FrameCodec::decode, (codec, src), r),
        call_ensures(FrameTag::to_byte, (tag,), byte),
        buffered(*old(src)).len() >= 5,
        ({
            let s = buffered(*old(src));
            s[1] * 0x100_0000 + s[2] * 0x1_0000 + s[3] * 0x100 + s[4] == n
        }),
    ensures
        ({
            let s = buffered(*old(src));
            &&& n > 16 * 1024 * 1024 ==> (r matches Err(x) && x@ is FrameTooLarge) && buffered(
                *final(src),
            ) == s
            &&& n <= 16 * 1024 * 1024 && s.len() < 5 + n ==> (r matches Ok(None)) && buffered(
                *final(src),
            ) == s
            &&& n <= 16 * 1024 * 1024 && s.len() >= 5 + n && s[0] == byte ==> (r matches Ok(Some(f))
                && f.tag == tag && held(f.body) == s.subrange(5, 5 + n)) && buffered(*final(src))
                == s.skip(5 + n)
            &&& r matches Ok(Some(f)) ==> n <= 16 * 1024 * 1024 && s.len() >= 5 + n
        }),
{
    law_tags_have_their_own_bytes(tag, byte);
}

/// A buffer with fewer bytes than a header has is left as it is.
pub proof fn law_headers_are_awaited(
    codec: &mut FrameCodec,
    src: &mut bytes::BytesMut,
    r: Result<Option<Frame>, ProtoError>,
)
    requires
        call_ensures(FrameCodec::decode, (codec, src), r),
        buffered(*old(src)).len() < 5,
    ensures
        r matches Ok(None),
        buffered(*final(src)) == buffered(*old(src)),
{
}

} // verus!
