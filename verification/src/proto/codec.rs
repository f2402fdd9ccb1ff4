//! Message bodies in frames.
use crate::json::{json_view, Json};
use crate::proto::body::{
    agree, entries_of, holds, known, law_bytes_that_hold_an_object_read_as_it,
    law_unknown_keys_are_ignored, names, pack, packed_at, unpack,
};
use crate::proto::error::{ProtoError, ProtoErrorView};
use crate::proto::parts::is_orderly;
use crate::proto::frame::{bytes_of, held, vec_of, Frame, FrameTag};
use vstd::prelude::*;

verus! {

/// Whether bytes carry an object: where all lengths fit 32 bits, and it is not
/// nested too deeply, they hold it, and no object in it comes with a key twice.
pub open spec fn packs(bytes: Seq<u8>, j: Json) -> bool {
    bytes.len() <= u32::MAX && j is Object && j.nests_within(1023) ==> holds(bytes, j->Object_0)
        && is_orderly(bytes)
}

/// Puts a value into a frame.
pub fn encode_message(tag: FrameTag, msg: &serde_json::Value) -> (r: Result<Frame, ProtoError>)
    ensures
        r matches Ok(f) && f.tag == tag && packs(held(f.body), json_view(*msg)),
{
    match pack(msg) {
        Ok(body) => Ok(Frame { tag, body: bytes_of(body) }),
        Err(e) => Err(ProtoError::SerializationError(e)),
    }
}

/// What is wrong with a body that no message can be read from: it holds no
/// fields, or not those of the message.
pub open spec fn body_fault(body: Option<Json>, misfit: Seq<char>) -> ProtoErrorView {
    ProtoErrorView::DeserializationError(
        match body {
            Some(_) => misfit,
            None => "malformed body"@,
        },
    )
}

/// Takes the body out of a frame, for a reader that knows some fields.
pub fn decode_fields(frame: &Frame, fields: &Vec<&str>) -> (r: Result<
    serde_json::Value,
    ProtoError,
>)
    ensures
        match r {
            Ok(v) => packed_at(held(frame.body), names(fields@)) == Some(json_view(v)),
            Err(e) => packed_at(held(frame.body), names(fields@)) is None && e@
                == ProtoErrorView::DeserializationError("malformed body"@),
        },
{
    match unpack(vec_of(&frame.body).as_slice(), fields) {
        Some(v) => Ok(v),
        None => Err(ProtoError::DeserializationError("malformed body".to_owned())),
    }
}

/// Takes the body out of a frame. Of a key that comes twice the first value is
/// taken, and one whose value JSON cannot hold is left out.
pub fn decode_message(frame: &Frame) -> (r: Result<serde_json::Value, ProtoError>)
    ensures
        match r {
            Ok(v) => packed_at(held(frame.body), Seq::empty()) == Some(json_view(v)),
            Err(e) => packed_at(held(frame.body), Seq::empty()) is None && e@
                == ProtoErrorView::DeserializationError("malformed body"@),
        },
{
    let none: Vec<&str> = Vec::new();
    assert(names(none@) =~= Seq::<Seq<char>>::empty());
    decode_fields(frame, &none)
}

/// Decoding undoes encoding, whatever fields are known: bytes that carry an
/// object, not too many and not nested too deeply, read as it.
pub proof fn law_decoding_undoes_encoding(bytes: Seq<u8>, j: Json, fields: Seq<Seq<char>>)
    requires
        packs(bytes, j),
        bytes.len() <= u32::MAX,
        j is Object,
        j.nests_within(1023),
    ensures
        packed_at(bytes, fields) == Some(j),
{
    law_bytes_that_hold_an_object_read_as_it(bytes, j->Object_0, fields);
}

/// Decoding ignores what it does not know: bytes that carry an object, with
/// entries under unknown keys put in anywhere, read as the object as far as the
/// known fields go.
pub proof fn law_decoding_ignores_unknown_keys(
    bytes: Seq<u8>,
    j: Json,
    more: Seq<u8>,
    fields: Seq<Seq<char>>,
)
    requires
        packs(bytes, j),
        bytes.len() <= u32::MAX,
        j is Object,
        j.nests_within(1023),
        entries_of(more) is Some,
        known(entries_of(more)->0, fields) == known(entries_of(bytes)->0, fields),
    ensures
        packed_at(more, fields) is Some,
        agree(packed_at(more, fields)->0, j, fields),
{
    law_decoding_undoes_encoding(bytes, j, fields);
    law_unknown_keys_are_ignored(more, bytes, fields);
}

} // verus!
