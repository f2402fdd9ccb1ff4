//! Fresh identifiers.
use vstd::prelude::*;

verus! {

/// Whether `c` is a lower-case hexadecimal digit.
pub open spec fn is_hex(c: char) -> bool {
    48 <= c as u32 <= 57 || 97 <= c as u32 <= 102
}

/// Whether `s` is a random (version 4) UUID in its hyphenated lower-case form.
pub open spec fn is_uuid4(s: Seq<char>) -> bool {
    &&& s.len() == 36
    &&& s[8] == '-' && s[13] == '-' && s[18] == '-' && s[23] == '-'
    &&& s[14] == '4'
    &&& s[19] == '8' || s[19] == '9' || s[19] == 'a' || s[19] == 'b'
    &&& forall|i: int|
        0 <= i < 36 && i != 8 && i != 13 && i != 18 && i != 23 ==> is_hex(#[trigger] s[i])
}

/// `uuid::Uuid::new_v4`, displayed. Which one comes out is chance; its form is
/// all that is claimed.
#[verifier::external_body]
pub(crate) fn fresh() -> (r: String)
    ensures
        is_uuid4(r@),
{
    uuid::Uuid::new_v4().to_string()
}

} // verus!
