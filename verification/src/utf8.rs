//! UTF-8 at the edge of the library, where text arrives as bytes.
use vstd::prelude::*;
use vstd::utf8::{
    codepoint_width_1, decode_utf8, encode_utf8, encode_utf8_decode_utf8, is_leading_byte_width_1,
    pop_first_scalar, valid_utf8,
};

verus! {

/// Reads bytes as text with `std::str::from_utf8`: it succeeds exactly on
/// valid UTF-8, and the text is the one with that encoding.
#[verifier::external_body]
fn checked_text(bytes: &[u8]) -> (r: Option<&str>)
    ensures
        match r {
            Some(s) => valid_utf8(bytes@) && encode_utf8(s@) == bytes@,
            None => !valid_utf8(bytes@),
        },
{
    match std::str::from_utf8(bytes) {
        Ok(s) => Some(s),
        Err(_) => None,
    }
}

/// What `String::from_utf8_lossy` makes of bytes: the parts that are not valid
/// UTF-8 become replacement characters.
pub uninterp spec fn lossy(bytes: Seq<u8>) -> Seq<char>;

/// Reads bytes as text with `String::from_utf8_lossy`. Valid UTF-8 is read as
/// it stands; which replacement characters stand for what is not valid is left
/// to the name `lossy`.
#[verifier::external_body]
pub(crate) fn lossy_text(bytes: &[u8]) -> (r: String)
    ensures
        r@ == lossy(bytes@),
        valid_utf8(bytes@) ==> r@ == decode_utf8(bytes@),
{
    String::from_utf8_lossy(bytes).into_owned()
}

/// Reads bytes as text, if they are valid UTF-8.
pub fn text_of_bytes(bytes: &[u8]) -> (r: Option<&str>)
    ensures
        match r {
            Some(s) => valid_utf8(bytes@) && s@ == decode_utf8(bytes@),
            None => !valid_utf8(bytes@),
        },
{
    let r = checked_text(bytes);
    proof {
        if let Some(s) = r {
            encode_utf8_decode_utf8(s@);
        }
    }
    r
}

/// An ASCII byte at the front of valid UTF-8 is its first character.
pub proof fn ascii_first(bytes: Seq<u8>)
    requires
        valid_utf8(bytes),
        bytes.len() > 0,
        bytes[0] < 0x80,
    ensures
        valid_utf8(bytes.skip(1)),
        decode_utf8(bytes).len() > 0,
        decode_utf8(bytes)[0] == bytes[0] as char,
        decode_utf8(bytes).drop_first() == decode_utf8(bytes.skip(1)),
{
    let b = bytes[0];
    assert((b & 0x7f) == b) by (bit_vector)
        requires
            b < 0x80,
    ;
    assert(is_leading_byte_width_1(b));
    assert(pop_first_scalar(bytes) == bytes.skip(1));
    assert(codepoint_width_1(b) == b as u32);
    assert(decode_utf8(bytes) == seq![b as char] + decode_utf8(bytes.skip(1)));
    assert(decode_utf8(bytes).drop_first() == decode_utf8(bytes.skip(1)));
}

} // verus!
