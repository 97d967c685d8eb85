//! Conversions between bytes and text.

use vstd::prelude::*;
use vstd::utf8::*;

verus! {

#[verifier::external_type_specification]
#[verifier::external_body]
pub struct ExFromUtf8Error(std::string::FromUtf8Error);

/// `String::from_utf8`: the text that `bytes` encode when they are valid
/// UTF-8, and an error when they are not.
#[verifier::external_body]
pub(crate) fn string_from_utf8(bytes: Vec<u8>) -> (text: Result<String, std::string::FromUtf8Error>)
    ensures
        text is Ok <==> valid_utf8(bytes@),
        text matches Ok(s) ==> s@ == decode_utf8(bytes@),
{
    String::from_utf8(bytes)
}

/// The characters that a sequence of ASCII bytes stands for.
pub open spec fn ascii_chars(bytes: Seq<u8>) -> Seq<char> {
    Seq::new(bytes.len(), |i: int| bytes[i] as char)
}

/// The text whose characters are the given ASCII bytes.
pub(crate) fn string_from_ascii(bytes: Vec<u8>) -> (text: String)
    requires
        forall|i: int| 0 <= i < bytes@.len() ==> bytes@[i] < 128,
    ensures
        text@ == ascii_chars(bytes@),
{
    let ghost chars = ascii_chars(bytes@);
    proof {
        broadcast use encode_utf8_valid_utf8, encode_utf8_decode_utf8;

        is_ascii_chars_encode_utf8(chars);
        assert(encode_utf8(chars) =~= bytes@);
    }
    match string_from_utf8(bytes) {
        Ok(text) => text,
        Err(_) => {
            // ASCII is valid UTF-8, so the conversion cannot fail.
            assert(false);
            String::new()
        },
    }
}

} // verus!
