//! From the raw input buffer to text.

use vstd::prelude::*;
use vstd::string::*;
use vstd::utf8::*;
use crate::failure::Failure;

verus! {

/// The error of `core::str::from_utf8`, opaque here.
#[verifier::external_type_specification]
#[verifier::external_body]
pub struct ExUtf8Error(core::str::Utf8Error);

/// `core::str::from_utf8` accepts exactly the byte sequences that are UTF-8,
/// and the string slice it then returns has those bytes.
pub assume_specification[ core::str::from_utf8 ](v: &[u8]) -> (decoded: Result<
    &str,
    core::str::Utf8Error,
>)
    ensures
        decoded is Ok <==> valid_utf8(v@),
        decoded matches Ok(s) ==> s.spec_bytes() == v@,
;

/// What [`decode_input`] returns for a buffer: the failure, or the bytes that
/// the text it returns is made of.
pub open spec fn decoding(input: Option<&[u8]>) -> Result<Seq<u8>, Failure> {
    match input {
        None => Err(Failure::NullInput),
        Some(bytes) => if valid_utf8(bytes@) {
            Ok(bytes@)
        } else {
            Err(Failure::InvalidEncoding)
        },
    }
}

/// The text held in an input buffer. An absent buffer and bytes that are not
/// UTF-8 are turned away; any other buffer is read as it stands, byte for byte.
pub fn decode_input<'a>(input: Option<&'a [u8]>) -> (decoded: Result<&'a str, Failure>)
    ensures
        match decoding(input) {
            Ok(bytes) => decoded matches Ok(text) && text.spec_bytes() == bytes && text@
                == decode_utf8(bytes),
            Err(failure) => decoded == Err::<&str, Failure>(failure),
        },
{
    match input {
        None => Err(Failure::NullInput),
        Some(bytes) => match core::str::from_utf8(bytes) {
            Ok(text) => {
                proof {
                    encode_utf8_decode_utf8(text@);
                }
                Ok(text)
            },
            Err(_) => Err(Failure::InvalidEncoding),
        },
    }
}

} // verus!
