//! Decoding of compiler output from the host's OEM code page.

use local_encoding::{Encoder, Encoding};
use vstd::prelude::*;

verus! {

/// `std::io::Error`, the error of the decoder; nothing is read from it.
#[verifier::external_type_specification]
#[verifier::external_body]
pub struct ExIoError(std::io::Error);

/// Why a captured stream could not be turned into text.
#[derive(Debug, Clone, Copy, PartialEq, Eq, Structural)]
pub(crate) enum DecodeError {
    /// The bytes are not valid in the host's code page.
    InvalidText,
}

/// Calls `local_encoding::Encoding::OEM.to_string`. The result depends on
/// the code page of the host, so only what holds on every host is stated:
/// empty input always decodes, and the text that comes out is empty
/// exactly when the input is. (Where the code page is UTF-8 the text is
/// the input read as UTF-8; elsewhere the system's converter is asked, and
/// anything but a positive count of characters from it is an error.)
#[verifier::external_body]
fn oem_to_string(bytes: &Vec<u8>) -> (r: Result<String, std::io::Error>)
    ensures
        bytes@.len() == 0 ==> r is Ok,
        r matches Ok(text) ==> (text@.len() == 0 <==> bytes@.len() == 0),
{
    Encoding::OEM.to_string(bytes)
}

/// Decodes a captured output stream from the host's OEM code page. No
/// bytes are no text, and bytes that decode give text that is not empty;
/// which bytes decode, and to what, is the host's to say.
pub(crate) fn from_local_codepage(bytes: &Vec<u8>) -> (r: Result<String, DecodeError>)
    ensures
        bytes@.len() == 0 ==> r is Ok,
        r matches Ok(text) ==> (text@.len() == 0 <==> bytes@.len() == 0),
        r matches Err(error) ==> error == DecodeError::InvalidText && bytes@.len() > 0,
{
    match oem_to_string(bytes) {
        Ok(text) => Ok(text),
        Err(_) => Err(DecodeError::InvalidText),
    }
}

} // verus!
