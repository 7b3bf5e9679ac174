//! Aadhaar numbers: twelve ASCII digits, the last of which is the check digit
//! of the eleven before it.

use vstd::prelude::*;
use crate::checksum::{check_digit, check_digit_of};
use crate::digits::{lemma_digit_text_is_ascii, parse_digits, string_to_digits};
use crate::error::VerhoeffError;

verus! {

/// The length of an Aadhaar number, check digit included.
pub const AADHAAR_LENGTH: usize = 12;

/// The number of bytes that `text` takes as a Rust string, which is what the
/// length rule counts.
pub open spec fn byte_length(text: Seq<char>) -> nat {
    vstd::utf8::encode_utf8(text).len()
}

/// What `validate_aadhaar` returns on `text`. The length is judged first,
/// then the characters, and only then the check digit.
pub open spec fn aadhaar_outcome(text: Seq<char>) -> Result<bool, VerhoeffError> {
    if byte_length(text) != AADHAAR_LENGTH {
        Err(VerhoeffError::InvalidAadhaarLength(byte_length(text) as usize))
    } else {
        match parse_digits(text) {
            Ok(digits) => Ok(digits.last() == check_digit(digits.drop_last())),
            Err(e) => Err(e),
        }
    }
}

/// Tells whether a string is an Aadhaar number with the right check digit.
///
/// Fails with `InvalidAadhaarLength`, which carries the length found, where
/// the string is not 12 bytes long, whatever it holds; otherwise as parsing
/// fails, with `InvalidCharacter` on the leftmost character that is no ASCII
/// digit. Twelve digits give `Ok(true)` where the last is the check digit of
/// the first eleven, and `Ok(false)` where it is not.
pub fn validate_aadhaar(aadhaar: &str) -> (r: Result<bool, VerhoeffError>)
    ensures
        r == aadhaar_outcome(aadhaar@),
{
    let length = aadhaar.as_bytes().len();
    if length != AADHAAR_LENGTH {
        return Err(VerhoeffError::InvalidAadhaarLength(length));
    }
    match string_to_digits(aadhaar) {
        Ok(digits) => {
            let mut digits = digits;
            proof {
                lemma_digit_text_is_ascii(aadhaar@);
            }
            let found = digits[AADHAAR_LENGTH - 1];
            digits.truncate(AADHAAR_LENGTH - 1);
            Ok(found == check_digit_of(digits.as_slice()))
        },
        Err(e) => Err(e),
    }
}

} // verus!
