//! What can be wrong with an input.

use vstd::prelude::*;
use crate::text::{decimal, push_decimal};

verus! {

/// The reasons an input is turned down.
#[derive(Debug, Clone, Copy, PartialEq)]
pub enum VerhoeffError {
    /// The input holds this character, which is not an ASCII digit.
    InvalidCharacter(char),
    /// The input is empty.
    EmptyInput,
    /// An Aadhaar number is 12 bytes long; the input has this many.
    InvalidAadhaarLength(usize),
}

impl VerhoeffError {
    /// The message that describes this error to a reader.
    pub open spec fn message(self) -> Seq<char> {
        match self {
            VerhoeffError::InvalidCharacter(c) => "Invalid character '"@.push(c)
                + "' - only digits allowed"@,
            VerhoeffError::EmptyInput => "Input cannot be empty"@,
            VerhoeffError::InvalidAadhaarLength(len) => "Aadhaar numbers must be 12 digits, got "@
                + decimal(len as nat) + " digits"@,
        }
    }

    /// Describes this error to a reader, naming the offending character or
    /// the length that was found.
    pub fn to_string(&self) -> (text: String)
        ensures
            text@ == self.message(),
    {
        match self {
            VerhoeffError::InvalidCharacter(c) => {
                let mut text = "Invalid character '".to_owned();
                text.push(*c);
                text.append("' - only digits allowed");
                text
            },
            VerhoeffError::EmptyInput => "Input cannot be empty".to_owned(),
            VerhoeffError::InvalidAadhaarLength(len) => {
                let mut text = "Aadhaar numbers must be 12 digits, got ".to_owned();
                push_decimal(&mut text, *len);
                text.append(" digits");
                text
            },
        }
    }
}

} // verus!
