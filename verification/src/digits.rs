//! From characters to digit values and back.
//!
//! Only the ASCII characters `'0'` to `'9'` count as digits. Nothing is
//! trimmed or normalised: a sign, a space or a numeral of another script makes
//! the whole input invalid, and leading zeros are digits like any other.

use vstd::prelude::*;
use crate::error::VerhoeffError;
use crate::tables::is_digit;

verus! {

/// `c` is one of the ASCII characters `'0'` to `'9'`.
pub open spec fn is_digit_char(c: char) -> bool {
    '0' <= c && c <= '9'
}

/// The value of a digit character: its distance from `'0'`.
pub open spec fn digit_value(c: char) -> u8 {
    (c as u32 - '0' as u32) as u8
}

/// The character that writes the digit `d`.
pub open spec fn digit_char(d: u8) -> char {
    (d + '0' as u8) as char
}

/// Every character of `text` is a digit character.
pub open spec fn all_digit_chars(text: Seq<char>) -> bool {
    forall|i: int| 0 <= i < text.len() ==> is_digit_char(#[trigger] text[i])
}

/// Every entry of `digits` is below ten.
pub open spec fn all_digits(digits: Seq<u8>) -> bool {
    forall|i: int| 0 <= i < digits.len() ==> is_digit(#[trigger] digits[i])
}

/// The digit values of `text`, character by character.
pub open spec fn digit_values(text: Seq<char>) -> Seq<u8> {
    Seq::new(text.len(), |i: int| digit_value(text[i]))
}

/// `i` is the position of the leftmost character of `text` that is no digit.
pub open spec fn is_first_non_digit(text: Seq<char>, i: int) -> bool {
    &&& 0 <= i < text.len()
    &&& !is_digit_char(text[i])
    &&& all_digit_chars(text.take(i))
}

/// The position of the leftmost non-digit of `text`, where there is one.
pub open spec fn first_non_digit(text: Seq<char>) -> int {
    choose|i: int| is_first_non_digit(text, i)
}

/// What parsing `text` yields: its digit values, or the reason it has none.
/// Empty text is `EmptyInput`; otherwise the leftmost non-digit, if any, is
/// reported as `InvalidCharacter`.
pub open spec fn parse_digits(text: Seq<char>) -> Result<Seq<u8>, VerhoeffError> {
    if text.len() == 0 {
        Err(VerhoeffError::EmptyInput)
    } else if all_digit_chars(text) {
        Ok(digit_values(text))
    } else {
        Err(VerhoeffError::InvalidCharacter(text[first_non_digit(text)]))
    }
}

/// A position that is the leftmost non-digit is the one `first_non_digit`
/// names: there is only one such position.
pub proof fn lemma_first_non_digit_unique(text: Seq<char>, i: int)
    requires
        is_first_non_digit(text, i),
    ensures
        first_non_digit(text) == i,
        !all_digit_chars(text),
{
    let j = first_non_digit(text);
    assert(is_first_non_digit(text, j));
    if j < i {
        assert(text.take(i)[j] == text[j]);
    } else if i < j {
        assert(text.take(j)[i] == text[i]);
    }
}

/// Digit characters and digit values correspond one to one.
pub proof fn lemma_digit_char_round_trip(d: u8)
    requires
        is_digit(d),
    ensures
        is_digit_char(digit_char(d)),
        digit_value(digit_char(d)) == d,
{
}

/// The value of a digit character is a digit, and writes back as the same
/// character.
pub proof fn lemma_digit_value_round_trip(c: char)
    requires
        is_digit_char(c),
    ensures
        is_digit(digit_value(c)),
        digit_char(digit_value(c)) == c,
{
}

/// The values of an all-digit text are all digits.
pub proof fn lemma_digit_values_are_digits(text: Seq<char>)
    requires
        all_digit_chars(text),
    ensures
        all_digits(digit_values(text)),
        digit_values(text).len() == text.len(),
{
}

/// A text of digit characters is ASCII, so it takes one byte for each
/// character.
pub proof fn lemma_digit_text_is_ascii(text: Seq<char>)
    requires
        all_digit_chars(text),
    ensures
        vstd::utf8::is_ascii_chars(text),
        vstd::utf8::encode_utf8(text).len() == text.len(),
{
    assert(vstd::utf8::is_ascii_chars(text)) by {
        assert forall|i: int| 0 <= i < text.len() implies '\0' <= #[trigger] text[i]
            <= '\u{7f}' by {
            assert(is_digit_char(text[i]));
        }
    }
    vstd::utf8::is_ascii_chars_encode_utf8(text);
}

/// The value of `c` if it is a digit character, `None` otherwise.
pub fn to_digit(c: char) -> (r: Option<u8>)
    ensures
        r == if is_digit_char(c) {
            Some(digit_value(c))
        } else {
            None::<u8>
        },
        r matches Some(d) ==> is_digit(d),
{
    if '0' <= c && c <= '9' {
        let offset: u32 = c as u32 - '0' as u32;
        Some(offset as u8)
    } else {
        None
    }
}

/// The character that writes the digit `d`.
pub fn from_digit(d: u8) -> (c: char)
    requires
        is_digit(d),
    ensures
        c == digit_char(d),
{
    let code: u8 = d + '0' as u8;
    code as char
}

/// Parses a string of ASCII digits into their values, in order.
///
/// Fails with `EmptyInput` on the empty string and with `InvalidCharacter`
/// on the leftmost character that is not one of `'0'` to `'9'`.
pub fn string_to_digits(s: &str) -> (r: Result<Vec<u8>, VerhoeffError>)
    ensures
        r matches Ok(digits) ==> {
            &&& parse_digits(s@) == Ok::<Seq<u8>, VerhoeffError>(digits@)
            &&& all_digits(digits@)
            &&& digits@.len() == s@.len()
        },
        r matches Err(e) ==> parse_digits(s@) == Err::<Seq<u8>, VerhoeffError>(e),
{
    if s.is_empty() {
        return Err(VerhoeffError::EmptyInput);
    }
    let mut digits: Vec<u8> = Vec::with_capacity(s.len());
    for c in it: s.chars()
        invariant
            it.seq() == s@,
            digits@.len() == it.index(),
            all_digit_chars(s@.take(it.index() as int)),
            digits@ == digit_values(s@.take(it.index() as int)),
    {
        match to_digit(c) {
            Some(d) => {
                digits.push(d);
                proof {
                    let n = it.index() as int;
                    assert(s@.take(n + 1) == s@.take(n).push(s@[n]));
                }
            },
            None => {
                proof {
                    lemma_first_non_digit_unique(s@, it.index() as int);
                }
                return Err(VerhoeffError::InvalidCharacter(c));
            },
        }
    }
    proof {
        assert(s@.take(s@.len() as int) == s@);
        lemma_digit_values_are_digits(s@);
    }
    Ok(digits)
}

} // verus!
