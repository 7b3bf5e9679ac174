//! The checksum engine: one reduction over the digits, read from the right.
//!
//! Computing a check digit and validating a number are the same reduction.
//! They differ in where the rightmost digit is taken to stand. Validation
//! reads a number that already ends in its check digit, so its rightmost digit
//! stands at distance zero from the end. Computation reads the payload alone
//! and leaves distance zero free for the check digit to come, so its rightmost
//! digit stands at distance one.

use vstd::prelude::*;
use crate::digits::{
    all_digit_chars, all_digits, digit_char, from_digit, parse_digits, string_to_digits,
};
use crate::error::VerhoeffError;
use crate::laws::{law_append_checksum_extends_and_validates, law_appended_check_digit_validates};
use crate::tables::{
    compose, inverse, is_digit, lemma_compose_closed, lemma_inverse_cancels,
    lemma_permute_closed, permute, D_TABLE, INV_TABLE, P_TABLE,
};

verus! {

/// The state of the reduction after all of `digits` has been read, from the
/// last digit to the first, starting in state `start`. The last digit stands
/// at distance `offset` from the end and each digit before it one further.
/// Reading a digit multiplies the state by the digit as permuted for its
/// distance.
pub open spec fn accumulate(start: u8, digits: Seq<u8>, offset: nat) -> u8
    decreases digits.len(),
{
    if digits.len() == 0 {
        start
    } else {
        let later = digits.drop_first();
        compose(accumulate(start, later, offset), permute(later.len() + offset, digits[0]))
    }
}

/// The check digit of a payload: the inverse of what the payload reduces to
/// when its last digit stands at distance one.
pub open spec fn check_digit(digits: Seq<u8>) -> u8 {
    inverse(accumulate(0, digits, 1))
}

/// A number that ends in its check digit reduces to zero.
pub open spec fn checks_out(digits: Seq<u8>) -> bool {
    accumulate(0, digits, 0) == 0
}

/// What `calculate_checksum_result` returns on `text`.
pub open spec fn checksum_outcome(text: Seq<char>) -> Result<u8, VerhoeffError> {
    match parse_digits(text) {
        Ok(digits) => Ok(check_digit(digits)),
        Err(e) => Err(e),
    }
}

/// What `validate_result` returns on `text`.
pub open spec fn validation_outcome(text: Seq<char>) -> Result<bool, VerhoeffError> {
    match parse_digits(text) {
        Ok(digits) => Ok(checks_out(digits)),
        Err(e) => Err(e),
    }
}

/// What `calculate_checksum` returns on `text`: the check digit, or `0` where
/// `text` does not parse.
pub open spec fn checksum_or_zero(text: Seq<char>) -> u8 {
    match checksum_outcome(text) {
        Ok(digit) => digit,
        Err(_) => 0,
    }
}

/// What `validate` returns on `text`: whether it parses and checks out.
pub open spec fn validates(text: Seq<char>) -> bool {
    match validation_outcome(text) {
        Ok(valid) => valid,
        Err(_) => false,
    }
}

/// What `append_checksum` returns on `text`: the text followed by its check
/// digit, or the text as it is where it does not parse.
pub open spec fn with_checksum(text: Seq<char>) -> Seq<char> {
    match checksum_outcome(text) {
        Ok(digit) => text.push(digit_char(digit)),
        Err(_) => text,
    }
}

/// A check digit is a digit.
pub proof fn lemma_check_digit_is_digit(digits: Seq<u8>)
    requires
        all_digits(digits),
    ensures
        is_digit(check_digit(digits)),
{
    lemma_accumulate_is_digit(0, digits, 1);
    lemma_inverse_cancels(accumulate(0, digits, 1));
}

/// Reading one more digit in front extends the reduction by one step.
pub proof fn lemma_accumulate_prepend(start: u8, first: u8, later: Seq<u8>, offset: nat)
    ensures
        accumulate(start, seq![first] + later, offset) == compose(
            accumulate(start, later, offset),
            permute(later.len() + offset, first),
        ),
{
    assert((seq![first] + later).drop_first() == later);
}

/// The reduction of digits, started from a digit, is a digit.
pub proof fn lemma_accumulate_is_digit(start: u8, digits: Seq<u8>, offset: nat)
    requires
        is_digit(start),
        all_digits(digits),
    ensures
        is_digit(accumulate(start, digits, offset)),
    decreases digits.len(),
{
    if digits.len() > 0 {
        let later = digits.drop_first();
        lemma_accumulate_is_digit(start, later, offset);
        lemma_permute_closed(later.len() + offset, digits[0]);
        lemma_compose_closed(
            accumulate(start, later, offset),
            permute(later.len() + offset, digits[0]),
        );
    }
}

/// Reduces `digits` from the right, the last digit standing at distance
/// `offset` from the end.
fn reduce(digits: &[u8], offset: usize) -> (state: u8)
    requires
        all_digits(digits@),
        offset <= 1,
    ensures
        state == accumulate(0, digits@, offset as nat),
        is_digit(state),
{
    let n = digits.len();
    let mut state: u8 = 0;
    let mut i: usize = 0;
    while i < n
        invariant
            n == digits@.len(),
            i <= n,
            offset <= 1,
            all_digits(digits@),
            is_digit(state),
            state == accumulate(0, digits@.skip(n - i), offset as nat),
        decreases n - i,
    {
        let digit = digits[n - 1 - i];
        let permuted = P_TABLE[(i + offset) % 8][digit as usize];
        proof {
            reveal(compose);
            reveal(permute);
            let later = digits@.skip(n - i);
            assert(digits@.skip(n - 1 - i) == seq![digit] + later);
            lemma_accumulate_prepend(0, digit, later, offset as nat);
        }
        state = D_TABLE[state as usize][permuted as usize];
        i += 1;
    }
    proof {
        assert(digits@.skip(0) == digits@);
    }
    state
}

/// Computes the check digit of a payload of digit values.
pub(crate) fn check_digit_of(digits: &[u8]) -> (d: u8)
    requires
        all_digits(digits@),
    ensures
        d == check_digit(digits@),
        is_digit(d),
{
    let state = reduce(digits, 1);
    proof {
        reveal(inverse);
        lemma_check_digit_is_digit(digits@);
    }
    INV_TABLE[state as usize]
}

/// Computes the Verhoeff check digit of a string of ASCII digits.
///
/// Returns the digit that, appended to `input`, makes it validate. Fails as
/// parsing fails: `EmptyInput` on the empty string, `InvalidCharacter` on the
/// leftmost character that is no ASCII digit.
pub fn calculate_checksum_result(input: &str) -> (r: Result<u8, VerhoeffError>)
    ensures
        r == checksum_outcome(input@),
        r matches Ok(d) ==> is_digit(d) && validates(input@.push(digit_char(d))),
{
    proof {
        if input@.len() >= 1 && all_digit_chars(input@) {
            law_appended_check_digit_validates(input@);
        }
    }
    match string_to_digits(input) {
        Ok(digits) => Ok(check_digit_of(digits.as_slice())),
        Err(e) => Err(e),
    }
}

/// Computes the Verhoeff check digit of a string of ASCII digits, or `0`
/// where the string has none.
///
/// The result depends on the text of `input` alone. A result of `0` is either
/// a genuine check digit or the sign of an input that does not parse; the two
/// cannot be told apart here. Use [`calculate_checksum_result`] where that
/// matters.
pub fn calculate_checksum(input: &str) -> (d: u8)
    ensures
        d == checksum_or_zero(input@),
        is_digit(d),
{
    match calculate_checksum_result(input) {
        Ok(digit) => digit,
        Err(_) => 0,
    }
}

/// Tells whether a string of ASCII digits ends in its own check digit.
///
/// Fails as parsing fails: `EmptyInput` on the empty string,
/// `InvalidCharacter` on the leftmost character that is no ASCII digit.
pub fn validate_result(input: &str) -> (r: Result<bool, VerhoeffError>)
    ensures
        r == validation_outcome(input@),
{
    match string_to_digits(input) {
        Ok(digits) => Ok(reduce(digits.as_slice(), 0) == 0),
        Err(e) => Err(e),
    }
}

/// Tells whether `input` is a string of ASCII digits that ends in its own
/// check digit. An input that does not parse is not valid.
pub fn validate(input: &str) -> (valid: bool)
    ensures
        valid == validates(input@),
{
    match validate_result(input) {
        Ok(b) => b,
        Err(_) => false,
    }
}

/// Appends to a string of ASCII digits its check digit.
///
/// On a string of digits the output is one character longer than the input,
/// begins with the input and validates. An input that does not parse comes
/// back unchanged, with no sign that anything went wrong. Use
/// [`calculate_checksum_result`] to learn of errors.
pub fn append_checksum(input: &str) -> (output: String)
    ensures
        output@ == with_checksum(input@),
        input@.len() >= 1 && all_digit_chars(input@) ==> {
            &&& output@.len() == input@.len() + 1
            &&& output@.take(input@.len() as int) == input@
            &&& validates(output@)
        },
        input@.len() == 0 || !all_digit_chars(input@) ==> output@ == input@,
{
    proof {
        if input@.len() >= 1 && all_digit_chars(input@) {
            law_append_checksum_extends_and_validates(input@);
        }
    }
    let mut output = input.to_owned();
    match calculate_checksum_result(input) {
        Ok(digit) => {
            output.push(from_digit(digit));
            output
        },
        Err(_) => output,
    }
}

} // verus!
