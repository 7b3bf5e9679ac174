//! What the check digit guarantees.
//!
//! The first half of this module works on digit values and shows how the
//! reduction behaves when a sequence is split, started elsewhere or changed
//! in one place. The second half states the guarantees on text, in the terms
//! in which the public functions are specified.

use vstd::prelude::*;
use crate::aadhaar::{aadhaar_outcome, byte_length, AADHAAR_LENGTH};
use crate::checksum::{
    accumulate, check_digit, checks_out, checksum_or_zero, lemma_accumulate_is_digit,
    lemma_accumulate_prepend, lemma_check_digit_is_digit, validates, validation_outcome,
    with_checksum,
};
use crate::digits::{
    all_digit_chars, all_digits, digit_char, digit_value, digit_values, is_digit_char,
    lemma_digit_char_round_trip, lemma_digit_value_round_trip, parse_digits,
};
use crate::error::VerhoeffError;
use crate::tables::{
    compose, is_digit, lemma_compose_associative, lemma_compose_cancel_left,
    lemma_compose_cancel_right, lemma_compose_closed, lemma_compose_identity,
    lemma_inverse_cancels, lemma_inverse_injective, lemma_inverse_unique,
    lemma_neighbours_do_not_commute, lemma_permute_closed, lemma_permute_injective, permute,
};

verus! {

/// Reducing `front + back` is reducing `back` and then, from the state that
/// leaves, reducing `front` with every distance raised by the length of
/// `back`.
pub proof fn lemma_accumulate_concat(start: u8, front: Seq<u8>, back: Seq<u8>, offset: nat)
    ensures
        accumulate(start, front + back, offset) == accumulate(
            accumulate(start, back, offset),
            front,
            offset + back.len(),
        ),
    decreases front.len(),
{
    if front.len() == 0 {
        assert(front + back == back);
    } else {
        assert((front + back).drop_first() == front.drop_first() + back);
        lemma_accumulate_concat(start, front.drop_first(), back, offset);
    }
}

/// Starting the reduction in state `start` multiplies its result from the
/// left by `start`.
pub proof fn lemma_accumulate_from(start: u8, digits: Seq<u8>, offset: nat)
    requires
        is_digit(start),
        all_digits(digits),
    ensures
        accumulate(start, digits, offset) == compose(start, accumulate(0, digits, offset)),
    decreases digits.len(),
{
    if digits.len() == 0 {
        lemma_compose_identity(start);
    } else {
        let later = digits.drop_first();
        let permuted = permute(later.len() + offset, digits[0]);
        lemma_accumulate_from(start, later, offset);
        lemma_accumulate_is_digit(0, later, offset);
        lemma_permute_closed(later.len() + offset, digits[0]);
        lemma_compose_associative(start, accumulate(0, later, offset), permuted);
    }
}

/// Different starting states lead to different results.
pub proof fn lemma_accumulate_separates(a: u8, b: u8, digits: Seq<u8>, offset: nat)
    requires
        is_digit(a),
        is_digit(b),
        all_digits(digits),
        a != b,
    ensures
        accumulate(a, digits, offset) != accumulate(b, digits, offset),
{
    lemma_accumulate_from(a, digits, offset);
    lemma_accumulate_from(b, digits, offset);
    lemma_accumulate_is_digit(0, digits, offset);
    if accumulate(a, digits, offset) == accumulate(b, digits, offset) {
        lemma_compose_cancel_right(a, b, accumulate(0, digits, offset));
    }
}

/// A payload followed by a digit checks out exactly when that digit is the
/// payload's check digit.
pub proof fn lemma_checks_out_iff_check_digit(digits: Seq<u8>, d: u8)
    requires
        all_digits(digits),
        is_digit(d),
    ensures
        checks_out(digits.push(d)) <==> d == check_digit(digits),
{
    let last = seq![d];
    let payload = accumulate(0, digits, 1);
    assert(digits.push(d) == digits + last);
    lemma_accumulate_concat(0, digits, last, 0);
    assert(accumulate(0, last, 0) == d) by {
        assert(last == last + Seq::<u8>::empty());
        lemma_accumulate_prepend(0, d, Seq::<u8>::empty(), 0);
        lemma_permute_closed(0, d);
        lemma_compose_identity(d);
    }
    lemma_accumulate_from(d, digits, 1);
    lemma_accumulate_is_digit(0, digits, 1);
    lemma_inverse_unique(payload, d);
    lemma_inverse_cancels(payload);
}

/// Replacing one digit by a different one changes what the sequence reduces
/// to.
pub proof fn lemma_substitution_changes_state(digits: Seq<u8>, i: int, d: u8, offset: nat)
    requires
        all_digits(digits),
        0 <= i < digits.len(),
        is_digit(d),
        d != digits[i],
    ensures
        accumulate(0, digits.update(i, d), offset) != accumulate(0, digits, offset),
{
    let front = digits.take(i);
    let back = digits.skip(i + 1);
    let before = seq![digits[i]] + back;
    let after = seq![d] + back;
    assert(digits == front + before);
    assert(digits.update(i, d) == front + after);
    let state = accumulate(0, back, offset);
    let pos = back.len() + offset;
    lemma_accumulate_prepend(0, digits[i], back, offset);
    lemma_accumulate_prepend(0, d, back, offset);
    lemma_accumulate_is_digit(0, back, offset);
    lemma_permute_closed(pos, digits[i]);
    lemma_permute_closed(pos, d);
    if permute(pos, digits[i]) == permute(pos, d) {
        lemma_permute_injective(pos, digits[i], d);
    }
    if accumulate(0, before, offset) == accumulate(0, after, offset) {
        lemma_compose_cancel_left(state, permute(pos, digits[i]), permute(pos, d));
    }
    lemma_compose_closed(state, permute(pos, digits[i]));
    lemma_compose_closed(state, permute(pos, d));
    lemma_accumulate_concat(0, front, before, offset);
    lemma_accumulate_concat(0, front, after, offset);
    lemma_accumulate_separates(
        accumulate(0, before, offset),
        accumulate(0, after, offset),
        front,
        offset + before.len(),
    );
}

/// Swapping two neighbouring digits that differ changes what the sequence
/// reduces to.
pub proof fn lemma_transposition_changes_state(digits: Seq<u8>, i: int, offset: nat)
    requires
        all_digits(digits),
        0 <= i,
        i + 1 < digits.len(),
        digits[i] != digits[i + 1],
    ensures
        accumulate(0, digits.update(i, digits[i + 1]).update(i + 1, digits[i]), offset)
            != accumulate(0, digits, offset),
{
    let left = digits[i];
    let right = digits[i + 1];
    let front = digits.take(i);
    let back = digits.skip(i + 2);
    let before = seq![left] + (seq![right] + back);
    let after = seq![right] + (seq![left] + back);
    assert(digits == front + before);
    assert(digits.update(i, right).update(i + 1, left) == front + after);
    let state = accumulate(0, back, offset);
    let pos = back.len() + offset;
    lemma_accumulate_prepend(0, right, back, offset);
    lemma_accumulate_prepend(0, left, back, offset);
    lemma_accumulate_prepend(0, left, seq![right] + back, offset);
    lemma_accumulate_prepend(0, right, seq![left] + back, offset);
    lemma_accumulate_is_digit(0, back, offset);
    lemma_permute_closed(pos, left);
    lemma_permute_closed(pos, right);
    lemma_permute_closed(pos + 1, left);
    lemma_permute_closed(pos + 1, right);
    let before_pair = compose(permute(pos, right), permute(pos + 1, left));
    let after_pair = compose(permute(pos, left), permute(pos + 1, right));
    lemma_compose_associative(state, permute(pos, right), permute(pos + 1, left));
    lemma_compose_associative(state, permute(pos, left), permute(pos + 1, right));
    assert(accumulate(0, before, offset) == compose(state, before_pair));
    assert(accumulate(0, after, offset) == compose(state, after_pair));
    lemma_neighbours_do_not_commute(pos, left, right);
    lemma_compose_closed(permute(pos, right), permute(pos + 1, left));
    lemma_compose_closed(permute(pos, left), permute(pos + 1, right));
    if compose(state, before_pair) == compose(state, after_pair) {
        lemma_compose_cancel_left(state, before_pair, after_pair);
    }
    lemma_compose_closed(state, before_pair);
    lemma_compose_closed(state, after_pair);
    lemma_accumulate_concat(0, front, before, offset);
    lemma_accumulate_concat(0, front, after, offset);
    lemma_accumulate_separates(
        accumulate(0, before, offset),
        accumulate(0, after, offset),
        front,
        offset + before.len(),
    );
}

/// A text of digits parses to its digit values.
pub proof fn lemma_digit_text_parses(text: Seq<char>)
    requires
        text.len() >= 1,
        all_digit_chars(text),
    ensures
        parse_digits(text) == Ok::<Seq<u8>, VerhoeffError>(digit_values(text)),
        all_digits(digit_values(text)),
{
}

/// Appending a digit character to a text of digits appends its value to the
/// digit values.
pub proof fn lemma_digit_values_push(text: Seq<char>, c: char)
    requires
        all_digit_chars(text),
        is_digit_char(c),
    ensures
        all_digit_chars(text.push(c)),
        digit_values(text.push(c)) == digit_values(text).push(digit_value(c)),
{
}

/// Appending to a string of digits its check digit gives a string that
/// validates.
pub proof fn law_appended_check_digit_validates(text: Seq<char>)
    requires
        text.len() >= 1,
        all_digit_chars(text),
    ensures
        validates(text.push(digit_char(checksum_or_zero(text)))),
{
    let digits = digit_values(text);
    let d = check_digit(digits);
    lemma_digit_text_parses(text);
    lemma_check_digit_is_digit(digits);
    lemma_checks_out_iff_check_digit(digits, d);
    lemma_digit_char_round_trip(d);
    lemma_digit_values_push(text, digit_char(d));
}

/// Appending to a string of digits anything but its check digit gives a
/// string that does not validate. No other digit will do, and no other
/// character.
pub proof fn law_other_check_digit_rejected(text: Seq<char>, c: char)
    requires
        text.len() >= 1,
        all_digit_chars(text),
        c != digit_char(checksum_or_zero(text)),
    ensures
        !validates(text.push(c)),
{
    let digits = digit_values(text);
    lemma_digit_text_parses(text);
    if is_digit_char(c) {
        lemma_digit_value_round_trip(c);
        lemma_checks_out_iff_check_digit(digits, digit_value(c));
        lemma_digit_values_push(text, c);
    } else {
        assert(text.push(c)[text.len() as int] == c);
    }
}

/// In a string that validates, replacing any one character by a different
/// one gives a string that does not validate. This holds in particular of
/// every string that `append_checksum` makes from a string of digits.
pub proof fn law_single_substitution_detected(text: Seq<char>, i: int, c: char)
    requires
        validates(text),
        0 <= i < text.len(),
        c != text[i],
    ensures
        !validates(text.update(i, c)),
{
    let changed = text.update(i, c);
    if is_digit_char(c) {
        lemma_digit_value_round_trip(c);
        lemma_digit_value_round_trip(text[i]);
        assert(all_digit_chars(changed));
        assert(digit_values(changed) == digit_values(text).update(i, digit_value(c)));
        lemma_substitution_changes_state(digit_values(text), i, digit_value(c), 0);
    } else {
        assert(changed[i] == c);
    }
}

/// Replacing one digit of a payload by a different digit changes the
/// payload's check digit.
pub proof fn law_check_digit_tracks_every_digit(text: Seq<char>, i: int, c: char)
    requires
        all_digit_chars(text),
        0 <= i < text.len(),
        is_digit_char(c),
        c != text[i],
    ensures
        checksum_or_zero(text.update(i, c)) != checksum_or_zero(text),
{
    let changed = text.update(i, c);
    let digits = digit_values(text);
    lemma_digit_value_round_trip(c);
    lemma_digit_value_round_trip(text[i]);
    assert(all_digit_chars(changed));
    assert(digit_values(changed) == digits.update(i, digit_value(c)));
    lemma_substitution_changes_state(digits, i, digit_value(c), 1);
    lemma_accumulate_is_digit(0, digits, 1);
    lemma_accumulate_is_digit(0, digit_values(changed), 1);
    if check_digit(digit_values(changed)) == check_digit(digits) {
        lemma_inverse_injective(accumulate(0, digit_values(changed), 1), accumulate(0, digits, 1));
    }
}

/// `text` with the characters at `i` and `i + 1` swapped.
pub open spec fn swap_neighbours(text: Seq<char>, i: int) -> Seq<char> {
    text.update(i, text[i + 1]).update(i + 1, text[i])
}

/// In a string that validates, swapping two neighbouring characters that
/// differ gives a string that does not validate. This holds in particular of
/// every string that `append_checksum` makes from a string of digits, the
/// check digit and its neighbour included.
pub proof fn law_adjacent_transposition_detected(text: Seq<char>, i: int)
    requires
        validates(text),
        0 <= i,
        i + 1 < text.len(),
        text[i] != text[i + 1],
    ensures
        !validates(swap_neighbours(text, i)),
{
    let swapped = swap_neighbours(text, i);
    let digits = digit_values(text);
    lemma_digit_value_round_trip(text[i]);
    lemma_digit_value_round_trip(text[i + 1]);
    assert(all_digit_chars(swapped));
    assert(digit_values(swapped) == digits.update(i, digits[i + 1]).update(i + 1, digits[i]));
    lemma_transposition_changes_state(digits, i, 0);
}

/// On a string of digits, `append_checksum` adds exactly one character,
/// leaves the characters before it as they were, and gives a string that
/// validates.
pub proof fn law_append_checksum_extends_and_validates(text: Seq<char>)
    requires
        text.len() >= 1,
        all_digit_chars(text),
    ensures
        with_checksum(text).len() == text.len() + 1,
        with_checksum(text).take(text.len() as int) == text,
        validates(with_checksum(text)),
{
    lemma_digit_text_parses(text);
    law_appended_check_digit_validates(text);
}

/// On a string of the Aadhaar length, `validate_aadhaar` and
/// `validate_result` agree:
/// comparing the last digit with the check digit of the rest is validating
/// the whole.
pub proof fn law_aadhaar_agrees_with_validation(text: Seq<char>)
    requires
        byte_length(text) == AADHAAR_LENGTH,
    ensures
        aadhaar_outcome(text) == validation_outcome(text),
{
    if text.len() >= 1 && all_digit_chars(text) {
        let digits = digit_values(text);
        lemma_digit_text_parses(text);
        assert(digits == digits.drop_last().push(digits.last()));
        lemma_checks_out_iff_check_digit(digits.drop_last(), digits.last());
    } else if text.len() == 0 {
        assert(vstd::utf8::encode_utf8(text).len() == 0);
    }
}

} // verus!
