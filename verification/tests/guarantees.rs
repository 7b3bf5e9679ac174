//! The guarantees of the check digit on concrete numbers, the exact error
//! reports, and the building blocks behind the entry points.

use verhoeff::digits::{from_digit, string_to_digits, to_digit};
use verhoeff::tables::{D_TABLE, INV_TABLE, P_TABLE};
use verhoeff::text::push_decimal;
use verhoeff::{
    append_checksum, calculate_checksum, calculate_checksum_result, validate, validate_aadhaar,
    validate_result, VerhoeffError,
};

fn replace_char(text: &str, at: usize, with: char) -> String {
    let mut chars: Vec<char> = text.chars().collect();
    chars[at] = with;
    chars.into_iter().collect()
}

fn swap_chars(text: &str, at: usize) -> String {
    let mut chars: Vec<char> = text.chars().collect();
    chars.swap(at, at + 1);
    chars.into_iter().collect()
}

#[test]
fn appended_check_digit_validates() {
    for payload in ["0", "7", "236", "12345", "142857", "00000000", "8473643095"] {
        let digit = calculate_checksum(payload);
        assert!(digit < 10);
        assert!(validate(&format!("{payload}{digit}")), "{payload}");
    }
}

#[test]
fn every_other_check_digit_is_rejected() {
    for payload in ["0", "236", "12345", "142857", "99999999999"] {
        let digit = calculate_checksum(payload);
        for other in 0..10u8 {
            let text = format!("{payload}{other}");
            assert_eq!(validate(&text), other == digit, "{text}");
        }
        assert!(!validate(&format!("{payload}x")));
    }
}

#[test]
fn every_single_substitution_is_detected() {
    for payload in ["5", "236", "1428570", "00000000000", "31415926535897932384"] {
        let valid = append_checksum(payload);
        assert!(validate(&valid));
        for at in 0..valid.len() {
            let original = valid.as_bytes()[at];
            for replacement in b'0'..=b'9' {
                if replacement != original {
                    let changed = replace_char(&valid, at, replacement as char);
                    assert!(!validate(&changed), "{valid} -> {changed}");
                }
            }
            assert!(!validate(&replace_char(&valid, at, ' ')));
        }
    }
}

#[test]
fn every_adjacent_transposition_is_detected() {
    for payload in ["12", "236", "1428570", "9081726354", "31415926535897932384"] {
        let valid = append_checksum(payload);
        let bytes = valid.as_bytes();
        for at in 0..valid.len() - 1 {
            if bytes[at] != bytes[at + 1] {
                let swapped = swap_chars(&valid, at);
                assert!(!validate(&swapped), "{valid} -> {swapped}");
            }
        }
    }
}

#[test]
fn a_changed_payload_digit_changes_the_check_digit() {
    let payload = "123456789";
    let digit = calculate_checksum(payload);
    for at in 0..payload.len() {
        for replacement in b'0'..=b'9' {
            if replacement != payload.as_bytes()[at] {
                let changed = replace_char(payload, at, replacement as char);
                assert_ne!(calculate_checksum(&changed), digit, "{changed}");
            }
        }
    }
}

#[test]
fn check_digit_is_a_function_of_the_text() {
    for payload in ["236", "12345", "", "12a45"] {
        let first = calculate_checksum(payload);
        let again = calculate_checksum(&String::from(payload));
        assert_eq!(first, again);
        assert_eq!(calculate_checksum_result(payload), calculate_checksum_result(payload));
    }
}

#[test]
fn append_adds_one_character_and_keeps_the_rest() {
    for payload in ["0", "236", "0012", "98765432109876543210"] {
        let output = append_checksum(payload);
        assert_eq!(output.len(), payload.len() + 1);
        assert_eq!(&output[..payload.len()], payload);
        assert!(validate(&output));
    }
    assert_eq!(append_checksum("236"), "2363");
    assert_eq!(append_checksum("00000000"), "000000001");
}

#[test]
fn append_returns_unparsable_input_unchanged() {
    for input in ["", "12a45", " 123", "१२३"] {
        assert_eq!(append_checksum(input), input);
    }
}

#[test]
fn permissive_forms_fall_back() {
    assert_eq!(calculate_checksum(""), 0);
    assert_eq!(calculate_checksum("12a45"), 0);
    assert!(!validate(""));
    assert!(!validate("2363 "));
    assert!(!validate("-2363"));
}

#[test]
fn strict_forms_name_the_error() {
    assert_eq!(calculate_checksum_result(""), Err(VerhoeffError::EmptyInput));
    assert_eq!(calculate_checksum_result("12a45"), Err(VerhoeffError::InvalidCharacter('a')));
    assert_eq!(validate_result(""), Err(VerhoeffError::EmptyInput));
    assert_eq!(validate_result("2363!"), Err(VerhoeffError::InvalidCharacter('!')));
    assert_eq!(validate_aadhaar("12345"), Err(VerhoeffError::InvalidAadhaarLength(5)));
    assert_eq!(calculate_checksum_result("236"), Ok(3));
    assert_eq!(validate_result("2363"), Ok(true));
    assert_eq!(validate_result("2364"), Ok(false));
}

#[test]
fn the_leftmost_invalid_character_is_reported() {
    assert_eq!(validate_result("1x2y3"), Err(VerhoeffError::InvalidCharacter('x')));
    assert_eq!(validate_result("+123"), Err(VerhoeffError::InvalidCharacter('+')));
    assert_eq!(validate_result("123\u{663}4?"), Err(VerhoeffError::InvalidCharacter('\u{663}')));
    assert_eq!(calculate_checksum_result("12 34"), Err(VerhoeffError::InvalidCharacter(' ')));
    assert_eq!(calculate_checksum_result("/0"), Err(VerhoeffError::InvalidCharacter('/')));
    assert_eq!(calculate_checksum_result("9:"), Err(VerhoeffError::InvalidCharacter(':')));
}

#[test]
fn aadhaar_judges_length_before_characters() {
    assert_eq!(validate_aadhaar(""), Err(VerhoeffError::InvalidAadhaarLength(0)));
    assert_eq!(validate_aadhaar("12a45"), Err(VerhoeffError::InvalidAadhaarLength(5)));
    assert_eq!(validate_aadhaar("1234567890123"), Err(VerhoeffError::InvalidAadhaarLength(13)));
    assert_eq!(validate_aadhaar("12345678901a"), Err(VerhoeffError::InvalidCharacter('a')));
    assert_eq!(validate_aadhaar("a2345678901b"), Err(VerhoeffError::InvalidCharacter('a')));
}

#[test]
fn aadhaar_counts_bytes() {
    // Four Devanagari digits take twelve bytes; eleven ASCII digits and one
    // Devanagari digit take fourteen.
    assert_eq!(validate_aadhaar("१२३४"), Err(VerhoeffError::InvalidCharacter('१')));
    assert_eq!(validate_aadhaar("12345678901१"), Err(VerhoeffError::InvalidAadhaarLength(14)));
}

#[test]
fn aadhaar_compares_the_last_digit_with_the_check_digit() {
    assert_eq!(calculate_checksum("12345678901"), 0);
    assert_eq!(validate_aadhaar("123456789010"), Ok(true));
    for wrong in 1..10 {
        assert_eq!(validate_aadhaar(&format!("12345678901{wrong}")), Ok(false));
    }
    for base in ["00000000000", "99999999999", "31415926535"] {
        let full = append_checksum(base);
        assert_eq!(validate_aadhaar(&full), Ok(true));
        assert_eq!(validate_aadhaar(&full), validate_result(&full));
    }
}

#[test]
fn messages_name_what_was_found() {
    assert_eq!(
        VerhoeffError::InvalidCharacter('a').to_string(),
        "Invalid character 'a' - only digits allowed"
    );
    assert_eq!(
        VerhoeffError::InvalidCharacter('१').to_string(),
        "Invalid character '१' - only digits allowed"
    );
    assert_eq!(VerhoeffError::EmptyInput.to_string(), "Input cannot be empty");
    assert_eq!(
        VerhoeffError::InvalidAadhaarLength(5).to_string(),
        "Aadhaar numbers must be 12 digits, got 5 digits"
    );
    assert_eq!(
        VerhoeffError::InvalidAadhaarLength(0).to_string(),
        "Aadhaar numbers must be 12 digits, got 0 digits"
    );
    assert_eq!(
        VerhoeffError::InvalidAadhaarLength(1234567890).to_string(),
        "Aadhaar numbers must be 12 digits, got 1234567890 digits"
    );
}

#[test]
fn errors_compare_and_clone() {
    let error = VerhoeffError::InvalidCharacter('x');
    assert_eq!(error.clone(), error);
    assert_ne!(error, VerhoeffError::InvalidCharacter('y'));
    assert_ne!(VerhoeffError::EmptyInput, VerhoeffError::InvalidAadhaarLength(0));
    assert_eq!(format!("{:?}", VerhoeffError::EmptyInput), "EmptyInput");
}

#[test]
fn decimal_numerals() {
    for n in [0usize, 7, 9, 10, 11, 99, 100, 12345, 1000000, usize::MAX] {
        let mut out = String::from("n=");
        push_decimal(&mut out, n);
        assert_eq!(out, format!("n={n}"));
    }
}

#[test]
fn digit_characters_and_values() {
    for d in 0..10u8 {
        let c = from_digit(d);
        assert_eq!(c, (b'0' + d) as char);
        assert_eq!(to_digit(c), Some(d));
    }
    for c in ['/', ':', 'a', ' ', '-', '\u{0}', '\u{663}', '\u{967}', '\u{ff11}'] {
        assert_eq!(to_digit(c), None);
    }
    for code in 0..=0x7ffu32 {
        let c = char::from_u32(code).unwrap();
        assert_eq!(to_digit(c), c.to_digit(10).filter(|_| c.is_ascii()).map(|d| d as u8));
    }
}

#[test]
fn parsing_keeps_order_and_leading_zeros() {
    assert_eq!(string_to_digits("0012345678909"), Ok(vec![0, 0, 1, 2, 3, 4, 5, 6, 7, 8, 9, 0, 9]));
    assert_eq!(string_to_digits("7"), Ok(vec![7]));
    assert_eq!(string_to_digits(""), Err(VerhoeffError::EmptyInput));
    assert_eq!(string_to_digits("12 "), Err(VerhoeffError::InvalidCharacter(' ')));
}

#[test]
fn tables_form_a_group_with_inverses() {
    for a in 0..10usize {
        assert_eq!(D_TABLE[0][a] as usize, a);
        assert_eq!(D_TABLE[a][0] as usize, a);
        assert_eq!(D_TABLE[a][INV_TABLE[a] as usize], 0);
        assert_eq!(D_TABLE[INV_TABLE[a] as usize][a], 0);
        assert_eq!(P_TABLE[0][a] as usize, a);
        for b in 0..10usize {
            assert_eq!(D_TABLE[a][b] == 0, b == INV_TABLE[a] as usize);
            for c in 0..10usize {
                let left = D_TABLE[D_TABLE[a][b] as usize][c];
                let right = D_TABLE[a][D_TABLE[b][c] as usize];
                assert_eq!(left, right);
            }
        }
    }
    assert_eq!(D_TABLE[1][5], 6);
    assert_eq!(D_TABLE[5][1], 9);
    assert_eq!(P_TABLE[1][0], 1);
    assert_eq!(P_TABLE[7][9], 8);
    assert_eq!(INV_TABLE[1], 4);
}

#[test]
fn permutation_rows_are_bijections_that_separate_neighbours() {
    for row in 0..8usize {
        let mut seen = [false; 10];
        for x in 0..10usize {
            seen[P_TABLE[row][x] as usize] = true;
        }
        assert!(seen.iter().all(|&hit| hit));
        let next = (row + 1) % 8;
        for x in 0..10usize {
            for y in 0..10usize {
                if x != y {
                    let one = D_TABLE[P_TABLE[row][x] as usize][P_TABLE[next][y] as usize];
                    let other = D_TABLE[P_TABLE[row][y] as usize][P_TABLE[next][x] as usize];
                    assert_ne!(one, other);
                }
            }
        }
    }
}

#[test]
fn position_decides_the_permutation() {
    // The same digit at different distances from the end weighs differently,
    // and a zero away from the end is not neutral.
    assert_eq!(calculate_checksum("1"), 5);
    assert_eq!(calculate_checksum("10"), 9);
    assert_eq!(calculate_checksum("100"), 3);
    assert_eq!(calculate_checksum("100000000"), 9);
    assert!(validate("0"));
    assert!(!validate("00"));
    assert!(!validate("1"));
}
