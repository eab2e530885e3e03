//! Hexadecimal text, as `alloy_primitives::hex` writes and reads it.

use vstd::prelude::*;

verus! {

#[verifier::external_type_specification]
#[verifier::external_body]
pub struct ExFromHexError(alloy_primitives::hex::FromHexError);

/// The lower-case digit for a number below sixteen.
pub open spec fn digit_of(value: int) -> char {
    if value == 0 {
        '0'
    } else if value == 1 {
        '1'
    } else if value == 2 {
        '2'
    } else if value == 3 {
        '3'
    } else if value == 4 {
        '4'
    } else if value == 5 {
        '5'
    } else if value == 6 {
        '6'
    } else if value == 7 {
        '7'
    } else if value == 8 {
        '8'
    } else if value == 9 {
        '9'
    } else if value == 10 {
        'a'
    } else if value == 11 {
        'b'
    } else if value == 12 {
        'c'
    } else if value == 13 {
        'd'
    } else if value == 14 {
        'e'
    } else {
        'f'
    }
}

/// The number that a digit stands for, in either case; `None` for any other
/// character.
pub open spec fn value_of(digit: char) -> Option<int> {
    if digit == '0' {
        Some(0)
    } else if digit == '1' {
        Some(1)
    } else if digit == '2' {
        Some(2)
    } else if digit == '3' {
        Some(3)
    } else if digit == '4' {
        Some(4)
    } else if digit == '5' {
        Some(5)
    } else if digit == '6' {
        Some(6)
    } else if digit == '7' {
        Some(7)
    } else if digit == '8' {
        Some(8)
    } else if digit == '9' {
        Some(9)
    } else if digit == 'a' || digit == 'A' {
        Some(10)
    } else if digit == 'b' || digit == 'B' {
        Some(11)
    } else if digit == 'c' || digit == 'C' {
        Some(12)
    } else if digit == 'd' || digit == 'D' {
        Some(13)
    } else if digit == 'e' || digit == 'E' {
        Some(14)
    } else if digit == 'f' || digit == 'F' {
        Some(15)
    } else {
        None
    }
}

/// Two lower-case digits for each byte, the high half first.
pub open spec fn digits_of(bytes: Seq<u8>) -> Seq<char> {
    Seq::new(
        2 * bytes.len(),
        |k: int|
            if k % 2 == 0 {
                digit_of(bytes[k / 2] as int / 16)
            } else {
                digit_of(bytes[k / 2] as int % 16)
            },
    )
}

/// The text of a byte string: `0x`, then its digits.
pub open spec fn text_of(bytes: Seq<u8>) -> Seq<char> {
    seq!['0', 'x'] + digits_of(bytes)
}

/// A text without the prefix `0x` or `0X`, if it has one.
pub open spec fn without_prefix(text: Seq<char>) -> Seq<char> {
    if text.len() >= 2 && text[0] == '0' && (text[1] == 'x' || text[1] == 'X') {
        text.skip(2)
    } else {
        text
    }
}

/// The byte string that a text stands for: after an optional prefix, an
/// even number of digits, two for each byte. Any other text stands for
/// nothing.
pub open spec fn bytes_of(text: Seq<char>) -> Option<Seq<u8>> {
    let digits = without_prefix(text);
    if digits.len() % 2 == 0 && (forall|k: int| 0 <= k < digits.len() ==> value_of(digits[k]) is Some) {
        Some(
            Seq::new(
                digits.len() / 2,
                |k: int| (value_of(digits[2 * k])->0 * 16 + value_of(digits[2 * k + 1])->0) as u8,
            ),
        )
    } else {
        None
    }
}

/// Calls `alloy_primitives::hex::encode_prefixed`. The contract states what
/// the crate documents: the prefix `0x`, then two lower-case digits for
/// each byte.
#[verifier::external_body]
pub(crate) fn encode_prefixed(bytes: &[u8]) -> (text: String)
    ensures
        text@ == text_of(bytes@),
{
    alloy_primitives::hex::encode_prefixed(bytes)
}

/// Calls `alloy_primitives::hex::decode`. The contract states what the
/// crate's source shows: a prefix `0x` or `0X` is dropped, an odd length
/// and any character that is no digit are refused, and each pair of digits,
/// in either case, gives one byte. Which error is returned is not stated.
#[verifier::external_body]
pub(crate) fn decode(text: &str) -> (bytes: Result<Vec<u8>, alloy_primitives::hex::FromHexError>)
    ensures
        match bytes {
            Ok(found) => bytes_of(text@) == Some(found@),
            Err(_) => bytes_of(text@) is None,
        },
{
    alloy_primitives::hex::decode(text)
}

/// Reading the text of a byte string gives the byte string back.
pub proof fn lemma_text_round_trip(bytes: Seq<u8>)
    ensures
        bytes_of(text_of(bytes)) == Some(bytes),
{
    let text = text_of(bytes);
    let digits = without_prefix(text);
    assert(digits =~= digits_of(bytes));
    assert forall|k: int| 0 <= k < digits.len() implies value_of(digits[k]) is Some by {
        lemma_digit_value(bytes[k / 2] as int / 16);
        lemma_digit_value(bytes[k / 2] as int % 16);
    }
    let read = bytes_of(text)->0;
    assert forall|k: int| 0 <= k < bytes.len() implies read[k] == bytes[k] by {
        lemma_digit_value(bytes[k] as int / 16);
        lemma_digit_value(bytes[k] as int % 16);
        assert(digits[2 * k] == digit_of(bytes[(2 * k) / 2] as int / 16));
        assert(digits[2 * k + 1] == digit_of(bytes[(2 * k + 1) / 2] as int % 16));
    }
    assert(read =~= bytes);
}

/// A digit stands for the number it was written for.
pub proof fn lemma_digit_value(value: int)
    requires
        0 <= value < 16,
    ensures
        value_of(digit_of(value)) == Some(value),
{
}

} // verus!
