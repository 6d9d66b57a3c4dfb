//! The index field of a frame.
//!
//! The index of a button is written as a decimal number, with or without
//! zeros in front. A field that is empty, holds anything but digits, or holds
//! a number above 255 stands for button `0`.

use vstd::prelude::*;

use crate::bytes::{is_digit, COMMA, DIGIT_0, DIGIT_9};

verus! {

/// Whether `text` is a number: one decimal digit or more, and nothing else.
pub open spec fn is_number(text: Seq<u8>) -> bool {
    text.len() > 0 && forall|i: int| 0 <= i < text.len() ==> is_digit(#[trigger] text[i])
}

/// The number that a run of decimal digits stands for, most significant digit
/// first.
pub open spec fn decimal_value(digits: Seq<u8>) -> nat
    decreases digits.len(),
{
    if digits.len() == 0 {
        0
    } else {
        10 * decimal_value(digits.drop_last()) + (digits.last() - DIGIT_0) as nat
    }
}

/// The index that an index field stands for: its number where it is one that
/// fits in a byte, and `0` in every other case.
pub open spec fn index_of_text(text: Seq<u8>) -> u8 {
    if is_number(text) && decimal_value(text) <= u8::MAX {
        decimal_value(text) as u8
    } else {
        0
    }
}

/// A number is at least as large as what any of its first digits stand for.
proof fn lemma_value_of_prefix(digits: Seq<u8>, len: int)
    requires
        0 <= len <= digits.len(),
        forall|i: int| 0 <= i < digits.len() ==> is_digit(#[trigger] digits[i]),
    ensures
        decimal_value(digits.subrange(0, len)) <= decimal_value(digits),
    decreases digits.len(),
{
    if len == digits.len() {
        assert(digits.subrange(0, len) =~= digits);
    } else {
        let shorter = digits.drop_last();
        assert(shorter.subrange(0, len) =~= digits.subrange(0, len));
        lemma_value_of_prefix(shorter, len);
    }
}

/// A run of zeros stands for zero.
proof fn lemma_value_of_zeros(zeros: Seq<u8>)
    requires
        forall|i: int| 0 <= i < zeros.len() ==> #[trigger] zeros[i] == DIGIT_0,
    ensures
        decimal_value(zeros) == 0,
    decreases zeros.len(),
{
    if zeros.len() > 0 {
        lemma_value_of_zeros(zeros.drop_last());
    }
}

/// Zeros in front of a number do not change what it stands for, nor the index
/// that it gives.
pub proof fn lemma_zero_padding(zeros: Seq<u8>, digits: Seq<u8>)
    requires
        forall|i: int| 0 <= i < zeros.len() ==> #[trigger] zeros[i] == DIGIT_0,
        is_number(digits),
    ensures
        is_number(zeros + digits),
        decimal_value(zeros + digits) == decimal_value(digits),
        index_of_text(zeros + digits) == index_of_text(digits),
    decreases digits.len(),
{
    let padded = zeros + digits;
    assert(is_number(padded)) by {
        assert forall|i: int| 0 <= i < padded.len() implies is_digit(#[trigger] padded[i]) by {
            if i >= zeros.len() {
                assert(padded[i] == digits[i - zeros.len()]);
            }
        }
    }
    assert(padded.drop_last() =~= zeros + digits.drop_last());
    if digits.len() == 1 {
        assert(padded.drop_last() =~= zeros);
        assert(decimal_value(digits.drop_last()) == 0);
        lemma_value_of_zeros(zeros);
    } else {
        lemma_zero_padding(zeros, digits.drop_last());
    }
}

/// A number holds no comma.
pub proof fn lemma_number_has_no_comma(text: Seq<u8>)
    requires
        is_number(text),
    ensures
        !text.contains(COMMA),
{
    if text.contains(COMMA) {
        let at = choose|i: int| 0 <= i < text.len() && text[i] == COMMA;
        assert(is_digit(text[at]));
    }
}

/// Reads the index out of an index field.
pub fn parse_index(text: &[u8]) -> (index: u8)
    ensures
        index == index_of_text(text@),
{
    if text.len() == 0 {
        return 0;
    }
    let mut value: u16 = 0;
    let mut i: usize = 0;
    while i < text.len()
        invariant
            i <= text@.len(),
            forall|j: int| 0 <= j < i ==> is_digit(#[trigger] text@[j]),
            value == decimal_value(text@.subrange(0, i as int)),
            value <= u8::MAX,
        decreases text@.len() - i,
    {
        let byte = text[i];
        if byte < DIGIT_0 || byte > DIGIT_9 {
            return 0;
        }
        let next: u16 = value * 10 + (byte - DIGIT_0) as u16;
        proof {
            let read = text@.subrange(0, i + 1);
            assert(read.drop_last() =~= text@.subrange(0, i as int));
            if is_number(text@) {
                lemma_value_of_prefix(text@, i + 1);
            }
        }
        if next > 255 {
            return 0;
        }
        value = next;
        i += 1;
    }
    assert(text@.subrange(0, i as int) =~= text@);
    value as u8
}

} // verus!
