//! Comparing bytes with spellings, and telling which runs of digits spell a
//! number in range.

use super::classes::{is_digit, DIGIT_ZERO};
use super::grammar::{ascii, decimal, denotes_u32};
use vstd::prelude::*;
use vstd::string::{is_ascii_spec_bytes, StrSliceExecFns, StringSliceAdditionalSpecFns};
use vstd::utf8::{
    is_ascii_chars, is_leading_byte_width_1, partial_valid_utf8,
    partial_valid_utf8_extend_ascii_block, valid_utf8,
};

verus! {

/// The UTF-8 encoding of a text of ASCII characters is the text byte for byte.
pub proof fn lemma_ascii_bytes(text: &str)
    requires
        is_ascii_chars(text@),
    ensures
        text.spec_bytes() == ascii(text@),
{
    is_ascii_spec_bytes(text);
    assert(text.spec_bytes() =~= ascii(text@));
}

/// Bytes that are all below 0x80 are valid UTF-8.
pub proof fn lemma_ascii_is_utf8(bytes: Seq<u8>)
    requires
        forall|i: int| 0 <= i < bytes.len() ==> #[trigger] bytes[i] < 0x80,
    ensures
        valid_utf8(bytes),
{
    assert forall|i: int| 0 <= i < bytes.len() implies #[trigger] is_leading_byte_width_1(
        bytes[i],
    ) by {
        assert(bytes[i] < 0x80);
    }
    assert(bytes.subrange(0, 0) =~= Seq::<u8>::empty());
    assert(partial_valid_utf8(bytes, 0));
    partial_valid_utf8_extend_ascii_block(bytes, 0, bytes.len() as int);
    assert(bytes.subrange(0, bytes.len() as int) =~= bytes);
}

/// Whether `word` is `text` byte for byte.
pub(crate) fn spells(word: &Vec<u8>, text: &str) -> (same: bool)
    requires
        is_ascii_chars(text@),
    ensures
        same == (word@ == ascii(text@)),
{
    let bytes = text.as_bytes();
    proof {
        lemma_ascii_bytes(text);
    }
    if word.len() != bytes.len() {
        return false;
    }
    let mut i: usize = 0;
    while i < word.len()
        invariant
            i <= word@.len(),
            word@.len() == bytes@.len(),
            bytes@ == ascii(text@),
            forall|j: int| 0 <= j < i ==> word@[j] == bytes@[j],
        decreases word@.len() - i,
    {
        if word[i] != bytes[i] {
            return false;
        }
        i += 1;
    }
    assert(word@ =~= bytes@);
    true
}

/// The bytes of a text of ASCII characters.
pub(crate) fn ascii_bytes(text: &str) -> (bytes: Vec<u8>)
    requires
        is_ascii_chars(text@),
    ensures
        bytes@ == ascii(text@),
{
    proof {
        lemma_ascii_bytes(text);
    }
    text.as_bytes_vec()
}

/// A run of digits denotes at least what any prefix of it denotes.
pub proof fn lemma_decimal_grows(digits: Seq<u8>, n: int)
    requires
        0 <= n <= digits.len(),
        forall|i: int| 0 <= i < digits.len() ==> is_digit(#[trigger] digits[i]),
    ensures
        decimal(digits.take(n)) <= decimal(digits),
    decreases digits.len() - n,
{
    if n == digits.len() {
        assert(digits.take(n) =~= digits);
    } else {
        let front = digits.drop_last();
        assert(front.take(n) =~= digits.take(n));
        lemma_decimal_grows(front, n);
        assert(is_digit(digits.last()));
    }
}

/// Whether a run of digits is the spelling of an unsigned 32-bit number.
pub(crate) fn spells_u32(digits: &Vec<u8>) -> (valid: bool)
    requires
        forall|i: int| 0 <= i < digits@.len() ==> is_digit(#[trigger] digits@[i]),
    ensures
        valid == denotes_u32(digits@),
{
    if digits.len() == 0 {
        return false;
    }
    let mut value: u64 = 0;
    let mut i: usize = 0;
    while i < digits.len()
        invariant
            i <= digits@.len(),
            value == decimal(digits@.take(i as int)),
            value <= u32::MAX,
            forall|j: int| 0 <= j < digits@.len() ==> is_digit(#[trigger] digits@[j]),
        decreases digits@.len() - i,
    {
        let d = digits[i] - DIGIT_ZERO;
        proof {
            let upto = digits@.take(i + 1);
            assert(is_digit(digits@[i as int]));
            assert(upto.drop_last() =~= digits@.take(i as int));
            assert(upto.last() == digits@[i as int]);
        }
        value = value * 10 + d as u64;
        i += 1;
        if value > u32::MAX as u64 {
            proof {
                lemma_decimal_grows(digits@, i as int);
            }
            return false;
        }
    }
    assert(digits@.take(i as int) =~= digits@);
    true
}

} // verus!
