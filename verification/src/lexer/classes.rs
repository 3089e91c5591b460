//! The bytes that the grammar names, the classes of bytes that it tells
//! apart, and runs of bytes of one class.

use vstd::prelude::*;

verus! {

/// Horizontal tab.
pub const TAB: u8 = 0x09;

/// Line feed: the line break that ends a comment.
pub const LINE_FEED: u8 = 0x0A;

/// Form feed.
pub const FORM_FEED: u8 = 0x0C;

/// Carriage return.
pub const CARRIAGE_RETURN: u8 = 0x0D;

/// Space.
pub const SPACE: u8 = 0x20;

/// `(`
pub const LEFT_PAREN: u8 = 0x28;

/// `)`
pub const RIGHT_PAREN: u8 = 0x29;

/// `,`
pub const COMMA: u8 = 0x2C;

/// `-`
pub const MINUS: u8 = 0x2D;

/// `.`
pub const DOT: u8 = 0x2E;

/// `/`
pub const SLASH: u8 = 0x2F;

/// `0`
pub const DIGIT_ZERO: u8 = 0x30;

/// `9`
pub const DIGIT_NINE: u8 = 0x39;

/// `:`
pub const COLON: u8 = 0x3A;

/// `=`
pub const EQUALS: u8 = 0x3D;

/// `>`
pub const GREATER: u8 = 0x3E;

/// `A`
pub const UPPER_A: u8 = 0x41;

/// `Z`
pub const UPPER_Z: u8 = 0x5A;

/// `a`
pub const LOWER_A: u8 = 0x61;

/// `z`
pub const LOWER_Z: u8 = 0x7A;

/// ASCII whitespace: space, tab, line feed, form feed, carriage return.
pub open spec fn is_whitespace(b: u8) -> bool {
    b == SPACE || b == TAB || b == LINE_FEED || b == FORM_FEED || b == CARRIAGE_RETURN
}

/// An ASCII letter of either case.
pub open spec fn is_letter(b: u8) -> bool {
    (UPPER_A <= b && b <= UPPER_Z) || (LOWER_A <= b && b <= LOWER_Z)
}

/// An ASCII decimal digit.
pub open spec fn is_digit(b: u8) -> bool {
    DIGIT_ZERO <= b && b <= DIGIT_NINE
}

/// An ASCII letter or decimal digit.
pub open spec fn is_alphanumeric(b: u8) -> bool {
    is_letter(b) || is_digit(b)
}

/// Any byte but the line feed.
pub open spec fn is_not_line_break(b: u8) -> bool {
    b != LINE_FEED
}

/// The class of ASCII whitespace, as a predicate.
pub open spec fn whitespace() -> spec_fn(u8) -> bool {
    |b: u8| is_whitespace(b)
}

/// The class of ASCII letters and digits, as a predicate.
pub open spec fn alphanumeric() -> spec_fn(u8) -> bool {
    |b: u8| is_alphanumeric(b)
}

/// The class of ASCII digits, as a predicate.
pub open spec fn digit() -> spec_fn(u8) -> bool {
    |b: u8| is_digit(b)
}

/// The class of all bytes but the line feed, as a predicate.
pub open spec fn not_line_break() -> spec_fn(u8) -> bool {
    |b: u8| is_not_line_break(b)
}

/// The length of the longest prefix of `s` whose bytes all satisfy `p`.
pub open spec fn run_len(s: Seq<u8>, p: spec_fn(u8) -> bool) -> nat
    decreases s.len(),
{
    if s.len() > 0 && p(s[0]) {
        1 + run_len(s.skip(1), p)
    } else {
        0
    }
}

/// A prefix of `n` bytes that satisfy `p`, followed by the end of `s` or by a
/// byte that does not, is the longest such prefix.
pub proof fn lemma_run_len_is(s: Seq<u8>, p: spec_fn(u8) -> bool, n: nat)
    requires
        n <= s.len(),
        forall|i: int| 0 <= i < n ==> p(#[trigger] s[i]),
        n == s.len() || !p(s[n as int]),
    ensures
        run_len(s, p) == n,
    decreases n,
{
    if n > 0 {
        let rest = s.skip(1);
        assert forall|i: int| 0 <= i < n - 1 implies p(#[trigger] rest[i]) by {
            assert(rest[i] == s[i + 1]);
        }
        lemma_run_len_is(rest, p, (n - 1) as nat);
    }
}

/// The longest prefix lies within `s`, its bytes satisfy `p`, and what
/// follows it, if anything, does not.
pub proof fn lemma_run_len_bounds(s: Seq<u8>, p: spec_fn(u8) -> bool)
    ensures
        run_len(s, p) <= s.len(),
        forall|i: int| 0 <= i < run_len(s, p) ==> p(#[trigger] s[i]),
        run_len(s, p) < s.len() ==> !p(s[run_len(s, p) as int]),
    decreases s.len(),
{
    if s.len() > 0 && p(s[0]) {
        let rest = s.skip(1);
        lemma_run_len_bounds(rest, p);
        assert forall|i: int| 0 <= i < run_len(s, p) implies p(#[trigger] s[i]) by {
            if i > 0 {
                assert(s[i] == rest[i - 1]);
            }
        }
        if run_len(s, p) < s.len() {
            assert(s[run_len(s, p) as int] == rest[run_len(rest, p) as int]);
        }
    }
}

/// Whether `b` is ASCII whitespace.
pub(crate) fn byte_is_whitespace(b: u8) -> (r: bool)
    ensures
        r == is_whitespace(b),
{
    b == SPACE || b == TAB || b == LINE_FEED || b == FORM_FEED || b == CARRIAGE_RETURN
}

/// Whether `b` is an ASCII letter.
pub(crate) fn byte_is_letter(b: u8) -> (r: bool)
    ensures
        r == is_letter(b),
{
    (UPPER_A <= b && b <= UPPER_Z) || (LOWER_A <= b && b <= LOWER_Z)
}

/// Whether `b` is an ASCII decimal digit.
pub(crate) fn byte_is_digit(b: u8) -> (r: bool)
    ensures
        r == is_digit(b),
{
    DIGIT_ZERO <= b && b <= DIGIT_NINE
}

/// Whether `b` is an ASCII letter or decimal digit.
pub(crate) fn byte_is_alphanumeric(b: u8) -> (r: bool)
    ensures
        r == is_alphanumeric(b),
{
    byte_is_letter(b) || byte_is_digit(b)
}

/// Whether `b` is any byte but the line feed.
pub(crate) fn byte_is_not_line_break(b: u8) -> (r: bool)
    ensures
        r == is_not_line_break(b),
{
    b != LINE_FEED
}

} // verus!
