//! What holds of every input, proved from the grammar.
//!
//! `scan` is the call on a stream that ends after its input, and `outcome`
//! the call on any stream. The laws of the order of tokens and of the end of
//! input are stated of `scan`; the laws of `outcome` say when it is `scan`,
//! and what holds where it is not.

use super::grammar::{
    end_of_input, failure_token, lead, lemma_lead_within, lemma_lexeme_within,
    lemma_scan_advances, meets_end, nth_scan, outcome, scan, tokens,
};
use super::classes::{alphanumeric, digit, lemma_run_len_bounds, MINUS};
use super::registry::TokenRegistry;
use super::spelling::lemma_ascii_is_utf8;
use vstd::prelude::*;
use vstd::utf8::valid_utf8;

verus! {

/// Where the stream ends after the input, and where the call does not
/// look past the end of the input, the call yields what `scan` gives,
/// whatever the mark was.
pub proof fn lemma_outcome_is_scan(s: Seq<u8>, pos: nat, mark: nat, ending: Option<Seq<u8>>)
    requires
        ending is None || !meets_end(s),
    ensures
        outcome(s, pos, mark, ending) == scan(s, pos),
{
}

/// Where a failure of the source comes after the input, a call that looks
/// past the end of the input consumes all of it and reports the failure:
/// its token is the error terminal with the diagnostic as payload, over a
/// span that ends at the end of the input.
pub proof fn lemma_outcome_is_failure(s: Seq<u8>, pos: nat, mark: nat, text: Seq<u8>)
    requires
        meets_end(s),
    ensures
        ({
            let o = outcome(s, pos, mark, Some(text));
            &&& o.token == failure_token(text, o.mark, pos + s.len())
            &&& o.used == s.len()
            &&& o.mark == mark || o.mark == pos + lead(s)
        }),
{
}

/// Once a call has reported a failure of the source, every call after it
/// reports the same: the next call yields the same token and leaves the
/// position and the mark where they are, and so does the call after that.
pub proof fn lemma_failure_repeats(s: Seq<u8>, pos: nat, mark: nat, text: Seq<u8>)
    requires
        meets_end(s),
    ensures
        ({
            let first = outcome(s, pos, mark, Some(text));
            let again = outcome(
                s.skip(first.used as int),
                pos + first.used,
                first.mark,
                Some(text),
            );
            &&& again.token == first.token
            &&& again.used == 0
            &&& again.mark == first.mark
        }),
{
    let first = outcome(s, pos, mark, Some(text));
    assert(s.skip(first.used as int) =~= Seq::<u8>::empty());
}

/// On an input whose offsets fit in 32 bits, and with the mark not ahead of
/// the position, the span of every token, of one that reports a failure too,
/// begins no earlier than the mark, is not out of order, and ends where the
/// call stops; and the call leaves the mark not ahead of the position.
pub proof fn lemma_span_of_outcome(s: Seq<u8>, pos: nat, mark: nat, ending: Option<Seq<u8>>)
    requires
        mark <= pos,
        pos + s.len() <= u32::MAX,
    ensures
        ({
            let o = outcome(s, pos, mark, ending);
            &&& mark <= o.mark <= pos + o.used
            &&& o.used <= s.len()
            &&& o.token.loc.begin == o.mark
            &&& o.token.loc.end == pos + o.used
            &&& o.token.loc.begin <= o.token.loc.end
        }),
{
    lemma_scan_advances(s, pos);
    lemma_lead_within(s);
}

/// Every token carries a terminal of the registry.
pub proof fn lemma_token_is_terminal(s: Seq<u8>, pos: nat, mark: nat, ending: Option<Seq<u8>>)
    ensures
        TokenRegistry::is_terminal(outcome(s, pos, mark, ending).token.token_type),
{
}

/// The end of input and the error terminal apart, a token's span is not
/// empty, and the payload of an identifier, an integer literal and the
/// undefined terminal is the bytes of the input under the span.
pub proof fn lemma_payload_under_span(s: Seq<u8>, pos: nat)
    ensures
        ({
            let o = scan(s, pos);
            let t = o.token.token_type;
            &&& t != TokenRegistry::YYEOF ==> lead(s) < o.used <= s.len()
            &&& (t == TokenRegistry::tIDENTIFIER || t == TokenRegistry::tINTEGER || t
                == TokenRegistry::YYUNDEF) ==> o.token.token_value == s.subrange(
                lead(s) as int,
                o.used as int,
            )
        }),
{
    let rest = s.skip(lead(s) as int);
    lemma_scan_advances(s, pos);
    lemma_lead_within(s);
    lemma_lexeme_within(rest);
    let o = scan(s, pos);
    assert(rest.take(o.used - lead(s)) =~= s.subrange(lead(s) as int, o.used as int));
}

/// The payload of a token is empty exactly where its terminal has a fixed
/// spelling: it is not empty for an identifier, an integer literal, the
/// undefined terminal and the error terminal.
pub proof fn lemma_payload_by_terminal(s: Seq<u8>, pos: nat)
    ensures
        ({
            let t = scan(s, pos).token;
            t.token_value.len() > 0 <==> {
                ||| t.token_type == TokenRegistry::tIDENTIFIER
                ||| t.token_type == TokenRegistry::tINTEGER
                ||| t.token_type == TokenRegistry::YYUNDEF
                ||| t.token_type == TokenRegistry::YYerror
            }
        }),
{
    let rest = s.skip(lead(s) as int);
    lemma_lexeme_within(rest);
    reveal_strlit("Invalid num encountered");
}

/// The payload of every token but the undefined one is text: the letters and
/// digits of an identifier, the sign and digits of an integer literal, and
/// the diagnostic of an error are ASCII, and so valid UTF-8.
pub proof fn lemma_payload_is_text(s: Seq<u8>, pos: nat)
    ensures
        scan(s, pos).token.token_type != TokenRegistry::YYUNDEF ==> valid_utf8(
            scan(s, pos).token.token_value,
        ),
{
    let rest = s.skip(lead(s) as int);
    let payload = scan(s, pos).token.token_value;
    if scan(s, pos).token.token_type != TokenRegistry::YYUNDEF {
        lemma_run_len_bounds(rest, alphanumeric());
        lemma_run_len_bounds(rest.skip(0), digit());
        lemma_run_len_bounds(rest.skip(1), digit());
        reveal_strlit("Invalid num encountered");
        assert forall|i: int| 0 <= i < payload.len() implies #[trigger] payload[i] < 0x80 by {
            if scan(s, pos).token.token_type == TokenRegistry::tIDENTIFIER {
                assert(alphanumeric()(rest[i]));
            } else if scan(s, pos).token.token_type == TokenRegistry::tINTEGER {
                if rest[0] == MINUS {
                    if i > 0 {
                        assert(digit()(rest.skip(1)[i - 1]));
                    }
                } else {
                    assert(digit()(rest.skip(0)[i]));
                }
            }
        }
        lemma_ascii_is_utf8(payload);
    }
}

/// The tokens up to the end of input are those of the successive calls, in
/// the order of the calls.
pub proof fn lemma_tokens_are_scans(s: Seq<u8>, pos: nat, n: nat)
    requires
        n < tokens(s, pos).len(),
    ensures
        tokens(s, pos)[n as int] == nth_scan(s, pos, n).token,
    decreases n,
{
    if n > 0 {
        let first = scan(s, pos);
        lemma_scan_advances(s, pos);
        lemma_tokens_are_scans(s.skip(first.used as int), pos + first.used, (n - 1) as nat);
    }
}

/// On a stream that ends, once a call has yielded the end of input, every
/// call after it yields the same token, of no width and at the same offset,
/// and consumes nothing.
pub proof fn lemma_end_of_input_repeats(s: Seq<u8>, pos: nat, reached: nat, later: nat)
    requires
        nth_scan(s, pos, reached).token.token_type == TokenRegistry::YYEOF,
        reached < later,
    ensures
        nth_scan(s, pos, later).token == nth_scan(s, pos, reached).token,
        nth_scan(s, pos, later).token.loc.begin == nth_scan(s, pos, later).token.loc.end,
        nth_scan(s, pos, later).used == 0,
    decreases later,
{
    let first = scan(s, pos);
    let rest = s.skip(first.used as int);
    lemma_scan_advances(s, pos);
    if reached > 0 {
        lemma_end_of_input_repeats(rest, pos + first.used, (reached - 1) as nat, (later - 1) as nat);
    } else if later > 1 {
        lemma_end_of_input_repeats(rest, pos + first.used, 0, (later - 1) as nat);
    }
}

/// On a stream that ends after an input whose offsets fit in 32 bits, a
/// token's span lies within the input that the call had before it and ends
/// where the call stops, and the token of the next call begins no earlier
/// than that: successive spans do not overlap, and neither their beginnings
/// nor their ends decrease.
pub proof fn lemma_spans_in_order(s: Seq<u8>, pos: nat)
    requires
        pos + s.len() <= u32::MAX,
    ensures
        ({
            let first = scan(s, pos);
            let second = scan(s.skip(first.used as int), pos + first.used);
            &&& pos <= first.token.loc.begin
            &&& first.token.loc.begin <= first.token.loc.end
            &&& first.token.loc.end == pos + first.used
            &&& first.token.loc.end <= second.token.loc.begin
            &&& second.token.loc.begin <= second.token.loc.end
            &&& second.token.loc.end <= pos + s.len()
        }),
{
    let first = scan(s, pos);
    let rest = s.skip(first.used as int);
    lemma_scan_advances(s, pos);
    lemma_lead_within(s);
    lemma_scan_advances(rest, pos + first.used);
    lemma_lead_within(rest);
}

/// On a stream that ends after an input whose offsets fit in 32 bits, the
/// tokens that successive calls yield end with the one that marks the end of
/// input, whose span is empty and lies at the length of the input; no token
/// before it marks the end; every span lies within the input; and each
/// token ends before the next begins, so that neither the beginnings nor the
/// ends of the spans decrease.
pub proof fn lemma_tokens_in_order(s: Seq<u8>, pos: nat)
    requires
        pos + s.len() <= u32::MAX,
    ensures
        tokens(s, pos).len() > 0,
        tokens(s, pos).last() == end_of_input(pos + s.len()),
        tokens(s, pos).last().loc.begin == pos + s.len(),
        tokens(s, pos).last().loc.end == pos + s.len(),
        forall|i: int|
            0 <= i < tokens(s, pos).len() - 1 ==> (#[trigger] tokens(s, pos)[i]).token_type
                != TokenRegistry::YYEOF,
        forall|i: int|
            0 <= i < tokens(s, pos).len() ==> {
                let t = #[trigger] tokens(s, pos)[i];
                pos <= t.loc.begin && t.loc.begin <= t.loc.end && t.loc.end <= pos + s.len()
            },
        forall|i: int, j: int|
            0 <= i < j < tokens(s, pos).len() ==> (#[trigger] tokens(s, pos)[i]).loc.end <= (
            #[trigger] tokens(s, pos)[j]).loc.begin,
    decreases s.len(),
{
    let first = scan(s, pos);
    lemma_scan_advances(s, pos);
    lemma_lead_within(s);
    if first.token.token_type != TokenRegistry::YYEOF {
        let rest = s.skip(first.used as int);
        let later = tokens(rest, pos + first.used);
        lemma_tokens_in_order(rest, pos + first.used);
        let all = tokens(s, pos);
        assert(all == seq![first.token] + later);
        assert(all.last() == later.last());
        assert forall|i: int| 0 < i < all.len() implies all[i] == later[i - 1] by {}
        assert(all[0] == first.token);
        assert forall|i: int, j: int| 0 <= i < j < all.len() implies (#[trigger] all[i]).loc.end <= (
        #[trigger] all[j]).loc.begin by {
            assert(all[j] == later[j - 1]);
            if i > 0 {
                assert(all[i] == later[i - 1]);
            }
        }
    }
}

} // verus!
