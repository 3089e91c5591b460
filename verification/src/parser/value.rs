//! The slot of the parser's value stack.

use crate::lexer::{Token, TokenView};
use vstd::prelude::*;

verus! {

/// What a slot of the parser's value stack holds.
///
/// A slot that has been reset, or whose token an action has taken, is
/// `Stolen`; one that waits for an action to fill it is `Uninitialized`.
#[derive(Debug)]
pub enum ParserValue {
    /// No value.
    Empty,
    /// Not yet set.
    Uninitialized,
    /// The value has been taken out.
    Stolen,
    /// A token that was shifted.
    Token(Token),
}

/// A slot as a mathematical value.
pub enum ParserValueView {
    Empty,
    Uninitialized,
    Stolen,
    Token(TokenView),
}

impl View for ParserValue {
    type V = ParserValueView;

    open spec fn view(&self) -> ParserValueView {
        match self {
            ParserValue::Empty => ParserValueView::Empty,
            ParserValue::Uninitialized => ParserValueView::Uninitialized,
            ParserValue::Stolen => ParserValueView::Stolen,
            ParserValue::Token(t) => ParserValueView::Token(t@),
        }
    }
}

impl Clone for ParserValue {
    fn clone(&self) -> (copy: Self)
        ensures
            copy@ == self@,
    {
        match self {
            ParserValue::Empty => ParserValue::Empty,
            ParserValue::Uninitialized => ParserValue::Uninitialized,
            ParserValue::Stolen => ParserValue::Stolen,
            ParserValue::Token(t) => ParserValue::Token(t.clone()),
        }
    }
}

impl Default for ParserValue {
    /// A fresh slot counts as one whose value has been taken.
    fn default() -> (value: Self)
        ensures
            value@ == ParserValueView::Stolen,
    {
        Self::Stolen
    }
}

impl ParserValue {
    /// The slot that holds `value`.
    pub fn from_token(value: Token) -> (slot: Self)
        ensures
            slot@ == ParserValueView::Token(value@),
    {
        Self::Token(value)
    }

    /// A slot that waits to be filled.
    pub fn new_uninitialized() -> (slot: Self)
        ensures
            slot@ == ParserValueView::Uninitialized,
    {
        Self::Uninitialized
    }

    /// Whether the slot waits to be filled.
    pub fn is_uninitialized(&self) -> (waiting: bool)
        ensures
            waiting == (self@ == ParserValueView::Uninitialized),
    {
        matches!(self, Self::Uninitialized)
    }
}

} // verus!
