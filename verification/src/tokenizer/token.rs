//! Tokens: a kind and the place of its first character.

use vstd::prelude::*;
use crate::tokenizer::token::token_type::{TokenType, TokenTypeView};

pub mod token_type;

verus! {

/// A token of the source text.
#[derive(Debug, Clone, PartialEq, Eq)]
pub struct Token {
    pub typ: TokenType,
    /// The line of the first character, counted from 0.
    pub line: usize,
    /// The column of the first character, counted from 0.
    pub pos: usize,
}

/// The mathematical value of a `Token`.
pub struct TokenView {
    pub typ: TokenTypeView,
    pub line: nat,
    pub pos: nat,
}

impl View for Token {
    type V = TokenView;

    open spec fn view(&self) -> TokenView {
        TokenView { typ: self.typ@, line: self.line as nat, pos: self.pos as nat }
    }
}

/// A place in the source text: a line and a column, both counted from 0.
pub struct Place {
    pub line: nat,
    pub pos: nat,
}

/// The values of the tokens of `tokens`, in order.
pub open spec fn token_views(tokens: Seq<Token>) -> Seq<TokenView> {
    Seq::new(tokens.len(), |i: int| tokens[i]@)
}

impl Token {
    /// A token of kind `typ` whose first character is at `line` and `pos`.
    pub fn new(typ: TokenType, line: usize, pos: usize) -> (r: Self)
        ensures
            r.typ == typ,
            r.line == line,
            r.pos == pos,
    {
        Token { typ, line, pos }
    }
}

} // verus!
