//! The kinds of token.

use vstd::prelude::*;
use vstd::string::*;
use crate::tokenizer::token::token_type::symbol::Symbol;
use crate::tokenizer::token::token_type::word::Word;

pub mod symbol;
pub mod word;

verus! {

/// What a token is.
#[derive(Debug, Clone, PartialEq, Eq)]
pub enum TokenType {
    Symbol(Symbol),
    Word(Word),
    Ident(String),
    Number(i64),
    Eof,
}

/// The mathematical value of a `TokenType`: an identifier is the sequence
/// of its characters.
pub enum TokenTypeView {
    Symbol(Symbol),
    Word(Word),
    Ident(Seq<char>),
    Number(i64),
    Eof,
}

impl View for TokenType {
    type V = TokenTypeView;

    open spec fn view(&self) -> TokenTypeView {
        match self {
            TokenType::Symbol(s) => TokenTypeView::Symbol(*s),
            TokenType::Word(w) => TokenTypeView::Word(*w),
            TokenType::Ident(name) => TokenTypeView::Ident(name@),
            TokenType::Number(n) => TokenTypeView::Number(*n),
            TokenType::Eof => TokenTypeView::Eof,
        }
    }
}

impl TokenTypeView {
    /// The number of characters that spell the token: the length of a
    /// symbol's or keyword's spelling, the length of an identifier. A
    /// number does not keep its spelling and counts as 0, as does the end.
    pub open spec fn spelled_len(self) -> nat {
        match self {
            TokenTypeView::Symbol(s) => s.spelling().len(),
            TokenTypeView::Word(w) => w.spelling().len(),
            TokenTypeView::Ident(name) => name.len(),
            TokenTypeView::Number(_) => 0,
            TokenTypeView::Eof => 0,
        }
    }
}

impl TokenType {
    /// The number of characters that spell the token; 0 for a number and
    /// for the end.
    pub fn get_len(&self) -> (r: usize)
        ensures
            r == self@.spelled_len(),
    {
        match self {
            TokenType::Symbol(symbol) => symbol.to_str().len(),
            TokenType::Word(word) => word.to_str().len(),
            TokenType::Ident(ident) => ident.as_str().unicode_len(),
            TokenType::Number(_) => 0,
            TokenType::Eof => 0,
        }
    }
}

} // verus!
