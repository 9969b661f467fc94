//! The tokenizer: from the source text to its tokens, each with the line
//! and column of its first character, and the end token behind them.

use vstd::prelude::*;
use vstd::string::*;
use crate::text::{decimal_value, digit_value, is_digit, push_usize};
use crate::tokenizer::lexicon::{
    digit_run, ends_word, is_prefix_at, lemma_lexeme_width, lexeme_at, number_at, scan, symbol_from,
    symbol_here, tokens_of, undefined_message, word_at, word_run,
};
use crate::tokenizer::token::{Place, Token, TokenView, token_views};
use crate::tokenizer::token::token_type::{TokenType, TokenTypeView};
use crate::tokenizer::token::token_type::symbol::{
    Symbol, lemma_symbol_chars, len_order, symbol_chars,
};
use crate::tokenizer::token::token_type::word::{Word, keyword_from, keyword_of, keywords};

pub mod token;
pub mod lexicon;

verus! {

/// The tokens `done`, then what is read behind them.
pub open spec fn followed_by(done: Seq<TokenView>, rest: Result<Seq<TokenView>, Place>) -> Result<
    Seq<TokenView>,
    Place,
> {
    match rest {
        Ok(more) => Ok(done + more),
        Err(e) => Err(e),
    }
}

/// The characters of `src`, in order.
fn characters(src: &str) -> (r: Vec<char>)
    ensures
        r@ == src@,
{
    let mut chars: Vec<char> = Vec::new();
    for c in it: src.chars()
        invariant
            chars@ == it.history(),
    {
        chars.push(c);
    }
    chars
}

/// Whether `c` stands in `list`.
fn holds(list: &Vec<char>, c: char) -> (r: bool)
    ensures
        r == list@.contains(c),
{
    let mut i: usize = 0;
    while i < list.len()
        invariant
            i <= list.len(),
            forall|j: int| 0 <= j < i ==> list@[j] != c,
        decreases list.len() - i,
    {
        if list[i] == c {
            return true;
        }
        i += 1;
    }
    false
}

/// Whether the characters of `text` stand in `chars` from `from` on.
fn stands_at(chars: &Vec<char>, from: usize, text: &str) -> (r: bool)
    requires
        from <= chars.len(),
    ensures
        r == is_prefix_at(chars@, from as nat, text@),
{
    let count = text.unicode_len();
    if count > chars.len() - from {
        return false;
    }
    let mut i: usize = 0;
    while i < count
        invariant
            count == text@.len(),
            from + count <= chars.len(),
            i <= count,
            forall|j: int| 0 <= j < i ==> chars@[from + j] == text@[j],
        decreases count - i,
    {
        if chars[from + i] != text.get_char(i) {
            assert(chars@.subrange(from as int, from + count)[i as int] != text@[i as int]);
            return false;
        }
        i += 1;
    }
    assert(chars@.subrange(from as int, from + count) =~= text@);
    true
}

/// The number at `from`, where a digit stands: its value and the number of
/// its digits; nothing where a signed 64-bit integer does not hold the
/// value.
fn create_number_token(chars: &Vec<char>, from: usize) -> (r: Option<(TokenType, usize)>)
    requires
        from < chars.len(),
        is_digit(chars@[from as int]),
    ensures
        match number_at(chars@, from as nat) {
            Some(lexeme) => r matches Some(found) && found.0@ == lexeme.typ && found.1
                == lexeme.width,
            None => r is None,
        },
{
    let mut value: u64 = 0;
    let mut fits = true;
    let mut i: usize = from;
    while i < chars.len() && chars[i] >= '0' && chars[i] <= '9'
        invariant
            from <= i <= chars.len(),
            digit_run(chars@, from as nat) == (i - from) + digit_run(chars@, i as nat),
            fits ==> value == decimal_value(chars@.subrange(from as int, i as int)) && value
                <= i64::MAX,
            !fits ==> decimal_value(chars@.subrange(from as int, i as int)) > i64::MAX,
        decreases chars.len() - i,
    {
        let digit: u64 = (chars[i] as u64) - ('0' as u64);
        proof {
            let longer = chars@.subrange(from as int, i + 1);
            assert(longer.drop_last() =~= chars@.subrange(from as int, i as int));
            assert(longer.last() == chars@[i as int]);
            assert(digit == digit_value(chars@[i as int]));
        }
        if fits {
            if value > (i64::MAX as u64 - digit) / 10 {
                fits = false;
            } else {
                value = value * 10 + digit;
            }
        }
        i += 1;
    }
    if fits {
        Some((TokenType::Number(value as i64), i - from))
    } else {
        None
    }
}

/// The symbol at `from`: the first of `order` whose spelling stands there.
fn create_symbol_token(chars: &Vec<char>, from: usize, order: &Vec<Symbol>) -> (r: Option<Symbol>)
    requires
        from <= chars.len(),
        order@ == len_order(),
    ensures
        r == symbol_here(chars@, from as nat),
{
    let mut i: usize = 0;
    while i < order.len()
        invariant
            i <= order.len(),
            order@ == len_order(),
            from <= chars.len(),
            symbol_here(chars@, from as nat) == symbol_from(chars@, from as nat, i as nat),
        decreases order.len() - i,
    {
        if stands_at(chars, from, order[i].to_str()) {
            return Some(order[i]);
        }
        i += 1;
    }
    None
}

/// The keyword that `text` spells, if it spells one of `list`.
fn find_keyword(text: &String, list: &Vec<Word>) -> (r: Option<Word>)
    requires
        list@ == keywords(),
    ensures
        r == keyword_of(text@),
{
    let mut i: usize = 0;
    while i < list.len()
        invariant
            i <= list.len(),
            list@ == keywords(),
            keyword_of(text@) == keyword_from(text@, i as nat),
        decreases list.len() - i,
    {
        let spelling = String::from_str(list[i].to_str());
        if *text == spelling {
            return Some(list[i]);
        }
        i += 1;
    }
    None
}

/// Whether `c` ends a word that stands before it.
fn closes(c: char, starts: &Vec<char>) -> (r: bool)
    requires
        starts@ == symbol_chars(),
    ensures
        r == ends_word(c),
{
    proof {
        lemma_symbol_chars();
    }
    c == '\n' || c == ' ' || c == '\t' || c == '\r' || holds(starts, c)
}

/// The word at `from`: the characters up to the next one that ends a word,
/// as a keyword where they spell one, else as an identifier.
fn create_word_token(
    src: &str,
    chars: &Vec<char>,
    from: usize,
    starts: &Vec<char>,
    words: &Vec<Word>,
) -> (r: (TokenType, usize))
    requires
        chars@ == src@,
        from <= chars.len(),
        starts@ == symbol_chars(),
        words@ == keywords(),
    ensures
        r.0@ == word_at(src@, from as nat).typ,
        r.1 == word_at(src@, from as nat).width,
{
    let mut i: usize = from;
    while i < chars.len() && !closes(chars[i], starts)
        invariant
            chars@ == src@,
            starts@ == symbol_chars(),
            from <= i <= chars.len(),
            word_run(chars@, from as nat) == (i - from) + word_run(chars@, i as nat),
        decreases chars.len() - i,
    {
        i += 1;
    }
    let text = String::from_str(src.substring_char(from, i));
    match find_keyword(&text, words) {
        Some(word) => (TokenType::Word(word), i - from),
        None => (TokenType::Ident(text), i - from),
    }
}

/// The symbol or word at `from`, where neither white space nor a digit
/// stands; nothing where a character starts a symbol and no symbol's
/// spelling stands there.
fn create_token(
    src: &str,
    chars: &Vec<char>,
    from: usize,
    starts: &Vec<char>,
    order: &Vec<Symbol>,
    words: &Vec<Word>,
) -> (r: Option<(TokenType, usize)>)
    requires
        chars@ == src@,
        from < chars.len(),
        !is_digit(chars@[from as int]),
        starts@ == symbol_chars(),
        order@ == len_order(),
        words@ == keywords(),
    ensures
        match lexeme_at(src@, from as nat) {
            Some(lexeme) => r matches Some(found) && found.0@ == lexeme.typ && found.1
                == lexeme.width,
            None => r is None,
        },
{
    proof {
        lemma_symbol_chars();
    }
    if holds(starts, chars[from]) {
        match create_symbol_token(chars, from, order) {
            Some(symbol) => {
                let token = TokenType::Symbol(symbol);
                let width = token.get_len();
                Some((token, width))
            },
            None => None,
        }
    } else {
        Some(create_word_token(src, chars, from, starts, words))
    }
}

fn undefined(line: usize, pos: usize) -> (r: String)
    ensures
        r@ == undefined_message(Place { line: line as nat, pos: pos as nat }),
{
    let mut text = String::from_str("Undefined Token(");
    push_usize(&mut text, line);
    text.append(":");
    push_usize(&mut text, pos);
    text.append(")");
    text
}

/// Reads the tokens of `src`. The result ends in the end token, which
/// stands at the place behind the last character. Fails at the first
/// character at which no token is read, with the message
/// `Undefined Token(line:column)` for the place of that character.
pub fn tokenize(src: &str) -> (res: Result<Vec<Token>, String>)
    ensures
        match tokens_of(src@) {
            Ok(tokens) => res matches Ok(found) && token_views(found@) == tokens,
            Err(place) => res matches Err(m) && m@ == undefined_message(place),
        },
        res matches Ok(found) ==> found@.len() > 0 && found@.last()@.typ == TokenTypeView::Eof,
{
    let chars = characters(src);
    let starts = Symbol::get_symbol_char_list();
    let order = Symbol::get_len_order_list();
    let words = Word::get_list();
    let mut tokens: Vec<Token> = Vec::new();
    let mut line: usize = 0;
    let mut pos: usize = 0;
    let mut index: usize = 0;
    assert(token_views(tokens@) =~= Seq::<TokenView>::empty());
    assert(followed_by(Seq::empty(), tokens_of(src@)) == tokens_of(src@)) by {
        if let Ok(all) = tokens_of(src@) {
            assert(Seq::<TokenView>::empty() + all =~= all);
        }
    }
    while index < chars.len()
        invariant
            chars@ == src@,
            starts@ == symbol_chars(),
            order@ == len_order(),
            words@ == keywords(),
            index <= chars.len(),
            line <= index,
            pos <= index,
            tokens_of(src@) == followed_by(
                token_views(tokens@),
                scan(src@, index as nat, line as nat, pos as nat),
            ),
        decreases chars.len() - index,
    {
        let c = chars[index];
        if c == '\n' {
            index += 1;
            line += 1;
            pos = 0;
        } else if c == ' ' || c == '\t' || c == '\r' {
            index += 1;
            pos += 1;
        } else {
            proof {
                lemma_lexeme_width(src@, index as nat);
            }
            let read = if c >= '0' && c <= '9' {
                create_number_token(&chars, index)
            } else {
                create_token(src, &chars, index, &starts, &order, &words)
            };
            match read {
                Some((typ, width)) => {
                    let ghost done = token_views(tokens@);
                    let ghost first = TokenView { typ: typ@, line: line as nat, pos: pos as nat };
                    let ghost rest = scan(
                        src@,
                        (index + width) as nat,
                        line as nat,
                        (pos + width) as nat,
                    );
                    tokens.push(Token::new(typ, line, pos));
                    proof {
                        assert(token_views(tokens@) =~= done.push(first));
                        if let Ok(more) = rest {
                            assert(done + (seq![first] + more) =~= done.push(first) + more);
                        }
                    }
                    index += width;
                    pos += width;
                },
                None => {
                    return Err(undefined(line, pos));
                },
            }
        }
    }
    let ghost done = token_views(tokens@);
    tokens.push(Token::new(TokenType::Eof, line, pos));
    proof {
        let last = TokenView { typ: TokenTypeView::Eof, line: line as nat, pos: pos as nat };
        assert(token_views(tokens@) =~= done + seq![last]);
    }
    Ok(tokens)
}

} // verus!
