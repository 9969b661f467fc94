//! What the tokenizer reads, as a function from the characters of the
//! source text to its tokens.
//!
//! A line break starts a new line at column 0; a space, a tab and a
//! carriage return are skipped. A digit starts a number, a character that
//! starts some symbol starts a symbol, and every other character starts a
//! word.

use vstd::prelude::*;
use crate::text::{decimal, decimal_value, is_digit};
use crate::tokenizer::token::{Place, TokenView};
use crate::tokenizer::token::token_type::TokenTypeView;
use crate::tokenizer::token::token_type::symbol::{
    Symbol, is_symbol_start, lemma_len_order, lemma_symbol_chars, len_order, single,
};
use crate::tokenizer::token::token_type::word::{keyword_of, lemma_keyword_of};

verus! {

/// Whether `c` is white space within a line.
pub open spec fn is_space(c: char) -> bool {
    c == ' ' || c == '\t' || c == '\r'
}

/// Whether `c` ends a word that stands before it.
pub open spec fn ends_word(c: char) -> bool {
    c == '\n' || is_space(c) || is_symbol_start(c)
}

/// Whether the characters of `text` stand in `s` from position `from` on.
pub open spec fn is_prefix_at(s: Seq<char>, from: nat, text: Seq<char>) -> bool {
    from + text.len() <= s.len() && s.subrange(from as int, (from + text.len()) as int) == text
}

/// The number of digits that stand in `s` from position `from` on.
pub open spec fn digit_run(s: Seq<char>, from: nat) -> nat
    decreases s.len() - from,
{
    if from < s.len() && is_digit(s[from as int]) {
        1 + digit_run(s, from + 1)
    } else {
        0
    }
}

/// The number of characters from position `from` on up to the next one that
/// ends a word.
pub open spec fn word_run(s: Seq<char>, from: nat) -> nat
    decreases s.len() - from,
{
    if from < s.len() && !ends_word(s[from as int]) {
        1 + word_run(s, from + 1)
    } else {
        0
    }
}

/// The first symbol of `len_order`, from position `rank` on, whose spelling
/// stands in `s` at `from`.
pub open spec fn symbol_from(s: Seq<char>, from: nat, rank: nat) -> Option<Symbol>
    decreases len_order().len() - rank,
{
    if rank >= len_order().len() {
        None
    } else if is_prefix_at(s, from, len_order()[rank as int].spelling()) {
        Some(len_order()[rank as int])
    } else {
        symbol_from(s, from, rank + 1)
    }
}

/// The symbol that is read in `s` at `from`.
pub open spec fn symbol_here(s: Seq<char>, from: nat) -> Option<Symbol> {
    symbol_from(s, from, 0)
}

/// A token's kind and the number of characters that spell it.
pub struct Lexeme {
    pub typ: TokenTypeView,
    pub width: nat,
}

/// The number that is read in `s` at `from`: the value of the longest run
/// of digits, where a signed 64-bit integer holds it.
pub open spec fn number_at(s: Seq<char>, from: nat) -> Option<Lexeme> {
    let width = digit_run(s, from);
    let value = decimal_value(s.subrange(from as int, (from + width) as int));
    if value <= i64::MAX {
        Some(Lexeme { typ: TokenTypeView::Number(value as i64), width })
    } else {
        None
    }
}

/// The word that is read in `s` at `from`: a keyword where the characters
/// up to the next one that ends a word spell one, else an identifier.
pub open spec fn word_at(s: Seq<char>, from: nat) -> Lexeme {
    let width = word_run(s, from);
    let text = s.subrange(from as int, (from + width) as int);
    Lexeme {
        typ: match keyword_of(text) {
            Some(w) => TokenTypeView::Word(w),
            None => TokenTypeView::Ident(text),
        },
        width,
    }
}

/// The token that is read in `s` at `from`, where a character other than
/// white space stands; nothing where a number is out of range or no symbol's
/// spelling stands there.
pub open spec fn lexeme_at(s: Seq<char>, from: nat) -> Option<Lexeme>
    recommends
        from < s.len(),
{
    if is_digit(s[from as int]) {
        number_at(s, from)
    } else if is_symbol_start(s[from as int]) {
        match symbol_here(s, from) {
            Some(symbol) => Some(
                Lexeme { typ: TokenTypeView::Symbol(symbol), width: symbol.spelling().len() },
            ),
            None => None,
        }
    } else {
        Some(word_at(s, from))
    }
}

/// The tokens of `s` from position `from` on, which is at `line` and
/// `col`, with the end token behind them; or the place of the first
/// character at which no token is read.
pub open spec fn scan(s: Seq<char>, from: nat, line: nat, col: nat) -> Result<Seq<TokenView>, Place>
    decreases s.len() - from,
    via scan_decreases
{
    if from >= s.len() {
        Ok(seq![TokenView { typ: TokenTypeView::Eof, line, pos: col }])
    } else if s[from as int] == '\n' {
        scan(s, from + 1, line + 1, 0)
    } else if is_space(s[from as int]) {
        scan(s, from + 1, line, col + 1)
    } else {
        match lexeme_at(s, from) {
            None => Err(Place { line, pos: col }),
            Some(lexeme) => match scan(s, from + lexeme.width, line, col + lexeme.width) {
                Err(e) => Err(e),
                Ok(rest) => Ok(seq![TokenView { typ: lexeme.typ, line, pos: col }] + rest),
            },
        }
    }
}

#[via_fn]
proof fn scan_decreases(s: Seq<char>, from: nat, line: nat, col: nat) {
    if from < s.len() && s[from as int] != '\n' && !is_space(s[from as int]) {
        lemma_lexeme_width(s, from);
    }
}

/// The tokens of the source text `s`.
pub open spec fn tokens_of(s: Seq<char>) -> Result<Seq<TokenView>, Place> {
    scan(s, 0, 0, 0)
}

/// The message that reports a character at which no token is read.
pub open spec fn undefined_message(place: Place) -> Seq<char> {
    "Undefined Token("@ + decimal(place.line) + ":"@ + decimal(place.pos) + ")"@
}

/// A run of digits, and a run of word characters, ends within the text.
pub proof fn lemma_runs_within(s: Seq<char>, from: nat)
    requires
        from <= s.len(),
    ensures
        from + digit_run(s, from) <= s.len(),
        from + word_run(s, from) <= s.len(),
    decreases s.len() - from,
{
    if from < s.len() {
        lemma_runs_within(s, from + 1);
    }
}

/// A token that is read where a character other than white space stands
/// spans at least one character and ends within the text.
pub proof fn lemma_lexeme_width(s: Seq<char>, from: nat)
    requires
        from < s.len(),
        s[from as int] != '\n',
        !is_space(s[from as int]),
    ensures
        lexeme_at(s, from) matches Some(lexeme) ==> 1 <= lexeme.width && from + lexeme.width
            <= s.len(),
{
    lemma_runs_within(s, from);
    lemma_len_order();
    if is_digit(s[from as int]) {
    } else if is_symbol_start(s[from as int]) {
        lemma_longest_match(s, from);
    } else {
    }
}

/// Longest match: the symbol that is read at a position is the one whose
/// spelling stands there and is at least as long as that of every other
/// symbol whose spelling stands there; none is read exactly where no
/// symbol's spelling stands.
pub proof fn lemma_longest_match(s: Seq<char>, from: nat)
    ensures
        match symbol_here(s, from) {
            Some(found) => is_prefix_at(s, from, found.spelling()) && forall|other: Symbol|
                is_prefix_at(s, from, #[trigger] other.spelling()) ==> other.spelling().len()
                    <= found.spelling().len(),
            None => forall|other: Symbol| !is_prefix_at(s, from, #[trigger] other.spelling()),
        },
{
    lemma_len_order();
    lemma_symbol_from(s, from, 0);
    match symbol_here(s, from) {
        Some(found) => {
            assert forall|other: Symbol|
                is_prefix_at(s, from, #[trigger] other.spelling()) implies other.spelling().len()
                <= found.spelling().len() by {
                assert(len_order()[other.rank()] == other);
            }
        },
        None => {
            assert forall|other: Symbol| !is_prefix_at(s, from, #[trigger] other.spelling()) by {
                assert(len_order()[other.rank()] == other);
            }
        },
    }
}

/// What `symbol_from` finds is the first match from `rank` on.
proof fn lemma_symbol_from(s: Seq<char>, from: nat, rank: nat)
    ensures
        match symbol_from(s, from, rank) {
            Some(found) => rank <= found.rank() && is_prefix_at(s, from, found.spelling())
                && forall|i: int|
                rank <= i < found.rank() ==> !is_prefix_at(
                    s,
                    from,
                    (#[trigger] len_order()[i]).spelling(),
                ),
            None => forall|i: int|
                rank <= i < len_order().len() ==> !is_prefix_at(
                    s,
                    from,
                    (#[trigger] len_order()[i]).spelling(),
                ),
        },
    decreases len_order().len() - rank,
{
    lemma_len_order();
    if rank < len_order().len() && !is_prefix_at(s, from, len_order()[rank as int].spelling()) {
        lemma_symbol_from(s, from, rank + 1);
    }
}

/// Where a character stands that starts some symbol, a symbol is read: the
/// character alone spells one.
pub proof fn lemma_symbol_read(s: Seq<char>, from: nat)
    requires
        from < s.len(),
        is_symbol_start(s[from as int]),
    ensures
        symbol_here(s, from) is Some,
{
    lemma_symbol_chars();
    lemma_longest_match(s, from);
    let alone = single(s[from as int]);
    assert(s.subrange(from as int, (from + 1) as int) =~= seq![s[from as int]]);
    assert(is_prefix_at(s, from, alone.spelling()));
}

/// Every token is spelled by the characters of its span: a symbol and a
/// keyword by their spelling, an identifier by its name, which is no
/// keyword, and a number by digits that write its value.
pub proof fn lemma_lexeme_spelled(s: Seq<char>, from: nat)
    requires
        from < s.len(),
        s[from as int] != '\n',
        !is_space(s[from as int]),
    ensures
        lexeme_at(s, from) matches Some(lexeme) ==> {
            let text = s.subrange(from as int, (from + lexeme.width) as int);
            match lexeme.typ {
                TokenTypeView::Symbol(symbol) => text == symbol.spelling(),
                TokenTypeView::Word(word) => text == word.spelling(),
                TokenTypeView::Ident(name) => text == name && keyword_of(name) is None,
                TokenTypeView::Number(n) => decimal_value(text) == n && forall|k: int|
                    0 <= k < text.len() ==> is_digit(#[trigger] text[k]),
                TokenTypeView::Eof => false,
            }
        },
{
    lemma_runs_within(s, from);
    if is_digit(s[from as int]) {
        lemma_digit_run(s, from);
    } else if is_symbol_start(s[from as int]) {
        lemma_longest_match(s, from);
    } else {
        lemma_keyword_of(s.subrange(from as int, (from + word_run(s, from)) as int));
    }
}

/// No token is read only where a number is out of range: at every other
/// character that is no white space a token is read.
pub proof fn lemma_unread(s: Seq<char>, from: nat)
    requires
        from < s.len(),
        s[from as int] != '\n',
        !is_space(s[from as int]),
        lexeme_at(s, from) is None,
    ensures
        is_digit(s[from as int]),
        decimal_value(s.subrange(from as int, (from + digit_run(s, from)) as int)) > i64::MAX,
{
    if !is_digit(s[from as int]) && is_symbol_start(s[from as int]) {
        lemma_symbol_read(s, from);
    }
}

/// The characters that spell one token: `width` of them from `start` on.
pub struct Span {
    pub start: nat,
    pub width: nat,
}

/// The spans of the tokens that are read in `s` from position `from` on, up
/// to the end of the text or to the first character at which no token is
/// read.
pub open spec fn spans_of(s: Seq<char>, from: nat) -> Seq<Span>
    decreases s.len() - from,
    via spans_decreases
{
    if from >= s.len() {
        Seq::empty()
    } else if s[from as int] == '\n' || is_space(s[from as int]) {
        spans_of(s, from + 1)
    } else {
        match lexeme_at(s, from) {
            None => Seq::empty(),
            Some(lexeme) => seq![Span { start: from, width: lexeme.width }] + spans_of(
                s,
                from + lexeme.width,
            ),
        }
    }
}

#[via_fn]
proof fn spans_decreases(s: Seq<char>, from: nat) {
    if from < s.len() && s[from as int] != '\n' && !is_space(s[from as int]) {
        lemma_lexeme_width(s, from);
    }
}

/// Where the tokens of a text are read, the last of them is the end token
/// and no other is; each of the others is spelled by one or more
/// characters of the text, from which its kind is read, and the spans
/// follow each other without overlap.
pub proof fn lemma_token_spans(s: Seq<char>, from: nat, line: nat, col: nat)
    requires
        from <= s.len(),
    ensures
        scan(s, from, line, col) matches Ok(tokens) ==> {
            let spans = spans_of(s, from);
            &&& tokens.len() == spans.len() + 1
            &&& tokens.last().typ == TokenTypeView::Eof
            &&& forall|i: int|
                0 <= i < spans.len() ==> {
                    &&& from <= (#[trigger] spans[i]).start
                    &&& 1 <= spans[i].width
                    &&& spans[i].start + spans[i].width <= s.len()
                    &&& lexeme_at(s, spans[i].start) == Some(
                        Lexeme { typ: tokens[i].typ, width: spans[i].width },
                    )
                    &&& tokens[i].typ != TokenTypeView::Eof
                    &&& i + 1 < spans.len() ==> spans[i].start + spans[i].width <= spans[i
                        + 1].start
                }
        },
    decreases s.len() - from,
{
    if from >= s.len() {
    } else if s[from as int] == '\n' {
        lemma_token_spans(s, from + 1, line + 1, 0);
    } else if is_space(s[from as int]) {
        lemma_token_spans(s, from + 1, line, col + 1);
    } else {
        lemma_lexeme_width(s, from);
        match lexeme_at(s, from) {
            None => {},
            Some(lexeme) => {
                lemma_token_spans(s, from + lexeme.width, line, col + lexeme.width);
                if let Ok(rest) = scan(s, from + lexeme.width, line, col + lexeme.width) {
                    let tokens = scan(s, from, line, col)->Ok_0;
                    let spans = spans_of(s, from);
                    let later = spans_of(s, from + lexeme.width);
                    assert(spans[0] == Span { start: from, width: lexeme.width });
                    assert forall|i: int| 0 <= i < spans.len() implies {
                        &&& from <= (#[trigger] spans[i]).start
                        &&& 1 <= spans[i].width
                        &&& spans[i].start + spans[i].width <= s.len()
                        &&& lexeme_at(s, spans[i].start) == Some(
                            Lexeme { typ: tokens[i].typ, width: spans[i].width },
                        )
                        &&& tokens[i].typ != TokenTypeView::Eof
                        &&& i + 1 < spans.len() ==> spans[i].start + spans[i].width <= spans[i
                            + 1].start
                    } by {
                        if i > 0 {
                            assert(spans[i] == later[i - 1]);
                            assert(tokens[i] == rest[i - 1]);
                            if i + 1 < spans.len() {
                                assert(spans[i + 1] == later[i]);
                            }
                        } else {
                            if 1 < spans.len() {
                                assert(spans[1] == later[0]);
                            }
                        }
                    }
                }
            },
        }
    }
}

/// A text of white space and line breaks only has the end token as its
/// only token.
pub proof fn lemma_blank_text(s: Seq<char>, from: nat, line: nat, col: nat)
    requires
        forall|i: int| from <= i < s.len() ==> s[i] == '\n' || is_space(#[trigger] s[i]),
    ensures
        scan(s, from, line, col) matches Ok(tokens) && tokens.len() == 1 && tokens[0].typ
            == TokenTypeView::Eof,
    decreases s.len() - from,
{
    if from >= s.len() {
    } else if s[from as int] == '\n' {
        lemma_blank_text(s, from + 1, line + 1, 0);
    } else {
        assert(is_space(s[from as int]));
        lemma_blank_text(s, from + 1, line, col + 1);
    }
}

/// The line of the character at `index`: the number of line breaks before
/// it.
pub open spec fn line_of(s: Seq<char>, index: nat) -> nat
    decreases index,
{
    if index == 0 {
        0
    } else if s[index - 1] == '\n' {
        line_of(s, (index - 1) as nat) + 1
    } else {
        line_of(s, (index - 1) as nat)
    }
}

/// The column of the character at `index`: the number of characters
/// between it and the last line break before it, or the start of the text.
pub open spec fn column_of(s: Seq<char>, index: nat) -> nat
    decreases index,
{
    if index == 0 {
        0
    } else if s[index - 1] == '\n' {
        0
    } else {
        column_of(s, (index - 1) as nat) + 1
    }
}

/// Characters other than line breaks keep the line and advance the column.
proof fn lemma_same_line(s: Seq<char>, from: nat, width: nat)
    requires
        from + width <= s.len(),
        forall|k: int| from <= k < from + width ==> s[k] != '\n',
    ensures
        line_of(s, from + width) == line_of(s, from),
        column_of(s, from + width) == column_of(s, from) + width,
    decreases width,
{
    if width > 0 {
        lemma_same_line(s, from, (width - 1) as nat);
    }
}

/// The digits of a run are digits.
proof fn lemma_digit_run(s: Seq<char>, from: nat)
    ensures
        forall|k: int| from <= k < from + digit_run(s, from) ==> is_digit(#[trigger] s[k]),
    decreases s.len() - from,
{
    if from < s.len() && is_digit(s[from as int]) {
        lemma_digit_run(s, from + 1);
    }
}

/// No character of a word ends a word.
proof fn lemma_word_run(s: Seq<char>, from: nat)
    ensures
        forall|k: int| from <= k < from + word_run(s, from) ==> !ends_word(#[trigger] s[k]),
    decreases s.len() - from,
{
    if from < s.len() && !ends_word(s[from as int]) {
        lemma_word_run(s, from + 1);
    }
}

/// No symbol is spelled with a line break.
proof fn lemma_symbol_line(symbol: Symbol)
    ensures
        forall|k: int| 0 <= k < symbol.spelling().len() ==> symbol.spelling()[k] != '\n',
{
}

/// No token is spelled with a line break.
proof fn lemma_lexeme_line(s: Seq<char>, from: nat)
    requires
        from < s.len(),
        s[from as int] != '\n',
        !is_space(s[from as int]),
    ensures
        lexeme_at(s, from) matches Some(lexeme) ==> forall|k: int|
            from <= k < from + lexeme.width ==> s[k] != '\n',
{
    lemma_digit_run(s, from);
    lemma_word_run(s, from);
    if !is_digit(s[from as int]) && is_symbol_start(s[from as int]) {
        lemma_longest_match(s, from);
        if let Some(symbol) = symbol_here(s, from) {
            lemma_symbol_line(symbol);
            let text = s.subrange(from as int, (from + symbol.spelling().len()) as int);
            assert forall|k: int| from <= k < from + symbol.spelling().len() implies s[k]
                != '\n' by {
                assert(s[k] == text[k - from]);
            }
        }
    }
}

/// Where the tokens of a text are read, each token carries the line and
/// the column of the first character of its span, and the end token those
/// of the place behind the last character.
pub proof fn lemma_token_places(s: Seq<char>, from: nat, line: nat, col: nat)
    requires
        from <= s.len(),
        line == line_of(s, from),
        col == column_of(s, from),
    ensures
        scan(s, from, line, col) matches Ok(tokens) ==> {
            let spans = spans_of(s, from);
            &&& tokens.len() == spans.len() + 1
            &&& tokens.last().line == line_of(s, s.len())
            &&& tokens.last().pos == column_of(s, s.len())
            &&& forall|i: int|
                0 <= i < spans.len() ==> (#[trigger] tokens[i]).line == line_of(
                    s,
                    spans[i].start,
                ) && tokens[i].pos == column_of(s, spans[i].start)
        },
    decreases s.len() - from,
{
    if from >= s.len() {
    } else if s[from as int] == '\n' {
        lemma_token_places(s, from + 1, line + 1, 0);
    } else if is_space(s[from as int]) {
        lemma_token_places(s, from + 1, line, col + 1);
    } else {
        lemma_lexeme_width(s, from);
        lemma_lexeme_line(s, from);
        match lexeme_at(s, from) {
            None => {},
            Some(lexeme) => {
                lemma_same_line(s, from, lexeme.width);
                lemma_token_places(s, from + lexeme.width, line, col + lexeme.width);
                if let Ok(rest) = scan(s, from + lexeme.width, line, col + lexeme.width) {
                    let tokens = scan(s, from, line, col)->Ok_0;
                    let spans = spans_of(s, from);
                    let later = spans_of(s, from + lexeme.width);
                    assert(spans[0] == Span { start: from, width: lexeme.width });
                    assert(tokens.last() == rest.last());
                    assert forall|i: int| 0 <= i < spans.len() implies (#[trigger] tokens[i]).line
                        == line_of(s, spans[i].start) && tokens[i].pos == column_of(
                        s,
                        spans[i].start,
                    ) by {
                        if i > 0 {
                            assert(spans[i] == later[i - 1]);
                            assert(tokens[i] == rest[i - 1]);
                        }
                    }
                }
            },
        }
    }
}

} // verus!
