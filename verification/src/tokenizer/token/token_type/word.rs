//! The keywords of the language.

use vstd::prelude::*;
use vstd::string::*;

verus! {

/// A keyword.
#[derive(Debug, Clone, Copy, PartialEq, Eq, Structural)]
pub enum Word {
    Function,
    If,
    Else,
    For,
    While,
    Loop,
    Int,
    Float,
}

impl Word {
    /// The characters that write this keyword in source text.
    pub open spec fn spelling(self) -> Seq<char> {
        match self {
            Word::Function => seq!['f', 'n'],
            Word::If => seq!['i', 'f'],
            Word::Else => seq!['e', 'l', 's', 'e'],
            Word::For => seq!['f', 'o', 'r'],
            Word::While => seq!['w', 'h', 'i', 'l', 'e'],
            Word::Loop => seq!['l', 'o', 'o', 'p'],
            Word::Int => seq!['i', 'n', 't'],
            Word::Float => seq!['f', 'l', 't'],
        }
    }

    /// The characters that write this keyword in source text.
    pub fn to_str(&self) -> (r: &'static str)
        ensures
            r@ == self.spelling(),
            r@.len() == r.spec_bytes().len(),
            1 <= r@.len() <= 5,
    {
        proof {
            reveal_strlit("fn");
            reveal_strlit("if");
            reveal_strlit("else");
            reveal_strlit("for");
            reveal_strlit("while");
            reveal_strlit("loop");
            reveal_strlit("int");
            reveal_strlit("flt");
        }
        let r = match self {
            Word::Function => "fn",
            Word::If => "if",
            Word::Else => "else",
            Word::For => "for",
            Word::While => "while",
            Word::Loop => "loop",
            Word::Int => "int",
            Word::Float => "flt",
        };
        proof {
            assert(r@ =~= self.spelling());
            assert(is_ascii(r));
            is_ascii_spec_bytes(r);
        }
        r
    }

    /// Every keyword, in the order of declaration.
    pub fn get_list() -> (r: Vec<Word>)
        ensures
            r@ == keywords(),
    {
        let r = vec![
            Word::Function,
            Word::If,
            Word::Else,
            Word::For,
            Word::While,
            Word::Loop,
            Word::Int,
            Word::Float,
        ];
        assert(r@ =~= keywords());
        r
    }
}

/// Every keyword, in the order of declaration.
pub open spec fn keywords() -> Seq<Word> {
    seq![
        Word::Function,
        Word::If,
        Word::Else,
        Word::For,
        Word::While,
        Word::Loop,
        Word::Int,
        Word::Float,
    ]
}

/// The first keyword from position `from` of `keywords` on that `s`
/// writes.
pub open spec fn keyword_from(s: Seq<char>, from: nat) -> Option<Word>
    decreases keywords().len() - from,
{
    if from >= keywords().len() {
        None
    } else if keywords()[from as int].spelling() == s {
        Some(keywords()[from as int])
    } else {
        keyword_from(s, from + 1)
    }
}

/// The keyword that `s` writes, if it writes one.
pub open spec fn keyword_of(s: Seq<char>) -> Option<Word> {
    keyword_from(s, 0)
}

/// `keyword_of` gives a keyword exactly for its spelling.
pub proof fn lemma_keyword_of(s: Seq<char>)
    ensures
        match keyword_of(s) {
            Some(w) => w.spelling() == s,
            None => forall|w: Word| #[trigger] w.spelling() != s,
        },
{
    reveal_with_fuel(keyword_from, 9);
    assert forall|w: Word| keyword_of(s) is None implies #[trigger] w.spelling() != s by {
        assert(keywords()[0] == Word::Function);
        assert(keywords()[1] == Word::If);
        assert(keywords()[2] == Word::Else);
        assert(keywords()[3] == Word::For);
        assert(keywords()[4] == Word::While);
        assert(keywords()[5] == Word::Loop);
        assert(keywords()[6] == Word::Int);
        assert(keywords()[7] == Word::Float);
    }
}

} // verus!
