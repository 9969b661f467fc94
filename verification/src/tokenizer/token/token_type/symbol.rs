//! The punctuation and operator symbols of the language.

use vstd::prelude::*;
use vstd::string::*;

verus! {

/// A punctuation or operator symbol.
#[derive(Debug, Clone, Copy, PartialEq, Eq, Structural)]
pub enum Symbol {
    Add,
    Sub,
    Mul,
    Div,
    Rem,
    Increment,
    Decrement,
    Power,
    Root,
    BitNot,
    BitAnd,
    BitXor,
    BitOr,
    LShift,
    RShift,
    Equal,
    NotEqual,
    Less,
    /// `<==`: less than or equal.
    LessOrEqual,
    Greater,
    /// `>==`: greater than or equal.
    GreaterOrEqual,
    Not,
    And,
    Or,
    Assign,
    AddAssign,
    SubAssign,
    MulAssign,
    DivAssign,
    RemAssign,
    PowerAssign,
    RootAssign,
    AndAssign,
    XorAssign,
    OrAssign,
    LShiftAssign,
    RShiftAssign,
    /// `<=`: the variable on the left takes the value on the right where
    /// that is smaller.
    ChangeMin,
    /// `>=`: the variable on the left takes the value on the right where
    /// that is larger.
    ChangeMax,
    /// `<=>`: the two variables exchange their values.
    Exchange,
    OpenBracket,
    CloseBracket,
    OpenBrace,
    CloseBrace,
    OpenSquare,
    CloseSquare,
    Comma,
    /// `;`: ends a statement whose value is dropped, and a clause of a
    /// `for` header.
    End,
    /// `:`: ends a statement whose value the function returns.
    Return,
}

impl Symbol {
    /// The characters that write this symbol in source text.
    pub open spec fn spelling(self) -> Seq<char> {
        match self {
            Symbol::Add => seq!['+'],
            Symbol::Sub => seq!['-'],
            Symbol::Mul => seq!['*'],
            Symbol::Div => seq!['/'],
            Symbol::Rem => seq!['%'],
            Symbol::Increment => seq!['+', '+'],
            Symbol::Decrement => seq!['-', '-'],
            Symbol::Power => seq!['*', '*'],
            Symbol::Root => seq!['/', '/'],
            Symbol::BitNot => seq!['~'],
            Symbol::BitAnd => seq!['&'],
            Symbol::BitXor => seq!['^'],
            Symbol::BitOr => seq!['|'],
            Symbol::LShift => seq!['<', '<'],
            Symbol::RShift => seq!['>', '>'],
            Symbol::Equal => seq!['=', '='],
            Symbol::NotEqual => seq!['!', '='],
            Symbol::Less => seq!['<'],
            Symbol::LessOrEqual => seq!['<', '=', '='],
            Symbol::Greater => seq!['>'],
            Symbol::GreaterOrEqual => seq!['>', '=', '='],
            Symbol::Not => seq!['!'],
            Symbol::And => seq!['&', '&'],
            Symbol::Or => seq!['|', '|'],
            Symbol::Assign => seq!['='],
            Symbol::AddAssign => seq!['+', '='],
            Symbol::SubAssign => seq!['-', '='],
            Symbol::MulAssign => seq!['*', '='],
            Symbol::DivAssign => seq!['/', '='],
            Symbol::RemAssign => seq!['%', '='],
            Symbol::PowerAssign => seq!['*', '*', '='],
            Symbol::RootAssign => seq!['/', '/', '='],
            Symbol::AndAssign => seq!['&', '='],
            Symbol::XorAssign => seq!['^', '='],
            Symbol::OrAssign => seq!['|', '='],
            Symbol::LShiftAssign => seq!['<', '<', '='],
            Symbol::RShiftAssign => seq!['>', '>', '='],
            Symbol::ChangeMin => seq!['<', '='],
            Symbol::ChangeMax => seq!['>', '='],
            Symbol::Exchange => seq!['<', '=', '>'],
            Symbol::OpenBracket => seq!['('],
            Symbol::CloseBracket => seq![')'],
            Symbol::OpenBrace => seq!['{'],
            Symbol::CloseBrace => seq!['}'],
            Symbol::OpenSquare => seq!['['],
            Symbol::CloseSquare => seq![']'],
            Symbol::Comma => seq![','],
            Symbol::End => seq![';'],
            Symbol::Return => seq![':'],
        }
    }

    /// The position of this symbol in `len_order`.
    pub open spec fn rank(self) -> int {
        match self {
            Symbol::LessOrEqual => 0,
            Symbol::GreaterOrEqual => 1,
            Symbol::PowerAssign => 2,
            Symbol::RootAssign => 3,
            Symbol::LShiftAssign => 4,
            Symbol::RShiftAssign => 5,
            Symbol::Exchange => 6,
            Symbol::Increment => 7,
            Symbol::Decrement => 8,
            Symbol::Power => 9,
            Symbol::Root => 10,
            Symbol::LShift => 11,
            Symbol::RShift => 12,
            Symbol::Equal => 13,
            Symbol::NotEqual => 14,
            Symbol::And => 15,
            Symbol::Or => 16,
            Symbol::AddAssign => 17,
            Symbol::SubAssign => 18,
            Symbol::MulAssign => 19,
            Symbol::DivAssign => 20,
            Symbol::RemAssign => 21,
            Symbol::AndAssign => 22,
            Symbol::XorAssign => 23,
            Symbol::OrAssign => 24,
            Symbol::ChangeMin => 25,
            Symbol::ChangeMax => 26,
            Symbol::Add => 27,
            Symbol::Sub => 28,
            Symbol::Mul => 29,
            Symbol::Div => 30,
            Symbol::Rem => 31,
            Symbol::BitNot => 32,
            Symbol::BitAnd => 33,
            Symbol::BitXor => 34,
            Symbol::BitOr => 35,
            Symbol::Less => 36,
            Symbol::Greater => 37,
            Symbol::Not => 38,
            Symbol::Assign => 39,
            Symbol::OpenBracket => 40,
            Symbol::CloseBracket => 41,
            Symbol::OpenBrace => 42,
            Symbol::CloseBrace => 43,
            Symbol::OpenSquare => 44,
            Symbol::CloseSquare => 45,
            Symbol::Comma => 46,
            Symbol::End => 47,
            Symbol::Return => 48,
        }
    }

    /// The characters that write this symbol in source text.
    pub fn to_str(&self) -> (r: &'static str)
        ensures
            r@ == self.spelling(),
            r@.len() == r.spec_bytes().len(),
            1 <= r@.len() <= 3,
    {
        proof {
            reveal_strlit("+");
            reveal_strlit("-");
            reveal_strlit("*");
            reveal_strlit("/");
            reveal_strlit("%");
            reveal_strlit("++");
            reveal_strlit("--");
            reveal_strlit("**");
            reveal_strlit("//");
            reveal_strlit("~");
            reveal_strlit("&");
            reveal_strlit("^");
            reveal_strlit("|");
            reveal_strlit("<<");
            reveal_strlit(">>");
            reveal_strlit("==");
            reveal_strlit("!=");
            reveal_strlit("<");
            reveal_strlit("<==");
            reveal_strlit(">");
            reveal_strlit(">==");
            reveal_strlit("!");
            reveal_strlit("&&");
            reveal_strlit("||");
            reveal_strlit("=");
            reveal_strlit("+=");
            reveal_strlit("-=");
            reveal_strlit("*=");
            reveal_strlit("/=");
            reveal_strlit("%=");
            reveal_strlit("**=");
            reveal_strlit("//=");
            reveal_strlit("&=");
            reveal_strlit("^=");
            reveal_strlit("|=");
            reveal_strlit("<<=");
            reveal_strlit(">>=");
            reveal_strlit("<=");
            reveal_strlit(">=");
            reveal_strlit("<=>");
            reveal_strlit("(");
            reveal_strlit(")");
            reveal_strlit("{");
            reveal_strlit("}");
            reveal_strlit("[");
            reveal_strlit("]");
            reveal_strlit(",");
            reveal_strlit(";");
            reveal_strlit(":");
        }
        let r = match self {
            Symbol::Add => "+",
            Symbol::Sub => "-",
            Symbol::Mul => "*",
            Symbol::Div => "/",
            Symbol::Rem => "%",
            Symbol::Increment => "++",
            Symbol::Decrement => "--",
            Symbol::Power => "**",
            Symbol::Root => "//",
            Symbol::BitNot => "~",
            Symbol::BitAnd => "&",
            Symbol::BitXor => "^",
            Symbol::BitOr => "|",
            Symbol::LShift => "<<",
            Symbol::RShift => ">>",
            Symbol::Equal => "==",
            Symbol::NotEqual => "!=",
            Symbol::Less => "<",
            Symbol::LessOrEqual => "<==",
            Symbol::Greater => ">",
            Symbol::GreaterOrEqual => ">==",
            Symbol::Not => "!",
            Symbol::And => "&&",
            Symbol::Or => "||",
            Symbol::Assign => "=",
            Symbol::AddAssign => "+=",
            Symbol::SubAssign => "-=",
            Symbol::MulAssign => "*=",
            Symbol::DivAssign => "/=",
            Symbol::RemAssign => "%=",
            Symbol::PowerAssign => "**=",
            Symbol::RootAssign => "//=",
            Symbol::AndAssign => "&=",
            Symbol::XorAssign => "^=",
            Symbol::OrAssign => "|=",
            Symbol::LShiftAssign => "<<=",
            Symbol::RShiftAssign => ">>=",
            Symbol::ChangeMin => "<=",
            Symbol::ChangeMax => ">=",
            Symbol::Exchange => "<=>",
            Symbol::OpenBracket => "(",
            Symbol::CloseBracket => ")",
            Symbol::OpenBrace => "{",
            Symbol::CloseBrace => "}",
            Symbol::OpenSquare => "[",
            Symbol::CloseSquare => "]",
            Symbol::Comma => ",",
            Symbol::End => ";",
            Symbol::Return => ":",
        };
        proof {
            assert(r@ =~= self.spelling());
            assert(is_ascii(r));
            is_ascii_spec_bytes(r);
        }
        r
    }

    /// Every symbol, the longest spellings first; among spellings of one
    /// length, in the order of declaration.
    pub fn get_len_order_list() -> (r: Vec<Symbol>)
        ensures
            r@ == len_order(),
    {
        let r = vec![
            Symbol::LessOrEqual,
            Symbol::GreaterOrEqual,
            Symbol::PowerAssign,
            Symbol::RootAssign,
            Symbol::LShiftAssign,
            Symbol::RShiftAssign,
            Symbol::Exchange,
            Symbol::Increment,
            Symbol::Decrement,
            Symbol::Power,
            Symbol::Root,
            Symbol::LShift,
            Symbol::RShift,
            Symbol::Equal,
            Symbol::NotEqual,
            Symbol::And,
            Symbol::Or,
            Symbol::AddAssign,
            Symbol::SubAssign,
            Symbol::MulAssign,
            Symbol::DivAssign,
            Symbol::RemAssign,
            Symbol::AndAssign,
            Symbol::XorAssign,
            Symbol::OrAssign,
            Symbol::ChangeMin,
            Symbol::ChangeMax,
            Symbol::Add,
            Symbol::Sub,
            Symbol::Mul,
            Symbol::Div,
            Symbol::Rem,
            Symbol::BitNot,
            Symbol::BitAnd,
            Symbol::BitXor,
            Symbol::BitOr,
            Symbol::Less,
            Symbol::Greater,
            Symbol::Not,
            Symbol::Assign,
            Symbol::OpenBracket,
            Symbol::CloseBracket,
            Symbol::OpenBrace,
            Symbol::CloseBrace,
            Symbol::OpenSquare,
            Symbol::CloseSquare,
            Symbol::Comma,
            Symbol::End,
            Symbol::Return,
        ];
        assert(r@ =~= len_order());
        r
    }

    /// The characters with which a symbol starts, each once, in ascending
    /// order.
    pub fn get_symbol_char_list() -> (r: Vec<char>)
        ensures
            r@ == symbol_chars(),
    {
        let r = vec![
            '!', '%', '&', '(', ')', '*', '+', ',', '-', '/', ':', ';', '<', '=', '>', '[', ']', '^',
            '{', '|', '}', '~',
        ];
        assert(r@ =~= symbol_chars());
        r
    }
}

/// Every symbol, the longest spellings first; among spellings of one
/// length, in the order of declaration.
pub open spec fn len_order() -> Seq<Symbol> {
    seq![
        Symbol::LessOrEqual,
        Symbol::GreaterOrEqual,
        Symbol::PowerAssign,
        Symbol::RootAssign,
        Symbol::LShiftAssign,
        Symbol::RShiftAssign,
        Symbol::Exchange,
        Symbol::Increment,
        Symbol::Decrement,
        Symbol::Power,
        Symbol::Root,
        Symbol::LShift,
        Symbol::RShift,
        Symbol::Equal,
        Symbol::NotEqual,
        Symbol::And,
        Symbol::Or,
        Symbol::AddAssign,
        Symbol::SubAssign,
        Symbol::MulAssign,
        Symbol::DivAssign,
        Symbol::RemAssign,
        Symbol::AndAssign,
        Symbol::XorAssign,
        Symbol::OrAssign,
        Symbol::ChangeMin,
        Symbol::ChangeMax,
        Symbol::Add,
        Symbol::Sub,
        Symbol::Mul,
        Symbol::Div,
        Symbol::Rem,
        Symbol::BitNot,
        Symbol::BitAnd,
        Symbol::BitXor,
        Symbol::BitOr,
        Symbol::Less,
        Symbol::Greater,
        Symbol::Not,
        Symbol::Assign,
        Symbol::OpenBracket,
        Symbol::CloseBracket,
        Symbol::OpenBrace,
        Symbol::CloseBrace,
        Symbol::OpenSquare,
        Symbol::CloseSquare,
        Symbol::Comma,
        Symbol::End,
        Symbol::Return,
    ]
}

/// The characters with which a symbol starts, each once, in ascending
/// order.
pub open spec fn symbol_chars() -> Seq<char> {
    seq![
        '!', '%', '&', '(', ')', '*', '+', ',', '-', '/', ':', ';', '<', '=', '>', '[', ']', '^', '{',
        '|', '}', '~',
    ]
}

/// Whether some symbol starts with `c`.
pub open spec fn is_symbol_start(c: char) -> bool {
    exists|s: Symbol| #[trigger] s.spelling()[0] == c
}

/// The position of `c` in `symbol_chars`, for a character that stands
/// there.
pub open spec fn char_rank(c: char) -> int {
    if c == '!' {
        0
    } else if c == '%' {
        1
    } else if c == '&' {
        2
    } else if c == '(' {
        3
    } else if c == ')' {
        4
    } else if c == '*' {
        5
    } else if c == '+' {
        6
    } else if c == ',' {
        7
    } else if c == '-' {
        8
    } else if c == '/' {
        9
    } else if c == ':' {
        10
    } else if c == ';' {
        11
    } else if c == '<' {
        12
    } else if c == '=' {
        13
    } else if c == '>' {
        14
    } else if c == '[' {
        15
    } else if c == ']' {
        16
    } else if c == '^' {
        17
    } else if c == '{' {
        18
    } else if c == '|' {
        19
    } else if c == '}' {
        20
    } else if c == '~' {
        21
    } else {
        -1
    }
}

/// The symbol that `c` alone writes, for a character of `symbol_chars`.
pub open spec fn single(c: char) -> Symbol {
    if c == '!' {
        Symbol::Not
    } else if c == '%' {
        Symbol::Rem
    } else if c == '&' {
        Symbol::BitAnd
    } else if c == '(' {
        Symbol::OpenBracket
    } else if c == ')' {
        Symbol::CloseBracket
    } else if c == '*' {
        Symbol::Mul
    } else if c == '+' {
        Symbol::Add
    } else if c == ',' {
        Symbol::Comma
    } else if c == '-' {
        Symbol::Sub
    } else if c == '/' {
        Symbol::Div
    } else if c == ':' {
        Symbol::Return
    } else if c == ';' {
        Symbol::End
    } else if c == '<' {
        Symbol::Less
    } else if c == '=' {
        Symbol::Assign
    } else if c == '>' {
        Symbol::Greater
    } else if c == '[' {
        Symbol::OpenSquare
    } else if c == ']' {
        Symbol::CloseSquare
    } else if c == '^' {
        Symbol::BitXor
    } else if c == '{' {
        Symbol::OpenBrace
    } else if c == '|' {
        Symbol::BitOr
    } else if c == '}' {
        Symbol::CloseBrace
    } else if c == '~' {
        Symbol::BitNot
    } else {
        Symbol::End
    }
}

/// `len_order` holds every symbol, at its rank and nowhere else, and its
/// spellings never grow longer from one position to the next.
pub proof fn lemma_len_order()
    ensures
        forall|s: Symbol| 0 <= #[trigger] s.rank() < len_order().len() && len_order()[s.rank()] == s,
        forall|i: int| 0 <= i < len_order().len() ==> (#[trigger] len_order()[i]).rank() == i,
        forall|i: int, j: int|
            0 <= i <= j < len_order().len() ==> (#[trigger] len_order()[i]).spelling().len() >= (
            #[trigger] len_order()[j]).spelling().len(),
        forall|s: Symbol| 1 <= #[trigger] s.spelling().len() <= 3,
{
    assert forall|s: Symbol| 0 <= #[trigger] s.rank() < len_order().len() && len_order()[s.rank()]
        == s by {}
    assert forall|i: int| 0 <= i < len_order().len() implies (#[trigger] len_order()[i]).rank()
        == i by {}
    assert forall|s: Symbol| 1 <= #[trigger] s.spelling().len() <= 3 by {}
    assert forall|i: int| 0 <= i < len_order().len() implies (#[trigger] len_order()[i]).spelling().len()
        == (if i < 7 {
        3int
    } else if i < 27 {
        2int
    } else {
        1int
    }) by {}
}

/// `symbol_chars` holds exactly the characters with which a symbol starts,
/// in strictly ascending order, and each of them alone writes a symbol.
pub proof fn lemma_symbol_chars()
    ensures
        forall|c: char| is_symbol_start(c) <==> symbol_chars().contains(c),
        forall|c: char| #[trigger] is_symbol_start(c) ==> single(c).spelling() == seq![c],
        forall|i: int, j: int|
            0 <= i < j < symbol_chars().len() ==> symbol_chars()[i] < symbol_chars()[j],
{
    assert forall|c: char| is_symbol_start(c) implies symbol_chars().contains(c) && single(
        c,
    ).spelling() == seq![c] by {
        let s = choose|s: Symbol| #[trigger] s.spelling()[0] == c;
        assert(0 <= char_rank(c) < symbol_chars().len() && symbol_chars()[char_rank(c)] == c);
        assert(single(c).spelling() =~= seq![c]);
    }
    assert forall|c: char| symbol_chars().contains(c) implies is_symbol_start(c) by {
        assert(single(c).spelling()[0] == c);
    }
}

} // verus!
