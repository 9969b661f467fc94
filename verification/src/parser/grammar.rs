//! The grammar, as functions from a token sequence and a position to the
//! tree that is read there and the number of tokens it spans.
//!
//! ```text
//! program    := function* EOF
//! function   := 'fn' IDENT ( '[' (IDENT (',' IDENT)*)? ']' )? statement
//! statement  := '{' statement* '}'
//!             | 'if' expression statement ('else' statement)?
//!             | 'for' clause clause clause statement
//!             | 'while' expression statement
//!             | expression (';' | ':')
//! clause     := expression? ';'
//! expression := assign ('<=>' assign)?
//! assign     := infix(9) (assign-op assign)?
//! infix(n)   := infix(n-1) (op(n) infix(n-1))*      infix(-1) is powroot
//! infix(1)   := infix(0) (('+'|'-') infix(1))*
//! powroot    := unary (('**'|'//') powroot)?
//! unary      := ('-'|'~'|'!')? primary
//! primary    := '(' expression ')'
//!             | IDENT '(' (expression (',' expression)*)? ')'
//!             | IDENT ('++'|'--')?
//!             | NUMBER
//! ```
//!
//! A position at or beyond the end of the sequence reads as the end token.

use vstd::prelude::*;
use crate::parser::node::Ast;
use crate::parser::node::binary_operator::BinaryOperator;
use crate::parser::node::variable_type::VariableType;
use crate::tokenizer::token::{Place, TokenView};
use crate::tokenizer::token::token_type::TokenTypeView;
use crate::tokenizer::token::token_type::symbol::Symbol;
use crate::tokenizer::token::token_type::word::Word;

verus! {

/// What was read at a position: the tree, the number of tokens it spans,
/// and the names of the function's slots after it.
pub struct Parsed {
    pub node: Ast,
    pub used: nat,
    pub names: Seq<Seq<char>>,
}

/// What was read where a clause may be empty.
pub struct Clause {
    pub node: Option<Box<Ast>>,
    pub used: nat,
    pub names: Seq<Seq<char>>,
}

/// What was read of a list: its members, the tokens from the list's start
/// up to and with its closing bracket, and the names after it.
pub struct Listed {
    pub nodes: Seq<Ast>,
    pub used: nat,
    pub names: Seq<Seq<char>>,
}

/// Whether the token sequence ends in the end token.
pub open spec fn terminated(ts: Seq<TokenView>) -> bool {
    ts.len() > 0 && ts.last().typ == TokenTypeView::Eof
}

/// The kind of the token at `at`; the end beyond the sequence.
pub open spec fn kind_at(ts: Seq<TokenView>, at: nat) -> TokenTypeView {
    if at < ts.len() {
        ts[at as int].typ
    } else {
        TokenTypeView::Eof
    }
}

/// The symbol at `at`, if a symbol stands there.
pub open spec fn symbol_at(ts: Seq<TokenView>, at: nat) -> Option<Symbol> {
    match kind_at(ts, at) {
        TokenTypeView::Symbol(s) => Some(s),
        _ => None,
    }
}

/// The place of the token at `at`.
pub open spec fn place_at(ts: Seq<TokenView>, at: nat) -> Place {
    if at < ts.len() {
        Place { line: ts[at as int].line, pos: ts[at as int].pos }
    } else {
        Place { line: 0, pos: 0 }
    }
}

/// The number of tokens from `at` to the end of the sequence.
pub open spec fn remaining(ts: Seq<TokenView>, at: nat) -> nat {
    if at < ts.len() {
        (ts.len() - at) as nat
    } else {
        0
    }
}

/// The operator node on two operands.
pub open spec fn binary(typ: BinaryOperator, lhs: Ast, rhs: Ast) -> Ast {
    Ast::Operator { typ, lhs: Box::new(lhs), rhs: Box::new(rhs) }
}

/// The literal `n`.
pub open spec fn literal(n: i64) -> Ast {
    Ast::Number { num: n }
}

/// `0 == x`: 1 where `x` is zero, else 0.
pub open spec fn negation(x: Ast) -> Ast {
    binary(BinaryOperator::Equal, literal(0), x)
}

/// `0 == (0 == x)`: 0 where `x` is zero, else 1.
pub open spec fn truth(x: Ast) -> Ast {
    negation(negation(x))
}

/// The level at which `s` stands between two operands; a higher level binds
/// less tightly.
pub open spec fn infix_level(s: Symbol) -> Option<nat> {
    match s {
        Symbol::Mul | Symbol::Div | Symbol::Rem => Some(0),
        Symbol::Add | Symbol::Sub => Some(1),
        Symbol::LShift | Symbol::RShift => Some(2),
        Symbol::Less | Symbol::LessOrEqual | Symbol::Greater | Symbol::GreaterOrEqual => Some(3),
        Symbol::Equal | Symbol::NotEqual => Some(4),
        Symbol::BitAnd => Some(5),
        Symbol::BitXor => Some(6),
        Symbol::BitOr => Some(7),
        Symbol::And => Some(8),
        Symbol::Or => Some(9),
        _ => None,
    }
}

/// The tree for `lhs s rhs`, for a symbol with an infix level. `>` swaps
/// the operands of `<`; `<==`, `>==` and `!=` negate `<`, `<` and `==`; the
/// logical operators work on truth values.
pub open spec fn infix(s: Symbol, lhs: Ast, rhs: Ast) -> Ast {
    match s {
        Symbol::Mul => binary(BinaryOperator::Mul, lhs, rhs),
        Symbol::Div => binary(BinaryOperator::Div, lhs, rhs),
        Symbol::Rem => binary(BinaryOperator::Rem, lhs, rhs),
        Symbol::Add => binary(BinaryOperator::Add, lhs, rhs),
        Symbol::Sub => binary(BinaryOperator::Sub, lhs, rhs),
        Symbol::LShift => binary(BinaryOperator::LShift, lhs, rhs),
        Symbol::RShift => binary(BinaryOperator::RShift, lhs, rhs),
        Symbol::Less => binary(BinaryOperator::Less, lhs, rhs),
        Symbol::LessOrEqual => negation(binary(BinaryOperator::Less, rhs, lhs)),
        Symbol::Greater => binary(BinaryOperator::Less, rhs, lhs),
        Symbol::GreaterOrEqual => negation(binary(BinaryOperator::Less, lhs, rhs)),
        Symbol::Equal => binary(BinaryOperator::Equal, lhs, rhs),
        Symbol::NotEqual => negation(binary(BinaryOperator::Equal, lhs, rhs)),
        Symbol::BitAnd => binary(BinaryOperator::BitAnd, lhs, rhs),
        Symbol::BitXor => binary(BinaryOperator::BitXor, lhs, rhs),
        Symbol::BitOr => binary(BinaryOperator::BitOr, lhs, rhs),
        Symbol::And => binary(BinaryOperator::BitAnd, truth(lhs), truth(rhs)),
        Symbol::Or => truth(binary(BinaryOperator::BitOr, lhs, rhs)),
        _ => lhs,
    }
}

/// The operator that a compound assignment applies before it assigns.
pub open spec fn compound(s: Symbol) -> Option<BinaryOperator> {
    match s {
        Symbol::AddAssign => Some(BinaryOperator::Add),
        Symbol::SubAssign => Some(BinaryOperator::Sub),
        Symbol::MulAssign => Some(BinaryOperator::Mul),
        Symbol::DivAssign => Some(BinaryOperator::Div),
        Symbol::RemAssign => Some(BinaryOperator::Rem),
        Symbol::PowerAssign => Some(BinaryOperator::Power),
        Symbol::RootAssign => Some(BinaryOperator::Root),
        Symbol::AndAssign => Some(BinaryOperator::BitAnd),
        Symbol::XorAssign => Some(BinaryOperator::BitXor),
        Symbol::OrAssign => Some(BinaryOperator::BitOr),
        Symbol::LShiftAssign => Some(BinaryOperator::LShift),
        Symbol::RShiftAssign => Some(BinaryOperator::RShift),
        _ => None,
    }
}

/// The tree for `target s value`, where `s` assigns: `=`, a change to the
/// smaller or larger, or a compound assignment `target = target op value`.
pub open spec fn assignment(s: Symbol, target: Ast, value: Ast) -> Option<Ast> {
    match s {
        Symbol::Assign => Some(binary(BinaryOperator::Assign, target, value)),
        Symbol::ChangeMin => Some(binary(BinaryOperator::ChangeMin, target, value)),
        Symbol::ChangeMax => Some(binary(BinaryOperator::ChangeMax, target, value)),
        _ => match compound(s) {
            Some(op) => Some(binary(BinaryOperator::Assign, target, binary(op, target, value))),
            None => None,
        },
    }
}

/// The tree for a prefix operator on `x`: `-x` is `0 - x`, `~x` is
/// `-1 ^ x`, `!x` is `0 == x`.
pub open spec fn prefix(s: Symbol, x: Ast) -> Option<Ast> {
    match s {
        Symbol::Sub => Some(binary(BinaryOperator::Sub, literal(0), x)),
        Symbol::BitNot => Some(binary(BinaryOperator::BitXor, literal(-1i64), x)),
        Symbol::Not => Some(negation(x)),
        _ => None,
    }
}

/// The first position from `from` on at which `name` stands in `names`.
pub open spec fn find_name(names: Seq<Seq<char>>, name: Seq<char>, from: nat) -> Option<nat>
    decreases names.len() - from,
{
    if from >= names.len() {
        None
    } else if names[from as int] == name {
        Some(from)
    } else {
        find_name(names, name, from + 1)
    }
}

/// The slot of `name`: where it stands in `names`, or a new slot at the
/// end.
pub open spec fn slot_of(names: Seq<Seq<char>>, name: Seq<char>) -> nat {
    match find_name(names, name, 0) {
        Some(i) => i,
        None => names.len(),
    }
}

/// The names after `name` was used: unchanged where it stands among them,
/// else with `name` at the end.
pub open spec fn with_name(names: Seq<Seq<char>>, name: Seq<char>) -> Seq<Seq<char>> {
    match find_name(names, name, 0) {
        Some(i) => names,
        None => names.push(name),
    }
}

/// `x = x op 1` for the variable in slot `offset`.
pub open spec fn step(offset: nat, op: BinaryOperator) -> Ast {
    binary(
        BinaryOperator::Assign,
        Ast::Variable { offset },
        binary(op, Ast::Variable { offset }, literal(1)),
    )
}

/// primary := '(' expression ')' | IDENT '(' arguments ')' | IDENT
/// ('++'|'--')? | NUMBER
#[verifier::opaque]
pub open spec fn parse_primary(ts: Seq<TokenView>, at: nat, names: Seq<Seq<char>>) -> Result<
    Parsed,
    Place,
>
    decreases remaining(ts, at), 0nat,
{
    match kind_at(ts, at) {
        TokenTypeView::Symbol(Symbol::OpenBracket) => match parse_expression(ts, at + 1, names) {
            Err(e) => Err(e),
            Ok(inner) => if symbol_at(ts, at + 1 + inner.used) == Some(Symbol::CloseBracket) {
                Ok(Parsed { node: inner.node, used: inner.used + 2, names: inner.names })
            } else {
                Err(place_at(ts, at + 1 + inner.used))
            },
        },
        TokenTypeView::Ident(name) => if symbol_at(ts, at + 1) == Some(Symbol::OpenBracket) {
            match parse_arguments(ts, at + 2, 0, names, Seq::empty()) {
                Err(e) => Err(e),
                Ok(list) => Ok(
                    Parsed {
                        node: Ast::FuncCall { function_name: name, arguments: list.nodes },
                        used: list.used + 2,
                        names: list.names,
                    },
                ),
            }
        } else {
            let offset = slot_of(names, name);
            let after = with_name(names, name);
            match symbol_at(ts, at + 1) {
                Some(Symbol::Increment) => Ok(
                    Parsed { node: step(offset, BinaryOperator::Add), used: 2, names: after },
                ),
                Some(Symbol::Decrement) => Ok(
                    Parsed { node: step(offset, BinaryOperator::Sub), used: 2, names: after },
                ),
                _ => Ok(Parsed { node: Ast::Variable { offset }, used: 1, names: after }),
            }
        },
        TokenTypeView::Number(n) => Ok(Parsed { node: literal(n), used: 1, names }),
        _ => Err(place_at(ts, at)),
    }
}

/// The arguments of a call, from the token behind `(` at `start`: the
/// members read so far are `done`, over `used` tokens.
#[verifier::opaque]
pub open spec fn parse_arguments(
    ts: Seq<TokenView>,
    start: nat,
    used: nat,
    names: Seq<Seq<char>>,
    done: Seq<Ast>,
) -> Result<Listed, Place>
    decreases remaining(ts, start + used), 27nat + (if done.len() == 0 {
        1nat
    } else {
        0nat
    }),
{
    let at = start + used;
    if symbol_at(ts, at) == Some(Symbol::CloseBracket) {
        Ok(Listed { nodes: done, used: used + 1, names })
    } else if done.len() > 0 && symbol_at(ts, at) != Some(Symbol::Comma) {
        Err(place_at(ts, at))
    } else {
        let skip: nat = if done.len() > 0 {
            1
        } else {
            0
        };
        match parse_expression(ts, at + skip, names) {
            Err(e) => Err(e),
            Ok(e) => parse_arguments(ts, start, used + skip + e.used, e.names, done.push(e.node)),
        }
    }
}

/// unary := ('-'|'~'|'!')? primary
#[verifier::opaque]
pub open spec fn parse_unary(ts: Seq<TokenView>, at: nat, names: Seq<Seq<char>>) -> Result<
    Parsed,
    Place,
>
    decreases remaining(ts, at), 1nat,
{
    match symbol_at(ts, at) {
        Some(s) => if prefix(s, literal(0)) is Some {
            match parse_primary(ts, at + 1, names) {
                Err(e) => Err(e),
                Ok(p) => Ok(
                    Parsed { node: prefix(s, p.node).unwrap(), used: p.used + 1, names: p.names },
                ),
            }
        } else {
            parse_primary(ts, at, names)
        },
        None => parse_primary(ts, at, names),
    }
}

/// powroot := unary (('**'|'//') powroot)?
#[verifier::opaque]
pub open spec fn parse_power_root(ts: Seq<TokenView>, at: nat, names: Seq<Seq<char>>) -> Result<
    Parsed,
    Place,
>
    decreases remaining(ts, at), 2nat,
{
    match parse_unary(ts, at, names) {
        Err(e) => Err(e),
        Ok(l) => {
            let s = symbol_at(ts, at + l.used);
            if s == Some(Symbol::Power) || s == Some(Symbol::Root) {
                match parse_power_root(ts, at + l.used + 1, l.names) {
                    Err(e) => Err(e),
                    Ok(r) => Ok(
                        Parsed {
                            node: binary(
                                if s == Some(Symbol::Power) {
                                    BinaryOperator::Power
                                } else {
                                    BinaryOperator::Root
                                },
                                l.node,
                                r.node,
                            ),
                            used: l.used + 1 + r.used,
                            names: r.names,
                        },
                    ),
                }
            } else {
                Ok(l)
            }
        },
    }
}

/// An operand of level `level`: an expression of the next tighter level.
#[verifier::opaque]
pub open spec fn parse_operand(level: nat, ts: Seq<TokenView>, at: nat, names: Seq<Seq<char>>) -> Result<
    Parsed,
    Place,
>
    decreases remaining(ts, at), 3nat + 2 * level,
{
    if level == 0 {
        parse_power_root(ts, at, names)
    } else {
        parse_infix((level - 1) as nat, ts, at, names)
    }
}

/// infix(n) := operand(n) (op(n) right(n))*, where the right operand of `+`
/// and `-` is a whole infix(1), and that of every other operator an
/// operand(n).
#[verifier::opaque]
pub open spec fn parse_infix(level: nat, ts: Seq<TokenView>, at: nat, names: Seq<Seq<char>>) -> Result<
    Parsed,
    Place,
>
    decreases remaining(ts, at), 4nat + 2 * level,
{
    match parse_operand(level, ts, at, names) {
        Err(e) => Err(e),
        Ok(first) => parse_infix_rest(level, ts, at, first),
    }
}

/// The operators and right operands of level `level` that follow `done`,
/// which was read from `start`.
#[verifier::opaque]
pub open spec fn parse_infix_rest(level: nat, ts: Seq<TokenView>, start: nat, done: Parsed) -> Result<
    Parsed,
    Place,
>
    decreases remaining(ts, start + done.used), 0nat,
{
    let at = start + done.used;
    match symbol_at(ts, at) {
        Some(s) => if infix_level(s) == Some(level) {
            match (if level == 1 {
                parse_infix(1, ts, at + 1, done.names)
            } else {
                parse_operand(level, ts, at + 1, done.names)
            }) {
                Err(e) => Err(e),
                Ok(r) => parse_infix_rest(
                    level,
                    ts,
                    start,
                    Parsed {
                        node: infix(s, done.node, r.node),
                        used: done.used + 1 + r.used,
                        names: r.names,
                    },
                ),
            }
        } else {
            Ok(done)
        },
        None => Ok(done),
    }
}

/// assign := infix(9) (assign-op assign)?
#[verifier::opaque]
pub open spec fn parse_assign(ts: Seq<TokenView>, at: nat, names: Seq<Seq<char>>) -> Result<
    Parsed,
    Place,
>
    decreases remaining(ts, at), 23nat,
{
    match parse_infix(9, ts, at, names) {
        Err(e) => Err(e),
        Ok(l) => match symbol_at(ts, at + l.used) {
            Some(s) => if assignment(s, l.node, l.node) is Some {
                match parse_assign(ts, at + l.used + 1, l.names) {
                    Err(e) => Err(e),
                    Ok(r) => Ok(
                        Parsed {
                            node: assignment(s, l.node, r.node).unwrap(),
                            used: l.used + 1 + r.used,
                            names: r.names,
                        },
                    ),
                }
            } else {
                Ok(l)
            },
            None => Ok(l),
        },
    }
}

/// expression := assign ('<=>' assign)?
#[verifier::opaque]
pub open spec fn parse_expression(ts: Seq<TokenView>, at: nat, names: Seq<Seq<char>>) -> Result<
    Parsed,
    Place,
>
    decreases remaining(ts, at), 24nat,
{
    match parse_assign(ts, at, names) {
        Err(e) => Err(e),
        Ok(l) => if symbol_at(ts, at + l.used) == Some(Symbol::Exchange) {
            match parse_assign(ts, at + l.used + 1, l.names) {
                Err(e) => Err(e),
                Ok(r) => Ok(
                    Parsed {
                        node: binary(BinaryOperator::Exchange, l.node, r.node),
                        used: l.used + 1 + r.used,
                        names: r.names,
                    },
                ),
            }
        } else {
            Ok(l)
        },
    }
}

/// clause := expression? ';'
#[verifier::opaque]
pub open spec fn parse_clause(ts: Seq<TokenView>, at: nat, names: Seq<Seq<char>>) -> Result<
    Clause,
    Place,
>
    decreases remaining(ts, at), 26nat,
{
    if symbol_at(ts, at) == Some(Symbol::End) {
        Ok(Clause { node: None, used: 1, names })
    } else {
        match parse_expression(ts, at, names) {
            Err(e) => Err(e),
            Ok(e) => if symbol_at(ts, at + e.used) == Some(Symbol::End) {
                Ok(Clause { node: Some(Box::new(e.node)), used: e.used + 1, names: e.names })
            } else {
                Err(place_at(ts, at + e.used))
            },
        }
    }
}

/// ('else' statement)?
#[verifier::opaque]
pub open spec fn parse_else(ts: Seq<TokenView>, at: nat, names: Seq<Seq<char>>) -> Result<
    Clause,
    Place,
>
    decreases remaining(ts, at), 28nat,
{
    if kind_at(ts, at) == TokenTypeView::Word(Word::Else) {
        match parse_statement(ts, at + 1, names) {
            Err(e) => Err(e),
            Ok(f) => Ok(Clause { node: Some(Box::new(f.node)), used: 1 + f.used, names: f.names }),
        }
    } else {
        Ok(Clause { node: None, used: 0, names })
    }
}

/// expression statement ('else' statement)?: a conditional, behind its
/// `if`.
#[verifier::opaque]
pub open spec fn parse_if(ts: Seq<TokenView>, at: nat, names: Seq<Seq<char>>) -> Result<
    Parsed,
    Place,
>
    decreases remaining(ts, at), 31nat,
{
    match parse_expression(ts, at, names) {
        Err(e) => Err(e),
        Ok(c) => match parse_statement(ts, at + c.used, c.names) {
            Err(e) => Err(e),
            Ok(t) => match parse_else(ts, at + c.used + t.used, t.names) {
                Err(e) => Err(e),
                Ok(f) => Ok(
                    Parsed {
                        node: Ast::If {
                            condition: Box::new(c.node),
                            true_case: Box::new(t.node),
                            false_case: f.node,
                        },
                        used: c.used + t.used + f.used,
                        names: f.names,
                    },
                ),
            },
        },
    }
}

/// clause clause clause statement: a `for` loop, behind its `for`.
#[verifier::opaque]
pub open spec fn parse_for(ts: Seq<TokenView>, at: nat, names: Seq<Seq<char>>) -> Result<
    Parsed,
    Place,
>
    decreases remaining(ts, at), 31nat,
{
    match parse_clause(ts, at, names) {
        Err(e) => Err(e),
        Ok(i) => match parse_clause(ts, at + i.used, i.names) {
            Err(e) => Err(e),
            Ok(c) => match parse_clause(ts, at + i.used + c.used, c.names) {
                Err(e) => Err(e),
                Ok(u) => match parse_statement(
                    ts,
                    at + i.used + c.used + u.used,
                    u.names,
                ) {
                    Err(e) => Err(e),
                    Ok(b) => Ok(
                        Parsed {
                            node: Ast::For {
                                init: i.node,
                                condition: c.node,
                                update: u.node,
                                statement: Box::new(b.node),
                            },
                            used: i.used + c.used + u.used + b.used,
                            names: b.names,
                        },
                    ),
                },
            },
        },
    }
}

/// expression statement: a `while` loop, behind its `while`.
#[verifier::opaque]
pub open spec fn parse_while(ts: Seq<TokenView>, at: nat, names: Seq<Seq<char>>) -> Result<
    Parsed,
    Place,
>
    decreases remaining(ts, at), 31nat,
{
    match parse_expression(ts, at, names) {
        Err(e) => Err(e),
        Ok(c) => match parse_statement(ts, at + c.used, c.names) {
            Err(e) => Err(e),
            Ok(b) => Ok(
                Parsed {
                    node: Ast::While { condition: Box::new(c.node), node: Box::new(b.node) },
                    used: c.used + b.used,
                    names: b.names,
                },
            ),
        },
    }
}

/// expression (';' | ':'): the value is dropped behind `;` and returned
/// behind `:`.
#[verifier::opaque]
pub open spec fn parse_evaluated(ts: Seq<TokenView>, at: nat, names: Seq<Seq<char>>) -> Result<
    Parsed,
    Place,
>
    decreases remaining(ts, at), 29nat,
{
    match parse_expression(ts, at, names) {
        Err(e) => Err(e),
        Ok(e) => match symbol_at(ts, at + e.used) {
            Some(Symbol::End) => Ok(
                Parsed {
                    node: Ast::Statement { node: Box::new(e.node) },
                    used: e.used + 1,
                    names: e.names,
                },
            ),
            Some(Symbol::Return) => Ok(
                Parsed {
                    node: Ast::Return { node: Box::new(e.node) },
                    used: e.used + 1,
                    names: e.names,
                },
            ),
            _ => Err(place_at(ts, at + e.used)),
        },
    }
}

/// What was read behind a keyword, as read from the keyword on.
pub open spec fn behind_keyword(result: Result<Parsed, Place>) -> Result<Parsed, Place> {
    match result {
        Err(e) => Err(e),
        Ok(p) => Ok(Parsed { node: p.node, used: p.used + 1, names: p.names }),
    }
}

/// statement := block | if | for | while | expression (';' | ':')
#[verifier::opaque]
pub open spec fn parse_statement(ts: Seq<TokenView>, at: nat, names: Seq<Seq<char>>) -> Result<
    Parsed,
    Place,
>
    decreases remaining(ts, at), 30nat,
{
    match kind_at(ts, at) {
        TokenTypeView::Symbol(Symbol::OpenBrace) => match parse_block(
            ts,
            at + 1,
            0,
            names,
            Seq::empty(),
        ) {
            Err(e) => Err(e),
            Ok(list) => Ok(
                Parsed {
                    node: Ast::Block { statements: list.nodes },
                    used: list.used + 1,
                    names: list.names,
                },
            ),
        },
        TokenTypeView::Word(Word::If) => behind_keyword(parse_if(ts, at + 1, names)),
        TokenTypeView::Word(Word::For) => behind_keyword(parse_for(ts, at + 1, names)),
        TokenTypeView::Word(Word::While) => behind_keyword(parse_while(ts, at + 1, names)),
        _ => parse_evaluated(ts, at, names),
    }
}

/// The statements of a block, from the token behind `{` at `start`: the
/// members read so far are `done`, over `used` tokens. Beyond the sequence
/// no block is closed. A statement spans at least one token, as
/// `laws::lemma_statement` shows; the case that asks for it keeps the
/// definition well-founded.
#[verifier::opaque]
pub open spec fn parse_block(
    ts: Seq<TokenView>,
    start: nat,
    used: nat,
    names: Seq<Seq<char>>,
    done: Seq<Ast>,
) -> Result<Listed, Place>
    decreases remaining(ts, start + used), 31nat,
{
    let at = start + used;
    if symbol_at(ts, at) == Some(Symbol::CloseBrace) {
        Ok(Listed { nodes: done, used: used + 1, names })
    } else if at >= ts.len() {
        Err(place_at(ts, at))
    } else {
        match parse_statement(ts, at, names) {
            Err(e) => Err(e),
            Ok(s) => if s.used == 0 {
                Err(place_at(ts, at))
            } else {
                parse_block(ts, start, used + s.used, s.names, done.push(s.node))
            },
        }
    }
}

/// The parameters of a function, from the token behind `[` at `start`: the
/// names read so far are `names`, over `used` tokens.
#[verifier::opaque]
pub open spec fn parse_parameters(
    ts: Seq<TokenView>,
    start: nat,
    used: nat,
    names: Seq<Seq<char>>,
) -> Result<Listed, Place>
    decreases remaining(ts, start + used),
{
    let at = start + used;
    if symbol_at(ts, at) == Some(Symbol::CloseSquare) {
        Ok(Listed { nodes: Seq::empty(), used: used + 1, names })
    } else if names.len() > 0 && symbol_at(ts, at) != Some(Symbol::Comma) {
        Err(place_at(ts, at))
    } else {
        let skip: nat = if names.len() > 0 {
            1
        } else {
            0
        };
        match kind_at(ts, at + skip) {
            TokenTypeView::Ident(name) => parse_parameters(
                ts,
                start,
                used + skip + 1,
                names.push(name),
            ),
            _ => Err(place_at(ts, at + skip)),
        }
    }
}

/// function := 'fn' IDENT ( '[' parameters ']' )? statement. The slots of
/// the function are its parameters, then the names that its body uses, in
/// the order of first use; all are integers, and so is the result.
#[verifier::opaque]
pub open spec fn parse_function(ts: Seq<TokenView>, at: nat) -> Result<Parsed, Place> {
    if kind_at(ts, at) != TokenTypeView::Word(Word::Function) {
        Err(place_at(ts, at))
    } else {
        match kind_at(ts, at + 1) {
            TokenTypeView::Ident(name) => match (if symbol_at(ts, at + 2) == Some(
                Symbol::OpenSquare,
            ) {
                parse_parameters(ts, at + 3, 0, Seq::empty())
            } else {
                Ok(Listed { nodes: Seq::empty(), used: 0, names: Seq::empty() })
            }) {
                Err(e) => Err(e),
                Ok(params) => {
                    let head: nat = if symbol_at(ts, at + 2) == Some(Symbol::OpenSquare) {
                        3 + params.used
                    } else {
                        2
                    };
                    match parse_statement(ts, at + head, params.names) {
                        Err(e) => Err(e),
                        Ok(body) => Ok(
                            Parsed {
                                node: Ast::Function {
                                    name,
                                    args_num: params.names.len(),
                                    variables: Seq::new(
                                        body.names.len(),
                                        |i: int| VariableType::Int,
                                    ),
                                    ret_type: VariableType::Int,
                                    statement: Box::new(body.node),
                                },
                                used: head + body.used,
                                names: body.names,
                            },
                        ),
                    }
                },
            },
            _ => Err(place_at(ts, at + 1)),
        }
    }
}

/// The functions of a program from position `at` on, behind those of
/// `done`, up to the end token. A function spans at least two tokens, as
/// `laws::lemma_function` shows; the case that asks for one keeps the
/// definition well-founded.
#[verifier::opaque]
pub open spec fn parse_functions(ts: Seq<TokenView>, at: nat, done: Seq<Ast>) -> Result<Ast, Place>
    decreases remaining(ts, at),
{
    if kind_at(ts, at) == TokenTypeView::Eof {
        Ok(Ast::Program { functions: done })
    } else {
        match parse_function(ts, at) {
            Err(e) => Err(e),
            Ok(f) => if f.used == 0 {
                Err(place_at(ts, at))
            } else {
                parse_functions(ts, at + f.used, done.push(f.node))
            },
        }
    }
}

/// program := function* EOF
pub open spec fn parse_program(ts: Seq<TokenView>) -> Result<Ast, Place> {
    parse_functions(ts, 0, Seq::empty())
}

/// The message that reports a token which the grammar does not admit.
pub open spec fn unexpected_message(place: Place) -> Seq<char> {
    "Unexpected Token ("@ + crate::text::decimal(place.line) + ":"@ + crate::text::decimal(place.pos)
        + ")"@
}

} // verus!
