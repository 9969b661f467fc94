//! The recursive-descent parser: from a token sequence that ends in the end
//! token to the tree of the program, with the variables of each function
//! resolved to slots.

use vstd::prelude::*;
use vstd::string::*;
use crate::parser::grammar::{
    Parsed, assignment, binary, compound, find_name, infix, infix_level, kind_at, negation,
    parse_arguments, parse_assign, parse_block, parse_clause, parse_else, parse_evaluated,
    parse_expression, parse_for, parse_function, parse_functions, parse_if, parse_infix,
    parse_infix_rest, parse_operand, parse_parameters, parse_power_root, parse_primary,
    parse_program, parse_statement, parse_unary, parse_while, place_at, slot_of, step, symbol_at,
    terminated, unexpected_message, with_name,
};
use crate::parser::laws::lemma_program;
use crate::parser::node::{Ast, Node, asts_of, optional_ast};
use crate::parser::node::binary_operator::BinaryOperator;
use crate::parser::node::variable_type::VariableType;
use crate::parser::scope::{is_program, well_scoped};
use crate::text::push_usize;
use crate::tokenizer::token::{Place, Token, token_views};
use crate::tokenizer::token::token_type::{TokenType, TokenTypeView};
use crate::tokenizer::token::token_type::symbol::Symbol;
use crate::tokenizer::token::token_type::word::Word;

pub mod grammar;
pub mod laws;
pub mod node;
pub mod scope;

verus! {

/// The names of `variables` as character sequences.
pub open spec fn names_of(variables: Seq<String>) -> Seq<Seq<char>> {
    Seq::new(variables.len(), |i: int| variables[i]@)
}

/// The place of a token that the grammar does not admit where it stands.
pub struct Unexpected {
    pub line: usize,
    pub pos: usize,
}

impl View for Unexpected {
    type V = Place;

    open spec fn view(&self) -> Place {
        Place { line: self.line as nat, pos: self.pos as nat }
    }
}

impl Unexpected {
    /// The message that reports the token.
    pub fn message(&self) -> (r: String)
        ensures
            r@ == unexpected_message(self@),
    {
        let mut text = String::from_str("Unexpected Token (");
        push_usize(&mut text, self.line);
        text.append(":");
        push_usize(&mut text, self.pos);
        text.append(")");
        text
    }
}

/// Whether `res` is what the grammar reads: the same tree, over the tokens
/// from `before` to `after`, with the same names after it; or the place of
/// the same token.
pub open spec fn parsed_as(
    res: Result<Node, Unexpected>,
    expected: Result<Parsed, Place>,
    before: nat,
    after: nat,
    names_after: Seq<Seq<char>>,
) -> bool {
    match expected {
        Ok(p) => res matches Ok(node) && node@ == p.node && after == before + p.used && names_after
            == p.names,
        Err(place) => res matches Err(e) && e@ == place,
    }
}

/// Whether what was read, if anything, spans at least one token and ends
/// before the last of `count` tokens.
pub open spec fn advances(res: Result<Node, Unexpected>, before: nat, after: nat, count: nat) -> bool {
    res is Ok ==> before < after < count
}

fn symbol_of(tokens: &Vec<Token>, pos: usize) -> (r: Option<Symbol>)
    requires
        pos < tokens.len(),
    ensures
        r == symbol_at(token_views(tokens@), pos as nat),
{
    match &tokens[pos].typ {
        TokenType::Symbol(s) => Some(*s),
        _ => None,
    }
}

fn has_symbol(tokens: &Vec<Token>, pos: usize, symbol: Symbol) -> (r: bool)
    requires
        pos < tokens.len(),
    ensures
        r == (symbol_at(token_views(tokens@), pos as nat) == Some(symbol)),
{
    match &tokens[pos].typ {
        TokenType::Symbol(s) => *s == symbol,
        _ => false,
    }
}

fn has_word(tokens: &Vec<Token>, pos: usize, word: Word) -> (r: bool)
    requires
        pos < tokens.len(),
    ensures
        r == (kind_at(token_views(tokens@), pos as nat) == TokenTypeView::Word(word)),
{
    match &tokens[pos].typ {
        TokenType::Word(w) => *w == word,
        _ => false,
    }
}

fn unexpected(tokens: &Vec<Token>, pos: usize) -> (r: Unexpected)
    requires
        pos < tokens.len(),
    ensures
        r@ == place_at(token_views(tokens@), pos as nat),
{
    Unexpected { line: tokens[pos].line, pos: tokens[pos].pos }
}

fn operator(typ: BinaryOperator, lhs: Node, rhs: Node) -> (r: Node)
    ensures
        r@ == binary(typ, lhs@, rhs@),
{
    Node::Operator { typ, lhs: Box::new(lhs), rhs: Box::new(rhs) }
}

fn negate(x: Node) -> (r: Node)
    ensures
        r@ == negation(x@),
{
    operator(BinaryOperator::Equal, Node::Number { num: 0 }, x)
}

fn build_infix(symbol: Symbol, lhs: Node, rhs: Node) -> (r: Node)
    ensures
        r@ == infix(symbol, lhs@, rhs@),
{
    match symbol {
        Symbol::Mul => operator(BinaryOperator::Mul, lhs, rhs),
        Symbol::Div => operator(BinaryOperator::Div, lhs, rhs),
        Symbol::Rem => operator(BinaryOperator::Rem, lhs, rhs),
        Symbol::Add => operator(BinaryOperator::Add, lhs, rhs),
        Symbol::Sub => operator(BinaryOperator::Sub, lhs, rhs),
        Symbol::LShift => operator(BinaryOperator::LShift, lhs, rhs),
        Symbol::RShift => operator(BinaryOperator::RShift, lhs, rhs),
        Symbol::Less => operator(BinaryOperator::Less, lhs, rhs),
        Symbol::LessOrEqual => negate(operator(BinaryOperator::Less, rhs, lhs)),
        Symbol::Greater => operator(BinaryOperator::Less, rhs, lhs),
        Symbol::GreaterOrEqual => negate(operator(BinaryOperator::Less, lhs, rhs)),
        Symbol::Equal => operator(BinaryOperator::Equal, lhs, rhs),
        Symbol::NotEqual => negate(operator(BinaryOperator::Equal, lhs, rhs)),
        Symbol::BitAnd => operator(BinaryOperator::BitAnd, lhs, rhs),
        Symbol::BitXor => operator(BinaryOperator::BitXor, lhs, rhs),
        Symbol::BitOr => operator(BinaryOperator::BitOr, lhs, rhs),
        Symbol::And => operator(BinaryOperator::BitAnd, negate(negate(lhs)), negate(negate(rhs))),
        Symbol::Or => negate(negate(operator(BinaryOperator::BitOr, lhs, rhs))),
        _ => lhs,
    }
}

fn level_of(symbol: Symbol) -> (r: Option<usize>)
    ensures
        match r {
            Some(level) => infix_level(symbol) == Some(level as nat),
            None => infix_level(symbol) is None,
        },
{
    match symbol {
        Symbol::Mul | Symbol::Div | Symbol::Rem => Some(0),
        Symbol::Add | Symbol::Sub => Some(1),
        Symbol::LShift | Symbol::RShift => Some(2),
        Symbol::Less | Symbol::LessOrEqual | Symbol::Greater | Symbol::GreaterOrEqual => Some(3),
        Symbol::Equal | Symbol::NotEqual => Some(4),
        Symbol::BitAnd => Some(5),
        Symbol::BitXor => Some(6),
        Symbol::BitOr => Some(7),
        Symbol::And => Some(8),
        Symbol::Or => Some(9),
        _ => None,
    }
}

fn compound_of(symbol: Symbol) -> (r: Option<BinaryOperator>)
    ensures
        r == compound(symbol),
{
    match symbol {
        Symbol::AddAssign => Some(BinaryOperator::Add),
        Symbol::SubAssign => Some(BinaryOperator::Sub),
        Symbol::MulAssign => Some(BinaryOperator::Mul),
        Symbol::DivAssign => Some(BinaryOperator::Div),
        Symbol::RemAssign => Some(BinaryOperator::Rem),
        Symbol::PowerAssign => Some(BinaryOperator::Power),
        Symbol::RootAssign => Some(BinaryOperator::Root),
        Symbol::AndAssign => Some(BinaryOperator::BitAnd),
        Symbol::XorAssign => Some(BinaryOperator::BitXor),
        Symbol::OrAssign => Some(BinaryOperator::BitOr),
        Symbol::LShiftAssign => Some(BinaryOperator::LShift),
        Symbol::RShiftAssign => Some(BinaryOperator::RShift),
        _ => None,
    }
}

fn assigns(symbol: Symbol) -> (r: bool)
    ensures
        forall|target: Ast, value: Ast| r == (#[trigger] assignment(symbol, target, value) is Some),
{
    match symbol {
        Symbol::Assign | Symbol::ChangeMin | Symbol::ChangeMax => true,
        _ => compound_of(symbol).is_some(),
    }
}

fn build_assignment(symbol: Symbol, target: Node, value: Node) -> (r: Node)
    requires
        assignment(symbol, target@, value@) is Some,
    ensures
        Some(r@) == assignment(symbol, target@, value@),
{
    match symbol {
        Symbol::Assign => operator(BinaryOperator::Assign, target, value),
        Symbol::ChangeMin => operator(BinaryOperator::ChangeMin, target, value),
        Symbol::ChangeMax => operator(BinaryOperator::ChangeMax, target, value),
        _ => match compound_of(symbol) {
            Some(op) => {
                let copy = target.clone();
                operator(BinaryOperator::Assign, copy, operator(op, target, value))
            },
            None => target,
        },
    }
}

fn build_step(offset: usize, op: BinaryOperator) -> (r: Node)
    ensures
        r@ == step(offset as nat, op),
{
    operator(
        BinaryOperator::Assign,
        Node::Variable { offset },
        operator(op, Node::Variable { offset }, Node::Number { num: 1 }),
    )
}

/// The slot of `name`: where it stands among `variables`, or a new slot
/// that is added at their end.
fn intern(variables: &mut Vec<String>, name: &String) -> (offset: usize)
    ensures
        offset as nat == slot_of(names_of(old(variables)@), name@),
        names_of(final(variables)@) == with_name(names_of(old(variables)@), name@),
        offset < final(variables)@.len(),
        old(variables)@.len() <= final(variables)@.len(),
{
    let ghost names = names_of(variables@);
    let mut i: usize = 0;
    while i < variables.len()
        invariant
            i <= variables.len(),
            variables@ == old(variables)@,
            names == names_of(variables@),
            find_name(names, name@, 0) == find_name(names, name@, i as nat),
        decreases variables.len() - i,
    {
        if variables[i] == *name {
            return i;
        }
        i += 1;
    }
    let offset = variables.len();
    variables.push(name.clone());
    assert(names_of(variables@) =~= names.push(name@));
    offset
}

/// A name that is used as a value, with the token behind it at `pos`: the
/// variable in the name's slot, or its step where `++` or `--` follows.
fn variable(
    tokens: &Vec<Token>,
    pos: &mut usize,
    variables: &mut Vec<String>,
    name: &String,
) -> (node: Node)
    requires
        terminated(token_views(tokens@)),
        *old(pos) < tokens.len(),
    ensures
        names_of(final(variables)@) == with_name(names_of(old(variables)@), name@),
        *final(pos) < tokens.len(),
        match symbol_at(token_views(tokens@), *old(pos) as nat) {
            Some(Symbol::Increment) => *final(pos) == *old(pos) + 1 && node@ == step(
                slot_of(names_of(old(variables)@), name@),
                BinaryOperator::Add,
            ),
            Some(Symbol::Decrement) => *final(pos) == *old(pos) + 1 && node@ == step(
                slot_of(names_of(old(variables)@), name@),
                BinaryOperator::Sub,
            ),
            _ => *final(pos) == *old(pos) && node@ == (Ast::Variable {
                offset: slot_of(names_of(old(variables)@), name@),
            }),
        },
{
    let offset = intern(variables, name);
    if has_symbol(tokens, *pos, Symbol::Increment) {
        *pos += 1;
        build_step(offset, BinaryOperator::Add)
    } else if has_symbol(tokens, *pos, Symbol::Decrement) {
        *pos += 1;
        build_step(offset, BinaryOperator::Sub)
    } else {
        Node::Variable { offset }
    }
}

/// The call of `name` on `list`.
fn call(name: &String, list: Vec<Node>) -> (node: Node)
    ensures
        node@ == (Ast::FuncCall { function_name: name@, arguments: asts_of(list@) }),
{
    let ghost asts = asts_of(list@);
    let node = Node::FuncCall { function_name: name.clone(), arguments: list };
    assert(node@->FuncCall_arguments =~= asts);
    node
}

/// '(' expression ')'
fn grouped(tokens: &Vec<Token>, pos: &mut usize, variables: &mut Vec<String>) -> (res: Result<
    Node,
    Unexpected,
>)
    requires
        terminated(token_views(tokens@)),
        *old(pos) < tokens.len(),
        symbol_at(token_views(tokens@), *old(pos) as nat) == Some(Symbol::OpenBracket),
    ensures
        parsed_as(
            res,
            parse_primary(token_views(tokens@), *old(pos) as nat, names_of(old(variables)@)),
            *old(pos) as nat,
            *final(pos) as nat,
            names_of(final(variables)@),
        ),
        advances(res, *old(pos) as nat, *final(pos) as nat, tokens@.len()),
    decreases tokens.len() - *old(pos), 0nat,
{
    proof {
        reveal(parse_primary);
        reveal(parse_expression);
    }
    *pos += 1;
    let node = expression(tokens, pos, variables)?;
    if has_symbol(tokens, *pos, Symbol::CloseBracket) {
        *pos += 1;
        Ok(node)
    } else {
        Err(unexpected(tokens, *pos))
    }
}

/// IDENT '(' arguments ')' | IDENT ('++'|'--')?
fn named(
    tokens: &Vec<Token>,
    pos: &mut usize,
    variables: &mut Vec<String>,
    name: &String,
) -> (res: Result<Node, Unexpected>)
    requires
        terminated(token_views(tokens@)),
        *old(pos) < tokens.len(),
        kind_at(token_views(tokens@), *old(pos) as nat) == TokenTypeView::Ident(name@),
    ensures
        parsed_as(
            res,
            parse_primary(token_views(tokens@), *old(pos) as nat, names_of(old(variables)@)),
            *old(pos) as nat,
            *final(pos) as nat,
            names_of(final(variables)@),
        ),
        advances(res, *old(pos) as nat, *final(pos) as nat, tokens@.len()),
    decreases tokens.len() - *old(pos), 0nat,
{
    proof {
        reveal(parse_primary);
        reveal(parse_arguments);
    }
    *pos += 1;
    if has_symbol(tokens, *pos, Symbol::OpenBracket) {
        *pos += 1;
        let list = arguments(tokens, pos, variables)?;
        Ok(call(name, list))
    } else {
        Ok(variable(tokens, pos, variables, name))
    }
}

/// primary := '(' expression ')' | IDENT '(' arguments ')' | IDENT
/// ('++'|'--')? | NUMBER
fn primary(tokens: &Vec<Token>, pos: &mut usize, variables: &mut Vec<String>) -> (res: Result<
    Node,
    Unexpected,
>)
    requires
        terminated(token_views(tokens@)),
        *old(pos) < tokens.len(),
    ensures
        parsed_as(
            res,
            parse_primary(token_views(tokens@), *old(pos) as nat, names_of(old(variables)@)),
            *old(pos) as nat,
            *final(pos) as nat,
            names_of(final(variables)@),
        ),
        advances(res, *old(pos) as nat, *final(pos) as nat, tokens@.len()),
    decreases tokens.len() - *old(pos), 1nat,
{
    proof {
        reveal(parse_primary);
    }
    if has_symbol(tokens, *pos, Symbol::OpenBracket) {
        grouped(tokens, pos, variables)
    } else {
        match &tokens[*pos].typ {
            TokenType::Ident(name) => named(tokens, pos, variables, name),
            TokenType::Number(n) => {
                *pos += 1;
                Ok(Node::Number { num: *n })
            },
            _ => Err(unexpected(tokens, *pos)),
        }
    }
}

/// The arguments of a call, from the token behind `(` up to and with `)`.
fn arguments(tokens: &Vec<Token>, pos: &mut usize, variables: &mut Vec<String>) -> (res: Result<
    Vec<Node>,
    Unexpected,
>)
    requires
        terminated(token_views(tokens@)),
        *old(pos) < tokens.len(),
    ensures
        match parse_arguments(
            token_views(tokens@),
            *old(pos) as nat,
            0,
            names_of(old(variables)@),
            Seq::empty(),
        ) {
            Ok(list) => res matches Ok(nodes) && asts_of(nodes@) == list.nodes && *final(pos)
                == *old(pos) + list.used && names_of(final(variables)@) == list.names,
            Err(place) => res matches Err(e) && e@ == place,
        },
        res is Ok ==> *old(pos) < *final(pos) < tokens.len(),
    decreases tokens.len() - *old(pos), 29nat,
{
    let ghost ts = token_views(tokens@);
    let ghost start = *pos as nat;
    let ghost names = names_of(variables@);
    let mut nodes: Vec<Node> = Vec::new();
    assert(asts_of(nodes@) =~= Seq::<Ast>::empty());
    loop
        invariant
            ts == token_views(tokens@),
            terminated(ts),
            start == *old(pos),
            names == names_of(old(variables)@),
            start <= *pos < tokens.len(),
            parse_arguments(ts, start, 0, names, Seq::empty()) == parse_arguments(
                ts,
                start,
                (*pos - start) as nat,
                names_of(variables@),
                asts_of(nodes@),
            ),
        decreases tokens.len() - *pos,
    {
        proof {
            reveal(parse_arguments);
            reveal(parse_expression);
        }
        if has_symbol(tokens, *pos, Symbol::CloseBracket) {
            *pos += 1;
            return Ok(nodes);
        }
        if nodes.len() > 0 {
            if has_symbol(tokens, *pos, Symbol::Comma) {
                *pos += 1;
            } else {
                return Err(unexpected(tokens, *pos));
            }
        }
        let ghost before = asts_of(nodes@);
        let node = expression(tokens, pos, variables)?;
        nodes.push(node);
        assert(asts_of(nodes@) =~= before.push(node@));
    }
}

/// unary := ('-'|'~'|'!')? primary
fn unary(tokens: &Vec<Token>, pos: &mut usize, variables: &mut Vec<String>) -> (res: Result<
    Node,
    Unexpected,
>)
    requires
        terminated(token_views(tokens@)),
        *old(pos) < tokens.len(),
    ensures
        parsed_as(
            res,
            parse_unary(token_views(tokens@), *old(pos) as nat, names_of(old(variables)@)),
            *old(pos) as nat,
            *final(pos) as nat,
            names_of(final(variables)@),
        ),
        advances(res, *old(pos) as nat, *final(pos) as nat, tokens@.len()),
    decreases tokens.len() - *old(pos), 2nat,
{
    proof {
        reveal(parse_unary);
        reveal(parse_primary);
    }
    proof {
    }
    match symbol_of(tokens, *pos) {
        Some(Symbol::Sub) => {
            *pos += 1;
            let operand = primary(tokens, pos, variables)?;
            Ok(operator(BinaryOperator::Sub, Node::Number { num: 0 }, operand))
        },
        Some(Symbol::BitNot) => {
            *pos += 1;
            let operand = primary(tokens, pos, variables)?;
            Ok(operator(BinaryOperator::BitXor, Node::Number { num: -1 }, operand))
        },
        Some(Symbol::Not) => {
            *pos += 1;
            let operand = primary(tokens, pos, variables)?;
            Ok(negate(operand))
        },
        _ => primary(tokens, pos, variables),
    }
}

/// powroot := unary (('**'|'//') powroot)?
fn power_root(tokens: &Vec<Token>, pos: &mut usize, variables: &mut Vec<String>) -> (res: Result<
    Node,
    Unexpected,
>)
    requires
        terminated(token_views(tokens@)),
        *old(pos) < tokens.len(),
    ensures
        parsed_as(
            res,
            parse_power_root(token_views(tokens@), *old(pos) as nat, names_of(old(variables)@)),
            *old(pos) as nat,
            *final(pos) as nat,
            names_of(final(variables)@),
        ),
        advances(res, *old(pos) as nat, *final(pos) as nat, tokens@.len()),
    decreases tokens.len() - *old(pos), 3nat,
{
    proof {
        reveal(parse_power_root);
        reveal(parse_unary);
    }
    let node = unary(tokens, pos, variables)?;
    let typ = if has_symbol(tokens, *pos, Symbol::Power) {
        BinaryOperator::Power
    } else if has_symbol(tokens, *pos, Symbol::Root) {
        BinaryOperator::Root
    } else {
        return Ok(node);
    };
    *pos += 1;
    let rhs = power_root(tokens, pos, variables)?;
    Ok(operator(typ, node, rhs))
}

/// An operand of level `level`: an expression of the next tighter level.
fn operand(level: usize, tokens: &Vec<Token>, pos: &mut usize, variables: &mut Vec<String>) -> (res:
    Result<Node, Unexpected>)
    requires
        level <= 9,
        terminated(token_views(tokens@)),
        *old(pos) < tokens.len(),
    ensures
        parsed_as(
            res,
            parse_operand(
                level as nat,
                token_views(tokens@),
                *old(pos) as nat,
                names_of(old(variables)@),
            ),
            *old(pos) as nat,
            *final(pos) as nat,
            names_of(final(variables)@),
        ),
        advances(res, *old(pos) as nat, *final(pos) as nat, tokens@.len()),
    decreases tokens.len() - *old(pos), 4nat + 2 * level,
{
    proof {
        reveal(parse_operand);
        reveal(parse_power_root);
        reveal(parse_infix);
    }
    if level == 0 {
        power_root(tokens, pos, variables)
    } else {
        binary_level(level - 1, tokens, pos, variables)
    }
}

/// infix(n) := operand(n) (op(n) right(n))*
fn binary_level(level: usize, tokens: &Vec<Token>, pos: &mut usize, variables: &mut Vec<String>) -> (res:
    Result<Node, Unexpected>)
    requires
        level <= 9,
        terminated(token_views(tokens@)),
        *old(pos) < tokens.len(),
    ensures
        parsed_as(
            res,
            parse_infix(
                level as nat,
                token_views(tokens@),
                *old(pos) as nat,
                names_of(old(variables)@),
            ),
            *old(pos) as nat,
            *final(pos) as nat,
            names_of(final(variables)@),
        ),
        advances(res, *old(pos) as nat, *final(pos) as nat, tokens@.len()),
    decreases tokens.len() - *old(pos), 5nat + 2 * level,
{
    proof {
        reveal(parse_infix);
        reveal(parse_infix_rest);
        reveal(parse_operand);
    }
    let ghost ts = token_views(tokens@);
    let ghost start = *pos as nat;
    let ghost names = names_of(variables@);
    let mut node = operand(level, tokens, pos, variables)?;
    loop
        invariant
            level <= 9,
            ts == token_views(tokens@),
            terminated(ts),
            start == *old(pos),
            names == names_of(old(variables)@),
            start < *pos < tokens.len(),
            parse_infix(level as nat, ts, start, names) == parse_infix_rest(
                level as nat,
                ts,
                start,
                Parsed { node: node@, used: (*pos - start) as nat, names: names_of(variables@) },
            ),
        decreases tokens.len() - *pos,
    {
        proof {
            reveal(parse_infix);
            reveal(parse_infix_rest);
            reveal(parse_operand);
        }
        let symbol = match symbol_of(tokens, *pos) {
            Some(s) => s,
            None => {
                return Ok(node);
            },
        };
        match level_of(symbol) {
            Some(found) => {
                if found != level {
                    return Ok(node);
                }
            },
            None => {
                return Ok(node);
            },
        }
        *pos += 1;
        let rhs = if level == 1 {
            binary_level(1, tokens, pos, variables)?
        } else {
            operand(level, tokens, pos, variables)?
        };
        node = build_infix(symbol, node, rhs);
    }
}

/// assign := infix(9) (assign-op assign)?
fn assign(tokens: &Vec<Token>, pos: &mut usize, variables: &mut Vec<String>) -> (res: Result<
    Node,
    Unexpected,
>)
    requires
        terminated(token_views(tokens@)),
        *old(pos) < tokens.len(),
    ensures
        parsed_as(
            res,
            parse_assign(token_views(tokens@), *old(pos) as nat, names_of(old(variables)@)),
            *old(pos) as nat,
            *final(pos) as nat,
            names_of(final(variables)@),
        ),
        advances(res, *old(pos) as nat, *final(pos) as nat, tokens@.len()),
    decreases tokens.len() - *old(pos), 25nat,
{
    proof {
        reveal(parse_assign);
        reveal(parse_infix);
    }
    let node = binary_level(9, tokens, pos, variables)?;
    let symbol = match symbol_of(tokens, *pos) {
        Some(s) => s,
        None => {
            return Ok(node);
        },
    };
    if !assigns(symbol) {
        assert(assignment(symbol, node@, node@) is None);
        return Ok(node);
    }
    assert(assignment(symbol, node@, node@) is Some);
    *pos += 1;
    let rhs = assign(tokens, pos, variables)?;
    Ok(build_assignment(symbol, node, rhs))
}

/// exchange := assign ('<=>' assign)?
fn exchange(tokens: &Vec<Token>, pos: &mut usize, variables: &mut Vec<String>) -> (res: Result<
    Node,
    Unexpected,
>)
    requires
        terminated(token_views(tokens@)),
        *old(pos) < tokens.len(),
    ensures
        parsed_as(
            res,
            parse_expression(token_views(tokens@), *old(pos) as nat, names_of(old(variables)@)),
            *old(pos) as nat,
            *final(pos) as nat,
            names_of(final(variables)@),
        ),
        advances(res, *old(pos) as nat, *final(pos) as nat, tokens@.len()),
    decreases tokens.len() - *old(pos), 26nat,
{
    proof {
        reveal(parse_expression);
        reveal(parse_assign);
    }
    let node = assign(tokens, pos, variables)?;
    if has_symbol(tokens, *pos, Symbol::Exchange) {
        *pos += 1;
        let rhs = assign(tokens, pos, variables)?;
        Ok(operator(BinaryOperator::Exchange, node, rhs))
    } else {
        Ok(node)
    }
}

/// expression := exchange
fn expression(tokens: &Vec<Token>, pos: &mut usize, variables: &mut Vec<String>) -> (res: Result<
    Node,
    Unexpected,
>)
    requires
        terminated(token_views(tokens@)),
        *old(pos) < tokens.len(),
    ensures
        parsed_as(
            res,
            parse_expression(token_views(tokens@), *old(pos) as nat, names_of(old(variables)@)),
            *old(pos) as nat,
            *final(pos) as nat,
            names_of(final(variables)@),
        ),
        advances(res, *old(pos) as nat, *final(pos) as nat, tokens@.len()),
    decreases tokens.len() - *old(pos), 27nat,
{
    exchange(tokens, pos, variables)
}

/// clause := expression? ';'
fn clause(tokens: &Vec<Token>, pos: &mut usize, variables: &mut Vec<String>) -> (res: Result<
    Option<Node>,
    Unexpected,
>)
    requires
        terminated(token_views(tokens@)),
        *old(pos) < tokens.len(),
    ensures
        match parse_clause(token_views(tokens@), *old(pos) as nat, names_of(old(variables)@)) {
            Ok(c) => res matches Ok(node) && optional_ast(node) == c.node && *final(pos) == *old(
                pos,
            ) + c.used && names_of(final(variables)@) == c.names,
            Err(place) => res matches Err(e) && e@ == place,
        },
        res is Ok ==> *old(pos) < *final(pos) < tokens.len(),
    decreases tokens.len() - *old(pos), 28nat,
{
    proof {
        reveal(parse_clause);
        reveal(parse_expression);
    }
    if has_symbol(tokens, *pos, Symbol::End) {
        *pos += 1;
        Ok(None)
    } else {
        let node = expression(tokens, pos, variables)?;
        if has_symbol(tokens, *pos, Symbol::End) {
            *pos += 1;
            Ok(Some(node))
        } else {
            Err(unexpected(tokens, *pos))
        }
    }
}

/// ('else' statement)?
fn otherwise(tokens: &Vec<Token>, pos: &mut usize, variables: &mut Vec<String>) -> (res: Result<
    Option<Node>,
    Unexpected,
>)
    requires
        terminated(token_views(tokens@)),
        *old(pos) < tokens.len(),
    ensures
        match parse_else(token_views(tokens@), *old(pos) as nat, names_of(old(variables)@)) {
            Ok(c) => res matches Ok(node) && optional_ast(node) == c.node && *final(pos) == *old(
                pos,
            ) + c.used && names_of(final(variables)@) == c.names,
            Err(place) => res matches Err(e) && e@ == place,
        },
        res is Ok ==> *old(pos) <= *final(pos) < tokens.len(),
    decreases tokens.len() - *old(pos), 29nat,
{
    proof {
        reveal(parse_else);
        reveal(parse_statement);
    }
    if has_word(tokens, *pos, Word::Else) {
        *pos += 1;
        let other = statement(tokens, pos, variables)?;
        Ok(Some(other))
    } else {
        Ok(None)
    }
}

fn build_conditional(condition: Node, true_case: Node, false_case: Option<Node>) -> (r: Node)
    ensures
        r@ == (Ast::If {
            condition: Box::new(condition@),
            true_case: Box::new(true_case@),
            false_case: optional_ast(false_case),
        }),
{
    Node::If {
        condition: Box::new(condition),
        true_case: Box::new(true_case),
        false_case: Box::new(false_case),
    }
}

/// expression statement ('else' statement)?: a conditional, behind its
/// `if`.
fn conditional(tokens: &Vec<Token>, pos: &mut usize, variables: &mut Vec<String>) -> (res: Result<
    Node,
    Unexpected,
>)
    requires
        terminated(token_views(tokens@)),
        *old(pos) < tokens.len(),
    ensures
        parsed_as(
            res,
            parse_if(token_views(tokens@), *old(pos) as nat, names_of(old(variables)@)),
            *old(pos) as nat,
            *final(pos) as nat,
            names_of(final(variables)@),
        ),
        advances(res, *old(pos) as nat, *final(pos) as nat, tokens@.len()),
    decreases tokens.len() - *old(pos), 30nat,
{
    proof {
        reveal(parse_if);
        reveal(parse_expression);
        reveal(parse_statement);
        reveal(parse_else);
    }
    let condition = expression(tokens, pos, variables)?;
    let true_case = statement(tokens, pos, variables)?;
    let false_case = otherwise(tokens, pos, variables)?;
    Ok(build_conditional(condition, true_case, false_case))
}

/// clause clause clause statement: a `for` loop, behind its `for`.
fn counted(tokens: &Vec<Token>, pos: &mut usize, variables: &mut Vec<String>) -> (res: Result<
    Node,
    Unexpected,
>)
    requires
        terminated(token_views(tokens@)),
        *old(pos) < tokens.len(),
    ensures
        parsed_as(
            res,
            parse_for(token_views(tokens@), *old(pos) as nat, names_of(old(variables)@)),
            *old(pos) as nat,
            *final(pos) as nat,
            names_of(final(variables)@),
        ),
        advances(res, *old(pos) as nat, *final(pos) as nat, tokens@.len()),
    decreases tokens.len() - *old(pos), 30nat,
{
    proof {
        reveal(parse_for);
        reveal(parse_clause);
        reveal(parse_statement);
    }
    let init = clause(tokens, pos, variables)?;
    let condition = clause(tokens, pos, variables)?;
    let update = clause(tokens, pos, variables)?;
    let body = statement(tokens, pos, variables)?;
    Ok(
        Node::For {
            init: Box::new(init),
            condition: Box::new(condition),
            update: Box::new(update),
            statement: Box::new(body),
        },
    )
}

/// expression statement: a `while` loop, behind its `while`.
fn repeated(tokens: &Vec<Token>, pos: &mut usize, variables: &mut Vec<String>) -> (res: Result<
    Node,
    Unexpected,
>)
    requires
        terminated(token_views(tokens@)),
        *old(pos) < tokens.len(),
    ensures
        parsed_as(
            res,
            parse_while(token_views(tokens@), *old(pos) as nat, names_of(old(variables)@)),
            *old(pos) as nat,
            *final(pos) as nat,
            names_of(final(variables)@),
        ),
        advances(res, *old(pos) as nat, *final(pos) as nat, tokens@.len()),
    decreases tokens.len() - *old(pos), 30nat,
{
    proof {
        reveal(parse_while);
        reveal(parse_expression);
        reveal(parse_statement);
    }
    let condition = expression(tokens, pos, variables)?;
    let body = statement(tokens, pos, variables)?;
    Ok(Node::While { condition: Box::new(condition), node: Box::new(body) })
}

/// expression (';' | ':')
fn evaluated(tokens: &Vec<Token>, pos: &mut usize, variables: &mut Vec<String>) -> (res: Result<
    Node,
    Unexpected,
>)
    requires
        terminated(token_views(tokens@)),
        *old(pos) < tokens.len(),
    ensures
        parsed_as(
            res,
            parse_evaluated(token_views(tokens@), *old(pos) as nat, names_of(old(variables)@)),
            *old(pos) as nat,
            *final(pos) as nat,
            names_of(final(variables)@),
        ),
        advances(res, *old(pos) as nat, *final(pos) as nat, tokens@.len()),
    decreases tokens.len() - *old(pos), 30nat,
{
    proof {
        reveal(parse_evaluated);
        reveal(parse_expression);
    }
    let node = expression(tokens, pos, variables)?;
    if has_symbol(tokens, *pos, Symbol::End) {
        *pos += 1;
        Ok(Node::Statement { node: Box::new(node) })
    } else if has_symbol(tokens, *pos, Symbol::Return) {
        *pos += 1;
        Ok(Node::Return { node: Box::new(node) })
    } else {
        Err(unexpected(tokens, *pos))
    }
}

/// statement := block | if | for | while | expression (';' | ':')
fn statement(tokens: &Vec<Token>, pos: &mut usize, variables: &mut Vec<String>) -> (res: Result<
    Node,
    Unexpected,
>)
    requires
        terminated(token_views(tokens@)),
        *old(pos) < tokens.len(),
    ensures
        parsed_as(
            res,
            parse_statement(token_views(tokens@), *old(pos) as nat, names_of(old(variables)@)),
            *old(pos) as nat,
            *final(pos) as nat,
            names_of(final(variables)@),
        ),
        advances(res, *old(pos) as nat, *final(pos) as nat, tokens@.len()),
    decreases tokens.len() - *old(pos), 31nat,
{
    proof {
        reveal(parse_statement);
        reveal(parse_block);
        reveal(parse_if);
        reveal(parse_for);
        reveal(parse_while);
        reveal(parse_evaluated);
    }
    if has_symbol(tokens, *pos, Symbol::OpenBrace) {
        *pos += 1;
        let statements = block(tokens, pos, variables)?;
        let ghost asts = asts_of(statements@);
        let node = Node::Block { statements };
        assert(node@->Block_statements =~= asts);
        Ok(node)
    } else if has_word(tokens, *pos, Word::If) {
        *pos += 1;
        conditional(tokens, pos, variables)
    } else if has_word(tokens, *pos, Word::For) {
        *pos += 1;
        counted(tokens, pos, variables)
    } else if has_word(tokens, *pos, Word::While) {
        *pos += 1;
        repeated(tokens, pos, variables)
    } else {
        evaluated(tokens, pos, variables)
    }
}

/// The statements of a block, from the token behind `{` up to and with
/// `}`.
fn block(tokens: &Vec<Token>, pos: &mut usize, variables: &mut Vec<String>) -> (res: Result<
    Vec<Node>,
    Unexpected,
>)
    requires
        terminated(token_views(tokens@)),
        *old(pos) < tokens.len(),
    ensures
        match parse_block(
            token_views(tokens@),
            *old(pos) as nat,
            0,
            names_of(old(variables)@),
            Seq::empty(),
        ) {
            Ok(list) => res matches Ok(nodes) && asts_of(nodes@) == list.nodes && *final(pos)
                == *old(pos) + list.used && names_of(final(variables)@) == list.names,
            Err(place) => res matches Err(e) && e@ == place,
        },
        res is Ok ==> *old(pos) < *final(pos) < tokens.len(),
    decreases tokens.len() - *old(pos), 32nat,
{
    let ghost ts = token_views(tokens@);
    let ghost start = *pos as nat;
    let ghost names = names_of(variables@);
    let mut nodes: Vec<Node> = Vec::new();
    assert(asts_of(nodes@) =~= Seq::<Ast>::empty());
    loop
        invariant
            ts == token_views(tokens@),
            terminated(ts),
            start == *old(pos),
            names == names_of(old(variables)@),
            start <= *pos < tokens.len(),
            parse_block(ts, start, 0, names, Seq::empty()) == parse_block(
                ts,
                start,
                (*pos - start) as nat,
                names_of(variables@),
                asts_of(nodes@),
            ),
        decreases tokens.len() - *pos,
    {
        proof {
            reveal(parse_block);
            reveal(parse_statement);
        }
        if has_symbol(tokens, *pos, Symbol::CloseBrace) {
            *pos += 1;
            return Ok(nodes);
        }
        let ghost before = asts_of(nodes@);
        let node = statement(tokens, pos, variables)?;
        nodes.push(node);
        assert(asts_of(nodes@) =~= before.push(node@));
    }
}

/// The parameters of a function, from the token behind `[` up to and with
/// `]`.
fn parameters(tokens: &Vec<Token>, pos: &mut usize) -> (res: Result<Vec<String>, Unexpected>)
    requires
        terminated(token_views(tokens@)),
        *old(pos) < tokens.len(),
    ensures
        match parse_parameters(token_views(tokens@), *old(pos) as nat, 0, Seq::empty()) {
            Ok(list) => res matches Ok(found) && names_of(found@) == list.names && *final(pos)
                == *old(pos) + list.used,
            Err(place) => res matches Err(e) && e@ == place,
        },
        res is Ok ==> *old(pos) < *final(pos) < tokens.len(),
{
    let ghost ts = token_views(tokens@);
    let ghost start = *pos as nat;
    let mut names: Vec<String> = Vec::new();
    assert(names_of(names@) =~= Seq::<Seq<char>>::empty());
    loop
        invariant
            ts == token_views(tokens@),
            terminated(ts),
            start == *old(pos),
            start <= *pos < tokens.len(),
            parse_parameters(ts, start, 0, Seq::empty()) == parse_parameters(
                ts,
                start,
                (*pos - start) as nat,
                names_of(names@),
            ),
        decreases tokens.len() - *pos,
    {
        proof {
            reveal(parse_parameters);
        }
        if has_symbol(tokens, *pos, Symbol::CloseSquare) {
            *pos += 1;
            return Ok(names);
        }
        if names.len() > 0 {
            if has_symbol(tokens, *pos, Symbol::Comma) {
                *pos += 1;
            } else {
                return Err(unexpected(tokens, *pos));
            }
        }
        match &tokens[*pos].typ {
            TokenType::Ident(name) => {
                let ghost before = names_of(names@);
                names.push(name.clone());
                assert(names_of(names@) =~= before.push(name@));
                *pos += 1;
            },
            _ => {
                return Err(unexpected(tokens, *pos));
            },
        }
    }
}

/// One integer slot for each of `count` names.
fn integer_slots(count: usize) -> (r: Vec<VariableType>)
    ensures
        r@ == Seq::new(count as nat, |i: int| VariableType::Int),
{
    let mut slots: Vec<VariableType> = Vec::new();
    let mut i: usize = 0;
    while i < count
        invariant
            i <= count,
            slots@ =~= Seq::new(i as nat, |i: int| VariableType::Int),
        decreases count - i,
    {
        slots.push(VariableType::Int);
        i += 1;
    }
    slots
}

/// function := 'fn' IDENT ( '[' parameters ']' )? statement
fn function(tokens: &Vec<Token>, pos: &mut usize) -> (res: Result<Node, Unexpected>)
    requires
        terminated(token_views(tokens@)),
        *old(pos) < tokens.len(),
    ensures
        match parse_function(token_views(tokens@), *old(pos) as nat) {
            Ok(p) => res matches Ok(node) && node@ == p.node && *final(pos) == *old(pos) + p.used,
            Err(place) => res matches Err(e) && e@ == place,
        },
        res is Ok ==> *old(pos) < *final(pos) < tokens.len(),
{
    proof {
        reveal(parse_function);
        reveal(parse_parameters);
        reveal(parse_statement);
    }
    if !has_word(tokens, *pos, Word::Function) {
        return Err(unexpected(tokens, *pos));
    }
    *pos += 1;
    match &tokens[*pos].typ {
        TokenType::Ident(name) => {
            *pos += 1;
            let mut variables = if has_symbol(tokens, *pos, Symbol::OpenSquare) {
                *pos += 1;
                parameters(tokens, pos)?
            } else {
                let none: Vec<String> = Vec::new();
                assert(names_of(none@) =~= Seq::<Seq<char>>::empty());
                none
            };
            let args_num = variables.len();
            let body = statement(tokens, pos, &mut variables)?;
            Ok(
                Node::Function {
                    name: name.clone(),
                    args_num,
                    variables: integer_slots(variables.len()),
                    ret_type: VariableType::Int,
                    statement: Box::new(body),
                },
            )
        },
        _ => Err(unexpected(tokens, *pos)),
    }
}

/// program := function* EOF
fn program(tokens: &Vec<Token>) -> (res: Result<Node, Unexpected>)
    requires
        terminated(token_views(tokens@)),
    ensures
        match parse_program(token_views(tokens@)) {
            Ok(p) => res matches Ok(node) && node@ == p,
            Err(place) => res matches Err(e) && e@ == place,
        },
{
    let ghost ts = token_views(tokens@);
    let mut pos: usize = 0;
    let mut functions: Vec<Node> = Vec::new();
    assert(asts_of(functions@) =~= Seq::<Ast>::empty());
    loop
        invariant
            ts == token_views(tokens@),
            terminated(ts),
            pos < tokens.len(),
            parse_program(ts) == parse_functions(ts, pos as nat, asts_of(functions@)),
        decreases tokens.len() - pos,
    {
        proof {
            reveal(parse_functions);
        }
        match &tokens[pos].typ {
            TokenType::Eof => {
                let ghost asts = asts_of(functions@);
                let node = Node::Program { functions };
                assert(node@->Program_functions =~= asts);
                return Ok(node);
            },
            _ => {},
        }
        let ghost before = asts_of(functions@);
        let node = function(tokens, &mut pos)?;
        functions.push(node);
        assert(asts_of(functions@) =~= before.push(node@));
    }
}

/// Reads the program that `tokens` write. Fails at the first token that
/// the grammar does not admit where it stands, with the message
/// `Unexpected Token (line:column)` for the place of that token. The tree
/// that is read is a sequence of functions whose bodies are statements,
/// and every variable of a function refers to one of that function's
/// slots.
pub fn parse(tokens: Vec<Token>) -> (res: Result<Node, String>)
    requires
        terminated(token_views(tokens@)),
    ensures
        match parse_program(token_views(tokens@)) {
            Ok(p) => res matches Ok(node) && node@ == p,
            Err(place) => res matches Err(m) && m@ == unexpected_message(place),
        },
        res matches Ok(node) ==> is_program(node@) && well_scoped(node@),
{
    match program(&tokens) {
        Ok(node) => {
            proof {
                lemma_program(token_views(tokens@));
            }
            Ok(node)
        },
        Err(e) => Err(e.message()),
    }
}

} // verus!
