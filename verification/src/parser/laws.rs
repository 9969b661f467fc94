//! What holds of everything that the grammar reads from a token sequence
//! that ends in the end token.

use vstd::prelude::*;
use crate::parser::grammar::{
    Parsed, assignment, find_name, infix, infix_level, kind_at, literal, parse_arguments,
    parse_assign, parse_block, parse_clause, parse_else, parse_evaluated, parse_expression,
    parse_for, parse_function, parse_functions, parse_if, parse_infix, parse_infix_rest,
    parse_operand, parse_parameters, parse_power_root, parse_primary, parse_program,
    parse_statement, parse_unary, parse_while, prefix, remaining, slot_of, step, symbol_at,
    terminated, with_name,
};
use crate::parser::node::Ast;
use crate::parser::node::binary_operator::BinaryOperator;
use crate::parser::scope::{
    all_expressions, all_offsets_below, all_statements, clause_offsets_below, is_clause,
    is_definition, is_expression, is_program, is_statement, lemma_all_monotone,
    lemma_clause_monotone, lemma_offsets_monotone, lemma_program_scoped, offsets_below, well_scoped,
};
use crate::tokenizer::token::{Place, TokenView};
use crate::tokenizer::token::token_type::TokenTypeView;
use crate::tokenizer::token::token_type::symbol::Symbol;
use crate::tokenizer::token::token_type::word::Word;

verus! {

/// What holds of a tree that was read at `at` with the names `names`: it
/// spans at least one token and ends before the end token, no name was
/// dropped, and its variables refer to slots that have a name.
pub open spec fn well_read(ts: Seq<TokenView>, at: nat, names: Seq<Seq<char>>, p: Parsed) -> bool {
    &&& 1 <= p.used
    &&& at + p.used < ts.len()
    &&& names.len() <= p.names.len()
    &&& offsets_below(p.node, p.names.len())
}

/// Whether what was read, if anything, is a well-read expression.
pub open spec fn reads_expression(
    ts: Seq<TokenView>,
    at: nat,
    names: Seq<Seq<char>>,
    result: Result<Parsed, Place>,
) -> bool {
    result matches Ok(p) ==> well_read(ts, at, names, p) && is_expression(p.node)
}

/// Whether what was read, if anything, is a well-read statement.
pub open spec fn reads_statement(
    ts: Seq<TokenView>,
    at: nat,
    names: Seq<Seq<char>>,
    result: Result<Parsed, Place>,
) -> bool {
    result matches Ok(p) ==> well_read(ts, at, names, p) && is_statement(p.node)
}

/// A name that is found stands at or behind the position where the search
/// began.
proof fn lemma_find(names: Seq<Seq<char>>, name: Seq<char>, from: nat)
    ensures
        find_name(names, name, from) matches Some(i) ==> from <= i < names.len(),
    decreases names.len() - from,
{
    if from < names.len() && names[from as int] != name {
        lemma_find(names, name, from + 1);
    }
}

/// The slot of a name is among the names after its use.
proof fn lemma_slot(names: Seq<Seq<char>>, name: Seq<char>)
    ensures
        slot_of(names, name) < with_name(names, name).len(),
        names.len() <= with_name(names, name).len(),
{
    lemma_find(names, name, 0);
}

proof fn lemma_infix_shape(symbol: Symbol, lhs: Ast, rhs: Ast, n: nat)
    requires
        offsets_below(lhs, n),
        offsets_below(rhs, n),
        is_expression(lhs),
        is_expression(rhs),
    ensures
        offsets_below(infix(symbol, lhs, rhs), n),
        is_expression(infix(symbol, lhs, rhs)),
{
    reveal_with_fuel(offsets_below, 4);
    reveal_with_fuel(is_expression, 4);
}

proof fn lemma_assignment_shape(symbol: Symbol, target: Ast, value: Ast, n: nat)
    requires
        offsets_below(target, n),
        offsets_below(value, n),
        is_expression(target),
        is_expression(value),
        assignment(symbol, target, value) is Some,
    ensures
        offsets_below(assignment(symbol, target, value)->Some_0, n),
        is_expression(assignment(symbol, target, value)->Some_0),
{
    reveal_with_fuel(offsets_below, 3);
    reveal_with_fuel(is_expression, 3);
}

proof fn lemma_prefix_shape(symbol: Symbol, x: Ast, n: nat)
    requires
        offsets_below(x, n),
        is_expression(x),
        prefix(symbol, x) is Some,
    ensures
        offsets_below(prefix(symbol, x)->Some_0, n),
        is_expression(prefix(symbol, x)->Some_0),
{
    reveal_with_fuel(offsets_below, 3);
    reveal_with_fuel(is_expression, 3);
}

proof fn lemma_step_shape(offset: nat, op: BinaryOperator, n: nat)
    requires
        offset < n,
    ensures
        offsets_below(step(offset, op), n),
        is_expression(step(offset, op)),
{
    reveal_with_fuel(offsets_below, 3);
    reveal_with_fuel(is_expression, 3);
}

/// Every expression in brackets that is read is a well-read expression.
proof fn lemma_grouped(ts: Seq<TokenView>, at: nat, names: Seq<Seq<char>>)
    requires
        terminated(ts),
        at < ts.len(),
        symbol_at(ts, at) == Some(Symbol::OpenBracket),
    ensures
        reads_expression(ts, at, names, parse_primary(ts, at, names)),
    decreases remaining(ts, at), 0nat,
{
    reveal(parse_primary);
    reveal(parse_expression);
    lemma_expression(ts, at + 1, names);
}

/// Every call and every use of a name that is read is a well-read
/// expression.
proof fn lemma_named(ts: Seq<TokenView>, at: nat, names: Seq<Seq<char>>)
    requires
        terminated(ts),
        at < ts.len(),
        kind_at(ts, at) is Ident,
    ensures
        reads_expression(ts, at, names, parse_primary(ts, at, names)),
    decreases remaining(ts, at), 0nat,
{
    reveal(parse_primary);
    reveal(parse_arguments);
    let name = kind_at(ts, at)->Ident_0;
    if symbol_at(ts, at + 1) == Some(Symbol::OpenBracket) {
        lemma_arguments(ts, at + 2, 0, names, Seq::empty());
        if let Ok(list) = parse_arguments(ts, at + 2, 0, names, Seq::empty()) {
            let node = Ast::FuncCall { function_name: name, arguments: list.nodes };
            assert(offsets_below(node, list.names.len()));
            assert(is_expression(node));
        }
    } else {
        lemma_slot(names, name);
        let offset = slot_of(names, name);
        let after = with_name(names, name);
        lemma_step_shape(offset, BinaryOperator::Add, after.len());
        lemma_step_shape(offset, BinaryOperator::Sub, after.len());
    }
}

/// Every primary expression that is read is a well-read expression.
pub proof fn lemma_primary(ts: Seq<TokenView>, at: nat, names: Seq<Seq<char>>)
    requires
        terminated(ts),
        at < ts.len(),
    ensures
        reads_expression(ts, at, names, parse_primary(ts, at, names)),
    decreases remaining(ts, at), 1nat,
{
    match kind_at(ts, at) {
        TokenTypeView::Symbol(Symbol::OpenBracket) => {
            lemma_grouped(ts, at, names);
        },
        TokenTypeView::Ident(name) => {
            lemma_named(ts, at, names);
        },
        _ => {
            reveal(parse_primary);
        },
    }
}

/// The arguments of a call that are read are well-read expressions.
pub proof fn lemma_arguments(
    ts: Seq<TokenView>,
    start: nat,
    used: nat,
    names: Seq<Seq<char>>,
    done: Seq<Ast>,
)
    requires
        terminated(ts),
        start + used < ts.len(),
        all_offsets_below(done, names.len()),
        all_expressions(done),
    ensures
        parse_arguments(ts, start, used, names, done) matches Ok(list) ==> {
            &&& used < list.used
            &&& start + list.used < ts.len()
            &&& names.len() <= list.names.len()
            &&& all_offsets_below(list.nodes, list.names.len())
            &&& all_expressions(list.nodes)
        },
    decreases remaining(ts, start + used), 28nat + (if done.len() == 0 {
        1nat
    } else {
        0nat
    }),
{
    reveal(parse_arguments);
    reveal(parse_expression);
    let at = start + used;
    if symbol_at(ts, at) == Some(Symbol::CloseBracket) {
    } else if done.len() > 0 && symbol_at(ts, at) != Some(Symbol::Comma) {
    } else {
        let skip: nat = if done.len() > 0 {
            1
        } else {
            0
        };
        lemma_expression(ts, at + skip, names);
        if let Ok(e) = parse_expression(ts, at + skip, names) {
            lemma_all_monotone(done, names.len(), e.names.len());
            let more = done.push(e.node);
            assert forall|i: int| 0 <= i < more.len() implies offsets_below(
                #[trigger] more[i],
                e.names.len(),
            ) && is_expression(more[i]) by {
                if i < done.len() {
                    assert(more[i] == done[i]);
                }
            }
            lemma_arguments(ts, start, used + skip + e.used, e.names, more);
        }
    }
}

/// Every unary expression that is read is a well-read expression.
pub proof fn lemma_unary(ts: Seq<TokenView>, at: nat, names: Seq<Seq<char>>)
    requires
        terminated(ts),
        at < ts.len(),
    ensures
        reads_expression(ts, at, names, parse_unary(ts, at, names)),
    decreases remaining(ts, at), 2nat,
{
    reveal(parse_unary);
    reveal(parse_primary);
    match symbol_at(ts, at) {
        Some(s) => {
            if prefix(s, literal(0)) is Some {
                lemma_primary(ts, at + 1, names);
                if let Ok(p) = parse_primary(ts, at + 1, names) {
                    lemma_prefix_shape(s, p.node, p.names.len());
                }
            } else {
                lemma_primary(ts, at, names);
            }
        },
        None => {
            lemma_primary(ts, at, names);
        },
    }
}

/// Every power expression that is read is a well-read expression.
pub proof fn lemma_power_root(ts: Seq<TokenView>, at: nat, names: Seq<Seq<char>>)
    requires
        terminated(ts),
        at < ts.len(),
    ensures
        reads_expression(ts, at, names, parse_power_root(ts, at, names)),
    decreases remaining(ts, at), 3nat,
{
    reveal(parse_power_root);
    reveal(parse_unary);
    lemma_unary(ts, at, names);
    if let Ok(l) = parse_unary(ts, at, names) {
        let s = symbol_at(ts, at + l.used);
        if s == Some(Symbol::Power) || s == Some(Symbol::Root) {
            lemma_power_root(ts, at + l.used + 1, l.names);
            if let Ok(r) = parse_power_root(ts, at + l.used + 1, l.names) {
                lemma_offsets_monotone(l.node, l.names.len(), r.names.len());
            }
        }
    }
}

/// Every operand that is read is a well-read expression.
pub proof fn lemma_operand(level: nat, ts: Seq<TokenView>, at: nat, names: Seq<Seq<char>>)
    requires
        terminated(ts),
        at < ts.len(),
    ensures
        reads_expression(ts, at, names, parse_operand(level, ts, at, names)),
    decreases remaining(ts, at), 4nat + 2 * level,
{
    reveal(parse_operand);
    reveal(parse_power_root);
    reveal(parse_infix);
    if level == 0 {
        lemma_power_root(ts, at, names);
    } else {
        lemma_infix((level - 1) as nat, ts, at, names);
    }
}

/// Every infix expression that is read is a well-read expression.
pub proof fn lemma_infix(level: nat, ts: Seq<TokenView>, at: nat, names: Seq<Seq<char>>)
    requires
        terminated(ts),
        at < ts.len(),
    ensures
        reads_expression(ts, at, names, parse_infix(level, ts, at, names)),
    decreases remaining(ts, at), 5nat + 2 * level,
{
    reveal(parse_infix);
    reveal(parse_infix_rest);
    reveal(parse_operand);
    lemma_operand(level, ts, at, names);
    if let Ok(first) = parse_operand(level, ts, at, names) {
        lemma_infix_rest(level, ts, at, first);
    }
}

/// The operators and operands that follow a well-read expression make a
/// well-read expression with it.
pub proof fn lemma_infix_rest(level: nat, ts: Seq<TokenView>, start: nat, done: Parsed)
    requires
        terminated(ts),
        1 <= done.used,
        start + done.used < ts.len(),
        offsets_below(done.node, done.names.len()),
        is_expression(done.node),
    ensures
        parse_infix_rest(level, ts, start, done) matches Ok(p) ==> {
            &&& done.used <= p.used
            &&& start + p.used < ts.len()
            &&& done.names.len() <= p.names.len()
            &&& offsets_below(p.node, p.names.len())
            &&& is_expression(p.node)
        },
    decreases remaining(ts, start + done.used), 0nat,
{
    reveal(parse_infix);
    reveal(parse_infix_rest);
    reveal(parse_operand);
    let at = start + done.used;
    if let Some(s) = symbol_at(ts, at) {
        if infix_level(s) == Some(level) {
            if level == 1 {
                lemma_infix(1, ts, at + 1, done.names);
            } else {
                lemma_operand(level, ts, at + 1, done.names);
            }
            let right = if level == 1 {
                parse_infix(1, ts, at + 1, done.names)
            } else {
                parse_operand(level, ts, at + 1, done.names)
            };
            if let Ok(r) = right {
                lemma_offsets_monotone(done.node, done.names.len(), r.names.len());
                lemma_infix_shape(s, done.node, r.node, r.names.len());
                lemma_infix_rest(
                    level,
                    ts,
                    start,
                    Parsed {
                        node: infix(s, done.node, r.node),
                        used: done.used + 1 + r.used,
                        names: r.names,
                    },
                );
            }
        }
    }
}

/// Every assignment that is read is a well-read expression.
pub proof fn lemma_assign(ts: Seq<TokenView>, at: nat, names: Seq<Seq<char>>)
    requires
        terminated(ts),
        at < ts.len(),
    ensures
        reads_expression(ts, at, names, parse_assign(ts, at, names)),
    decreases remaining(ts, at), 25nat,
{
    reveal(parse_assign);
    reveal(parse_infix);
    lemma_infix(9, ts, at, names);
    if let Ok(l) = parse_infix(9, ts, at, names) {
        if let Some(s) = symbol_at(ts, at + l.used) {
            if assignment(s, l.node, l.node) is Some {
                lemma_assign(ts, at + l.used + 1, l.names);
                if let Ok(r) = parse_assign(ts, at + l.used + 1, l.names) {
                    lemma_offsets_monotone(l.node, l.names.len(), r.names.len());
                    assert(assignment(s, l.node, r.node) is Some);
                    lemma_assignment_shape(s, l.node, r.node, r.names.len());
                }
            }
        }
    }
}

/// Every expression that is read is a well-read expression.
pub proof fn lemma_expression(ts: Seq<TokenView>, at: nat, names: Seq<Seq<char>>)
    requires
        terminated(ts),
        at < ts.len(),
    ensures
        reads_expression(ts, at, names, parse_expression(ts, at, names)),
    decreases remaining(ts, at), 26nat,
{
    reveal(parse_expression);
    reveal(parse_assign);
    lemma_assign(ts, at, names);
    if let Ok(l) = parse_assign(ts, at, names) {
        if symbol_at(ts, at + l.used) == Some(Symbol::Exchange) {
            lemma_assign(ts, at + l.used + 1, l.names);
            if let Ok(r) = parse_assign(ts, at + l.used + 1, l.names) {
                lemma_offsets_monotone(l.node, l.names.len(), r.names.len());
            }
        }
    }
}

/// Every clause that is read is empty or a well-read expression.
pub proof fn lemma_clause(ts: Seq<TokenView>, at: nat, names: Seq<Seq<char>>)
    requires
        terminated(ts),
        at < ts.len(),
    ensures
        parse_clause(ts, at, names) matches Ok(c) ==> {
            &&& 1 <= c.used
            &&& at + c.used < ts.len()
            &&& names.len() <= c.names.len()
            &&& clause_offsets_below(c.node, c.names.len())
            &&& is_clause(c.node)
        },
    decreases remaining(ts, at), 27nat,
{
    reveal(parse_clause);
    reveal(parse_expression);
    if symbol_at(ts, at) != Some(Symbol::End) {
        lemma_expression(ts, at, names);
    }
}

/// Every alternative of a conditional that is read is absent or a
/// well-read statement.
pub proof fn lemma_else(ts: Seq<TokenView>, at: nat, names: Seq<Seq<char>>)
    requires
        terminated(ts),
        at < ts.len(),
    ensures
        parse_else(ts, at, names) matches Ok(c) ==> {
            &&& at + c.used < ts.len()
            &&& names.len() <= c.names.len()
            &&& clause_offsets_below(c.node, c.names.len())
            &&& c.node matches Some(other) ==> is_statement(*other)
        },
    decreases remaining(ts, at), 30nat,
{
    reveal(parse_else);
    reveal(parse_statement);
    if kind_at(ts, at) == TokenTypeView::Word(Word::Else) {
        lemma_statement(ts, at + 1, names);
    }
}

/// Every conditional that is read is a well-read statement.
pub proof fn lemma_if(ts: Seq<TokenView>, at: nat, names: Seq<Seq<char>>)
    requires
        terminated(ts),
        at < ts.len(),
    ensures
        reads_statement(ts, at, names, parse_if(ts, at, names)),
    decreases remaining(ts, at), 33nat,
{
    reveal(parse_if);
    reveal(parse_expression);
    reveal(parse_statement);
    reveal(parse_else);
    lemma_expression(ts, at, names);
    if let Ok(c) = parse_expression(ts, at, names) {
        lemma_statement(ts, at + c.used, c.names);
        if let Ok(t) = parse_statement(ts, at + c.used, c.names) {
            lemma_else(ts, at + c.used + t.used, t.names);
            if let Ok(f) = parse_else(ts, at + c.used + t.used, t.names) {
                lemma_offsets_monotone(c.node, c.names.len(), f.names.len());
                lemma_offsets_monotone(t.node, t.names.len(), f.names.len());
            }
        }
    }
}

/// Every `for` loop that is read is a well-read statement.
pub proof fn lemma_for(ts: Seq<TokenView>, at: nat, names: Seq<Seq<char>>)
    requires
        terminated(ts),
        at < ts.len(),
    ensures
        reads_statement(ts, at, names, parse_for(ts, at, names)),
    decreases remaining(ts, at), 33nat,
{
    reveal(parse_for);
    reveal(parse_clause);
    reveal(parse_statement);
    lemma_clause(ts, at, names);
    if let Ok(i) = parse_clause(ts, at, names) {
        lemma_clause(ts, at + i.used, i.names);
        if let Ok(c) = parse_clause(ts, at + i.used, i.names) {
            lemma_clause(ts, at + i.used + c.used, c.names);
            if let Ok(u) = parse_clause(ts, at + i.used + c.used, c.names) {
                lemma_statement(ts, at + i.used + c.used + u.used, u.names);
                if let Ok(b) = parse_statement(ts, at + i.used + c.used + u.used, u.names) {
                    lemma_clause_monotone(i.node, i.names.len(), b.names.len());
                    lemma_clause_monotone(c.node, c.names.len(), b.names.len());
                    lemma_clause_monotone(u.node, u.names.len(), b.names.len());
                }
            }
        }
    }
}

/// Every `while` loop that is read is a well-read statement.
pub proof fn lemma_while(ts: Seq<TokenView>, at: nat, names: Seq<Seq<char>>)
    requires
        terminated(ts),
        at < ts.len(),
    ensures
        reads_statement(ts, at, names, parse_while(ts, at, names)),
    decreases remaining(ts, at), 33nat,
{
    reveal(parse_while);
    reveal(parse_expression);
    reveal(parse_statement);
    lemma_expression(ts, at, names);
    if let Ok(c) = parse_expression(ts, at, names) {
        lemma_statement(ts, at + c.used, c.names);
        if let Ok(b) = parse_statement(ts, at + c.used, c.names) {
            lemma_offsets_monotone(c.node, c.names.len(), b.names.len());
        }
    }
}

/// Every expression statement that is read is a well-read statement.
pub proof fn lemma_evaluated(ts: Seq<TokenView>, at: nat, names: Seq<Seq<char>>)
    requires
        terminated(ts),
        at < ts.len(),
    ensures
        reads_statement(ts, at, names, parse_evaluated(ts, at, names)),
    decreases remaining(ts, at), 31nat,
{
    reveal(parse_evaluated);
    reveal(parse_expression);
    lemma_expression(ts, at, names);
}

/// Every statement that is read is a well-read statement; so it spans at
/// least one token.
pub proof fn lemma_statement(ts: Seq<TokenView>, at: nat, names: Seq<Seq<char>>)
    requires
        terminated(ts),
        at < ts.len(),
    ensures
        reads_statement(ts, at, names, parse_statement(ts, at, names)),
    decreases remaining(ts, at), 32nat,
{
    reveal(parse_statement);
    reveal(parse_block);
    reveal(parse_if);
    reveal(parse_for);
    reveal(parse_while);
    reveal(parse_evaluated);
    match kind_at(ts, at) {
        TokenTypeView::Symbol(Symbol::OpenBrace) => {
            lemma_block(ts, at + 1, 0, names, Seq::empty());
        },
        TokenTypeView::Word(Word::If) => {
            lemma_if(ts, at + 1, names);
        },
        TokenTypeView::Word(Word::For) => {
            lemma_for(ts, at + 1, names);
        },
        TokenTypeView::Word(Word::While) => {
            lemma_while(ts, at + 1, names);
        },
        _ => {
            lemma_evaluated(ts, at, names);
        },
    }
}

/// The statements of a block that are read are well-read statements.
pub proof fn lemma_block(
    ts: Seq<TokenView>,
    start: nat,
    used: nat,
    names: Seq<Seq<char>>,
    done: Seq<Ast>,
)
    requires
        terminated(ts),
        start + used < ts.len(),
        all_offsets_below(done, names.len()),
        all_statements(done),
    ensures
        parse_block(ts, start, used, names, done) matches Ok(list) ==> {
            &&& used < list.used
            &&& start + list.used < ts.len()
            &&& names.len() <= list.names.len()
            &&& all_offsets_below(list.nodes, list.names.len())
            &&& all_statements(list.nodes)
        },
    decreases remaining(ts, start + used), 33nat,
{
    reveal(parse_block);
    reveal(parse_statement);
    let at = start + used;
    if symbol_at(ts, at) != Some(Symbol::CloseBrace) {
        lemma_statement(ts, at, names);
        if let Ok(s) = parse_statement(ts, at, names) {
            lemma_all_monotone(done, names.len(), s.names.len());
            let more = done.push(s.node);
            assert forall|i: int| 0 <= i < more.len() implies offsets_below(
                #[trigger] more[i],
                s.names.len(),
            ) && is_statement(more[i]) by {
                if i < done.len() {
                    assert(more[i] == done[i]);
                }
            }
            lemma_block(ts, start, used + s.used, s.names, more);
        }
    }
}

/// The parameters that are read end before the end token.
pub proof fn lemma_parameters(ts: Seq<TokenView>, start: nat, used: nat, names: Seq<Seq<char>>)
    requires
        terminated(ts),
        start + used < ts.len(),
    ensures
        parse_parameters(ts, start, used, names) matches Ok(list) ==> used < list.used && start
            + list.used < ts.len(),
    decreases remaining(ts, start + used),
{
    reveal(parse_parameters);
    let at = start + used;
    if symbol_at(ts, at) == Some(Symbol::CloseSquare) {
    } else if names.len() > 0 && symbol_at(ts, at) != Some(Symbol::Comma) {
    } else {
        let skip: nat = if names.len() > 0 {
            1
        } else {
            0
        };
        if let TokenTypeView::Ident(name) = kind_at(ts, at + skip) {
            lemma_parameters(ts, start, used + skip + 1, names.push(name));
        }
    }
}

/// Every function that is read spans at least two tokens, ends before the
/// end token, and is a function of the grammar: its body is a statement
/// that refers to the function's slots only.
pub proof fn lemma_function(ts: Seq<TokenView>, at: nat)
    requires
        terminated(ts),
        at < ts.len(),
    ensures
        parse_function(ts, at) matches Ok(p) ==> 2 <= p.used && at + p.used < ts.len()
            && is_definition(p.node),
{
    reveal(parse_function);
    reveal(parse_parameters);
    reveal(parse_statement);
    if kind_at(ts, at) == TokenTypeView::Word(Word::Function) {
        if let TokenTypeView::Ident(name) = kind_at(ts, at + 1) {
            if symbol_at(ts, at + 2) == Some(Symbol::OpenSquare) {
                lemma_parameters(ts, at + 3, 0, Seq::empty());
                if let Ok(params) = parse_parameters(ts, at + 3, 0, Seq::empty()) {
                    lemma_statement(ts, at + 3 + params.used, params.names);
                }
            } else {
                lemma_statement(ts, at + 2, Seq::empty());
            }
        }
    }
}

/// The functions that are read behind functions of the grammar make a
/// program of the grammar with them.
pub proof fn lemma_functions(ts: Seq<TokenView>, at: nat, done: Seq<Ast>)
    requires
        terminated(ts),
        at < ts.len(),
        forall|i: int| 0 <= i < done.len() ==> is_definition(#[trigger] done[i]),
    ensures
        parse_functions(ts, at, done) matches Ok(program) ==> is_program(program),
    decreases remaining(ts, at),
{
    reveal(parse_functions);
    if kind_at(ts, at) != TokenTypeView::Eof {
        lemma_function(ts, at);
        if let Ok(f) = parse_function(ts, at) {
            let more = done.push(f.node);
            assert forall|i: int| 0 <= i < more.len() implies is_definition(#[trigger] more[i]) by {
                if i < done.len() {
                    assert(more[i] == done[i]);
                }
            }
            lemma_functions(ts, at + f.used, more);
        }
    }
}

/// Every program that is read from a token sequence which ends in the end
/// token is a sequence of functions whose bodies are statements, and every
/// variable of a function refers to one of that function's slots.
pub proof fn lemma_program(ts: Seq<TokenView>)
    requires
        terminated(ts),
    ensures
        parse_program(ts) matches Ok(program) ==> is_program(program) && well_scoped(program),
{
    lemma_functions(ts, 0, Seq::empty());
    if let Ok(program) = parse_program(ts) {
        lemma_program_scoped(program);
    }
}

} // verus!
