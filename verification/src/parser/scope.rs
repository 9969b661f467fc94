//! Which slots a tree refers to, and which shapes the grammar gives.

use vstd::prelude::*;
use crate::parser::node::Ast;

verus! {

/// Whether every variable of `node` refers to a slot below `n`. A function
/// inside `node` has its own slots: its body is held to their number.
pub open spec fn offsets_below(node: Ast, n: nat) -> bool
    decreases node,
{
    match node {
        Ast::Program { functions } => forall|i: int|
            0 <= i < functions.len() ==> offsets_below(#[trigger] functions[i], n),
        Ast::Function { variables, statement, .. } => offsets_below(*statement, variables.len()),
        Ast::Statement { node: inner } => offsets_below(*inner, n),
        Ast::Block { statements } => forall|i: int|
            0 <= i < statements.len() ==> offsets_below(#[trigger] statements[i], n),
        Ast::Return { node: inner } => offsets_below(*inner, n),
        Ast::If { condition, true_case, false_case } => offsets_below(*condition, n)
            && offsets_below(*true_case, n) && clause_offsets_below(false_case, n),
        Ast::For { init, condition, update, statement } => clause_offsets_below(init, n)
            && clause_offsets_below(condition, n) && clause_offsets_below(update, n)
            && offsets_below(*statement, n),
        Ast::While { condition, node: body } => offsets_below(*condition, n) && offsets_below(
            *body,
            n,
        ),
        Ast::Operator { lhs, rhs, .. } => offsets_below(*lhs, n) && offsets_below(*rhs, n),
        Ast::Variable { offset } => offset < n,
        Ast::FuncCall { arguments, .. } => forall|i: int|
            0 <= i < arguments.len() ==> offsets_below(#[trigger] arguments[i], n),
        Ast::Number { .. } => true,
    }
}

/// Whether every variable of an optional node refers to a slot below `n`.
pub open spec fn clause_offsets_below(clause: Option<Box<Ast>>, n: nat) -> bool
    decreases clause,
{
    match clause {
        None => true,
        Some(inner) => offsets_below(*inner, n),
    }
}

/// Whether every variable of each of `nodes` refers to a slot below `n`.
pub open spec fn all_offsets_below(nodes: Seq<Ast>, n: nat) -> bool {
    forall|i: int| 0 <= i < nodes.len() ==> offsets_below(#[trigger] nodes[i], n)
}

/// Whether every function of the program refers to its own slots only.
pub open spec fn well_scoped(program: Ast) -> bool {
    offsets_below(program, 0)
}

/// A tree that refers to slots below `n` refers to slots below any larger
/// bound.
pub proof fn lemma_offsets_monotone(node: Ast, n: nat, m: nat)
    requires
        offsets_below(node, n),
        n <= m,
    ensures
        offsets_below(node, m),
    decreases node,
{
    match node {
        Ast::Program { functions } => {
            assert forall|i: int| 0 <= i < functions.len() implies offsets_below(
                #[trigger] functions[i],
                m,
            ) by {
                lemma_offsets_monotone(functions[i], n, m);
            }
        },
        Ast::Function { .. } => {},
        Ast::Statement { node: inner } => lemma_offsets_monotone(*inner, n, m),
        Ast::Block { statements } => {
            assert forall|i: int| 0 <= i < statements.len() implies offsets_below(
                #[trigger] statements[i],
                m,
            ) by {
                lemma_offsets_monotone(statements[i], n, m);
            }
        },
        Ast::Return { node: inner } => lemma_offsets_monotone(*inner, n, m),
        Ast::If { condition, true_case, false_case } => {
            lemma_offsets_monotone(*condition, n, m);
            lemma_offsets_monotone(*true_case, n, m);
            lemma_clause_monotone(false_case, n, m);
        },
        Ast::For { init, condition, update, statement } => {
            lemma_clause_monotone(init, n, m);
            lemma_clause_monotone(condition, n, m);
            lemma_clause_monotone(update, n, m);
            lemma_offsets_monotone(*statement, n, m);
        },
        Ast::While { condition, node: body } => {
            lemma_offsets_monotone(*condition, n, m);
            lemma_offsets_monotone(*body, n, m);
        },
        Ast::Operator { lhs, rhs, .. } => {
            lemma_offsets_monotone(*lhs, n, m);
            lemma_offsets_monotone(*rhs, n, m);
        },
        Ast::Variable { .. } => {},
        Ast::FuncCall { arguments, .. } => {
            assert forall|i: int| 0 <= i < arguments.len() implies offsets_below(
                #[trigger] arguments[i],
                m,
            ) by {
                lemma_offsets_monotone(arguments[i], n, m);
            }
        },
        Ast::Number { .. } => {},
    }
}

/// The same for an optional node.
pub proof fn lemma_clause_monotone(clause: Option<Box<Ast>>, n: nat, m: nat)
    requires
        clause_offsets_below(clause, n),
        n <= m,
    ensures
        clause_offsets_below(clause, m),
    decreases clause,
{
    match clause {
        None => {},
        Some(inner) => lemma_offsets_monotone(*inner, n, m),
    }
}

/// The same for each node of a sequence.
pub proof fn lemma_all_monotone(nodes: Seq<Ast>, n: nat, m: nat)
    requires
        all_offsets_below(nodes, n),
        n <= m,
    ensures
        all_offsets_below(nodes, m),
{
    assert forall|i: int| 0 <= i < nodes.len() implies offsets_below(#[trigger] nodes[i], m) by {
        lemma_offsets_monotone(nodes[i], n, m);
    }
}

/// Whether `node` is an expression of the grammar: a literal, a variable,
/// a call on expressions, or an operator on two expressions.
pub open spec fn is_expression(node: Ast) -> bool
    decreases node,
{
    match node {
        Ast::Number { .. } => true,
        Ast::Variable { .. } => true,
        Ast::FuncCall { arguments, .. } => forall|i: int|
            0 <= i < arguments.len() ==> is_expression(#[trigger] arguments[i]),
        Ast::Operator { lhs, rhs, .. } => is_expression(*lhs) && is_expression(*rhs),
        _ => false,
    }
}

/// Whether an optional clause is absent or an expression.
pub open spec fn is_clause(clause: Option<Box<Ast>>) -> bool
    decreases clause,
{
    match clause {
        None => true,
        Some(inner) => is_expression(*inner),
    }
}

/// Whether `node` is a statement of the grammar: an expression whose value
/// is dropped or returned, or a block, a conditional or a loop over
/// expressions and statements.
pub open spec fn is_statement(node: Ast) -> bool
    decreases node,
{
    match node {
        Ast::Statement { node: inner } => is_expression(*inner),
        Ast::Return { node: inner } => is_expression(*inner),
        Ast::Block { statements } => forall|i: int|
            0 <= i < statements.len() ==> is_statement(#[trigger] statements[i]),
        Ast::If { condition, true_case, false_case } => is_expression(*condition) && is_statement(
            *true_case,
        ) && match false_case {
            None => true,
            Some(other) => is_statement(*other),
        },
        Ast::For { init, condition, update, statement } => is_clause(init) && is_clause(condition)
            && is_clause(update) && is_statement(*statement),
        Ast::While { condition, node: body } => is_expression(*condition) && is_statement(*body),
        _ => false,
    }
}

/// Whether each of `nodes` is an expression.
pub open spec fn all_expressions(nodes: Seq<Ast>) -> bool {
    forall|i: int| 0 <= i < nodes.len() ==> is_expression(#[trigger] nodes[i])
}

/// Whether each of `nodes` is a statement.
pub open spec fn all_statements(nodes: Seq<Ast>) -> bool {
    forall|i: int| 0 <= i < nodes.len() ==> is_statement(#[trigger] nodes[i])
}

/// Whether `node` is a function of the grammar: its parameters are among
/// its slots, its body is a statement, and the body refers to the
/// function's slots only.
pub open spec fn is_definition(node: Ast) -> bool {
    match node {
        Ast::Function { args_num, variables, statement, .. } => args_num <= variables.len()
            && is_statement(*statement) && offsets_below(*statement, variables.len()),
        _ => false,
    }
}

/// Whether `program` is a program of the grammar: a sequence of functions.
pub open spec fn is_program(program: Ast) -> bool {
    match program {
        Ast::Program { functions } => forall|i: int|
            0 <= i < functions.len() ==> is_definition(#[trigger] functions[i]),
        _ => false,
    }
}

/// In a program of the grammar every function refers to its own slots
/// only.
pub proof fn lemma_program_scoped(program: Ast)
    requires
        is_program(program),
    ensures
        well_scoped(program),
{
    let functions = program->Program_functions;
    assert forall|i: int| 0 <= i < functions.len() implies offsets_below(
        #[trigger] functions[i],
        0,
    ) by {
        assert(is_definition(functions[i]));
    }
}

} // verus!
