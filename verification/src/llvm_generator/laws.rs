//! What holds of every emission: the stack discipline, the order of
//! operands, and that the text is a function of the tree.

use vstd::prelude::*;
use crate::llvm_generator::lines::{
    binary_line, branch_line, jump_line, label_line, load_line, store_line, widen_line,
};
use crate::llvm_generator::model::{
    EmitError, EmitState, Emitted, SignatureView, clause_weight, debug_signature, declared, emit,
    emit_arguments, emit_assign, emit_binary, emit_call, emit_change, emit_clause, emit_each,
    emit_exchange, emit_for, emit_for_condition, emit_function, emit_functions, emit_if, emit_while,
    is_arithmetic, is_comparison, mnemonic, module_text, prelude, weight, weights,
};
use crate::parser::node::{Ast, Node};
use crate::parser::node::binary_operator::BinaryOperator;
use crate::parser::scope::{
    clause_offsets_below, is_clause, is_definition, is_expression, is_program, is_statement,
    offsets_below,
};

verus! {

/// Whether `node` has the shape of an expression: a literal, a variable, a
/// call on expressions, or an operator other than power and root on
/// expressions.
pub open spec fn yields(node: Ast) -> bool
    decreases node,
{
    match node {
        Ast::Number { .. } => true,
        Ast::Variable { .. } => true,
        Ast::FuncCall { arguments, .. } => forall|i: int|
            0 <= i < arguments.len() ==> yields(#[trigger] arguments[i]),
        Ast::Operator { typ, lhs, rhs } => match typ {
            BinaryOperator::Power | BinaryOperator::Root => false,
            BinaryOperator::Assign | BinaryOperator::ChangeMin | BinaryOperator::ChangeMax => yields(
                *rhs,
            ),
            BinaryOperator::Exchange => true,
            _ => yields(*lhs) && yields(*rhs),
        },
        _ => false,
    }
}

/// Whether an optional clause is absent or has the shape of an expression.
pub open spec fn clause_yields(clause: Option<Box<Ast>>) -> bool
    decreases clause,
{
    match clause {
        None => true,
        Some(inner) => yields(*inner),
    }
}

/// Whether `node` has the shape of a statement: an expression whose value
/// is dropped or returned, or a block, conditional or loop over
/// expressions and statements; or a function whose body is a statement.
pub open spec fn keeps(node: Ast) -> bool
    decreases node,
{
    match node {
        Ast::Statement { node: inner } => yields(*inner),
        Ast::Return { node: inner } => yields(*inner),
        Ast::Block { statements } => forall|i: int|
            0 <= i < statements.len() ==> keeps(#[trigger] statements[i]),
        Ast::If { condition, true_case, false_case } => yields(*condition) && keeps(*true_case)
            && match false_case {
            None => true,
            Some(other) => keeps(*other),
        },
        Ast::For { init, condition, update, statement } => clause_yields(init) && clause_yields(
            condition,
        ) && clause_yields(update) && keeps(*statement),
        Ast::While { condition, node: body } => yields(*condition) && keeps(*body),
        Ast::Function { statement, .. } => keeps(*statement),
        _ => false,
    }
}

/// Whether state `after` is state `before` with one value on top that was
/// numbered in between.
pub open spec fn pushed_one(before: EmitState, after: EmitState) -> bool {
    &&& after.stack.len() == before.stack.len() + 1
    &&& after.stack.drop_last() == before.stack
    &&& before.index <= after.stack.last() < after.index
    &&& before.label <= after.label
}

/// Whether state `after` has the stack of state `before`, and counters
/// that are no smaller.
pub open spec fn kept(before: EmitState, after: EmitState) -> bool {
    &&& after.stack == before.stack
    &&& before.index <= after.index
    &&& before.label <= after.label
}

/// Stack discipline of expressions: a node with the shape of an
/// expression, where it is written, pushes exactly one value and leaves the
/// values below it alone; the counters never go back.
pub proof fn lemma_expression_pushes_one(
    node: Ast,
    table: Seq<SignatureView>,
    locals: nat,
    st: EmitState,
)
    requires
        yields(node),
    ensures
        emit(node, table, locals, st) matches Ok(out) ==> pushed_one(st, out.state),
    decreases node, 1nat,
{
    match node {
        Ast::Number { .. } => {
            assert(st.push_next().stack.drop_last() =~= st.stack);
        },
        Ast::Variable { .. } => {
            assert(st.push_next().stack.drop_last() =~= st.stack);
        },
        Ast::FuncCall { function_name, arguments } => {
            assert(emit(node, table, locals, st) == emit_call(node, table, locals, st));
            let start = Emitted { code: Seq::empty(), state: st };
            lemma_arguments_keep(arguments, 0, table, locals, start, Seq::empty());
            if let Ok((done, values)) = emit_arguments(
                arguments,
                0,
                table,
                locals,
                start,
                Seq::empty(),
            ) {
                assert(done.state.push_next().stack.drop_last() =~= done.state.stack);
            }
        },
        Ast::Operator { typ, lhs, rhs } => {
            match typ {
                BinaryOperator::Assign => {
                    assert(emit(node, table, locals, st) == emit_assign(node, table, locals, st));
                    lemma_expression_pushes_one(*rhs, table, locals, st);
                    if let Ok(r) = emit(*rhs, table, locals, st) {
                        assert(r.state.pop().push_next().stack.drop_last() =~= st.stack);
                    }
                },
                BinaryOperator::ChangeMin | BinaryOperator::ChangeMax => {
                    assert(emit(node, table, locals, st) == emit_change(node, table, locals, st));
                    lemma_expression_pushes_one(*rhs, table, locals, st.next_label());
                    if let Ok(r) = emit(*rhs, table, locals, st.next_label()) {
                        assert(r.state.pop().skip(2).push_next().stack.drop_last() =~= st.stack);
                    }
                },
                BinaryOperator::Exchange => {
                    assert(emit(node, table, locals, st) == emit_exchange(node, locals, st));
                    assert(st.skip(2).push_next().stack.drop_last() =~= st.stack);
                },
                _ => {
                    assert(emit(node, table, locals, st) == emit_binary(node, table, locals, st));
                    lemma_expression_pushes_one(*rhs, table, locals, st);
                    if let Ok(r) = emit(*rhs, table, locals, st) {
                        lemma_expression_pushes_one(*lhs, table, locals, r.state);
                        if let Ok(l) = emit(*lhs, table, locals, r.state) {
                            let rest = l.state.pop().pop();
                            assert(rest.stack =~= st.stack);
                            assert(rest.push_next().stack.drop_last() =~= st.stack);
                            assert(rest.skip(1).push_next().stack.drop_last() =~= st.stack);
                        }
                    }
                },
            }
        },
        _ => {},
    }
}

/// The arguments of a call, each with the shape of an expression, leave
/// the stack as they found it.
proof fn lemma_arguments_keep(
    arguments: Seq<Ast>,
    from: nat,
    table: Seq<SignatureView>,
    locals: nat,
    done: Emitted,
    values: Seq<nat>,
)
    requires
        forall|i: int| 0 <= i < arguments.len() ==> yields(#[trigger] arguments[i]),
    ensures
        emit_arguments(arguments, from, table, locals, done, values) matches Ok(out) ==> kept(
            done.state,
            out.0.state,
        ),
    decreases arguments, arguments.len() - from,
{
    if from < arguments.len() {
        lemma_expression_pushes_one(arguments[from as int], table, locals, done.state);
        if let Ok(r) = emit(arguments[from as int], table, locals, done.state) {
            assert(r.state.pop().stack =~= done.state.stack);
            lemma_arguments_keep(
                arguments,
                from + 1,
                table,
                locals,
                Emitted { code: done.code + r.code, state: r.state.pop() },
                values.push(r.state.top()),
            );
        }
    }
}

/// Stack discipline of statements: a node with the shape of a statement,
/// where it is written, leaves the stack as it found it; the counters
/// never go back.
pub proof fn lemma_statement_keeps_stack(
    node: Ast,
    table: Seq<SignatureView>,
    locals: nat,
    st: EmitState,
)
    requires
        keeps(node),
    ensures
        emit(node, table, locals, st) matches Ok(out) ==> kept(st, out.state),
    decreases node, 1nat,
{
    match node {
        Ast::Statement { node: inner } => {
            lemma_expression_pushes_one(*inner, table, locals, st);
        },
        Ast::Return { node: inner } => {
            lemma_expression_pushes_one(*inner, table, locals, st);
        },
        Ast::Block { statements } => {
            lemma_each_keeps(
                statements,
                0,
                table,
                locals,
                Emitted { code: Seq::empty(), state: st },
            );
        },
        Ast::If { condition, true_case, false_case } => {
            assert(emit(node, table, locals, st) == emit_if(node, table, locals, st));
            lemma_expression_pushes_one(*condition, table, locals, st.next_label());
            if let Ok(c) = emit(*condition, table, locals, st.next_label()) {
                lemma_statement_keeps_stack(*true_case, table, locals, c.state.pop().skip(1));
                if let Ok(t) = emit(*true_case, table, locals, c.state.pop().skip(1)) {
                    if let Some(other) = false_case {
                        lemma_statement_keeps_stack(*other, table, locals, t.state);
                    }
                }
            }
        },
        Ast::For { init, condition, update, statement } => {
            assert(emit(node, table, locals, st) == emit_for(node, table, locals, st));
            lemma_clause_keeps(init, table, locals, st.next_label());
            if let Ok(i) = emit_clause(init, table, locals, st.next_label()) {
                if let Some(inner) = condition {
                    lemma_expression_pushes_one(*inner, table, locals, i.state);
                }
                if let Ok(c) = emit_for_condition(condition, st.label, table, locals, i.state) {
                    lemma_statement_keeps_stack(*statement, table, locals, c.state);
                    if let Ok(b) = emit(*statement, table, locals, c.state) {
                        lemma_clause_keeps(update, table, locals, b.state);
                    }
                }
            }
        },
        Ast::While { condition, node: body } => {
            assert(emit(node, table, locals, st) == emit_while(node, table, locals, st));
            lemma_expression_pushes_one(*condition, table, locals, st.next_label());
            if let Ok(c) = emit(*condition, table, locals, st.next_label()) {
                lemma_statement_keeps_stack(*body, table, locals, c.state.pop().skip(1));
            }
        },
        Ast::Function { variables, statement, .. } => {
            assert(emit(node, table, locals, st) == emit_function(node, table, st));
            lemma_statement_keeps_stack(
                *statement,
                table,
                variables.len(),
                st.skip(variables.len()),
            );
        },
        _ => {},
    }
}

/// An optional clause with the shape of an expression leaves the stack as
/// it found it.
proof fn lemma_clause_keeps(
    clause: Option<Box<Ast>>,
    table: Seq<SignatureView>,
    locals: nat,
    st: EmitState,
)
    requires
        clause_yields(clause),
    ensures
        emit_clause(clause, table, locals, st) matches Ok(out) ==> kept(st, out.state),
    decreases clause, 0nat,
{
    if let Some(inner) = clause {
        lemma_expression_pushes_one(*inner, table, locals, st);
    }
}

/// Statements in a row leave the stack as they found it.
proof fn lemma_each_keeps(
    statements: Seq<Ast>,
    from: nat,
    table: Seq<SignatureView>,
    locals: nat,
    done: Emitted,
)
    requires
        forall|i: int| 0 <= i < statements.len() ==> keeps(#[trigger] statements[i]),
    ensures
        emit_each(statements, from, table, locals, done) matches Ok(out) ==> kept(
            done.state,
            out.state,
        ),
    decreases statements, statements.len() - from,
{
    if from < statements.len() {
        lemma_statement_keeps_stack(statements[from as int], table, locals, done.state);
        if let Ok(r) = emit(statements[from as int], table, locals, done.state) {
            lemma_each_keeps(
                statements,
                from + 1,
                table,
                locals,
                Emitted { code: done.code + r.code, state: r.state },
            );
        }
    }
}

/// Where the definitions of a program are written, each function by
/// itself is written with an empty stack at its end.
pub proof fn lemma_functions_end_empty(
    functions: Seq<Ast>,
    from: nat,
    table: Seq<SignatureView>,
    code: Seq<char>,
)
    ensures
        emit_functions(functions, from, table, code) is Ok ==> forall|i: int|
            from <= i < functions.len() ==> (emit(
                #[trigger] functions[i],
                table,
                0,
                EmitState::fresh(),
            ) matches Ok(out) && out.state.stack.len() == 0),
    decreases functions.len() - from,
{
    if from < functions.len() {
        if let Ok(r) = emit(functions[from as int], table, 0, EmitState::fresh()) {
            lemma_functions_end_empty(functions, from + 1, table, code + r.code);
        }
    }
}

/// Where a module is written, the value stack is empty at the end of every
/// function.
pub proof fn lemma_module_ends_empty(program: Ast)
    requires
        module_text(program) is Ok,
    ensures
        program is Program,
        declared(program->Program_functions, 0, seq![debug_signature()]) is Ok,
        forall|i: int|
            0 <= i < program->Program_functions.len() ==> (emit(
                #[trigger] program->Program_functions[i],
                declared(program->Program_functions, 0, seq![debug_signature()])->Ok_0,
                0,
                EmitState::fresh(),
            ) matches Ok(out) && out.state.stack.len() == 0),
{
    let functions = program->Program_functions;
    let table = declared(functions, 0, seq![debug_signature()])->Ok_0;
    lemma_functions_end_empty(functions, 0, table, prelude());
}

/// Functions with the shape of a statement never leave a value behind:
/// writing them fails, if at all, for another reason.
pub proof fn lemma_statements_end_empty(
    functions: Seq<Ast>,
    from: nat,
    table: Seq<SignatureView>,
    code: Seq<char>,
)
    requires
        forall|i: int| 0 <= i < functions.len() ==> keeps(#[trigger] functions[i]),
    ensures
        emit_functions(functions, from, table, code) != Err::<Seq<char>, EmitError>(
            EmitError::StackNotEmpty,
        ),
    decreases functions.len() - from,
{
    if from < functions.len() {
        lemma_statement_keeps_stack(functions[from as int], table, 0, EmitState::fresh());
        lemma_counters_grow(functions[from as int], table, 0, EmitState::fresh());
        if let Ok(r) = emit(functions[from as int], table, 0, EmitState::fresh()) {
            lemma_statements_end_empty(functions, from + 1, table, code + r.code);
        }
    }
}

/// Whether the counters of `after` are those of `before`, grown by `w` at
/// most.
pub open spec fn advanced(before: EmitState, after: EmitState, w: nat) -> bool {
    &&& before.index <= after.index <= before.index + w
    &&& before.label <= after.label <= before.label + w
}

/// What holds of every node, whatever its shape: it is never written with
/// the error that is kept for the end of a function, and where it is
/// written the two counters have not gone back and have grown by the
/// weight of the node at most.
pub proof fn lemma_counters_grow(node: Ast, table: Seq<SignatureView>, locals: nat, st: EmitState)
    ensures
        emit(node, table, locals, st) != Err::<Emitted, EmitError>(EmitError::StackNotEmpty),
        emit(node, table, locals, st) matches Ok(out) ==> advanced(st, out.state, weight(node)),
    decreases node, 1nat,
{
    match node {
        Ast::Program { .. } => {},
        Ast::Function { variables, statement, .. } => {
            assert(emit(node, table, locals, st) == emit_function(node, table, st));
            lemma_counters_grow(*statement, table, variables.len(), st.skip(variables.len()));
        },
        Ast::Statement { node: inner } => {
            lemma_counters_grow(*inner, table, locals, st);
        },
        Ast::Block { statements } => {
            lemma_each_counters(
                statements,
                0,
                table,
                locals,
                Emitted { code: Seq::empty(), state: st },
            );
        },
        Ast::Return { node: inner } => {
            lemma_counters_grow(*inner, table, locals, st);
        },
        Ast::If { .. } => {
            lemma_branch_counters(node, table, locals, st);
        },
        Ast::For { .. } => {
            lemma_for_counters(node, table, locals, st);
        },
        Ast::While { .. } => {
            lemma_branch_counters(node, table, locals, st);
        },
        Ast::Operator { .. } => {
            lemma_operator_counters(node, table, locals, st);
        },
        Ast::Variable { .. } => {},
        Ast::FuncCall { arguments, .. } => {
            assert(emit(node, table, locals, st) == emit_call(node, table, locals, st));
            lemma_arguments_counters(
                arguments,
                0,
                table,
                locals,
                Emitted { code: Seq::empty(), state: st },
                Seq::empty(),
            );
        },
        Ast::Number { .. } => {},
    }
}

proof fn lemma_branch_counters(node: Ast, table: Seq<SignatureView>, locals: nat, st: EmitState)
    requires
        node is If || node is While,
    ensures
        emit(node, table, locals, st) != Err::<Emitted, EmitError>(EmitError::StackNotEmpty),
        emit(node, table, locals, st) matches Ok(out) ==> advanced(st, out.state, weight(node)),
    decreases node, 0nat,
{
    match node {
        Ast::If { condition, true_case, false_case } => {
            assert(emit(node, table, locals, st) == emit_if(node, table, locals, st));
            assert(weight(node) == 3 + weight(*condition) + weight(*true_case) + clause_weight(
                false_case,
            ));
            lemma_counters_grow(*condition, table, locals, st.next_label());
            if let Ok(c) = emit(*condition, table, locals, st.next_label()) {
                lemma_counters_grow(*true_case, table, locals, c.state.pop().skip(1));
                if let Ok(t) = emit(*true_case, table, locals, c.state.pop().skip(1)) {
                    if let Some(other) = false_case {
                        lemma_counters_grow(*other, table, locals, t.state);
                    }
                }
            }
        },
        Ast::While { condition, node: body } => {
            assert(emit(node, table, locals, st) == emit_while(node, table, locals, st));
            lemma_counters_grow(*condition, table, locals, st.next_label());
            if let Ok(c) = emit(*condition, table, locals, st.next_label()) {
                lemma_counters_grow(*body, table, locals, c.state.pop().skip(1));
            }
        },
        _ => {},
    }
}

proof fn lemma_clause_counters(
    clause: Option<Box<Ast>>,
    table: Seq<SignatureView>,
    locals: nat,
    st: EmitState,
)
    ensures
        emit_clause(clause, table, locals, st) != Err::<Emitted, EmitError>(
            EmitError::StackNotEmpty,
        ),
        emit_clause(clause, table, locals, st) matches Ok(out) ==> advanced(
            st,
            out.state,
            clause_weight(clause),
        ),
    decreases clause, 0nat,
{
    if let Some(inner) = clause {
        lemma_counters_grow(*inner, table, locals, st);
    }
}

proof fn lemma_for_counters(node: Ast, table: Seq<SignatureView>, locals: nat, st: EmitState)
    requires
        node is For,
    ensures
        emit(node, table, locals, st) != Err::<Emitted, EmitError>(EmitError::StackNotEmpty),
        emit(node, table, locals, st) matches Ok(out) ==> advanced(st, out.state, weight(node)),
    decreases node, 0nat,
{
    match node {
        Ast::For { init, condition, update, statement } => {
            assert(emit(node, table, locals, st) == emit_for(node, table, locals, st));
            assert(weight(node) == 3 + clause_weight(init) + clause_weight(condition)
                + clause_weight(update) + weight(*statement));
            lemma_clause_counters(init, table, locals, st.next_label());
            if let Ok(i) = emit_clause(init, table, locals, st.next_label()) {
                if let Some(inner) = condition {
                    lemma_counters_grow(*inner, table, locals, i.state);
                }
                if let Ok(c) = emit_for_condition(condition, st.label, table, locals, i.state) {
                    lemma_counters_grow(*statement, table, locals, c.state);
                    if let Ok(b) = emit(*statement, table, locals, c.state) {
                        lemma_clause_counters(update, table, locals, b.state);
                    }
                }
            }
        },
        _ => {},
    }
}

proof fn lemma_operator_counters(node: Ast, table: Seq<SignatureView>, locals: nat, st: EmitState)
    requires
        node is Operator,
    ensures
        emit(node, table, locals, st) != Err::<Emitted, EmitError>(EmitError::StackNotEmpty),
        emit(node, table, locals, st) matches Ok(out) ==> advanced(st, out.state, weight(node)),
    decreases node, 0nat,
{
    match node {
        Ast::Operator { typ, lhs, rhs } => {
            match typ {
                BinaryOperator::Power | BinaryOperator::Root => {},
                BinaryOperator::Exchange => {
                    assert(emit(node, table, locals, st) == emit_exchange(node, locals, st));
                },
                BinaryOperator::Assign => {
                    assert(emit(node, table, locals, st) == emit_assign(node, table, locals, st));
                    lemma_counters_grow(*rhs, table, locals, st);
                },
                BinaryOperator::ChangeMin | BinaryOperator::ChangeMax => {
                    assert(emit(node, table, locals, st) == emit_change(node, table, locals, st));
                    lemma_counters_grow(*rhs, table, locals, st.next_label());
                },
                _ => {
                    assert(emit(node, table, locals, st) == emit_binary(node, table, locals, st));
                    lemma_counters_grow(*rhs, table, locals, st);
                    if let Ok(r) = emit(*rhs, table, locals, st) {
                        lemma_counters_grow(*lhs, table, locals, r.state);
                    }
                },
            }
        },
        _ => {},
    }
}

proof fn lemma_each_counters(
    statements: Seq<Ast>,
    from: nat,
    table: Seq<SignatureView>,
    locals: nat,
    done: Emitted,
)
    ensures
        emit_each(statements, from, table, locals, done) != Err::<Emitted, EmitError>(
            EmitError::StackNotEmpty,
        ),
        emit_each(statements, from, table, locals, done) matches Ok(out) ==> advanced(
            done.state,
            out.state,
            weights(statements, from),
        ),
    decreases statements, statements.len() - from,
{
    if from < statements.len() {
        lemma_counters_grow(statements[from as int], table, locals, done.state);
        if let Ok(r) = emit(statements[from as int], table, locals, done.state) {
            lemma_each_counters(
                statements,
                from + 1,
                table,
                locals,
                Emitted { code: done.code + r.code, state: r.state },
            );
        }
    }
}

proof fn lemma_arguments_counters(
    arguments: Seq<Ast>,
    from: nat,
    table: Seq<SignatureView>,
    locals: nat,
    done: Emitted,
    values: Seq<nat>,
)
    ensures
        emit_arguments(arguments, from, table, locals, done, values) != Err::<
            (Emitted, Seq<nat>),
            EmitError,
        >(EmitError::StackNotEmpty),
        emit_arguments(arguments, from, table, locals, done, values) matches Ok(out) ==> advanced(
            done.state,
            out.0.state,
            weights(arguments, from),
        ),
    decreases arguments, arguments.len() - from,
{
    if from < arguments.len() {
        lemma_counters_grow(arguments[from as int], table, locals, done.state);
        if let Ok(r) = emit(arguments[from as int], table, locals, done.state) {
            if r.state.stack.len() > 0 {
                lemma_arguments_counters(
                    arguments,
                    from + 1,
                    table,
                    locals,
                    Emitted { code: done.code + r.code, state: r.state.pop() },
                    values.push(r.state.top()),
                );
            }
        }
    }
}

/// Order of operands: where an operator on two expressions is written, the
/// right operand is written first and the left one behind it, and the
/// instruction takes the value of the left operand first and that of the
/// right operand second.
pub proof fn lemma_left_operand_first(
    typ: BinaryOperator,
    lhs: Ast,
    rhs: Ast,
    table: Seq<SignatureView>,
    locals: nat,
    st: EmitState,
)
    requires
        is_arithmetic(typ) || is_comparison(typ),
        yields(lhs),
        yields(rhs),
        emit(Ast::Operator { typ, lhs: Box::new(lhs), rhs: Box::new(rhs) }, table, locals, st) is Ok,
    ensures
        ({
            let out = emit(
                Ast::Operator { typ, lhs: Box::new(lhs), rhs: Box::new(rhs) },
                table,
                locals,
                st,
            )->Ok_0;
            let right = emit(rhs, table, locals, st);
            let left = emit(lhs, table, locals, right->Ok_0.state);
            let line = binary_line(
                left->Ok_0.state.index,
                mnemonic(typ),
                left->Ok_0.state.stack.last(),
                right->Ok_0.state.stack.last(),
            );
            &&& right is Ok
            &&& left is Ok
            &&& pushed_one(st, right->Ok_0.state)
            &&& pushed_one(right->Ok_0.state, left->Ok_0.state)
            &&& out.code == right->Ok_0.code + left->Ok_0.code + line + (if is_comparison(typ) {
                widen_line(left->Ok_0.state.index + 1, left->Ok_0.state.index)
            } else {
                Seq::empty()
            })
        }),
{
    let node = Ast::Operator { typ, lhs: Box::new(lhs), rhs: Box::new(rhs) };
    assert(emit(node, table, locals, st) == emit_binary(node, table, locals, st));
    lemma_expression_pushes_one(rhs, table, locals, st);
    let right = emit(rhs, table, locals, st)->Ok_0;
    lemma_expression_pushes_one(lhs, table, locals, right.state);
    let left = emit(lhs, table, locals, right.state)->Ok_0;
    assert(left.state.pop().stack == right.state.stack);
    if !is_comparison(typ) {
        let line = binary_line(
            left.state.index,
            mnemonic(typ),
            left.state.stack.last(),
            right.state.stack.last(),
        );
        assert(right.code + left.code + line + Seq::<char>::empty() =~= right.code + left.code
            + line);
    }
}

/// Target of an assignment: the value of the right side is stored into the
/// slot of the variable on the left, which is then read back.
pub proof fn lemma_assignment_stores_left(
    offset: nat,
    rhs: Ast,
    table: Seq<SignatureView>,
    locals: nat,
    st: EmitState,
)
    requires
        yields(rhs),
        emit(
            Ast::Operator {
                typ: BinaryOperator::Assign,
                lhs: Box::new(Ast::Variable { offset }),
                rhs: Box::new(rhs),
            },
            table,
            locals,
            st,
        ) is Ok,
    ensures
        ({
            let out = emit(
                Ast::Operator {
                    typ: BinaryOperator::Assign,
                    lhs: Box::new(Ast::Variable { offset }),
                    rhs: Box::new(rhs),
                },
                table,
                locals,
                st,
            )->Ok_0;
            let right = emit(rhs, table, locals, st);
            &&& right is Ok
            &&& pushed_one(st, right->Ok_0.state)
            &&& out.code == right->Ok_0.code + store_line(right->Ok_0.state.stack.last(), offset)
                + load_line(right->Ok_0.state.index, offset)
        }),
{
    let node = Ast::Operator {
        typ: BinaryOperator::Assign,
        lhs: Box::new(Ast::Variable { offset }),
        rhs: Box::new(rhs),
    };
    assert(emit(node, table, locals, st) == emit_assign(node, table, locals, st));
    lemma_expression_pushes_one(rhs, table, locals, st);
}

/// Operands of a change: the variable on the left is read and compared,
/// as the first operand, with the value of the right side; that value is
/// stored into the variable's slot where the comparison holds, and the
/// variable is read back.
pub proof fn lemma_change_compares_left(
    typ: BinaryOperator,
    offset: nat,
    rhs: Ast,
    table: Seq<SignatureView>,
    locals: nat,
    st: EmitState,
)
    requires
        typ == BinaryOperator::ChangeMin || typ == BinaryOperator::ChangeMax,
        yields(rhs),
        emit(
            Ast::Operator { typ, lhs: Box::new(Ast::Variable { offset }), rhs: Box::new(rhs) },
            table,
            locals,
            st,
        ) is Ok,
    ensures
        ({
            let out = emit(
                Ast::Operator { typ, lhs: Box::new(Ast::Variable { offset }), rhs: Box::new(rhs) },
                table,
                locals,
                st,
            )->Ok_0;
            let right = emit(rhs, table, locals, st.next_label());
            let value = right->Ok_0.state.stack.last();
            let current = right->Ok_0.state.index;
            &&& right is Ok
            &&& pushed_one(st.next_label(), right->Ok_0.state)
            &&& out.code == right->Ok_0.code + load_line(current, offset) + binary_line(
                current + 1,
                mnemonic(typ),
                current,
                value,
            ) + branch_line(current + 1, "then"@, "end"@, st.label) + label_line("then"@, st.label)
                + store_line(value, offset) + jump_line("end"@, st.label) + label_line(
                "end"@,
                st.label,
            ) + load_line(current + 2, offset)
        }),
{
    let node = Ast::Operator { typ, lhs: Box::new(Ast::Variable { offset }), rhs: Box::new(rhs) };
    assert(emit(node, table, locals, st) == emit_change(node, table, locals, st));
    lemma_expression_pushes_one(rhs, table, locals, st.next_label());
}

/// Operands of an exchange: the variable on the left is read first and
/// written last, and is read back as the value.
pub proof fn lemma_exchange_reads_left_first(
    left: nat,
    right: nat,
    table: Seq<SignatureView>,
    locals: nat,
    st: EmitState,
)
    requires
        left < locals,
        right < locals,
    ensures
        emit(
            Ast::Operator {
                typ: BinaryOperator::Exchange,
                lhs: Box::new(Ast::Variable { offset: left }),
                rhs: Box::new(Ast::Variable { offset: right }),
            },
            table,
            locals,
            st,
        ) == Ok::<Emitted, EmitError>(
            Emitted {
                code: load_line(st.index, left) + load_line(st.index + 1, right) + store_line(
                    st.index,
                    right,
                ) + store_line(st.index + 1, left) + load_line(st.index + 2, left),
                state: st.skip(2).push_next(),
            },
        ),
{
    let node = Ast::Operator {
        typ: BinaryOperator::Exchange,
        lhs: Box::new(Ast::Variable { offset: left }),
        rhs: Box::new(Ast::Variable { offset: right }),
    };
    assert(emit(node, table, locals, st) == emit_exchange(node, locals, st));
}

/// The text is a function of the tree: two nodes that stand for the same
/// tree are written as the same module, or fail with the same error.
pub proof fn lemma_same_tree_same_text(first: Node, second: Node)
    requires
        first@ == second@,
    ensures
        module_text(first@) == module_text(second@),
{
}

/// Whether no power and no root operator stands in `node`.
pub open spec fn power_free(node: Ast) -> bool
    decreases node,
{
    match node {
        Ast::Program { functions } => forall|i: int|
            0 <= i < functions.len() ==> power_free(#[trigger] functions[i]),
        Ast::Function { statement, .. } => power_free(*statement),
        Ast::Statement { node: inner } => power_free(*inner),
        Ast::Block { statements } => forall|i: int|
            0 <= i < statements.len() ==> power_free(#[trigger] statements[i]),
        Ast::Return { node: inner } => power_free(*inner),
        Ast::If { condition, true_case, false_case } => power_free(*condition) && power_free(
            *true_case,
        ) && clause_power_free(false_case),
        Ast::For { init, condition, update, statement } => clause_power_free(init)
            && clause_power_free(condition) && clause_power_free(update) && power_free(*statement),
        Ast::While { condition, node: body } => power_free(*condition) && power_free(*body),
        Ast::Operator { typ, lhs, rhs } => typ != BinaryOperator::Power && typ
            != BinaryOperator::Root && power_free(*lhs) && power_free(*rhs),
        Ast::Variable { .. } => true,
        Ast::FuncCall { arguments, .. } => forall|i: int|
            0 <= i < arguments.len() ==> power_free(#[trigger] arguments[i]),
        Ast::Number { .. } => true,
    }
}

/// Whether no power and no root operator stands in an optional node.
pub open spec fn clause_power_free(clause: Option<Box<Ast>>) -> bool
    decreases clause,
{
    match clause {
        None => true,
        Some(inner) => power_free(*inner),
    }
}

/// An expression of the grammar without power and root has the shape that
/// pushes one value.
pub proof fn lemma_expression_yields(node: Ast)
    requires
        is_expression(node),
        power_free(node),
    ensures
        yields(node),
    decreases node,
{
    match node {
        Ast::FuncCall { arguments, .. } => {
            assert forall|i: int| 0 <= i < arguments.len() implies yields(
                #[trigger] arguments[i],
            ) by {
                lemma_expression_yields(arguments[i]);
            }
        },
        Ast::Operator { lhs, rhs, .. } => {
            lemma_expression_yields(*lhs);
            lemma_expression_yields(*rhs);
        },
        _ => {},
    }
}

/// A statement of the grammar without power and root has the shape that
/// leaves the stack as it found it.
pub proof fn lemma_statement_keeps(node: Ast)
    requires
        is_statement(node),
        power_free(node),
    ensures
        keeps(node),
    decreases node,
{
    match node {
        Ast::Statement { node: inner } => lemma_expression_yields(*inner),
        Ast::Return { node: inner } => lemma_expression_yields(*inner),
        Ast::Block { statements } => {
            assert forall|i: int| 0 <= i < statements.len() implies keeps(
                #[trigger] statements[i],
            ) by {
                lemma_statement_keeps(statements[i]);
            }
        },
        Ast::If { condition, true_case, false_case } => {
            assert(clause_power_free(false_case));
            lemma_expression_yields(*condition);
            lemma_statement_keeps(*true_case);
            if let Some(other) = false_case {
                lemma_statement_keeps(*other);
            }
        },
        Ast::For { init, condition, update, statement } => {
            assert(is_clause(init) && is_clause(condition) && is_clause(update));
            assert(clause_power_free(init) && clause_power_free(condition) && clause_power_free(
                update,
            ));
            if let Some(inner) = init {
                lemma_expression_yields(*inner);
            }
            if let Some(inner) = condition {
                lemma_expression_yields(*inner);
            }
            if let Some(inner) = update {
                lemma_expression_yields(*inner);
            }
            lemma_statement_keeps(*statement);
        },
        Ast::While { condition, node: body } => {
            lemma_expression_yields(*condition);
            lemma_statement_keeps(*body);
        },
        _ => {},
    }
}

/// Whether `e` is one of the two errors that a program of the grammar can
/// run into: a target that is no variable, and a call that names no
/// declared function.
pub open spec fn is_source_error(e: EmitError) -> bool {
    e == EmitError::NotAVariable || e == EmitError::FunctionNotFound
}

/// An expression of the grammar without power and root, whose variables
/// have slots, is written or fails with an error of the source.
pub proof fn lemma_expression_errors(
    node: Ast,
    table: Seq<SignatureView>,
    locals: nat,
    st: EmitState,
)
    requires
        is_expression(node),
        power_free(node),
        offsets_below(node, locals),
    ensures
        emit(node, table, locals, st) matches Err(e) ==> is_source_error(e),
        emit(node, table, locals, st) matches Ok(out) ==> pushed_one(st, out.state),
    decreases node, 1nat,
{
    lemma_expression_yields(node);
    lemma_expression_pushes_one(node, table, locals, st);
    match node {
        Ast::FuncCall { arguments, .. } => {
            assert(emit(node, table, locals, st) == emit_call(node, table, locals, st));
            lemma_arguments_errors(
                arguments,
                0,
                table,
                locals,
                Emitted { code: Seq::empty(), state: st },
                Seq::empty(),
            );
        },
        Ast::Operator { typ, lhs, rhs } => {
            assert(offsets_below(*lhs, locals) && offsets_below(*rhs, locals));
            match typ {
                BinaryOperator::Assign => {
                    assert(emit(node, table, locals, st) == emit_assign(node, table, locals, st));
                    lemma_expression_errors(*rhs, table, locals, st);
                },
                BinaryOperator::ChangeMin | BinaryOperator::ChangeMax => {
                    assert(emit(node, table, locals, st) == emit_change(node, table, locals, st));
                    lemma_expression_errors(*rhs, table, locals, st.next_label());
                },
                BinaryOperator::Exchange => {
                    assert(emit(node, table, locals, st) == emit_exchange(node, locals, st));
                },
                _ => {
                    assert(emit(node, table, locals, st) == emit_binary(node, table, locals, st));
                    lemma_expression_errors(*rhs, table, locals, st);
                    if let Ok(r) = emit(*rhs, table, locals, st) {
                        lemma_expression_errors(*lhs, table, locals, r.state);
                    }
                },
            }
        },
        _ => {},
    }
}

proof fn lemma_arguments_errors(
    arguments: Seq<Ast>,
    from: nat,
    table: Seq<SignatureView>,
    locals: nat,
    done: Emitted,
    values: Seq<nat>,
)
    requires
        forall|i: int| 0 <= i < arguments.len() ==> is_expression(#[trigger] arguments[i]),
        forall|i: int| 0 <= i < arguments.len() ==> power_free(#[trigger] arguments[i]),
        forall|i: int| 0 <= i < arguments.len() ==> offsets_below(#[trigger] arguments[i], locals),
    ensures
        emit_arguments(arguments, from, table, locals, done, values) matches Err(e)
            ==> is_source_error(e),
    decreases arguments, arguments.len() - from,
{
    if from < arguments.len() {
        lemma_expression_errors(arguments[from as int], table, locals, done.state);
        if let Ok(r) = emit(arguments[from as int], table, locals, done.state) {
            lemma_arguments_errors(
                arguments,
                from + 1,
                table,
                locals,
                Emitted { code: done.code + r.code, state: r.state.pop() },
                values.push(r.state.top()),
            );
        }
    }
}

proof fn lemma_clause_errors(
    clause: Option<Box<Ast>>,
    table: Seq<SignatureView>,
    locals: nat,
    st: EmitState,
)
    requires
        is_clause(clause),
        clause_power_free(clause),
        clause_offsets_below(clause, locals),
    ensures
        emit_clause(clause, table, locals, st) matches Err(e) ==> is_source_error(e),
    decreases clause, 0nat,
{
    if let Some(inner) = clause {
        lemma_expression_errors(*inner, table, locals, st);
    }
}

/// A statement of the grammar without power and root, whose variables have
/// slots, is written or fails with an error of the source.
pub proof fn lemma_statement_errors(
    node: Ast,
    table: Seq<SignatureView>,
    locals: nat,
    st: EmitState,
)
    requires
        is_statement(node),
        power_free(node),
        offsets_below(node, locals),
    ensures
        emit(node, table, locals, st) matches Err(e) ==> is_source_error(e),
        emit(node, table, locals, st) matches Ok(out) ==> kept(st, out.state),
    decreases node, 1nat,
{
    lemma_statement_keeps(node);
    lemma_statement_keeps_stack(node, table, locals, st);
    match node {
        Ast::Statement { node: inner } => {
            lemma_expression_errors(*inner, table, locals, st);
        },
        Ast::Return { node: inner } => {
            lemma_expression_errors(*inner, table, locals, st);
        },
        Ast::Block { statements } => {
            lemma_each_errors(
                statements,
                0,
                table,
                locals,
                Emitted { code: Seq::empty(), state: st },
            );
        },
        Ast::If { .. } => {
            lemma_conditional_errors(node, table, locals, st);
        },
        Ast::For { .. } => {
            lemma_for_errors(node, table, locals, st);
        },
        Ast::While { .. } => {
            lemma_while_errors(node, table, locals, st);
        },
        _ => {},
    }
}

proof fn lemma_conditional_errors(
    node: Ast,
    table: Seq<SignatureView>,
    locals: nat,
    st: EmitState,
)
    requires
        node is If,
        is_statement(node),
        power_free(node),
        offsets_below(node, locals),
    ensures
        emit(node, table, locals, st) matches Err(e) ==> is_source_error(e),
    decreases node, 0nat,
{
    match node {
        Ast::If { condition, true_case, false_case } => {
            assert(emit(node, table, locals, st) == emit_if(node, table, locals, st));
            assert(clause_power_free(false_case));
            assert(clause_offsets_below(false_case, locals));
            lemma_expression_errors(*condition, table, locals, st.next_label());
            if let Ok(c) = emit(*condition, table, locals, st.next_label()) {
                lemma_statement_errors(*true_case, table, locals, c.state.pop().skip(1));
                if let Ok(t) = emit(*true_case, table, locals, c.state.pop().skip(1)) {
                    if let Some(other) = false_case {
                        lemma_statement_errors(*other, table, locals, t.state);
                    }
                }
            }
        },
        _ => {},
    }
}

proof fn lemma_for_errors(node: Ast, table: Seq<SignatureView>, locals: nat, st: EmitState)
    requires
        node is For,
        is_statement(node),
        power_free(node),
        offsets_below(node, locals),
    ensures
        emit(node, table, locals, st) matches Err(e) ==> is_source_error(e),
    decreases node, 0nat,
{
    match node {
        Ast::For { init, condition, update, statement } => {
            assert(emit(node, table, locals, st) == emit_for(node, table, locals, st));
            assert(is_clause(init) && is_clause(condition) && is_clause(update));
            assert(clause_power_free(init) && clause_power_free(condition) && clause_power_free(
                update,
            ));
            assert(clause_offsets_below(init, locals) && clause_offsets_below(condition, locals)
                && clause_offsets_below(update, locals));
            lemma_clause_errors(init, table, locals, st.next_label());
            if let Ok(i) = emit_clause(init, table, locals, st.next_label()) {
                if let Some(inner) = condition {
                    lemma_expression_errors(*inner, table, locals, i.state);
                }
                if let Ok(c) = emit_for_condition(condition, st.label, table, locals, i.state) {
                    lemma_statement_errors(*statement, table, locals, c.state);
                    if let Ok(b) = emit(*statement, table, locals, c.state) {
                        lemma_clause_errors(update, table, locals, b.state);
                    }
                }
            }
        },
        _ => {},
    }
}

proof fn lemma_while_errors(node: Ast, table: Seq<SignatureView>, locals: nat, st: EmitState)
    requires
        node is While,
        is_statement(node),
        power_free(node),
        offsets_below(node, locals),
    ensures
        emit(node, table, locals, st) matches Err(e) ==> is_source_error(e),
    decreases node, 0nat,
{
    match node {
        Ast::While { condition, node: body } => {
            assert(emit(node, table, locals, st) == emit_while(node, table, locals, st));
            lemma_expression_errors(*condition, table, locals, st.next_label());
            if let Ok(c) = emit(*condition, table, locals, st.next_label()) {
                lemma_statement_errors(*body, table, locals, c.state.pop().skip(1));
            }
        },
        _ => {},
    }
}

proof fn lemma_each_errors(
    statements: Seq<Ast>,
    from: nat,
    table: Seq<SignatureView>,
    locals: nat,
    done: Emitted,
)
    requires
        forall|i: int| 0 <= i < statements.len() ==> is_statement(#[trigger] statements[i]),
        forall|i: int| 0 <= i < statements.len() ==> power_free(#[trigger] statements[i]),
        forall|i: int| 0 <= i < statements.len() ==> offsets_below(#[trigger] statements[i], locals),
    ensures
        emit_each(statements, from, table, locals, done) matches Err(e) ==> is_source_error(e),
    decreases statements, statements.len() - from,
{
    if from < statements.len() {
        lemma_statement_errors(statements[from as int], table, locals, done.state);
        if let Ok(r) = emit(statements[from as int], table, locals, done.state) {
            lemma_each_errors(
                statements,
                from + 1,
                table,
                locals,
                Emitted { code: done.code + r.code, state: r.state },
            );
        }
    }
}

/// The functions of a program of the grammar are all declared.
proof fn lemma_definitions_declared(functions: Seq<Ast>, from: nat, table: Seq<SignatureView>)
    requires
        forall|i: int| 0 <= i < functions.len() ==> is_definition(#[trigger] functions[i]),
    ensures
        declared(functions, from, table) is Ok,
    decreases functions.len() - from,
{
    if from < functions.len() {
        assert(is_definition(functions[from as int]));
        match functions[from as int] {
            Ast::Function { name, args_num, variables, ret_type, .. } => {
                lemma_definitions_declared(
                    functions,
                    from + 1,
                    table.push(
                        SignatureView { name, args: variables.take(args_num as int), ret_type },
                    ),
                );
            },
            _ => {},
        }
    }
}

proof fn lemma_definitions_errors(
    functions: Seq<Ast>,
    from: nat,
    table: Seq<SignatureView>,
    code: Seq<char>,
)
    requires
        forall|i: int| 0 <= i < functions.len() ==> is_definition(#[trigger] functions[i]),
        forall|i: int| 0 <= i < functions.len() ==> power_free(#[trigger] functions[i]),
    ensures
        emit_functions(functions, from, table, code) matches Err(e) ==> is_source_error(e),
    decreases functions.len() - from,
{
    if from < functions.len() {
        let node = functions[from as int];
        assert(is_definition(node));
        assert(power_free(node));
        match node {
            Ast::Function { variables, statement, .. } => {
                let st = EmitState::fresh();
                assert(emit(node, table, 0, st) == emit_function(node, table, st));
                lemma_statement_errors(
                    *statement,
                    table,
                    variables.len(),
                    st.skip(variables.len()),
                );
                if let Ok(r) = emit(node, table, 0, st) {
                    lemma_definitions_errors(functions, from + 1, table, code + r.code);
                }
            },
            _ => {},
        }
    }
}

/// What is read by the grammar is written: a program of the grammar
/// without power and root gives its module text, or fails because an
/// assignment, change or exchange has no variable as its target or because
/// a call names no declared function; for no other reason.
pub proof fn lemma_program_errors(program: Ast)
    requires
        is_program(program),
        power_free(program),
    ensures
        module_text(program) matches Err(e) ==> is_source_error(e),
{
    let functions = program->Program_functions;
    lemma_definitions_declared(functions, 0, seq![debug_signature()]);
    let table = declared(functions, 0, seq![debug_signature()])->Ok_0;
    lemma_definitions_errors(functions, 0, table, prelude());
}

} // verus!
