//! What the emitter writes, as a function from a tree and an emission state
//! to the text and the state that follows.
//!
//! The walk threads a stack of value numbers: a node that yields a value
//! pushes the number of that value, a node that uses values pops them.
//! Value numbers and block labels are handed out by two counters that only
//! grow.

use vstd::prelude::*;
use crate::llvm_generator::lines::{
    argument_text, binary_line, branch_line, const_line, jump_line, label_line, load_line,
    open_label, parameter_text, stand_in_lines, return_line, slot_line, store_argument_line,
    store_line, store_zero_line, test_line, widen_line,
};
use crate::parser::node::Ast;
use crate::parser::node::binary_operator::BinaryOperator;
use crate::parser::node::variable_type::{VariableType, type_text};

verus! {

/// Why no module text is produced.
pub enum EmitError {
    /// The root is not a `Program`.
    NotAProgram,
    /// A member of the program is not a `Function`.
    NotAFunction,
    /// The target of an assignment, of a change or of an exchange is not a
    /// variable.
    NotAVariable,
    /// No declared function has the called name with the given number of
    /// arguments.
    FunctionNotFound,
    /// Values are left on the stack at the end of a function.
    StackNotEmpty,
    /// The tree cannot be written: a program stands below the root, a
    /// value is used where none was produced (a power and a root produce
    /// none), or a variable or a parameter count lies beyond the function's
    /// slots.
    Malformed,
}

impl EmitError {
    /// The message that reports this error.
    pub open spec fn message(self) -> Seq<char> {
        match self {
            EmitError::NotAProgram => "Not a program"@,
            EmitError::NotAFunction => "Not a function"@,
            EmitError::NotAVariable => "Not a variable"@,
            EmitError::FunctionNotFound => "Function not found"@,
            EmitError::StackNotEmpty => "Stack not empty"@,
            EmitError::Malformed => "Error"@,
        }
    }
}

/// A declared function: what a call site needs to know of it.
pub struct SignatureView {
    pub name: Seq<char>,
    pub args: Seq<VariableType>,
    pub ret_type: VariableType,
}

/// The state that the walk threads through a function.
pub struct EmitState {
    /// The value numbers produced and not yet used, the latest last.
    pub stack: Seq<nat>,
    /// The next value number.
    pub index: nat,
    /// The next block label.
    pub label: nat,
}

impl EmitState {
    /// The state at the start of a function.
    pub open spec fn fresh() -> EmitState {
        EmitState { stack: Seq::empty(), index: 0, label: 0 }
    }

    /// The next value number is taken and pushed.
    pub open spec fn push_next(self) -> EmitState {
        EmitState { stack: self.stack.push(self.index), index: self.index + 1, label: self.label }
    }

    /// The latest value is taken off the stack.
    pub open spec fn pop(self) -> EmitState {
        EmitState { stack: self.stack.drop_last(), index: self.index, label: self.label }
    }

    /// The latest value on the stack.
    pub open spec fn top(self) -> nat {
        self.stack.last()
    }

    /// `n` value numbers are taken.
    pub open spec fn skip(self, n: nat) -> EmitState {
        EmitState { stack: self.stack, index: self.index + n, label: self.label }
    }

    /// One block label is taken.
    pub open spec fn next_label(self) -> EmitState {
        EmitState { stack: self.stack, index: self.index, label: self.label + 1 }
    }
}

/// The text written for a node and the state after it.
pub struct Emitted {
    pub code: Seq<char>,
    pub state: EmitState,
}

/// The instruction name of an operator that maps two values to one.
pub open spec fn mnemonic(op: BinaryOperator) -> Seq<char> {
    match op {
        BinaryOperator::Add => "add"@,
        BinaryOperator::Sub => "sub"@,
        BinaryOperator::Mul => "mul"@,
        BinaryOperator::Div => "sdiv"@,
        BinaryOperator::Rem => "srem"@,
        BinaryOperator::BitAnd => "and"@,
        BinaryOperator::BitXor => "xor"@,
        BinaryOperator::BitOr => "or"@,
        BinaryOperator::LShift => "shl"@,
        BinaryOperator::RShift => "ashr"@,
        BinaryOperator::Equal => "icmp eq"@,
        BinaryOperator::Less => "icmp slt"@,
        BinaryOperator::ChangeMin => "icmp sgt"@,
        BinaryOperator::ChangeMax => "icmp slt"@,
        _ => ""@,
    }
}

/// Whether `op` is lowered to one instruction on two values.
pub open spec fn is_arithmetic(op: BinaryOperator) -> bool {
    match op {
        BinaryOperator::Add
        | BinaryOperator::Sub
        | BinaryOperator::Mul
        | BinaryOperator::Div
        | BinaryOperator::Rem
        | BinaryOperator::BitAnd
        | BinaryOperator::BitXor
        | BinaryOperator::BitOr
        | BinaryOperator::LShift
        | BinaryOperator::RShift => true,
        _ => false,
    }
}

/// Whether `op` is lowered to a comparison whose truth value is widened.
pub open spec fn is_comparison(op: BinaryOperator) -> bool {
    op == BinaryOperator::Equal || op == BinaryOperator::Less
}

/// The first declared function, from position `from` on, that has the name
/// `name` and takes `count` arguments.
pub open spec fn resolve(table: Seq<SignatureView>, name: Seq<char>, count: nat, from: nat) -> Option<
    SignatureView,
>
    decreases table.len() - from,
{
    if from >= table.len() {
        None
    } else if table[from as int].name == name && table[from as int].args.len() == count {
        Some(table[from as int])
    } else {
        resolve(table, name, count, from + 1)
    }
}

/// The parameter list of a definition: the first `count` slots.
pub open spec fn parameters_text(variables: Seq<VariableType>, count: nat) -> Seq<char>
    decreases count,
{
    if count == 0 {
        Seq::empty()
    } else {
        parameters_text(variables, (count - 1) as nat) + parameter_text(
            (count - 1) as nat,
            type_text(variables[count - 1]),
        )
    }
}

/// The slots of the first `count` parameters, each filled with its
/// argument.
pub open spec fn argument_slots_text(variables: Seq<VariableType>, count: nat) -> Seq<char>
    decreases count,
{
    if count == 0 {
        Seq::empty()
    } else {
        argument_slots_text(variables, (count - 1) as nat) + slot_line(
            (count - 1) as nat,
            type_text(variables[count - 1]),
        ) + store_argument_line((count - 1) as nat, type_text(variables[count - 1]))
    }
}

/// The slots of the locals from `from` up to `upto`, each filled with zero.
pub open spec fn local_slots_text(variables: Seq<VariableType>, from: nat, upto: nat) -> Seq<char>
    decreases upto,
{
    if upto <= from {
        Seq::empty()
    } else {
        local_slots_text(variables, from, (upto - 1) as nat) + slot_line(
            (upto - 1) as nat,
            type_text(variables[upto - 1]),
        ) + store_zero_line((upto - 1) as nat, type_text(variables[upto - 1]))
    }
}

/// The argument list of a call: the first `count` of `values`.
pub open spec fn arguments_text(values: Seq<nat>, count: nat) -> Seq<char>
    decreases count,
{
    if count == 0 {
        Seq::empty()
    } else {
        arguments_text(values, (count - 1) as nat) + argument_text(count == 1, values[count - 1])
    }
}

/// The last line of a definition: the return that ends a body which did not
/// return itself.
pub open spec fn closing_return(ret_type: VariableType) -> Seq<char> {
    "  ret "@ + type_text(ret_type) + (if ret_type == VariableType::Void {
        ""@
    } else {
        " 0"@
    }) + "\n"@
}

/// What is written for `node` in state `st`, inside a function with
/// `locals` slots, with the functions of `table` declared.
pub open spec fn emit(node: Ast, table: Seq<SignatureView>, locals: nat, st: EmitState) -> Result<
    Emitted,
    EmitError,
>
    decreases node, 1nat,
{
    match node {
        Ast::Program { .. } => Err(EmitError::Malformed),
        Ast::Function { .. } => emit_function(node, table, st),
        Ast::Statement { node: inner } => match emit(*inner, table, locals, st) {
            Err(e) => Err(e),
            Ok(r) => if r.state.stack.len() == 0 {
                Err(EmitError::Malformed)
            } else {
                Ok(Emitted { code: r.code, state: r.state.pop() })
            },
        },
        Ast::Block { statements } => emit_each(
            statements,
            0,
            table,
            locals,
            Emitted { code: Seq::empty(), state: st },
        ),
        Ast::Return { node: inner } => match emit(*inner, table, locals, st) {
            Err(e) => Err(e),
            Ok(r) => if r.state.stack.len() == 0 {
                Err(EmitError::Malformed)
            } else {
                Ok(
                    Emitted {
                        code: r.code + return_line(r.state.top()),
                        state: r.state.pop().skip(1),
                    },
                )
            },
        },
        Ast::If { .. } => emit_if(node, table, locals, st),
        Ast::For { .. } => emit_for(node, table, locals, st),
        Ast::While { .. } => emit_while(node, table, locals, st),
        Ast::Operator { typ, .. } => match typ {
            BinaryOperator::Power | BinaryOperator::Root => Ok(
                Emitted { code: Seq::empty(), state: st },
            ),
            BinaryOperator::Assign => emit_assign(node, table, locals, st),
            BinaryOperator::ChangeMin | BinaryOperator::ChangeMax => emit_change(
                node,
                table,
                locals,
                st,
            ),
            BinaryOperator::Exchange => emit_exchange(node, locals, st),
            _ => emit_binary(node, table, locals, st),
        },
        Ast::Variable { offset } => if offset >= locals {
            Err(EmitError::Malformed)
        } else {
            Ok(Emitted { code: load_line(st.index, offset), state: st.push_next() })
        },
        Ast::FuncCall { .. } => emit_call(node, table, locals, st),
        Ast::Number { num } => Ok(
            Emitted { code: const_line(st.index, num as int), state: st.push_next() },
        ),
    }
}

/// The statements of `statements` from position `from` on, written one
/// after the other behind `done`.
pub open spec fn emit_each(
    statements: Seq<Ast>,
    from: nat,
    table: Seq<SignatureView>,
    locals: nat,
    done: Emitted,
) -> Result<Emitted, EmitError>
    decreases statements, statements.len() - from,
{
    if from >= statements.len() {
        Ok(done)
    } else {
        match emit(statements[from as int], table, locals, done.state) {
            Err(e) => Err(e),
            Ok(r) => emit_each(
                statements,
                from + 1,
                table,
                locals,
                Emitted { code: done.code + r.code, state: r.state },
            ),
        }
    }
}

/// An optional clause of a loop header: written, and its value dropped.
pub open spec fn emit_clause(
    clause: Option<Box<Ast>>,
    table: Seq<SignatureView>,
    locals: nat,
    st: EmitState,
) -> Result<Emitted, EmitError>
    decreases clause, 0nat,
{
    match clause {
        None => Ok(Emitted { code: Seq::empty(), state: st }),
        Some(inner) => match emit(*inner, table, locals, st) {
            Err(e) => Err(e),
            Ok(r) => if r.state.stack.len() == 0 {
                Err(EmitError::Malformed)
            } else {
                Ok(Emitted { code: r.code, state: r.state.pop() })
            },
        },
    }
}

/// A definition: header, one slot for each parameter and local, the body,
/// and the closing return. The body starts behind the slots.
pub open spec fn emit_function(node: Ast, table: Seq<SignatureView>, st: EmitState) -> Result<
    Emitted,
    EmitError,
>
    decreases node, 0nat,
{
    match node {
        Ast::Function { name, args_num, variables, ret_type, statement } => {
            if args_num > variables.len() {
                Err(EmitError::Malformed)
            } else {
                match emit(*statement, table, variables.len(), st.skip(variables.len())) {
                    Err(e) => Err(e),
                    Ok(body) => Ok(
                        Emitted {
                            code: "define "@ + type_text(ret_type) + " @"@ + name + "("@
                                + parameters_text(variables, args_num) + ") {\n"@ + "entry:\n"@
                                + argument_slots_text(variables, args_num) + local_slots_text(
                                variables,
                                args_num,
                                variables.len(),
                            ) + body.code + closing_return(ret_type) + "}\n"@,
                            state: body.state,
                        },
                    ),
                }
            }
        },
        _ => Err(EmitError::Malformed),
    }
}

/// A conditional: the test of the condition against zero, then the two
/// branches, each ending in a jump to the common end.
pub open spec fn emit_if(node: Ast, table: Seq<SignatureView>, locals: nat, st: EmitState) -> Result<
    Emitted,
    EmitError,
>
    decreases node, 0nat,
{
    match node {
        Ast::If { condition, true_case, false_case } => {
            let label = st.label;
            match emit(*condition, table, locals, st.next_label()) {
                Err(e) => Err(e),
                Ok(c) => if c.state.stack.len() == 0 {
                    Err(EmitError::Malformed)
                } else {
                    let test = c.state.pop().index;
                    let head = c.code + test_line(test, c.state.top()) + branch_line(
                        test,
                        "then"@,
                        "else"@,
                        label,
                    ) + label_line("then"@, label);
                    match emit(*true_case, table, locals, c.state.pop().skip(1)) {
                        Err(e) => Err(e),
                        Ok(t) => {
                            let middle = head + t.code + jump_line("end"@, label) + label_line(
                                "else"@,
                                label,
                            );
                            match false_case {
                                None => Ok(
                                    Emitted {
                                        code: middle + jump_line("end"@, label) + label_line(
                                            "end"@,
                                            label,
                                        ),
                                        state: t.state,
                                    },
                                ),
                                Some(other) => match emit(*other, table, locals, t.state) {
                                    Err(e) => Err(e),
                                    Ok(f) => Ok(
                                        Emitted {
                                            code: middle + f.code + jump_line("end"@, label)
                                                + label_line("end"@, label),
                                            state: f.state,
                                        },
                                    ),
                                },
                            }
                        },
                    }
                },
            }
        },
        _ => Err(EmitError::Malformed),
    }
}

/// The condition of a `for` loop at the head of each round: tested against
/// zero when there is one, else a plain jump into the body.
pub open spec fn emit_for_condition(
    condition: Option<Box<Ast>>,
    label: nat,
    table: Seq<SignatureView>,
    locals: nat,
    st: EmitState,
) -> Result<Emitted, EmitError>
    decreases condition, 0nat,
{
    match condition {
        None => Ok(Emitted { code: jump_line("then"@, label), state: st }),
        Some(inner) => match emit(*inner, table, locals, st) {
            Err(e) => Err(e),
            Ok(c) => if c.state.stack.len() == 0 {
                Err(EmitError::Malformed)
            } else {
                let test = c.state.pop().index;
                Ok(
                    Emitted {
                        code: c.code + test_line(test, c.state.top()) + branch_line(
                            test,
                            "then"@,
                            "end"@,
                            label,
                        ),
                        state: c.state.pop().skip(1),
                    },
                )
            },
        },
    }
}

/// A `for` loop: the initial clause once, then the round: condition, body,
/// update clause, and the jump back.
pub open spec fn emit_for(node: Ast, table: Seq<SignatureView>, locals: nat, st: EmitState) -> Result<
    Emitted,
    EmitError,
>
    decreases node, 0nat,
{
    match node {
        Ast::For { init, condition, update, statement } => {
            let label = st.label;
            match emit_clause(init, table, locals, st.next_label()) {
                Err(e) => Err(e),
                Ok(i) => match emit_for_condition(condition, label, table, locals, i.state) {
                    Err(e) => Err(e),
                    Ok(c) => match emit(*statement, table, locals, c.state) {
                        Err(e) => Err(e),
                        Ok(b) => match emit_clause(update, table, locals, b.state) {
                            Err(e) => Err(e),
                            Ok(u) => Ok(
                                Emitted {
                                    code: i.code + jump_line("begin"@, label) + label_line(
                                        "begin"@,
                                        label,
                                    ) + c.code + label_line("then"@, label) + b.code + u.code
                                        + jump_line("begin"@, label) + label_line("end"@, label),
                                    state: u.state,
                                },
                            ),
                        },
                    },
                },
            }
        },
        _ => Err(EmitError::Malformed),
    }
}

/// A `while` loop: the condition tested against zero at the head of each
/// round, the body, and the jump back. The closing label has no line break.
pub open spec fn emit_while(
    node: Ast,
    table: Seq<SignatureView>,
    locals: nat,
    st: EmitState,
) -> Result<Emitted, EmitError>
    decreases node, 0nat,
{
    match node {
        Ast::While { condition, node: body } => {
            let label = st.label;
            match emit(*condition, table, locals, st.next_label()) {
                Err(e) => Err(e),
                Ok(c) => if c.state.stack.len() == 0 {
                    Err(EmitError::Malformed)
                } else {
                    let test = c.state.pop().index;
                    match emit(*body, table, locals, c.state.pop().skip(1)) {
                        Err(e) => Err(e),
                        Ok(b) => Ok(
                            Emitted {
                                code: jump_line("begin"@, label) + label_line("begin"@, label)
                                    + c.code + test_line(test, c.state.top()) + branch_line(
                                    test,
                                    "then"@,
                                    "end"@,
                                    label,
                                ) + label_line("then"@, label) + b.code + jump_line(
                                    "begin"@,
                                    label,
                                ) + open_label("end"@, label),
                                state: b.state,
                            },
                        ),
                    }
                },
            }
        },
        _ => Err(EmitError::Malformed),
    }
}

/// An operator on two values: the right operand is written first, then the
/// left one, so that the left value lies on top of the stack and becomes
/// the first operand of the instruction. A comparison is widened to 0 or 1.
pub open spec fn emit_binary(
    node: Ast,
    table: Seq<SignatureView>,
    locals: nat,
    st: EmitState,
) -> Result<Emitted, EmitError>
    decreases node, 0nat,
{
    match node {
        Ast::Operator { typ, lhs, rhs } => match emit(*rhs, table, locals, st) {
            Err(e) => Err(e),
            Ok(r) => match emit(*lhs, table, locals, r.state) {
                Err(e) => Err(e),
                Ok(l) => if l.state.stack.len() < 2 {
                    Err(EmitError::Malformed)
                } else {
                    let first = l.state.top();
                    let second = l.state.pop().top();
                    let rest = l.state.pop().pop();
                    let line = binary_line(rest.index, mnemonic(typ), first, second);
                    if is_comparison(typ) {
                        Ok(
                            Emitted {
                                code: r.code + l.code + line + widen_line(
                                    rest.index + 1,
                                    rest.index,
                                ),
                                state: rest.skip(1).push_next(),
                            },
                        )
                    } else {
                        Ok(Emitted { code: r.code + l.code + line, state: rest.push_next() })
                    }
                },
            },
        },
        _ => Err(EmitError::Malformed),
    }
}

/// An assignment: the value is stored into the variable's slot and read
/// back as the value of the expression.
pub open spec fn emit_assign(
    node: Ast,
    table: Seq<SignatureView>,
    locals: nat,
    st: EmitState,
) -> Result<Emitted, EmitError>
    decreases node, 0nat,
{
    match node {
        Ast::Operator { typ, lhs, rhs } => match *lhs {
            Ast::Variable { offset } => if offset >= locals {
                Err(EmitError::Malformed)
            } else {
                match emit(*rhs, table, locals, st) {
                    Err(e) => Err(e),
                    Ok(r) => if r.state.stack.len() == 0 {
                        Err(EmitError::Malformed)
                    } else {
                        let rest = r.state.pop();
                        Ok(
                            Emitted {
                                code: r.code + store_line(r.state.top(), offset) + load_line(
                                    rest.index,
                                    offset,
                                ),
                                state: rest.push_next(),
                            },
                        )
                    },
                }
            },
            _ => Err(EmitError::NotAVariable),
        },
        _ => Err(EmitError::Malformed),
    }
}

/// A change to the smaller or to the larger: the variable is compared with
/// the operand (greater-than for the minimum, less-than for the maximum),
/// the operand is stored where the comparison holds, and the variable is
/// read back as the value of the expression.
pub open spec fn emit_change(
    node: Ast,
    table: Seq<SignatureView>,
    locals: nat,
    st: EmitState,
) -> Result<Emitted, EmitError>
    decreases node, 0nat,
{
    match node {
        Ast::Operator { typ, lhs, rhs } => match *lhs {
            Ast::Variable { offset } => if offset >= locals {
                Err(EmitError::Malformed)
            } else {
                let label = st.label;
                match emit(*rhs, table, locals, st.next_label()) {
                    Err(e) => Err(e),
                    Ok(r) => if r.state.stack.len() == 0 {
                        Err(EmitError::Malformed)
                    } else {
                        let operand = r.state.top();
                        let rest = r.state.pop();
                        let current = rest.index;
                        Ok(
                            Emitted {
                                code: r.code + load_line(current, offset) + binary_line(
                                    current + 1,
                                    mnemonic(typ),
                                    current,
                                    operand,
                                ) + branch_line(current + 1, "then"@, "end"@, label) + label_line(
                                    "then"@,
                                    label,
                                ) + store_line(operand, offset) + jump_line("end"@, label)
                                    + label_line("end"@, label) + load_line(current + 2, offset),
                                state: rest.skip(2).push_next(),
                            },
                        )
                    },
                }
            },
            _ => Err(EmitError::NotAVariable),
        },
        _ => Err(EmitError::Malformed),
    }
}

/// An exchange: both variables are read, each value is stored into the
/// other's slot, and the left variable is read back as the value of the
/// expression.
pub open spec fn emit_exchange(node: Ast, locals: nat, st: EmitState) -> Result<Emitted, EmitError> {
    match node {
        Ast::Operator { typ, lhs, rhs } => match (*lhs, *rhs) {
            (Ast::Variable { offset: left }, Ast::Variable { offset: right }) => if left >= locals
                || right >= locals {
                Err(EmitError::Malformed)
            } else {
                Ok(
                    Emitted {
                        code: load_line(st.index, left) + load_line(st.index + 1, right)
                            + store_line(st.index, right) + store_line(st.index + 1, left)
                            + load_line(st.index + 2, left),
                        state: st.skip(2).push_next(),
                    },
                )
            },
            _ => Err(EmitError::NotAVariable),
        },
        _ => Err(EmitError::Malformed),
    }
}

/// The arguments of a call from position `from` on: each is written and its
/// value collected.
pub open spec fn emit_arguments(
    arguments: Seq<Ast>,
    from: nat,
    table: Seq<SignatureView>,
    locals: nat,
    done: Emitted,
    values: Seq<nat>,
) -> Result<(Emitted, Seq<nat>), EmitError>
    decreases arguments, arguments.len() - from,
{
    if from >= arguments.len() {
        Ok((done, values))
    } else {
        match emit(arguments[from as int], table, locals, done.state) {
            Err(e) => Err(e),
            Ok(r) => if r.state.stack.len() == 0 {
                Err(EmitError::Malformed)
            } else {
                emit_arguments(
                    arguments,
                    from + 1,
                    table,
                    locals,
                    Emitted { code: done.code + r.code, state: r.state.pop() },
                    values.push(r.state.top()),
                )
            },
        }
    }
}

/// A call: the callee is the first declared function of that name and
/// argument count; the arguments are written in order, then the call. A
/// call without result is followed by a zeroed slot that stands for its
/// value.
pub open spec fn emit_call(node: Ast, table: Seq<SignatureView>, locals: nat, st: EmitState) -> Result<
    Emitted,
    EmitError,
>
    decreases node, 0nat,
{
    match node {
        Ast::FuncCall { function_name, arguments } => match resolve(
            table,
            function_name,
            arguments.len(),
            0,
        ) {
            None => Err(EmitError::FunctionNotFound),
            Some(callee) => match emit_arguments(
                arguments,
                0,
                table,
                locals,
                Emitted { code: Seq::empty(), state: st },
                Seq::empty(),
            ) {
                Err(e) => Err(e),
                Ok((done, values)) => {
                    let target = done.state.index;
                    if callee.ret_type == VariableType::Void {
                        Ok(
                            Emitted {
                                code: done.code + "  call void @"@ + function_name + "("@
                                    + arguments_text(values, values.len()) + ")\n"@
                                    + stand_in_lines(target),
                                state: done.state.push_next(),
                            },
                        )
                    } else {
                        Ok(
                            Emitted {
                                code: done.code + "  %"@ + crate::text::decimal(target)
                                    + " = call "@ + type_text(callee.ret_type) + " @"@
                                    + function_name + "("@ + arguments_text(values, values.len())
                                    + ")\n"@,
                                state: done.state.push_next(),
                            },
                        )
                    }
                },
            },
        },
        _ => Err(EmitError::Malformed),
    }
}

} // verus!

verus! {

/// A bound on the value numbers and on the block labels that the walk of
/// `node` takes: three for each node, and one for each slot of a function.
pub open spec fn weight(node: Ast) -> nat
    decreases node,
{
    match node {
        Ast::Program { functions } => 3 + weights(functions, 0),
        Ast::Function { variables, statement, .. } => 3 + variables.len() + weight(*statement),
        Ast::Statement { node: inner } => 3 + weight(*inner),
        Ast::Block { statements } => 3 + weights(statements, 0),
        Ast::Return { node: inner } => 3 + weight(*inner),
        Ast::If { condition, true_case, false_case } => 3 + weight(*condition) + weight(*true_case)
            + clause_weight(false_case),
        Ast::For { init, condition, update, statement } => 3 + clause_weight(init) + clause_weight(
            condition,
        ) + clause_weight(update) + weight(*statement),
        Ast::While { condition, node: body } => 3 + weight(*condition) + weight(*body),
        Ast::Operator { lhs, rhs, .. } => 3 + weight(*lhs) + weight(*rhs),
        Ast::Variable { .. } => 3,
        Ast::FuncCall { arguments, .. } => 3 + weights(arguments, 0),
        Ast::Number { .. } => 3,
    }
}

/// The weight of an optional node; nothing weighs nothing.
pub open spec fn clause_weight(clause: Option<Box<Ast>>) -> nat
    decreases clause,
{
    match clause {
        None => 0,
        Some(inner) => weight(*inner),
    }
}

/// The sum of the weights of `nodes` from position `from` on.
pub open spec fn weights(nodes: Seq<Ast>, from: nat) -> nat
    decreases nodes, nodes.len() - from,
{
    if from >= nodes.len() {
        0
    } else {
        weight(nodes[from as int]) + weights(nodes, from + 1)
    }
}

} // verus!

verus! {

/// The built-in `debug`: one integer argument, no result.
pub open spec fn debug_signature() -> SignatureView {
    SignatureView { name: "debug"@, args: seq![VariableType::Int], ret_type: VariableType::Void }
}

/// The text that opens every module: the declaration of `printf`, the
/// format string, and the definition of `debug`.
pub open spec fn prelude() -> Seq<char> {
    "declare i32 @printf(i8*, ...)\n"@ + "@str = constant [4 x i8] c\"%d\\0A\\00\"\n"@
        + "define void @debug(i64 %n) {\n"@ + "entry:\n"@
        + "  %0 = getelementptr [4 x i8], [4 x i8]* @str, i32 0, i32 0\n"@
        + "  call i32 (i8*, ...) @printf(i8* %0, i64 %n)\n"@ + "  ret void\n"@ + "}\n"@
}

/// The functions that a program declares: those of `table`, then one for
/// each member of `functions` from position `from` on, with the types of
/// its parameters and of its result.
pub open spec fn declared(functions: Seq<Ast>, from: nat, table: Seq<SignatureView>) -> Result<
    Seq<SignatureView>,
    EmitError,
>
    decreases functions.len() - from,
{
    if from >= functions.len() {
        Ok(table)
    } else {
        match functions[from as int] {
            Ast::Function { name, args_num, variables, ret_type, .. } => if args_num
                > variables.len() {
                Err(EmitError::Malformed)
            } else {
                declared(
                    functions,
                    from + 1,
                    table.push(
                        SignatureView { name, args: variables.take(args_num as int), ret_type },
                    ),
                )
            },
            _ => Err(EmitError::NotAFunction),
        }
    }
}

/// The definitions of `functions` from position `from` on, written behind
/// `code`. Each starts with fresh counters and an empty stack, and must
/// leave the stack empty.
pub open spec fn emit_functions(
    functions: Seq<Ast>,
    from: nat,
    table: Seq<SignatureView>,
    code: Seq<char>,
) -> Result<Seq<char>, EmitError>
    decreases functions.len() - from,
{
    if from >= functions.len() {
        Ok(code)
    } else {
        match emit(functions[from as int], table, 0, EmitState::fresh()) {
            Err(e) => Err(e),
            Ok(r) => if r.state.stack.len() != 0 {
                Err(EmitError::StackNotEmpty)
            } else {
                emit_functions(functions, from + 1, table, code + r.code)
            },
        }
    }
}

/// The text of the module for `program`: the prelude, then the definition
/// of each function in order, with `debug` and all functions of the program
/// declared at every call site.
pub open spec fn module_text(program: Ast) -> Result<Seq<char>, EmitError> {
    match program {
        Ast::Program { functions } => match declared(functions, 0, seq![debug_signature()]) {
            Err(e) => Err(e),
            Ok(table) => emit_functions(functions, 0, table, prelude()),
        },
        _ => Err(EmitError::NotAProgram),
    }
}

} // verus!
