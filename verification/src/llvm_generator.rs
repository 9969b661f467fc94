//! The emitter: from a syntax tree to the text of an LLVM IR module.

use vstd::prelude::*;
use vstd::string::*;
use std::collections::VecDeque;
use crate::llvm_generator::lines::{
    write_argument, write_binary, write_branch, write_const, write_jump, write_label, write_load,
    write_open_label, write_parameter, write_stand_in, write_return, write_slot, write_store,
    write_store_argument, write_store_zero, write_test, write_widen,
};
use crate::llvm_generator::model::{
    EmitError, EmitState, Emitted, SignatureView, argument_slots_text, arguments_text,
    clause_weight, closing_return, debug_signature, declared, emit, emit_arguments, emit_assign,
    emit_binary, emit_call, emit_change, emit_clause, emit_each, emit_exchange, emit_for,
    emit_for_condition, emit_function, emit_functions, emit_if, emit_while, is_arithmetic,
    is_comparison, local_slots_text, mnemonic, module_text, parameters_text, prelude, resolve,
    weight, weights,
};
use crate::parser::node::{Node, ast_of, asts_of, optional_ast};
use crate::parser::node::binary_operator::BinaryOperator;
use crate::parser::node::variable_type::VariableType;

pub mod laws;
pub mod lines;
pub mod model;

verus! {

/// A declared function, as the call sites see it.
pub struct Signature {
    pub name: String,
    pub args: Vec<VariableType>,
    pub ret_type: VariableType,
}

impl View for Signature {
    type V = SignatureView;

    open spec fn view(&self) -> SignatureView {
        SignatureView { name: self.name@, args: self.args@, ret_type: self.ret_type }
    }
}

/// The declared functions of `table`, in order.
pub open spec fn signatures(table: Seq<Signature>) -> Seq<SignatureView> {
    Seq::new(table.len(), |i: int| table[i]@)
}

/// The value numbers of `values` as naturals.
pub open spec fn naturals(values: Seq<usize>) -> Seq<nat> {
    Seq::new(values.len(), |i: int| values[i] as nat)
}

/// The counters and the value stack of one function's walk.
pub struct Emitter {
    pub stack: VecDeque<usize>,
    pub last_index: usize,
    pub last_label: usize,
}

impl View for Emitter {
    type V = EmitState;

    open spec fn view(&self) -> EmitState {
        EmitState {
            stack: naturals(self.stack@),
            index: self.last_index as nat,
            label: self.last_label as nat,
        }
    }
}

impl Emitter {
    /// The state at the start of a function.
    pub fn new() -> (r: Self)
        ensures
            r@ == EmitState::fresh(),
    {
        let r = Emitter { stack: VecDeque::new(), last_index: 0, last_label: 0 };
        assert(r@.stack =~= Seq::<nat>::empty());
        r
    }

    /// Takes the latest value off the stack, if there is one.
    pub fn pop(&mut self) -> (r: Option<usize>)
        ensures
            match r {
                Some(v) => old(self)@.stack.len() > 0 && v as nat == old(self)@.top()
                    && final(self)@ == old(self)@.pop(),
                None => old(self)@.stack.len() == 0 && final(self)@ == old(self)@,
            },
    {
        let r = self.stack.pop_back();
        proof {
            if r is Some {
                assert(self@.stack =~= old(self)@.stack.drop_last());
            } else {
                assert(self@.stack =~= old(self)@.stack);
            }
        }
        r
    }

    /// Takes the next value number and pushes it.
    pub fn push_next(&mut self)
        requires
            old(self)@.index < usize::MAX,
        ensures
            final(self)@ == old(self)@.push_next(),
    {
        self.stack.push_back(self.last_index);
        self.last_index = self.last_index + 1;
        assert(self@.stack =~= old(self)@.stack.push(old(self)@.index));
    }

    /// Takes `n` value numbers.
    pub fn skip(&mut self, n: usize)
        requires
            old(self)@.index + n <= usize::MAX,
        ensures
            final(self)@ == old(self)@.skip(n as nat),
    {
        self.last_index = self.last_index + n;
    }

    /// Takes the next block label.
    pub fn next_label(&mut self) -> (label: usize)
        requires
            old(self)@.label < usize::MAX,
        ensures
            label as nat == old(self)@.label,
            final(self)@ == old(self)@.next_label(),
    {
        let label = self.last_label;
        self.last_label = self.last_label + 1;
        label
    }
}

/// Whether the counters of `st` can grow by `w` within the machine's word.
pub open spec fn fits(st: EmitState, w: nat) -> bool {
    st.index + w <= usize::MAX && st.label + w <= usize::MAX
}

/// Whether the outcome `res`, with the state `after`, is what `expected`
/// says: the same text and state, or the message of the same error.
pub open spec fn agrees(
    res: Result<String, String>,
    after: EmitState,
    expected: Result<Emitted, EmitError>,
) -> bool {
    match expected {
        Ok(r) => res matches Ok(code) && code@ == r.code && after == r.state,
        Err(e) => res matches Err(m) && m@ == e.message(),
    }
}

/// Whether, on success, the counters grew by `w` at most.
pub open spec fn within(
    res: Result<String, String>,
    before: EmitState,
    after: EmitState,
    w: nat,
) -> bool {
    res is Ok ==> after.index <= before.index + w && after.label <= before.label + w
}

fn failure_malformed() -> (r: String)
    ensures
        r@ == EmitError::Malformed.message(),
{
    String::from_str("Error")
}

fn failure_not_a_variable() -> (r: String)
    ensures
        r@ == EmitError::NotAVariable.message(),
{
    String::from_str("Not a variable")
}

fn instruction(op: BinaryOperator) -> (r: &'static str)
    ensures
        r@ == mnemonic(op),
{
    match op {
        BinaryOperator::Add => "add",
        BinaryOperator::Sub => "sub",
        BinaryOperator::Mul => "mul",
        BinaryOperator::Div => "sdiv",
        BinaryOperator::Rem => "srem",
        BinaryOperator::BitAnd => "and",
        BinaryOperator::BitXor => "xor",
        BinaryOperator::BitOr => "or",
        BinaryOperator::LShift => "shl",
        BinaryOperator::RShift => "ashr",
        BinaryOperator::Equal => "icmp eq",
        BinaryOperator::Less => "icmp slt",
        BinaryOperator::ChangeMin => "icmp sgt",
        BinaryOperator::ChangeMax => "icmp slt",
        _ => "",
    }
}

/// Whether `res` is the text or the error that `expected` says.
pub open spec fn reports(res: Result<String, String>, expected: Result<Seq<char>, EmitError>) -> bool {
    match expected {
        Ok(code) => res matches Ok(text) && text@ == code,
        Err(e) => res matches Err(m) && m@ == e.message(),
    }
}

/// Writes the module for `program`: the prelude and one definition for
/// each function. Fails, with the message of the first error, where the
/// root is no program, a member is no function, a call names no declared
/// function with that argument count, an assignment, change or exchange
/// has no variable as its target, a function leaves values on the stack,
/// or the tree cannot be written otherwise. The weight of the tree must fit
/// a machine word, so that the value numbers and labels do; `weigh` tests
/// that.
pub fn generate(program: Node) -> (res: Result<String, String>)
    requires
        weight(program@) <= usize::MAX,
    ensures
        reports(res, module_text(program@)),
{
    match &program {
        Node::Program { functions } => {
            let ghost asts = asts_of(functions@);
            assert(program@->Program_functions =~= asts);
            let table = declare(functions)?;
            let mut code = write_prelude();
            let mut i: usize = 0;
            while i < functions.len()
                invariant
                    i <= functions.len(),
                    asts == asts_of(functions@),
                    weights(asts, i as nat) <= usize::MAX,
                    module_text(program@) == emit_functions(
                        asts,
                        0,
                        signatures(table@),
                        prelude(),
                    ),
                    emit_functions(asts, 0, signatures(table@), prelude()) == emit_functions(
                        asts,
                        i as nat,
                        signatures(table@),
                        code@,
                    ),
                decreases functions.len() - i,
            {
                assert(asts[i as int] == functions@[i as int]@);
                let mut st = Emitter::new();
                let piece = gen(&functions[i], &mut st, &table, 0)?;
                if st.stack.len() != 0 {
                    return Err(String::from_str("Stack not empty"));
                }
                code.append(piece.as_str());
                i += 1;
            }
            Ok(code)
        },
        _ => Err(String::from_str("Not a program")),
    }
}

fn write_prelude() -> (r: String)
    ensures
        r@ == prelude(),
{
    let mut code = String::from_str("declare i32 @printf(i8*, ...)\n");
    code.append("@str = constant [4 x i8] c\"%d\\0A\\00\"\n");
    code.append("define void @debug(i64 %n) {\n");
    code.append("entry:\n");
    code.append("  %0 = getelementptr [4 x i8], [4 x i8]* @str, i32 0, i32 0\n");
    code.append("  call i32 (i8*, ...) @printf(i8* %0, i64 %n)\n");
    code.append("  ret void\n");
    code.append("}\n");
    code
}

/// The first `count` of `types`.
fn leading_types(types: &Vec<VariableType>, count: usize) -> (r: Vec<VariableType>)
    requires
        count <= types.len(),
    ensures
        r@ == types@.take(count as int),
{
    let mut taken: Vec<VariableType> = Vec::new();
    let mut i: usize = 0;
    assert(taken@ =~= types@.take(0));
    while i < count
        invariant
            i <= count <= types.len(),
            taken@ == types@.take(i as int),
        decreases count - i,
    {
        taken.push(types[i]);
        assert(taken@ =~= types@.take(i + 1));
        i += 1;
    }
    taken
}

/// Collects what the call sites need of `debug` and of each function.
fn declare(functions: &Vec<Node>) -> (res: Result<Vec<Signature>, String>)
    ensures
        match declared(asts_of(functions@), 0, seq![debug_signature()]) {
            Ok(table) => res matches Ok(found) && signatures(found@) == table,
            Err(e) => res matches Err(m) && m@ == e.message(),
        },
{
    let ghost asts = asts_of(functions@);
    let mut table: Vec<Signature> = Vec::new();
    let mut debug_args: Vec<VariableType> = Vec::new();
    debug_args.push(VariableType::Int);
    table.push(
        Signature { name: String::from_str("debug"), args: debug_args, ret_type: VariableType::Void },
    );
    assert(signatures(table@) =~= seq![debug_signature()]) by {
        assert(table@[0]@.args =~= seq![VariableType::Int]);
    }
    let mut i: usize = 0;
    while i < functions.len()
        invariant
            i <= functions.len(),
            asts == asts_of(functions@),
            declared(asts, 0, seq![debug_signature()]) == declared(
                asts,
                i as nat,
                signatures(table@),
            ),
        decreases functions.len() - i,
    {
        assert(asts[i as int] == functions@[i as int]@);
        match &functions[i] {
            Node::Function { name, args_num, variables, ret_type, statement: _ } => {
                if *args_num > variables.len() {
                    return Err(failure_malformed());
                }
                let ghost before = signatures(table@);
                let entry = Signature {
                    name: name.clone(),
                    args: leading_types(variables, *args_num),
                    ret_type: *ret_type,
                };
                table.push(entry);
                assert(signatures(table@) =~= before.push(entry@));
            },
            _ => {
                return Err(String::from_str("Not a function"));
            },
        }
        i += 1;
    }
    Ok(table)
}

/// Writes `node`, inside a function with `locals` slots.
fn gen(node: &Node, st: &mut Emitter, functions: &Vec<Signature>, locals: usize) -> (res: Result<
    String,
    String,
>)
    requires
        fits(old(st)@, weight(node@)),
    ensures
        agrees(res, final(st)@, emit(node@, signatures(functions@), locals as nat, old(st)@)),
        within(res, old(st)@, final(st)@, weight(node@)),
    decreases node, 1nat,
{
    match node {
        Node::Program { .. } => Err(failure_malformed()),
        Node::Statement { node: inner } => {
            let code = gen(&**inner, st, functions, locals)?;
            match st.pop() {
                Some(_) => Ok(code),
                None => Err(failure_malformed()),
            }
        },
        Node::Return { node: inner } => {
            let mut code = gen(&**inner, st, functions, locals)?;
            match st.pop() {
                Some(value) => {
                    code.append(write_return(value).as_str());
                    st.skip(1);
                    Ok(code)
                },
                None => Err(failure_malformed()),
            }
        },
        Node::Variable { offset } => {
            if *offset >= locals {
                Err(failure_malformed())
            } else {
                let code = write_load(st.last_index, *offset);
                st.push_next();
                Ok(code)
            }
        },
        Node::Number { num } => {
            let code = write_const(st.last_index, *num);
            st.push_next();
            Ok(code)
        },
        Node::Function { .. } => gen_function(node, st, functions),
        Node::Block { statements } => {
            assert(node@->Block_statements =~= asts_of(statements@));
            gen_each(statements, st, functions, locals)
        },
        Node::If { .. } => gen_if(node, st, functions, locals),
        Node::For { .. } => gen_for(node, st, functions, locals),
        Node::While { .. } => gen_while(node, st, functions, locals),
        Node::Operator { typ, .. } => match typ {
            BinaryOperator::Power | BinaryOperator::Root => Ok(String::new()),
            BinaryOperator::Assign => gen_assign(node, st, functions, locals),
            BinaryOperator::ChangeMin | BinaryOperator::ChangeMax => gen_change(
                node,
                st,
                functions,
                locals,
            ),
            BinaryOperator::Exchange => gen_exchange(node, st, locals),
            _ => gen_binary(node, st, functions, locals),
        },
        Node::FuncCall { .. } => gen_call(node, st, functions, locals),
    }
}

/// Writes the nodes of `nodes` one after the other.
fn gen_each(nodes: &Vec<Node>, st: &mut Emitter, functions: &Vec<Signature>, locals: usize) -> (res:
    Result<String, String>)
    requires
        fits(old(st)@, weights(asts_of(nodes@), 0)),
    ensures
        agrees(
            res,
            final(st)@,
            emit_each(
                asts_of(nodes@),
                0,
                signatures(functions@),
                locals as nat,
                Emitted { code: Seq::empty(), state: old(st)@ },
            ),
        ),
        within(res, old(st)@, final(st)@, weights(asts_of(nodes@), 0)),
    decreases nodes, 0nat,
{
    let ghost asts = asts_of(nodes@);
    let ghost table = signatures(functions@);
    let ghost start = st@;
    let mut code = String::new();
    let mut i: usize = 0;
    while i < nodes.len()
        invariant
            i <= nodes.len(),
            asts == asts_of(nodes@),
            table == signatures(functions@),
            start == old(st)@,
            fits(start, weights(asts, 0)),
            st@.index + weights(asts, i as nat) <= start.index + weights(asts, 0),
            st@.label + weights(asts, i as nat) <= start.label + weights(asts, 0),
            emit_each(
                asts,
                0,
                table,
                locals as nat,
                Emitted { code: Seq::empty(), state: start },
            ) == emit_each(
                asts,
                i as nat,
                table,
                locals as nat,
                Emitted { code: code@, state: st@ },
            ),
        decreases nodes.len() - i,
    {
        assert(asts[i as int] == nodes@[i as int]@);
        let piece = gen(&nodes[i], st, functions, locals)?;
        code.append(piece.as_str());
        i += 1;
    }
    Ok(code)
}

/// Writes an optional clause of a loop header and drops its value.
fn gen_clause(
    clause: &Option<Node>,
    st: &mut Emitter,
    functions: &Vec<Signature>,
    locals: usize,
) -> (res: Result<String, String>)
    requires
        fits(old(st)@, clause_weight(optional_ast(*clause))),
    ensures
        agrees(
            res,
            final(st)@,
            emit_clause(optional_ast(*clause), signatures(functions@), locals as nat, old(st)@),
        ),
        within(res, old(st)@, final(st)@, clause_weight(optional_ast(*clause))),
    decreases clause, 0nat,
{
    match clause {
        None => Ok(String::new()),
        Some(inner) => {
            let code = gen(inner, st, functions, locals)?;
            match st.pop() {
                Some(_) => Ok(code),
                None => Err(failure_malformed()),
            }
        },
    }
}

fn write_parameters(variables: &Vec<VariableType>, count: usize) -> (r: String)
    requires
        count <= variables.len(),
    ensures
        r@ == parameters_text(variables@, count as nat),
{
    let mut text = String::new();
    let mut i: usize = 0;
    while i < count
        invariant
            i <= count <= variables.len(),
            text@ == parameters_text(variables@, i as nat),
        decreases count - i,
    {
        let ty = variables[i].str();
        text.append(write_parameter(i, ty.as_str()).as_str());
        i += 1;
    }
    text
}

fn write_argument_slots(variables: &Vec<VariableType>, count: usize) -> (r: String)
    requires
        count <= variables.len(),
    ensures
        r@ == argument_slots_text(variables@, count as nat),
{
    let mut text = String::new();
    let mut i: usize = 0;
    while i < count
        invariant
            i <= count <= variables.len(),
            text@ == argument_slots_text(variables@, i as nat),
        decreases count - i,
    {
        let ty = variables[i].str();
        text.append(write_slot(i, ty.as_str()).as_str());
        text.append(write_store_argument(i, ty.as_str()).as_str());
        i += 1;
    }
    text
}

fn write_local_slots(variables: &Vec<VariableType>, from: usize) -> (r: String)
    requires
        from <= variables.len(),
    ensures
        r@ == local_slots_text(variables@, from as nat, variables@.len()),
{
    let mut text = String::new();
    let mut i: usize = from;
    while i < variables.len()
        invariant
            from <= i <= variables.len(),
            text@ == local_slots_text(variables@, from as nat, i as nat),
        decreases variables.len() - i,
    {
        let ty = variables[i].str();
        text.append(write_slot(i, ty.as_str()).as_str());
        text.append(write_store_zero(i, ty.as_str()).as_str());
        i += 1;
    }
    text
}

fn write_closing_return(ret_type: VariableType) -> (r: String)
    ensures
        r@ == closing_return(ret_type),
{
    let mut text = String::from_str("  ret ");
    text.append(ret_type.str().as_str());
    text.append(if ret_type == VariableType::Void { "" } else { " 0" });
    text.append("\n");
    text
}

/// Writes a definition.
fn gen_function(node: &Node, st: &mut Emitter, functions: &Vec<Signature>) -> (res: Result<
    String,
    String,
>)
    requires
        node is Function,
        fits(old(st)@, weight(node@)),
    ensures
        agrees(res, final(st)@, emit_function(node@, signatures(functions@), old(st)@)),
        within(res, old(st)@, final(st)@, weight(node@)),
    decreases node, 0nat,
{
    match node {
        Node::Function { name, args_num, variables, ret_type, statement } => {
            if *args_num > variables.len() {
                return Err(failure_malformed());
            }
            let mut code = String::from_str("define ");
            code.append(ret_type.str().as_str());
            code.append(" @");
            code.append(name.as_str());
            code.append("(");
            code.append(write_parameters(variables, *args_num).as_str());
            code.append(") {\n");
            code.append("entry:\n");
            code.append(write_argument_slots(variables, *args_num).as_str());
            code.append(write_local_slots(variables, *args_num).as_str());
            st.skip(variables.len());
            let body = gen(&**statement, st, functions, variables.len())?;
            code.append(body.as_str());
            code.append(write_closing_return(*ret_type).as_str());
            code.append("}\n");
            Ok(code)
        },
        _ => Err(failure_malformed()),
    }
}

/// Writes a conditional.
fn gen_if(node: &Node, st: &mut Emitter, functions: &Vec<Signature>, locals: usize) -> (res: Result<
    String,
    String,
>)
    requires
        node is If,
        fits(old(st)@, weight(node@)),
    ensures
        agrees(res, final(st)@, emit_if(node@, signatures(functions@), locals as nat, old(st)@)),
        within(res, old(st)@, final(st)@, weight(node@)),
    decreases node, 0nat,
{
    match node {
        Node::If { condition, true_case, false_case } => {
            assert(node@->If_false_case == optional_ast(**false_case));
            let label = st.next_label();
            let mut code = gen(&**condition, st, functions, locals)?;
            let value = match st.pop() {
                Some(v) => v,
                None => {
                    return Err(failure_malformed());
                },
            };
            let test = st.last_index;
            code.append(write_test(test, value).as_str());
            code.append(write_branch(test, "then", "else", label).as_str());
            code.append(write_label("then", label).as_str());
            st.skip(1);
            let first = gen(&**true_case, st, functions, locals)?;
            code.append(first.as_str());
            code.append(write_jump("end", label).as_str());
            code.append(write_label("else", label).as_str());
            match &**false_case {
                Some(other) => {
                    assert(clause_weight(node@->If_false_case) == weight(other@));
                    let second = gen(other, st, functions, locals)?;
                    code.append(second.as_str());
                },
                None => {},
            }
            code.append(write_jump("end", label).as_str());
            code.append(write_label("end", label).as_str());
            Ok(code)
        },
        _ => Err(failure_malformed()),
    }
}

/// Writes the condition of a `for` loop, or the jump that stands for none.
fn gen_for_condition(
    condition: &Option<Node>,
    label: usize,
    st: &mut Emitter,
    functions: &Vec<Signature>,
    locals: usize,
) -> (res: Result<String, String>)
    requires
        fits(old(st)@, 1 + clause_weight(optional_ast(*condition))),
    ensures
        agrees(
            res,
            final(st)@,
            emit_for_condition(
                optional_ast(*condition),
                label as nat,
                signatures(functions@),
                locals as nat,
                old(st)@,
            ),
        ),
        within(res, old(st)@, final(st)@, 1 + clause_weight(optional_ast(*condition))),
    decreases condition, 0nat,
{
    match condition {
        None => Ok(write_jump("then", label)),
        Some(inner) => {
            let mut code = gen(inner, st, functions, locals)?;
            let value = match st.pop() {
                Some(v) => v,
                None => {
                    return Err(failure_malformed());
                },
            };
            let test = st.last_index;
            code.append(write_test(test, value).as_str());
            code.append(write_branch(test, "then", "end", label).as_str());
            st.skip(1);
            Ok(code)
        },
    }
}

/// Writes a `for` loop.
fn gen_for(node: &Node, st: &mut Emitter, functions: &Vec<Signature>, locals: usize) -> (res: Result<
    String,
    String,
>)
    requires
        node is For,
        fits(old(st)@, weight(node@)),
    ensures
        agrees(res, final(st)@, emit_for(node@, signatures(functions@), locals as nat, old(st)@)),
        within(res, old(st)@, final(st)@, weight(node@)),
    decreases node, 0nat,
{
    match node {
        Node::For { init, condition, update, statement } => {
            let label = st.next_label();
            let mut code = gen_clause(&**init, st, functions, locals)?;
            code.append(write_jump("begin", label).as_str());
            code.append(write_label("begin", label).as_str());
            let test = gen_for_condition(&**condition, label, st, functions, locals)?;
            code.append(test.as_str());
            code.append(write_label("then", label).as_str());
            let body = gen(&**statement, st, functions, locals)?;
            code.append(body.as_str());
            let step = gen_clause(&**update, st, functions, locals)?;
            code.append(step.as_str());
            code.append(write_jump("begin", label).as_str());
            code.append(write_label("end", label).as_str());
            Ok(code)
        },
        _ => Err(failure_malformed()),
    }
}

/// Writes a `while` loop.
fn gen_while(node: &Node, st: &mut Emitter, functions: &Vec<Signature>, locals: usize) -> (res:
    Result<String, String>)
    requires
        node is While,
        fits(old(st)@, weight(node@)),
    ensures
        agrees(res, final(st)@, emit_while(node@, signatures(functions@), locals as nat, old(st)@)),
        within(res, old(st)@, final(st)@, weight(node@)),
    decreases node, 0nat,
{
    match node {
        Node::While { condition, node: body } => {
            let label = st.next_label();
            let mut code = write_jump("begin", label);
            code.append(write_label("begin", label).as_str());
            let test_code = gen(&**condition, st, functions, locals)?;
            code.append(test_code.as_str());
            let value = match st.pop() {
                Some(v) => v,
                None => {
                    return Err(failure_malformed());
                },
            };
            let test = st.last_index;
            code.append(write_test(test, value).as_str());
            code.append(write_branch(test, "then", "end", label).as_str());
            code.append(write_label("then", label).as_str());
            st.skip(1);
            let inner = gen(&**body, st, functions, locals)?;
            code.append(inner.as_str());
            code.append(write_jump("begin", label).as_str());
            code.append(write_open_label("end", label).as_str());
            Ok(code)
        },
        _ => Err(failure_malformed()),
    }
}

/// Writes an operator on two values.
fn gen_binary(node: &Node, st: &mut Emitter, functions: &Vec<Signature>, locals: usize) -> (res:
    Result<String, String>)
    requires
        node is Operator,
        is_arithmetic(node->Operator_typ) || is_comparison(node->Operator_typ),
        fits(old(st)@, weight(node@)),
    ensures
        agrees(res, final(st)@, emit_binary(node@, signatures(functions@), locals as nat, old(st)@)),
        within(res, old(st)@, final(st)@, weight(node@)),
    decreases node, 0nat,
{
    match node {
        Node::Operator { typ, lhs, rhs } => {
            let mut code = gen(&**rhs, st, functions, locals)?;
            let left = gen(&**lhs, st, functions, locals)?;
            code.append(left.as_str());
            let first = match st.pop() {
                Some(v) => v,
                None => {
                    return Err(failure_malformed());
                },
            };
            let second = match st.pop() {
                Some(v) => v,
                None => {
                    return Err(failure_malformed());
                },
            };
            let target = st.last_index;
            code.append(write_binary(target, instruction(*typ), first, second).as_str());
            match typ {
                BinaryOperator::Equal | BinaryOperator::Less => {
                    st.skip(1);
                    code.append(write_widen(st.last_index, target).as_str());
                },
                _ => {},
            }
            st.push_next();
            Ok(code)
        },
        _ => Err(failure_malformed()),
    }
}

/// Writes an assignment.
fn gen_assign(node: &Node, st: &mut Emitter, functions: &Vec<Signature>, locals: usize) -> (res:
    Result<String, String>)
    requires
        node is Operator,
        fits(old(st)@, weight(node@)),
    ensures
        agrees(res, final(st)@, emit_assign(node@, signatures(functions@), locals as nat, old(st)@)),
        within(res, old(st)@, final(st)@, weight(node@)),
    decreases node, 0nat,
{
    proof {
        reveal_with_fuel(ast_of, 2);
    }
    match node {
        Node::Operator { typ, lhs, rhs } => match &**lhs {
            Node::Variable { offset } => {
                if *offset >= locals {
                    return Err(failure_malformed());
                }
                let mut code = gen(&**rhs, st, functions, locals)?;
                let value = match st.pop() {
                    Some(v) => v,
                    None => {
                        return Err(failure_malformed());
                    },
                };
                code.append(write_store(value, *offset).as_str());
                code.append(write_load(st.last_index, *offset).as_str());
                st.push_next();
                Ok(code)
            },
            _ => Err(failure_not_a_variable()),
        },
        _ => Err(failure_malformed()),
    }
}

/// Writes a change to the smaller or to the larger.
fn gen_change(node: &Node, st: &mut Emitter, functions: &Vec<Signature>, locals: usize) -> (res:
    Result<String, String>)
    requires
        node is Operator,
        fits(old(st)@, weight(node@)),
    ensures
        agrees(res, final(st)@, emit_change(node@, signatures(functions@), locals as nat, old(st)@)),
        within(res, old(st)@, final(st)@, weight(node@)),
    decreases node, 0nat,
{
    proof {
        reveal_with_fuel(ast_of, 2);
    }
    match node {
        Node::Operator { typ, lhs, rhs } => match &**lhs {
            Node::Variable { offset } => {
                if *offset >= locals {
                    return Err(failure_malformed());
                }
                let label = st.next_label();
                let mut code = gen(&**rhs, st, functions, locals)?;
                let operand = match st.pop() {
                    Some(v) => v,
                    None => {
                        return Err(failure_malformed());
                    },
                };
                let current = st.last_index;
                code.append(write_load(current, *offset).as_str());
                code.append(write_binary(current + 1, instruction(*typ), current, operand).as_str());
                code.append(write_branch(current + 1, "then", "end", label).as_str());
                code.append(write_label("then", label).as_str());
                code.append(write_store(operand, *offset).as_str());
                code.append(write_jump("end", label).as_str());
                code.append(write_label("end", label).as_str());
                code.append(write_load(current + 2, *offset).as_str());
                st.skip(2);
                st.push_next();
                Ok(code)
            },
            _ => Err(failure_not_a_variable()),
        },
        _ => Err(failure_malformed()),
    }
}

/// Writes an exchange.
fn gen_exchange(node: &Node, st: &mut Emitter, locals: usize) -> (res: Result<String, String>)
    requires
        node is Operator,
        fits(old(st)@, weight(node@)),
    ensures
        agrees(res, final(st)@, emit_exchange(node@, locals as nat, old(st)@)),
        within(res, old(st)@, final(st)@, weight(node@)),
{
    proof {
        reveal_with_fuel(ast_of, 2);
    }
    match node {
        Node::Operator { typ, lhs, rhs } => match (&**lhs, &**rhs) {
            (Node::Variable { offset: left }, Node::Variable { offset: right }) => {
                if *left >= locals || *right >= locals {
                    return Err(failure_malformed());
                }
                let first = st.last_index;
                let mut code = write_load(first, *left);
                code.append(write_load(first + 1, *right).as_str());
                code.append(write_store(first, *right).as_str());
                code.append(write_store(first + 1, *left).as_str());
                code.append(write_load(first + 2, *left).as_str());
                st.skip(2);
                st.push_next();
                Ok(code)
            },
            _ => Err(failure_not_a_variable()),
        },
        _ => Err(failure_malformed()),
    }
}

/// The first declared function with the given name and argument count.
fn find_callee<'a>(functions: &'a Vec<Signature>, name: &String, count: usize) -> (r: Option<
    &'a Signature,
>)
    ensures
        match resolve(signatures(functions@), name@, count as nat, 0) {
            Some(callee) => r matches Some(found) && found@ == callee,
            None => r is None,
        },
{
    let mut i: usize = 0;
    while i < functions.len()
        invariant
            i <= functions.len(),
            resolve(signatures(functions@), name@, count as nat, 0) == resolve(
                signatures(functions@),
                name@,
                count as nat,
                i as nat,
            ),
        decreases functions.len() - i,
    {
        if functions[i].name == *name && functions[i].args.len() == count {
            return Some(&functions[i]);
        }
        i += 1;
    }
    None
}

fn write_arguments(values: &Vec<usize>) -> (r: String)
    ensures
        r@ == arguments_text(naturals(values@), values@.len()),
{
    let mut text = String::new();
    let mut i: usize = 0;
    while i < values.len()
        invariant
            i <= values.len(),
            text@ == arguments_text(naturals(values@), i as nat),
        decreases values.len() - i,
    {
        text.append(write_argument(i == 0, values[i]).as_str());
        i += 1;
    }
    text
}

/// Writes the arguments of a call in order and collects their values.
fn gen_arguments(
    arguments: &Vec<Node>,
    st: &mut Emitter,
    functions: &Vec<Signature>,
    locals: usize,
) -> (res: Result<(String, Vec<usize>), String>)
    requires
        fits(old(st)@, weights(asts_of(arguments@), 0)),
    ensures
        match emit_arguments(
            asts_of(arguments@),
            0,
            signatures(functions@),
            locals as nat,
            Emitted { code: Seq::empty(), state: old(st)@ },
            Seq::empty(),
        ) {
            Ok((done, values)) => res matches Ok(pair) && pair.0@ == done.code && naturals(pair.1@)
                == values && final(st)@ == done.state,
            Err(e) => res matches Err(m) && m@ == e.message(),
        },
        res is Ok ==> final(st)@.index <= old(st)@.index + weights(asts_of(arguments@), 0)
            && final(st)@.label <= old(st)@.label + weights(asts_of(arguments@), 0),
    decreases arguments, 0nat,
{
    let ghost asts = asts_of(arguments@);
    let ghost table = signatures(functions@);
    let ghost start = st@;
    let mut code = String::new();
    let mut values: Vec<usize> = Vec::new();
    let mut i: usize = 0;
    assert(naturals(values@) =~= Seq::<nat>::empty());
    while i < arguments.len()
        invariant
            i <= arguments.len(),
            asts == asts_of(arguments@),
            table == signatures(functions@),
            start == old(st)@,
            fits(start, weights(asts, 0)),
            st@.index + weights(asts, i as nat) <= start.index + weights(asts, 0),
            st@.label + weights(asts, i as nat) <= start.label + weights(asts, 0),
            emit_arguments(
                asts,
                0,
                table,
                locals as nat,
                Emitted { code: Seq::empty(), state: start },
                Seq::empty(),
            ) == emit_arguments(
                asts,
                i as nat,
                table,
                locals as nat,
                Emitted { code: code@, state: st@ },
                naturals(values@),
            ),
        decreases arguments.len() - i,
    {
        assert(asts[i as int] == arguments@[i as int]@);
        let piece = gen(&arguments[i], st, functions, locals)?;
        code.append(piece.as_str());
        let value = match st.pop() {
            Some(v) => v,
            None => {
                return Err(failure_malformed());
            },
        };
        let ghost before = naturals(values@);
        values.push(value);
        assert(naturals(values@) =~= before.push(value as nat));
        i += 1;
    }
    Ok((code, values))
}

/// Writes a call.
fn gen_call(node: &Node, st: &mut Emitter, functions: &Vec<Signature>, locals: usize) -> (res:
    Result<String, String>)
    requires
        node is FuncCall,
        fits(old(st)@, weight(node@)),
    ensures
        agrees(res, final(st)@, emit_call(node@, signatures(functions@), locals as nat, old(st)@)),
        within(res, old(st)@, final(st)@, weight(node@)),
    decreases node, 0nat,
{
    match node {
        Node::FuncCall { function_name, arguments } => {
            assert(node@->FuncCall_arguments =~= asts_of(arguments@));
            let callee = match find_callee(functions, function_name, arguments.len()) {
                Some(found) => found,
                None => {
                    return Err(String::from_str("Function not found"));
                },
            };
            let (mut code, values) = gen_arguments(arguments, st, functions, locals)?;
            let target = st.last_index;
            if callee.ret_type == VariableType::Void {
                code.append("  call void @");
                code.append(function_name.as_str());
                code.append("(");
                code.append(write_arguments(&values).as_str());
                code.append(")\n");
                code.append(write_stand_in(target).as_str());
            } else {
                code.append("  %");
                crate::text::push_usize(&mut code, target);
                code.append(" = call ");
                code.append(callee.ret_type.str().as_str());
                code.append(" @");
                code.append(function_name.as_str());
                code.append("(");
                code.append(write_arguments(&values).as_str());
                code.append(")\n");
            }
            st.push_next();
            Ok(code)
        },
        _ => Err(failure_malformed()),
    }
}

/// `n` as a machine word, where one holds it.
pub open spec fn bounded(n: nat) -> Option<usize> {
    if n <= usize::MAX {
        Some(n as usize)
    } else {
        None
    }
}

/// The sum of two numbers that are given as machine words where they fit.
fn plus(a: Option<usize>, b: Option<usize>, Ghost(x): Ghost<nat>, Ghost(y): Ghost<nat>) -> (r: Option<
    usize,
>)
    requires
        a == bounded(x),
        b == bounded(y),
    ensures
        r == bounded(x + y),
{
    match (a, b) {
        (Some(m), Some(n)) => m.checked_add(n),
        _ => None,
    }
}

/// The weight of `node`, where a machine word holds it. `generate` asks
/// for that.
pub fn weigh(node: &Node) -> (r: Option<usize>)
    ensures
        r == bounded(weight(node@)),
    decreases node, 1nat,
{
    let three: Option<usize> = Some(3);
    match node {
        Node::Program { functions } => {
            assert(node@->Program_functions =~= asts_of(functions@));
            let inner = weigh_each(functions);
            plus(three, inner, Ghost(3), Ghost(weights(asts_of(functions@), 0)))
        },
        Node::Function { variables, statement, .. } => {
            let slots: Option<usize> = Some(variables.len());
            let head = plus(three, slots, Ghost(3), Ghost(variables@.len()));
            let body = weigh(&**statement);
            plus(head, body, Ghost(3 + variables@.len()), Ghost(weight(statement@)))
        },
        Node::Statement { node: inner } => {
            let body = weigh(&**inner);
            plus(three, body, Ghost(3), Ghost(weight(inner@)))
        },
        Node::Block { statements } => {
            assert(node@->Block_statements =~= asts_of(statements@));
            let inner = weigh_each(statements);
            plus(three, inner, Ghost(3), Ghost(weights(asts_of(statements@), 0)))
        },
        Node::Return { node: inner } => {
            let body = weigh(&**inner);
            plus(three, body, Ghost(3), Ghost(weight(inner@)))
        },
        Node::If { condition, true_case, false_case } => {
            let c = weigh(&**condition);
            let t = weigh(&**true_case);
            let f = weigh_clause(&**false_case);
            let ghost wc = weight(condition@);
            let ghost wt = weight(true_case@);
            let ghost wf = clause_weight(optional_ast(**false_case));
            let a = plus(three, c, Ghost(3), Ghost(wc));
            let b = plus(a, t, Ghost(3 + wc), Ghost(wt));
            plus(b, f, Ghost(3 + wc + wt), Ghost(wf))
        },
        Node::For { init, condition, update, statement } => {
            let i = weigh_clause(&**init);
            let c = weigh_clause(&**condition);
            let u = weigh_clause(&**update);
            let s = weigh(&**statement);
            let ghost wi = clause_weight(optional_ast(**init));
            let ghost wc = clause_weight(optional_ast(**condition));
            let ghost wu = clause_weight(optional_ast(**update));
            let ghost ws = weight(statement@);
            let a = plus(three, i, Ghost(3), Ghost(wi));
            let b = plus(a, c, Ghost(3 + wi), Ghost(wc));
            let d = plus(b, u, Ghost(3 + wi + wc), Ghost(wu));
            plus(d, s, Ghost(3 + wi + wc + wu), Ghost(ws))
        },
        Node::While { condition, node: body } => {
            let c = weigh(&**condition);
            let b = weigh(&**body);
            let a = plus(three, c, Ghost(3), Ghost(weight(condition@)));
            plus(a, b, Ghost(3 + weight(condition@)), Ghost(weight(body@)))
        },
        Node::Operator { lhs, rhs, .. } => {
            let l = weigh(&**lhs);
            let r = weigh(&**rhs);
            let a = plus(three, l, Ghost(3), Ghost(weight(lhs@)));
            plus(a, r, Ghost(3 + weight(lhs@)), Ghost(weight(rhs@)))
        },
        Node::Variable { .. } => three,
        Node::FuncCall { arguments, .. } => {
            assert(node@->FuncCall_arguments =~= asts_of(arguments@));
            let inner = weigh_each(arguments);
            plus(three, inner, Ghost(3), Ghost(weights(asts_of(arguments@), 0)))
        },
        Node::Number { .. } => three,
    }
}

/// The weight of an optional node.
fn weigh_clause(clause: &Option<Node>) -> (r: Option<usize>)
    ensures
        r == bounded(clause_weight(optional_ast(*clause))),
    decreases clause, 0nat,
{
    match clause {
        Some(inner) => weigh(inner),
        None => Some(0),
    }
}

/// The sum of the weights of `nodes`.
fn weigh_each(nodes: &Vec<Node>) -> (r: Option<usize>)
    ensures
        r == bounded(weights(asts_of(nodes@), 0)),
    decreases nodes, 0nat,
{
    let ghost asts = asts_of(nodes@);
    let mut sum: Option<usize> = Some(0);
    let mut i: usize = nodes.len();
    while i > 0
        invariant
            i <= nodes.len(),
            asts == asts_of(nodes@),
            sum == bounded(weights(asts, i as nat)),
        decreases i,
    {
        i -= 1;
        assert(asts[i as int] == nodes@[i as int]@);
        let one = weigh(&nodes[i]);
        sum = plus(one, sum, Ghost(weight(asts[i as int])), Ghost(weights(asts, (i + 1) as nat)));
    }
    sum
}

} // verus!
