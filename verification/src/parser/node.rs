//! The syntax tree, and the mathematical tree that contracts speak of.

use vstd::prelude::*;
use crate::parser::node::binary_operator::BinaryOperator;
use crate::parser::node::variable_type::VariableType;

pub mod binary_operator;
pub mod variable_type;

verus! {

/// A node of the syntax tree. The tree owns its subtrees.
#[allow(inconsistent_fields)]
#[derive(Debug, PartialEq, Eq)]
pub enum Node {
    Program { functions: Vec<Node> },
    Function {
        name: String,
        args_num: usize,
        variables: Vec<VariableType>,
        ret_type: VariableType,
        statement: Box<Node>,
    },
    Statement { node: Box<Node> },
    Block { statements: Vec<Node> },
    Return { node: Box<Node> },
    If { condition: Box<Node>, true_case: Box<Node>, false_case: Box<Option<Node>> },
    For {
        init: Box<Option<Node>>,
        condition: Box<Option<Node>>,
        update: Box<Option<Node>>,
        statement: Box<Node>,
    },
    While { condition: Box<Node>, node: Box<Node> },
    Operator { typ: BinaryOperator, lhs: Box<Node>, rhs: Box<Node> },
    Variable { offset: usize },
    FuncCall { function_name: String, arguments: Vec<Node> },
    Number { num: i64 },
}

/// The mathematical value of a `Node`: the same tree with sequences for
/// vectors, character sequences for names and unbounded naturals for counts.
#[allow(inconsistent_fields)]
pub enum Ast {
    Program { functions: Seq<Ast> },
    Function {
        name: Seq<char>,
        args_num: nat,
        variables: Seq<VariableType>,
        ret_type: VariableType,
        statement: Box<Ast>,
    },
    Statement { node: Box<Ast> },
    Block { statements: Seq<Ast> },
    Return { node: Box<Ast> },
    If { condition: Box<Ast>, true_case: Box<Ast>, false_case: Option<Box<Ast>> },
    For {
        init: Option<Box<Ast>>,
        condition: Option<Box<Ast>>,
        update: Option<Box<Ast>>,
        statement: Box<Ast>,
    },
    While { condition: Box<Ast>, node: Box<Ast> },
    Operator { typ: BinaryOperator, lhs: Box<Ast>, rhs: Box<Ast> },
    Variable { offset: nat },
    FuncCall { function_name: Seq<char>, arguments: Seq<Ast> },
    Number { num: i64 },
}

/// The tree that `n` stands for.
pub open spec fn ast_of(n: Node) -> Ast
    decreases n,
{
    match n {
        Node::Program { functions } => Ast::Program {
            functions: Seq::new(
                functions@.len(),
                |i: int|
                    if 0 <= i < functions@.len() {
                        ast_of(functions@[i])
                    } else {
                        Ast::Number { num: 0 }
                    },
            ),
        },
        Node::Function { name, args_num, variables, ret_type, statement } => Ast::Function {
            name: name@,
            args_num: args_num as nat,
            variables: variables@,
            ret_type,
            statement: Box::new(ast_of(*statement)),
        },
        Node::Statement { node } => Ast::Statement { node: Box::new(ast_of(*node)) },
        Node::Block { statements } => Ast::Block {
            statements: Seq::new(
                statements@.len(),
                |i: int|
                    if 0 <= i < statements@.len() {
                        ast_of(statements@[i])
                    } else {
                        Ast::Number { num: 0 }
                    },
            ),
        },
        Node::Return { node } => Ast::Return { node: Box::new(ast_of(*node)) },
        Node::If { condition, true_case, false_case } => Ast::If {
            condition: Box::new(ast_of(*condition)),
            true_case: Box::new(ast_of(*true_case)),
            false_case: match *false_case {
                Some(n) => Some(Box::new(ast_of(n))),
                None => None,
            },
        },
        Node::For { init, condition, update, statement } => Ast::For {
            init: match *init {
                Some(n) => Some(Box::new(ast_of(n))),
                None => None,
            },
            condition: match *condition {
                Some(n) => Some(Box::new(ast_of(n))),
                None => None,
            },
            update: match *update {
                Some(n) => Some(Box::new(ast_of(n))),
                None => None,
            },
            statement: Box::new(ast_of(*statement)),
        },
        Node::While { condition, node } => Ast::While {
            condition: Box::new(ast_of(*condition)),
            node: Box::new(ast_of(*node)),
        },
        Node::Operator { typ, lhs, rhs } => Ast::Operator {
            typ,
            lhs: Box::new(ast_of(*lhs)),
            rhs: Box::new(ast_of(*rhs)),
        },
        Node::Variable { offset } => Ast::Variable { offset: offset as nat },
        Node::FuncCall { function_name, arguments } => Ast::FuncCall {
            function_name: function_name@,
            arguments: Seq::new(
                arguments@.len(),
                |i: int|
                    if 0 <= i < arguments@.len() {
                        ast_of(arguments@[i])
                    } else {
                        Ast::Number { num: 0 }
                    },
            ),
        },
        Node::Number { num } => Ast::Number { num },
    }
}

impl View for Node {
    type V = Ast;

    open spec fn view(&self) -> Ast {
        ast_of(*self)
    }
}

/// The trees that the nodes of `nodes` stand for, in order.
pub open spec fn asts_of(nodes: Seq<Node>) -> Seq<Ast> {
    Seq::new(nodes.len(), |i: int| ast_of(nodes[i]))
}

impl Clone for Node {
    /// A deep copy: the result stands for the same tree.
    fn clone(&self) -> (r: Self)
        ensures
            r@ == self@,
        decreases self,
    {
        match self {
            Node::Program { functions } => {
                let copies = clone_nodes(functions);
                assert(ast_of(Node::Program { functions: copies })->Program_functions =~= ast_of(
                    *self,
                )->Program_functions);
                Node::Program { functions: copies }
            },
            Node::Function { name, args_num, variables, ret_type, statement } => {
                let body = (**statement).clone();
                let types = clone_types(variables);
                Node::Function {
                    name: name.clone(),
                    args_num: *args_num,
                    variables: types,
                    ret_type: *ret_type,
                    statement: Box::new(body),
                }
            },
            Node::Statement { node } => Node::Statement { node: Box::new((**node).clone()) },
            Node::Block { statements } => {
                let copies = clone_nodes(statements);
                assert(ast_of(Node::Block { statements: copies })->Block_statements =~= ast_of(
                    *self,
                )->Block_statements);
                Node::Block { statements: copies }
            },
            Node::Return { node } => Node::Return { node: Box::new((**node).clone()) },
            Node::If { condition, true_case, false_case } => Node::If {
                condition: Box::new((**condition).clone()),
                true_case: Box::new((**true_case).clone()),
                false_case: Box::new(clone_optional(&**false_case)),
            },
            Node::For { init, condition, update, statement } => Node::For {
                init: Box::new(clone_optional(&**init)),
                condition: Box::new(clone_optional(&**condition)),
                update: Box::new(clone_optional(&**update)),
                statement: Box::new((**statement).clone()),
            },
            Node::While { condition, node } => Node::While {
                condition: Box::new((**condition).clone()),
                node: Box::new((**node).clone()),
            },
            Node::Operator { typ, lhs, rhs } => Node::Operator {
                typ: *typ,
                lhs: Box::new((**lhs).clone()),
                rhs: Box::new((**rhs).clone()),
            },
            Node::Variable { offset } => Node::Variable { offset: *offset },
            Node::FuncCall { function_name, arguments } => {
                let copies = clone_nodes(arguments);
                assert(ast_of(
                    Node::FuncCall { function_name: *function_name, arguments: copies },
                )->FuncCall_arguments =~= ast_of(*self)->FuncCall_arguments);
                Node::FuncCall { function_name: function_name.clone(), arguments: copies }
            },
            Node::Number { num } => Node::Number { num: *num },
        }
    }
}

/// The tree that an optional node stands for, if there is one.
pub open spec fn optional_ast(n: Option<Node>) -> Option<Box<Ast>> {
    match n {
        Some(n) => Some(Box::new(ast_of(n))),
        None => None,
    }
}

/// A deep copy of an optional node.
fn clone_optional(node: &Option<Node>) -> (r: Option<Node>)
    ensures
        optional_ast(r) == optional_ast(*node),
    decreases node,
{
    match node {
        Some(n) => Some(n.clone()),
        None => None,
    }
}

/// Deep copies of the nodes of `nodes`, in order.
fn clone_nodes(nodes: &Vec<Node>) -> (r: Vec<Node>)
    ensures
        r@.len() == nodes@.len(),
        forall|j: int| 0 <= j < r@.len() ==> ast_of(#[trigger] r@[j]) == ast_of(nodes@[j]),
    decreases nodes,
{
    let mut copies: Vec<Node> = Vec::new();
    let mut i: usize = 0;
    while i < nodes.len()
        invariant
            i <= nodes.len(),
            copies.len() == i,
            forall|j: int| 0 <= j < i ==> ast_of(#[trigger] copies@[j]) == ast_of(nodes@[j]),
        decreases nodes.len() - i,
    {
        let copy = nodes[i].clone();
        copies.push(copy);
        i += 1;
    }
    copies
}

/// A copy of a list of types.
fn clone_types(types: &Vec<VariableType>) -> (r: Vec<VariableType>)
    ensures
        r@ == types@,
{
    let mut copies: Vec<VariableType> = Vec::new();
    let mut i: usize = 0;
    while i < types.len()
        invariant
            i <= types.len(),
            copies@ == types@.take(i as int),
        decreases types.len() - i,
    {
        copies.push(types[i]);
        assert(types@.take(i + 1) =~= types@.take(i as int).push(types@[i as int]));
        i += 1;
    }
    assert(types@.take(types@.len() as int) =~= types@);
    copies
}

} // verus!
