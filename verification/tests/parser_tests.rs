use compiler::parser::node::binary_operator::BinaryOperator;
use compiler::parser::node::variable_type::VariableType;
use compiler::parser::node::Node;
use compiler::parser::parse;
use compiler::tokenizer::tokenize;

fn tree(src: &str) -> Result<Node, String> {
    parse(tokenize(src).unwrap())
}

fn num(n: i64) -> Node {
    Node::Number { num: n }
}

fn var(offset: usize) -> Node {
    Node::Variable { offset }
}

fn op(typ: BinaryOperator, lhs: Node, rhs: Node) -> Node {
    Node::Operator { typ, lhs: Box::new(lhs), rhs: Box::new(rhs) }
}

fn not(x: Node) -> Node {
    op(BinaryOperator::Equal, num(0), x)
}

fn stmt(x: Node) -> Node {
    Node::Statement { node: Box::new(x) }
}

fn function(name: &str, args_num: usize, slots: usize, body: Vec<Node>) -> Node {
    Node::Function {
        name: name.to_string(),
        args_num,
        variables: vec![VariableType::Int; slots],
        ret_type: VariableType::Int,
        statement: Box::new(Node::Block { statements: body }),
    }
}

fn program(functions: Vec<Node>) -> Node {
    Node::Program { functions }
}

/// The tree of `fn main { <body> }`, whose body uses `slots` names.
fn main_with(slots: usize, body: Vec<Node>) -> Node {
    program(vec![function("main", 0, slots, body)])
}

fn expression(src: &str, slots: usize) -> Node {
    let text = format!("fn main {{ {}; }}", src);
    let got = tree(&text).unwrap();
    match got {
        Node::Program { mut functions } => match functions.remove(0) {
            Node::Function { variables, statement, .. } => {
                assert_eq!(variables.len(), slots);
                match *statement {
                    Node::Block { mut statements } => match statements.remove(0) {
                        Node::Statement { node } => *node,
                        other => panic!("no statement: {:?}", other),
                    },
                    other => panic!("no block: {:?}", other),
                }
            },
            other => panic!("no function: {:?}", other),
        },
        other => panic!("no program: {:?}", other),
    }
}

#[test]
fn addition_is_one_function_with_one_statement() {
    let got = tree("fn main { 1 + 2; }").unwrap();
    assert_eq!(got, main_with(0, vec![stmt(op(BinaryOperator::Add, num(1), num(2)))]));
}

#[test]
fn empty_text_is_an_empty_program() {
    assert_eq!(tree("").unwrap(), program(vec![]));
}

#[test]
fn functions_come_in_source_order() {
    let got = tree("fn f[a,b] { a + b; } fn main { f(2,3); }").unwrap();
    let expected = program(vec![
        function("f", 2, 2, vec![stmt(op(BinaryOperator::Add, var(0), var(1)))]),
        function(
            "main",
            0,
            0,
            vec![stmt(Node::FuncCall {
                function_name: "f".to_string(),
                arguments: vec![num(2), num(3)],
            })],
        ),
    ]);
    assert_eq!(got, expected);
}

#[test]
fn names_become_slots_in_order_of_first_use() {
    let got = tree("fn f[p] { x = p; y = x; x; p; }").unwrap();
    let expected = program(vec![function(
        "f",
        1,
        3,
        vec![
            stmt(op(BinaryOperator::Assign, var(1), var(0))),
            stmt(op(BinaryOperator::Assign, var(2), var(1))),
            stmt(var(1)),
            stmt(var(0)),
        ],
    )]);
    assert_eq!(got, expected);
}

#[test]
fn names_are_visible_in_the_whole_function() {
    let got = tree("fn main { { a; } a; }").unwrap();
    let expected =
        main_with(1, vec![Node::Block { statements: vec![stmt(var(0))] }, stmt(var(0))]);
    assert_eq!(got, expected);
}

#[test]
fn each_function_has_its_own_slots() {
    let got = tree("fn f { a; b; } fn g { b; }").unwrap();
    let expected = program(vec![
        function("f", 0, 2, vec![stmt(var(0)), stmt(var(1))]),
        function("g", 0, 1, vec![stmt(var(0))]),
    ]);
    assert_eq!(got, expected);
}

#[test]
fn for_loop_with_all_clauses() {
    let got = tree("fn main { x = 0; for ; x < 10; x++; { x; } }").unwrap();
    let expected = main_with(
        1,
        vec![
            stmt(op(BinaryOperator::Assign, var(0), num(0))),
            Node::For {
                init: Box::new(None),
                condition: Box::new(Some(op(BinaryOperator::Less, var(0), num(10)))),
                update: Box::new(Some(op(
                    BinaryOperator::Assign,
                    var(0),
                    op(BinaryOperator::Add, var(0), num(1)),
                ))),
                statement: Box::new(Node::Block { statements: vec![stmt(var(0))] }),
            },
        ],
    );
    assert_eq!(got, expected);
}

#[test]
fn for_header_wants_three_semicolons() {
    assert_eq!(
        tree("fn main { x = 0; for ; x < 10; x++ { x; } }"),
        Err("Unexpected Token (0:35)".to_string())
    );
}

#[test]
fn for_loop_with_no_clause() {
    let got = tree("fn main { for ;;; { } }").unwrap();
    let expected = main_with(
        0,
        vec![Node::For {
            init: Box::new(None),
            condition: Box::new(None),
            update: Box::new(None),
            statement: Box::new(Node::Block { statements: vec![] }),
        }],
    );
    assert_eq!(got, expected);
}

#[test]
fn conditional_with_and_without_else() {
    let got = tree("fn main { if 1 { 2; } if 3 4; else { 5; } }").unwrap();
    let expected = main_with(
        0,
        vec![
            Node::If {
                condition: Box::new(num(1)),
                true_case: Box::new(Node::Block { statements: vec![stmt(num(2))] }),
                false_case: Box::new(None),
            },
            Node::If {
                condition: Box::new(num(3)),
                true_case: Box::new(stmt(num(4))),
                false_case: Box::new(Some(Node::Block { statements: vec![stmt(num(5))] })),
            },
        ],
    );
    assert_eq!(got, expected);
}

#[test]
fn while_loop() {
    let got = tree("fn main { while a a--; }").unwrap();
    let expected = main_with(
        1,
        vec![Node::While {
            condition: Box::new(var(0)),
            node: Box::new(stmt(op(
                BinaryOperator::Assign,
                var(0),
                op(BinaryOperator::Sub, var(0), num(1)),
            ))),
        }],
    );
    assert_eq!(got, expected);
}

#[test]
fn colon_returns_the_value() {
    let got = tree("fn main { 7: }").unwrap();
    assert_eq!(got, main_with(0, vec![Node::Return { node: Box::new(num(7)) }]));
}

#[test]
fn exchange_and_changes_stay_operators() {
    assert_eq!(expression("a <=> b", 2), op(BinaryOperator::Exchange, var(0), var(1)));
    assert_eq!(expression("a <= b", 2), op(BinaryOperator::ChangeMin, var(0), var(1)));
    assert_eq!(expression("a >= b", 2), op(BinaryOperator::ChangeMax, var(0), var(1)));
    assert_eq!(expression("a = b", 2), op(BinaryOperator::Assign, var(0), var(1)));
}

#[test]
fn compound_assignment_repeats_the_target() {
    let cases = [
        ("+=", BinaryOperator::Add),
        ("-=", BinaryOperator::Sub),
        ("*=", BinaryOperator::Mul),
        ("/=", BinaryOperator::Div),
        ("%=", BinaryOperator::Rem),
        ("**=", BinaryOperator::Power),
        ("//=", BinaryOperator::Root),
        ("&=", BinaryOperator::BitAnd),
        ("^=", BinaryOperator::BitXor),
        ("|=", BinaryOperator::BitOr),
        ("<<=", BinaryOperator::LShift),
        (">>=", BinaryOperator::RShift),
    ];
    for (spelling, typ) in cases {
        let got = expression(&format!("a {} 2", spelling), 1);
        assert_eq!(got, op(BinaryOperator::Assign, var(0), op(typ, var(0), num(2))));
    }
}

#[test]
fn assignment_groups_to_the_right() {
    assert_eq!(
        expression("a = b = 1", 2),
        op(BinaryOperator::Assign, var(0), op(BinaryOperator::Assign, var(1), num(1)))
    );
}

#[test]
fn unary_operators_are_rewritten() {
    assert_eq!(expression("-a", 1), op(BinaryOperator::Sub, num(0), var(0)));
    assert_eq!(expression("~a", 1), op(BinaryOperator::BitXor, num(-1), var(0)));
    assert_eq!(expression("!a", 1), not(var(0)));
}

#[test]
fn comparisons_are_rewritten() {
    assert_eq!(expression("a < b", 2), op(BinaryOperator::Less, var(0), var(1)));
    assert_eq!(expression("a > b", 2), op(BinaryOperator::Less, var(1), var(0)));
    assert_eq!(expression("a <== b", 2), not(op(BinaryOperator::Less, var(1), var(0))));
    assert_eq!(expression("a >== b", 2), not(op(BinaryOperator::Less, var(0), var(1))));
    assert_eq!(expression("a == b", 2), op(BinaryOperator::Equal, var(0), var(1)));
    assert_eq!(expression("a != b", 2), not(op(BinaryOperator::Equal, var(0), var(1))));
}

#[test]
fn logical_operators_work_on_truth_values() {
    assert_eq!(
        expression("a && b", 2),
        op(BinaryOperator::BitAnd, not(not(var(0))), not(not(var(1))))
    );
    assert_eq!(expression("a || b", 2), not(not(op(BinaryOperator::BitOr, var(0), var(1)))));
}

#[test]
fn step_of_a_variable() {
    let plus = op(BinaryOperator::Assign, var(0), op(BinaryOperator::Add, var(0), num(1)));
    let minus = op(BinaryOperator::Assign, var(0), op(BinaryOperator::Sub, var(0), num(1)));
    assert_eq!(expression("a++", 1), plus);
    assert_eq!(expression("a--", 1), minus);
}

#[test]
fn multiplication_binds_tighter_than_addition() {
    assert_eq!(
        expression("1 + 2 * 3", 0),
        op(BinaryOperator::Add, num(1), op(BinaryOperator::Mul, num(2), num(3)))
    );
    assert_eq!(
        expression("1 * 2 + 3", 0),
        op(BinaryOperator::Add, op(BinaryOperator::Mul, num(1), num(2)), num(3))
    );
}

#[test]
fn subtraction_groups_to_the_right() {
    assert_eq!(
        expression("1 - 2 - 3", 0),
        op(BinaryOperator::Sub, num(1), op(BinaryOperator::Sub, num(2), num(3)))
    );
}

#[test]
fn division_groups_to_the_left() {
    assert_eq!(
        expression("8 / 4 / 2", 0),
        op(BinaryOperator::Div, op(BinaryOperator::Div, num(8), num(4)), num(2))
    );
    assert_eq!(
        expression("8 % 4 * 2", 0),
        op(BinaryOperator::Mul, op(BinaryOperator::Rem, num(8), num(4)), num(2))
    );
}

#[test]
fn power_groups_to_the_right() {
    assert_eq!(
        expression("2 ** 3 ** 4", 0),
        op(BinaryOperator::Power, num(2), op(BinaryOperator::Power, num(3), num(4)))
    );
    assert_eq!(expression("2 // 3", 0), op(BinaryOperator::Root, num(2), num(3)));
}

#[test]
fn levels_from_loose_to_tight() {
    assert_eq!(
        expression("1 || 2 && 3", 0),
        not(not(op(
            BinaryOperator::BitOr,
            num(1),
            op(BinaryOperator::BitAnd, not(not(num(2))), not(not(num(3))))
        )))
    );
    assert_eq!(
        expression("1 | 2 ^ 3 & 4", 0),
        op(
            BinaryOperator::BitOr,
            num(1),
            op(BinaryOperator::BitXor, num(2), op(BinaryOperator::BitAnd, num(3), num(4)))
        )
    );
    assert_eq!(
        expression("1 == 2 < 3 << 4 + 5", 0),
        op(
            BinaryOperator::Equal,
            num(1),
            op(
                BinaryOperator::Less,
                num(2),
                op(BinaryOperator::LShift, num(3), op(BinaryOperator::Add, num(4), num(5)))
            )
        )
    );
    assert_eq!(
        expression("1 >> 2 << 3", 0),
        op(BinaryOperator::LShift, op(BinaryOperator::RShift, num(1), num(2)), num(3))
    );
}

#[test]
fn brackets_group() {
    assert_eq!(
        expression("(1 + 2) * 3", 0),
        op(BinaryOperator::Mul, op(BinaryOperator::Add, num(1), num(2)), num(3))
    );
}

#[test]
fn call_without_and_with_arguments() {
    assert_eq!(
        expression("f()", 0),
        Node::FuncCall { function_name: "f".to_string(), arguments: vec![] }
    );
    assert_eq!(
        expression("f(a, 1 + 2, g(b))", 2),
        Node::FuncCall {
            function_name: "f".to_string(),
            arguments: vec![
                var(0),
                op(BinaryOperator::Add, num(1), num(2)),
                Node::FuncCall { function_name: "g".to_string(), arguments: vec![var(1)] },
            ],
        }
    );
}

#[test]
fn called_name_takes_no_slot() {
    let got = tree("fn main { f(1); f; }").unwrap();
    let expected = main_with(
        1,
        vec![
            stmt(Node::FuncCall { function_name: "f".to_string(), arguments: vec![num(1)] }),
            stmt(var(0)),
        ],
    );
    assert_eq!(got, expected);
}

#[test]
fn unexpected_token_carries_its_place() {
    assert_eq!(tree("fn main { @ }"), Err("Unexpected Token (0:12)".to_string()));
    assert_eq!(tree("main { }"), Err("Unexpected Token (0:0)".to_string()));
    assert_eq!(tree("fn { }"), Err("Unexpected Token (0:3)".to_string()));
    assert_eq!(tree("fn f[a b] { }"), Err("Unexpected Token (0:7)".to_string()));
    assert_eq!(tree("fn f[1] { }"), Err("Unexpected Token (0:5)".to_string()));
    assert_eq!(tree("fn f {\n  (1 + 2;\n}"), Err("Unexpected Token (1:8)".to_string()));
    assert_eq!(tree("fn f {\n  g(1 2);\n}"), Err("Unexpected Token (1:6)".to_string()));
    assert_eq!(tree("fn f { 1 + ; }"), Err("Unexpected Token (0:11)".to_string()));
    assert_eq!(tree("fn f { else }"), Err("Unexpected Token (0:7)".to_string()));
}

#[test]
fn text_that_ends_early_fails_at_the_end_token() {
    assert_eq!(tree("fn f {"), Err("Unexpected Token (0:6)".to_string()));
    assert_eq!(tree("fn f"), Err("Unexpected Token (0:4)".to_string()));
    assert_eq!(tree("fn"), Err("Unexpected Token (0:2)".to_string()));
    assert_eq!(tree("fn f { 1"), Err("Unexpected Token (0:8)".to_string()));
}

#[test]
fn every_variable_refers_to_a_slot() {
    fn check(node: &Node, slots: usize) {
        match node {
            Node::Program { functions } => functions.iter().for_each(|f| check(f, 0)),
            Node::Function { variables, statement, .. } => check(statement, variables.len()),
            Node::Statement { node } | Node::Return { node } => check(node, slots),
            Node::Block { statements } => statements.iter().for_each(|s| check(s, slots)),
            Node::If { condition, true_case, false_case } => {
                check(condition, slots);
                check(true_case, slots);
                if let Some(f) = false_case.as_ref() {
                    check(f, slots);
                }
            },
            Node::For { init, condition, update, statement } => {
                for clause in [init, condition, update] {
                    if let Some(c) = clause.as_ref() {
                        check(c, slots);
                    }
                }
                check(statement, slots);
            },
            Node::While { condition, node } => {
                check(condition, slots);
                check(node, slots);
            },
            Node::Operator { lhs, rhs, .. } => {
                check(lhs, slots);
                check(rhs, slots);
            },
            Node::Variable { offset } => assert!(*offset < slots),
            Node::FuncCall { arguments, .. } => arguments.iter().for_each(|a| check(a, slots)),
            Node::Number { .. } => {},
        }
    }
    let src = "fn f[a, b] { c = a + b; for i = 0; i < c; i++; { d += i * (e - a); } d: }
               fn main { x = f(1, 2); if x > y { debug(x); } else { z <=> x; } }";
    check(&tree(src).unwrap(), 0);
}

#[test]
fn copy_of_a_tree_equals_it() {
    let got = tree("fn f[a] { if a { a += 1; } else { for ;;; { f(a, 2): } } while 0 { } }").unwrap();
    assert_eq!(got.clone(), got);
}
