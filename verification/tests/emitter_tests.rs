use compiler::compile::compile;
use compiler::llvm_generator::generate;
use compiler::llvm_generator::weigh;
use compiler::parser::node::binary_operator::BinaryOperator;
use compiler::parser::node::variable_type::VariableType;
use compiler::parser::node::Node;

const PRELUDE: &str = "declare i32 @printf(i8*, ...)\n\
@str = constant [4 x i8] c\"%d\\0A\\00\"\n\
define void @debug(i64 %n) {\n\
entry:\n  %0 = getelementptr [4 x i8], [4 x i8]* @str, i32 0, i32 0\n  call i32 (i8*, ...) @printf(i8* %0, i64 %n)\n  ret void\n\
}\n";

fn module(functions: &str) -> Result<String, String> {
    Ok(format!("{}{}", PRELUDE, functions))
}

fn num(n: i64) -> Node {
    Node::Number { num: n }
}

fn var(offset: usize) -> Node {
    Node::Variable { offset }
}

fn op(typ: BinaryOperator, lhs: Node, rhs: Node) -> Node {
    Node::Operator { typ, lhs: Box::new(lhs), rhs: Box::new(rhs) }
}

fn stmt(x: Node) -> Node {
    Node::Statement { node: Box::new(x) }
}

fn function(name: &str, args_num: usize, slots: usize, body: Node) -> Node {
    Node::Function {
        name: name.to_string(),
        args_num,
        variables: vec![VariableType::Int; slots],
        ret_type: VariableType::Int,
        statement: Box::new(body),
    }
}

fn main_of(slots: usize, body: Vec<Node>) -> Node {
    Node::Program { functions: vec![function("main", 0, slots, Node::Block { statements: body })] }
}

#[test]
fn empty_program_is_the_prelude() {
    assert_eq!(generate(Node::Program { functions: vec![] }), module(""));
    assert_eq!(compile(""), module(""));
}

#[test]
fn prelude_declares_printf_and_defines_debug() {
    let text = compile("").unwrap();
    assert!(text.starts_with("declare i32 @printf(i8*, ...)\n@str = constant [4 x i8] c\"%d\\0A\\00\"\n"));
    assert!(text.contains("define void @debug(i64 %n) {\nentry:\n"));
    assert!(text.ends_with("  ret void\n}\n"));
}

#[test]
fn function_without_parameters_and_body() {
    assert_eq!(compile("fn f { }"), module("define i64 @f() {\nentry:\n  ret i64 0\n}\n"));
}

#[test]
fn addition_takes_the_left_operand_first() {
    assert_eq!(
        compile("fn main { 1 + 2; }"),
        module(
            "define i64 @main() {\nentry:\n  %0 = add i64 2, 0\n  %1 = add i64 1, 0\n  %2 = add i64 %1, %0\n  ret i64 0\n}\n"
        )
    );
}

#[test]
fn every_arithmetic_operator_takes_the_left_operand_first() {
    let cases = [
        ("+", "add"),
        ("-", "sub"),
        ("*", "mul"),
        ("/", "sdiv"),
        ("%", "srem"),
        ("&", "and"),
        ("^", "xor"),
        ("|", "or"),
        ("<<", "shl"),
        (">>", "ashr"),
    ];
    for (spelling, name) in cases {
        let src = format!("fn main[a, b] {{ a {} b; }}", spelling);
        let expected = format!(
            "define i64 @main(i64 %arg0, i64 %arg1) {{\nentry:\n  %0 = alloca i64\n  store i64 %arg0, i64* %0\n  %1 = alloca i64\n  store i64 %arg1, i64* %1\n  %2 = load i64, i64* %1\n  %3 = load i64, i64* %0\n  %4 = {} i64 %3, %2\n  ret i64 0\n}}\n",
            name
        );
        assert_eq!(compile(&src), module(&expected));
    }
}

#[test]
fn comparison_is_widened() {
    let head = "define i64 @main(i64 %arg0, i64 %arg1) {\nentry:\n  %0 = alloca i64\n  store i64 %arg0, i64* %0\n  %1 = alloca i64\n  store i64 %arg1, i64* %1\n";
    assert_eq!(
        compile("fn main[a, b] { a < b; }"),
        module(&format!(
            "{}  %2 = load i64, i64* %1\n  %3 = load i64, i64* %0\n  %4 = icmp slt i64 %3, %2\n  %5 = zext i1 %4 to i64\n  ret i64 0\n}}\n",
            head
        ))
    );
    assert_eq!(
        compile("fn main[a, b] { a == b; }"),
        module(&format!(
            "{}  %2 = load i64, i64* %1\n  %3 = load i64, i64* %0\n  %4 = icmp eq i64 %3, %2\n  %5 = zext i1 %4 to i64\n  ret i64 0\n}}\n",
            head
        ))
    );
    assert_eq!(
        compile("fn main[a, b] { a > b; }"),
        module(&format!(
            "{}  %2 = load i64, i64* %0\n  %3 = load i64, i64* %1\n  %4 = icmp slt i64 %3, %2\n  %5 = zext i1 %4 to i64\n  ret i64 0\n}}\n",
            head
        ))
    );
}

#[test]
fn negative_literal() {
    assert_eq!(
        compile("fn main[a] { ~a; }"),
        module(
            "define i64 @main(i64 %arg0) {\nentry:\n  %0 = alloca i64\n  store i64 %arg0, i64* %0\n  %1 = load i64, i64* %0\n  %2 = add i64 -1, 0\n  %3 = xor i64 %2, %1\n  ret i64 0\n}\n"
        )
    );
    let least = main_of(0, vec![stmt(num(i64::MIN))]);
    assert_eq!(
        generate(least),
        module("define i64 @main() {\nentry:\n  %0 = add i64 -9223372036854775808, 0\n  ret i64 0\n}\n")
    );
}

#[test]
fn call_resolves_by_name_and_argument_count() {
    let f = "define i64 @f(i64 %arg0, i64 %arg1) {\nentry:\n  %0 = alloca i64\n  store i64 %arg0, i64* %0\n  %1 = alloca i64\n  store i64 %arg1, i64* %1\n  %2 = load i64, i64* %1\n  %3 = load i64, i64* %0\n  %4 = add i64 %3, %2\n  ret i64 0\n}\n";
    let main = "define i64 @main() {\nentry:\n  %0 = add i64 2, 0\n  %1 = add i64 3, 0\n  %2 = call i64 @f(i64 %0, i64 %1)\n  ret i64 0\n}\n";
    assert_eq!(
        compile("fn f[a,b] { a + b; }\nfn main { f(2,3); }"),
        module(&format!("{}{}", f, main))
    );
}

#[test]
fn call_may_come_before_the_definition() {
    let text = compile("fn main { f(): } fn f { 1: }").unwrap();
    assert!(text.contains("  %0 = call i64 @f()\n  ret i64 %0\n"));
}

#[test]
fn debug_has_no_result() {
    assert_eq!(
        compile("fn main { debug(7); }"),
        module(
            "define i64 @main() {\nentry:\n  %0 = add i64 7, 0\n  call void @debug(i64 %0)\n  %1 = alloca i64\n  store i64 0, i64* %1  ret i64 0\n}\n"
        )
    );
}

#[test]
fn for_loop_counts() {
    let expected = "define i64 @main() {\nentry:\n  %0 = alloca i64\n  store i64 0, i64* %0\n  \
%1 = add i64 0, 0\n  store i64 %1, i64* %0\n  %2 = load i64, i64* %0\n  \
br label %begin0\nbegin0:\n  \
%3 = add i64 10, 0\n  %4 = load i64, i64* %0\n  %5 = icmp slt i64 %4, %3\n  %6 = zext i1 %5 to i64\n  \
%7 = icmp ne i64 %6, 0\n  br i1 %7, label %then0, label %end0\nthen0:\n  \
%8 = load i64, i64* %0\n  \
%9 = add i64 1, 0\n  %10 = load i64, i64* %0\n  %11 = add i64 %10, %9\n  store i64 %11, i64* %0\n  %12 = load i64, i64* %0\n  \
br label %begin0\nend0:\n  ret i64 0\n}\n";
    assert_eq!(compile("fn main { x = 0; for ; x < 10; x++; { x; } }"), module(expected));
}

#[test]
fn for_loop_without_condition_never_leaves() {
    assert_eq!(
        compile("fn main { for ;;; { } }"),
        module(
            "define i64 @main() {\nentry:\n  br label %begin0\nbegin0:\n  br label %then0\nthen0:\n  br label %begin0\nend0:\n  ret i64 0\n}\n"
        )
    );
}

#[test]
fn while_loop_tests_at_the_head() {
    assert_eq!(
        compile("fn main { while 0 { } }"),
        module(
            "define i64 @main() {\nentry:\n  br label %begin0\nbegin0:\n  %0 = add i64 0, 0\n  %1 = icmp ne i64 %0, 0\n  br i1 %1, label %then0, label %end0\nthen0:\n  br label %begin0\nend0:  ret i64 0\n}\n"
        )
    );
}

#[test]
fn conditional_joins_at_the_end() {
    assert_eq!(
        compile("fn main { if 1 { 2; } else { 3; } }"),
        module(
            "define i64 @main() {\nentry:\n  %0 = add i64 1, 0\n  %1 = icmp ne i64 %0, 0\n  br i1 %1, label %then0, label %else0\nthen0:\n  %2 = add i64 2, 0\n  br label %end0\nelse0:\n  %3 = add i64 3, 0\n  br label %end0\nend0:\n  ret i64 0\n}\n"
        )
    );
    assert_eq!(
        compile("fn main { if 1 { } }"),
        module(
            "define i64 @main() {\nentry:\n  %0 = add i64 1, 0\n  %1 = icmp ne i64 %0, 0\n  br i1 %1, label %then0, label %else0\nthen0:\n  br label %end0\nelse0:\n  br label %end0\nend0:\n  ret i64 0\n}\n"
        )
    );
}

#[test]
fn labels_are_numbered_in_order() {
    let text = compile("fn main { if 1 { while 2 { } } for ;;; { } }").unwrap();
    assert!(text.contains("then0:\n  br label %begin1\nbegin1:\n"));
    assert!(text.contains("begin2:\n  br label %then2\n"));
}

#[test]
fn each_function_counts_from_zero() {
    let text = compile("fn f { if 1 { } } fn g { if 2 { } }").unwrap();
    assert!(text.contains("define i64 @f() {\nentry:\n  %0 = add i64 1, 0\n  %1 = icmp ne i64 %0, 0\n  br i1 %1, label %then0, label %else0\n"));
    assert!(text.contains("define i64 @g() {\nentry:\n  %0 = add i64 2, 0\n  %1 = icmp ne i64 %0, 0\n  br i1 %1, label %then0, label %else0\n"));
}

#[test]
fn exchange_stores_crosswise() {
    let expected = "define i64 @main() {\nentry:\n  %0 = alloca i64\n  store i64 0, i64* %0\n  %1 = alloca i64\n  store i64 0, i64* %1\n  \
%2 = add i64 5, 0\n  store i64 %2, i64* %0\n  %3 = load i64, i64* %0\n  \
%4 = add i64 3, 0\n  store i64 %4, i64* %1\n  %5 = load i64, i64* %1\n  \
%6 = load i64, i64* %0\n  %7 = load i64, i64* %1\n  store i64 %6, i64* %1\n  store i64 %7, i64* %0\n  %8 = load i64, i64* %0\n  \
ret i64 0\n}\n";
    assert_eq!(compile("fn main { a = 5; b = 3; a <=> b; }"), module(expected));
}

#[test]
fn change_to_the_smaller_stores_where_greater() {
    let expected = "define i64 @min3(i64 %arg0, i64 %arg1, i64 %arg2) {\nentry:\n  \
%0 = alloca i64\n  store i64 %arg0, i64* %0\n  %1 = alloca i64\n  store i64 %arg1, i64* %1\n  %2 = alloca i64\n  store i64 %arg2, i64* %2\n  \
%3 = load i64, i64* %1\n  %4 = load i64, i64* %0\n  %5 = icmp sgt i64 %4, %3\n  br i1 %5, label %then0, label %end0\nthen0:\n  store i64 %3, i64* %0\n  br label %end0\nend0:\n  %6 = load i64, i64* %0\n  \
%7 = load i64, i64* %2\n  %8 = load i64, i64* %0\n  %9 = icmp sgt i64 %8, %7\n  br i1 %9, label %then1, label %end1\nthen1:\n  store i64 %7, i64* %0\n  br label %end1\nend1:\n  %10 = load i64, i64* %0\n  \
%11 = load i64, i64* %0\n  ret i64 0\n}\n";
    assert_eq!(compile("fn min3[a,b,c] { a <= b; a <= c; a; }"), module(expected));
}

#[test]
fn change_to_the_larger_stores_where_less() {
    let text = compile("fn f[a,b] { a >= b; }").unwrap();
    assert!(text.contains("  %2 = load i64, i64* %1\n  %3 = load i64, i64* %0\n  %4 = icmp slt i64 %3, %2\n  br i1 %4, label %then0, label %end0\nthen0:\n  store i64 %2, i64* %0\n"));
}

#[test]
fn return_gives_the_value() {
    assert_eq!(
        compile("fn f { 7: }"),
        module("define i64 @f() {\nentry:\n  %0 = add i64 7, 0\n  ret i64 %0\n  ret i64 0\n}\n")
    );
    let text = compile("fn f { 7: 8: }").unwrap();
    assert!(text.contains("  %0 = add i64 7, 0\n  ret i64 %0\n  %2 = add i64 8, 0\n  ret i64 %2\n"));
}

#[test]
fn parameter_and_result_types_are_named() {
    let node = Node::Program {
        functions: vec![Node::Function {
            name: "g".to_string(),
            args_num: 1,
            variables: vec![VariableType::Float, VariableType::Int],
            ret_type: VariableType::Void,
            statement: Box::new(Node::Block { statements: vec![] }),
        }],
    };
    assert_eq!(
        generate(node),
        module(
            "define void @g(double %arg0) {\nentry:\n  %0 = alloca double\n  store double %arg0, double* %0\n  %1 = alloca i64\n  store i64 0, i64* %1\n  ret void\n}\n"
        )
    );
    assert_eq!(VariableType::Int.str(), "i64");
    assert_eq!(VariableType::Float.str(), "double");
    assert_eq!(VariableType::Void.str(), "void");
}

#[test]
fn same_tree_gives_the_same_text() {
    let src = "fn f[a] { for i = 0; i < a; i++; { debug(i); } a: } fn main { f(3); }";
    let first = compile(src).unwrap();
    let second = compile(src).unwrap();
    assert_eq!(first, second);
    let tree = compiler::parser::parse(compiler::tokenizer::tokenize(src).unwrap()).unwrap();
    assert_eq!(generate(tree.clone()).unwrap(), first);
    assert_eq!(generate(tree).unwrap(), first);
}

#[test]
fn root_that_is_no_program() {
    assert_eq!(generate(num(1)), Err("Not a program".to_string()));
    assert_eq!(
        generate(function("f", 0, 0, Node::Block { statements: vec![] })),
        Err("Not a program".to_string())
    );
}

#[test]
fn member_that_is_no_function() {
    let node = Node::Program { functions: vec![stmt(num(1))] };
    assert_eq!(generate(node), Err("Not a function".to_string()));
}

#[test]
fn target_that_is_no_variable() {
    assert_eq!(compile("fn main { 1 = 2; }"), Err("Not a variable".to_string()));
    assert_eq!(compile("fn main { a + 1 <= 2; }"), Err("Not a variable".to_string()));
    assert_eq!(compile("fn main { a >= 2 >= a; }"), Err("Not a variable".to_string()));
    assert_eq!(compile("fn main { a <=> 2; }"), Err("Not a variable".to_string()));
    assert_eq!(compile("fn main { 2 <=> a; }"), Err("Not a variable".to_string()));
    assert_eq!(compile("fn main { (a + 1) += 2; }"), Err("Not a variable".to_string()));
}

#[test]
fn call_of_an_unknown_function() {
    assert_eq!(compile("fn main { f(); }"), Err("Function not found".to_string()));
    assert_eq!(compile("fn f[a] { } fn main { f(); }"), Err("Function not found".to_string()));
    assert_eq!(compile("fn main { debug(); }"), Err("Function not found".to_string()));
    assert_eq!(compile("fn main { debug(1, 2); }"), Err("Function not found".to_string()));
}

#[test]
fn value_left_at_the_end_of_a_function() {
    let node = Node::Program { functions: vec![function("f", 0, 0, num(1))] };
    assert_eq!(generate(node), Err("Stack not empty".to_string()));
}

#[test]
fn shapes_that_no_source_text_gives() {
    let nested = Node::Program {
        functions: vec![function("f", 0, 0, Node::Program { functions: vec![] })],
    };
    assert_eq!(generate(nested), Err("Error".to_string()));
    let no_value = main_of(0, vec![stmt(Node::Block { statements: vec![] })]);
    assert_eq!(generate(no_value), Err("Error".to_string()));
    let no_slot = main_of(1, vec![stmt(var(1))]);
    assert_eq!(generate(no_slot), Err("Error".to_string()));
    let many_parameters = Node::Program {
        functions: vec![Node::Function {
            name: "f".to_string(),
            args_num: 2,
            variables: vec![VariableType::Int],
            ret_type: VariableType::Int,
            statement: Box::new(Node::Block { statements: vec![] }),
        }],
    };
    assert_eq!(generate(many_parameters), Err("Error".to_string()));
    let target_without_slot = main_of(0, vec![stmt(op(BinaryOperator::Assign, var(0), num(1)))]);
    assert_eq!(generate(target_without_slot), Err("Error".to_string()));
}

#[test]
fn power_and_root_write_nothing() {
    assert_eq!(compile("fn main { 2 ** 3; }"), Err("Error".to_string()));
    assert_eq!(compile("fn main { 2 // 3; }"), Err("Error".to_string()));
    let node = Node::Program {
        functions: vec![function("f", 0, 0, op(BinaryOperator::Power, num(2), num(3)))],
    };
    assert_eq!(generate(node), module("define i64 @f() {\nentry:\n  ret i64 0\n}\n"));
}

#[test]
fn first_error_in_source_order_is_reported() {
    assert_eq!(compile("fn main { f(); 1 = 2; }"), Err("Function not found".to_string()));
    assert_eq!(compile("fn main { 1 = 2; f(); }"), Err("Not a variable".to_string()));
}

#[test]
fn weight_counts_three_for_each_node_and_one_for_each_slot() {
    assert_eq!(weigh(&num(1)), Some(3));
    assert_eq!(weigh(&op(BinaryOperator::Add, num(1), var(0))), Some(9));
    assert_eq!(weigh(&Node::Program { functions: vec![] }), Some(3));
    let tree = compiler::parser::parse(
        compiler::tokenizer::tokenize("fn f[a, b] { c = a; if b { } }").unwrap(),
    )
    .unwrap();
    assert_eq!(weigh(&tree), Some(3 + (3 + 3) + 3 + (3 + 9) + (3 + 3 + 3)));
}
