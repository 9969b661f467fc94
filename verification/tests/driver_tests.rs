use compiler::compile::compile;
use compiler::compile::report;
use compiler::env_args::check_args;
use compiler::env_args::check_len;
use compiler::text::push_i64;
use compiler::text::push_u64;
use compiler::text::push_usize;

fn words(list: &[&str]) -> Vec<String> {
    list.iter().map(|w| w.to_string()).collect()
}

#[test]
fn two_arguments_are_wanted() {
    assert_eq!(check_args(&words(&[]), true), Some("One argument required.".to_string()));
    assert_eq!(check_args(&words(&["prog"]), true), Some("One argument required.".to_string()));
    assert_eq!(
        check_args(&words(&["prog", "in.src"]), true),
        Some("One argument required.".to_string())
    );
    assert_eq!(check_args(&words(&["prog", "in.src", "out.ll"]), true), None);
    assert_eq!(check_args(&words(&["prog", "in.src", "out.ll", "more"]), true), None);
}

#[test]
fn source_file_is_wanted() {
    assert_eq!(
        check_args(&words(&["prog", "in.src", "out.ll"]), false),
        Some("Wrong with source path.".to_string())
    );
    assert_eq!(
        check_args(&words(&["prog", "in.src"]), false),
        Some("One argument required.".to_string())
    );
}

#[test]
fn length_of_the_command_line() {
    assert!(!check_len(&words(&["prog", "in.src"])));
    assert!(check_len(&words(&["prog", "in.src", "out.ll"])));
}

#[test]
fn outcome_is_printed_as_text_or_as_error() {
    assert_eq!(report(Ok("define\n".to_string())), "define\n");
    assert_eq!(report(Err("Not a program".to_string())), "Error occurred: Not a program");
}

#[test]
fn at_sign_fails_in_the_parser() {
    assert_eq!(compile("fn main { @ }"), Err("Unexpected Token (0:12)".to_string()));
    assert_eq!(report(compile("fn main { @ }")), "Error occurred: Unexpected Token (0:12)");
}

#[test]
fn each_stage_reports_its_own_error() {
    assert_eq!(compile("fn main { 99999999999999999999; }"), Err("Undefined Token(0:10)".to_string()));
    assert_eq!(compile("fn main { 1 + }"), Err("Unexpected Token (0:14)".to_string()));
    assert_eq!(compile("fn main { f(1); }"), Err("Function not found".to_string()));
}

#[test]
fn decimal_numerals() {
    let mut text = String::from("n=");
    push_usize(&mut text, 0);
    text.push(',');
    push_usize(&mut text, 9);
    text.push(',');
    push_usize(&mut text, 10);
    text.push(',');
    push_usize(&mut text, 1234567890);
    text.push(',');
    push_u64(&mut text, u64::MAX);
    assert_eq!(text, "n=0,9,10,1234567890,18446744073709551615");
}

#[test]
fn signed_decimal_numerals() {
    let mut text = String::new();
    push_i64(&mut text, 0);
    text.push(' ');
    push_i64(&mut text, -1);
    text.push(' ');
    push_i64(&mut text, 42);
    text.push(' ');
    push_i64(&mut text, i64::MAX);
    text.push(' ');
    push_i64(&mut text, i64::MIN);
    assert_eq!(text, "0 -1 42 9223372036854775807 -9223372036854775808");
}
