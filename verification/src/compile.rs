//! The three stages in a row: source text to tokens, tokens to tree, tree
//! to module text.

use vstd::prelude::*;
use vstd::string::*;
use crate::llvm_generator::{generate, weigh};
use crate::llvm_generator::laws::{is_source_error, lemma_program_errors, power_free};
use crate::llvm_generator::model::{EmitError, module_text, weight};
use crate::parser::parse;
use crate::parser::grammar::{parse_program, unexpected_message};
use crate::parser::laws::lemma_program;
use crate::parser::node::Ast;
use crate::parser::scope::{is_program, well_scoped};
use crate::tokenizer::tokenize;
use crate::tokenizer::lexicon::{lemma_token_spans, tokens_of, undefined_message};

verus! {

/// The module text for the source text `s`, or the message of the first
/// stage that fails. A tree whose weight does not fit a machine word is
/// reported as one that cannot be written.
pub open spec fn compiled(s: Seq<char>) -> Result<Seq<char>, Seq<char>> {
    match tokens_of(s) {
        Err(place) => Err(undefined_message(place)),
        Ok(tokens) => match parse_program(tokens) {
            Err(place) => Err(unexpected_message(place)),
            Ok(program) => if weight(program) > usize::MAX {
                Err(EmitError::Malformed.message())
            } else {
                match module_text(program) {
                    Ok(code) => Ok(code),
                    Err(e) => Err(e.message()),
                }
            },
        },
    }
}

/// The tree that is read from the source text `s`, where the tokenizer and
/// the parser accept it.
pub open spec fn parsed(s: Seq<char>) -> Option<Ast> {
    match tokens_of(s) {
        Err(_) => None,
        Ok(tokens) => match parse_program(tokens) {
            Err(_) => None,
            Ok(program) => Some(program),
        },
    }
}

/// What is read from a source text is a program of the grammar in which
/// every variable has a slot. Where no power and no root operator stands in
/// it, the emitter writes it or fails for one of two reasons: a target that
/// is no variable, or a call that names no declared function.
pub proof fn lemma_source_errors(s: Seq<char>)
    ensures
        parsed(s) matches Some(program) ==> is_program(program) && well_scoped(program),
        parsed(s) matches Some(program) ==> power_free(program) ==> (module_text(
            program,
        ) matches Err(e) ==> is_source_error(e)),
{
    if let Ok(tokens) = tokens_of(s) {
        lemma_token_spans(s, 0, 0, 0);
        lemma_program(tokens);
        if let Ok(program) = parse_program(tokens) {
            if power_free(program) {
                lemma_program_errors(program);
            }
        }
    }
}

/// Compiles the source text `src` to the text of an LLVM IR module.
pub fn compile(src: &str) -> (res: Result<String, String>)
    ensures
        match compiled(src@) {
            Ok(code) => res matches Ok(text) && text@ == code,
            Err(message) => res matches Err(m) && m@ == message,
        },
{
    let tokens = tokenize(src)?;
    let program = parse(tokens)?;
    if weigh(&program).is_none() {
        return Err(String::from_str("Error"));
    }
    generate(program)
}

/// What is printed for an outcome: the module text, or the message behind
/// `Error occurred: `.
pub open spec fn reported(outcome: Result<Seq<char>, Seq<char>>) -> Seq<char> {
    match outcome {
        Ok(code) => code,
        Err(message) => "Error occurred: "@ + message,
    }
}

/// The text to print for `outcome`.
pub fn report(outcome: Result<String, String>) -> (r: String)
    ensures
        r@ == reported(
            match outcome {
                Ok(code) => Ok(code@),
                Err(message) => Err(message@),
            },
        ),
{
    match outcome {
        Ok(code) => code,
        Err(message) => {
            let mut text = String::from_str("Error occurred: ");
            text.append(message.as_str());
            text
        },
    }
}

} // verus!
