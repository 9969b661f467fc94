//! A small ahead-of-time compiler from a C-like language over 64-bit signed
//! integers to textual LLVM IR: a tokenizer, a recursive-descent parser and
//! an emitter, each stated against a mathematical model and proved.

pub mod compile;
pub mod env_args;
pub mod text;
pub mod parser;
pub mod llvm_generator;
pub mod tokenizer;
