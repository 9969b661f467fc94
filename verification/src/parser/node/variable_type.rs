//! The value types of the language, as the emitter names them.

use vstd::prelude::*;
use vstd::string::*;

verus! {

/// The type of a slot or of a function's result.
#[derive(Debug, Clone, Copy, PartialEq, Eq, Structural)]
pub enum VariableType {
    Int,
    Float,
    Void,
}

/// The name of type `t` in the emitted text.
pub open spec fn type_text(t: VariableType) -> Seq<char> {
    match t {
        VariableType::Int => "i64"@,
        VariableType::Float => "double"@,
        VariableType::Void => "void"@,
    }
}

impl VariableType {
    /// The name of this type in the emitted text.
    pub fn str(&self) -> (r: String)
        ensures
            r@ == type_text(*self),
    {
        match self {
            VariableType::Int => String::from_str("i64"),
            VariableType::Float => String::from_str("double"),
            VariableType::Void => String::from_str("void"),
        }
    }
}

} // verus!
