//! The check of the command line.

use vstd::prelude::*;
use vstd::string::*;

verus! {

/// What is wrong with a command line of `count` words, the program's name
/// among them, whose second word names a source file that was found or not:
/// nothing where two arguments follow the name and the file was found.
pub open spec fn complaint(count: nat, source_found: bool) -> Option<Seq<char>> {
    if count < 3 {
        Some("One argument required."@)
    } else if !source_found {
        Some("Wrong with source path."@)
    } else {
        None
    }
}

/// Checks the command line `args`. The caller says in `source_found`
/// whether the file that `args[1]` names exists; it is not looked at where
/// arguments are missing.
pub fn check_args(args: &Vec<String>, source_found: bool) -> (r: Option<String>)
    ensures
        match complaint(args@.len(), source_found) {
            Some(text) => r matches Some(m) && m@ == text,
            None => r is None,
        },
{
    if !check_len(args) {
        return Some(String::from_str("One argument required."));
    }
    if !source_found {
        return Some(String::from_str("Wrong with source path."));
    }
    None
}

/// Whether two arguments follow the program's name.
pub fn check_len(args: &Vec<String>) -> (r: bool)
    ensures
        r == (args@.len() >= 3),
{
    args.len() >= 3
}

} // verus!
