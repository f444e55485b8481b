//! Error kinds. Every error aborts the walk that raised it; there is no
//! recovery and no partial success.

use vstd::prelude::*;

verus! {

/// An error from evaluating a document.
#[derive(Debug, PartialEq)]
pub enum Error {
    /// The parser rejected the text.
    Syntax(String),
    /// An expression could not be evaluated: an unknown variable, a type
    /// mismatch, a failing function call.
    Eval(String),
}

/// An error from calling a builtin function directly.
#[derive(Debug, PartialEq)]
pub enum FnError {
    /// No function of that name is registered.
    Unknown(String),
    /// Wrong number of arguments, or an argument of the wrong declared type,
    /// found before the implementation ran.
    Arg(String),
    /// The implementation itself failed on its input.
    Runtime(String),
}

} // verus!
