//! An evaluator for block-structured configuration documents.
//!
//! A document is an ordered sequence of attributes (`key = expression`) and
//! nested, labelled blocks. Evaluation walks the document once, left to
//! right, resolving every attribute expression against exactly the variables
//! that are visible at that point in document order, and replaces each
//! expression in place by its evaluated value. Parsing the textual form and
//! evaluating individual expressions is delegated to the `hcl` crate; the
//! scope-resolution core in this crate is verified.

use vstd::prelude::*;

pub mod bridge;
pub mod document;
pub mod engine;
pub mod errors;
pub mod functions;
pub mod hcl_types;
pub mod laws;
pub mod scope;
pub mod value;

use crate::document::Document;
use crate::document::body_evaluated;
use crate::errors::Error;
use crate::engine::Engine;

verus! {

/// Evaluates a configuration document in one shot: a fresh engine with the
/// default function catalog parses the text and resolves every attribute
/// expression, in document order, against exactly the variables visible at
/// its position. On success every attribute of the result holds a literal
/// value.
pub fn parse(s: &str) -> (r: Result<Document, Error>)
    ensures
        r matches Ok(d) ==> body_evaluated(d@),
{
    let mut engine = Engine::new();
    engine.parse(s)
}

} // verus!
