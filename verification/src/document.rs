//! The document model: ordered attributes and nested, labelled blocks.
//!
//! A parsed document is a sequence of structures. An attribute's expression
//! is either still unevaluated — an opaque `hcl::Expression` destined for the
//! external expression evaluator — or already a literal [`Val`]. Evaluation
//! rewrites every attribute to the literal form, in place.

use vstd::prelude::*;

use crate::value::SpecValue;
use crate::value::Val;
use crate::value::view_value;

verus! {

/// Declares hcl's expression type so documents can carry unevaluated
/// expressions through to the external evaluator without inspecting them.
#[verifier::external_type_specification]
#[verifier::external_body]
pub struct ExExpression(hcl::expr::Expression);

/// An attribute's right-hand side.
#[derive(Debug, PartialEq)]
pub enum Expr {
    /// A literal, already-evaluated value.
    Lit(Val),
    /// An expression the external evaluator has yet to resolve.
    Unevaluated(hcl::expr::Expression),
}

/// A `key = expression` pair.
#[derive(Debug, PartialEq)]
pub struct Attribute {
    pub key: String,
    pub expr: Expr,
}

/// A named, labelled block holding a nested document.
#[derive(Debug, PartialEq)]
pub struct Block {
    pub identifier: String,
    pub labels: Vec<String>,
    pub body: Document,
}

/// One element of a document body, in document order.
#[derive(Debug, PartialEq)]
pub enum Structure {
    Attribute(Attribute),
    Block(Block),
}

/// An ordered sequence of structures.
#[derive(Debug, PartialEq)]
pub struct Document(pub Vec<Structure>);

/// Mathematical shape of an [`Expr`].
pub enum SpecExpr {
    Lit(SpecValue),
    Unevaluated(hcl::expr::Expression),
}

/// Mathematical shape of an [`Attribute`].
pub struct SpecAttribute {
    pub key: Seq<char>,
    pub expr: SpecExpr,
}

/// Mathematical shape of a [`Block`].
pub struct SpecBlock {
    pub identifier: Seq<char>,
    pub labels: Seq<Seq<char>>,
    pub body: Seq<SpecStructure>,
}

/// Mathematical shape of a [`Structure`].
pub enum SpecStructure {
    Attribute(SpecAttribute),
    Block(SpecBlock),
}

pub open spec fn view_expr(e: Expr) -> SpecExpr {
    match e {
        Expr::Lit(v) => SpecExpr::Lit(view_value(v)),
        Expr::Unevaluated(raw) => SpecExpr::Unevaluated(raw),
    }
}

pub open spec fn view_structure(s: Structure) -> SpecStructure
    decreases s,
{
    match s {
        Structure::Attribute(a) => SpecStructure::Attribute(
            SpecAttribute { key: a.key@, expr: view_expr(a.expr) },
        ),
        Structure::Block(b) => SpecStructure::Block(
            SpecBlock {
                identifier: b.identifier@,
                labels: b.labels.deep_view(),
                body: view_structures(b.body.0@),
            },
        ),
    }
}

pub open spec fn view_structures(ss: Seq<Structure>) -> Seq<SpecStructure>
    decreases ss,
{
    if ss.len() == 0 {
        Seq::empty()
    } else {
        view_structures(ss.drop_last()).push(view_structure(ss.last()))
    }
}

impl View for Expr {
    type V = SpecExpr;

    open spec fn view(&self) -> SpecExpr {
        view_expr(*self)
    }
}

impl View for Structure {
    type V = SpecStructure;

    open spec fn view(&self) -> SpecStructure {
        view_structure(*self)
    }
}

impl View for Document {
    type V = Seq<SpecStructure>;

    open spec fn view(&self) -> Seq<SpecStructure> {
        view_structures(self.0@)
    }
}

pub proof fn lemma_view_structures_len(ss: Seq<Structure>)
    ensures
        view_structures(ss).len() == ss.len(),
    decreases ss,
{
    if ss.len() > 0 {
        lemma_view_structures_len(ss.drop_last());
    }
}

/// `view_structures` maps the sequence pointwise.
pub proof fn lemma_view_structures_index(ss: Seq<Structure>, i: int)
    requires
        0 <= i < ss.len(),
    ensures
        view_structures(ss).len() == ss.len(),
        view_structures(ss)[i] == view_structure(ss[i]),
    decreases ss,
{
    if ss.len() > 0 {
        if i < ss.len() - 1 {
            lemma_view_structures_index(ss.drop_last(), i);
        } else {
            lemma_view_structures_len(ss.drop_last());
        }
    }
}

/// The scope path a block opens: its identifier followed by its labels.
pub open spec fn spec_block_path(b: SpecBlock) -> Seq<Seq<char>> {
    seq![b.identifier] + b.labels
}

/// Every attribute of the structure holds a literal value.
pub open spec fn structure_evaluated(s: SpecStructure) -> bool
    decreases s,
{
    match s {
        SpecStructure::Attribute(a) => a.expr is Lit,
        SpecStructure::Block(b) => body_evaluated(b.body),
    }
}

/// Every attribute anywhere in the body holds a literal value.
pub open spec fn body_evaluated(ss: Seq<SpecStructure>) -> bool
    decreases ss,
{
    if ss.len() == 0 {
        true
    } else {
        body_evaluated(ss.drop_last()) && structure_evaluated(ss.last())
    }
}

pub proof fn lemma_body_evaluated_index(ss: Seq<SpecStructure>)
    ensures
        body_evaluated(ss) <==> (forall|i: int|
            0 <= i < ss.len() ==> structure_evaluated(#[trigger] ss[i])),
    decreases ss,
{
    if ss.len() > 0 {
        lemma_body_evaluated_index(ss.drop_last());
        if forall|i: int| 0 <= i < ss.len() ==> structure_evaluated(#[trigger] ss[i]) {
            assert forall|i: int| 0 <= i < ss.len() - 1 implies structure_evaluated(
                #[trigger] ss.drop_last()[i],
            ) by {
                assert(ss.drop_last()[i] == ss[i]);
            }
        } else {
            if body_evaluated(ss) {
                assert forall|i: int| 0 <= i < ss.len() implies structure_evaluated(
                    #[trigger] ss[i],
                ) by {
                    if i < ss.len() - 1 {
                        assert(ss[i] == ss.drop_last()[i]);
                    }
                }
            }
        }
    }
}

} // verus!
