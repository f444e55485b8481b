//! The value model shared by documents, the scope tree and builtin
//! functions.
//!
//! A [`Val`] is the result of evaluating an attribute expression. Numbers
//! are carried as `hcl::Number` payloads: the evaluator never computes with
//! them, it only moves them, so they stay opaque to verification.

use vstd::prelude::*;

verus! {

/// Declares hcl's number type so values can carry numbers through
/// evaluation without inspecting them.
#[verifier::external_type_specification]
#[verifier::external_body]
pub struct ExNumber(hcl::Number);

/// Relies on hcl::Number's derived `Clone` on a `Copy` type: the clone is the
/// same value.
pub assume_specification[ <hcl::Number as Clone>::clone ](n: &hcl::Number) -> (r: hcl::Number)
    ensures
        r == *n,
;

/// An evaluated configuration value.
#[derive(Debug, PartialEq)]
pub enum Val {
    /// The null value.
    Null,
    /// A boolean.
    Bool(bool),
    /// A number, integer or not; opaque to the evaluator.
    Num(hcl::Number),
    /// A string.
    Str(String),
    /// An array of values.
    Arr(Vec<Val>),
    /// An object: ordered key/value pairs.
    Obj(Vec<(String, Val)>),
}

/// The mathematical shape of a [`Val`]: strings become character
/// sequences, vectors become sequences.
pub enum SpecValue {
    Null,
    Bool(bool),
    Num(hcl::Number),
    Str(Seq<char>),
    Arr(Seq<SpecValue>),
    Obj(Seq<(Seq<char>, SpecValue)>),
}

pub open spec fn view_value(v: Val) -> SpecValue
    decreases v,
{
    match v {
        Val::Null => SpecValue::Null,
        Val::Bool(b) => SpecValue::Bool(b),
        Val::Num(n) => SpecValue::Num(n),
        Val::Str(s) => SpecValue::Str(s@),
        Val::Arr(items) => SpecValue::Arr(view_values(items@)),
        Val::Obj(pairs) => SpecValue::Obj(view_pairs(pairs@)),
    }
}

pub open spec fn view_values(items: Seq<Val>) -> Seq<SpecValue>
    decreases items,
{
    if items.len() == 0 {
        Seq::empty()
    } else {
        view_values(items.drop_last()).push(view_value(items.last()))
    }
}

pub open spec fn view_pairs(pairs: Seq<(String, Val)>) -> Seq<(Seq<char>, SpecValue)>
    decreases pairs,
{
    if pairs.len() == 0 {
        Seq::empty()
    } else {
        view_pairs(pairs.drop_last()).push((pairs.last().0@, view_value(pairs.last().1)))
    }
}

impl View for Val {
    type V = SpecValue;

    open spec fn view(&self) -> SpecValue {
        view_value(*self)
    }
}

/// `view_values` maps the sequence pointwise.
pub proof fn lemma_view_values_index(items: Seq<Val>, i: int)
    requires
        0 <= i < items.len(),
    ensures
        view_values(items).len() == items.len(),
        view_values(items)[i] == view_value(items[i]),
    decreases items,
{
    if items.len() > 0 {
        if i < items.len() - 1 {
            lemma_view_values_index(items.drop_last(), i);
        } else {
            lemma_view_values_len(items.drop_last());
        }
    }
}

pub proof fn lemma_view_values_len(items: Seq<Val>)
    ensures
        view_values(items).len() == items.len(),
    decreases items,
{
    if items.len() > 0 {
        lemma_view_values_len(items.drop_last());
    }
}

pub proof fn lemma_view_pairs_index(pairs: Seq<(String, Val)>, i: int)
    requires
        0 <= i < pairs.len(),
    ensures
        view_pairs(pairs).len() == pairs.len(),
        view_pairs(pairs)[i] == (pairs[i].0@, view_value(pairs[i].1)),
    decreases pairs,
{
    if pairs.len() > 0 {
        if i < pairs.len() - 1 {
            lemma_view_pairs_index(pairs.drop_last(), i);
        } else {
            lemma_view_pairs_len(pairs.drop_last());
        }
    }
}

pub proof fn lemma_view_pairs_len(pairs: Seq<(String, Val)>)
    ensures
        view_pairs(pairs).len() == pairs.len(),
    decreases pairs,
{
    if pairs.len() > 0 {
        lemma_view_pairs_len(pairs.drop_last());
    }
}

/// A structural copy of a value; the copy has the same view.
pub fn clone_value(v: &Val) -> (r: Val)
    ensures
        r@ == v@,
    decreases v,
{
    match v {
        Val::Null => Val::Null,
        Val::Bool(b) => Val::Bool(*b),
        Val::Num(n) => Val::Num(*n),
        Val::Str(s) => Val::Str(s.clone()),
        Val::Arr(items) => {
            proof {
                assert(decreases_to!(*v => (*v)->Arr_0));
            }
            Val::Arr(clone_values(items))
        },
        Val::Obj(pairs) => {
            proof {
                assert(decreases_to!(*v => (*v)->Obj_0));
            }
            Val::Obj(clone_pairs(pairs))
        },
    }
}

/// Clones each element; the views match pointwise.
fn clone_values(items: &Vec<Val>) -> (r: Vec<Val>)
    ensures
        view_values(r@) == view_values(items@),
    decreases items,
{
    let mut out: Vec<Val> = Vec::new();
    let mut i: usize = 0;
    while i < items.len()
        invariant
            i <= items.len(),
            out@.len() == i,
            forall|j: int| 0 <= j < i ==> view_value(#[trigger] out@[j]) == view_value(
                items@[j],
            ),
        decreases items.len() - i,
    {
        proof {
            assert(decreases_to!(*items => items@));
            assert(decreases_to!(items@ => items@[i as int]));
        }
        out.push(clone_value(&items[i]));
        i = i + 1;
    }
    proof {
        assert forall|j: int| 0 <= j < items@.len() implies view_values(out@)[j] == view_values(
            items@,
        )[j] by {
            lemma_view_values_index(out@, j);
            lemma_view_values_index(items@, j);
        }
        lemma_view_values_len(out@);
        lemma_view_values_len(items@);
        assert(view_values(out@) =~= view_values(items@));
    }
    out
}

/// Clones each key/value pair; the views match pointwise.
fn clone_pairs(pairs: &Vec<(String, Val)>) -> (r: Vec<(String, Val)>)
    ensures
        view_pairs(r@) == view_pairs(pairs@),
    decreases pairs,
{
    let mut out: Vec<(String, Val)> = Vec::new();
    let mut i: usize = 0;
    while i < pairs.len()
        invariant
            i <= pairs.len(),
            out@.len() == i,
            forall|j: int| 0 <= j < i ==> (#[trigger] out@[j]).0@ == pairs@[j].0@ && view_value(
                out@[j].1,
            ) == view_value(pairs@[j].1),
        decreases pairs.len() - i,
    {
        proof {
            assert(decreases_to!(*pairs => pairs@));
            assert(decreases_to!(pairs@ => pairs@[i as int]));
            assert(decreases_to!(pairs@[i as int] => pairs@[i as int].1));
        }
        let (k, pv) = &pairs[i];
        out.push((k.clone(), clone_value(pv)));
        i = i + 1;
    }
    proof {
        assert forall|j: int| 0 <= j < pairs@.len() implies view_pairs(out@)[j] == view_pairs(
            pairs@,
        )[j] by {
            lemma_view_pairs_index(out@, j);
            lemma_view_pairs_index(pairs@, j);
        }
        lemma_view_pairs_len(out@);
        lemma_view_pairs_len(pairs@);
        assert(view_pairs(out@) =~= view_pairs(pairs@));
    }
    out
}

} // verus!

