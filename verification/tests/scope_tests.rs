//! Tests of the scope tree: setting, listing, materializing, contexts.

use ensan::scope::{EvalContext, VarScope, VarScopes};
use ensan::value::Val;

fn s(v: &str) -> String {
    v.to_string()
}

#[test]
fn set_at_root_appends() {
    let mut t = VarScopes::default();
    t.set(&vec![], s("a"), Val::Bool(true));
    t.set(&vec![], s("b"), Val::Null);
    assert_eq!(
        t.0,
        vec![VarScope::Var(s("a"), Val::Bool(true)), VarScope::Var(s("b"), Val::Null)]
    );
}

#[test]
fn set_creates_and_reuses_nested_scopes() {
    let mut t = VarScopes::default();
    t.set(&vec![s("b"), s("l")], s("x"), Val::Bool(true));
    t.set(&vec![s("b"), s("l")], s("y"), Val::Null);
    assert_eq!(
        t.0,
        vec![VarScope::Scope(
            s("b"),
            VarScopes(vec![VarScope::Scope(
                s("l"),
                VarScopes(vec![
                    VarScope::Var(s("x"), Val::Bool(true)),
                    VarScope::Var(s("y"), Val::Null),
                ]),
            )]),
        )]
    );
}

#[test]
fn set_same_key_appends_a_duplicate() {
    // Re-setting a key does not overwrite the entry; materialization lets the
    // later entry win.
    let mut t = VarScopes::default();
    t.set(&vec![], s("a"), Val::Bool(true));
    t.set(&vec![], s("a"), Val::Bool(false));
    assert_eq!(t.0.len(), 2);
    assert_eq!(
        t.to_hcl_value(),
        Val::Obj(vec![(s("a"), Val::Bool(false))])
    );
}

#[test]
fn list_in_scope_walks_matching_chains() {
    let mut t = VarScopes::default();
    t.set(&vec![s("b")], s("x"), Val::Bool(true));
    t.set(&vec![], s("top"), Val::Null);
    let at_root = t.list_in_scope_ref(&vec![]);
    assert_eq!(at_root.len(), 2);
    let inside = t.list_in_scope_ref(&vec![s("b")]);
    assert_eq!(inside, vec![VarScope::Var(s("x"), Val::Bool(true))]);
    let missing = t.list_in_scope_ref(&vec![s("nope")]);
    assert!(missing.is_empty());
}

#[test]
fn materialize_nests_objects() {
    let mut t = VarScopes::default();
    t.set(&vec![s("b"), s("l")], s("x"), Val::Bool(true));
    t.set(&vec![], s("a"), Val::Null);
    assert_eq!(
        t.to_hcl_value(),
        Val::Obj(vec![
            (
                s("b"),
                Val::Obj(vec![(s("l"), Val::Obj(vec![(s("x"), Val::Bool(true))]))]),
            ),
            (s("a"), Val::Null),
        ])
    );
}

#[test]
fn contexts_hold_visible_variables_in_order() {
    let mut t = VarScopes::default();
    t.set(&vec![], s("a"), Val::Bool(true));
    t.set(&vec![s("b")], s("x"), Val::Null);
    let ctx = t.to_hcl_ctx(&vec![]);
    assert_eq!(
        ctx.vars,
        vec![
            (s("a"), Val::Bool(true)),
            (s("b"), Val::Obj(vec![(s("x"), Val::Null)])),
        ]
    );
    let mut more = EvalContext::new();
    t.populate_hcl_ctx(&mut more, &vec![s("b")]);
    assert_eq!(more.vars, vec![(s("x"), Val::Null)]);
}

#[test]
fn get_scope_ref_and_mut_match_by_name() {
    let mut t = VarScopes::default();
    t.set(&vec![s("b")], s("x"), Val::Null);
    let entry = &t.0[0];
    assert!(entry.get_scope_ref(&s("b")).is_some());
    assert!(entry.get_scope_ref(&s("c")).is_none());
    let var = VarScope::Var(s("v"), Val::Null);
    assert!(var.get_scope_ref(&s("v")).is_none());
    let mut entry_mut = t.0.remove(0);
    let sub = entry_mut.get_scope_mut(&s("b")).unwrap();
    sub.set(&vec![], s("y"), Val::Bool(false));
    assert_eq!(
        entry_mut,
        VarScope::Scope(
            s("b"),
            VarScopes(vec![
                VarScope::Var(s("x"), Val::Null),
                VarScope::Var(s("y"), Val::Bool(false)),
            ]),
        )
    );
}
