//! The document walker: one left-to-right pass that evaluates every
//! attribute against exactly the variables visible at that point in document
//! order, records each result in the scope tree, and rewrites the attribute
//! in place.

use vstd::prelude::*;

use crate::bridge;
use crate::document::Attribute;
use crate::document::Block;
use crate::document::Document;
use crate::document::Expr;
use crate::document::SpecStructure;
use crate::document::Structure;
use crate::document::body_evaluated;
use crate::document::lemma_view_structures_index;
use crate::document::lemma_view_structures_len;
use crate::document::spec_block_path;
use crate::document::structure_evaluated;
use crate::document::view_structure;
use crate::document::view_structures;
use crate::errors::Error;
use crate::functions::Catalog;
use crate::functions::default_catalog;
use crate::functions::spec_default_catalog;
use crate::scope::EvalContext;
use crate::scope::SpecEntry;
use crate::scope::VarScope;
use crate::scope::VarScopes;
use crate::scope::bindings_of;
use crate::scope::entries_in_scope;
use crate::scope::entry_binding;
use crate::scope::lemma_view_entries_index;
use crate::scope::lemma_view_entries_len;
use crate::scope::spec_set;
use crate::scope::string_equal;
use crate::scope::view_entries;
use crate::value::SpecValue;
use crate::value::clone_value;
use crate::value::view_value;

verus! {

/// The scope tree after recording one already-evaluated structure: an
/// attribute's value is set at `path`; a block's body is recorded under the
/// block's own path.
pub open spec fn record_structure(
    t: Seq<SpecEntry>,
    s: SpecStructure,
    path: Seq<Seq<char>>,
) -> Seq<SpecEntry>
    decreases s,
{
    match s {
        SpecStructure::Attribute(a) => if a.expr is Lit {
            spec_set(t, path, a.key, a.expr->Lit_0)
        } else {
            t
        },
        SpecStructure::Block(b) => record_body(t, b.body, path + spec_block_path(b)),
    }
}

/// The scope tree after recording an already-evaluated body, in document
/// order.
pub open spec fn record_body(
    t: Seq<SpecEntry>,
    ss: Seq<SpecStructure>,
    path: Seq<Seq<char>>,
) -> Seq<SpecEntry>
    decreases ss,
{
    if ss.len() == 0 {
        t
    } else {
        record_structure(record_body(t, ss.drop_last(), path), ss.last(), path)
    }
}

/// The sub-scope entries named `ident` among `es`, in order.
pub open spec fn scopes_named(es: Seq<SpecEntry>, ident: Seq<char>) -> Seq<SpecEntry>
    decreases es,
{
    if es.len() == 0 {
        Seq::empty()
    } else {
        scopes_named(es.drop_last(), ident) + (if es.last() is Scope && es.last()->Scope_0
            == ident {
            seq![es.last()]
        } else {
            Seq::empty()
        })
    }
}

/// The sub-scope entries named `ident` among the entries visible at `path`:
/// what a finished block makes visible to its later siblings.
pub open spec fn promoted(t: Seq<SpecEntry>, path: Seq<Seq<char>>, ident: Seq<char>) -> Seq<
    SpecEntry,
> {
    scopes_named(entries_in_scope(t, path), ident)
}

/// The evaluation context after one structure: an attribute pushes its own
/// binding; a finished block pushes its namespaces, materialized from the
/// scope tree as it stands after the block.
pub open spec fn ctx_after_structure(
    c: Seq<(Seq<char>, SpecValue)>,
    s: SpecStructure,
    t_after: Seq<SpecEntry>,
    path: Seq<Seq<char>>,
) -> Seq<(Seq<char>, SpecValue)> {
    match s {
        SpecStructure::Attribute(a) => if a.expr is Lit {
            c.push((a.key, a.expr->Lit_0))
        } else {
            c
        },
        SpecStructure::Block(b) => c + bindings_of(promoted(t_after, path, b.identifier)),
    }
}

/// The evaluation context after an already-evaluated body, in document order,
/// starting from context `c` and scope tree `t`.
pub open spec fn ctx_after_body(
    c: Seq<(Seq<char>, SpecValue)>,
    t: Seq<SpecEntry>,
    ss: Seq<SpecStructure>,
    path: Seq<Seq<char>>,
) -> Seq<(Seq<char>, SpecValue)>
    decreases ss,
{
    if ss.len() == 0 {
        c
    } else {
        ctx_after_structure(
            ctx_after_body(c, t, ss.drop_last(), path),
            ss.last(),
            record_body(t, ss, path),
            path,
        )
    }
}

/// Whether `b` is `a` with attribute expressions resolved: the same kinds of
/// structures in the same order, the same keys, identifiers and labels, and
/// every attribute of `a` that already held a literal unchanged in `b`.
pub open spec fn same_shape_structure(a: SpecStructure, b: SpecStructure) -> bool
    decreases a,
{
    match a {
        SpecStructure::Attribute(x) => b matches SpecStructure::Attribute(y) && y.key == x.key
            && (x.expr is Lit ==> y.expr == x.expr),
        SpecStructure::Block(x) => b matches SpecStructure::Block(y) && y.identifier
            == x.identifier && y.labels == x.labels && same_shape_body(x.body, y.body),
    }
}

/// `same_shape_structure`, over whole bodies.
pub open spec fn same_shape_body(a: Seq<SpecStructure>, b: Seq<SpecStructure>) -> bool
    decreases a,
{
    a.len() == b.len() && (a.len() == 0 || (same_shape_body(a.drop_last(), b.drop_last())
        && same_shape_structure(a.last(), b.last())))
}

/// A structure that already held only literals is unchanged by anything that
/// keeps its shape.
pub proof fn lemma_evaluated_shape_eq(a: SpecStructure, b: SpecStructure)
    requires
        same_shape_structure(a, b),
        structure_evaluated(a),
    ensures
        b == a,
    decreases a,
{
    match a {
        SpecStructure::Attribute(x) => {},
        SpecStructure::Block(x) => {
            lemma_evaluated_body_eq(x.body, b->Block_0.body);
        },
    }
}

/// A body that already held only literals is unchanged by anything that keeps
/// its shape.
pub proof fn lemma_evaluated_body_eq(a: Seq<SpecStructure>, b: Seq<SpecStructure>)
    requires
        same_shape_body(a, b),
        body_evaluated(a),
    ensures
        b == a,
    decreases a,
{
    if a.len() > 0 {
        lemma_evaluated_body_eq(a.drop_last(), b.drop_last());
        lemma_evaluated_shape_eq(a.last(), b.last());
        assert(a =~= a.drop_last().push(a.last()));
        assert(b =~= b.drop_last().push(b.last()));
        assert(b =~= a);
    } else {
        assert(b =~= a);
    }
}

/// The evaluation engine: the function catalog, built once; the scope path of
/// the walk in progress; and the scope tree accumulated so far.
#[derive(Debug)]
pub struct Engine {
    /// The function catalog handed to the expression evaluator. Read-only
    /// once built.
    pub catalog: Catalog,
    /// The scope path during a walk: the segments of the enclosing blocks.
    pub scope: Vec<String>,
    /// The variables accumulated by walks so far.
    pub varlist: VarScopes,
}

impl Engine {
    /// A fresh engine: the default catalog, an empty scope path, an empty
    /// scope tree.
    pub fn new() -> (r: Self)
        ensures
            r.catalog@ == spec_default_catalog(),
            r.scope@ == Seq::<String>::empty(),
            r.varlist@ == Seq::<SpecEntry>::empty(),
    {
        Engine { catalog: default_catalog(), scope: Vec::new(), varlist: VarScopes::default() }
    }

    /// Clears the scope path and the scope tree so the engine can evaluate an
    /// unrelated document; the catalog is kept, not rebuilt.
    pub fn clean_up(&mut self) -> (r: &mut Self)
        ensures
            *final(self) == *final(r),
            (*r).catalog == old(self).catalog,
            (*r).scope@ == Seq::<String>::empty(),
            (*r).varlist@ == Seq::<SpecEntry>::empty(),
    {
        self.scope = Vec::new();
        self.varlist = VarScopes::default();
        self
    }
}

impl Engine {
    /// Evaluates one structure against `ctx`, the variables visible where it
    /// stands. An attribute's expression is resolved, recorded in the scope
    /// tree at the current path, pushed into `ctx` for its later siblings,
    /// and replaced by its value. A block is walked recursively, then its
    /// namespaces are promoted into `ctx`. The first failure aborts the walk;
    /// after an error the scope path and tree are unspecified and a caller
    /// should discard them.
    fn parse_struct(&mut self, s: Structure, ctx: &mut EvalContext) -> (r: Result<
        Structure,
        Error,
    >)
        ensures
            r matches Ok(ns) ==> {
                &&& final(self).scope@ == old(self).scope@
                &&& final(self).catalog == old(self).catalog
                &&& same_shape_structure(view_structure(s), view_structure(ns))
                &&& structure_evaluated(view_structure(ns))
                &&& final(self).varlist@ == record_structure(
                    old(self).varlist@,
                    view_structure(ns),
                    old(self).scope.deep_view(),
                )
                &&& final(ctx)@ == ctx_after_structure(
                    old(ctx)@,
                    view_structure(ns),
                    final(self).varlist@,
                    old(self).scope.deep_view(),
                )
            },
            structure_evaluated(view_structure(s)) ==> r is Ok,
        decreases s,
    {
        let ghost gs = s;
        match s {
            Structure::Attribute(attr) => {
                let val = match &attr.expr {
                    Expr::Lit(v) => clone_value(v),
                    Expr::Unevaluated(raw) => {
                        match bridge::eval_expression(raw, ctx) {
                            Ok(v) => v,
                            Err(e) => {
                                return Err(Error::Eval(e));
                            },
                        }
                    },
                };
                self.varlist.set(&self.scope, attr.key.clone(), clone_value(&val));
                ctx.declare_var(attr.key.clone(), clone_value(&val));
                let ns = Structure::Attribute(Attribute { key: attr.key, expr: Expr::Lit(val) });
                Ok(ns)
            },
            Structure::Block(block) => {
                proof {
                    assert(decreases_to!(gs => gs->Block_0));
                    assert(block == gs->Block_0);
                }
                let nb = match self.parse_block(block) {
                    Ok(nb) => nb,
                    Err(e) => {
                        return Err(e);
                    },
                };
                let ghost base = ctx@;
                let ghost t_after = self.varlist@;
                let ghost path = old(self).scope.deep_view();
                let entries = self.varlist.list_in_scope_ref(&self.scope);
                let ghost all = view_entries(entries@);
                proof {
                    lemma_view_entries_len(entries@);
                    assert(all.subrange(0, 0) =~= Seq::<SpecEntry>::empty());
                    assert(scopes_named(all.subrange(0, 0), nb.identifier@)
                        =~= Seq::<SpecEntry>::empty());
                    assert(ctx@ =~= base + bindings_of(
                        scopes_named(all.subrange(0, 0), nb.identifier@),
                    ));
                }
                let mut i: usize = 0;
                while i < entries.len()
                    invariant
                        i <= entries@.len(),
                        all == view_entries(entries@),
                        all.len() == entries@.len(),
                        ctx@ == base + bindings_of(
                            scopes_named(all.subrange(0, i as int), nb.identifier@),
                        ),
                    decreases entries@.len() - i,
                {
                    proof {
                        lemma_view_entries_index(entries@, i as int);
                    }
                    let ghost pre = ctx@;
                    match &entries[i] {
                        VarScope::Scope(k, sub) => {
                            if string_equal(k, &nb.identifier) {
                                let v = sub.to_hcl_value();
                                ctx.declare_var(k.clone(), v);
                                proof {
                                    assert(ctx@ == pre.push(entry_binding(all[i as int])));
                                }
                            }
                        },
                        _ => {},
                    }
                    proof {
                        let prefix = all.subrange(0, i as int);
                        let next = all.subrange(0, i as int + 1);
                        assert(next.drop_last() =~= prefix);
                        assert(next.last() == all[i as int]);
                        let sn = scopes_named(next, nb.identifier@);
                        assert(sn == scopes_named(prefix, nb.identifier@) + (if all[i as int]
                            is Scope && all[i as int]->Scope_0 == nb.identifier@ {
                            seq![all[i as int]]
                        } else {
                            Seq::<SpecEntry>::empty()
                        }));
                        assert(ctx@ =~= base + bindings_of(sn));
                    }
                    i = i + 1;
                }
                let ns = Structure::Block(nb);
                proof {
                    assert(all.subrange(0, all.len() as int) =~= all);
                    assert(ctx@ =~= base + bindings_of(
                        promoted(t_after, path, view_structure(ns)->Block_0.identifier),
                    ));
                    assert(old(self).scope.deep_view() + spec_block_path(
                        view_structure(ns)->Block_0,
                    ) =~= old(self).scope.deep_view() + seq![gs->Block_0.identifier@]
                        + gs->Block_0.labels.deep_view());
                }
                Ok(ns)
            },
        }
    }

    /// Walks the structures of `doc` in document order against `ctx`,
    /// evaluating each. `ctx` must hold the variables visible at the current
    /// scope path when the walk starts.
    fn walk_structures(&mut self, doc: Document, ctx: &mut EvalContext) -> (r: Result<
        Document,
        Error,
    >)
        ensures
            r matches Ok(nd) ==> {
                &&& final(self).scope@ == old(self).scope@
                &&& final(self).catalog == old(self).catalog
                &&& same_shape_body(view_structures(doc.0@), view_structures(nd.0@))
                &&& body_evaluated(view_structures(nd.0@))
                &&& final(self).varlist@ == record_body(
                    old(self).varlist@,
                    view_structures(nd.0@),
                    old(self).scope.deep_view(),
                )
                &&& final(ctx)@ == ctx_after_body(
                    old(ctx)@,
                    old(self).varlist@,
                    view_structures(nd.0@),
                    old(self).scope.deep_view(),
                )
            },
            body_evaluated(view_structures(doc.0@)) ==> r is Ok,
        decreases doc,
    {
        let ghost path = old(self).scope.deep_view();
        let ghost t0 = old(self).varlist@;
        let ghost c0 = old(ctx)@;
        let ghost orig = doc.0@;
        let mut rest = doc.0;
        let mut out: Vec<Structure> = Vec::new();
        let ghost mut done: Seq<Structure> = Seq::empty();
        proof {
            assert(orig =~= done + rest@);
            assert(view_structures(out@) =~= Seq::<SpecStructure>::empty());
            lemma_view_structures_len(orig);
        }
        while rest.len() > 0
            invariant
                orig == doc.0@,
                orig == done + rest@,
                done.len() == out@.len(),
                self.scope@ == old(self).scope@,
                path == old(self).scope.deep_view(),
                self.catalog == old(self).catalog,
                same_shape_body(view_structures(done), view_structures(out@)),
                body_evaluated(view_structures(out@)),
                self.varlist@ == record_body(t0, view_structures(out@), path),
                ctx@ == ctx_after_body(c0, t0, view_structures(out@), path),
                t0 == old(self).varlist@,
                c0 == old(ctx)@,
            decreases rest@.len(),
        {
            let ghost pre_rest = rest@;
            let s = rest.remove(0);
            proof {
                assert(s == orig[done.len() as int]);
                assert(decreases_to!(doc => doc.0));
                assert(decreases_to!(doc.0 => doc.0@));
                assert(orig == doc.0@);
                assert(decreases_to!(doc.0@ => doc.0@[done.len() as int]));
                assert(s == doc.0@[done.len() as int]);
            }
            let res = self.parse_struct(s, ctx);
            let ns = match res {
                Ok(ns) => ns,
                Err(e) => {
                    proof {
                        if body_evaluated(view_structures(orig)) {
                            crate::document::lemma_body_evaluated_index(view_structures(orig));
                            lemma_view_structures_index(orig, done.len() as int);
                            assert(structure_evaluated(view_structure(s)));
                            assert(false);
                        }
                    }
                    return Err(e);
                },
            };
            let ghost pre_out = out@;
            let ghost pre_done = done;
            out.push(ns);
            proof {
                done = done.push(s);
                assert(done + rest@ =~= orig);
                assert(out@.drop_last() =~= pre_out);
                assert(done.drop_last() =~= pre_done);
                lemma_view_structures_len(out@);
                lemma_view_structures_len(pre_out);
                lemma_view_structures_len(done);
                assert(view_structures(out@).drop_last() =~= view_structures(pre_out));
                assert(view_structures(out@).last() == view_structure(out@.last()));
                assert(view_structures(done).drop_last() =~= view_structures(pre_done));
                assert(view_structures(done).last() == view_structure(s));
                assert(same_shape_body(view_structures(done), view_structures(out@)));
                assert(body_evaluated(view_structures(out@)));
                assert(self.varlist@ == record_body(t0, view_structures(out@), path));
                assert(ctx@ == ctx_after_body(c0, t0, view_structures(out@), path));
            }
        }
        proof {
            assert(rest@.len() == 0);
            assert(done =~= orig);
        }
        Ok(Document(out))
    }

    /// Walks a block: extends the scope path by the block's identifier and
    /// labels, builds a fresh context of exactly the variables visible at
    /// that path, walks the body, and restores the scope path.
    fn parse_block(&mut self, block: Block) -> (r: Result<Block, Error>)
        ensures
            r matches Ok(nb) ==> {
                &&& final(self).scope@ == old(self).scope@
                &&& final(self).catalog == old(self).catalog
                &&& nb.identifier@ == block.identifier@
                &&& nb.labels.deep_view() == block.labels.deep_view()
                &&& same_shape_body(
                    view_structures(block.body.0@),
                    view_structures(nb.body.0@),
                )
                &&& body_evaluated(view_structures(nb.body.0@))
                &&& final(self).varlist@ == record_body(
                    old(self).varlist@,
                    view_structures(nb.body.0@),
                    old(self).scope.deep_view() + seq![block.identifier@]
                        + block.labels.deep_view(),
                )
            },
            body_evaluated(view_structures(block.body.0@)) ==> r is Ok,
        decreases block,
    {
        let ghost gb = block;
        let Block { identifier, labels, body } = block;
        let old_len = self.scope.len();
        let ghost base = self.scope.deep_view();
        self.scope.push(identifier.clone());
        proof {
            assert(self.scope.deep_view() =~= base.push(identifier@));
        }
        let ghost mid = self.scope.deep_view();
        let nl = labels.len();
        let mut li: usize = 0;
        while li < nl
            invariant
                li <= nl,
                nl == labels@.len(),
                self.scope.deep_view() == mid + labels.deep_view().subrange(0, li as int),
                self.scope@.len() == old_len + 1 + li,
                old_len == old(self).scope@.len(),
                self.scope@.subrange(0, old_len as int) == old(self).scope@,
                self.catalog == old(self).catalog,
                self.varlist == old(self).varlist,
                mid == base.push(identifier@),
                base == old(self).scope.deep_view(),
            decreases nl - li,
        {
            let ghost pre = self.scope.deep_view();
            self.scope.push(labels[li].clone());
            proof {
                assert(self.scope.deep_view() =~= pre.push(labels@[li as int]@));
                assert(labels.deep_view()[li as int] == labels@[li as int]@);
                assert(self.scope.deep_view() =~= mid + labels.deep_view().subrange(
                    0,
                    li as int + 1,
                ));
                assert(self.scope@.subrange(0, old_len as int) =~= old(self).scope@);
            }
            li = li + 1;
        }
        proof {
            assert(labels.deep_view().subrange(0, nl as int) =~= labels.deep_view());
            assert(self.scope.deep_view() =~= old(self).scope.deep_view() + seq![identifier@]
                + labels.deep_view());
        }
        let mut ctx = self.varlist.to_hcl_ctx(&self.scope);
        proof {
            assert(decreases_to!(gb => gb.body));
            assert(body == gb.body);
        }
        let nbody = match self.walk_structures(body, &mut ctx) {
            Ok(nd) => nd,
            Err(e) => {
                return Err(e);
            },
        };
        self.scope.truncate(old_len);
        proof {
            assert(self.scope@ =~= old(self).scope@);
        }
        Ok(Block { identifier, labels, body: nbody })
    }
}

impl Engine {
    /// Evaluates a parsed document in place at the engine's current scope:
    /// one pass in document order, against exactly the variables already
    /// accumulated plus what earlier structures of this document bind. On
    /// success every attribute holds a literal value. Evaluating a document
    /// whose attributes are all literals already always succeeds and leaves
    /// it unchanged.
    pub fn evaluate_body(&mut self, body: &mut Document) -> (r: Result<(), Error>)
        ensures
            r is Ok ==> {
                &&& final(self).scope@ == old(self).scope@
                &&& final(self).catalog == old(self).catalog
                &&& same_shape_body(old(body)@, final(body)@)
                &&& body_evaluated(final(body)@)
                &&& final(self).varlist@ == record_body(
                    old(self).varlist@,
                    final(body)@,
                    old(self).scope.deep_view(),
                )
            },
            body_evaluated(old(body)@) ==> (r is Ok && final(body)@ == old(body)@),
    {
        let mut work = Document(Vec::new());
        core::mem::swap(body, &mut work);
        let mut ctx = self.varlist.to_hcl_ctx(&self.scope);
        match self.walk_structures(work, &mut ctx) {
            Ok(nd) => {
                *body = nd;
                proof {
                    if body_evaluated(old(body)@) {
                        lemma_evaluated_body_eq(old(body)@, body@);
                    }
                }
                Ok(())
            },
            Err(e) => Err(e),
        }
    }

    /// Parses the text and evaluates the document in place: each attribute is
    /// resolved against exactly the variables visible at its position, in
    /// document order, and replaced by its value. Variables accumulated by
    /// earlier calls on this engine stay visible; `clean_up` clears them.
    pub fn parse_str(&mut self, content: &str) -> (r: Result<Document, Error>)
        ensures
            r matches Ok(d) ==> {
                &&& final(self).scope@ == old(self).scope@
                &&& final(self).catalog == old(self).catalog
                &&& body_evaluated(d@)
                &&& final(self).varlist@ == record_body(
                    old(self).varlist@,
                    d@,
                    old(self).scope.deep_view(),
                )
            },
    {
        let mut doc = match bridge::parse_text(content) {
            Ok(d) => d,
            Err(e) => {
                return Err(Error::Syntax(e));
            },
        };
        match self.evaluate_body(&mut doc) {
            Ok(()) => Ok(doc),
            Err(e) => Err(e),
        }
    }

    /// Parses and evaluates the text; see `parse_str`.
    pub fn parse(&mut self, content: &str) -> (r: Result<Document, Error>)
        ensures
            r matches Ok(d) ==> {
                &&& final(self).scope@ == old(self).scope@
                &&& final(self).catalog == old(self).catalog
                &&& body_evaluated(d@)
                &&& final(self).varlist@ == record_body(
                    old(self).varlist@,
                    d@,
                    old(self).scope.deep_view(),
                )
            },
    {
        self.parse_str(content)
    }
}

} // verus!

