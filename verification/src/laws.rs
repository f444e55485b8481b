//! Properties of the walk, stated and proved over the same spec functions
//! the walker's contracts use: what a context can name after a prefix of a
//! body, what a finished block exposes to its siblings, and how a chain of
//! nested blocks is addressed by its dotted path.

use vstd::prelude::*;

use crate::document::SpecBlock;
use crate::document::SpecStructure;
use crate::document::spec_block_path;
use crate::engine::ctx_after_body;
use crate::engine::ctx_after_structure;
use crate::engine::record_structure;
use crate::engine::record_body;
use crate::engine::promoted;
use crate::engine::scopes_named;
use crate::scope::SpecEntry;
use crate::scope::bindings_of;
use crate::scope::entries_in_scope;
use crate::scope::entry_name;
use crate::scope::find_key_idx;
use crate::scope::obj_pairs_of;
use crate::scope::spec_populate;
use crate::scope::spec_set;
use crate::scope::find_scope_idx;
use crate::value::SpecValue;

verus! {

/// Whether an evaluation context holds any binding for `name`.
pub open spec fn ctx_has_name(c: Seq<(Seq<char>, SpecValue)>, name: Seq<char>) -> bool {
    exists|i: int| 0 <= i < c.len() && (#[trigger] c[i]).0 == name
}

/// The one name a structure declares in its enclosing body: an attribute's
/// key, or a block's identifier.
pub open spec fn declared_name(s: SpecStructure) -> Seq<char> {
    match s {
        SpecStructure::Attribute(a) => a.key,
        SpecStructure::Block(b) => b.identifier,
    }
}

/// Every entry `scopes_named` keeps is a sub-scope carrying exactly the
/// requested name.
pub proof fn lemma_scopes_named_names(es: Seq<SpecEntry>, ident: Seq<char>)
    ensures
        forall|j: int|
            0 <= j < scopes_named(es, ident).len() ==> entry_name(
                #[trigger] scopes_named(es, ident)[j],
            ) == ident,
    decreases es,
{
    if es.len() > 0 {
        lemma_scopes_named_names(es.drop_last(), ident);
        let sn = scopes_named(es, ident);
        let prev = scopes_named(es.drop_last(), ident);
        assert forall|j: int| 0 <= j < sn.len() implies entry_name(#[trigger] sn[j])
            == ident by {
            if j < prev.len() {
                assert(sn[j] == prev[j]);
            } else {
                assert(sn[j] == es.last());
            }
        }
    }
}

/// Order-dependence: a structure adds to its siblings' evaluation context
/// only bindings carrying its own declared name. A name declared by no
/// structure of the body and absent from the starting context is therefore
/// absent from the context after any prefix of the body: a reference to a
/// sibling declared later in document order cannot resolve.
pub proof fn lemma_no_forward_visibility(
    c: Seq<(Seq<char>, SpecValue)>,
    t: Seq<SpecEntry>,
    ss: Seq<SpecStructure>,
    path: Seq<Seq<char>>,
    name: Seq<char>,
)
    requires
        !ctx_has_name(c, name),
        forall|i: int| 0 <= i < ss.len() ==> declared_name(#[trigger] ss[i]) != name,
    ensures
        !ctx_has_name(ctx_after_body(c, t, ss, path), name),
    decreases ss,
{
    if ss.len() > 0 {
        assert(forall|i: int|
            0 <= i < ss.len() - 1 ==> #[trigger] ss.drop_last()[i] == ss[i]);
        lemma_no_forward_visibility(c, t, ss.drop_last(), path, name);
        let prev = ctx_after_body(c, t, ss.drop_last(), path);
        lemma_scope_isolation(prev, ss.last(), record_body(t, ss, path), path, name);
    }
}

/// Scope isolation: what one structure adds to the context of its later
/// siblings is named by the structure alone — an attribute's key, or, for a
/// block, the block's identifier. A variable declared inside a block is not
/// visible outside it under its own name; only the block's identifier is
/// bound, to the namespace object, so the variable is reachable only through
/// the block's dotted path.
pub proof fn lemma_scope_isolation(
    c: Seq<(Seq<char>, SpecValue)>,
    s: SpecStructure,
    t_after: Seq<SpecEntry>,
    path: Seq<Seq<char>>,
    name: Seq<char>,
)
    requires
        !ctx_has_name(c, name),
        declared_name(s) != name,
    ensures
        !ctx_has_name(ctx_after_structure(c, s, t_after, path), name),
{
    let after = ctx_after_structure(c, s, t_after, path);
    match s {
        SpecStructure::Attribute(a) => {
            assert forall|i: int| 0 <= i < after.len() implies (#[trigger] after[i]).0
                != name by {
                if i < c.len() {
                } else {
                    assert(after[i].0 == a.key);
                }
            }
        },
        SpecStructure::Block(b) => {
            let added = bindings_of(promoted(t_after, path, b.identifier));
            lemma_scopes_named_names(entries_in_scope(t_after, path), b.identifier);
            assert forall|i: int| 0 <= i < after.len() implies (#[trigger] after[i]).0
                != name by {
                if i < c.len() {
                } else {
                    assert(after[i] == added[i - c.len()]);
                    assert(added[i - c.len()].0 == entry_name(
                        promoted(t_after, path, b.identifier)[i - c.len()],
                    ));
                }
            }
        },
    }
}

/// Looks a dotted path up inside a materialized value: each segment selects
/// the entry of that key in the object, by first occurrence.
pub open spec fn follow_path(v: SpecValue, segs: Seq<Seq<char>>) -> Option<SpecValue>
    decreases segs.len(),
{
    if segs.len() == 0 {
        Option::Some(v)
    } else if v is Obj {
        match find_key_idx(v->Obj_0, segs[0]) {
            Option::Some(i) => follow_path(v->Obj_0[i].1, segs.drop_first()),
            Option::None => Option::None,
        }
    } else {
        Option::None
    }
}

/// A chain of nested blocks: one block per segment, each holding exactly the
/// next, the innermost holding the one attribute `key`, already evaluated to
/// `v`.
pub open spec fn nested_block(segs: Seq<Seq<char>>, key: Seq<char>, v: SpecValue) -> SpecStructure
    decreases segs.len()
        when segs.len() >= 1
{
    SpecStructure::Block(
        SpecBlock {
            identifier: segs[0],
            labels: Seq::empty(),
            body: seq![
                if segs.len() == 1 {
                    SpecStructure::Attribute(
                        crate::document::SpecAttribute {
                            key: key,
                            expr: crate::document::SpecExpr::Lit(v),
                        },
                    )
                } else {
                    nested_block(segs.drop_first(), key, v)
                },
            ],
        },
    )
}

/// Recording a chain of nested blocks is recording its one leaf variable at
/// the concatenated path.
pub proof fn lemma_record_nested(
    t: Seq<SpecEntry>,
    segs: Seq<Seq<char>>,
    key: Seq<char>,
    v: SpecValue,
    p: Seq<Seq<char>>,
)
    requires
        segs.len() >= 1,
    ensures
        record_structure(t, nested_block(segs, key, v), p) == spec_set(t, p + segs, key, v),
    decreases segs.len(),
{
    let s = nested_block(segs, key, v);
    let b = s->Block_0;
    assert(spec_block_path(b) =~= seq![segs[0]]);
    let inner_path = p + spec_block_path(b);
    assert(b.body.len() == 1);
    assert(b.body.drop_last() =~= Seq::<SpecStructure>::empty());
    assert(b.body.last() == b.body[0]);
    assert(record_body(t, b.body.drop_last(), inner_path) == t);
    assert(record_body(t, b.body, inner_path) == record_structure(t, b.body[0], inner_path));
    if segs.len() == 1 {
        assert(inner_path =~= p + segs);
    } else {
        lemma_record_nested(t, segs.drop_first(), key, v, inner_path);
        assert(inner_path + segs.drop_first() =~= p + segs);
    }
}

/// Setting into an empty tree builds exactly the fresh chain.
pub proof fn lemma_set_empty(segs: Seq<Seq<char>>, key: Seq<char>, v: SpecValue)
    ensures
        spec_set(Seq::<SpecEntry>::empty(), segs, key, v) == spec_populate(segs, key, v),
{
    if segs.len() == 0 {
        assert(spec_set(Seq::<SpecEntry>::empty(), segs, key, v) =~= spec_populate(
            segs,
            key,
            v,
        ));
    } else {
        assert(find_scope_idx(Seq::<SpecEntry>::empty(), segs[0]) is None);
        assert(spec_set(Seq::<SpecEntry>::empty(), segs, key, v) =~= spec_populate(
            segs,
            key,
            v,
        ));
    }
}

/// Following the remaining segments and the key through a freshly populated
/// chain, materialized as an object, reaches exactly the stored value.
pub proof fn lemma_follow_populated(segs: Seq<Seq<char>>, key: Seq<char>, v: SpecValue)
    ensures
        follow_path(
            SpecValue::Obj(obj_pairs_of(spec_populate(segs, key, v))),
            segs + seq![key],
        ) == Option::Some(v),
    decreases segs.len(),
{
    let chain = spec_populate(segs, key, v);
    assert(chain.len() == 1);
    assert(chain.drop_last() =~= Seq::<SpecEntry>::empty());
    let pairs = obj_pairs_of(chain);
    assert(chain.last() == chain[0]);
    assert(obj_pairs_of(chain.drop_last()) == obj_pairs_of(Seq::<SpecEntry>::empty()));
    assert(find_key_idx(
        obj_pairs_of(Seq::<SpecEntry>::empty()),
        entry_name(chain[0]),
    ) is None);
    assert(pairs =~= seq![(entry_name(chain[0]), crate::scope::entry_spec_value(chain[0]))]);
    let path = segs + seq![key];
    if segs.len() == 0 {
        assert(path[0] == key);
        assert(pairs[0].0 == key);
        assert(find_key_idx(pairs, key) == Option::Some(0int));
        assert(path.drop_first() =~= Seq::<Seq<char>>::empty());
        assert(follow_path(SpecValue::Obj(pairs), path) == follow_path(
            pairs[0].1,
            path.drop_first(),
        ));
        assert(pairs[0].1 == v);
        assert(follow_path(pairs[0].1, path.drop_first()) == Option::Some(v));
    } else {
        assert(path[0] == segs[0]);
        assert(pairs[0].0 == segs[0]);
        assert(find_key_idx(pairs, segs[0]) == Option::Some(0int));
        lemma_follow_populated(segs.drop_first(), key, v);
        assert(pairs[0].1 == SpecValue::Obj(
            obj_pairs_of(spec_populate(segs.drop_first(), key, v)),
        ));
        assert(path.drop_first() =~= segs.drop_first() + seq![key]);
        assert(follow_path(SpecValue::Obj(pairs), path) == follow_path(
            pairs[0].1,
            path.drop_first(),
        ));
        assert(follow_path(pairs[0].1, path.drop_first()) == Option::Some(v));
    }
}

/// Deep nesting: walking a chain of nested blocks — one block per segment,
/// the innermost holding `key = v` — over an empty scope tree leaves the
/// enclosing context with one new binding, for the outermost identifier, and
/// following the remaining segments and the key through it yields exactly
/// `v`. A dotted path of one more segment than there are blocks addresses
/// the leaf.
pub proof fn lemma_deep_nesting(
    c: Seq<(Seq<char>, SpecValue)>,
    segs: Seq<Seq<char>>,
    key: Seq<char>,
    v: SpecValue,
)
    requires
        segs.len() >= 1,
    ensures
        ({
            let s = nested_block(segs, key, v);
            let t = record_structure(Seq::<SpecEntry>::empty(), s, Seq::<Seq<char>>::empty());
            let after = ctx_after_structure(c, s, t, Seq::<Seq<char>>::empty());
            &&& after.len() == c.len() + 1
            &&& after.last().0 == segs[0]
            &&& follow_path(after.last().1, segs.drop_first() + seq![key]) == Option::Some(v)
        }),
{
    let s = nested_block(segs, key, v);
    let t = record_structure(Seq::<SpecEntry>::empty(), s, Seq::<Seq<char>>::empty());
    lemma_record_nested(Seq::<SpecEntry>::empty(), segs, key, v, Seq::<Seq<char>>::empty());
    assert(Seq::<Seq<char>>::empty() + segs =~= segs);
    lemma_set_empty(segs, key, v);
    let chain = spec_populate(segs, key, v);
    assert(t == chain);
    assert(chain.len() == 1);
    assert(chain.drop_last() =~= Seq::<SpecEntry>::empty());
    assert(chain[0] is Scope && chain[0]->Scope_0 == segs[0]);
    assert(entries_in_scope(t, Seq::<Seq<char>>::empty()) == t);
    let sn = scopes_named(t, segs[0]);
    assert(chain.last() == chain[0]);
    assert(scopes_named(chain.drop_last(), segs[0]) == scopes_named(
        Seq::<SpecEntry>::empty(),
        segs[0],
    ));
    assert(sn =~= seq![chain[0]]);
    let after = ctx_after_structure(c, s, t, Seq::<Seq<char>>::empty());
    assert(after =~= c + bindings_of(sn));
    assert(bindings_of(sn).len() == 1);
    assert(after.last() == crate::scope::entry_binding(chain[0]));
    assert(after.last().1 == SpecValue::Obj(
        obj_pairs_of(spec_populate(segs.drop_first(), key, v)),
    ));
    lemma_follow_populated(segs.drop_first(), key, v);
}

/// A block of any number of labels whose body holds the one attribute
/// `key`, already evaluated to `v`.
pub open spec fn labelled_block(
    ident: Seq<char>,
    labels: Seq<Seq<char>>,
    key: Seq<char>,
    v: SpecValue,
) -> SpecStructure {
    SpecStructure::Block(
        SpecBlock {
            identifier: ident,
            labels: labels,
            body: seq![
                SpecStructure::Attribute(
                    crate::document::SpecAttribute {
                        key: key,
                        expr: crate::document::SpecExpr::Lit(v),
                    },
                ),
            ],
        },
    )
}

/// Multi-label addressing: walking a labelled block over an empty scope tree
/// leaves the enclosing context with one new binding, for the identifier,
/// and following the labels and then the key through it yields exactly `v`:
/// the attribute is addressable by the dotted path of the identifier, the
/// labels in order, and the key.
pub proof fn lemma_labelled_block_addressing(
    c: Seq<(Seq<char>, SpecValue)>,
    ident: Seq<char>,
    labels: Seq<Seq<char>>,
    key: Seq<char>,
    v: SpecValue,
)
    ensures
        ({
            let s = labelled_block(ident, labels, key, v);
            let t = record_structure(Seq::<SpecEntry>::empty(), s, Seq::<Seq<char>>::empty());
            let after = ctx_after_structure(c, s, t, Seq::<Seq<char>>::empty());
            &&& after.len() == c.len() + 1
            &&& after.last().0 == ident
            &&& follow_path(after.last().1, labels + seq![key]) == Option::Some(v)
        }),
{
    let s = labelled_block(ident, labels, key, v);
    let b = s->Block_0;
    let segs = seq![ident] + labels;
    assert(spec_block_path(b) =~= segs);
    let inner_path = Seq::<Seq<char>>::empty() + spec_block_path(b);
    assert(inner_path =~= segs);
    assert(b.body.len() == 1);
    assert(b.body.drop_last() =~= Seq::<SpecStructure>::empty());
    assert(b.body.last() == b.body[0]);
    let t = record_structure(Seq::<SpecEntry>::empty(), s, Seq::<Seq<char>>::empty());
    assert(record_body(Seq::<SpecEntry>::empty(), b.body.drop_last(), inner_path)
        == Seq::<SpecEntry>::empty());
    assert(t == record_body(Seq::<SpecEntry>::empty(), b.body, inner_path));
    assert(record_body(Seq::<SpecEntry>::empty(), b.body, inner_path) == record_structure(
        Seq::<SpecEntry>::empty(),
        b.body[0],
        inner_path,
    ));
    assert(t == spec_set(Seq::<SpecEntry>::empty(), inner_path, key, v));
    lemma_set_empty(inner_path, key, v);
    let chain = spec_populate(segs, key, v);
    assert(t == chain);
    assert(chain.len() == 1);
    assert(chain.drop_last() =~= Seq::<SpecEntry>::empty());
    assert(chain[0] is Scope && chain[0]->Scope_0 == ident);
    assert(entries_in_scope(t, Seq::<Seq<char>>::empty()) == t);
    let sn = scopes_named(t, ident);
    assert(chain.last() == chain[0]);
    assert(scopes_named(chain.drop_last(), ident) == scopes_named(
        Seq::<SpecEntry>::empty(),
        ident,
    ));
    assert(sn =~= seq![chain[0]]);
    let after = ctx_after_structure(c, s, t, Seq::<Seq<char>>::empty());
    assert(after =~= c + bindings_of(sn));
    assert(after.last() == crate::scope::entry_binding(chain[0]));
    assert(segs.drop_first() =~= labels);
    assert(after.last().1 == SpecValue::Obj(obj_pairs_of(spec_populate(labels, key, v))));
    lemma_follow_populated(labels, key, v);
}

/// Multi-label blocks: a block's scope path has one segment for the
/// identifier and one per label, in order — three labels make a four-segment
/// path.
pub proof fn lemma_block_path_segments(b: SpecBlock)
    ensures
        spec_block_path(b).len() == 1 + b.labels.len(),
        spec_block_path(b)[0] == b.identifier,
        forall|i: int| 0 <= i < b.labels.len() ==> spec_block_path(b)[i + 1] == b.labels[i],
{
}

} // verus!
