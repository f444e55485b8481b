//! The scope tree: the recursive namespace structure that accumulates
//! evaluated variables during a walk of the document.
//!
//! At each level a tree holds an ordered list of entries, each either a plain
//! variable or a named sub-scope. Lookups walk a path of segments from the
//! root, descending through every sub-scope whose name matches the next
//! segment, and collect the entries of the deepest level reached.

use vstd::prelude::*;

use crate::value::SpecValue;
use crate::value::Val;
use crate::value::clone_value;
use crate::value::view_pairs;
use crate::value::view_value;

verus! {

/// One entry of a scope level: a variable or a named nested scope.
#[derive(Debug, PartialEq)]
pub enum VarScope {
    Var(String, Val),
    Scope(String, VarScopes),
}

/// An ordered list of scope entries; the whole scope tree.
#[derive(Debug, PartialEq)]
pub struct VarScopes(pub Vec<VarScope>);

/// Mathematical shape of a [`VarScope`].
pub enum SpecEntry {
    Var(Seq<char>, SpecValue),
    Scope(Seq<char>, Seq<SpecEntry>),
}

pub open spec fn view_entry(e: VarScope) -> SpecEntry
    decreases e,
{
    match e {
        VarScope::Var(k, v) => SpecEntry::Var(k@, view_value(v)),
        VarScope::Scope(k, sub) => SpecEntry::Scope(k@, view_entries(sub.0@)),
    }
}

pub open spec fn view_entries(es: Seq<VarScope>) -> Seq<SpecEntry>
    decreases es,
{
    if es.len() == 0 {
        Seq::empty()
    } else {
        view_entries(es.drop_last()).push(view_entry(es.last()))
    }
}

impl View for VarScope {
    type V = SpecEntry;

    open spec fn view(&self) -> SpecEntry {
        view_entry(*self)
    }
}

impl View for VarScopes {
    type V = Seq<SpecEntry>;

    open spec fn view(&self) -> Seq<SpecEntry> {
        view_entries(self.0@)
    }
}

pub proof fn lemma_view_entries_len(es: Seq<VarScope>)
    ensures
        view_entries(es).len() == es.len(),
    decreases es,
{
    if es.len() > 0 {
        lemma_view_entries_len(es.drop_last());
    }
}

/// `view_entries` maps the sequence pointwise.
pub proof fn lemma_view_entries_index(es: Seq<VarScope>, i: int)
    requires
        0 <= i < es.len(),
    ensures
        view_entries(es).len() == es.len(),
        view_entries(es)[i] == view_entry(es[i]),
    decreases es,
{
    if es.len() > 0 {
        if i < es.len() - 1 {
            lemma_view_entries_index(es.drop_last(), i);
        } else {
            lemma_view_entries_len(es.drop_last());
        }
    }
}

/// The index of the first sub-scope entry named `name`, if any.
pub open spec fn find_scope_idx(es: Seq<SpecEntry>, name: Seq<char>) -> Option<int>
    decreases es,
{
    if es.len() == 0 {
        Option::None
    } else if es[0] is Scope && es[0]->Scope_0 == name {
        Option::Some(0int)
    } else {
        match find_scope_idx(es.drop_first(), name) {
            Option::Some(i) => Option::Some(i + 1),
            Option::None => Option::None,
        }
    }
}

/// What `find_scope_idx` finds is the first match.
pub proof fn lemma_find_scope_idx(es: Seq<SpecEntry>, name: Seq<char>)
    ensures
        match find_scope_idx(es, name) {
            Option::Some(i) => 0 <= i < es.len() && es[i] is Scope && es[i]->Scope_0 == name
                && (forall|j: int|
                0 <= j < i ==> !(#[trigger] es[j] is Scope && es[j]->Scope_0 == name)),
            Option::None => forall|j: int|
                0 <= j < es.len() ==> !(#[trigger] es[j] is Scope && es[j]->Scope_0 == name),
        },
    decreases es,
{
    if es.len() > 0 {
        if es[0] is Scope && es[0]->Scope_0 == name {
        } else {
            lemma_find_scope_idx(es.drop_first(), name);
            assert(forall|j: int|
                1 <= j < es.len() ==> #[trigger] es[j] == es.drop_first()[j - 1]);
        }
    }
}

/// A fresh chain of nested scopes for `path`, ending in the one variable.
pub open spec fn spec_populate(path: Seq<Seq<char>>, key: Seq<char>, value: SpecValue) -> Seq<
    SpecEntry,
>
    decreases path.len(),
{
    if path.len() == 0 {
        seq![SpecEntry::Var(key, value)]
    } else {
        seq![SpecEntry::Scope(path[0], spec_populate(path.drop_first(), key, value))]
    }
}

/// Inserting a variable at `path`: descend into the first sub-scope matching
/// each segment, creating the remaining chain when none matches, and append
/// the variable at the final level. An existing variable of the same name is
/// never overwritten; the new entry is appended after it.
pub open spec fn spec_set(
    es: Seq<SpecEntry>,
    path: Seq<Seq<char>>,
    key: Seq<char>,
    value: SpecValue,
) -> Seq<SpecEntry>
    decreases path.len(),
{
    if path.len() == 0 {
        es.push(SpecEntry::Var(key, value))
    } else {
        match find_scope_idx(es, path[0]) {
            Option::Some(i) => es.update(
                i,
                SpecEntry::Scope(
                    es[i]->Scope_0,
                    spec_set(es[i]->Scope_1, path.drop_first(), key, value),
                ),
            ),
            Option::None => es.push(
                SpecEntry::Scope(path[0], spec_populate(path.drop_first(), key, value)),
            ),
        }
    }
}

impl Default for VarScopes {
    /// An empty scope tree.
    fn default() -> (r: Self)
        ensures
            r@ == Seq::<SpecEntry>::empty(),
    {
        VarScopes(Vec::new())
    }
}

/// The first sub-scope entry named `name`, as `find_scope_idx` gives it.
fn find_scope_index(entries: &Vec<VarScope>, name: &String) -> (r: Option<usize>)
    ensures
        match r {
            Option::Some(i) => i < entries@.len() && find_scope_idx(view_entries(entries@), name@)
                == Option::Some(i as int),
            Option::None => find_scope_idx(view_entries(entries@), name@) is None,
        },
{
    let ghost ves = view_entries(entries@);
    proof {
        lemma_view_entries_len(entries@);
    }
    let mut j: usize = 0;
    while j < entries.len()
        invariant
            j <= entries@.len(),
            ves == view_entries(entries@),
            ves.len() == entries@.len(),
            forall|t: int|
                0 <= t < j ==> !(#[trigger] ves[t] is Scope && ves[t]->Scope_0 == name@),
        decreases entries@.len() - j,
    {
        let matched = match &entries[j] {
            VarScope::Scope(n, _) => string_equal(n, name),
            _ => false,
        };
        proof {
            lemma_view_entries_index(entries@, j as int);
        }
        if matched {
            proof {
                lemma_find_scope_idx(ves, name@);
                assert(ves[j as int] is Scope && ves[j as int]->Scope_0 == name@);
                assert(find_scope_idx(ves, name@) == Option::Some(j as int));
            }
            return Option::Some(j);
        }
        j = j + 1;
    }
    proof {
        lemma_find_scope_idx(ves, name@);
        assert(find_scope_idx(ves, name@) is None);
    }
    Option::None
}

impl VarScopes {
    /// Creates the variable `key = value` at the level addressed by the
    /// segments of `scope` from `from` onward, creating intermediate scopes
    /// as needed. The variable is assumed not to exist yet: an existing entry
    /// of the same name is kept and the new one appended after it.
    fn set_from(&mut self, scope: &Vec<String>, from: usize, key: String, value: Val)
        requires
            from <= scope@.len(),
        ensures
            final(self)@ == spec_set(old(self)@, scope.deep_view().skip(from as int), key@, value@),
        decreases scope.len() - from,
    {
        let ghost path = scope.deep_view().skip(from as int);
        proof {
            assert(scope.deep_view().len() == scope@.len());
        }
        if from >= scope.len() {
            let ghost old_entries = self.0@;
            self.0.push(VarScope::Var(key, value));
            proof {
                assert(path.len() == 0);
                assert(self.0@.drop_last() =~= old_entries);
                assert(view_entries(self.0@) == view_entries(old_entries).push(
                    view_entry(self.0@.last()),
                ));
                assert(view_entries(self.0@) =~= spec_set(
                    view_entries(old_entries),
                    path,
                    key@,
                    value@,
                ));
            }
            return ;
        }
        proof {
            assert(path[0] == scope.deep_view()[from as int]);
            assert(path[0] == scope@[from as int]@);
            assert(path.drop_first() =~= scope.deep_view().skip(from as int + 1));
        }
        let seg = &scope[from];
        let found = find_scope_index(&self.0, seg);
        match found {
            Option::Some(i) => {
                let ghost pre = self.0@;
                proof {
                    lemma_find_scope_idx(view_entries(pre), scope@[from as int]@);
                    lemma_view_entries_len(pre);
                    lemma_view_entries_index(pre, i as int);
                    assert(view_entries(pre)[i as int] is Scope);
                    assert(pre[i as int] is Scope);
                }
                let entry = &mut self.0[i];
                match entry {
                    VarScope::Scope(_, sub) => {
                        sub.set_from(scope, from + 1, key, value);
                    },
                    VarScope::Var(_, _) => {
                        proof {
                            lemma_view_entries_index(pre, i as int);
                            assert(false);
                        }
                    },
                }
                proof {
                    lemma_view_entries_len(self.0@);
                    lemma_view_entries_len(pre);
                    assert forall|t: int| 0 <= t < pre.len() && t != i implies view_entries(
                        self.0@,
                    )[t] == view_entries(pre)[t] by {
                        lemma_view_entries_index(self.0@, t);
                        lemma_view_entries_index(pre, t);
                    }
                    lemma_view_entries_index(self.0@, i as int);
                    lemma_view_entries_index(pre, i as int);
                    assert(view_entries(self.0@) =~= spec_set(
                        view_entries(pre),
                        path,
                        key@,
                        value@,
                    ));
                }
            },
            Option::None => {
                let ghost old_entries = self.0@;
                let sub = populate_from(scope, from + 1, key, value);
                self.0.push(VarScope::Scope(seg.clone(), sub));
                proof {
                    assert(spec_set(view_entries(old_entries), path, key@, value@)
                        == view_entries(old_entries).push(
                        SpecEntry::Scope(path[0], spec_populate(path.drop_first(), key@, value@)),
                    ));
                    assert(self.0@.drop_last() =~= old_entries);
                    assert(view_entries(self.0@) == view_entries(old_entries).push(
                        view_entry(self.0@.last()),
                    ));
                    assert(view_entry(self.0@.last())->Scope_1 == view_entries(sub.0@));
                    assert(view_entries(sub.0@) == spec_populate(path.drop_first(), key@, value@));
                    assert(view_entries(self.0@) =~= spec_set(
                        view_entries(old_entries),
                        path,
                        key@,
                        value@,
                    ));
                }
            },
        }
    }

    /// Creates the variable at the level addressed by `scope`, creating
    /// intermediate scopes as needed; an existing variable of the same name
    /// is kept and the new entry appended after it.
    pub fn set(&mut self, scope: &Vec<String>, key: String, value: Val)
        ensures
            final(self)@ == spec_set(old(self)@, scope.deep_view(), key@, value@),
    {
        self.set_from(scope, 0, key, value);
        proof {
            assert(scope.deep_view().skip(0) =~= scope.deep_view());
        }
    }
}

/// A fresh chain of scopes holding just the one variable.
fn populate_from(scope: &Vec<String>, from: usize, key: String, value: Val) -> (r: VarScopes)
    requires
        from <= scope@.len(),
    ensures
        r@ == spec_populate(scope.deep_view().skip(from as int), key@, value@),
    decreases scope.len() - from,
{
    if from >= scope.len() {
        let mut entries: Vec<VarScope> = Vec::new();
        entries.push(VarScope::Var(key, value));
        proof {
            assert(scope.deep_view().len() == scope@.len());
            assert(scope.deep_view().skip(from as int).len() == 0);
            assert(spec_populate(scope.deep_view().skip(from as int), key@, value@) =~= seq![
                SpecEntry::Var(key@, value@),
            ]);
            assert(entries@.drop_last() =~= Seq::<VarScope>::empty());
            assert(view_entries(entries@.drop_last()) =~= Seq::<SpecEntry>::empty());
            assert(entries@.len() == 1);
            assert(view_entries(entries@) == view_entries(entries@.drop_last()).push(
                view_entry(entries@.last()),
            ));
            assert(view_entry(entries@.last()) == SpecEntry::Var(key@, value@));
            assert(view_entries(entries@) =~= spec_populate(
                scope.deep_view().skip(from as int),
                key@,
                value@,
            ));
        }
        VarScopes(entries)
    } else {
        let sub = populate_from(scope, from + 1, key, value);
        let mut entries: Vec<VarScope> = Vec::new();
        entries.push(VarScope::Scope(scope[from].clone(), sub));
        proof {
            assert(scope.deep_view().len() == scope@.len());
            assert(entries@.drop_last() =~= Seq::<VarScope>::empty());
            assert(scope.deep_view().skip(from as int).drop_first() =~= scope.deep_view().skip(
                from as int + 1,
            ));
            assert(scope.deep_view().skip(from as int)[0] == scope@[from as int]@);
            assert(scope.deep_view().skip(from as int).len() > 0);
            assert(spec_populate(scope.deep_view().skip(from as int), key@, value@) =~= seq![
                SpecEntry::Scope(
                    scope@[from as int]@,
                    spec_populate(scope.deep_view().skip(from as int + 1), key@, value@),
                ),
            ]);
            assert(view_entries(entries@.drop_last()) =~= Seq::<SpecEntry>::empty());
            assert(entries@.len() == 1);
            assert(view_entries(entries@) == view_entries(entries@.drop_last()).push(
                view_entry(entries@.last()),
            ));
            assert(view_entry(entries@.last()) == SpecEntry::Scope(
                scope@[from as int]@,
                view_entries(sub.0@),
            ));
            assert(view_entries(sub.0@) == spec_populate(
                scope.deep_view().skip(from as int + 1),
                key@,
                value@,
            ));
            assert(view_entries(entries@) =~= spec_populate(
                scope.deep_view().skip(from as int),
                key@,
                value@,
            ));
        }
        VarScopes(entries)
    }
}

/// The entries visible at `path`: walk every matching sub-scope chain and
/// collect the entries of the deepest level reached.
pub open spec fn entries_in_scope(es: Seq<SpecEntry>, path: Seq<Seq<char>>) -> Seq<SpecEntry>
    decreases path.len(), es.len(),
{
    if path.len() == 0 {
        es
    } else if es.len() == 0 {
        Seq::empty()
    } else {
        scope_contribution(es[0], path) + entries_in_scope(es.drop_first(), path)
    }
}

/// What one entry contributes to a lookup of a non-empty `path`.
pub open spec fn scope_contribution(e: SpecEntry, path: Seq<Seq<char>>) -> Seq<SpecEntry>
    decreases path.len(), 0int,
{
    if path.len() == 0 {
        Seq::empty()
    } else if e is Scope && e->Scope_0 == path[0] {
        entries_in_scope(e->Scope_1, path.drop_first())
    } else {
        Seq::empty()
    }
}

/// Peeling the last entry off a lookup.
pub proof fn lemma_entries_in_scope_snoc(es: Seq<SpecEntry>, path: Seq<Seq<char>>)
    requires
        path.len() > 0,
        es.len() > 0,
    ensures
        entries_in_scope(es, path) == entries_in_scope(es.drop_last(), path) + scope_contribution(
            es.last(),
            path,
        ),
    decreases es.len(),
{
    if es.len() == 1 {
        assert(es.drop_first() =~= Seq::<SpecEntry>::empty());
        assert(es.drop_last() =~= Seq::<SpecEntry>::empty());
        assert(entries_in_scope(es, path) =~= entries_in_scope(es.drop_last(), path)
            + scope_contribution(es.last(), path));
    } else {
        lemma_entries_in_scope_snoc(es.drop_first(), path);
        assert(es.drop_first().drop_last() =~= es.drop_last().drop_first());
        assert(es.drop_first().last() == es.last());
        assert(es.drop_last()[0] == es[0]);
        assert(es.drop_last().len() > 0);
        assert(entries_in_scope(es, path) =~= entries_in_scope(es.drop_last(), path)
            + scope_contribution(es.last(), path));
    }
}

/// The name an entry binds.
pub open spec fn entry_name(e: SpecEntry) -> Seq<char> {
    match e {
        SpecEntry::Var(k, _) => k,
        SpecEntry::Scope(k, _) => k,
    }
}

/// The value an entry binds: a variable's value, or a sub-scope materialized
/// as an object.
pub open spec fn entry_spec_value(e: SpecEntry) -> SpecValue
    decreases e,
{
    match e {
        SpecEntry::Var(_, v) => v,
        SpecEntry::Scope(_, sub) => SpecValue::Obj(obj_pairs_of(sub)),
    }
}

/// The index of the first pair with key `k`, if any.
pub open spec fn find_key_idx(pairs: Seq<(Seq<char>, SpecValue)>, k: Seq<char>) -> Option<int>
    decreases pairs,
{
    if pairs.len() == 0 {
        Option::None
    } else if pairs[0].0 == k {
        Option::Some(0int)
    } else {
        match find_key_idx(pairs.drop_first(), k) {
            Option::Some(i) => Option::Some(i + 1),
            Option::None => Option::None,
        }
    }
}

/// What `find_key_idx` finds is the first match.
pub proof fn lemma_find_key_idx(pairs: Seq<(Seq<char>, SpecValue)>, k: Seq<char>)
    ensures
        match find_key_idx(pairs, k) {
            Option::Some(i) => 0 <= i < pairs.len() && pairs[i].0 == k && (forall|j: int|
                0 <= j < i ==> (#[trigger] pairs[j]).0 != k),
            Option::None => forall|j: int| 0 <= j < pairs.len() ==> (#[trigger] pairs[j]).0 != k,
        },
    decreases pairs,
{
    if pairs.len() > 0 {
        if pairs[0].0 == k {
        } else {
            lemma_find_key_idx(pairs.drop_first(), k);
            assert(forall|j: int|
                1 <= j < pairs.len() ==> #[trigger] pairs[j] == pairs.drop_first()[j - 1]);
        }
    }
}

/// Inserting into an object: an existing key keeps its position and takes the
/// new value; a new key is appended.
pub open spec fn spec_upsert(
    pairs: Seq<(Seq<char>, SpecValue)>,
    k: Seq<char>,
    v: SpecValue,
) -> Seq<(Seq<char>, SpecValue)> {
    match find_key_idx(pairs, k) {
        Option::Some(i) => pairs.update(i, (k, v)),
        Option::None => pairs.push((k, v)),
    }
}

/// A scope level materialized as object pairs, in entry order, later entries
/// of the same name overwriting earlier ones in place.
pub open spec fn obj_pairs_of(es: Seq<SpecEntry>) -> Seq<(Seq<char>, SpecValue)>
    decreases es,
{
    if es.len() == 0 {
        Seq::empty()
    } else {
        spec_upsert(obj_pairs_of(es.drop_last()), entry_name(es.last()), entry_spec_value(es.last()))
    }
}

/// The variable binding an entry adds to an evaluation context.
pub open spec fn entry_binding(e: SpecEntry) -> (Seq<char>, SpecValue) {
    (entry_name(e), entry_spec_value(e))
}

/// The bindings a list of entries adds to an evaluation context, in order.
pub open spec fn bindings_of(es: Seq<SpecEntry>) -> Seq<(Seq<char>, SpecValue)> {
    es.map_values(|e: SpecEntry| entry_binding(e))
}

/// A structural copy of an entry; the copy has the same view.
pub fn clone_entry(e: &VarScope) -> (r: VarScope)
    ensures
        r@ == e@,
    decreases e,
{
    match e {
        VarScope::Var(k, v) => VarScope::Var(k.clone(), clone_value(v)),
        VarScope::Scope(k, sub) => {
            proof {
                assert(decreases_to!(*e => (*e)->Scope_1));
                assert(decreases_to!((*e)->Scope_1 => (*e)->Scope_1.0));
            }
            VarScope::Scope(k.clone(), VarScopes(clone_entries(&sub.0)))
        },
    }
}

/// Clones each entry; the views match pointwise.
fn clone_entries(es: &Vec<VarScope>) -> (r: Vec<VarScope>)
    ensures
        view_entries(r@) == view_entries(es@),
    decreases es,
{
    let mut out: Vec<VarScope> = Vec::new();
    let mut i: usize = 0;
    while i < es.len()
        invariant
            i <= es.len(),
            out@.len() == i,
            forall|j: int| 0 <= j < i ==> view_entry(#[trigger] out@[j]) == view_entry(es@[j]),
        decreases es.len() - i,
    {
        proof {
            assert(decreases_to!(*es => es@));
            assert(decreases_to!(es@ => es@[i as int]));
        }
        out.push(clone_entry(&es[i]));
        i = i + 1;
    }
    proof {
        assert forall|j: int| 0 <= j < es@.len() implies view_entries(out@)[j] == view_entries(
            es@,
        )[j] by {
            lemma_view_entries_index(out@, j);
            lemma_view_entries_index(es@, j);
        }
        lemma_view_entries_len(out@);
        lemma_view_entries_len(es@);
        assert(view_entries(out@) =~= view_entries(es@));
    }
    out
}

impl VarScope {
    /// The nested scope tree, when this entry is a sub-scope of that name.
    pub fn get_scope_ref(&self, scope: &String) -> (r: Option<&VarScopes>)
        ensures
            match r {
                Option::Some(sub) => self@ is Scope && self@->Scope_0 == scope@ && sub@
                    == self@->Scope_1,
                Option::None => !(self@ is Scope && self@->Scope_0 == scope@),
            },
    {
        match self {
            VarScope::Scope(key, varscopes) => {
                if string_equal(key, scope) {
                    Option::Some(varscopes)
                } else {
                    Option::None
                }
            },
            _ => Option::None,
        }
    }
}

impl VarScope {
    /// The nested scope tree, borrowed mutably, when this entry is a
    /// sub-scope of that name.
    pub fn get_scope_mut(&mut self, scope: &String) -> (r: Option<&mut VarScopes>)
        ensures
            match r {
                Option::Some(sub) => old(self)@ is Scope && old(self)@->Scope_0 == scope@
                    && (*sub)@ == old(self)@->Scope_1 && final(self)@ == SpecEntry::Scope(
                    old(self)@->Scope_0,
                    final(sub)@,
                ),
                Option::None => !(old(self)@ is Scope && old(self)@->Scope_0 == scope@)
                    && *final(self) == *old(self),
            },
    {
        match self {
            VarScope::Scope(key, varscopes) => {
                if string_equal(key, scope) {
                    Option::Some(varscopes)
                } else {
                    Option::None
                }
            },
            _ => Option::None,
        }
    }
}

impl VarScopes {
    /// Lists, as copies, all entries that reside at the level addressed by
    /// the segments of `scope` from `from` onward, appended to `out`.
    fn list_from(&self, scope: &Vec<String>, from: usize, out: &mut Vec<VarScope>)
        requires
            from <= scope@.len(),
        ensures
            view_entries(final(out)@) == view_entries(old(out)@) + entries_in_scope(
                self@,
                scope.deep_view().skip(from as int),
            ),
        decreases scope.len() - from, 0int,
    {
        let ghost path = scope.deep_view().skip(from as int);
        proof {
            assert(scope.deep_view().len() == scope@.len());
        }
        if from >= scope.len() {
            let ghost pre = out@;
            let mut i: usize = 0;
            while i < self.0.len()
                invariant
                    i <= self.0@.len(),
                    out@.len() == pre.len() + i,
                    out@.subrange(0, pre.len() as int) =~= pre,
                    forall|j: int|
                        0 <= j < i ==> view_entry(#[trigger] out@[pre.len() + j]) == view_entry(
                            self.0@[j],
                        ),
                decreases self.0@.len() - i,
            {
                out.push(clone_entry(&self.0[i]));
                i = i + 1;
            }
            proof {
                assert(path.len() == 0);
                lemma_view_entries_len(out@);
                lemma_view_entries_len(pre);
                lemma_view_entries_len(self.0@);
                assert forall|j: int| 0 <= j < out@.len() implies view_entries(out@)[j] == (
                view_entries(pre) + view_entries(self.0@))[j] by {
                    lemma_view_entries_index(out@, j);
                    if j < pre.len() {
                        lemma_view_entries_index(pre, j);
                        assert(out@[j] == out@.subrange(0, pre.len() as int)[j]);
                    } else {
                        let t = j - pre.len();
                        assert(view_entry(out@[pre.len() + t]) == view_entry(self.0@[t]));
                        lemma_view_entries_index(self.0@, t);
                    }
                }
                assert(view_entries(out@) =~= view_entries(pre) + view_entries(self.0@));
            }
            return ;
        }
        proof {
            assert(path.len() > 0);
            assert(path[0] == scope@[from as int]@);
            assert(path.drop_first() =~= scope.deep_view().skip(from as int + 1));
        }
        let seg = &scope[from];
        let mut i: usize = 0;
        while i < self.0.len()
            invariant
                from < scope@.len(),
                i <= self.0@.len(),
                path == scope.deep_view().skip(from as int),
                path.len() > 0,
                path[0] == scope@[from as int]@,
                seg@ == scope@[from as int]@,
                view_entries(out@) == view_entries(old(out)@) + entries_in_scope(
                    view_entries(self.0@.subrange(0, i as int)),
                    path,
                ),
            decreases self.0@.len() - i,
        {
            let ghost prefix = self.0@.subrange(0, i as int);
            let ghost entered = out@;
            match &self.0[i] {
                VarScope::Scope(name, sub) => {
                    if string_equal(name, seg) {
                        proof {
                            assert(decreases_to!(*self => self.0));
                            assert(decreases_to!(self.0 => self.0@));
                            assert(decreases_to!(self.0@ => self.0@[i as int]));
                        }
                        sub.list_from(scope, from + 1, out);
                        proof {
                            assert(path.drop_first() =~= scope.deep_view().skip(
                                from as int + 1,
                            ));
                            assert(scope_contribution(view_entry(self.0@[i as int]), path)
                                == entries_in_scope(sub@, path.drop_first()));
                        }
                    } else {
                        proof {
                            assert(scope_contribution(view_entry(self.0@[i as int]), path)
                                =~= Seq::<SpecEntry>::empty());
                        }
                    }
                },
                _ => {
                    proof {
                        assert(scope_contribution(view_entry(self.0@[i as int]), path)
                            =~= Seq::<SpecEntry>::empty());
                    }
                },
            }
            proof {
                let next = self.0@.subrange(0, i as int + 1);
                assert(next.drop_last() =~= prefix);
                assert(next.last() == self.0@[i as int]);
                lemma_view_entries_len(next);
                lemma_view_entries_len(prefix);
                assert(view_entries(next).drop_last() =~= view_entries(prefix));
                assert(view_entries(next).last() == view_entry(self.0@[i as int]));
                lemma_view_entries_index(next, i as int);
                lemma_entries_in_scope_snoc(view_entries(next), path);
                assert(view_entries(next).drop_last() == view_entries(prefix));
                assert(entries_in_scope(view_entries(next), path) == entries_in_scope(
                    view_entries(prefix),
                    path,
                ) + scope_contribution(view_entry(self.0@[i as int]), path));
                assert(view_entries(out@) == view_entries(entered) + scope_contribution(
                    view_entry(self.0@[i as int]),
                    path,
                ) || view_entries(out@) == view_entries(entered));
                assert(view_entries(out@) =~= view_entries(old(out)@) + entries_in_scope(
                    view_entries(next),
                    path,
                ));
            }
            i = i + 1;
        }
        proof {
            assert(self.0@.subrange(0, self.0@.len() as int) =~= self.0@);
        }
    }

    /// Lists, as copies, all entries that reside at the level addressed by
    /// `scope`: every matching chain of sub-scopes is followed and the
    /// deepest levels' entries are concatenated in order.
    pub fn list_in_scope_ref(&self, scope: &Vec<String>) -> (r: Vec<VarScope>)
        ensures
            view_entries(r@) == entries_in_scope(self@, scope.deep_view()),
    {
        let mut out: Vec<VarScope> = Vec::new();
        self.list_from(scope, 0, &mut out);
        proof {
            assert(scope.deep_view().skip(0) =~= scope.deep_view());
            assert(view_entries(Seq::<VarScope>::empty()) =~= Seq::<SpecEntry>::empty());
            assert(view_entries(out@) =~= entries_in_scope(self@, scope.deep_view()));
        }
        out
    }
}

/// The index of the first pair with key `k`, as `find_key_idx` gives it.
fn find_key_index(pairs: &Vec<(String, Val)>, k: &String) -> (r: Option<usize>)
    ensures
        match r {
            Option::Some(i) => i < pairs@.len() && find_key_idx(view_pairs(pairs@), k@)
                == Option::Some(i as int),
            Option::None => find_key_idx(view_pairs(pairs@), k@) is None,
        },
{
    let ghost vps = view_pairs(pairs@);
    proof {
        crate::value::lemma_view_pairs_len(pairs@);
    }
    let mut j: usize = 0;
    while j < pairs.len()
        invariant
            j <= pairs@.len(),
            vps == view_pairs(pairs@),
            vps.len() == pairs@.len(),
            forall|t: int| 0 <= t < j ==> (#[trigger] vps[t]).0 != k@,
        decreases pairs@.len() - j,
    {
        let matched = string_equal(&pairs[j].0, k);
        proof {
            crate::value::lemma_view_pairs_index(pairs@, j as int);
        }
        if matched {
            proof {
                lemma_find_key_idx(vps, k@);
                assert(vps[j as int].0 == k@);
                assert(find_key_idx(vps, k@) == Option::Some(j as int));
            }
            return Option::Some(j);
        }
        j = j + 1;
    }
    proof {
        lemma_find_key_idx(vps, k@);
    }
    Option::None
}

/// Inserts `k = v` into object pairs: an existing key keeps its position and
/// takes the new value, a new key is appended.
fn upsert_pair(pairs: &mut Vec<(String, Val)>, k: String, v: Val)
    ensures
        view_pairs(final(pairs)@) == spec_upsert(view_pairs(old(pairs)@), k@, view_value(v)),
{
    let found = find_key_index(pairs, &k);
    match found {
        Option::Some(i) => {
            let ghost pre = pairs@;
            let slot = &mut pairs[i];
            *slot = (k, v);
            proof {
                crate::value::lemma_view_pairs_len(pairs@);
                crate::value::lemma_view_pairs_len(pre);
                assert forall|t: int| 0 <= t < pre.len() implies view_pairs(pairs@)[t]
                    == spec_upsert(view_pairs(pre), k@, view_value(v))[t] by {
                    crate::value::lemma_view_pairs_index(pairs@, t);
                    crate::value::lemma_view_pairs_index(pre, t);
                }
                assert(view_pairs(pairs@) =~= spec_upsert(view_pairs(pre), k@, view_value(v)));
            }
        },
        Option::None => {
            let ghost pre = pairs@;
            pairs.push((k, v));
            proof {
                assert(pairs@.drop_last() =~= pre);
                assert(view_pairs(pairs@) == view_pairs(pre).push((k@, view_value(v))));
                assert(view_pairs(pairs@) =~= spec_upsert(view_pairs(pre), k@, view_value(v)));
            }
        },
    }
}

/// Materializes a list of entries as object pairs, in entry order, a later
/// entry of a name already present overwriting that name in place.
fn entries_obj_pairs(es: &Vec<VarScope>) -> (r: Vec<(String, Val)>)
    ensures
        view_pairs(r@) == obj_pairs_of(view_entries(es@)),
    decreases es,
{
    let mut out: Vec<(String, Val)> = Vec::new();
    let mut i: usize = 0;
    proof {
        lemma_view_entries_len(es@);
        assert(es@.subrange(0, 0) =~= Seq::<VarScope>::empty());
        assert(view_pairs(out@) =~= obj_pairs_of(view_entries(es@.subrange(0, 0))));
    }
    while i < es.len()
        invariant
            i <= es@.len(),
            view_pairs(out@) == obj_pairs_of(view_entries(es@.subrange(0, i as int))),
        decreases es@.len() - i,
    {
        let named: (String, Val) = match &es[i] {
            VarScope::Var(k, v) => (k.clone(), clone_value(v)),
            VarScope::Scope(k, sub) => {
                proof {
                    assert(decreases_to!(*es => es@));
                    assert(decreases_to!(es@ => es@[i as int]));
                    assert(decreases_to!(es@[i as int] => es@[i as int]->Scope_1));
                    assert(decreases_to!(es@[i as int]->Scope_1 => es@[i as int]->Scope_1.0));
                }
                (k.clone(), Val::Obj(entries_obj_pairs(&sub.0)))
            },
        };
        let (k, v) = named;
        proof {
            assert(k@ == entry_name(view_entry(es@[i as int])));
            assert(view_value(v) == entry_spec_value(view_entry(es@[i as int])));
        }
        upsert_pair(&mut out, k, v);
        proof {
            let prefix = es@.subrange(0, i as int);
            let next = es@.subrange(0, i as int + 1);
            assert(next.drop_last() =~= prefix);
            assert(next.last() == es@[i as int]);
            lemma_view_entries_len(next);
            lemma_view_entries_len(prefix);
            assert(view_entries(next).drop_last() =~= view_entries(prefix));
            assert(view_entries(next).last() == view_entry(es@[i as int]));
            assert(obj_pairs_of(view_entries(next)) == spec_upsert(
                obj_pairs_of(view_entries(prefix)),
                entry_name(view_entry(es@[i as int])),
                entry_spec_value(view_entry(es@[i as int])),
            ));
        }
        i = i + 1;
    }
    proof {
        assert(es@.subrange(0, es@.len() as int) =~= es@);
    }
    out
}

/// The variables an evaluation context carries, in declaration order; a later
/// declaration of a name shadows an earlier one.
#[derive(Debug, PartialEq)]
pub struct EvalContext {
    pub vars: Vec<(String, Val)>,
}

impl View for EvalContext {
    type V = Seq<(Seq<char>, SpecValue)>;

    open spec fn view(&self) -> Seq<(Seq<char>, SpecValue)> {
        view_pairs(self.vars@)
    }
}

impl EvalContext {
    /// A context with no variables.
    pub fn new() -> (r: Self)
        ensures
            r@ == Seq::<(Seq<char>, SpecValue)>::empty(),
    {
        EvalContext { vars: Vec::new() }
    }

    /// Declares a variable; a later declaration of the same name wins.
    pub fn declare_var(&mut self, k: String, v: Val)
        ensures
            final(self)@ == old(self)@.push((k@, view_value(v))),
    {
        let ghost pre = self.vars@;
        self.vars.push((k, v));
        proof {
            assert(self.vars@.drop_last() =~= pre);
        }
    }
}

impl VarScopes {
    /// Materializes this level as an object value: variables become keys,
    /// sub-scopes become nested objects; a repeated name keeps its first
    /// position and takes its last value.
    pub fn to_hcl_value(&self) -> (r: Val)
        ensures
            r@ == SpecValue::Obj(obj_pairs_of(self@)),
    {
        proof {
            assert(decreases_to!(*self => self.0));
        }
        Val::Obj(entries_obj_pairs(&self.0))
    }

    /// Declares into `ctx` every entry visible at `scope`, in order:
    /// variables directly, sub-scopes materialized as objects.
    pub fn populate_hcl_ctx(&self, ctx: &mut EvalContext, scope: &Vec<String>)
        ensures
            final(ctx)@ == old(ctx)@ + bindings_of(entries_in_scope(self@, scope.deep_view())),
    {
        let entries = self.list_in_scope_ref(scope);
        let ghost all = view_entries(entries@);
        proof {
            lemma_view_entries_len(entries@);
            assert(all.subrange(0, 0) =~= Seq::<SpecEntry>::empty());
            assert(ctx@ + bindings_of(all.subrange(0, 0)) =~= ctx@);
        }
        let mut i: usize = 0;
        while i < entries.len()
            invariant
                i <= entries@.len(),
                all == view_entries(entries@),
                all.len() == entries@.len(),
                ctx@ == old(ctx)@ + bindings_of(all.subrange(0, i as int)),
            decreases entries@.len() - i,
        {
            let ghost pre = ctx@;
            let e = clone_entry(&entries[i]);
            proof {
                lemma_view_entries_index(entries@, i as int);
                assert(e@ == all[i as int]);
            }
            match e {
                VarScope::Var(k, v) => {
                    ctx.declare_var(k, v);
                },
                VarScope::Scope(k, sub) => {
                    let val = sub.to_hcl_value();
                    ctx.declare_var(k, val);
                },
            }
            proof {
                assert(ctx@ == pre.push(entry_binding(all[i as int])));
                assert(all.subrange(0, i as int + 1).drop_last() =~= all.subrange(0, i as int));
                assert(all.subrange(0, i as int + 1).last() == all[i as int]);
                assert(bindings_of(all.subrange(0, i as int + 1)) =~= bindings_of(
                    all.subrange(0, i as int),
                ).push(entry_binding(all[i as int])));
                assert(ctx@ =~= old(ctx)@ + bindings_of(all.subrange(0, i as int + 1)));
            }
            i = i + 1;
        }
        proof {
            assert(all.subrange(0, all.len() as int) =~= all);
        }
    }

    /// A fresh evaluation context holding exactly the variables visible at
    /// `scope`.
    pub fn to_hcl_ctx(&self, scope: &Vec<String>) -> (r: EvalContext)
        ensures
            r@ == bindings_of(entries_in_scope(self@, scope.deep_view())),
    {
        let mut ctx = EvalContext::new();
        self.populate_hcl_ctx(&mut ctx, scope);
        proof {
            assert(ctx@ =~= bindings_of(entries_in_scope(self@, scope.deep_view())));
        }
        ctx
    }
}

/// String equality by content.



pub fn string_equal(a: &String, b: &String) -> (r: bool)
    ensures
        r == (a@ == b@),
{
    a.eq(b)
}

} // verus!
