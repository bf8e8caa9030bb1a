//! The pool of shared named definitions: an insertion-ordered mapping from a
//! composite type's canonical name to its schema node. Binding a name again
//! overwrites the earlier node but keeps the name's place, so the pool's
//! order — and with it the emitted document — is deterministic.

use vstd::prelude::*;
use vstd::pervasive::VecAdditionalExecFns;
use crate::node::{pairs_view, prop_view, Property, PropertyView};

verus! {

/// Binds `name` to `node` in `d`: at its first occurrence, keeping its place,
/// or appended at the end when `name` is not yet bound.
pub open spec fn defs_insert(
    d: Seq<(Seq<char>, PropertyView)>,
    name: Seq<char>,
    node: PropertyView,
) -> Seq<(Seq<char>, PropertyView)>
    decreases d.len(),
{
    if d.len() == 0 {
        seq![(name, node)]
    } else if d[0].0 == name {
        seq![(name, node)] + d.drop_first()
    } else {
        seq![d[0]] + defs_insert(d.drop_first(), name, node)
    }
}

/// Inserts every entry of `e` into `d`, left to right: a map union in which
/// the later writer wins on a name collision.
pub open spec fn defs_extend(
    d: Seq<(Seq<char>, PropertyView)>,
    e: Seq<(Seq<char>, PropertyView)>,
) -> Seq<(Seq<char>, PropertyView)>
    decreases e.len(),
{
    if e.len() == 0 {
        d
    } else {
        defs_extend(defs_insert(d, e[0].0, e[0].1), e.drop_first())
    }
}

/// The node bound to `name`, going by the name's first occurrence.
pub open spec fn defs_get(d: Seq<(Seq<char>, PropertyView)>, name: Seq<char>) -> Option<
    PropertyView,
>
    decreases d.len(),
{
    if d.len() == 0 {
        Option::None
    } else if d[0].0 == name {
        Option::Some(d[0].1)
    } else {
        defs_get(d.drop_first(), name)
    }
}

/// Whether `name` is bound in `d`.
pub open spec fn defs_contains(d: Seq<(Seq<char>, PropertyView)>, name: Seq<char>) -> bool {
    defs_get(d, name) is Some
}

/// A lookup after an insert: the inserted name answers with the new node,
/// every other name answers as before.
pub proof fn lemma_defs_get_insert(
    d: Seq<(Seq<char>, PropertyView)>,
    name: Seq<char>,
    node: PropertyView,
    k: Seq<char>,
)
    ensures
        defs_get(defs_insert(d, name, node), k) == if k == name {
            Option::Some(node)
        } else {
            defs_get(d, k)
        },
    decreases d.len(),
{
    reveal_with_fuel(defs_get, 3);
    if d.len() == 0 {
        let r = defs_insert(d, name, node);
        assert(r == seq![(name, node)]);
        assert(r[0] == (name, node));
        assert(r.drop_first() =~= Seq::<(Seq<char>, PropertyView)>::empty());
    } else if d[0].0 == name {
        let r = defs_insert(d, name, node);
        assert(r == seq![(name, node)] + d.drop_first());
        assert(r[0] == (name, node));
        assert(r.drop_first() =~= d.drop_first());
    } else {
        lemma_defs_get_insert(d.drop_first(), name, node, k);
        let r = defs_insert(d, name, node);
        assert(r == seq![d[0]] + defs_insert(d.drop_first(), name, node));
        assert(r[0] == d[0]);
        assert(r.drop_first() =~= defs_insert(d.drop_first(), name, node));
    }
}

/// A lookup after a merge: a name bound in `e` answers from `e` when `e`
/// binds it once at most; a name not bound in `e` answers from `d`.
pub proof fn lemma_defs_get_extend(
    d: Seq<(Seq<char>, PropertyView)>,
    e: Seq<(Seq<char>, PropertyView)>,
    k: Seq<char>,
)
    ensures
        defs_contains(defs_extend(d, e), k) <==> (defs_contains(d, k) || defs_contains(e, k)),
        !defs_contains(e, k) ==> defs_get(defs_extend(d, e), k) == defs_get(d, k),
    decreases e.len(),
{
    if e.len() > 0 {
        lemma_defs_get_insert(d, e[0].0, e[0].1, k);
        lemma_defs_get_extend(defs_insert(d, e[0].0, e[0].1), e.drop_first(), k);
    }
}

/// No name is bound twice.
pub open spec fn defs_unique(d: Seq<(Seq<char>, PropertyView)>) -> bool {
    forall|i: int, j: int| 0 <= i < j < d.len() ==> d[i].0 != d[j].0
}

/// Every entry's name is bound.
pub proof fn lemma_defs_contains_at(d: Seq<(Seq<char>, PropertyView)>, idx: int)
    requires
        0 <= idx < d.len(),
    ensures
        defs_contains(d, d[idx].0),
    decreases d.len(),
{
    if d[0].0 != d[idx].0 {
        lemma_defs_contains_at(d.drop_first(), idx - 1);
    }
}

/// A bound name stands at some entry.
pub proof fn lemma_defs_contains_index(d: Seq<(Seq<char>, PropertyView)>, k: Seq<char>)
    requires
        defs_contains(d, k),
    ensures
        exists|i: int| 0 <= i < d.len() && #[trigger] d[i].0 == k,
    decreases d.len(),
{
    if d[0].0 == k {
        assert(0 <= 0 < d.len() && d[0].0 == k);
    } else {
        lemma_defs_contains_index(d.drop_first(), k);
        let w = choose|w: int| 0 <= w < d.drop_first().len() && #[trigger] d.drop_first()[w].0 == k;
        assert(d[w + 1].0 == k);
    }
}

/// Inserting keeps the names unique.
pub proof fn lemma_defs_insert_unique(
    d: Seq<(Seq<char>, PropertyView)>,
    name: Seq<char>,
    node: PropertyView,
)
    requires
        defs_unique(d),
    ensures
        defs_unique(defs_insert(d, name, node)),
    decreases d.len(),
{
    let r = defs_insert(d, name, node);
    if d.len() == 0 {
    } else if d[0].0 == name {
        assert forall|i: int, j: int| 0 <= i < j < r.len() implies r[i].0 != r[j].0 by {
            if i == 0 {
                assert(r[j] == d[j]);
            } else {
                assert(r[i] == d[i]);
                assert(r[j] == d[j]);
            }
        }
    } else {
        assert forall|i: int, j: int|
            0 <= i < j < d.drop_first().len() implies d.drop_first()[i].0
            != d.drop_first()[j].0 by {
            assert(d.drop_first()[i] == d[i + 1]);
            assert(d.drop_first()[j] == d[j + 1]);
        }
        lemma_defs_insert_unique(d.drop_first(), name, node);
        let rec = defs_insert(d.drop_first(), name, node);
        assert forall|i: int, j: int| 0 <= i < j < r.len() implies r[i].0 != r[j].0 by {
            if i == 0 {
                assert(r[j] == rec[j - 1]);
                lemma_defs_contains_at(rec, j - 1);
                lemma_defs_get_insert(d.drop_first(), name, node, rec[j - 1].0);
                if rec[j - 1].0 != name {
                    lemma_defs_contains_index(d.drop_first(), rec[j - 1].0);
                    let w = choose|w: int|
                        0 <= w < d.drop_first().len() && #[trigger] d.drop_first()[w].0 == rec[j
                            - 1].0;
                    assert(d[w + 1].0 == rec[j - 1].0);
                }
            } else {
                assert(r[i] == rec[i - 1]);
                assert(r[j] == rec[j - 1]);
            }
        }
    }
}

/// Merging keeps the names unique.
pub proof fn lemma_defs_extend_unique(
    d: Seq<(Seq<char>, PropertyView)>,
    e: Seq<(Seq<char>, PropertyView)>,
)
    requires
        defs_unique(d),
    ensures
        defs_unique(defs_extend(d, e)),
    decreases e.len(),
{
    if e.len() > 0 {
        lemma_defs_insert_unique(d, e[0].0, e[0].1);
        lemma_defs_extend_unique(defs_insert(d, e[0].0, e[0].1), e.drop_first());
    }
}

/// Element-by-element description of `pairs_view`.
pub proof fn lemma_pairs_view(l: Seq<(String, Property)>)
    ensures
        pairs_view(l).len() == l.len(),
        forall|i: int|
            0 <= i < l.len() ==> #[trigger] pairs_view(l)[i] == (l[i].0@, prop_view(l[i].1)),
    decreases l.len(),
{
    if l.len() > 0 {
        lemma_pairs_view(l.drop_first());
    }
}

/// When `name` first occurs at position `i`, the insert is an update in place.
pub proof fn lemma_defs_insert_found(
    d: Seq<(Seq<char>, PropertyView)>,
    name: Seq<char>,
    node: PropertyView,
    i: int,
)
    requires
        0 <= i < d.len(),
        d[i].0 == name,
        forall|j: int| 0 <= j < i ==> d[j].0 != name,
    ensures
        defs_insert(d, name, node) == d.update(i, (name, node)),
    decreases i,
{
    if i == 0 {
        assert(defs_insert(d, name, node) =~= d.update(0, (name, node)));
    } else {
        lemma_defs_insert_found(d.drop_first(), name, node, i - 1);
        assert(defs_insert(d, name, node) =~= d.update(i, (name, node)));
    }
}

/// When `name` is not yet bound, the insert appends at the end.
pub proof fn lemma_defs_insert_fresh(
    d: Seq<(Seq<char>, PropertyView)>,
    name: Seq<char>,
    node: PropertyView,
)
    requires
        forall|j: int| 0 <= j < d.len() ==> d[j].0 != name,
    ensures
        defs_insert(d, name, node) == d.push((name, node)),
    decreases d.len(),
{
    if d.len() > 0 {
        lemma_defs_insert_fresh(d.drop_first(), name, node);
        assert(defs_insert(d, name, node) =~= d.push((name, node)));
    } else {
        assert(defs_insert(d, name, node) =~= d.push((name, node)));
    }
}

/// The accumulated pool of named definitions, keyed by canonical type name
/// and kept in first-insertion order.
#[derive(Debug, PartialEq, Eq)]
pub struct Definitions {
    entries: Vec<(String, Property)>,
}

impl View for Definitions {
    type V = Seq<(Seq<char>, PropertyView)>;

    closed spec fn view(&self) -> Seq<(Seq<char>, PropertyView)> {
        pairs_view(self.entries@)
    }
}

impl Definitions {
    /// An empty pool.
    pub fn new() -> (r: Definitions)
        ensures
            r@ == Seq::<(Seq<char>, PropertyView)>::empty(),
    {
        let r = Definitions { entries: Vec::new() };
        proof {
            assert(r@ =~= Seq::<(Seq<char>, PropertyView)>::empty());
        }
        r
    }

    /// Binds `name` to `node`; a name already present keeps its place and
    /// gets the new node.
    pub fn insert(&mut self, name: String, node: Property)
        ensures
            final(self)@ == defs_insert(old(self)@, name@, prop_view(node)),
    {
        let ghost orig = self.entries@;
        let mut i: usize = 0;
        while i < self.entries.len()
            invariant
                i <= self.entries@.len(),
                self.entries@ == orig,
                orig == old(self).entries@,
                forall|j: int| 0 <= j < i ==> orig[j].0@ != name@,
            decreases self.entries@.len() - i,
        {
            if self.entries[i].0 == name {
                proof {
                    lemma_pairs_view(orig);
                    lemma_defs_insert_found(pairs_view(orig), name@, prop_view(node), i as int);
                }
                self.entries.set(i, (name, node));
                proof {
                    lemma_pairs_view(orig);
                    lemma_pairs_view(self.entries@);
                    assert(pairs_view(self.entries@) =~= pairs_view(orig).update(
                        i as int,
                        (name@, prop_view(node)),
                    ));
                }
                return ;
            }
            i += 1;
        }
        proof {
            lemma_pairs_view(orig);
            lemma_defs_insert_fresh(pairs_view(orig), name@, prop_view(node));
        }
        self.entries.push((name, node));
        proof {
            lemma_pairs_view(orig);
            lemma_pairs_view(self.entries@);
            assert(pairs_view(self.entries@) =~= pairs_view(orig).push((name@, prop_view(node))));
        }
    }

    /// Inserts every entry of `other`, in `other`'s order; the later writer
    /// wins on a name collision.
    pub fn extend(&mut self, other: Definitions)
        ensures
            final(self)@ == defs_extend(old(self)@, other@),
    {
        let ghost other_view = other@;
        let mut rest = other;
        while rest.entries.len() > 0
            invariant
                defs_extend(self@, rest@) == defs_extend(old(self)@, other_view),
            decreases rest.entries@.len(),
        {
            let ghost rest_pre = rest.entries@;
            proof {
                lemma_pairs_view(rest_pre);
            }
            let (name, node) = rest.entries.remove(0);
            proof {
                lemma_pairs_view(rest.entries@);
                assert(pairs_view(rest.entries@) =~= pairs_view(rest_pre).drop_first());
            }
            self.insert(name, node);
        }
        proof {
            assert(rest@ =~= Seq::<(Seq<char>, PropertyView)>::empty());
        }
    }

    /// Whether the pool holds no definition at all.
    pub fn is_empty(&self) -> (r: bool)
        ensures
            r == (self@.len() == 0),
    {
        proof {
            lemma_pairs_view(self.entries@);
        }
        self.entries.len() == 0
    }

    /// How many names are bound.
    pub fn len(&self) -> (r: usize)
        ensures
            r == self@.len(),
    {
        proof {
            lemma_pairs_view(self.entries@);
        }
        self.entries.len()
    }

    /// Hands the pool out as its entries, in first-insertion order.
    pub fn into_entries(self) -> (r: Vec<(String, Property)>)
        ensures
            pairs_view(r@) == self@,
    {
        self.entries
    }

    /// The node bound to `name`, if any.
    pub fn get(&self, name: &String) -> (r: Option<&Property>)
        ensures
            match r {
                Option::Some(node) => defs_get(self@, name@) == Option::Some(prop_view(*node)),
                Option::None => defs_get(self@, name@) is None,
            },
    {
        proof {
            lemma_pairs_view(self.entries@);
            assert(self@.skip(0) =~= self@);
        }
        let mut i: usize = 0;
        while i < self.entries.len()
            invariant
                i <= self.entries@.len(),
                pairs_view(self.entries@).len() == self.entries@.len(),
                forall|j: int|
                    0 <= j < self.entries@.len() ==> #[trigger] pairs_view(self.entries@)[j] == (
                        self.entries@[j].0@,
                        prop_view(self.entries@[j].1),
                    ),
                forall|j: int| 0 <= j < i ==> self.entries@[j].0@ != name@,
                defs_get(self@, name@) == defs_get(self@.skip(i as int), name@),
            decreases self.entries@.len() - i,
        {
            if self.entries[i].0 == *name {
                proof {
                    assert(self@.skip(i as int)[0].0 == name@);
                }
                return Option::Some(&self.entries[i].1);
            }
            proof {
                assert(self@.skip(i as int).drop_first() =~= self@.skip(i as int + 1));
            }
            i += 1;
        }
        proof {
            assert(self@.skip(i as int) =~= Seq::<(Seq<char>, PropertyView)>::empty());
        }
        Option::None
    }
}

} // verus!
