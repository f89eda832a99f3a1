//! The tree that the registry's entries describe: which keys lie below a
//! key, and what removing a set of keys does to the entries that stay.

use vstd::prelude::*;

use crate::element::ElementEntry;
use crate::id::ElementKey;

verus! {

/// `rank` orders the entries so that every child that is itself live has a
/// smaller rank than its parent entry: following children links never
/// returns to where it started.
pub open spec fn ranked(m: Map<u64, ElementEntry>, rank: Map<u64, nat>) -> bool {
    &&& forall|k: u64| m.dom().contains(k) ==> rank.dom().contains(k)
    &&& forall|k: u64, i: int|
        #![trigger m[k].children@[i]]
        m.dom().contains(k) && 0 <= i < m[k].children@.len() && m.dom().contains(
            m[k].children@[i].raw(),
        ) ==> rank[m[k].children@[i].raw()] < rank[k]
}

/// Following children links among live entries never cycles.
pub open spec fn children_acyclic(m: Map<u64, ElementEntry>) -> bool {
    exists|rank: Map<u64, nat>| ranked(m, rank)
}

/// The keys at or below `k`: `k` itself (when live) and, for each child of
/// `k` ranked below it, the keys at or below that child.
pub open spec fn reach(m: Map<u64, ElementEntry>, rank: Map<u64, nat>, k: u64) -> Set<u64>
    decreases (if rank.dom().contains(k) { rank[k] + 1 } else { 0 }), 0nat,
{
    if m.dom().contains(k) && rank.dom().contains(k) {
        set![k].union(reach_list(m, rank, m[k].children@, rank[k]))
    } else {
        Set::empty()
    }
}

/// The keys at or below the children in `cs` that are ranked below `bound`.
pub open spec fn reach_list(
    m: Map<u64, ElementEntry>,
    rank: Map<u64, nat>,
    cs: Seq<ElementKey>,
    bound: nat,
) -> Set<u64>
    decreases bound, cs.len(),
{
    if cs.len() == 0 {
        Set::empty()
    } else {
        let c = cs.last().raw();
        reach_list(m, rank, cs.drop_last(), bound).union(
            if rank.dom().contains(c) && rank[c] < bound {
                reach(m, rank, c)
            } else {
                Set::empty()
            },
        )
    }
}

/// The keys at or below `k` in the live entries `m` (under a ranking that
/// `m` admits, when it admits one).
pub open spec fn subtree(m: Map<u64, ElementEntry>, k: u64) -> Set<u64> {
    reach(m, choose|rank: Map<u64, nat>| ranked(m, rank), k)
}

/// `c`, listed as a child of `k`, is a removed key whose parent is `k`.
pub open spec fn removed_child_of(
    m: Map<u64, ElementEntry>,
    gone: Set<u64>,
    c: ElementKey,
    k: u64,
) -> bool {
    &&& gone.contains(c.raw())
    &&& m.dom().contains(c.raw())
    &&& m[c.raw()].parent matches Some(p) && p.raw() == k
}

/// The children of `k` once every removed key whose parent is `k` is taken
/// out of the list.
pub open spec fn cleaned(m: Map<u64, ElementEntry>, gone: Set<u64>, k: u64) -> Seq<ElementKey> {
    m[k].children@.filter(|c: ElementKey| !removed_child_of(m, gone, c, k))
}

/// `after` is `before` with the keys in `gone` removed: the other entries keep
/// their element and parent, and each loses from its children the removed
/// keys that named it as parent.
pub open spec fn removed_from(
    before: Map<u64, ElementEntry>,
    after: Map<u64, ElementEntry>,
    gone: Set<u64>,
) -> bool {
    &&& after.dom() == before.dom().difference(gone)
    &&& forall|k: u64|
        #![trigger after[k]]
        after.dom().contains(k) ==> {
            &&& after[k].element == before[k].element
            &&& after[k].parent == before[k].parent
            &&& after[k].children@ == cleaned(before, gone, k)
        }
}

// ---------------------------------------------------------------------------
// Filters

/// Filtering by `p` then by `q` is filtering by both at once.
pub proof fn lemma_filter_and<A>(s: Seq<A>, p: spec_fn(A) -> bool, q: spec_fn(A) -> bool)
    ensures
        s.filter(p).filter(q) == s.filter(|x: A| p(x) && q(x)),
    decreases s.len(),
{
    let pq = |x: A| p(x) && q(x);
    if s.len() > 0 {
        let init = s.drop_last();
        lemma_filter_and(init, p, q);
        assert(init.push(s.last()) =~= s);
        init.lemma_filter_push(s.last(), p);
        init.lemma_filter_push(s.last(), pq);
        init.filter(p).lemma_filter_push(s.last(), q);
    } else {
        reveal(Seq::filter);
    }
}

/// Filters that agree on every item of `s` give the same result.
pub proof fn lemma_filter_ext<A>(s: Seq<A>, p: spec_fn(A) -> bool, q: spec_fn(A) -> bool)
    requires
        forall|i: int| 0 <= i < s.len() ==> p(s[i]) == q(s[i]),
    ensures
        s.filter(p) == s.filter(q),
    decreases s.len(),
{
    if s.len() > 0 {
        let init = s.drop_last();
        lemma_filter_ext(init, p, q);
        assert(init.push(s.last()) =~= s);
        init.lemma_filter_push(s.last(), p);
        init.lemma_filter_push(s.last(), q);
    } else {
        reveal(Seq::filter);
    }
}

/// A filter that every item passes keeps the sequence whole.
pub proof fn lemma_filter_all<A>(s: Seq<A>, p: spec_fn(A) -> bool)
    requires
        forall|i: int| 0 <= i < s.len() ==> p(s[i]),
    ensures
        s.filter(p) == s,
    decreases s.len(),
{
    if s.len() > 0 {
        let init = s.drop_last();
        lemma_filter_all(init, p);
        assert(init.push(s.last()) =~= s);
        init.lemma_filter_push(s.last(), p);
    } else {
        reveal(Seq::filter);
    }
}

// ---------------------------------------------------------------------------
// Reach

/// Everything at or below `k` is live and ranked no higher than `k`.
pub proof fn lemma_reach_bound(m: Map<u64, ElementEntry>, rank: Map<u64, nat>, k: u64, y: u64)
    requires
        reach(m, rank, k).contains(y),
    ensures
        m.dom().contains(k),
        rank.dom().contains(k),
        m.dom().contains(y),
        rank.dom().contains(y),
        rank[y] <= rank[k],
    decreases rank[k] + 1, 0nat,
{
    if y != k {
        lemma_reach_list_bound(m, rank, m[k].children@, rank[k], y);
    }
}

/// Everything below the listed children (ranked under the bound) is live
/// and ranked under the bound.
pub proof fn lemma_reach_list_bound(
    m: Map<u64, ElementEntry>,
    rank: Map<u64, nat>,
    cs: Seq<ElementKey>,
    bound: nat,
    y: u64,
)
    requires
        reach_list(m, rank, cs, bound).contains(y),
    ensures
        m.dom().contains(y),
        rank.dom().contains(y),
        rank[y] < bound,
    decreases bound, cs.len(),
{
    if cs.len() > 0 {
        let c = cs.last().raw();
        if reach_list(m, rank, cs.drop_last(), bound).contains(y) {
            lemma_reach_list_bound(m, rank, cs.drop_last(), bound, y);
        } else {
            lemma_reach_bound(m, rank, c, y);
        }
    }
}

/// A key in `reach_list` lies at or below one of the listed children.
pub proof fn lemma_reach_list_member(
    m: Map<u64, ElementEntry>,
    rank: Map<u64, nat>,
    cs: Seq<ElementKey>,
    bound: nat,
    y: u64,
) -> (i: int)
    requires
        reach_list(m, rank, cs, bound).contains(y),
    ensures
        0 <= i < cs.len(),
        rank.dom().contains(cs[i].raw()),
        rank[cs[i].raw()] < bound,
        reach(m, rank, cs[i].raw()).contains(y),
    decreases cs.len(),
{
    let c = cs.last().raw();
    if reach_list(m, rank, cs.drop_last(), bound).contains(y) {
        let i = lemma_reach_list_member(m, rank, cs.drop_last(), bound, y);
        i
    } else {
        (cs.len() - 1) as int
    }
}

/// The keys at or below a listed child (ranked below the bound) are in
/// `reach_list`.
pub proof fn lemma_reach_list_includes(
    m: Map<u64, ElementEntry>,
    rank: Map<u64, nat>,
    cs: Seq<ElementKey>,
    bound: nat,
    i: int,
)
    requires
        0 <= i < cs.len(),
        rank.dom().contains(cs[i].raw()),
        rank[cs[i].raw()] < bound,
    ensures
        reach(m, rank, cs[i].raw()).subset_of(reach_list(m, rank, cs, bound)),
    decreases cs.len(),
{
    if i < cs.len() - 1 {
        lemma_reach_list_includes(m, rank, cs.drop_last(), bound, i);
    }
}

/// A live child of a key at or below `k` is itself at or below `k`.
pub proof fn lemma_reach_child(
    m: Map<u64, ElementEntry>,
    rank: Map<u64, nat>,
    k: u64,
    y: u64,
    i: int,
)
    requires
        ranked(m, rank),
        reach(m, rank, k).contains(y),
        0 <= i < m[y].children@.len(),
        m.dom().contains(m[y].children@[i].raw()),
    ensures
        reach(m, rank, k).contains(m[y].children@[i].raw()),
    decreases rank[k],
{
    lemma_reach_bound(m, rank, k, y);
    let c = m[y].children@[i].raw();
    if y == k {
        lemma_reach_list_includes(m, rank, m[k].children@, rank[k], i);
    } else {
        let j = lemma_reach_list_member(m, rank, m[k].children@, rank[k], y);
        let cj = m[k].children@[j].raw();
        lemma_reach_bound(m, rank, cj, y);
        lemma_reach_child(m, rank, cj, y, i);
        lemma_reach_list_includes(m, rank, m[k].children@, rank[k], j);
    }
}

/// Everything at or below a key at or below `k` is at or below `k`.
pub proof fn lemma_reach_transitive(m: Map<u64, ElementEntry>, rank: Map<u64, nat>, k: u64, y: u64)
    requires
        ranked(m, rank),
        reach(m, rank, k).contains(y),
    ensures
        reach(m, rank, y).subset_of(reach(m, rank, k)),
    decreases rank[y],
{
    lemma_reach_bound(m, rank, k, y);
    assert forall|z: u64| reach(m, rank, y).contains(z) implies reach(m, rank, k).contains(z) by {
        if z != y {
            let i = lemma_reach_list_member(m, rank, m[y].children@, rank[y], z);
            let c = m[y].children@[i].raw();
            lemma_reach_bound(m, rank, c, z);
            lemma_reach_child(m, rank, k, y, i);
            lemma_reach_transitive(m, rank, k, c);
        }
    }
}

// ---------------------------------------------------------------------------
// Removal

/// Every key at or below a key of `gone` is in `gone`.
pub open spec fn closed_below(m: Map<u64, ElementEntry>, rank: Map<u64, nat>, gone: Set<u64>) -> bool {
    forall|y: u64| #[trigger] gone.contains(y) ==> reach(m, rank, y).subset_of(gone)
}

/// Removing nothing changes nothing.
pub proof fn lemma_removed_nothing(m: Map<u64, ElementEntry>)
    ensures
        removed_from(m, m, Set::empty()),
{
    assert(m.dom().difference(Set::empty()) =~= m.dom());
    assert forall|k: u64| #[trigger] m.dom().contains(k) implies m[k].children@ == cleaned(m, Set::empty(), k) by {
        lemma_filter_all(m[k].children@, |c: ElementKey| !removed_child_of(m, Set::empty(), c, k));
    }
}

/// Removal keeps a ranking valid.
pub proof fn lemma_removal_keeps_rank(
    m0: Map<u64, ElementEntry>,
    m1: Map<u64, ElementEntry>,
    rank: Map<u64, nat>,
    gone: Set<u64>,
)
    requires
        ranked(m0, rank),
        removed_from(m0, m1, gone),
    ensures
        ranked(m1, rank),
{
    assert forall|k: u64, i: int|
        #![trigger m1[k].children@[i]]
        m1.dom().contains(k) && 0 <= i < m1[k].children@.len() && m1.dom().contains(
            m1[k].children@[i].raw(),
        ) implies rank[m1[k].children@[i].raw()] < rank[k] by {
        let pred = |c: ElementKey| !removed_child_of(m0, gone, c, k);
        m0[k].children@.lemma_filter_contains_rev(pred, m1[k].children@[i]);
        let j = choose|j: int| 0 <= j < m0[k].children@.len() && m0[k].children@[j] == m1[k].children@[i];
    }
}

/// Removing `a` and then `b` (keys that were still there) removes `a ∪ b`.
pub proof fn lemma_removal_compose(
    m0: Map<u64, ElementEntry>,
    m1: Map<u64, ElementEntry>,
    m2: Map<u64, ElementEntry>,
    a: Set<u64>,
    b: Set<u64>,
)
    requires
        removed_from(m0, m1, a),
        removed_from(m1, m2, b),
        b.subset_of(m1.dom()),
    ensures
        removed_from(m0, m2, a.union(b)),
{
    assert(m2.dom() =~= m0.dom().difference(a.union(b)));
    assert forall|k: u64| #[trigger] m2.dom().contains(k) implies m2[k].children@ == cleaned(m0, a.union(b), k) by {
        let p = |c: ElementKey| !removed_child_of(m0, a, c, k);
        let q = |c: ElementKey| !removed_child_of(m1, b, c, k);
        let r = |c: ElementKey| !removed_child_of(m0, a.union(b), c, k);
        lemma_filter_and(m0[k].children@, p, q);
        let cs = m0[k].children@;
        assert forall|i: int| 0 <= i < cs.len() implies (p(cs[i]) && q(cs[i])) == r(cs[i]) by {
            let x = cs[i].raw();
        }
        lemma_filter_ext(cs, |c: ElementKey| p(c) && q(c), r);
    }
}

/// After removing a set closed below, the keys at or below `c` are the ones
/// that were there before, less the removed ones.
pub proof fn lemma_reach_after_removal(
    m0: Map<u64, ElementEntry>,
    m1: Map<u64, ElementEntry>,
    rank: Map<u64, nat>,
    gone: Set<u64>,
    c: u64,
)
    requires
        ranked(m0, rank),
        removed_from(m0, m1, gone),
        closed_below(m0, rank, gone),
    ensures
        reach(m1, rank, c) == reach(m0, rank, c).difference(gone),
    decreases (if rank.dom().contains(c) { rank[c] + 1 } else { 0 }), 0nat,
{
    if m1.dom().contains(c) && rank.dom().contains(c) {
        lemma_reach_list_after_removal(m0, m1, rank, gone, c, m0[c].children@, rank[c]);
    }
}

/// After removing a set closed below, the keys below the children that
/// stay are the ones that were below all the children, less the removed ones.
pub proof fn lemma_reach_list_after_removal(
    m0: Map<u64, ElementEntry>,
    m1: Map<u64, ElementEntry>,
    rank: Map<u64, nat>,
    gone: Set<u64>,
    k: u64,
    cs: Seq<ElementKey>,
    bound: nat,
)
    requires
        ranked(m0, rank),
        removed_from(m0, m1, gone),
        closed_below(m0, rank, gone),
    ensures
        reach_list(m1, rank, cs.filter(|x: ElementKey| !removed_child_of(m0, gone, x, k)), bound)
            == reach_list(m0, rank, cs, bound).difference(gone),
    decreases bound, cs.len(),
{
    let pred = |x: ElementKey| !removed_child_of(m0, gone, x, k);
    if cs.len() == 0 {
        reveal(Seq::filter);
    } else {
        let init = cs.drop_last();
        let x = cs.last();
        let xr = x.raw();
        assert(init.push(x) =~= cs);
        init.lemma_filter_push(x, pred);
        lemma_reach_list_after_removal(m0, m1, rank, gone, k, init, bound);
        let guard = rank.dom().contains(xr) && rank[xr] < bound;
        if pred(x) {
            let fl = init.filter(pred);
            assert(fl.push(x).drop_last() =~= fl);
            if guard {
                lemma_reach_after_removal(m0, m1, rank, gone, xr);
            }
        }
    }
}

/// The keys at or below the first `j` children form a set closed below.
pub proof fn lemma_reach_list_closed(
    m: Map<u64, ElementEntry>,
    rank: Map<u64, nat>,
    cs: Seq<ElementKey>,
    bound: nat,
)
    requires
        ranked(m, rank),
    ensures
        closed_below(m, rank, reach_list(m, rank, cs, bound)),
{
    assert forall|y: u64| #[trigger] reach_list(m, rank, cs, bound).contains(y) implies reach(m, rank, y).subset_of(reach_list(m, rank, cs, bound)) by {
        let i = lemma_reach_list_member(m, rank, cs, bound, y);
        lemma_reach_transitive(m, rank, cs[i].raw(), y);
        lemma_reach_list_includes(m, rank, cs, bound, i);
    }
}

} // verus!
