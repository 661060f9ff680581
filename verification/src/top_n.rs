//! A bounded collection that keeps the greatest ranked items it has been offered
//! (the "fat tail" of the slowest context actions).

use vstd::multiset::Multiset;
use vstd::prelude::*;

verus! {

broadcast use {
    vstd::seq_lib::group_to_multiset_ensures,
    vstd::multiset::group_multiset_axioms,
    vstd::multiset::group_multiset_properties,
};

/// An item offered to a [`TopN`]: a rank and an identifier, ordered as std orders
/// tuples (first by rank, then by identifier).
pub open spec fn rank_le(a: (u64, u64), b: (u64, u64)) -> bool {
    a.0 < b.0 || (a.0 == b.0 && a.1 <= b.1)
}

/// Strict version of [`rank_le`].
pub open spec fn rank_lt(a: (u64, u64), b: (u64, u64)) -> bool {
    a.0 < b.0 || (a.0 == b.0 && a.1 < b.1)
}

/// `x` is an element of `m` that ranks at or below every element of `m`.
pub open spec fn is_least(m: Multiset<(u64, u64)>, x: (u64, u64)) -> bool {
    m.contains(x) && forall|y: (u64, u64)| m.contains(y) ==> rank_le(x, y)
}

/// The least element of a non-empty multiset.
pub open spec fn least(m: Multiset<(u64, u64)>) -> (u64, u64) {
    choose|x: (u64, u64)| is_least(m, x)
}

/// What one offer of `val` does to the kept items `m` of a collection bounded by `max`:
/// below the bound (or when nothing is kept) the value is added; otherwise it replaces
/// the least kept item when it ranks strictly above it, and is refused when it does not.
pub open spec fn add_step(max: nat, m: Multiset<(u64, u64)>, val: (u64, u64)) -> Multiset<
    (u64, u64),
> {
    if m.len() < max || m.len() == 0 {
        m.insert(val)
    } else if rank_lt(least(m), val) {
        m.remove(least(m)).insert(val)
    } else {
        m
    }
}

/// How many items a collection bounded by `max` keeps after `offered` offers. A bound
/// of zero still keeps one item: the first offer always lands in an empty collection.
pub open spec fn capped_len(max: nat, offered: nat) -> nat {
    let bound = if max == 0 { 1 } else { max };
    if offered < bound { offered } else { bound }
}

/// Keeps, out of all the items offered, the `max` greatest ones.
pub struct TopN {
    data: Vec<(u64, u64)>,
    max: usize,
    offered: Ghost<Seq<(u64, u64)>>,
}

impl View for TopN {
    type V = Multiset<(u64, u64)>;

    /// The items currently kept.
    closed spec fn view(&self) -> Multiset<(u64, u64)> {
        self.data@.to_multiset()
    }
}

/// Ranking is antisymmetric: two items that rank at or below each other are equal.
proof fn lemma_rank_antisymmetric(a: (u64, u64), b: (u64, u64))
    requires
        rank_le(a, b),
        rank_le(b, a),
    ensures
        a == b,
{
}

/// A multiset has at most one least element, and `least` picks it.
proof fn lemma_least_is(m: Multiset<(u64, u64)>, x: (u64, u64))
    requires
        is_least(m, x),
    ensures
        least(m) == x,
{
    let l = least(m);
    assert(is_least(m, l));
    lemma_rank_antisymmetric(l, x);
}

fn is_rank_lt(a: (u64, u64), b: (u64, u64)) -> (r: bool)
    ensures
        r == rank_lt(a, b),
{
    a.0 < b.0 || (a.0 == b.0 && a.1 < b.1)
}

/// Index of an element of `v` that ranks at or below all others.
fn least_index(v: &Vec<(u64, u64)>) -> (i: usize)
    requires
        v.len() > 0,
    ensures
        i < v.len(),
        forall|j: int| 0 <= j < v.len() ==> rank_le(v[i as int], #[trigger] v[j]),
{
    let mut best: usize = 0;
    let mut k: usize = 1;
    while k < v.len()
        invariant
            0 < k <= v.len(),
            best < k,
            forall|j: int| 0 <= j < k ==> rank_le(v[best as int], #[trigger] v[j]),
        decreases v.len() - k,
    {
        if is_rank_lt(v[k], v[best]) {
            best = k;
        }
        k = k + 1;
    }
    best
}

/// Index of an element of `v` that ranks at or above all others.
fn greatest_index(v: &Vec<(u64, u64)>) -> (i: usize)
    requires
        v.len() > 0,
    ensures
        i < v.len(),
        forall|j: int| 0 <= j < v.len() ==> rank_le(#[trigger] v[j], v[i as int]),
{
    let mut best: usize = 0;
    let mut k: usize = 1;
    while k < v.len()
        invariant
            0 < k <= v.len(),
            best < k,
            forall|j: int| 0 <= j < k ==> rank_le(#[trigger] v[j], v[best as int]),
        decreases v.len() - k,
    {
        if is_rank_lt(v[best], v[k]) {
            best = k;
        }
        k = k + 1;
    }
    best
}

impl TopN {
    /// The bound given at construction.
    pub closed spec fn max(&self) -> nat {
        self.max as nat
    }

    /// Every item offered so far, in the order of the offers.
    pub closed spec fn offered(&self) -> Seq<(u64, u64)> {
        self.offered@
    }

    /// What the collection keeps, in terms of everything offered to it:
    /// - it keeps only items that were offered (as often as they were offered at most);
    /// - it keeps as many as were offered, up to the bound;
    /// - every offered item that is not kept ranks at or below every kept item;
    /// - when it keeps as many as were offered, it keeps exactly what was offered.
    pub open spec fn wf(&self) -> bool {
        let kept = self@;
        let all = self.offered().to_multiset();
        &&& kept.subset_of(all)
        &&& kept.len() == capped_len(self.max(), self.offered().len())
        &&& forall|x: (u64, u64), y: (u64, u64)|
            #![trigger kept.count(x), kept.contains(y)]
            kept.count(x) < all.count(x) && kept.contains(y) ==> rank_le(x, y)
        &&& kept.len() == all.len() ==> kept == all
    }

    /// An empty collection that will keep the `max` greatest items offered to it.
    pub fn new(max: usize) -> (t: TopN)
        ensures
            t.wf(),
            t@ == Multiset::<(u64, u64)>::empty(),
            t.max() == max,
            t.offered() == Seq::<(u64, u64)>::empty(),
    {
        let t = TopN { data: Vec::new(), max, offered: Ghost(Seq::empty()) };
        proof {
            assert(t.data@.to_multiset() =~= Multiset::empty());
            assert(t.offered().to_multiset() =~= Multiset::empty());
        }
        t
    }

    /// How many items are kept.
    pub fn len(&self) -> (n: usize)
        ensures
            n == self@.len(),
    {
        self.data.len()
    }

    /// Offers `val`: while fewer than `max` items are kept it is added; otherwise it
    /// replaces the least kept item if it ranks strictly above it.
    pub fn add(&mut self, val: (u64, u64))
        requires
            old(self).wf(),
        ensures
            final(self).wf(),
            final(self).max() == old(self).max(),
            final(self).offered() == old(self).offered().push(val),
            final(self)@ == add_step(old(self).max(), old(self)@, val),
    {
        let ghost old_data = self.data@;
        let ghost kept = self@;
        let ghost all = self.offered().to_multiset();
        let heap_len = self.data.len();
        let mut should_add = true;
        let mut min_idx: usize = 0;
        if heap_len > 0 {
            min_idx = least_index(&self.data);
            should_add = is_rank_lt(self.data[min_idx], val);
            proof {
                let m = old_data[min_idx as int];
                assert forall|y: (u64, u64)| kept.contains(y) implies rank_le(m, y) by {
                    let j = old_data.index_of(y);
                    assert(old_data[j] == y);
                }
                lemma_least_is(kept, m);
            }
        }
        if heap_len < self.max {
            self.data.push(val);
        } else if should_add {
            if heap_len > 0 {
                self.data.remove(min_idx);
            }
            self.data.push(val);
        }
        self.offered = Ghost(self.offered@.push(val));
        proof {
            let new_all = self.offered().to_multiset();
            assert(new_all =~= all.insert(val));
            if heap_len < self.max || heap_len == 0 {
                assert(self@ =~= kept.insert(val));
                assert(kept =~= all);
                assert(self@ =~= new_all);
            } else if should_add {
                let m = least(kept);
                assert(old_data.remove(min_idx as int).to_multiset() =~= kept.remove(m));
                assert(self@ =~= kept.remove(m).insert(val));
                assert forall|x: (u64, u64), y: (u64, u64)|
                    #![trigger self@.count(x), self@.contains(y)]
                    self@.count(x) < new_all.count(x) && self@.contains(y) implies rank_le(
                        x,
                        y,
                    ) by {
                    if kept.contains(y) {
                        assert(rank_le(m, y));
                    }
                    if x != m {
                        assert(kept.count(x) < all.count(x));
                    }
                }
            } else {
                let m = least(kept);
                assert(self@ =~= kept);
                assert forall|x: (u64, u64), y: (u64, u64)|
                    #![trigger self@.count(x), self@.contains(y)]
                    self@.count(x) < new_all.count(x) && self@.contains(y) implies rank_le(
                        x,
                        y,
                    ) by {
                    assert(rank_le(m, y));
                    if x != val {
                        assert(kept.count(x) < all.count(x));
                    }
                }
            }
        }
    }

    /// The kept items, greatest first.
    pub fn into_descending_vec(self) -> (v: Vec<(u64, u64)>)
        ensures
            v@.to_multiset() == self@,
            forall|i: int, j: int| 0 <= i < j < v.len() ==> rank_le(#[trigger] v[j], #[trigger] v[i]),
    {
        let ghost whole = self@;
        let mut rest = self.data;
        let mut out: Vec<(u64, u64)> = Vec::new();
        proof {
            assert(out@.to_multiset() =~= Multiset::empty());
            assert(out@.to_multiset().add(rest@.to_multiset()) =~= whole);
        }
        while rest.len() > 0
            invariant
                out@.to_multiset().add(rest@.to_multiset()) == whole,
                forall|i: int, j: int|
                    0 <= i < j < out.len() ==> rank_le(#[trigger] out[j], #[trigger] out[i]),
                forall|i: int, k: int|
                    0 <= i < out.len() && 0 <= k < rest.len() ==> rank_le(
                        #[trigger] rest[k],
                        #[trigger] out[i],
                    ),
            decreases rest.len(),
        {
            let ghost old_rest = rest@;
            let ghost old_out = out@;
            let k = greatest_index(&rest);
            let v = rest.remove(k);
            out.push(v);
            proof {
                assert(old_rest.remove(k as int) == rest@);
                assert(out@.to_multiset().add(rest@.to_multiset()) =~= whole);
                assert forall|i: int, k2: int|
                    0 <= i < out.len() && 0 <= k2 < rest.len() implies rank_le(
                        #[trigger] rest[k2],
                        #[trigger] out[i],
                    ) by {
                    if k2 < k {
                        assert(rest[k2] == old_rest[k2]);
                    } else {
                        assert(rest[k2] == old_rest[k2 + 1]);
                    }
                }
            }
        }
        proof {
            assert(rest@.to_multiset() =~= Multiset::empty());
            assert(out@.to_multiset() =~= whole);
        }
        out
    }
}

} // verus!
