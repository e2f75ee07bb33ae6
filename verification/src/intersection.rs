//! Crossings of a ray with shapes, ordered along the ray, and the hit among
//! them.

use crate::scalar::Scalar;
use vstd::prelude::*;

verus! {

/// One crossing: the ray parameter `t` and the index of the shape crossed.
#[derive(Clone, Copy, Debug, PartialEq, Eq, Structural)]
pub struct Intersection {
    pub t: Scalar,
    pub object_id: usize,
}

impl Intersection {
    pub fn new(t: Scalar, object_id: usize) -> (r: Intersection)
        ensures
            r.t == t,
            r.object_id == object_id,
    {
        Intersection { t, object_id }
    }

    /// At the ray's origin or in front of it: `t >= 0`.
    pub open spec fn ahead(self) -> bool {
        !self.t.nan() && self.t.rank() >= 0
    }
}

/// No parameter is a NaN.
pub open spec fn all_numbers(s: Seq<Intersection>) -> bool {
    forall|i: int| 0 <= i < s.len() ==> !(#[trigger] s[i]).t.nan()
}

/// The crossings can be put in order: no parameter is a NaN, or there is
/// at most one crossing, which needs no ordering.
pub open spec fn sortable(s: Seq<Intersection>) -> bool {
    s.len() <= 1 || all_numbers(s)
}

/// Parameters never decrease from one entry to the next.
pub open spec fn ascending(s: Seq<Intersection>) -> bool {
    forall|i: int, j: int| 0 <= i < j < s.len() ==> s[i].t.rank() <= s[j].t.rank()
}

/// The test "has a parameter of rank `k`".
pub open spec fn has_rank(k: int) -> spec_fn(Intersection) -> bool {
    |x: Intersection| x.t.rank() == k
}

/// The entries whose parameter has rank `k`, in the order they stand in.
pub open spec fn at_rank(s: Seq<Intersection>, k: int) -> Seq<Intersection> {
    s.filter(has_rank(k))
}

/// `sorted` is `input` sorted by parameter, entries of equal parameter
/// keeping the order they had in `input`. At most one sequence is that
/// (`lemma_stable_sort_is_unique`).
pub open spec fn is_stable_sort(input: Seq<Intersection>, sorted: Seq<Intersection>) -> bool {
    &&& ascending(sorted)
    &&& forall|k: int| #[trigger] at_rank(sorted, k) == at_rank(input, k)
}

/// `k` is the place of the hit: the first entry at or ahead of the origin.
pub open spec fn is_hit_at(s: Seq<Intersection>, k: int) -> bool {
    &&& 0 <= k < s.len()
    &&& s[k].ahead()
    &&& forall|j: int| 0 <= j < k ==> !(#[trigger] s[j]).ahead()
}

/// Every entry lies behind the origin.
pub open spec fn no_hit(s: Seq<Intersection>) -> bool {
    forall|j: int| 0 <= j < s.len() ==> !(#[trigger] s[j]).ahead()
}

/// In an ascending sequence the first entry ahead of the origin has the
/// least parameter of all entries ahead of it.
pub proof fn lemma_hit_is_nearest(s: Seq<Intersection>, k: int, j: int)
    requires
        ascending(s),
        is_hit_at(s, k),
        0 <= j < s.len(),
        s[j].ahead(),
    ensures
        s[k].t.rank() <= s[j].t.rank(),
{
    if j < k {
        assert(!s[j].ahead());
    }
}

/// Two ascending sequences that hold, rank by rank, the same entries in the
/// same order are one and the same sequence.
pub proof fn lemma_ranks_determine_order(a: Seq<Intersection>, b: Seq<Intersection>)
    requires
        ascending(a),
        ascending(b),
        forall|k: int| #[trigger] at_rank(a, k) == at_rank(b, k),
    ensures
        a == b,
    decreases a.len(),
{
    if a.len() == 0 {
        if b.len() > 0 {
            let k = b[0].t.rank();
            assert(has_rank(k)(b[0]));
            b.lemma_filter_contains(has_rank(k), 0);
            assert(at_rank(b, k).len() > 0);
            reveal(Seq::filter);
            assert(at_rank(a, k).len() == 0);
        }
        assert(a =~= b);
    } else {
        let x = a.last();
        let k = x.t.rank();
        let a0 = a.drop_last();
        assert(a =~= a0.push(x));
        a0.lemma_filter_push(x, has_rank(k));
        assert(at_rank(a, k) == at_rank(a0, k).push(x));
        assert(at_rank(b, k).len() > 0);
        if b.len() == 0 {
            reveal(Seq::filter);
            assert(at_rank(b, k).len() == 0);
        }
        let y = b.last();
        let ky = y.t.rank();
        let b0 = b.drop_last();
        assert(b =~= b0.push(y));
        if ky != k {
            if ky > k {
                // an entry of rank ky stands in a, behind none of rank k
                assert(has_rank(ky)(b[b.len() - 1]));
                b.lemma_filter_contains(has_rank(ky), b.len() - 1);
                let z = at_rank(a, ky)[0];
                a.lemma_filter_pred(has_rank(ky), 0);
                assert(at_rank(a, ky).contains(z));
                a.lemma_filter_contains_rev(has_rank(ky), z);
                let i = choose|i: int| 0 <= i < a.len() && a[i] == z;
                assert(a[i].t.rank() <= a[a.len() - 1].t.rank());
            } else {
                let z = at_rank(b, k)[0];
                b.lemma_filter_pred(has_rank(k), 0);
                assert(at_rank(b, k).contains(z));
                b.lemma_filter_contains_rev(has_rank(k), z);
                let i = choose|i: int| 0 <= i < b.len() && b[i] == z;
                assert(b[i].t.rank() <= b[b.len() - 1].t.rank());
            }
            assert(false);
        }
        b0.lemma_filter_push(y, has_rank(k));
        assert(at_rank(b, k) == at_rank(b0, k).push(y));
        assert(at_rank(a0, k).push(x).last() == at_rank(b0, k).push(y).last());
        assert(x == y);
        assert forall|j: int| #[trigger] at_rank(a0, j) == at_rank(b0, j) by {
            a0.lemma_filter_push(x, has_rank(j));
            b0.lemma_filter_push(y, has_rank(j));
            assert(at_rank(a, j) == at_rank(b, j));
            if j == k {
                assert(at_rank(a0, j).push(x).drop_last() =~= at_rank(a0, j));
                assert(at_rank(b0, j).push(y).drop_last() =~= at_rank(b0, j));
            }
        }
        lemma_ranks_determine_order(a0, b0);
        assert(a =~= b);
    }
}

/// Any two stable sorts of one sequence are equal: to say that a sequence
/// is the stable sort of another is to say which sequence it is.
pub proof fn lemma_stable_sort_is_unique(
    input: Seq<Intersection>,
    first: Seq<Intersection>,
    second: Seq<Intersection>,
)
    requires
        is_stable_sort(input, first),
        is_stable_sort(input, second),
    ensures
        first == second,
{
    assert forall|k: int| #[trigger] at_rank(first, k) == at_rank(second, k) by {
        assert(at_rank(first, k) == at_rank(input, k));
        assert(at_rank(second, k) == at_rank(input, k));
    }
    lemma_ranks_determine_order(first, second);
}

/// Putting `x` in front of entries that all have a greater parameter adds
/// `x` at the end of its own rank and changes no other rank.
proof fn lemma_insert_at_rank(s: Seq<Intersection>, p: int, x: Intersection, k: int)
    requires
        0 <= p <= s.len(),
        forall|j: int| p <= j < s.len() ==> x.t.rank() < (#[trigger] s[j]).t.rank(),
    ensures
        at_rank(s.insert(p, x), k) == if x.t.rank() == k {
            at_rank(s, k).push(x)
        } else {
            at_rank(s, k)
        },
{
    let pred = has_rank(k);
    let head = s.take(p);
    let tail = s.skip(p);
    assert(s =~= head + tail);
    assert(s.insert(p, x) =~= head.push(x) + tail);
    Seq::filter_distributes_over_add(head, tail, pred);
    Seq::filter_distributes_over_add(head.push(x), tail, pred);
    head.lemma_filter_push(x, pred);
    if x.t.rank() == k {
        assert(tail.all(|y: Intersection| !pred(y))) by {
            assert forall|i: int| 0 <= i < tail.len() implies !pred(#[trigger] tail[i]) by {
                assert(tail[i] == s[p + i]);
            }
        }
        tail.lemma_all_neg_filter_empty(pred);
        assert(tail.filter(pred) =~= Seq::<Intersection>::empty());
        assert(head.filter(pred) + tail.filter(pred) =~= head.filter(pred));
        assert(head.filter(pred).push(x) + tail.filter(pred) =~= head.filter(pred).push(x));
    }
}

/// The crossings of one ray, ascending by parameter.
pub struct Intersections {
    intersections: Vec<Intersection>,
}

impl View for Intersections {
    type V = Seq<Intersection>;

    closed spec fn view(&self) -> Seq<Intersection> {
        self.intersections@
    }
}

impl Intersections {
    #[verifier::type_invariant]
    spec fn ordered(self) -> bool {
        ascending(self.intersections@) && sortable(self.intersections@)
    }

    /// Sorts the crossings by parameter, ascending and stably. A NaN
    /// cannot be ordered, so none may stand among two crossings or more.
    pub fn new(collection: Vec<Intersection>) -> (r: Intersections)
        requires
            sortable(collection@),
        ensures
            is_stable_sort(collection@, r@),
            r@.to_multiset() == collection@.to_multiset(),
            r@.len() == collection@.len(),
            sortable(r@),
            all_numbers(collection@) ==> all_numbers(r@),
    {
        if collection.len() <= 1 {
            return Intersections { intersections: collection };
        }
        let mut sorted: Vec<Intersection> = Vec::new();
        let mut i: usize = 0;
        assert(collection@.take(0) =~= Seq::<Intersection>::empty());
        while i < collection.len()
            invariant
                i <= collection.len(),
                all_numbers(collection@),
                all_numbers(sorted@),
                ascending(sorted@),
                sorted@.len() == i,
                sorted@.to_multiset() == collection@.take(i as int).to_multiset(),
                forall|k: int| #[trigger]
                    at_rank(sorted@, k) == at_rank(collection@.take(i as int), k),
            decreases collection.len() - i,
        {
            let x: Intersection = collection[i];
            let mut p: usize = sorted.len();
            while p > 0 && x.t.lt(sorted[p - 1].t)
                invariant
                    p <= sorted.len(),
                    all_numbers(sorted@),
                    !x.t.nan(),
                    forall|j: int| p <= j < sorted.len() ==> x.t.rank() < (#[trigger] sorted@[j]).t.rank(),
                decreases p,
            {
                p -= 1;
            }
            proof {
                let before = sorted@;
                let after = before.insert(p as int, x);
                assert(p > 0 ==> before[p - 1].t.rank() <= x.t.rank());
                assert(ascending(after)) by {
                    assert forall|a: int, b: int| 0 <= a < b < after.len() implies after[a].t.rank()
                        <= after[b].t.rank() by {
                        if b < p {
                        } else if b == p {
                            assert(before[a].t.rank() <= before[p - 1].t.rank());
                        } else if a == p {
                            assert(after[b] == before[b - 1]);
                        } else if a < p {
                            assert(after[b] == before[b - 1]);
                            assert(before[a].t.rank() <= before[b - 1].t.rank());
                        } else {
                            assert(after[a] == before[a - 1]);
                            assert(after[b] == before[b - 1]);
                        }
                    }
                }
                assert(collection@.take(i + 1) =~= collection@.take(i as int).push(x));
                vstd::seq_lib::to_multiset_insert(before, p as int, x);
                vstd::seq_lib::to_multiset_build(collection@.take(i as int), x);
                assert forall|k: int| #[trigger]
                    at_rank(after, k) == at_rank(collection@.take(i + 1), k) by {
                    lemma_insert_at_rank(before, p as int, x, k);
                    collection@.take(i as int).lemma_filter_push(x, has_rank(k));
                    assert(at_rank(before, k) == at_rank(collection@.take(i as int), k));
                }
                assert(all_numbers(after)) by {
                    assert forall|a: int| 0 <= a < after.len() implies !(#[trigger] after[a]).t.nan() by {
                        if a < p {
                        } else if a == p {
                        } else {
                            assert(after[a] == before[a - 1]);
                        }
                    }
                }
            }
            sorted.insert(p, x);
            i += 1;
        }
        assert(collection@.take(i as int) =~= collection@);
        Intersections { intersections: sorted }
    }

    pub fn len(&self) -> (n: usize)
        ensures
            n == self@.len(),
    {
        self.intersections.len()
    }

    /// The entry at `index`, counted along the ray.
    pub fn at(&self, index: usize) -> (r: Intersection)
        requires
            index < self@.len(),
        ensures
            r == self@[index as int],
    {
        self.intersections[index]
    }

    /// The place of the hit, if the ray hits anything.
    pub fn hit_index(&self) -> (r: Option<usize>)
        ensures
            ascending(self@),
            sortable(self@),
            match r {
                Some(k) => is_hit_at(self@, k as int),
                None => no_hit(self@),
            },
    {
        proof {
            use_type_invariant(self);
        }
        let zero: Scalar = Scalar::zero();
        let mut k: usize = 0;
        while k < self.intersections.len()
            invariant
                k <= self.intersections.len(),
                zero.bits == 0,
                ascending(self.intersections@),
                sortable(self.intersections@),
                forall|j: int| 0 <= j < k ==> !(#[trigger] self.intersections@[j]).ahead(),
            decreases self.intersections.len() - k,
        {
            if self.intersections[k].t.ge(zero) {
                return Some(k);
            }
            k += 1;
        }
        None
    }

    /// The hit: the entry with the least parameter that is not negative, or
    /// `None` where every parameter is negative.
    pub fn hit(&self) -> (r: Option<&Intersection>)
        ensures
            match r {
                Some(x) => exists|k: int| is_hit_at(self@, k) && *x == self@[k],
                None => no_hit(self@),
            },
            forall|j: int|
                0 <= j < self@.len() && (#[trigger] self@[j]).ahead() ==> r.is_some()
                    && r.unwrap().t.rank() <= self@[j].t.rank(),
    {
        match self.hit_index() {
            Some(k) => {
                proof {
                    assert forall|j: int| 0 <= j < self@.len() && (#[trigger] self@[j]).ahead() implies self@[k as int].t.rank()
                        <= self@[j].t.rank() by {
                        lemma_hit_is_nearest(self@, k as int, j);
                    }
                }
                Some(&self.intersections[k])
            },
            None => None,
        }
    }

    /// The parameters, in ascending order.
    pub fn get(&self) -> (ts: Vec<Scalar>)
        ensures
            ts@.len() == self@.len(),
            forall|i: int| 0 <= i < ts@.len() ==> ts@[i] == (#[trigger] self@[i]).t,
    {
        let mut ts: Vec<Scalar> = Vec::new();
        let mut i: usize = 0;
        while i < self.intersections.len()
            invariant
                i <= self.intersections.len(),
                ts@.len() == i,
                forall|j: int| 0 <= j < i ==> ts@[j] == (#[trigger] self.intersections@[j]).t,
            decreases self.intersections.len() - i,
        {
            ts.push(self.intersections[i].t);
            i += 1;
        }
        ts
    }
}

} // verus!
