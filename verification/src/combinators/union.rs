//! Union: the nearest of two or more surfaces.

use vstd::prelude::*;

use crate::Sdf;
use crate::combinators::StateBlender;
use crate::fixed::{Fix, fmin};

verus! {

/// The union of two fields: at every point the smaller of the two
/// distances, with the payload chosen by the blender.
#[derive(Debug, Clone, Copy, PartialEq, Hash)]
pub struct Union<Lhs, Rhs, B> {
    pub lhs: Lhs,
    pub rhs: Rhs,
    pub state_blender: B,
}

impl<S, Lhs, Rhs, B> Sdf for Union<Lhs, Rhs, B> where
    Lhs: Sdf<State = S>,
    Rhs: Sdf<State = S>,
    B: StateBlender<S>,
 {
    type State = S;

    open spec fn wf(&self) -> bool {
        self.lhs.wf() && self.rhs.wf()
    }

    open spec fn accepts_dim(&self, dim: nat) -> bool {
        self.lhs.accepts_dim(dim) && self.rhs.accepts_dim(dim)
    }

    open spec fn state_defined(&self) -> bool {
        self.lhs.state_defined() && self.rhs.state_defined()
    }

    /// The minimum of the children's distances.
    open spec fn spec_distance(&self, p: Seq<int>) -> int {
        fmin(self.lhs.spec_distance(p), self.rhs.spec_distance(p))
    }

    /// The blend of the children's payloads, nearest-wins by default.
    open spec fn spec_state(&self, p: Seq<int>) -> S {
        self.state_blender.spec_blend(
            self.lhs.spec_distance(p),
            self.lhs.spec_state(p),
            self.rhs.spec_distance(p),
            self.rhs.spec_state(p),
        )
    }

    fn distance_from_slice(&self, point: &[Fix]) -> (d: Fix) {
        self.lhs.distance_from_slice(point).min(self.rhs.distance_from_slice(point))
    }

    fn state(&self, point: &[Fix]) -> (s: S) {
        let lhs_distance = self.lhs.distance_from_slice(point);
        let rhs_distance = self.rhs.distance_from_slice(point);
        let lhs_state = self.lhs.state(point);
        let rhs_state = self.rhs.state(point);
        self.state_blender.blend((lhs_distance, lhs_state), (rhs_distance, rhs_state))
    }

    /// Evaluates each child's distance and payload once, so the
    /// payload decision is consistent with the reported distance.
    fn distance_and_state(&self, point: &[Fix]) -> (r: (Fix, S)) {
        let lhs_distance = self.lhs.distance_from_slice(point);
        let rhs_distance = self.rhs.distance_from_slice(point);
        let lhs_state = self.lhs.state(point);
        let rhs_state = self.rhs.state(point);
        let distance = lhs_distance.min(rhs_distance);
        let state = self.state_blender.blend((lhs_distance, lhs_state), (rhs_distance, rhs_state));
        (distance, state)
    }
}

impl<S, Lhs, Rhs, B> Union<Lhs, Rhs, B> where
    Lhs: Sdf<State = S>,
    Rhs: Sdf<State = S>,
    B: StateBlender<S>,
 {
    /// The union of `lhs` and `rhs` under `state_blender`: at every
    /// point the new distance is the minimum of the children's.
    pub fn new(lhs: Lhs, rhs: Rhs, state_blender: B) -> (r: Union<Lhs, Rhs, B>)
        ensures
            r.lhs == lhs,
            r.rhs == rhs,
            r.state_blender == state_blender,
            forall|p: Seq<int>| #[trigger] r.spec_distance(p)
                == fmin(lhs.spec_distance(p), rhs.spec_distance(p)),
    {
        Union { lhs, rhs, state_blender }
    }
}

/// The distance of a union is the minimum of its children's
/// distances, and is therefore no farther than either child.
pub proof fn lemma_union_distance<S, Lhs, Rhs, B>(u: Union<Lhs, Rhs, B>, p: Seq<int>) where
    Lhs: Sdf<State = S>,
    Rhs: Sdf<State = S>,
    B: StateBlender<S>,

    ensures
        u.spec_distance(p) == fmin(u.lhs.spec_distance(p), u.rhs.spec_distance(p)),
        u.spec_distance(p) <= u.lhs.spec_distance(p),
        u.spec_distance(p) <= u.rhs.spec_distance(p),
{
}

/// Under the default nearest-wins blender, the payload of a union is
/// the payload of the child whose distance is reported (the left
/// child on ties): payload and distance always describe the same
/// branch.
pub proof fn lemma_union_state_consistent<S, Lhs, Rhs>(
    u: Union<Lhs, Rhs, crate::combinators::NearestWins>,
    p: Seq<int>,
) where Lhs: Sdf<State = S>, Rhs: Sdf<State = S>
    ensures
        u.lhs.spec_distance(p) <= u.rhs.spec_distance(p) ==> u.spec_state(p)
            == u.lhs.spec_state(p) && u.spec_distance(p) == u.lhs.spec_distance(p),
        u.lhs.spec_distance(p) > u.rhs.spec_distance(p) ==> u.spec_state(p)
            == u.rhs.spec_state(p) && u.spec_distance(p) == u.rhs.spec_distance(p),
{
}

/// The n-ary union of an ordered sequence of fields, reduced with
/// the same minimum rule across the whole sequence.
#[derive(Debug, Clone, PartialEq, Hash)]
pub struct IterUnion<T> {
    pub items: Vec<T>,
}

/// The minimum distance over the first `n` elements, reduced left to
/// right; an empty sequence falls back to the largest representable
/// distance, standing in for positive infinity ("no shape").
pub open spec fn iter_min_prefix<T: Sdf>(items: Seq<T>, p: Seq<int>, n: int) -> int
    decreases n,
{
    if n <= 0 {
        i64::MAX as int
    } else if n == 1 {
        items[0].spec_distance(p)
    } else {
        fmin(iter_min_prefix(items, p, n - 1), items[n - 1].spec_distance(p))
    }
}

/// The index of the element with the smallest distance among the
/// first `n`, the earliest on ties.
pub open spec fn iter_argmin_prefix<T: Sdf>(items: Seq<T>, p: Seq<int>, n: int) -> int
    decreases n,
{
    if n <= 1 {
        0
    } else {
        let k = iter_argmin_prefix(items, p, n - 1);
        if items[n - 1].spec_distance(p) < items[k].spec_distance(p) {
            n - 1
        } else {
            k
        }
    }
}

impl<T: Sdf> Sdf for IterUnion<T> {
    type State = T::State;

    open spec fn wf(&self) -> bool {
        forall|i: int| 0 <= i < self.items@.len() ==> (#[trigger] self.items@[i]).wf()
    }

    open spec fn accepts_dim(&self, dim: nat) -> bool {
        forall|i: int| 0 <= i < self.items@.len() ==> (#[trigger] self.items@[i]).accepts_dim(dim)
    }

    /// An empty sequence has a distance (positive infinity) but no
    /// payload: asking for the payload of no shape is excluded.
    open spec fn state_defined(&self) -> bool {
        self.items@.len() > 0 && (forall|i: int|
            0 <= i < self.items@.len() ==> (#[trigger] self.items@[i]).state_defined())
    }

    /// The minimum of all the children's distances.
    open spec fn spec_distance(&self, p: Seq<int>) -> int {
        iter_min_prefix(self.items@, p, self.items@.len() as int)
    }

    /// The payload of the child that produced the winning distance.
    open spec fn spec_state(&self, p: Seq<int>) -> T::State {
        self.items@[iter_argmin_prefix(self.items@, p, self.items@.len() as int)].spec_state(p)
    }

    fn distance_from_slice(&self, point: &[Fix]) -> (d: Fix) {
        if self.items.len() == 0 {
            return Fix::from_raw(i64::MAX);
        }
        let mut acc = self.items[0].distance_from_slice(point);
        let mut i: usize = 1;
        while i < self.items.len()
            invariant
                1 <= i <= self.items@.len(),
                self.wf(),
                self.accepts_dim(point@.len()),
                acc@ == iter_min_prefix(self.items@, point.deep_view(), i as int),
            decreases self.items@.len() - i,
        {
            acc = acc.min(self.items[i].distance_from_slice(point));
            i = i + 1;
        }
        acc
    }

    fn state(&self, point: &[Fix]) -> (s: T::State) {
        let (best, _) = self.closest(point);
        proof {
            assert(self.items@[best as int].wf());
            assert(self.items@[best as int].accepts_dim(point@.len()));
            assert(self.items@[best as int].state_defined());
        }
        self.items[best].state(point)
    }

    /// Walks the sequence once for the distances and once more only
    /// for the winning element's payload.
    fn distance_and_state(&self, point: &[Fix]) -> (r: (Fix, T::State)) {
        let (best, best_distance) = self.closest(point);
        proof {
            assert(self.items@[best as int].wf());
            assert(self.items@[best as int].accepts_dim(point@.len()));
            assert(self.items@[best as int].state_defined());
        }
        (best_distance, self.items[best].state(point))
    }
}

impl<T: Sdf> IterUnion<T> {
    /// The index of the element nearest to the point (the earliest
    /// on ties) and its distance, which is the union's distance.
    fn closest(&self, point: &[Fix]) -> (r: (usize, Fix))
        requires
            self.wf(),
            self.accepts_dim(point@.len()),
            self.items@.len() > 0,
        ensures
            r.0 < self.items@.len(),
            r.0 == iter_argmin_prefix(self.items@, point.deep_view(), self.items@.len() as int),
            r.1@ == self.items@[r.0 as int].spec_distance(point.deep_view()),
            r.1@ == iter_min_prefix(self.items@, point.deep_view(), self.items@.len() as int),
    {
        let ghost pv = point.deep_view();
        let mut best: usize = 0;
        let mut best_distance = self.items[0].distance_from_slice(point);
        let mut i: usize = 1;
        while i < self.items.len()
            invariant
                1 <= i <= self.items@.len(),
                self.wf(),
                self.accepts_dim(point@.len()),
                pv == point.deep_view(),
                best < i,
                best == iter_argmin_prefix(self.items@, pv, i as int),
                best_distance@ == self.items@[best as int].spec_distance(pv),
                best_distance@ == iter_min_prefix(self.items@, pv, i as int),
            decreases self.items@.len() - i,
        {
            let distance = self.items[i].distance_from_slice(point);
            if distance.lt(best_distance) {
                best = i;
                best_distance = distance;
            }
            i = i + 1;
        }
        (best, best_distance)
    }

    /// The n-ary union of `items`.
    pub fn new(items: Vec<T>) -> (r: IterUnion<T>)
        ensures
            r.items == items,
    {
        IterUnion { items }
    }
}

/// The distance of an n-ary union is no farther than any element's
/// distance, and for a nonempty sequence some element achieves it.
pub proof fn lemma_iter_union_distance<T: Sdf>(u: IterUnion<T>, p: Seq<int>)
    requires
        u.items@.len() > 0,
    ensures
        forall|i: int| 0 <= i < u.items@.len() ==> u.spec_distance(p)
            <= #[trigger] u.items@[i].spec_distance(p),
        u.spec_distance(p) == u.items@[iter_argmin_prefix(u.items@, p, u.items@.len() as int)]
            .spec_distance(p),
    decreases u.items@.len(),
{
    lemma_iter_min_argmin(u.items@, p, u.items@.len() as int);
}

/// Two sequences whose elements agree pointwise on distance at `p`
/// have the same reduced minimum and the same argmin over every
/// prefix.
pub proof fn lemma_iter_min_congruent<T1: Sdf, T2: Sdf>(a: Seq<T1>, b: Seq<T2>, p: Seq<int>, n: int)
    requires
        n <= a.len(),
        n <= b.len(),
        forall|i: int| 0 <= i < n ==> #[trigger] a[i].spec_distance(p) == b[i].spec_distance(p),
    ensures
        iter_min_prefix(a, p, n) == iter_min_prefix(b, p, n),
        iter_argmin_prefix(a, p, n) == iter_argmin_prefix(b, p, n),
    decreases n,
{
    if n > 1 {
        lemma_iter_min_congruent(a, b, p, n - 1);
        lemma_iter_min_argmin(a, p, n - 1);
    }
}

/// The payload of a nonempty n-ary union is the payload of the
/// element at the argmin index: an index in range whose distance is
/// the union's distance, and the earliest such index — every earlier
/// element is strictly farther.
pub proof fn lemma_iter_union_state<T: Sdf>(u: IterUnion<T>, p: Seq<int>)
    requires
        u.items@.len() > 0,
    ensures
        0 <= iter_argmin_prefix(u.items@, p, u.items@.len() as int) < u.items@.len(),
        u.spec_state(p)
            == u.items@[iter_argmin_prefix(u.items@, p, u.items@.len() as int)].spec_state(p),
        u.spec_distance(p)
            == u.items@[iter_argmin_prefix(u.items@, p, u.items@.len() as int)].spec_distance(p),
        forall|i: int| 0 <= i < iter_argmin_prefix(u.items@, p, u.items@.len() as int)
            ==> u.spec_distance(p) < #[trigger] u.items@[i].spec_distance(p),
{
    lemma_iter_min_argmin(u.items@, p, u.items@.len() as int);
}

/// The reduced minimum over a nonempty prefix is achieved by the
/// element at the argmin index, bounds every element of the prefix,
/// and the argmin index is the earliest one achieving it: every
/// earlier element is strictly farther.
pub proof fn lemma_iter_min_argmin<T: Sdf>(items: Seq<T>, p: Seq<int>, n: int)
    requires
        1 <= n <= items.len(),
    ensures
        iter_min_prefix(items, p, n)
            == items[iter_argmin_prefix(items, p, n)].spec_distance(p),
        0 <= iter_argmin_prefix(items, p, n) < n,
        forall|i: int| 0 <= i < n ==> iter_min_prefix(items, p, n)
            <= #[trigger] items[i].spec_distance(p),
        forall|i: int| 0 <= i < iter_argmin_prefix(items, p, n)
            ==> iter_min_prefix(items, p, n) < #[trigger] items[i].spec_distance(p),
    decreases n,
{
    if n > 1 {
        lemma_iter_min_argmin(items, p, n - 1);
    }
}

} // verus!
