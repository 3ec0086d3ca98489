//! Attaching and transforming payloads.
//!
//! `bind` attaches a fixed payload to a field that has none,
//! `map_state` transforms an already-bound payload.  Both are
//! structural: they propagate through transformers and combinators
//! by rebinding each child recursively, so a payload bound deep in a
//! scene still flows out correctly, and neither ever changes a
//! distance.

use vstd::prelude::*;

use crate::{Sdf, SdfState};
use crate::combinators::{
    Difference, FarthestWins, Intersection, IterIntersection, IterUnion, NearestWins, StateBlender,
    Union, lemma_iter_max_argmax, lemma_iter_max_congruent, lemma_iter_min_argmin,
    lemma_iter_min_congruent,
};
use crate::fixed::Fix;
use crate::primitives::{Cube, Line, Plane, Sphere};
use crate::transformers::{
    Boxed, Inverted, Repeated, Rotated2d, Rotated3d, Rounded, Scaled, Thickened, Translated,
};

verus! {

/// A field with a fixed payload attached: distances are the child's,
/// and every point reports the stored payload.
#[derive(Debug, Clone, PartialEq, Hash)]
pub struct StateBound<T, S> {
    pub inner: T,
    pub state: S,
}

impl<T: Sdf<State = ()>, S: SdfState> Sdf for StateBound<T, S> {
    type State = S;

    open spec fn wf(&self) -> bool {
        self.inner.wf()
    }

    open spec fn accepts_dim(&self, dim: nat) -> bool {
        self.inner.accepts_dim(dim)
    }

    open spec fn state_defined(&self) -> bool {
        true
    }

    /// Exactly the child's distance: attaching a payload never moves
    /// a surface.
    open spec fn spec_distance(&self, p: Seq<int>) -> int {
        self.inner.spec_distance(p)
    }

    /// The stored payload, at every point.
    open spec fn spec_state(&self, p: Seq<int>) -> S {
        self.state
    }

    fn distance_from_slice(&self, point: &[Fix]) -> (d: Fix) {
        self.inner.distance_from_slice(point)
    }

    fn state(&self, point: &[Fix]) -> (s: S) {
        self.state.dup()
    }
}

/// Attaching a payload to a field that has none.  The returned field
/// has the same distances and well-formedness as this one, and
/// wherever a payload may be asked for, it reports the bound one.
pub trait SdfBindStateOperation<S: SdfState>: Sdf<State = ()> {
    /// The field type carrying the payload.
    type Output: Sdf<State = S>;

    /// Attach `state` to this field.
    fn bind(self, state: S) -> (r: Self::Output)
        ensures
            self.wf() ==> r.wf(),
            forall|d: nat| #[trigger] r.accepts_dim(d) <==> self.accepts_dim(d),
            self.state_defined() ==> r.state_defined(),
            forall|p: Seq<int>| #[trigger] r.spec_distance(p) == self.spec_distance(p),
            forall|p: Seq<int>| self.state_defined() ==> #[trigger] r.spec_state(p) == state,
    ;
}

impl<S: SdfState> SdfBindStateOperation<S> for Sphere {
    type Output = StateBound<Sphere, S>;

    fn bind(self, state: S) -> (r: StateBound<Sphere, S>) {
        StateBound { inner: self, state }
    }
}

impl<S: SdfState> SdfBindStateOperation<S> for Cube {
    type Output = StateBound<Cube, S>;

    fn bind(self, state: S) -> (r: StateBound<Cube, S>) {
        StateBound { inner: self, state }
    }
}

impl<S: SdfState> SdfBindStateOperation<S> for Plane {
    type Output = StateBound<Plane, S>;

    fn bind(self, state: S) -> (r: StateBound<Plane, S>) {
        StateBound { inner: self, state }
    }
}

impl<S: SdfState> SdfBindStateOperation<S> for Line {
    type Output = StateBound<Line, S>;

    fn bind(self, state: S) -> (r: StateBound<Line, S>) {
        StateBound { inner: self, state }
    }
}

impl<S: SdfState, T: SdfBindStateOperation<S>> SdfBindStateOperation<S> for Translated<T> {
    type Output = Translated<T::Output>;

    fn bind(self, state: S) -> (r: Translated<T::Output>) {
        Translated { inner: self.inner.bind(state), inverse_translation: self.inverse_translation }
    }
}

impl<S: SdfState, T: SdfBindStateOperation<S>> SdfBindStateOperation<S> for Rounded<T> {
    type Output = Rounded<T::Output>;

    fn bind(self, state: S) -> (r: Rounded<T::Output>) {
        Rounded { inner: self.inner.bind(state), factor: self.factor }
    }
}

impl<S: SdfState, T: SdfBindStateOperation<S>> SdfBindStateOperation<S> for Inverted<T> {
    type Output = Inverted<T::Output>;

    fn bind(self, state: S) -> (r: Inverted<T::Output>) {
        Inverted(self.0.bind(state))
    }
}

impl<S: SdfState, T: SdfBindStateOperation<S>> SdfBindStateOperation<S> for Repeated<T> {
    type Output = Repeated<T::Output>;

    fn bind(self, state: S) -> (r: Repeated<T::Output>) {
        Repeated { inner: self.inner.bind(state), repeat_spacing: self.repeat_spacing }
    }
}

impl<S: SdfState, T: SdfBindStateOperation<S>> SdfBindStateOperation<S> for Boxed<T> {
    type Output = Boxed<T::Output>;

    fn bind(self, state: S) -> (r: Boxed<T::Output>) {
        Boxed(Box::new((*self.0).bind(state)))
    }
}

impl<S: SdfState, T: SdfBindStateOperation<S>> SdfBindStateOperation<S> for Scaled<T> {
    type Output = Scaled<T::Output>;

    fn bind(self, state: S) -> (r: Scaled<T::Output>) {
        Scaled { inner: self.inner.bind(state), scale: self.scale }
    }
}

impl<S: SdfState, T: SdfBindStateOperation<S>> SdfBindStateOperation<S> for Thickened<T> {
    type Output = Thickened<T::Output>;

    fn bind(self, state: S) -> (r: Thickened<T::Output>) {
        Thickened { inner: self.inner.bind(state), thickness: self.thickness }
    }
}

impl<S: SdfState, T: SdfBindStateOperation<S>> SdfBindStateOperation<S> for Rotated2d<T> {
    type Output = Rotated2d<T::Output>;

    fn bind(self, state: S) -> (r: Rotated2d<T::Output>) {
        Rotated2d { inner: self.inner.bind(state), sin: self.sin, cos: self.cos }
    }
}

impl<S: SdfState, T: SdfBindStateOperation<S>> SdfBindStateOperation<S> for Rotated3d<T> {
    type Output = Rotated3d<T::Output>;

    fn bind(self, state: S) -> (r: Rotated3d<T::Output>) {
        Rotated3d { inner: self.inner.bind(state), inverse_rotation: self.inverse_rotation }
    }
}

impl<S: SdfState, L, R> SdfBindStateOperation<S> for Union<L, R, NearestWins> where
    L: SdfBindStateOperation<S>,
    R: SdfBindStateOperation<S>,
 {
    type Output = Union<L::Output, R::Output, NearestWins>;

    fn bind(self, state: S) -> (r: Union<L::Output, R::Output, NearestWins>) {
        let second = state.dup();
        Union {
            lhs: self.lhs.bind(state),
            rhs: self.rhs.bind(second),
            state_blender: NearestWins,
        }
    }
}

impl<S: SdfState, L, R> SdfBindStateOperation<S> for Intersection<L, R, FarthestWins> where
    L: SdfBindStateOperation<S>,
    R: SdfBindStateOperation<S>,
 {
    type Output = Intersection<L::Output, R::Output, FarthestWins>;

    fn bind(self, state: S) -> (r: Intersection<L::Output, R::Output, FarthestWins>) {
        let second = state.dup();
        Intersection {
            lhs: self.lhs.bind(state),
            rhs: self.rhs.bind(second),
            state_blender: FarthestWins,
        }
    }
}

impl<S: SdfState, L, R> SdfBindStateOperation<S> for Difference<L, R> where
    L: SdfBindStateOperation<S>,
    R: SdfBindStateOperation<S>,
 {
    type Output = Difference<L::Output, R::Output>;

    fn bind(self, state: S) -> (r: Difference<L::Output, R::Output>) {
        let second = state.dup();
        Difference { lhs: self.lhs.bind(state), rhs: self.rhs.bind(second) }
    }
}

impl<S: SdfState, T: SdfBindStateOperation<S>> SdfBindStateOperation<S> for IterUnion<T> {
    type Output = IterUnion<T::Output>;

    fn bind(self, state: S) -> (r: IterUnion<T::Output>) {
        let ghost me = self;
        let mut items = self.items;
        let ghost old_items = items@;
        let mut out: Vec<T::Output> = Vec::new();
        while items.len() > 0
            invariant
                out@.len() + items@.len() == old_items.len(),
                forall|j: int| 0 <= j < items@.len()
                    ==> #[trigger] items@[j] == old_items[out@.len() + j],
                forall|j: int| 0 <= j < out@.len()
                    ==> (old_items[j].wf() ==> (#[trigger] out@[j]).wf()),
                forall|j: int, d: nat| 0 <= j < out@.len()
                    ==> ((#[trigger] out@[j].accepts_dim(d)) <==> old_items[j].accepts_dim(d)),
                forall|j: int, p: Seq<int>| 0 <= j < out@.len()
                    ==> (#[trigger] out@[j].spec_distance(p)) == old_items[j].spec_distance(p),
                forall|j: int| 0 <= j < out@.len()
                    ==> (old_items[j].state_defined() ==> (#[trigger] out@[j]).state_defined()),
                forall|j: int, p: Seq<int>|
                    0 <= j < out@.len() && old_items[j].state_defined()
                        ==> (#[trigger] out@[j].spec_state(p)) == state,
            decreases items@.len(),
        {
            let x = items.remove(0);
            out.push(x.bind(state.dup()));
        }
        let r = IterUnion { items: out };
        proof {
            lemma_elementwise_bound_union(me, r, state);
        }
        r
    }
}

/// An n-ary union whose elements each preserve an original element's
/// distances and report the bound payload is itself the bound form
/// of the original union.
proof fn lemma_elementwise_bound_union<S, T: Sdf<State = ()>, U: Sdf<State = S>>(
    me: IterUnion<T>,
    r: IterUnion<U>,
    state: S,
)
    requires
        r.items@.len() == me.items@.len(),
        forall|j: int| 0 <= j < me.items@.len()
            ==> (me.items@[j].wf() ==> (#[trigger] r.items@[j]).wf()),
        forall|j: int, d: nat| 0 <= j < me.items@.len()
            ==> ((#[trigger] r.items@[j].accepts_dim(d)) <==> me.items@[j].accepts_dim(d)),
        forall|j: int, p: Seq<int>| 0 <= j < me.items@.len()
            ==> (#[trigger] r.items@[j].spec_distance(p)) == me.items@[j].spec_distance(p),
        forall|j: int| 0 <= j < me.items@.len()
            ==> (me.items@[j].state_defined() ==> (#[trigger] r.items@[j]).state_defined()),
        forall|j: int, p: Seq<int>|
            0 <= j < me.items@.len() && me.items@[j].state_defined()
                ==> (#[trigger] r.items@[j].spec_state(p)) == state,
    ensures
        me.wf() ==> r.wf(),
        forall|d: nat| #[trigger] r.accepts_dim(d) <==> me.accepts_dim(d),
        me.state_defined() ==> r.state_defined(),
        forall|p: Seq<int>| #[trigger] r.spec_distance(p) == me.spec_distance(p),
        forall|p: Seq<int>| me.state_defined() ==> #[trigger] r.spec_state(p) == state,
{
    let n = me.items@.len() as int;
    if me.wf() {
        assert forall|i: int| 0 <= i < n implies (#[trigger] r.items@[i]).wf() by {
            assert(me.items@[i].wf());
        }
    }
    assert forall|d: nat| #[trigger] r.accepts_dim(d) <==> me.accepts_dim(d) by {
        if me.accepts_dim(d) {
            assert forall|i: int| 0 <= i < n implies (#[trigger] r.items@[i]).accepts_dim(d) by {
                assert(me.items@[i].accepts_dim(d));
            }
        }
        if r.accepts_dim(d) {
            assert forall|i: int| 0 <= i < n implies (#[trigger] me.items@[i]).accepts_dim(d) by {
                assert(r.items@[i].accepts_dim(d));
            }
        }
    }
    if me.state_defined() {
        assert forall|i: int| 0 <= i < n implies (#[trigger] r.items@[i]).state_defined() by {
            assert(me.items@[i].state_defined());
        }
    }
    assert forall|p: Seq<int>| #[trigger] r.spec_distance(p) == me.spec_distance(p) by {
        lemma_iter_min_congruent(r.items@, me.items@, p, n);
    }
    assert forall|p: Seq<int>| me.state_defined() implies #[trigger] r.spec_state(p) == state by {
        lemma_iter_min_congruent(r.items@, me.items@, p, n);
        lemma_iter_min_argmin(r.items@, p, n);
        let k = crate::combinators::iter_argmin_prefix(r.items@, p, n);
        assert(me.items@[k].state_defined());
        assert(r.items@[k].spec_state(p) == state);
    }
}

impl<S: SdfState, T: SdfBindStateOperation<S>> SdfBindStateOperation<S> for IterIntersection<T> {
    type Output = IterIntersection<T::Output>;

    fn bind(self, state: S) -> (r: IterIntersection<T::Output>) {
        let ghost me = self;
        let mut items = self.items;
        let ghost old_items = items@;
        let mut out: Vec<T::Output> = Vec::new();
        while items.len() > 0
            invariant
                out@.len() + items@.len() == old_items.len(),
                forall|j: int| 0 <= j < items@.len()
                    ==> #[trigger] items@[j] == old_items[out@.len() + j],
                forall|j: int| 0 <= j < out@.len()
                    ==> (old_items[j].wf() ==> (#[trigger] out@[j]).wf()),
                forall|j: int, d: nat| 0 <= j < out@.len()
                    ==> ((#[trigger] out@[j].accepts_dim(d)) <==> old_items[j].accepts_dim(d)),
                forall|j: int, p: Seq<int>| 0 <= j < out@.len()
                    ==> (#[trigger] out@[j].spec_distance(p)) == old_items[j].spec_distance(p),
                forall|j: int| 0 <= j < out@.len()
                    ==> (old_items[j].state_defined() ==> (#[trigger] out@[j]).state_defined()),
                forall|j: int, p: Seq<int>|
                    0 <= j < out@.len() && old_items[j].state_defined()
                        ==> (#[trigger] out@[j].spec_state(p)) == state,
            decreases items@.len(),
        {
            let x = items.remove(0);
            out.push(x.bind(state.dup()));
        }
        let r = IterIntersection { items: out };
        proof {
            lemma_elementwise_bound_intersection(me, r, state);
        }
        r
    }
}

/// An n-ary intersection whose elements each preserve an original
/// element's distances and report the bound payload is itself the
/// bound form of the original intersection.
proof fn lemma_elementwise_bound_intersection<S, T: Sdf<State = ()>, U: Sdf<State = S>>(
    me: IterIntersection<T>,
    r: IterIntersection<U>,
    state: S,
)
    requires
        r.items@.len() == me.items@.len(),
        forall|j: int| 0 <= j < me.items@.len()
            ==> (me.items@[j].wf() ==> (#[trigger] r.items@[j]).wf()),
        forall|j: int, d: nat| 0 <= j < me.items@.len()
            ==> ((#[trigger] r.items@[j].accepts_dim(d)) <==> me.items@[j].accepts_dim(d)),
        forall|j: int, p: Seq<int>| 0 <= j < me.items@.len()
            ==> (#[trigger] r.items@[j].spec_distance(p)) == me.items@[j].spec_distance(p),
        forall|j: int| 0 <= j < me.items@.len()
            ==> (me.items@[j].state_defined() ==> (#[trigger] r.items@[j]).state_defined()),
        forall|j: int, p: Seq<int>|
            0 <= j < me.items@.len() && me.items@[j].state_defined()
                ==> (#[trigger] r.items@[j].spec_state(p)) == state,
    ensures
        me.wf() ==> r.wf(),
        forall|d: nat| #[trigger] r.accepts_dim(d) <==> me.accepts_dim(d),
        me.state_defined() ==> r.state_defined(),
        forall|p: Seq<int>| #[trigger] r.spec_distance(p) == me.spec_distance(p),
        forall|p: Seq<int>| me.state_defined() ==> #[trigger] r.spec_state(p) == state,
{
    let n = me.items@.len() as int;
    if me.wf() {
        assert forall|i: int| 0 <= i < n implies (#[trigger] r.items@[i]).wf() by {
            assert(me.items@[i].wf());
        }
    }
    assert forall|d: nat| #[trigger] r.accepts_dim(d) <==> me.accepts_dim(d) by {
        if me.accepts_dim(d) {
            assert forall|i: int| 0 <= i < n implies (#[trigger] r.items@[i]).accepts_dim(d) by {
                assert(me.items@[i].accepts_dim(d));
            }
        }
        if r.accepts_dim(d) {
            assert forall|i: int| 0 <= i < n implies (#[trigger] me.items@[i]).accepts_dim(d) by {
                assert(r.items@[i].accepts_dim(d));
            }
        }
    }
    if me.state_defined() {
        assert forall|i: int| 0 <= i < n implies (#[trigger] r.items@[i]).state_defined() by {
            assert(me.items@[i].state_defined());
        }
    }
    assert forall|p: Seq<int>| #[trigger] r.spec_distance(p) == me.spec_distance(p) by {
        lemma_iter_max_congruent(r.items@, me.items@, p, n);
    }
    assert forall|p: Seq<int>| me.state_defined() implies #[trigger] r.spec_state(p) == state by {
        lemma_iter_max_congruent(r.items@, me.items@, p, n);
        lemma_iter_max_argmax(r.items@, p, n);
        let k = crate::combinators::iter_argmax_prefix(r.items@, p, n);
        assert(me.items@[k].state_defined());
        assert(r.items@[k].spec_state(p) == state);
    }
}

/// A pure transformation of payload values, with its specification.
pub trait StateMap<In, Out>: Sized {
    /// The value the transformation maps `s` to.
    spec fn spec_apply(&self, s: In) -> Out;

    /// Apply the transformation.
    fn apply(&self, s: In) -> (r: Out)
        ensures
            r == self.spec_apply(s),
    ;
}

/// The transformation that replaces every payload with a fixed
/// value.
#[derive(Debug, Clone, Copy, PartialEq, Hash)]
pub struct ConstantMap<S>(pub S);

impl<In, S: SdfState> StateMap<In, S> for ConstantMap<S> {
    open spec fn spec_apply(&self, s: In) -> S {
        self.0
    }

    fn apply(&self, s: In) -> (r: S) {
        self.0.dup()
    }
}

/// Transforming an already-bound payload.  The returned field has
/// the same distances as this one; wherever a payload may be asked
/// for, it reports the image of the payload this one reports.
pub trait SdfMapStateOperation<OutS, M>: Sdf where M: StateMap<Self::State, OutS> {
    /// The field type carrying the transformed payload.
    type Output: Sdf<State = OutS>;

    /// Transform this field's payload through `f`.
    fn map_state(self, f: &M) -> (r: Self::Output)
        ensures
            self.wf() ==> r.wf(),
            forall|d: nat| #[trigger] r.accepts_dim(d) <==> self.accepts_dim(d),
            self.state_defined() ==> r.state_defined(),
            forall|p: Seq<int>| #[trigger] r.spec_distance(p) == self.spec_distance(p),
            forall|p: Seq<int>| self.state_defined()
                ==> #[trigger] r.spec_state(p) == f.spec_apply(self.spec_state(p)),
    ;
}

impl<OutS, M, T, S> SdfMapStateOperation<OutS, M> for StateBound<T, S> where
    T: Sdf<State = ()>,
    S: SdfState,
    OutS: SdfState,
    M: StateMap<S, OutS>,
 {
    type Output = StateBound<T, OutS>;

    fn map_state(self, f: &M) -> (r: StateBound<T, OutS>) {
        StateBound { inner: self.inner, state: f.apply(self.state) }
    }
}

impl<OutS, M, T> SdfMapStateOperation<OutS, M> for Rounded<T> where
    T: SdfMapStateOperation<OutS, M>,
    M: StateMap<T::State, OutS>,
 {
    type Output = Rounded<T::Output>;

    fn map_state(self, f: &M) -> (r: Rounded<T::Output>) {
        Rounded { inner: self.inner.map_state(f), factor: self.factor }
    }
}

impl<OutS, M, T> SdfMapStateOperation<OutS, M> for Repeated<T> where
    T: SdfMapStateOperation<OutS, M>,
    M: StateMap<T::State, OutS>,
 {
    type Output = Repeated<T::Output>;

    fn map_state(self, f: &M) -> (r: Repeated<T::Output>) {
        Repeated { inner: self.inner.map_state(f), repeat_spacing: self.repeat_spacing }
    }
}

impl<OutS, M, T> SdfMapStateOperation<OutS, M> for Boxed<T> where
    T: SdfMapStateOperation<OutS, M>,
    M: StateMap<T::State, OutS>,
 {
    type Output = Boxed<T::Output>;

    fn map_state(self, f: &M) -> (r: Boxed<T::Output>) {
        Boxed(Box::new((*self.0).map_state(f)))
    }
}

impl<OutS, M, T> SdfMapStateOperation<OutS, M> for Translated<T> where
    T: SdfMapStateOperation<OutS, M>,
    M: StateMap<T::State, OutS>,
 {
    type Output = Translated<T::Output>;

    fn map_state(self, f: &M) -> (r: Translated<T::Output>) {
        Translated { inner: self.inner.map_state(f), inverse_translation: self.inverse_translation }
    }
}

impl<OutS, M, T> SdfMapStateOperation<OutS, M> for Inverted<T> where
    T: SdfMapStateOperation<OutS, M>,
    M: StateMap<T::State, OutS>,
 {
    type Output = Inverted<T::Output>;

    fn map_state(self, f: &M) -> (r: Inverted<T::Output>) {
        Inverted(self.0.map_state(f))
    }
}

impl<OutS, M, T> SdfMapStateOperation<OutS, M> for Scaled<T> where
    T: SdfMapStateOperation<OutS, M>,
    M: StateMap<T::State, OutS>,
 {
    type Output = Scaled<T::Output>;

    fn map_state(self, f: &M) -> (r: Scaled<T::Output>) {
        Scaled { inner: self.inner.map_state(f), scale: self.scale }
    }
}

impl<OutS, M, T> SdfMapStateOperation<OutS, M> for Thickened<T> where
    T: SdfMapStateOperation<OutS, M>,
    M: StateMap<T::State, OutS>,
 {
    type Output = Thickened<T::Output>;

    fn map_state(self, f: &M) -> (r: Thickened<T::Output>) {
        Thickened { inner: self.inner.map_state(f), thickness: self.thickness }
    }
}

impl<OutS, M, T> SdfMapStateOperation<OutS, M> for Rotated2d<T> where
    T: SdfMapStateOperation<OutS, M>,
    M: StateMap<T::State, OutS>,
 {
    type Output = Rotated2d<T::Output>;

    fn map_state(self, f: &M) -> (r: Rotated2d<T::Output>) {
        Rotated2d { inner: self.inner.map_state(f), sin: self.sin, cos: self.cos }
    }
}

impl<OutS, M, T> SdfMapStateOperation<OutS, M> for Rotated3d<T> where
    T: SdfMapStateOperation<OutS, M>,
    M: StateMap<T::State, OutS>,
 {
    type Output = Rotated3d<T::Output>;

    fn map_state(self, f: &M) -> (r: Rotated3d<T::Output>) {
        Rotated3d { inner: self.inner.map_state(f), inverse_rotation: self.inverse_rotation }
    }
}

impl<S, OutS, M, L, R> SdfMapStateOperation<OutS, M> for Union<L, R, NearestWins> where
    L: SdfMapStateOperation<OutS, M> + Sdf<State = S>,
    R: SdfMapStateOperation<OutS, M> + Sdf<State = S>,
    M: StateMap<S, OutS>,
 {
    type Output = Union<L::Output, R::Output, NearestWins>;

    fn map_state(self, f: &M) -> (r: Union<L::Output, R::Output, NearestWins>) {
        Union {
            lhs: self.lhs.map_state(f),
            rhs: self.rhs.map_state(f),
            state_blender: NearestWins,
        }
    }
}

impl<S, OutS, M, L, R> SdfMapStateOperation<OutS, M> for Intersection<L, R, FarthestWins> where
    L: SdfMapStateOperation<OutS, M> + Sdf<State = S>,
    R: SdfMapStateOperation<OutS, M> + Sdf<State = S>,
    M: StateMap<S, OutS>,
 {
    type Output = Intersection<L::Output, R::Output, FarthestWins>;

    fn map_state(self, f: &M) -> (r: Intersection<L::Output, R::Output, FarthestWins>) {
        Intersection {
            lhs: self.lhs.map_state(f),
            rhs: self.rhs.map_state(f),
            state_blender: FarthestWins,
        }
    }
}

impl<S, OutS, M, L, R> SdfMapStateOperation<OutS, M> for Difference<L, R> where
    L: SdfMapStateOperation<OutS, M> + Sdf<State = S>,
    R: SdfMapStateOperation<OutS, M> + Sdf<State = S>,
    M: StateMap<S, OutS>,
 {
    type Output = Difference<L::Output, R::Output>;

    fn map_state(self, f: &M) -> (r: Difference<L::Output, R::Output>) {
        Difference { lhs: self.lhs.map_state(f), rhs: self.rhs.map_state(f) }
    }
}

impl<OutS, M, T> SdfMapStateOperation<OutS, M> for IterUnion<T> where
    T: SdfMapStateOperation<OutS, M>,
    M: StateMap<T::State, OutS>,
 {
    type Output = IterUnion<T::Output>;

    fn map_state(self, f: &M) -> (r: IterUnion<T::Output>) {
        let ghost me = self;
        let mut items = self.items;
        let ghost old_items = items@;
        let mut out: Vec<T::Output> = Vec::new();
        while items.len() > 0
            invariant
                out@.len() + items@.len() == old_items.len(),
                forall|j: int| 0 <= j < items@.len()
                    ==> #[trigger] items@[j] == old_items[out@.len() + j],
                forall|j: int| 0 <= j < out@.len()
                    ==> (old_items[j].wf() ==> (#[trigger] out@[j]).wf()),
                forall|j: int, d: nat| 0 <= j < out@.len()
                    ==> ((#[trigger] out@[j].accepts_dim(d)) <==> old_items[j].accepts_dim(d)),
                forall|j: int, p: Seq<int>| 0 <= j < out@.len()
                    ==> (#[trigger] out@[j].spec_distance(p)) == old_items[j].spec_distance(p),
                forall|j: int| 0 <= j < out@.len()
                    ==> (old_items[j].state_defined() ==> (#[trigger] out@[j]).state_defined()),
                forall|j: int, p: Seq<int>|
                    0 <= j < out@.len() && old_items[j].state_defined()
                        ==> (#[trigger] out@[j].spec_state(p))
                            == f.spec_apply(old_items[j].spec_state(p)),
            decreases items@.len(),
        {
            let x = items.remove(0);
            out.push(x.map_state(f));
        }
        let r = IterUnion { items: out };
        proof {
            lemma_elementwise_mapped_union(me, r, *f);
        }
        r
    }
}

/// An n-ary union whose elements each preserve an original element's
/// distances and report the image of its payload is itself the
/// mapped form of the original union.
proof fn lemma_elementwise_mapped_union<S, OutS, M, T, U>(
    me: IterUnion<T>,
    r: IterUnion<U>,
    f: M,
) where T: Sdf<State = S>, U: Sdf<State = OutS>, M: StateMap<S, OutS>
    requires
        r.items@.len() == me.items@.len(),
        forall|j: int| 0 <= j < me.items@.len()
            ==> (me.items@[j].wf() ==> (#[trigger] r.items@[j]).wf()),
        forall|j: int, d: nat| 0 <= j < me.items@.len()
            ==> ((#[trigger] r.items@[j].accepts_dim(d)) <==> me.items@[j].accepts_dim(d)),
        forall|j: int, p: Seq<int>| 0 <= j < me.items@.len()
            ==> (#[trigger] r.items@[j].spec_distance(p)) == me.items@[j].spec_distance(p),
        forall|j: int| 0 <= j < me.items@.len()
            ==> (me.items@[j].state_defined() ==> (#[trigger] r.items@[j]).state_defined()),
        forall|j: int, p: Seq<int>|
            0 <= j < me.items@.len() && me.items@[j].state_defined()
                ==> (#[trigger] r.items@[j].spec_state(p))
                    == f.spec_apply(me.items@[j].spec_state(p)),
    ensures
        me.wf() ==> r.wf(),
        forall|d: nat| #[trigger] r.accepts_dim(d) <==> me.accepts_dim(d),
        me.state_defined() ==> r.state_defined(),
        forall|p: Seq<int>| #[trigger] r.spec_distance(p) == me.spec_distance(p),
        forall|p: Seq<int>| me.state_defined()
            ==> #[trigger] r.spec_state(p) == f.spec_apply(me.spec_state(p)),
{
    let n = me.items@.len() as int;
    if me.wf() {
        assert forall|i: int| 0 <= i < n implies (#[trigger] r.items@[i]).wf() by {
            assert(me.items@[i].wf());
        }
    }
    assert forall|d: nat| #[trigger] r.accepts_dim(d) <==> me.accepts_dim(d) by {
        if me.accepts_dim(d) {
            assert forall|i: int| 0 <= i < n implies (#[trigger] r.items@[i]).accepts_dim(d) by {
                assert(me.items@[i].accepts_dim(d));
            }
        }
        if r.accepts_dim(d) {
            assert forall|i: int| 0 <= i < n implies (#[trigger] me.items@[i]).accepts_dim(d) by {
                assert(r.items@[i].accepts_dim(d));
            }
        }
    }
    if me.state_defined() {
        assert forall|i: int| 0 <= i < n implies (#[trigger] r.items@[i]).state_defined() by {
            assert(me.items@[i].state_defined());
        }
    }
    assert forall|p: Seq<int>| #[trigger] r.spec_distance(p) == me.spec_distance(p) by {
        lemma_iter_min_congruent(r.items@, me.items@, p, n);
    }
    assert forall|p: Seq<int>| me.state_defined() implies #[trigger] r.spec_state(p)
        == f.spec_apply(me.spec_state(p)) by {
        lemma_iter_min_congruent(r.items@, me.items@, p, n);
        lemma_iter_min_argmin(r.items@, p, n);
        let k = crate::combinators::iter_argmin_prefix(r.items@, p, n);
        assert(me.items@[k].state_defined());
        assert(r.items@[k].spec_state(p) == f.spec_apply(me.items@[k].spec_state(p)));
    }
}

impl<OutS, M, T> SdfMapStateOperation<OutS, M> for IterIntersection<T> where
    T: SdfMapStateOperation<OutS, M>,
    M: StateMap<T::State, OutS>,
 {
    type Output = IterIntersection<T::Output>;

    fn map_state(self, f: &M) -> (r: IterIntersection<T::Output>) {
        let ghost me = self;
        let mut items = self.items;
        let ghost old_items = items@;
        let mut out: Vec<T::Output> = Vec::new();
        while items.len() > 0
            invariant
                out@.len() + items@.len() == old_items.len(),
                forall|j: int| 0 <= j < items@.len()
                    ==> #[trigger] items@[j] == old_items[out@.len() + j],
                forall|j: int| 0 <= j < out@.len()
                    ==> (old_items[j].wf() ==> (#[trigger] out@[j]).wf()),
                forall|j: int, d: nat| 0 <= j < out@.len()
                    ==> ((#[trigger] out@[j].accepts_dim(d)) <==> old_items[j].accepts_dim(d)),
                forall|j: int, p: Seq<int>| 0 <= j < out@.len()
                    ==> (#[trigger] out@[j].spec_distance(p)) == old_items[j].spec_distance(p),
                forall|j: int| 0 <= j < out@.len()
                    ==> (old_items[j].state_defined() ==> (#[trigger] out@[j]).state_defined()),
                forall|j: int, p: Seq<int>|
                    0 <= j < out@.len() && old_items[j].state_defined()
                        ==> (#[trigger] out@[j].spec_state(p))
                            == f.spec_apply(old_items[j].spec_state(p)),
            decreases items@.len(),
        {
            let x = items.remove(0);
            out.push(x.map_state(f));
        }
        let r = IterIntersection { items: out };
        proof {
            lemma_elementwise_mapped_intersection(me, r, *f);
        }
        r
    }
}

/// An n-ary intersection whose elements each preserve an original
/// element's distances and report the image of its payload is itself
/// the mapped form of the original intersection.
proof fn lemma_elementwise_mapped_intersection<S, OutS, M, T, U>(
    me: IterIntersection<T>,
    r: IterIntersection<U>,
    f: M,
) where T: Sdf<State = S>, U: Sdf<State = OutS>, M: StateMap<S, OutS>
    requires
        r.items@.len() == me.items@.len(),
        forall|j: int| 0 <= j < me.items@.len()
            ==> (me.items@[j].wf() ==> (#[trigger] r.items@[j]).wf()),
        forall|j: int, d: nat| 0 <= j < me.items@.len()
            ==> ((#[trigger] r.items@[j].accepts_dim(d)) <==> me.items@[j].accepts_dim(d)),
        forall|j: int, p: Seq<int>| 0 <= j < me.items@.len()
            ==> (#[trigger] r.items@[j].spec_distance(p)) == me.items@[j].spec_distance(p),
        forall|j: int| 0 <= j < me.items@.len()
            ==> (me.items@[j].state_defined() ==> (#[trigger] r.items@[j]).state_defined()),
        forall|j: int, p: Seq<int>|
            0 <= j < me.items@.len() && me.items@[j].state_defined()
                ==> (#[trigger] r.items@[j].spec_state(p))
                    == f.spec_apply(me.items@[j].spec_state(p)),
    ensures
        me.wf() ==> r.wf(),
        forall|d: nat| #[trigger] r.accepts_dim(d) <==> me.accepts_dim(d),
        me.state_defined() ==> r.state_defined(),
        forall|p: Seq<int>| #[trigger] r.spec_distance(p) == me.spec_distance(p),
        forall|p: Seq<int>| me.state_defined()
            ==> #[trigger] r.spec_state(p) == f.spec_apply(me.spec_state(p)),
{
    let n = me.items@.len() as int;
    if me.wf() {
        assert forall|i: int| 0 <= i < n implies (#[trigger] r.items@[i]).wf() by {
            assert(me.items@[i].wf());
        }
    }
    assert forall|d: nat| #[trigger] r.accepts_dim(d) <==> me.accepts_dim(d) by {
        if me.accepts_dim(d) {
            assert forall|i: int| 0 <= i < n implies (#[trigger] r.items@[i]).accepts_dim(d) by {
                assert(me.items@[i].accepts_dim(d));
            }
        }
        if r.accepts_dim(d) {
            assert forall|i: int| 0 <= i < n implies (#[trigger] me.items@[i]).accepts_dim(d) by {
                assert(r.items@[i].accepts_dim(d));
            }
        }
    }
    if me.state_defined() {
        assert forall|i: int| 0 <= i < n implies (#[trigger] r.items@[i]).state_defined() by {
            assert(me.items@[i].state_defined());
        }
    }
    assert forall|p: Seq<int>| #[trigger] r.spec_distance(p) == me.spec_distance(p) by {
        lemma_iter_max_congruent(r.items@, me.items@, p, n);
    }
    assert forall|p: Seq<int>| me.state_defined() implies #[trigger] r.spec_state(p)
        == f.spec_apply(me.spec_state(p)) by {
        lemma_iter_max_congruent(r.items@, me.items@, p, n);
        lemma_iter_max_argmax(r.items@, p, n);
        let k = crate::combinators::iter_argmax_prefix(r.items@, p, n);
        assert(me.items@[k].state_defined());
        assert(r.items@[k].spec_state(p) == f.spec_apply(me.items@[k].spec_state(p)));
    }
}

} // verus!
