//! A composable signed-distance-field (SDF) library.
//!
//! A scene is described as a tree of fields: primitive shapes
//! (sphere, cube, plane, line) combined through boolean-like
//! combinators (union, intersection, difference) and transformed
//! through wrappers (translate, scale, rotate, round, thicken,
//! repeat, invert).  Every field reports, for a point in space, a
//! signed distance to its surface: negative inside, zero on the
//! surface, positive outside.
//!
//! Distances are carried by [`fixed::Fix`], a fixed-point scalar with
//! saturating arithmetic, so that every evaluation has an exact,
//! machine-checked meaning: each field implements [`Sdf`] and proves
//! that its executable evaluation matches its mathematical
//! description.

use vstd::prelude::*;

pub mod combinators;
pub mod fixed;
pub mod marcher;
pub mod primitives;
pub mod state;
pub mod transformers;

use crate::fixed::Fix;

verus! {

/// The gradient of a field at a point, approximated axis by axis
/// with a forward finite difference of step `eps`:
/// `(distance(point with axis i nudged by eps) - distance(point)) / eps`.
pub open spec fn spec_gradient<T: Sdf>(f: T, p: Seq<int>, eps: int) -> Seq<int> {
    Seq::new(
        p.len(),
        |i: int|
            crate::fixed::fdiv(
                crate::fixed::fsub(
                    f.spec_distance(p.update(i, crate::fixed::fadd(p[i], eps))),
                    f.spec_distance(p),
                ),
                eps,
            ),
    )
}

/// The contract shared by every node of a scene: primitives,
/// transformers and combinators.
///
/// A field is evaluated at a point given as a slice of scalars; the
/// dimension is the slice's length.  Its mathematical meaning is
/// given by the spec functions: `spec_distance` maps the raw values
/// of a point to the raw value of the signed distance, and
/// `spec_state` to the payload reported there.  Every executable
/// evaluation method is proved to return exactly those values.
pub trait Sdf: Sized {
    /// The payload type reported alongside distances.
    type State;

    /// Structural well-formedness of the node and all its children.
    spec fn wf(&self) -> bool;

    /// Whether the field accepts points of the given dimension.
    spec fn accepts_dim(&self, dim: nat) -> bool;

    /// Whether `state` may be asked at all (an empty n-ary
    /// combinator, for example, has a distance but no state).
    spec fn state_defined(&self) -> bool;

    /// The signed distance reported at a point, over raw values:
    /// negative inside, zero on the surface, positive outside.
    spec fn spec_distance(&self, p: Seq<int>) -> int;

    /// The payload reported at a point.
    spec fn spec_state(&self, p: Seq<int>) -> Self::State;

    /// Evaluates the distance from the point passed in as a parameter
    /// to the object described by this field.
    fn distance_from_slice(&self, point: &[Fix]) -> (d: Fix)
        requires
            self.wf(),
            self.accepts_dim(point@.len()),
        ensures
            d@ == self.spec_distance(point.deep_view()),
    ;

    /// The payload associated with the relevant sub-shape at a point.
    fn state(&self, point: &[Fix]) -> (s: Self::State)
        requires
            self.wf(),
            self.accepts_dim(point@.len()),
            self.state_defined(),
        ensures
            s == self.spec_state(point.deep_view()),
    ;

    /// Distance and payload at once.  Combinators override this so
    /// that each child is evaluated only once and the payload is
    /// chosen consistently with the winning distance.
    fn distance_and_state(&self, point: &[Fix]) -> (r: (Fix, Self::State))
        requires
            self.wf(),
            self.accepts_dim(point@.len()),
            self.state_defined(),
        ensures
            r.0@ == self.spec_distance(point.deep_view()),
            r.1 == self.spec_state(point.deep_view()),
    {
        (self.distance_from_slice(point), self.state(point))
    }

    /// Convenience form of `distance_from_slice` for vector points.
    fn distance(&self, point: &Vec<Fix>) -> (d: Fix)
        requires
            self.wf(),
            self.accepts_dim(point@.len()),
        ensures
            d@ == self.spec_distance(point.deep_view()),
    {
        self.distance_from_slice(point.as_slice())
    }

    /// Convenience alias of `distance_from_slice` for borrowed points.
    fn distance_ref(&self, point: &[Fix]) -> (d: Fix)
        requires
            self.wf(),
            self.accepts_dim(point@.len()),
        ensures
            d@ == self.spec_distance(point.deep_view()),
    {
        self.distance_from_slice(point)
    }

}

/// The gradient of the field at a point, approximated axis by
/// axis with a forward finite difference of step `epsilon`.
pub fn gradient<T: Sdf>(f: &T, point: &[Fix], epsilon: Fix) -> (g: Vec<Fix>)
    requires
        f.wf(),
        f.accepts_dim(point@.len()),
        epsilon@ != 0,
    ensures
        g@.len() == point@.len(),
        g.deep_view() == spec_gradient(*f, point.deep_view(), epsilon@),
{
    let ghost pv = point.deep_view();
    let base = f.distance_from_slice(point);
    let mut out: Vec<Fix> = Vec::new();
    let mut i: usize = 0;
    while i < point.len()
        invariant
            0 <= i <= point@.len(),
            f.wf(),
            f.accepts_dim(point@.len()),
            epsilon@ != 0,
            pv.len() == point@.len(),
            forall|j: int| 0 <= j < pv.len() ==> pv[j] == point@[j]@,
            base@ == f.spec_distance(pv),
            out.len() == i,
            forall|j: int| 0 <= j < i ==> out@[j]@ == spec_gradient(*f, pv, epsilon@)[j],
        decreases point@.len() - i,
    {
        let mut nudged: Vec<Fix> = Vec::new();
        let mut j: usize = 0;
        while j < point.len()
            invariant
                0 <= j <= point@.len(),
                i < point@.len(),
                pv.len() == point@.len(),
                forall|k: int| 0 <= k < pv.len() ==> pv[k] == point@[k]@,
                nudged.len() == j,
                forall|k: int|
                    0 <= k < j ==> nudged@[k]@ == pv.update(
                        i as int,
                        crate::fixed::fadd(pv[i as int], epsilon@),
                    )[k],
            decreases point@.len() - j,
        {
            if j == i {
                nudged.push(point[j].add(epsilon));
            } else {
                nudged.push(point[j]);
            }
            j = j + 1;
        }
        proof {
            assert(nudged.deep_view() =~= pv.update(
                i as int,
                crate::fixed::fadd(pv[i as int], epsilon@),
            ));
        }
        let shifted = f.distance_from_slice(nudged.as_slice());
        out.push(shifted.sub(base).div(epsilon));
        i = i + 1;
    }
    proof {
        assert(out.deep_view() =~= spec_gradient(*f, pv, epsilon@));
    }
    out
}

/// The outward surface normal at a point: the gradient divided
/// by its own norm.  Degenerate at a gradient of exactly zero,
/// where there is no direction to report: `None` instead of a
/// division by zero.
pub fn normal<T: Sdf>(f: &T, point: &[Fix], epsilon: Fix) -> (n: Option<Vec<Fix>>)
    requires
        f.wf(),
        f.accepts_dim(point@.len()),
        epsilon@ != 0,
    ensures
        n is None <==> (forall|i: int|
            0 <= i < point@.len()
                ==> #[trigger] spec_gradient(*f, point.deep_view(), epsilon@)[i] == 0),
        n matches Some(v) ==> v.deep_view() == crate::fixed::spec_normalized(
            spec_gradient(*f, point.deep_view(), epsilon@),
        ),
{
    let gradient = gradient(f, point, epsilon);
    let ghost gv = spec_gradient(*f, point.deep_view(), epsilon@);
    let gslice = gradient.as_slice();
    proof {
        assert(gslice@ == gradient@);
        assert(gslice.deep_view() =~= gradient.deep_view());
        assert(gv.len() == point@.len());
        assert forall|i: int| 0 <= i < point@.len() implies (#[trigger] gv[i])
            == gslice@[i]@ by {
            assert(gslice.deep_view()[i] == gslice@[i]@);
        }
        assert forall|i: int| 0 <= i < point@.len() implies (#[trigger] gslice@[i])@
            == gv[i] by {
            assert(gslice.deep_view()[i] == gslice@[i]@);
        }
    }
    let r = crate::fixed::normalize_slice(gslice);
    proof {
        assert(gslice.deep_view() =~= gv);
    }
    r
}

/// Payload values carried by fields.  A payload must be duplicable so
/// that one stored value can be reported at many points.
pub trait SdfState: Sized {
    /// A copy of the payload.
    fn dup(&self) -> (r: Self)
        ensures
            r == *self,
    ;
}

impl<T: Copy> SdfState for T {
    fn dup(&self) -> (r: Self) {
        *self
    }
}

} // verus!
