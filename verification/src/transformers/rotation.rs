//! Rotation of 2- and 3-dimensional fields.
//!
//! Rotating a field means rotating the query point by the inverse
//! rotation before delegating.  The trigonometry itself is not done
//! here: a 2D rotation is built from a precomputed sine and cosine
//! pair, computed once at construction time by the caller, and a 3D
//! rotation from a unit quaternion, whose inverse is its conjugate.

use vstd::prelude::*;

use crate::Sdf;
use crate::fixed::{Fix, fadd, fmul, fneg, fsub};

verus! {

/// The 2D point `p` rotated by the angle whose sine and cosine are
/// given: `[cos * x + sin * y, -(sin * x) + cos * y]`.
pub open spec fn spec_rotate2(p: Seq<int>, sin: int, cos: int) -> Seq<int> {
    seq![
        fadd(fmul(cos, p[0]), fmul(sin, p[1])),
        fadd(fneg(fmul(sin, p[0])), fmul(cos, p[1])),
    ]
}

/// A 2D field rotated by an angle.  Sine and cosine are stored
/// instead of the angle so the trigonometry is paid once at
/// construction, never per evaluation.
#[derive(Debug, Clone, Copy, PartialEq, Hash)]
pub struct Rotated2d<T> {
    pub inner: T,
    pub sin: Fix,
    pub cos: Fix,
}

impl<T: Sdf> Sdf for Rotated2d<T> {
    type State = T::State;

    open spec fn wf(&self) -> bool {
        self.inner.wf()
    }

    open spec fn accepts_dim(&self, dim: nat) -> bool {
        dim == 2 && self.inner.accepts_dim(2)
    }

    open spec fn state_defined(&self) -> bool {
        self.inner.state_defined()
    }

    /// The child's distance at the point rotated by the inverse
    /// angle (hence the sign on the sine of the second coordinate).
    open spec fn spec_distance(&self, p: Seq<int>) -> int {
        self.inner.spec_distance(spec_rotate2(p, self.sin@, self.cos@))
    }

    open spec fn spec_state(&self, p: Seq<int>) -> T::State {
        self.inner.spec_state(spec_rotate2(p, self.sin@, self.cos@))
    }

    fn distance_from_slice(&self, point: &[Fix]) -> (d: Fix) {
        let rotated = self.rotate_point(point);
        self.inner.distance_from_slice(rotated.as_slice())
    }

    fn state(&self, point: &[Fix]) -> (s: T::State) {
        let rotated = self.rotate_point(point);
        self.inner.state(rotated.as_slice())
    }
}

impl<T: Sdf> Rotated2d<T> {
    fn rotate_point(&self, point: &[Fix]) -> (r: Vec<Fix>)
        requires
            point@.len() == 2,
        ensures
            r@.len() == 2,
            r.deep_view() == spec_rotate2(point.deep_view(), self.sin@, self.cos@),
    {
        let x = point[0];
        let y = point[1];
        let mut out: Vec<Fix> = Vec::new();
        out.push(self.cos.mul(x).add(self.sin.mul(y)));
        out.push(self.sin.mul(x).neg().add(self.cos.mul(y)));
        proof {
            assert(point.deep_view()[0] == point@[0]@);
            assert(point.deep_view()[1] == point@[1]@);
            assert(out.deep_view() =~= spec_rotate2(point.deep_view(), self.sin@, self.cos@));
        }
        out
    }

    /// Rotate `inner` by the angle whose sine and cosine are given
    /// (computed once by the caller): at every 2D point the new
    /// distance is the child's distance at the inversely rotated
    /// point.
    pub fn new(inner: T, sin: Fix, cos: Fix) -> (r: Rotated2d<T>)
        ensures
            r.inner == inner,
            r.sin == sin,
            r.cos == cos,
            forall|p: Seq<int>| #[trigger] r.spec_distance(p)
                == inner.spec_distance(spec_rotate2(p, sin@, cos@)),
            forall|p: Seq<int>| #[trigger] r.spec_state(p)
                == inner.spec_state(spec_rotate2(p, sin@, cos@)),
    {
        Rotated2d { inner, sin, cos }
    }
}

/// A quaternion with fixed-point components, used for 3D rotations.
/// A rotation quaternion is expected to be of unit length, so that
/// its inverse is its conjugate.
#[derive(Debug, Clone, Copy, PartialEq, Eq, Structural, Hash)]
pub struct Quat {
    pub w: Fix,
    pub x: Fix,
    pub y: Fix,
    pub z: Fix,
}

impl Quat {
    pub fn new(w: Fix, x: Fix, y: Fix, z: Fix) -> (r: Quat)
        ensures
            r == (Quat { w, x, y, z }),
    {
        Quat { w, x, y, z }
    }

    /// The conjugate: the same rotation the other way around.  For a
    /// unit quaternion this is the inverse.
    pub fn conjugate(self) -> (r: Quat)
        ensures
            r.w == self.w,
            r.x@ == fneg(self.x@),
            r.y@ == fneg(self.y@),
            r.z@ == fneg(self.z@),
    {
        Quat { w: self.w, x: self.x.neg(), y: self.y.neg(), z: self.z.neg() }
    }
}

/// The cross product of two 3D raw-value vectors.
pub open spec fn spec_cross(a: Seq<int>, b: Seq<int>) -> Seq<int> {
    seq![
        fsub(fmul(a[1], b[2]), fmul(a[2], b[1])),
        fsub(fmul(a[2], b[0]), fmul(a[0], b[2])),
        fsub(fmul(a[0], b[1]), fmul(a[1], b[0])),
    ]
}

/// The 3D point `p` rotated by the quaternion `q`, by the standard
/// expansion `p + w * t + qv x t` with `t = 2 * (qv x p)`.
pub open spec fn spec_quat_apply(q: Quat, p: Seq<int>) -> Seq<int> {
    let qv = seq![q.x@, q.y@, q.z@];
    let c = spec_cross(qv, p);
    let t = seq![fadd(c[0], c[0]), fadd(c[1], c[1]), fadd(c[2], c[2])];
    let c2 = spec_cross(qv, t);
    seq![
        fadd(fadd(p[0], fmul(q.w@, t[0])), c2[0]),
        fadd(fadd(p[1], fmul(q.w@, t[1])), c2[1]),
        fadd(fadd(p[2], fmul(q.w@, t[2])), c2[2]),
    ]
}

/// A 3D field rotated by a quaternion.  The inverse rotation is
/// precomputed at construction.
#[derive(Debug, Clone, Copy, PartialEq, Hash)]
pub struct Rotated3d<T> {
    pub inner: T,
    pub inverse_rotation: Quat,
}

impl<T: Sdf> Sdf for Rotated3d<T> {
    type State = T::State;

    open spec fn wf(&self) -> bool {
        self.inner.wf()
    }

    open spec fn accepts_dim(&self, dim: nat) -> bool {
        dim == 3 && self.inner.accepts_dim(3)
    }

    open spec fn state_defined(&self) -> bool {
        self.inner.state_defined()
    }

    /// The child's distance at the inversely rotated point.
    open spec fn spec_distance(&self, p: Seq<int>) -> int {
        self.inner.spec_distance(spec_quat_apply(self.inverse_rotation, p))
    }

    open spec fn spec_state(&self, p: Seq<int>) -> T::State {
        self.inner.spec_state(spec_quat_apply(self.inverse_rotation, p))
    }

    fn distance_from_slice(&self, point: &[Fix]) -> (d: Fix) {
        let rotated = self.rotate_point(point);
        self.inner.distance_from_slice(rotated.as_slice())
    }

    fn state(&self, point: &[Fix]) -> (s: T::State) {
        let rotated = self.rotate_point(point);
        self.inner.state(rotated.as_slice())
    }
}

impl<T: Sdf> Rotated3d<T> {
    fn rotate_point(&self, point: &[Fix]) -> (r: Vec<Fix>)
        requires
            point@.len() == 3,
        ensures
            r@.len() == 3,
            r.deep_view() == spec_quat_apply(self.inverse_rotation, point.deep_view()),
    {
        let q = self.inverse_rotation;
        let p0 = point[0];
        let p1 = point[1];
        let p2 = point[2];
        let c0 = q.y.mul(p2).sub(q.z.mul(p1));
        let c1 = q.z.mul(p0).sub(q.x.mul(p2));
        let c2 = q.x.mul(p1).sub(q.y.mul(p0));
        let t0 = c0.add(c0);
        let t1 = c1.add(c1);
        let t2 = c2.add(c2);
        let d0 = q.y.mul(t2).sub(q.z.mul(t1));
        let d1 = q.z.mul(t0).sub(q.x.mul(t2));
        let d2 = q.x.mul(t1).sub(q.y.mul(t0));
        let mut out: Vec<Fix> = Vec::new();
        out.push(p0.add(q.w.mul(t0)).add(d0));
        out.push(p1.add(q.w.mul(t1)).add(d1));
        out.push(p2.add(q.w.mul(t2)).add(d2));
        proof {
            assert(point.deep_view()[0] == point@[0]@);
            assert(point.deep_view()[1] == point@[1]@);
            assert(point.deep_view()[2] == point@[2]@);
            assert(out.deep_view() =~= spec_quat_apply(q, point.deep_view()));
        }
        out
    }

    /// Rotate `inner` by the unit quaternion `rotation`; its
    /// conjugate (the inverse rotation) is stored, and at every 3D
    /// point the new distance is the child's distance at the
    /// inversely rotated point.
    pub fn new(inner: T, rotation: Quat) -> (r: Rotated3d<T>)
        ensures
            r.inner == inner,
            r.inverse_rotation.w == rotation.w,
            r.inverse_rotation.x@ == fneg(rotation.x@),
            r.inverse_rotation.y@ == fneg(rotation.y@),
            r.inverse_rotation.z@ == fneg(rotation.z@),
            forall|p: Seq<int>| #[trigger] r.spec_distance(p)
                == inner.spec_distance(spec_quat_apply(r.inverse_rotation, p)),
            forall|p: Seq<int>| #[trigger] r.spec_state(p)
                == inner.spec_state(spec_quat_apply(r.inverse_rotation, p)),
    {
        Rotated3d { inner, inverse_rotation: rotation.conjugate() }
    }
}

/// Rotation operation on any 2D field.
pub trait SdfRotation2dOperations: Sdf {
    /// Rotate this field by the angle whose sine and cosine are given.
    fn rotate_2d(self, sin: Fix, cos: Fix) -> (r: Rotated2d<Self>)
        ensures
            r.inner == self,
            r.sin == sin,
            r.cos == cos,
    {
        Rotated2d::new(self, sin, cos)
    }
}

impl<T: Sdf> SdfRotation2dOperations for T {

}

/// Rotation operation on any 3D field.
pub trait SdfRotation3dOperations: Sdf {
    /// Rotate this field by a unit quaternion.
    fn rotate(self, rotation: Quat) -> (r: Rotated3d<Self>)
        ensures
            r.inner == self,
            r.inverse_rotation.w == rotation.w,
            r.inverse_rotation.x@ == fneg(rotation.x@),
            r.inverse_rotation.y@ == fneg(rotation.y@),
            r.inverse_rotation.z@ == fneg(rotation.z@),
    {
        Rotated3d::new(self, rotation)
    }
}

impl<T: Sdf> SdfRotation3dOperations for T {

}

} // verus!
