//! A minimal ray marcher: a consumer of the evaluation contract.
//!
//! The marcher walks along a ray, at every step advancing by the
//! distance the field reports, until it lands within a surface
//! threshold (a collision), travels past a distance bound, or runs
//! out of its iteration budget (no collision either way).

use vstd::prelude::*;

use crate::Sdf;
use crate::fixed::{Fix, fadd, fmul};
use vstd::arithmetic::div_mod::{
    lemma_fundamental_div_mod_converse_div, lemma_fundamental_div_mod_converse_mod,
};

verus! {

/// A ray: an origin point and a direction vector of the same
/// dimension.  The direction need not be of unit length; the march
/// advances by `distance * direction` each step.
#[derive(Debug, Clone, PartialEq, Hash)]
pub struct Ray {
    pub origin: Vec<Fix>,
    pub direction: Vec<Fix>,
}

/// The outcome of a march that found a surface: the total distance
/// accumulated up to the point of conclusion.
#[derive(Debug, Clone, Copy, PartialEq, Eq, Structural, Hash)]
pub struct Collision {
    pub distance: Fix,
}

/// A configured ray marcher over a field.
#[derive(Debug, Clone, PartialEq, Hash)]
pub struct Marcher<T> {
    pub max_ray_distance: Fix,
    pub surface_distance: Fix,
    pub max_iter_count: u32,
    pub surface: T,
}

/// The position one marching step later: each axis advanced by the
/// reported distance times the direction.
pub open spec fn spec_advance(pos: Seq<int>, dir: Seq<int>, d: int) -> Seq<int> {
    Seq::new(pos.len(), |i: int| fadd(pos[i], fmul(d, dir[i])))
}

/// What a march from the given state concludes, with `fuel`
/// iterations left: `None` once the total exceeds the ray bound or
/// the fuel runs out, a collision with the accumulated total once
/// the field's distance falls below the surface threshold, else one
/// more step.
pub open spec fn spec_march<T: Sdf>(
    surface: T,
    max_ray_distance: int,
    surface_distance: int,
    pos: Seq<int>,
    dir: Seq<int>,
    total: int,
    fuel: nat,
) -> Option<int>
    decreases fuel,
{
    if fuel == 0 {
        None
    } else if total > max_ray_distance {
        None
    } else {
        let d = surface.spec_distance(pos);
        if d < surface_distance {
            Some(total)
        } else {
            spec_march(
                surface,
                max_ray_distance,
                surface_distance,
                spec_advance(pos, dir, d),
                dir,
                fadd(total, d),
                (fuel - 1) as nat,
            )
        }
    }
}

/// A general law of the marching recurrence: with a positive
/// surface threshold every step adds a positive distance, so a march
/// that concludes with a collision reports an accumulated distance
/// between the starting total and the ray bound.
pub proof fn lemma_march_collision_within_bounds<T: Sdf>(
    surface: T,
    max_ray_distance: int,
    surface_distance: int,
    pos: Seq<int>,
    dir: Seq<int>,
    total: int,
    fuel: nat,
)
    requires
        surface_distance > 0,
        i64::MIN <= total <= i64::MAX,
    ensures
        spec_march(surface, max_ray_distance, surface_distance, pos, dir, total, fuel)
            matches Some(t) ==> total <= t <= max_ray_distance,
    decreases fuel,
{
    if fuel > 0 && total <= max_ray_distance {
        let d = surface.spec_distance(pos);
        if !(d < surface_distance) {
            lemma_march_collision_within_bounds(
                surface,
                max_ray_distance,
                surface_distance,
                spec_advance(pos, dir, d),
                dir,
                fadd(total, d),
                (fuel - 1) as nat,
            );
        }
    }
}

impl<T: Sdf> Marcher<T> {
    /// March along `ray` until a surface is found or a bound is
    /// exceeded.  The result is exactly what the marching recurrence
    /// concludes from the ray's origin with the configured budget.
    pub fn march(&self, ray: &Ray) -> (r: Option<Collision>)
        requires
            self.surface.wf(),
            self.surface.accepts_dim(ray.origin@.len()),
            ray.direction@.len() == ray.origin@.len(),
        ensures
            spec_march(
                self.surface,
                self.max_ray_distance@,
                self.surface_distance@,
                ray.origin.deep_view(),
                ray.direction.deep_view(),
                0,
                self.max_iter_count as nat,
            ) == (match r {
                Some(c) => Some(c.distance@),
                None => None::<int>,
            }),
    {
        let ghost dv = ray.direction.deep_view();
        let ghost goal = spec_march(
            self.surface,
            self.max_ray_distance@,
            self.surface_distance@,
            ray.origin.deep_view(),
            dv,
            0,
            self.max_iter_count as nat,
        );
        let mut total = Fix::zero();
        let mut position = copy_point(&ray.origin);
        let mut iter: u32 = 0;
        while iter < self.max_iter_count
            invariant
                iter <= self.max_iter_count,
                self.surface.wf(),
                self.surface.accepts_dim(position@.len()),
                dv == ray.direction.deep_view(),
                position@.len() == ray.direction@.len(),
                position@.len() == dv.len(),
                goal == spec_march(
                    self.surface,
                    self.max_ray_distance@,
                    self.surface_distance@,
                    ray.origin.deep_view(),
                    ray.direction.deep_view(),
                    0,
                    self.max_iter_count as nat,
                ),
                goal == spec_march(
                    self.surface,
                    self.max_ray_distance@,
                    self.surface_distance@,
                    position.deep_view(),
                    dv,
                    total@,
                    (self.max_iter_count - iter) as nat,
                ),
            decreases self.max_iter_count - iter,
        {
            let ghost fuel = (self.max_iter_count - iter) as nat;
            proof {
                assert(fuel > 0);
            }
            if total.gt(self.max_ray_distance) {
                proof {
                    assert(spec_march(
                        self.surface,
                        self.max_ray_distance@,
                        self.surface_distance@,
                        position.deep_view(),
                        dv,
                        total@,
                        fuel,
                    ) is None);
                }
                return None;
            }
            let distance = self.surface.distance_from_slice(position.as_slice());
            if distance.lt(self.surface_distance) {
                proof {
                    assert(spec_march(
                        self.surface,
                        self.max_ray_distance@,
                        self.surface_distance@,
                        position.deep_view(),
                        dv,
                        total@,
                        fuel,
                    ) == Some(total@));
                }
                return Some(Collision { distance: total });
            }
            proof {
                assert(spec_march(
                    self.surface,
                    self.max_ray_distance@,
                    self.surface_distance@,
                    position.deep_view(),
                    dv,
                    total@,
                    fuel,
                ) == spec_march(
                    self.surface,
                    self.max_ray_distance@,
                    self.surface_distance@,
                    spec_advance(position.deep_view(), dv, distance@),
                    dv,
                    fadd(total@, distance@),
                    (fuel - 1) as nat,
                ));
            }
            position = advance(&position, &ray.direction, distance);
            total = total.add(distance);
            iter = iter + 1;
        }
        None
    }
}

/// Copy a point vector.
fn copy_point(point: &Vec<Fix>) -> (r: Vec<Fix>)
    ensures
        r@ == point@,
{
    let mut out: Vec<Fix> = Vec::new();
    let mut i: usize = 0;
    while i < point.len()
        invariant
            0 <= i <= point@.len(),
            out@.len() == i,
            forall|j: int| 0 <= j < i ==> out@[j] == point@[j],
        decreases point@.len() - i,
    {
        out.push(point[i]);
        i = i + 1;
    }
    proof {
        assert(out@ =~= point@);
    }
    out
}

/// One marching step: advance each axis by `distance * direction`.
fn advance(position: &Vec<Fix>, direction: &Vec<Fix>, distance: Fix) -> (r: Vec<Fix>)
    requires
        position@.len() == direction@.len(),
    ensures
        r@.len() == position@.len(),
        r.deep_view() == spec_advance(position.deep_view(), direction.deep_view(), distance@),
{
    let ghost pv = position.deep_view();
    let ghost dv = direction.deep_view();
    let mut out: Vec<Fix> = Vec::new();
    let mut i: usize = 0;
    while i < position.len()
        invariant
            0 <= i <= position@.len(),
            pv.len() == position@.len(),
            dv.len() == direction@.len(),
            pv.len() == dv.len(),
            forall|j: int| 0 <= j < pv.len() ==> pv[j] == position@[j]@,
            forall|j: int| 0 <= j < dv.len() ==> dv[j] == direction@[j]@,
            out.len() == i,
            forall|j: int| 0 <= j < i ==> out@[j]@ == spec_advance(pv, dv, distance@)[j],
        decreases position@.len() - i,
    {
        out.push(position[i].add(distance.mul(direction[i])));
        i = i + 1;
    }
    proof {
        assert(out.deep_view() =~= spec_advance(pv, dv, distance@));
    }
    out
}

/// All pixel index pairs of a two-range grid, row by row: the second
/// range drives the first coordinate (outer), the first range the
/// second (inner).
pub fn iter_pairs(range: &[std::ops::Range<usize>; 2]) -> (r: Vec<[usize; 2]>)
    requires
        range@[0].start <= range@[0].end,
        range@[1].start <= range@[1].end,
        (range@[1].end - range@[1].start) * (range@[0].end - range@[0].start) <= usize::MAX,
    ensures
        r@.len() == (range@[1].end - range@[1].start) * (range@[0].end - range@[0].start),
        forall|k: int|
            0 <= k < r@.len() ==> (#[trigger] r@[k])@ == seq![
                (range@[1].start + k / (range@[0].end - range@[0].start) as int) as usize,
                (range@[0].start + k % (range@[0].end - range@[0].start) as int) as usize,
            ],
{
    let xs = range[1].start;
    let xe = range[1].end;
    let ys = range[0].start;
    let ye = range[0].end;
    let ghost ylen = (ye - ys) as int;
    let mut out: Vec<[usize; 2]> = Vec::new();
    let mut x = xs;
    while x < xe
        invariant
            xs <= x <= xe,
            ylen == ye - ys,
            ys <= ye,
            (xe - xs) * ylen <= usize::MAX,
            out@.len() == (x - xs) * ylen,
            forall|k: int|
                0 <= k < out@.len() ==> (#[trigger] out@[k])@ == seq![
                    (xs + k / ylen) as usize,
                    (ys + k % ylen) as usize,
                ],
        decreases xe - x,
    {
        let mut y = ys;
        while y < ye
            invariant
                xs <= x < xe,
                ys <= y <= ye,
                ylen == ye - ys,
                (xe - xs) * ylen <= usize::MAX,
                out@.len() == (x - xs) * ylen + (y - ys),
                forall|k: int|
                    0 <= k < out@.len() ==> (#[trigger] out@[k])@ == seq![
                        (xs + k / ylen) as usize,
                        (ys + k % ylen) as usize,
                    ],
            decreases ye - y,
        {
            proof {
                assert((x - xs) * ylen + (y - ys) < (x - xs + 1) * ylen) by (nonlinear_arith)
                    requires
                        ylen > 0,
                        0 <= y - ys < ylen,
                ;
                assert((x - xs + 1) * ylen <= (xe - xs) * ylen) by (nonlinear_arith)
                    requires
                        ylen >= 0,
                        x < xe,
                ;
                let k = out@.len() as int;
                lemma_fundamental_div_mod_converse_div(k, ylen, x - xs, y - ys);
                lemma_fundamental_div_mod_converse_mod(k, ylen, x - xs, y - ys);
            }
            out.push([x, y]);
            y = y + 1;
        }
        x = x + 1;
        proof {
            assert((x - xs) * ylen == (x - 1 - xs) * ylen + ylen) by (nonlinear_arith);
        }
    }
    proof {
        assert(out@.len() == (xe - xs) * ylen) by {
            assert(x == xe);
        }
    }
    out
}

} // verus!
