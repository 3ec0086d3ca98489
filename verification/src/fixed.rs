//! The scalar type of the library: a signed fixed-point number.
//!
//! A [`Fix`] stores a signed 64-bit count of units of `1 / FIX_SCALE`.
//! All arithmetic saturates at the representable range instead of
//! wrapping, so every operation is total and has an exact
//! mathematical description: the spec functions in this module
//! (`fadd`, `fmul`, ... over the raw unit counts) say precisely what
//! each executable operation returns.

use vstd::prelude::*;

verus! {

/// Number of fixed-point units per 1.0.
pub const FIX_SCALE: i64 = 65536;

/// Clamp a mathematical integer into the representable range of raw values.
pub open spec fn clip(x: int) -> int {
    if x < i64::MIN {
        i64::MIN as int
    } else if x > i64::MAX {
        i64::MAX as int
    } else {
        x
    }
}

/// Saturating addition over raw values.
pub open spec fn fadd(a: int, b: int) -> int {
    clip(a + b)
}

/// Saturating subtraction over raw values.
pub open spec fn fsub(a: int, b: int) -> int {
    clip(a - b)
}

/// Saturating negation over raw values.
pub open spec fn fneg(a: int) -> int {
    clip(-a)
}

/// Saturating absolute value over raw values.
pub open spec fn fabs(a: int) -> int {
    clip(if a < 0 { -a } else { a })
}

pub open spec fn fmin(a: int, b: int) -> int {
    if a <= b { a } else { b }
}

pub open spec fn fmax(a: int, b: int) -> int {
    if a >= b { a } else { b }
}

/// Integer absolute value (unclipped).
pub open spec fn iabs(a: int) -> int {
    if a < 0 { -a } else { a }
}

/// Division truncated toward zero, as machine division does it.
/// Unspecified for `b == 0` (spec division by zero).
pub open spec fn tdiv(a: int, b: int) -> int {
    let q = iabs(a) / iabs(b);
    if (a < 0) != (b < 0) { -q } else { q }
}

/// Saturating fixed-point multiplication over raw values.
pub open spec fn fmul(a: int, b: int) -> int {
    clip(tdiv(a * b, FIX_SCALE as int))
}

/// Saturating fixed-point division over raw values.
/// Unspecified for `b == 0`; the executable division requires `b != 0`.
pub open spec fn fdiv(a: int, b: int) -> int {
    clip(tdiv(a * (FIX_SCALE as int), b))
}

/// Floor of the square root of a nonnegative integer.
pub open spec fn sqrt_floor(n: int) -> int
    decreases n,
{
    if n <= 0 {
        0
    } else {
        let r = sqrt_floor(n - 1);
        if (r + 1) * (r + 1) <= n {
            r + 1
        } else {
            r
        }
    }
}

pub proof fn lemma_sqrt_floor(n: int)
    requires
        n >= 0,
    ensures
        sqrt_floor(n) >= 0,
        sqrt_floor(n) * sqrt_floor(n) <= n,
        n < (sqrt_floor(n) + 1) * (sqrt_floor(n) + 1),
    decreases n,
{
    if n > 0 {
        lemma_sqrt_floor(n - 1);
        let r = sqrt_floor(n - 1);
        if (r + 1) * (r + 1) <= n {
            assert((r + 1) * (r + 1) + 1 <= (r + 2) * (r + 2)) by (nonlinear_arith)
                requires
                    r >= 0,
            ;
        }
    }
}

/// The floor square root is the only nonnegative `r` with
/// `r * r <= n < (r + 1) * (r + 1)`.
pub proof fn lemma_sqrt_floor_unique(n: int, r: int)
    requires
        n >= 0,
        r >= 0,
        r * r <= n,
        n < (r + 1) * (r + 1),
    ensures
        r == sqrt_floor(n),
{
    let s = sqrt_floor(n);
    lemma_sqrt_floor(n);
    if r < s {
        assert((r + 1) * (r + 1) <= s * s) by (nonlinear_arith)
            requires
                0 <= r + 1 <= s,
        ;
    } else if s < r {
        assert((s + 1) * (s + 1) <= r * r) by (nonlinear_arith)
            requires
                0 <= s + 1 <= r,
        ;
    }
}

/// `sqrt_floor` of a perfect square is exact.
pub proof fn lemma_sqrt_floor_square(a: int)
    requires
        a >= 0,
    ensures
        sqrt_floor(a * a) == a,
{
    assert(a * a < (a + 1) * (a + 1)) by (nonlinear_arith)
        requires
            a >= 0,
    ;
    lemma_sqrt_floor_unique(a * a, a);
}

/// A signed fixed-point scalar: `raw` counts units of `1 / FIX_SCALE`.
///
/// The mathematical value of a `Fix` is its raw unit count (the view
/// `@`); all arithmetic on it saturates at `i64::MIN` / `i64::MAX`.
#[derive(Clone, Copy, PartialEq, Eq, Structural, Hash, Debug)]
pub struct Fix {
    pub raw: i64,
}

impl View for Fix {
    type V = int;

    open spec fn view(&self) -> int {
        self.raw as int
    }
}

impl DeepView for Fix {
    type V = int;

    open spec fn deep_view(&self) -> int {
        self.raw as int
    }
}

impl Fix {
    /// The value made of `raw` fixed-point units.
    pub fn from_raw(raw: i64) -> (r: Fix)
        ensures
            r@ == raw as int,
    {
        Fix { raw }
    }

    /// The raw unit count.
    pub fn raw(self) -> (r: i64)
        ensures
            r as int == self@,
    {
        self.raw
    }

    pub fn zero() -> (r: Fix)
        ensures
            r@ == 0,
    {
        Fix { raw: 0 }
    }

    pub fn one() -> (r: Fix)
        ensures
            r@ == FIX_SCALE as int,
    {
        Fix { raw: FIX_SCALE }
    }

    /// The value `i`, saturating at the representable range.
    pub fn from_int(i: i64) -> (r: Fix)
        ensures
            r@ == clip(i * (FIX_SCALE as int)),
    {
        proof {
            assert(iabs((i as int) * (FIX_SCALE as int)) <= 0x8000_0000_0000_0000 * 0x10000)
                by (nonlinear_arith)
                requires
                    iabs(i as int) <= 0x8000_0000_0000_0000,
                    FIX_SCALE == 0x10000,
            ;
        }
        let wide: i128 = (i as i128) * (FIX_SCALE as i128);
        clamp_to_fix(wide)
    }

    /// The value `n / d`, truncated toward zero and saturating.
    pub fn from_ratio(n: i64, d: i64) -> (r: Fix)
        requires
            d != 0,
        ensures
            r@ == fdiv(n as int, d as int),
    {
        Fix::from_raw(0).div_raw(n, d)
    }


    /// Saturating addition.
    pub fn add(self, other: Fix) -> (r: Fix)
        ensures
            r@ == fadd(self@, other@),
    {
        clamp_to_fix(self.raw as i128 + other.raw as i128)
    }

    /// Saturating subtraction.
    pub fn sub(self, other: Fix) -> (r: Fix)
        ensures
            r@ == fsub(self@, other@),
    {
        clamp_to_fix(self.raw as i128 - other.raw as i128)
    }

    /// Saturating negation.
    pub fn neg(self) -> (r: Fix)
        ensures
            r@ == fneg(self@),
    {
        if self.raw == i64::MIN {
            Fix { raw: i64::MAX }
        } else {
            Fix { raw: -self.raw }
        }
    }

    /// Saturating absolute value.
    pub fn abs(self) -> (r: Fix)
        ensures
            r@ == fabs(self@),
    {
        if self.raw < 0 {
            self.neg()
        } else {
            self
        }
    }

    pub fn min(self, other: Fix) -> (r: Fix)
        ensures
            r@ == fmin(self@, other@),
    {
        if self.raw <= other.raw {
            self
        } else {
            other
        }
    }

    pub fn max(self, other: Fix) -> (r: Fix)
        ensures
            r@ == fmax(self@, other@),
    {
        if self.raw >= other.raw {
            self
        } else {
            other
        }
    }

    pub fn lt(self, other: Fix) -> (r: bool)
        ensures
            r == (self@ < other@),
    {
        self.raw < other.raw
    }

    pub fn le(self, other: Fix) -> (r: bool)
        ensures
            r == (self@ <= other@),
    {
        self.raw <= other.raw
    }

    pub fn gt(self, other: Fix) -> (r: bool)
        ensures
            r == (self@ > other@),
    {
        self.raw > other.raw
    }

    pub fn ge(self, other: Fix) -> (r: bool)
        ensures
            r == (self@ >= other@),
    {
        self.raw >= other.raw
    }

    pub fn is_zero(self) -> (r: bool)
        ensures
            r == (self@ == 0),
    {
        self.raw == 0
    }

    /// Saturating fixed-point multiplication.
    pub fn mul(self, other: Fix) -> (r: Fix)
        ensures
            r@ == fmul(self@, other@),
    {
        proof {
            assert(iabs((self.raw as int) * (other.raw as int))
                <= 0x4000_0000_0000_0000_0000_0000_0000_0000) by (nonlinear_arith)
                requires
                    iabs(self.raw as int) <= 0x8000_0000_0000_0000,
                    iabs(other.raw as int) <= 0x8000_0000_0000_0000,
            ;
        }
        let p: i128 = (self.raw as i128) * (other.raw as i128);
        let neg: bool = p < 0;
        let mag: u128 = if neg {
            (-p) as u128
        } else {
            p as u128
        };
        let q: u128 = mag / (FIX_SCALE as u128);
        proof {
            assert(mag == iabs(p as int));
            assert(q == iabs(p as int) / (FIX_SCALE as int));
        }
        Fix::signed_from_mag(neg, q)
    }

    /// Saturating fixed-point division (truncated toward zero).
    pub fn div(self, other: Fix) -> (r: Fix)
        requires
            other@ != 0,
        ensures
            r@ == fdiv(self@, other@),
    {
        Fix::from_raw(0).div_raw(self.raw, other.raw)
    }

    /// Shared worker: `(n * FIX_SCALE) / d`, truncated, saturating.
    fn div_raw(self, n: i64, d: i64) -> (r: Fix)
        requires
            d != 0,
        ensures
            r@ == fdiv(n as int, d as int),
    {
        proof {
            assert(iabs((n as int) * (FIX_SCALE as int)) <= 0x8000_0000_0000_0000 * 0x10000)
                by (nonlinear_arith)
                requires
                    iabs(n as int) <= 0x8000_0000_0000_0000,
                    FIX_SCALE == 0x10000,
            ;
        }
        let p: i128 = (n as i128) * (FIX_SCALE as i128);
        let neg: bool = (p < 0) != (d < 0);
        let mag_n: u128 = if p < 0 {
            (-p) as u128
        } else {
            p as u128
        };
        let mag_d: u128 = if d < 0 {
            if d == i64::MIN {
                9223372036854775808u128
            } else {
                (-d) as u128
            }
        } else {
            d as u128
        };
        let q: u128 = mag_n / mag_d;
        proof {
            assert(mag_n == iabs(p as int));
            assert(mag_d == iabs(d as int));
            assert(q == iabs(p as int) / iabs(d as int));
            assert(tdiv(p as int, d as int) == if neg { -(q as int) } else { q as int });
        }
        Fix::signed_from_mag(neg, q)
    }

    /// Clamp a sign-and-magnitude result back into a `Fix`.
    fn signed_from_mag(neg: bool, mag: u128) -> (r: Fix)
        ensures
            r@ == clip(if neg { -(mag as int) } else { mag as int }),
    {
        if neg {
            if mag >= 9223372036854775808u128 {
                Fix { raw: i64::MIN }
            } else {
                Fix { raw: -(mag as i64) }
            }
        } else {
            if mag > i64::MAX as u128 {
                Fix { raw: i64::MAX }
            } else {
                Fix { raw: mag as i64 }
            }
        }
    }
}

/// Clamp a wide intermediate result back into a `Fix`.
pub(crate) fn clamp_to_fix(x: i128) -> (r: Fix)
    ensures
        r@ == clip(x as int),
{
    if x < i64::MIN as i128 {
        Fix { raw: i64::MIN }
    } else if x > i64::MAX as i128 {
        Fix { raw: i64::MAX }
    } else {
        Fix { raw: x as i64 }
    }
}

/// Saturating sum of squares of the raw values of a prefix of `p`.
/// Saturates at `u128::MAX`, far above any clipped square root.
pub open spec fn sum_sq_prefix(p: Seq<int>, n: int) -> int
    decreases n,
{
    if n <= 0 {
        0
    } else {
        let s = sum_sq_prefix(p, n - 1) + iabs(p[n - 1]) * iabs(p[n - 1]);
        if s > u128::MAX {
            u128::MAX as int
        } else {
            s
        }
    }
}

/// The Euclidean norm of a raw-value vector: the floor square root of
/// the (saturating) sum of squares, clipped into range.
pub open spec fn fnorm(p: Seq<int>) -> int {
    clip(sqrt_floor(sum_sq_prefix(p, p.len() as int)))
}

pub proof fn lemma_sum_sq_prefix_nonneg(p: Seq<int>, n: int)
    ensures
        0 <= sum_sq_prefix(p, n) <= u128::MAX,
    decreases n,
{
    if n > 0 {
        lemma_sum_sq_prefix_nonneg(p, n - 1);
        assert(iabs(p[n - 1]) * iabs(p[n - 1]) >= 0) by (nonlinear_arith);
    }
}

/// The sum of squares is zero exactly when every entry is zero.
pub proof fn lemma_sum_sq_prefix_zero(p: Seq<int>, n: int)
    ensures
        (sum_sq_prefix(p, n) == 0) <==> (forall|i: int| 0 <= i < n ==> p[i] == 0),
    decreases n,
{
    if n > 0 {
        lemma_sum_sq_prefix_zero(p, n - 1);
        lemma_sum_sq_prefix_nonneg(p, n - 1);
        let a = iabs(p[n - 1]);
        assert(a * a >= 0 && (a * a == 0 <==> a == 0)) by (nonlinear_arith);
    }
}

/// The norm of a single scalar is its absolute value.
pub proof fn lemma_fnorm_single(p: Seq<int>)
    requires
        p.len() == 1,
        iabs(p[0]) <= i64::MAX + 1,
    ensures
        fnorm(p) == fabs(p[0]),
{
    let a = iabs(p[0]);
    assert(a * a <= 0x4000_0000_0000_0000_0000_0000_0000_0000) by (nonlinear_arith)
        requires
            0 <= a <= 0x8000_0000_0000_0000,
    ;
    assert(sum_sq_prefix(p, 0) == 0);
    assert(sum_sq_prefix(p, 1) == a * a);
    lemma_sqrt_floor_square(a);
}

/// Compute the Euclidean norm of a vector of scalars.
pub fn norm_slice(point: &[Fix]) -> (r: Fix)
    ensures
        r@ == fnorm(point.deep_view()),
{
    let ghost pv = point.deep_view();
    let mut acc: u128 = 0;
    let mut i: usize = 0;
    proof {
        assert(pv.len() == point@.len());
    }
    while i < point.len()
        invariant
            0 <= i <= point.len(),
            pv.len() == point@.len(),
            forall|j: int| 0 <= j < pv.len() ==> pv[j] == point@[j]@,
            acc as int == sum_sq_prefix(pv, i as int),
        decreases point.len() - i,
    {
        let raw = point[i].raw();
        let mag: u128 = if raw < 0 {
            if raw == i64::MIN {
                9223372036854775808u128
            } else {
                (-raw) as u128
            }
        } else {
            raw as u128
        };
        proof {
            assert(mag == iabs(pv[i as int]));
            assert(mag * mag <= 0x4000_0000_0000_0000_0000_0000_0000_0000) by (nonlinear_arith)
                requires
                    0 <= mag <= 0x8000_0000_0000_0000,
            ;
            lemma_sum_sq_prefix_nonneg(pv, i as int);
        }
        let sq: u128 = mag * mag;
        acc = acc.saturating_add(sq);
        i = i + 1;
    }
    let s = isqrt(acc);
    proof {
        lemma_sqrt_floor(acc as int);
        lemma_sum_sq_prefix_nonneg(pv, pv.len() as int);
    }
    if s > i64::MAX as u128 {
        Fix::from_raw(i64::MAX)
    } else {
        Fix::from_raw(s as i64)
    }
}

/// The norm is zero exactly when every entry is zero.
pub proof fn lemma_fnorm_zero(p: Seq<int>)
    ensures
        (fnorm(p) == 0) <==> (forall|i: int| 0 <= i < p.len() ==> p[i] == 0),
{
    let s = sum_sq_prefix(p, p.len() as int);
    lemma_sum_sq_prefix_zero(p, p.len() as int);
    lemma_sum_sq_prefix_nonneg(p, p.len() as int);
    lemma_sqrt_floor(s);
    let r = sqrt_floor(s);
    if s == 0 {
        assert(sqrt_floor(0) == 0);
        assert(fnorm(p) == 0);
    } else {
        assert(r >= 1) by {
            if r == 0 {
                assert(s < (0 + 1) * (0 + 1));
            }
        }
        assert(clip(r) >= 1);
        assert(fnorm(p) != 0);
    }
}

/// Saturating dot product of the first `n` axes of two raw-value
/// vectors, accumulated left to right.
pub open spec fn spec_dot(a: Seq<int>, b: Seq<int>, n: int) -> int
    decreases n,
{
    if n <= 0 {
        0
    } else {
        fadd(spec_dot(a, b, n - 1), fmul(a[n - 1], b[n - 1]))
    }
}

/// Compute the dot product of two vectors of scalars.
pub fn dot_slice(a: &[Fix], b: &[Fix]) -> (r: Fix)
    requires
        a@.len() == b@.len(),
    ensures
        r@ == spec_dot(a.deep_view(), b.deep_view(), a@.len() as int),
{
    let ghost av = a.deep_view();
    let ghost bv = b.deep_view();
    let mut acc = Fix::zero();
    let mut i: usize = 0;
    while i < a.len()
        invariant
            0 <= i <= a.len(),
            a@.len() == b@.len(),
            av.len() == a@.len(),
            bv.len() == b@.len(),
            forall|j: int| 0 <= j < av.len() ==> av[j] == a@[j]@,
            forall|j: int| 0 <= j < bv.len() ==> bv[j] == b@[j]@,
            acc@ == spec_dot(av, bv, i as int),
        decreases a.len() - i,
    {
        acc = acc.add(a[i].mul(b[i]));
        i = i + 1;
    }
    acc
}

/// A vector divided by its own norm, componentwise.
pub open spec fn spec_normalized(p: Seq<int>) -> Seq<int> {
    Seq::new(p.len(), |i: int| fdiv(p[i], fnorm(p)))
}

/// Normalise a direction vector; `None` exactly when its norm is
/// zero, that is, when every component is zero.
pub fn normalize_slice(dir: &[Fix]) -> (r: Option<Vec<Fix>>)
    ensures
        r is None <==> (forall|i: int| 0 <= i < dir@.len() ==> dir@[i]@ == 0),
        r matches Some(v) ==> v.deep_view() == spec_normalized(dir.deep_view()),
{
    let ghost dv = dir.deep_view();
    proof {
        lemma_fnorm_zero(dv);
        assert(dv.len() == dir@.len());
        assert(forall|i: int| 0 <= i < dv.len() ==> dv[i] == dir@[i]@);
    }
    let n = norm_slice(dir);
    if n.is_zero() {
        proof {
            assert forall|i: int| 0 <= i < dir@.len() implies dir@[i]@ == 0 by {
                assert(dv[i] == dir@[i]@);
            }
        }
        return None;
    }
    proof {
        assert forall|i: int| 0 <= i < dir@.len() && dv[i] != 0 implies dir@[i]@ != 0 by {
            assert(dv[i] == dir@[i]@);
        }
    }
    let mut out: Vec<Fix> = Vec::new();
    let mut i: usize = 0;
    while i < dir.len()
        invariant
            0 <= i <= dir.len(),
            dv.len() == dir@.len(),
            forall|j: int| 0 <= j < dv.len() ==> dv[j] == dir@[j]@,
            n@ == fnorm(dv),
            n@ != 0,
            out.len() == i,
            forall|j: int| 0 <= j < i ==> out@[j]@ == fdiv(dv[j], fnorm(dv)),
        decreases dir.len() - i,
    {
        out.push(dir[i].div(n));
        i = i + 1;
    }
    proof {
        assert(out.deep_view() =~= spec_normalized(dv));
    }
    Some(out)
}

/// Floor square root of a 128-bit integer, by bisection.
pub fn isqrt(n: u128) -> (r: u128)
    ensures
        r as int == sqrt_floor(n as int),
{
    let mut lo: u128 = 0;
    let mut hi: u128 = 0x1_0000_0000_0000_0000u128;
    proof {
        assert((hi as int) * (hi as int) > n as int) by (nonlinear_arith)
            requires
                hi == 0x1_0000_0000_0000_0000u128,
                n <= u128::MAX,
        ;
    }
    while lo + 1 < hi
        invariant
            0 <= lo < hi <= 0x1_0000_0000_0000_0000u128,
            (lo as int) * (lo as int) <= n as int,
            (hi as int) * (hi as int) > n as int,
        decreases hi - lo,
    {
        let mid: u128 = lo + (hi - lo) / 2;
        proof {
            assert((mid as int) * (mid as int) < 0x1_0000_0000_0000_0000_0000_0000_0000_0000) by (nonlinear_arith)
                requires
                    mid < 0x1_0000_0000_0000_0000u128,
            ;
        }
        if mid * mid <= n {
            lo = mid;
        } else {
            hi = mid;
        }
    }
    proof {
        lemma_sqrt_floor_unique(n as int, lo as int);
    }
    lo
}

} // verus!
