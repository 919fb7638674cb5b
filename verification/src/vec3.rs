//! 3D vectors over fixed-point coordinates: scaling, addition,
//! subtraction, dot product, magnitude and normalization, each specified
//! against an exact integer mirror of its arithmetic.

use vstd::prelude::*;

use crate::fx::SCALE;
use crate::fx::lemma_mul_bound;
use crate::fx::lemma_sqrt_floor;
use crate::fx::lemma_sqrt_floor_le;
use crate::fx::lemma_sqrt_floor_mono;
use crate::fx::lemma_sqrt_floor_square;
use crate::fx::lemma_tdiv_bound;
use crate::fx::lemma_tdiv_parts;
use crate::fx::isqrt;
use crate::fx::muldiv_trunc;
use crate::fx::sqrt_floor;
use crate::fx::tdiv;
use crate::fx::tdiv128;

verus! {

/// Cap on the components fed to a dot product: products of two such
/// components, summed in threes and divided by `SCALE`, stay in `i64`.
pub const DOT_MAX: i64 = 0x8_0000_0000;

/// Cap on the components fed to `magnitude`: the sum of three squares of
/// such components has a floor square root that stays in `i64`.
pub const MAG_MAX: i64 = 0x4000_0000_0000_0000;

/// Absolute value.
pub open spec fn abs_i(a: int) -> int {
    if a >= 0 {
        a
    } else {
        -a
    }
}

#[derive(Clone, Copy, PartialEq, Eq, Structural, Debug)]
pub struct Vector {
    pub x: i64,
    pub y: i64,
    pub z: i64,
}

/// Every component of `v` lies in `[-m, m]`.
pub open spec fn in_bounds(v: Vector, m: int) -> bool {
    &&& -m <= v.x <= m
    &&& -m <= v.y <= m
    &&& -m <= v.z <= m
}

/// Squared Euclidean length, in squared sub-units.
pub open spec fn norm_sq(v: Vector) -> int {
    v.x * v.x + v.y * v.y + v.z * v.z
}

/// Magnitude: the floor of the Euclidean length.  Components are scaled
/// by `SCALE`, so the root of their raw squares is again in sub-units.
pub open spec fn s_mag(v: Vector) -> int {
    sqrt_floor(norm_sq(v) as nat) as int
}

pub open spec fn s_add(a: Vector, b: Vector) -> Vector {
    Vector { x: (a.x + b.x) as i64, y: (a.y + b.y) as i64, z: (a.z + b.z) as i64 }
}

pub open spec fn s_sub(a: Vector, b: Vector) -> Vector {
    Vector { x: (a.x - b.x) as i64, y: (a.y - b.y) as i64, z: (a.z - b.z) as i64 }
}

/// Fixed-point scaling by `s` sub-units per unit.
pub open spec fn s_scale(v: Vector, s: int) -> Vector {
    Vector {
        x: tdiv(v.x * s, SCALE as int) as i64,
        y: tdiv(v.y * s, SCALE as int) as i64,
        z: tdiv(v.z * s, SCALE as int) as i64,
    }
}

/// Component-wise `v * num / den`, the rational scaling used for
/// normalization and for advancing along a ray.
pub open spec fn s_ratio(v: Vector, num: int, den: int) -> Vector {
    Vector {
        x: tdiv(v.x * num, den) as i64,
        y: tdiv(v.y * num, den) as i64,
        z: tdiv(v.z * num, den) as i64,
    }
}

/// Fixed-point dot product.
pub open spec fn s_dot(a: Vector, b: Vector) -> int {
    tdiv(a.x * b.x + a.y * b.y + a.z * b.z, SCALE as int)
}

/// Normalization: `v` scaled by `SCALE / s_mag(v)`, a vector of length
/// close to one world unit.
pub open spec fn s_normalize(v: Vector) -> Vector {
    s_ratio(v, SCALE as int, s_mag(v))
}

/// A squared length is nonnegative and dominates each squared component.
pub proof fn lemma_norm_sq_nonneg(v: Vector)
    ensures
        norm_sq(v) >= 0,
        v.x * v.x <= norm_sq(v),
        v.y * v.y <= norm_sq(v),
        v.z * v.z <= norm_sq(v),
        v.x * v.x >= 0,
        v.y * v.y >= 0,
        v.z * v.z >= 0,
{
    assert(v.x * v.x >= 0) by (nonlinear_arith);
    assert(v.y * v.y >= 0) by (nonlinear_arith);
    assert(v.z * v.z >= 0) by (nonlinear_arith);
}

/// No component exceeds the magnitude.
pub proof fn lemma_comp_le_mag(v: Vector)
    ensures
        s_mag(v) >= 0,
        -s_mag(v) <= v.x <= s_mag(v),
        -s_mag(v) <= v.y <= s_mag(v),
        -s_mag(v) <= v.z <= s_mag(v),
{
    lemma_norm_sq_nonneg(v);
    let n = norm_sq(v) as nat;
    let ax = abs_i(v.x as int) as nat;
    let ay = abs_i(v.y as int) as nat;
    let az = abs_i(v.z as int) as nat;
    assert(ax * ax == v.x * v.x) by (nonlinear_arith)
        requires
            ax == abs_i(v.x as int),
            v.x >= 0 ==> abs_i(v.x as int) == v.x as int,
            v.x < 0 ==> abs_i(v.x as int) == -(v.x as int),
    ;
    assert(ay * ay == v.y * v.y) by (nonlinear_arith)
        requires
            ay == abs_i(v.y as int),
            v.y >= 0 ==> abs_i(v.y as int) == v.y as int,
            v.y < 0 ==> abs_i(v.y as int) == -(v.y as int),
    ;
    assert(az * az == v.z * v.z) by (nonlinear_arith)
        requires
            az == abs_i(v.z as int),
            v.z >= 0 ==> abs_i(v.z as int) == v.z as int,
            v.z < 0 ==> abs_i(v.z as int) == -(v.z as int),
    ;
    lemma_sqrt_floor_square(ax);
    lemma_sqrt_floor_square(ay);
    lemma_sqrt_floor_square(az);
    lemma_sqrt_floor_mono((ax * ax) as nat, n);
    lemma_sqrt_floor_mono((ay * ay) as nat, n);
    lemma_sqrt_floor_mono((az * az) as nat, n);
}

impl Vector {
    /// The origin.
    pub fn new() -> (r: Vector)
        ensures
            r == (Vector { x: 0, y: 0, z: 0 }),
    {
        Vector { x: 0, y: 0, z: 0 }
    }

    /// Fixed-point scaling by `s` sub-units per unit.
    pub fn scale(&self, s: i64) -> (r: Vector)
        requires
            -(0x7fff_ffff_ffff_ffff * 1024) <= self.x * s <= 0x7fff_ffff_ffff_ffff * 1024,
            -(0x7fff_ffff_ffff_ffff * 1024) <= self.y * s <= 0x7fff_ffff_ffff_ffff * 1024,
            -(0x7fff_ffff_ffff_ffff * 1024) <= self.z * s <= 0x7fff_ffff_ffff_ffff * 1024,
        ensures
            r == s_scale(*self, s as int),
    {
        Vector {
            x: muldiv_trunc(self.x, s, SCALE),
            y: muldiv_trunc(self.y, s, SCALE),
            z: muldiv_trunc(self.z, s, SCALE),
        }
    }

    pub fn add(&self, o: Vector) -> (r: Vector)
        requires
            i64::MIN <= self.x + o.x <= i64::MAX,
            i64::MIN <= self.y + o.y <= i64::MAX,
            i64::MIN <= self.z + o.z <= i64::MAX,
        ensures
            r == s_add(*self, o),
    {
        Vector { x: self.x + o.x, y: self.y + o.y, z: self.z + o.z }
    }

    pub fn sub(&self, o: Vector) -> (r: Vector)
        requires
            i64::MIN <= self.x - o.x <= i64::MAX,
            i64::MIN <= self.y - o.y <= i64::MAX,
            i64::MIN <= self.z - o.z <= i64::MAX,
        ensures
            r == s_sub(*self, o),
    {
        Vector { x: self.x - o.x, y: self.y - o.y, z: self.z - o.z }
    }

    /// Fixed-point dot product.
    pub fn dot(&self, o: Vector) -> (r: i64)
        requires
            in_bounds(*self, DOT_MAX as int),
            in_bounds(o, DOT_MAX as int),
        ensures
            r == s_dot(*self, o),
    {
        proof {
            lemma_mul_bound(self.x as int, o.x as int, DOT_MAX as int, DOT_MAX as int);
            lemma_mul_bound(self.y as int, o.y as int, DOT_MAX as int, DOT_MAX as int);
            lemma_mul_bound(self.z as int, o.z as int, DOT_MAX as int, DOT_MAX as int);
        }
        let p: i128 = (self.x as i128) * (o.x as i128) + (self.y as i128) * (o.y as i128) + (
        self.z as i128) * (o.z as i128);
        tdiv128(p, SCALE)
    }

    /// Dot product of a vector with itself; never negative.
    pub fn dotself(&self) -> (r: i64)
        requires
            in_bounds(*self, DOT_MAX as int),
        ensures
            r == s_dot(*self, *self),
            r >= 0,
    {
        proof {
            lemma_norm_sq_nonneg(*self);
            lemma_tdiv_parts(norm_sq(*self), SCALE as int);
        }
        self.dot(*self)
    }

    /// The floor of the Euclidean length, in sub-units.
    pub fn magnitude(&self) -> (r: i64)
        requires
            in_bounds(*self, MAG_MAX as int),
        ensures
            r == s_mag(*self),
            r >= 0,
    {
        proof {
            lemma_mul_bound(self.x as int, self.x as int, MAG_MAX as int, MAG_MAX as int);
            lemma_mul_bound(self.y as int, self.y as int, MAG_MAX as int, MAG_MAX as int);
            lemma_mul_bound(self.z as int, self.z as int, MAG_MAX as int, MAG_MAX as int);
            lemma_norm_sq_nonneg(*self);
            lemma_sqrt_floor_le(norm_sq(*self) as nat, 0x7fff_ffff_ffff_ffff as nat);
        }
        let n: i128 = (self.x as i128) * (self.x as i128) + (self.y as i128) * (self.y as i128) + (
        self.z as i128) * (self.z as i128);
        let r64: u64 = isqrt(n as u128);
        r64 as i64
    }

    /// Component-wise `v * num / den`: the step `v * (num / den)` taken
    /// without rounding the ratio first.
    pub fn scale_ratio(&self, num: i64, den: i64) -> (r: Vector)
        requires
            den >= 1,
            num > i64::MIN,
            in_bounds(*self, den as int),
        ensures
            r == s_ratio(*self, num as int, den as int),
            in_bounds(r, abs_i(num as int)),
    {
        proof {
            let an = abs_i(num as int);
            lemma_mul_bound(self.x as int, num as int, den as int, an);
            lemma_mul_bound(self.y as int, num as int, den as int, an);
            lemma_mul_bound(self.z as int, num as int, den as int, an);
            assert(den * an <= 0x7fff_ffff_ffff_ffff * (den as int)) by (nonlinear_arith)
                requires
                    1 <= den,
                    0 <= an <= 0x7fff_ffff_ffff_ffff,
            ;
            assert(an * (den as int) == den * an) by (nonlinear_arith);
            lemma_tdiv_bound(self.x * num, den as int, an);
            lemma_tdiv_bound(self.y * num, den as int, an);
            lemma_tdiv_bound(self.z * num, den as int, an);
        }
        Vector {
            x: muldiv_trunc(self.x, num, den),
            y: muldiv_trunc(self.y, num, den),
            z: muldiv_trunc(self.z, num, den),
        }
    }

    /// Scale to a vector of (nearly) unit world length.  The caller must
    /// keep degenerate vectors away: a vector whose magnitude rounds to
    /// zero cannot be normalized.
    pub fn normalize(&self) -> (r: Vector)
        requires
            in_bounds(*self, MAG_MAX as int),
            s_mag(*self) >= 1,
        ensures
            r == s_normalize(*self),
            in_bounds(r, SCALE as int),
    {
        let m: i64 = self.magnitude();
        proof {
            lemma_comp_le_mag(*self);
        }
        self.scale_ratio(SCALE, m)
    }
}

/// One component of a rational scaling, squared: `(a/m * m)^2` sits
/// within `2*|a|*m` below `a^2`.
proof fn lemma_ratio_comp_sq(a: int, m: int)
    requires
        m >= 1,
    ensures
        (tdiv(a, m) * tdiv(a, m)) * (m * m) <= a * a,
        (tdiv(a, m) * tdiv(a, m)) * (m * m) >= a * a - 2 * (abs_i(a) * m),
{
    lemma_tdiv_parts(a, m);
    let q = tdiv(a, m);
    assert((q * m) * (q * m) == (q * q) * (m * m)) by (nonlinear_arith);
    if a >= 0 {
        assert(q * m >= 0) by (nonlinear_arith)
            requires
                q >= 0,
                m >= 1,
        ;
        assert((q * m) * (q * m) <= a * a) by (nonlinear_arith)
            requires
                0 <= q * m,
                q * m <= a,
        ;
        assert((q * m) * (q * m) >= a * a - 2 * (a * m)) by (nonlinear_arith)
            requires
                0 <= q * m,
                a < q * m + m,
                a >= 0,
                m >= 1,
        ;
    } else {
        assert(q * m <= 0) by (nonlinear_arith)
            requires
                q <= 0,
                m >= 1,
        ;
        assert((q * m) * (q * m) <= a * a) by (nonlinear_arith)
            requires
                a <= q * m,
                q * m <= 0,
        ;
        assert((q * m) * (q * m) >= a * a - 2 * ((-a) * m)) by (nonlinear_arith)
            requires
                q * m <= 0,
                q * m - m < a,
                a <= 0,
                m >= 1,
        ;
    }
}

/// Normalizing a vector of at least unit length yields a vector whose
/// magnitude is one world unit, within fixed-point rounding.  (A vector
/// shorter than one unit is amplified too coarsely for this to hold:
/// its components carry too few bits.)
pub proof fn lemma_normalize_unit_magnitude(v: Vector)
    requires
        in_bounds(v, MAG_MAX as int),
        s_mag(v) >= SCALE as int,
    ensures
        SCALE - 3 <= s_mag(s_normalize(v)) <= SCALE + 1,
{
    let m = s_mag(v);
    let nsq = norm_sq(v);
    lemma_norm_sq_nonneg(v);
    lemma_sqrt_floor(nsq as nat);
    assert(m * m <= nsq < (m + 1) * (m + 1));
    lemma_comp_le_mag(v);

    let ax = v.x * 1024;
    let ay = v.y * 1024;
    let az = v.z * 1024;
    let qx = tdiv(ax, m);
    let qy = tdiv(ay, m);
    let qz = tdiv(az, m);
    lemma_tdiv_bound(ax, m, SCALE as int);
    lemma_tdiv_bound(ay, m, SCALE as int);
    lemma_tdiv_bound(az, m, SCALE as int);
    let n = s_normalize(v);
    assert(n.x == qx && n.y == qy && n.z == qz);
    lemma_ratio_comp_sq(ax, m);
    lemma_ratio_comp_sq(ay, m);
    lemma_ratio_comp_sq(az, m);
    assert(ax * ax == (v.x * v.x) * 1048576) by (nonlinear_arith)
        requires
            ax == v.x * 1024,
    ;
    assert(ay * ay == (v.y * v.y) * 1048576) by (nonlinear_arith)
        requires
            ay == v.y * 1024,
    ;
    assert(az * az == (v.z * v.z) * 1048576) by (nonlinear_arith)
        requires
            az == v.z * 1024,
    ;
    let tt = abs_i(v.x as int) + abs_i(v.y as int) + abs_i(v.z as int);
    assert(abs_i(ax) == abs_i(v.x as int) * 1024);
    assert(abs_i(ay) == abs_i(v.y as int) * 1024);
    assert(abs_i(az) == abs_i(v.z as int) * 1024);

    let ns = norm_sq(n);
    lemma_norm_sq_nonneg(n);
    assert(ns == qx * qx + qy * qy + qz * qz);
    // the scaled squares bracket the squared components
    assert(ns * (m * m) == (qx * qx) * (m * m) + (qy * qy) * (m * m) + (qz * qz) * (m * m))
        by (nonlinear_arith)
        requires
            ns == qx * qx + qy * qy + qz * qz,
    ;
    assert(ns * (m * m) <= nsq * 1048576) by {
        assert(ax * ax + ay * ay + az * az == nsq * 1048576);
    }
    assert(ns * (m * m) >= nsq * 1048576 - 2 * ((tt * 1024) * m)) by {
        assert(abs_i(ax) * m + abs_i(ay) * m + abs_i(az) * m == (tt * 1024) * m)
            by (nonlinear_arith)
            requires
                abs_i(ax) == abs_i(v.x as int) * 1024,
                abs_i(ay) == abs_i(v.y as int) * 1024,
                abs_i(az) == abs_i(v.z as int) * 1024,
                tt == abs_i(v.x as int) + abs_i(v.y as int) + abs_i(v.z as int),
        ;
    }

    // the absolute components sum to at most 2 * (m + 1)
    assert(tt * tt <= 3 * nsq) by (nonlinear_arith)
        requires
            tt == abs_i(v.x as int) + abs_i(v.y as int) + abs_i(v.z as int),
            v.x >= 0 ==> abs_i(v.x as int) == v.x as int,
            v.x < 0 ==> abs_i(v.x as int) == -(v.x as int),
            v.y >= 0 ==> abs_i(v.y as int) == v.y as int,
            v.y < 0 ==> abs_i(v.y as int) == -(v.y as int),
            v.z >= 0 ==> abs_i(v.z as int) == v.z as int,
            v.z < 0 ==> abs_i(v.z as int) == -(v.z as int),
            nsq == v.x * v.x + v.y * v.y + v.z * v.z,
    ;
    assert(tt <= 2 * m + 2) by (nonlinear_arith)
        requires
            tt >= 0,
            tt * tt <= 3 * nsq,
            nsq < (m + 1) * (m + 1),
            m >= 1,
    ;

    // upper bound: ns <= SCALE^2 + 2 * SCALE
    assert(ns <= 1048576 + 2048) by (nonlinear_arith)
        requires
            ns * (m * m) <= nsq * 1048576,
            nsq < (m + 1) * (m + 1),
            m >= 1024,
    ;
    lemma_sqrt_floor_le(ns as nat, 1025);
    // lower bound: ns >= SCALE^2 - 4 * SCALE - 4
    assert(ns >= 1048576 - 4096 - 4) by (nonlinear_arith)
        requires
            ns * (m * m) >= nsq * 1048576 - 2 * ((tt * 1024) * m),
            tt <= 2 * m + 2,
            tt >= 0,
            nsq >= m * m,
            m >= 1024,
    ;
    lemma_sqrt_floor_square(1021);
    lemma_sqrt_floor_mono((1021 * 1021) as nat, ns as nat);
}

#[derive(Clone, Copy, PartialEq, Eq, Structural, Debug)]
pub struct Ray {
    pub origin: Vector,
    pub direction: Vector,
}

impl Ray {
    /// The direction relative to the origin, for a ray whose direction
    /// field stores an absolute point.
    pub fn vec(&self) -> (r: Vector)
        requires
            i64::MIN <= self.direction.x - self.origin.x <= i64::MAX,
            i64::MIN <= self.direction.y - self.origin.y <= i64::MAX,
            i64::MIN <= self.direction.z - self.origin.z <= i64::MAX,
        ensures
            r == s_sub(self.direction, self.origin),
    {
        self.direction.sub(self.origin)
    }
}

} // verus!
