//! Three-dimensional vectors in ticks, and the operations that the scene
//! needs of them: difference, cross and dot product, and normalisation.

use vstd::prelude::*;
use vstd::arithmetic::div_mod::{lemma_div_by_multiple, lemma_div_is_ordered};
use crate::algebra::{
    lemma_mul3, lemma_mul4, lemma_mul_commutes, lemma_mul_sub, lemma_mul_sum3, lemma_square,
    lemma_square_bound, lemma_square_order, lemma_product_bound, lemma_squares,
};
use crate::scalar::{
    floor_sqrt, is_floor_sqrt, isqrt, lemma_floor_sqrt, lemma_floor_sqrt_is, magnitude,
    scale_down, scale_down_i64, ONE, SPAN_LIMIT, WORLD_LIMIT,
};

verus! {

/// The mathematical model of a [`Vec3`]: a point or displacement whose
/// coordinates are unbounded integers, counted in ticks.
pub struct Vector {
    pub x: int,
    pub y: int,
    pub z: int,
}

/// One component of the unit vector along a vector whose squared length is
/// `n` and whose matching component is `c`: `ONE * |c| / sqrt(n)` rounded
/// down, with the sign of `c`.
pub open spec fn unit_part(c: int, n: int) -> int {
    let r = floor_sqrt(((ONE * ONE) * (c * c)) / n);
    if c < 0 {
        -r
    } else {
        r
    }
}

impl Vector {
    /// The origin.
    pub open spec fn zero() -> Vector {
        Vector { x: 0, y: 0, z: 0 }
    }

    /// Every component lies within `limit` of zero.
    pub open spec fn within(self, limit: int) -> bool {
        &&& -limit <= self.x <= limit
        &&& -limit <= self.y <= limit
        &&& -limit <= self.z <= limit
    }

    /// The vector is a well-formed position.
    pub open spec fn in_world(self) -> bool {
        self.within(WORLD_LIMIT as int)
    }

    /// Component-wise sum `self + other`.
    pub open spec fn plus(self, other: Vector) -> Vector {
        Vector { x: self.x + other.x, y: self.y + other.y, z: self.z + other.z }
    }

    /// Component-wise difference `self - other`.
    pub open spec fn minus(self, other: Vector) -> Vector {
        Vector { x: self.x - other.x, y: self.y - other.y, z: self.z - other.z }
    }

    /// The same vector with its vertical component removed.
    pub open spec fn horizontal(self) -> Vector {
        Vector { x: self.x, y: 0, z: self.z }
    }

    /// Dot product.
    pub open spec fn dot(self, other: Vector) -> int {
        self.x * other.x + self.y * other.y + self.z * other.z
    }

    /// Cross product `self x other`.
    pub open spec fn cross(self, other: Vector) -> Vector {
        Vector {
            x: self.y * other.z - self.z * other.y,
            y: self.z * other.x - self.x * other.z,
            z: self.x * other.y - self.y * other.x,
        }
    }

    /// Squared length.
    pub open spec fn norm_sq(self) -> int {
        self.x * self.x + self.y * self.y + self.z * self.z
    }

    /// Each component divided by `ONE`, rounded toward zero.
    pub open spec fn scaled_down(self) -> Vector {
        Vector { x: scale_down(self.x), y: scale_down(self.y), z: scale_down(self.z) }
    }

    /// The vector has a direction and is small enough to be normalised.
    pub open spec fn can_normalize(self) -> bool {
        self.within(SPAN_LIMIT as int) && self != Vector::zero()
    }

    /// The vector of length `ONE` along `self`, each component rounded
    /// toward zero (meaningful where `self` is not the origin).
    pub open spec fn unit(self) -> Vector {
        let n = self.norm_sq();
        Vector { x: unit_part(self.x, n), y: unit_part(self.y, n), z: unit_part(self.z, n) }
    }
}

/// A point or displacement in ticks.
#[derive(Clone, Copy, Debug, PartialEq, Eq, Structural)]
pub struct Vec3 {
    pub x: i64,
    pub y: i64,
    pub z: i64,
}

impl View for Vec3 {
    type V = Vector;

    open spec fn view(&self) -> Vector {
        Vector { x: self.x as int, y: self.y as int, z: self.z as int }
    }
}

/// The squared length is never negative, is zero only at the origin, and
/// no squared component exceeds it.
pub proof fn lemma_norm_sq(v: Vector)
    ensures
        v.norm_sq() >= 0,
        v.norm_sq() == 0 <==> v == Vector::zero(),
        v.x * v.x <= v.norm_sq(),
        v.y * v.y <= v.norm_sq(),
        v.z * v.z <= v.norm_sq(),
{
    lemma_square(v.x);
    lemma_square(v.y);
    lemma_square(v.z);
}

/// What `unit_part` computes: with `r` the magnitude of the result,
/// `r / ONE` is the largest multiple of a tick that does not exceed
/// `|c| / sqrt(n)`.
pub proof fn lemma_unit_part(c: int, n: int)
    requires
        n > 0,
        c * c <= n,
    ensures
        ({
            let r = magnitude(unit_part(c, n));
            &&& r * r * n <= (ONE * ONE) * (c * c)
            &&& (ONE * ONE) * (c * c) < (r + 1) * (r + 1) * n
            &&& r <= ONE
        }),
        c >= 0 ==> unit_part(c, n) >= 0,
        c <= 0 ==> unit_part(c, n) <= 0,
{
    lemma_square(c);
    let num = (ONE * ONE) * (c * c);
    let q = num / n;
    assert(0 <= q && q * n <= num < (q + 1) * n) by (nonlinear_arith)
        requires
            q == num / n,
            n > 0,
            num >= 0,
    ;
    lemma_floor_sqrt(q);
    let r = floor_sqrt(q);
    assert(magnitude(unit_part(c, n)) == r);
    if c == 0 {
        assert(r == 0) by (nonlinear_arith)
            requires
                r >= 0,
                r * r <= q,
                q == 0,
        ;
    }
    assert(r * r * n <= q * n) by (nonlinear_arith)
        requires
            r * r <= q,
            n > 0,
    ;
    assert((q + 1) * n <= (r + 1) * (r + 1) * n) by (nonlinear_arith)
        requires
            q + 1 <= (r + 1) * (r + 1),
            n > 0,
    ;
    assert(r <= ONE) by (nonlinear_arith)
        requires
            r >= 0,
            n > 0,
            r * r * n <= (ONE * ONE) * (c * c),
            c * c <= n,
    {
        if r > ONE {
            assert(r * r >= (ONE + 1) * (ONE + 1));
            assert(r * r * n >= (ONE + 1) * (ONE + 1) * n);
            assert((ONE * ONE) * (c * c) <= (ONE * ONE) * n);
        }
    }
}

/// A unit vector is at most one world unit long, and shorter by rounding
/// only: its squared length lies within `6 * ONE + 2` below `ONE * ONE`.
pub proof fn lemma_unit_is_unit(v: Vector)
    requires
        v != Vector::zero(),
    ensures
        ONE * ONE - 6 * ONE - 2 <= v.unit().norm_sq() <= ONE * ONE,
        v.unit().within(ONE as int),
{
    lemma_norm_sq(v);
    let n = v.norm_sq();
    let u = v.unit();
    lemma_unit_part(v.x, n);
    lemma_unit_part(v.y, n);
    lemma_unit_part(v.z, n);
    lemma_square(u.x);
    lemma_square(u.y);
    lemma_square(u.z);
    let rx = magnitude(u.x);
    let ry = magnitude(u.y);
    let rz = magnitude(u.z);
    let s = ONE * ONE;
    let lo = rx * rx + ry * ry + rz * rz;
    let hi = (rx + 1) * (rx + 1) + (ry + 1) * (ry + 1) + (rz + 1) * (rz + 1);
    assert(lo == u.norm_sq());
    assert(lo * n == rx * rx * n + ry * ry * n + rz * rz * n) by (nonlinear_arith)
        requires
            lo == rx * rx + ry * ry + rz * rz,
    ;
    assert(hi * n == (rx + 1) * (rx + 1) * n + (ry + 1) * (ry + 1) * n + (rz + 1) * (rz + 1) * n)
        by (nonlinear_arith)
        requires
            hi == (rx + 1) * (rx + 1) + (ry + 1) * (ry + 1) + (rz + 1) * (rz + 1),
    ;
    assert(s * n == s * (v.x * v.x) + s * (v.y * v.y) + s * (v.z * v.z)) by (nonlinear_arith)
        requires
            n == v.x * v.x + v.y * v.y + v.z * v.z,
    ;
    assert(lo <= s) by (nonlinear_arith)
        requires
            lo * n <= s * n,
            n > 0,
    ;
    assert(hi > s) by (nonlinear_arith)
        requires
            hi * n > s * n,
            n > 0,
    ;
    assert(hi == lo + 2 * (rx + ry + rz) + 3) by (nonlinear_arith)
        requires
            lo == rx * rx + ry * ry + rz * rz,
            hi == (rx + 1) * (rx + 1) + (ry + 1) * (ry + 1) + (rz + 1) * (rz + 1),
    ;
}

/// The unit vector along a vector that lies on one axis is that axis.
pub proof fn lemma_unit_of_axis(c: int)
    requires
        c != 0,
    ensures
        unit_part(c, c * c) == if c < 0 {
            -(ONE as int)
        } else {
            ONE as int
        },
        unit_part(0, c * c) == 0,
{
    lemma_square(c);
    let n = c * c;
    lemma_div_by_multiple(ONE * ONE, n);
    assert((ONE * ONE) * n / n == ONE * ONE);
    assert(is_floor_sqrt(ONE as int, ONE * ONE));
    lemma_floor_sqrt_is(ONE as int, ONE * ONE);
    assert((ONE * ONE) * (0int * 0int) == 0);
    assert(0int / n == 0) by (nonlinear_arith)
        requires
            n > 0,
    ;
    assert(is_floor_sqrt(0, 0));
    lemma_floor_sqrt_is(0, 0);
}

/// The largest magnitude among the components of `v`.
pub open spec fn reach(v: Vector) -> int {
    let m = if magnitude(v.x) >= magnitude(v.y) {
        magnitude(v.x)
    } else {
        magnitude(v.y)
    };
    if m >= magnitude(v.z) {
        m
    } else {
        magnitude(v.z)
    }
}

/// Two components of a unit vector stand in the ratio of the components
/// that they come from, up to rounding: with `a`, `b` the magnitudes of two
/// components of a vector of squared length `n` and `p`, `q` those of the
/// matching components of its unit vector, `a * q` and `b * p` differ by at
/// most the larger of `a` and `b`.
proof fn lemma_unit_ratio(a: int, b: int, p: int, q: int, n: int)
    requires
        0 <= a,
        0 <= b,
        0 <= p,
        0 <= q,
        n > 0,
        p * p * n <= (ONE * ONE) * (a * a),
        (ONE * ONE) * (a * a) < (p + 1) * (p + 1) * n,
        q * q * n <= (ONE * ONE) * (b * b),
        (ONE * ONE) * (b * b) < (q + 1) * (q + 1) * n,
    ensures
        a * q <= b * p + b,
        b * p <= a * q + a,
{
    lemma_unit_ratio_half(a, b, p, q, n);
    lemma_unit_ratio_half(b, a, q, p, n);
}

/// One half of `lemma_unit_ratio`.
proof fn lemma_unit_ratio_half(a: int, b: int, p: int, q: int, n: int)
    requires
        0 <= a,
        0 <= b,
        0 <= p,
        0 <= q,
        n > 0,
        (ONE * ONE) * (a * a) < (p + 1) * (p + 1) * n,
        q * q * n <= (ONE * ONE) * (b * b),
    ensures
        a * q <= b * p + b,
{
    let s = ONE * ONE;
    let x = a * q;
    let y = b * (p + 1);
    let u1 = q * q * n;
    let v1 = s * (b * b);
    let u2 = s * (a * a);
    let v2 = (p + 1) * (p + 1) * n;
    assert(0 <= x && 0 <= y && 0 <= u1 && 0 <= u2) by (nonlinear_arith)
        requires
            0 <= a,
            0 <= b,
            0 <= p,
            0 <= q,
            n > 0,
            s > 0,
            x == a * q,
            y == b * (p + 1),
            u1 == q * q * n,
            u2 == s * (a * a),
    ;
    assert(u1 * u2 <= v1 * v2) by (nonlinear_arith)
        requires
            0 <= u1 <= v1,
            0 <= u2 <= v2,
    ;
    assert(u1 * u2 == (x * x) * (n * s)) by (nonlinear_arith)
        requires
            x == a * q,
            u1 == q * q * n,
            u2 == s * (a * a),
    ;
    assert(v1 * v2 == (y * y) * (n * s)) by (nonlinear_arith)
        requires
            y == b * (p + 1),
            v1 == s * (b * b),
            v2 == (p + 1) * (p + 1) * n,
    ;
    assert(x * x <= y * y) by (nonlinear_arith)
        requires
            (x * x) * (n * s) <= (y * y) * (n * s),
            n > 0,
            s > 0,
    {
        assert(n * s > 0);
    }
    lemma_square_order(x, y);
    assert(y == b * p + b) by (nonlinear_arith)
        requires
            y == b * (p + 1),
    ;
}

/// The signed form of `lemma_unit_ratio`: for two components `a`, `b` of a
/// vector of squared length `n`, `a * unit_part(b, n) - b * unit_part(a,
/// n)` is at most the larger of their magnitudes, either way.
proof fn lemma_unit_pair(a: int, b: int, n: int)
    requires
        n > 0,
        a * a <= n,
        b * b <= n,
    ensures
        magnitude(a * unit_part(b, n) - b * unit_part(a, n)) <= if magnitude(a) >= magnitude(b) {
            magnitude(a)
        } else {
            magnitude(b)
        },
{
    lemma_unit_part(a, n);
    lemma_unit_part(b, n);
    lemma_square(a);
    lemma_square(b);
    let p = unit_part(a, n);
    let q = unit_part(b, n);
    let (ma, mb, mp, mq) = (magnitude(a), magnitude(b), magnitude(p), magnitude(q));
    lemma_unit_ratio(ma, mb, mp, mq, n);
    // The unit parts carry the signs of the components.
    assert(a * q - b * p == ma * mq - mb * mp || a * q - b * p == mb * mp - ma * mq)
        by (nonlinear_arith)
        requires
            ma == magnitude(a),
            mb == magnitude(b),
            mp == magnitude(p),
            mq == magnitude(q),
            a >= 0 ==> p >= 0,
            a <= 0 ==> p <= 0,
            b >= 0 ==> q >= 0,
            b <= 0 ==> q <= 0,
    ;
}

/// A unit vector points the way of the vector that it comes from, up to
/// rounding: their cross product, which is zero for parallel vectors, has no
/// component beyond the reach of the vector, and no component of the unit
/// vector has the opposite sign.
pub proof fn lemma_unit_is_parallel(v: Vector)
    requires
        v != Vector::zero(),
    ensures
        v.cross(v.unit()).within(reach(v)),
        v.x * v.unit().x >= 0,
        v.y * v.unit().y >= 0,
        v.z * v.unit().z >= 0,
        v.dot(v.unit()) > 0,
{
    lemma_norm_sq(v);
    let n = v.norm_sq();
    lemma_unit_pair(v.y, v.z, n);
    lemma_unit_pair(v.z, v.x, n);
    lemma_unit_pair(v.x, v.y, n);
    lemma_unit_part(v.x, n);
    lemma_unit_part(v.y, n);
    lemma_unit_part(v.z, n);
    let u = v.unit();
    assert(v.x * u.x >= 0) by (nonlinear_arith)
        requires
            v.x >= 0 ==> u.x >= 0,
            v.x <= 0 ==> u.x <= 0,
    ;
    assert(v.y * u.y >= 0) by (nonlinear_arith)
        requires
            v.y >= 0 ==> u.y >= 0,
            v.y <= 0 ==> u.y <= 0,
    ;
    assert(v.z * u.z >= 0) by (nonlinear_arith)
        requires
            v.z >= 0 ==> u.z >= 0,
            v.z <= 0 ==> u.z <= 0,
    ;
    // A unit vector is not the origin, and each of its components that is
    // not zero comes from one that is not zero.
    lemma_unit_is_unit(v);
    lemma_norm_sq(u);
    assert(v.dot(u) > 0) by (nonlinear_arith)
        requires
            u != Vector::zero(),
            v.x * u.x >= 0,
            v.y * u.y >= 0,
            v.z * u.z >= 0,
            v.x == 0 ==> u.x == 0,
            v.y == 0 ==> u.y == 0,
            v.z == 0 ==> u.z == 0,
            v.dot(u) == v.x * u.x + v.y * u.y + v.z * u.z,
    {
        if u.x != 0 {
            assert(v.x * u.x != 0);
        } else if u.y != 0 {
            assert(v.y * u.y != 0);
        } else {
            assert(v.z * u.z != 0);
        }
    }
}

/// A cross product stands at right angles to both of its factors.
pub proof fn lemma_cross_is_orthogonal(a: Vector, b: Vector)
    ensures
        a.cross(b).dot(a) == 0,
        a.cross(b).dot(b) == 0,
{
    let c = a.cross(b);
    lemma_mul_sub(a.x, a.y * b.z, a.z * b.y);
    lemma_mul_sub(a.y, a.z * b.x, a.x * b.z);
    lemma_mul_sub(a.z, a.x * b.y, a.y * b.x);
    lemma_mul3(a.x, a.y, b.z);
    lemma_mul3(a.x, a.z, b.y);
    lemma_mul3(a.y, a.z, b.x);
    lemma_mul3(a.y, a.x, b.z);
    lemma_mul3(a.z, a.x, b.y);
    lemma_mul3(a.z, a.y, b.x);
    lemma_mul_commutes(c.x, a.x);
    lemma_mul_commutes(c.y, a.y);
    lemma_mul_commutes(c.z, a.z);
    lemma_mul_sub(b.x, a.y * b.z, a.z * b.y);
    lemma_mul_sub(b.y, a.z * b.x, a.x * b.z);
    lemma_mul_sub(b.z, a.x * b.y, a.y * b.x);
    lemma_mul3(b.x, a.y, b.z);
    lemma_mul3(b.x, a.z, b.y);
    lemma_mul3(b.y, a.z, b.x);
    lemma_mul3(b.y, a.x, b.z);
    lemma_mul3(b.z, a.x, b.y);
    lemma_mul3(b.z, a.y, b.x);
    lemma_mul_commutes(c.x, b.x);
    lemma_mul_commutes(c.y, b.y);
    lemma_mul_commutes(c.z, b.z);
}

/// A dot product does not depend on the order of its factors.
pub proof fn lemma_dot_commutes(a: Vector, b: Vector)
    ensures
        a.dot(b) == b.dot(a),
{
    lemma_mul_commutes(a.x, b.x);
    lemma_mul_commutes(a.y, b.y);
    lemma_mul_commutes(a.z, b.z);
}

/// One component of the vector triple product, written out:
/// `fy (cx ry - cy rx) - fz (cz rx - cx rz) = cx (f . r) - rx (f . c)`.
pub proof fn lemma_triple_component(
    fx: int,
    fy: int,
    fz: int,
    cx: int,
    cy: int,
    cz: int,
    rx: int,
    ry: int,
    rz: int,
)
    ensures
        fy * (cx * ry - cy * rx) - fz * (cz * rx - cx * rz) == cx * (fx * rx + fy * ry + fz * rz)
            - rx * (fx * cx + fy * cy + fz * cz),
{
    lemma_mul_sub(fy, cx * ry, cy * rx);
    lemma_mul_sub(fz, cz * rx, cx * rz);
    lemma_mul_sum3(cx, fx * rx, fy * ry, fz * rz);
    lemma_mul_sum3(rx, fx * cx, fy * cy, fz * cz);
    lemma_mul3(fy, cx, ry);
    lemma_mul3(fz, cx, rz);
    lemma_mul3(fy, cy, rx);
    lemma_mul3(fz, cz, rx);
    lemma_mul3(cx, fx, rx);
}

/// The vector triple product: `f x (c x r) = c (f . r) - r (f . c)`.
pub proof fn lemma_triple_product(f: Vector, c: Vector, r: Vector)
    ensures
        f.cross(c.cross(r)).x == c.x * f.dot(r) - r.x * f.dot(c),
        f.cross(c.cross(r)).y == c.y * f.dot(r) - r.y * f.dot(c),
        f.cross(c.cross(r)).z == c.z * f.dot(r) - r.z * f.dot(c),
{
    lemma_triple_component(f.x, f.y, f.z, c.x, c.y, c.z, r.x, r.y, r.z);
    lemma_triple_component(f.y, f.z, f.x, c.y, c.z, c.x, r.y, r.z, r.x);
    lemma_triple_component(f.z, f.x, f.y, c.z, c.x, c.y, r.z, r.x, r.y);
}

/// Lagrange's identity: `|f x r|^2 + (f . r)^2 = |f|^2 |r|^2`.
pub proof fn lemma_lagrange(f: Vector, r: Vector)
    ensures
        f.cross(r).norm_sq() + f.dot(r) * f.dot(r) == f.norm_sq() * r.norm_sq(),
{
    let (a, b, c) = (f.x, f.y, f.z);
    let (x, y, z) = (r.x, r.y, r.z);
    lemma_squares(b * z, c * y, 0);
    lemma_squares(c * x, a * z, 0);
    lemma_squares(a * y, b * x, 0);
    lemma_squares(a * x, b * y, c * z);
    lemma_mul4(b, c, z, y);
    lemma_mul4(c, a, x, z);
    lemma_mul4(a, b, y, x);
    lemma_mul4(a, b, x, y);
    lemma_mul4(a, c, x, z);
    lemma_mul4(b, c, y, z);
    lemma_mul_sum3(x * x + y * y + z * z, a * a, b * b, c * c);
    lemma_mul_sum3(a * a, x * x, y * y, z * z);
    lemma_mul_sum3(b * b, x * x, y * y, z * z);
    lemma_mul_sum3(c * c, x * x, y * y, z * z);
    lemma_mul4(a, a, x, x);
    lemma_mul4(a, a, y, y);
    lemma_mul4(a, a, z, z);
    lemma_mul4(b, b, x, x);
    lemma_mul4(b, b, y, y);
    lemma_mul4(b, b, z, z);
    lemma_mul4(c, c, x, x);
    lemma_mul4(c, c, y, y);
    lemma_mul4(c, c, z, z);
}

/// The magnitude of `c` as an unsigned number.
fn magnitude_of(c: i64) -> (a: u128)
    requires
        -SPAN_LIMIT <= c <= SPAN_LIMIT,
    ensures
        a == magnitude(c as int),
{
    if c < 0 {
        (-c) as u128
    } else {
        c as u128
    }
}

/// Computes one component of a unit vector.
fn unit_component(c: i64, n: u128) -> (r: i64)
    requires
        -SPAN_LIMIT <= c <= SPAN_LIMIT,
        n > 0,
        c * c <= n,
    ensures
        r == unit_part(c as int, n as int),
        -ONE <= r <= ONE,
{
    let a: u128 = magnitude_of(c);
    proof {
        lemma_square(c as int);
        lemma_square_bound(c as int, SPAN_LIMIT as int);
        lemma_unit_part(c as int, n as int);
    }
    let scale: u128 = (ONE as u128) * (ONE as u128);
    let square: u128 = a * a;
    let num: u128 = scale * square;
    let q: u128 = num / n;
    proof {
        assert(num == (ONE * ONE) * (c * c));
        lemma_div_is_ordered(num as int, (ONE * ONE) * (n as int), n as int);
        lemma_div_by_multiple(ONE * ONE, n as int);
        assert(q <= ONE * ONE);
    }
    let root: u64 = isqrt(q as u64);
    assert(root as int == magnitude(unit_part(c as int, n as int)));
    if c < 0 {
        -(root as i64)
    } else {
        root as i64
    }
}

impl Vec3 {
    /// Builds a vector from its components in ticks.
    pub fn new(x: i64, y: i64, z: i64) -> (v: Vec3)
        ensures
            v@ == (Vector { x: x as int, y: y as int, z: z as int }),
    {
        Vec3 { x, y, z }
    }

    /// Builds a vector from whole world units.
    pub fn from_units(x: i32, y: i32, z: i32) -> (v: Vec3)
        ensures
            v@ == (Vector { x: x * ONE, y: y * ONE, z: z * ONE }),
    {
        Vec3 { x: (x as i64) * ONE, y: (y as i64) * ONE, z: (z as i64) * ONE }
    }

    /// The origin.
    pub fn zero() -> (v: Vec3)
        ensures
            v@ == Vector::zero(),
    {
        Vec3 { x: 0, y: 0, z: 0 }
    }

    /// Tells whether every component lies within `limit` of zero.
    pub fn within(&self, limit: i64) -> (b: bool)
        requires
            limit >= 0,
        ensures
            b == self@.within(limit as int),
    {
        -limit <= self.x && self.x <= limit && -limit <= self.y && self.y <= limit && -limit
            <= self.z && self.z <= limit
    }

    /// Tells whether the vector is a well-formed position.
    pub fn in_world(&self) -> (b: bool)
        ensures
            b == self@.in_world(),
    {
        self.within(WORLD_LIMIT)
    }

    /// Component-wise difference of two well-formed positions.
    pub fn minus(&self, other: &Vec3) -> (d: Vec3)
        requires
            self@.in_world(),
            other@.in_world(),
        ensures
            d@ == self@.minus(other@),
            d@.within(SPAN_LIMIT as int),
    {
        Vec3 { x: self.x - other.x, y: self.y - other.y, z: self.z - other.z }
    }

    /// The same vector with its vertical component removed.
    pub fn horizontal(&self) -> (h: Vec3)
        ensures
            h@ == self@.horizontal(),
    {
        Vec3 { x: self.x, y: 0, z: self.z }
    }

    /// Dot product of two vectors no longer than a world unit along any axis.
    pub fn dot(&self, other: &Vec3) -> (d: i64)
        requires
            self@.within(ONE as int),
            other@.within(ONE as int),
        ensures
            d == self@.dot(other@),
            -3 * (ONE * ONE) <= d <= 3 * (ONE * ONE),
    {
        proof {
            lemma_product_bound(self.x as int, other.x as int);
            lemma_product_bound(self.y as int, other.y as int);
            lemma_product_bound(self.z as int, other.z as int);
        }
        self.x * other.x + self.y * other.y + self.z * other.z
    }

    /// Cross product of two vectors no longer than a world unit along any
    /// axis.
    pub fn cross(&self, other: &Vec3) -> (c: Vec3)
        requires
            self@.within(ONE as int),
            other@.within(ONE as int),
        ensures
            c@ == self@.cross(other@),
            c@.within(SPAN_LIMIT as int),
    {
        proof {
            lemma_product_bound(self.y as int, other.z as int);
            lemma_product_bound(self.z as int, other.y as int);
            lemma_product_bound(self.z as int, other.x as int);
            lemma_product_bound(self.x as int, other.z as int);
            lemma_product_bound(self.x as int, other.y as int);
            lemma_product_bound(self.y as int, other.x as int);
        }
        Vec3 {
            x: self.y * other.z - self.z * other.y,
            y: self.z * other.x - self.x * other.z,
            z: self.x * other.y - self.y * other.x,
        }
    }

    /// Squared length of a vector no longer than a world unit along any axis.
    pub fn norm_sq(&self) -> (n: i64)
        requires
            self@.within(ONE as int),
        ensures
            n == self@.norm_sq(),
    {
        self.dot(self)
    }

    /// Each component divided by `ONE`, rounded toward zero.
    pub fn scaled_down(&self) -> (s: Vec3)
        ensures
            s@ == self@.scaled_down(),
    {
        Vec3 { x: scale_down_i64(self.x), y: scale_down_i64(self.y), z: scale_down_i64(self.z) }
    }

    /// The vector of length `ONE` along `self`; `None` where `self` is the
    /// origin or has a component beyond `SPAN_LIMIT`.
    pub fn normalize(&self) -> (r: Option<Vec3>)
        ensures
            match r {
                Some(u) => self@.can_normalize() && u@ == self@.unit() && u@.within(ONE as int),
                None => !self@.can_normalize(),
            },
    {
        if !self.within(SPAN_LIMIT) {
            return None;
        }
        if self.x == 0 && self.y == 0 && self.z == 0 {
            return None;
        }
        let ax: u128 = magnitude_of(self.x);
        let ay: u128 = magnitude_of(self.y);
        let az: u128 = magnitude_of(self.z);
        proof {
            lemma_norm_sq(self@);
            lemma_square(self.x as int);
            lemma_square(self.y as int);
            lemma_square(self.z as int);
            lemma_square_bound(self.x as int, SPAN_LIMIT as int);
            lemma_square_bound(self.y as int, SPAN_LIMIT as int);
            lemma_square_bound(self.z as int, SPAN_LIMIT as int);
        }
        let n: u128 = ax * ax + ay * ay + az * az;
        let x = unit_component(self.x, n);
        let y = unit_component(self.y, n);
        let z = unit_component(self.z, n);
        Some(Vec3 { x, y, z })
    }
}

} // verus!
