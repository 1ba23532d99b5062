//! Orientations, held as the three axes of the rotated entity: where the
//! local right (+X), up (+Y) and forward (+Z) axes point in the world, each
//! one world unit long.

use vstd::prelude::*;
use crate::scalar::{magnitude, scale_down, ONE};
use crate::algebra::{
    lemma_cancel, lemma_cross_term, lemma_mul3, lemma_mul4, lemma_mul_commutes, lemma_mul_sub,
    lemma_mul_sum3, lemma_product_bound, lemma_square, lemma_within_square,
};
use crate::vector::{
    lemma_cross_is_orthogonal, lemma_dot_commutes, lemma_lagrange, lemma_norm_sq,
    lemma_triple_product, lemma_unit_is_parallel, lemma_unit_is_unit, lemma_unit_part, reach,
    Vec3, Vector,
};

verus! {

/// Largest deviation that still counts as orthonormal: how far a squared
/// axis length may fall below `ONE * ONE`, and how far the dot product of
/// two axes may lie from zero. It is `32 * ONE`, which lets an axis be 16
/// ticks short of a world unit: rounding in the look-at construction costs
/// less.
pub const AXIS_SLACK: i64 = 33_554_432;

/// Two rotations whose components all lie within this many ticks of each
/// other count as the same rotation.
pub const ROTATION_EPSILON: i64 = 8;

/// The mathematical model of a [`Rotation`].
pub struct Basis {
    pub right: Vector,
    pub up: Vector,
    pub forward: Vector,
}

/// Two numbers lie more than `eps` apart.
pub open spec fn apart(a: int, b: int, eps: int) -> bool {
    a - b > eps || b - a > eps
}

/// Some component of the two vectors lies more than `eps` apart.
pub open spec fn vectors_apart(a: Vector, b: Vector, eps: int) -> bool {
    apart(a.x, b.x, eps) || apart(a.y, b.y, eps) || apart(a.z, b.z, eps)
}

impl Basis {
    /// The basis of an entity that is not rotated.
    pub open spec fn identity() -> Basis {
        Basis {
            right: Vector { x: ONE as int, y: 0, z: 0 },
            up: Vector { x: 0, y: ONE as int, z: 0 },
            forward: Vector { x: 0, y: 0, z: ONE as int },
        }
    }

    /// The three axes are one world unit long and at right angles to each
    /// other, up to rounding: what a normalised rotation is here.
    pub open spec fn is_orthonormal(self) -> bool {
        &&& self.right.within(ONE as int)
        &&& self.up.within(ONE as int)
        &&& self.forward.within(ONE as int)
        &&& ONE * ONE - AXIS_SLACK <= self.right.norm_sq() <= ONE * ONE
        &&& ONE * ONE - AXIS_SLACK <= self.up.norm_sq() <= ONE * ONE
        &&& ONE * ONE - AXIS_SLACK <= self.forward.norm_sq() <= ONE * ONE
        &&& magnitude(self.right.dot(self.up)) <= AXIS_SLACK
        &&& magnitude(self.up.dot(self.forward)) <= AXIS_SLACK
        &&& magnitude(self.forward.dot(self.right)) <= AXIS_SLACK
    }

    /// The basis is turned about the vertical axis only: no pitch and no roll.
    pub open spec fn is_upright(self) -> bool {
        &&& self.up == (Vector { x: 0, y: ONE as int, z: 0 })
        &&& self.right.y == 0
        &&& self.forward.y == 0
    }

    /// The upright basis whose forward axis is the horizontal part of
    /// `heading`: the rotation about the vertical axis by the angle whose
    /// sine is `heading.x / ONE` and whose cosine is `heading.z / ONE`.
    pub open spec fn facing(heading: Vector) -> Basis {
        Basis {
            right: Vector { x: heading.z, y: 0, z: -heading.x },
            up: Vector { x: 0, y: ONE as int, z: 0 },
            forward: Vector { x: heading.x, y: 0, z: heading.z },
        }
    }

    /// An entity at `eye` can be made to look at `target` with `up` upward:
    /// both are well-formed positions and differ, `up` is no longer than a
    /// world unit along any axis, and `up` is not parallel to the line of
    /// sight.
    pub open spec fn can_look_at(eye: Vector, target: Vector, up: Vector) -> bool {
        &&& eye.in_world()
        &&& target.in_world()
        &&& up.within(ONE as int)
        &&& target != eye
        &&& up.cross(target.minus(eye).unit()) != Vector::zero()
    }

    /// The look-at construction: forward is the unit vector from `eye` to
    /// `target`, right the unit vector along `up x forward`, and the new up
    /// axis `forward x right`.
    pub open spec fn look_at(eye: Vector, target: Vector, up: Vector) -> Basis {
        let forward = target.minus(eye).unit();
        let right = up.cross(forward).unit();
        Basis { right, up: forward.cross(right).scaled_down(), forward }
    }

    /// Some component of the two bases lies more than `eps` apart.
    pub open spec fn differs_beyond(self, other: Basis, eps: int) -> bool {
        ||| vectors_apart(self.right, other.right, eps)
        ||| vectors_apart(self.up, other.up, eps)
        ||| vectors_apart(self.forward, other.forward, eps)
    }
}

/// An orientation in world space.
#[derive(Clone, Copy, Debug, PartialEq, Eq, Structural)]
pub struct Rotation {
    pub right: Vec3,
    pub up: Vec3,
    pub forward: Vec3,
}

impl View for Rotation {
    type V = Basis;

    open spec fn view(&self) -> Basis {
        Basis { right: self.right@, up: self.up@, forward: self.forward@ }
    }
}

/// The unit vector along a vector that stands at right angles to `f`
/// stands at right angles to `f` too, up to rounding.
proof fn lemma_unit_stays_orthogonal(f: Vector, c: Vector)
    requires
        f.within(ONE as int),
        c != Vector::zero(),
        f.dot(c) == 0,
    ensures
        magnitude(f.dot(c.unit())) <= 2 * ONE,
{
    let r = c.unit();
    let x = c.cross(r);
    let m = reach(c);
    let g = f.dot(r);
    lemma_unit_is_parallel(c);
    lemma_triple_product(f, c, r);
    let t = f.cross(x);
    lemma_cross_term(f.y, x.z, f.z, x.y, ONE as int, m);
    lemma_cross_term(f.z, x.x, f.x, x.z, ONE as int, m);
    lemma_cross_term(f.x, x.y, f.y, x.x, ONE as int, m);
    assert(t.x == c.x * g) by (nonlinear_arith)
        requires
            t.x == c.x * g - r.x * f.dot(c),
            f.dot(c) == 0,
    ;
    assert(t.y == c.y * g) by (nonlinear_arith)
        requires
            t.y == c.y * g - r.y * f.dot(c),
            f.dot(c) == 0,
    ;
    assert(t.z == c.z * g) by (nonlinear_arith)
        requires
            t.z == c.z * g - r.z * f.dot(c),
            f.dot(c) == 0,
    ;
    if magnitude(c.x) == m {
        lemma_cancel(c.x, g, ONE as int, m);
    } else if magnitude(c.y) == m {
        lemma_cancel(c.y, g, ONE as int, m);
    } else {
        lemma_cancel(c.z, g, ONE as int, m);
    }
}

/// What rounding toward zero loses: `ONE * scale_down(w)` lies between
/// zero and `w`, less than `ONE` from `w`.
proof fn lemma_scale_down(w: int)
    ensures
        w >= 0 ==> w - ONE < ONE * scale_down(w) <= w,
        w <= 0 ==> w <= ONE * scale_down(w) < w + ONE,
{
}

/// The square of `ONE * scale_down(w)` is at most that of `w`, and less by
/// no more than `2 * ONE * bound`, where `w` lies within `bound` of zero.
proof fn lemma_scale_down_square(w: int, bound: int)
    requires
        -bound <= w <= bound,
    ensures
        ({
            let u = ONE * scale_down(w);
            w * w - 2 * (ONE * bound) <= u * u <= w * w
        }),
        -bound <= ONE * scale_down(w) <= bound,
{
    lemma_scale_down(w);
    let u = ONE * scale_down(w);
    assert(w * w - 2 * (ONE * bound) <= u * u <= w * w) by (nonlinear_arith)
        requires
            -bound <= w <= bound,
            w >= 0 ==> w - ONE < u <= w,
            w <= 0 ==> w <= u < w + ONE,
            w >= 0 ==> u >= 0,
            w <= 0 ==> u <= 0,
    {
        if w >= 0 {
            assert(u * u <= w * w);
            assert(u * u >= (w - ONE) * (w - ONE) || w < ONE);
            assert((w - ONE) * (w - ONE) == w * w - 2 * ONE * w + ONE * ONE);
        } else {
            assert(u * u <= w * w);
            assert(u * u >= (w + ONE) * (w + ONE) || w > -ONE);
            assert((w + ONE) * (w + ONE) == w * w + 2 * ONE * w + ONE * ONE);
        }
    }
}

/// One term of the dot product of a rounded vector: `ONE * (u * f)` lies
/// within `ONE * ONE` of `w * f`, where `u` is `w` scaled down.
proof fn lemma_rounded_term(w: int, f: int)
    requires
        -ONE <= f <= ONE,
    ensures
        w * f - ONE * ONE <= ONE * (scale_down(w) * f) <= w * f + ONE * ONE,
{
    lemma_scale_down(w);
    let su = ONE * scale_down(w);
    let e = w - su;
    lemma_product_bound(e, f);
    lemma_mul_sub(f, w, e);
    lemma_mul_commutes(f, w);
    lemma_mul_commutes(f, e);
    lemma_mul_commutes(f, w - e);
    lemma_mul3(ONE as int, scale_down(w), f);
    assert(su * f == ONE * (scale_down(w) * f)) by (nonlinear_arith)
        requires
            su == ONE * scale_down(w),
    ;
}

/// Scaling a vector down keeps it at right angles, up to rounding, to what
/// it stood at right angles to.
proof fn lemma_rounded_dot(w: Vector, f: Vector)
    requires
        f.within(ONE as int),
        w.dot(f) == 0,
    ensures
        magnitude(w.scaled_down().dot(f)) <= 3 * ONE,
{
    lemma_rounded_term(w.x, f.x);
    lemma_rounded_term(w.y, f.y);
    lemma_rounded_term(w.z, f.z);
    let u = w.scaled_down();
    lemma_mul_sum3(ONE as int, u.x * f.x, u.y * f.y, u.z * f.z);
}

/// The squared length of a vector scaled down: `ONE * ONE` times it lies
/// at most `6 * ONE * bound` below the squared length of the vector, and not
/// above, where no component of the vector lies beyond `bound`.
proof fn lemma_rounded_norm(w: Vector, bound: int)
    requires
        w.within(bound),
    ensures
        w.norm_sq() - 6 * (ONE * bound) <= (ONE * ONE) * w.scaled_down().norm_sq() <= w.norm_sq(),
        ONE * scale_down(w.x) <= bound && ONE * scale_down(w.x) >= -bound,
        ONE * scale_down(w.y) <= bound && ONE * scale_down(w.y) >= -bound,
        ONE * scale_down(w.z) <= bound && ONE * scale_down(w.z) >= -bound,
{
    lemma_scale_down_square(w.x, bound);
    lemma_scale_down_square(w.y, bound);
    lemma_scale_down_square(w.z, bound);
    let u = w.scaled_down();
    lemma_mul4(ONE as int, ONE as int, u.x, u.x);
    lemma_mul4(ONE as int, ONE as int, u.y, u.y);
    lemma_mul4(ONE as int, ONE as int, u.z, u.z);
    lemma_mul_sum3(ONE * ONE, u.x * u.x, u.y * u.y, u.z * u.z);
}

/// The look-at construction gives a normalised rotation wherever it is
/// defined: three axes of one world unit, at right angles to each other, up
/// to rounding.
pub proof fn lemma_look_at_orthonormal(eye: Vector, target: Vector, up: Vector)
    requires
        Basis::can_look_at(eye, target, up),
    ensures
        Basis::look_at(eye, target, up).is_orthonormal(),
{
    let s = ONE as int;
    let line = target.minus(eye);
    let f = line.unit();
    let c = up.cross(f);
    let r = c.unit();
    let w = f.cross(r);
    let u = w.scaled_down();
    let g = f.dot(r);
    lemma_unit_is_unit(line);
    lemma_unit_is_unit(c);
    lemma_cross_is_orthogonal(up, f);
    lemma_dot_commutes(f, c);
    lemma_unit_stays_orthogonal(f, c);
    lemma_lagrange(f, r);
    lemma_cross_is_orthogonal(f, r);
    let (nf, nr, nw) = (f.norm_sq(), r.norm_sq(), w.norm_sq());
    let low = s * s - 6 * s - 2;
    assert(low * low <= nf * nr <= (s * s) * (s * s)) by (nonlinear_arith)
        requires
            0 < low <= nf <= s * s,
            low <= nr <= s * s,
    ;
    assert(0 <= g * g <= 4 * (s * s)) by (nonlinear_arith)
        requires
            -(2 * s) <= g <= 2 * s,
    ;
    assert(low * low - 4 * (s * s) <= nw <= (s * s) * (s * s));
    // No component of `w` lies beyond a squared unit.
    lemma_norm_sq(w);
    lemma_square(w.x);
    lemma_square(w.y);
    lemma_square(w.z);
    let bound = s * s;
    assert(bound * bound == (s * s) * (s * s));
    lemma_within_square(w.x, bound);
    lemma_within_square(w.y, bound);
    lemma_within_square(w.z, bound);
    lemma_rounded_norm(w, bound);
    lemma_rounded_dot(w, f);
    lemma_rounded_dot(w, r);
    lemma_dot_commutes(r, u);
    let basis = Basis::look_at(eye, target, up);
    assert(basis.right == r && basis.up == u && basis.forward == f);
    assert(u.within(s));
    let nu = u.norm_sq();
    assert(s * s - AXIS_SLACK <= nu <= s * s) by (nonlinear_arith)
        requires
            (s * s) * nu <= nw,
            nw <= (s * s) * (s * s),
            (s * s) * nu >= nw - 6 * (s * (s * s)),
            nw >= low * low - 4 * (s * s),
            low == s * s - 6 * s - 2,
            s == 1_048_576,
            AXIS_SLACK == 33_554_432,
    ;
}

/// Where the look-at construction is defined, the forward axis points from
/// `eye` at `target`, up to rounding: it is the unit vector of the line of
/// sight, its cross product with the line of sight, which is zero for
/// parallel vectors, has no component beyond the reach of the line, and
/// their dot product is positive.
pub proof fn lemma_look_at_sees_target(eye: Vector, target: Vector, up: Vector)
    requires
        Basis::can_look_at(eye, target, up),
    ensures
        Basis::look_at(eye, target, up).forward == target.minus(eye).unit(),
        ONE * ONE - 6 * ONE - 2 <= Basis::look_at(eye, target, up).forward.norm_sq() <= ONE * ONE,
        target.minus(eye).cross(Basis::look_at(eye, target, up).forward).within(
            reach(target.minus(eye)),
        ),
        target.minus(eye).dot(Basis::look_at(eye, target, up).forward) > 0,
{
    lemma_unit_is_unit(target.minus(eye));
    lemma_unit_is_parallel(target.minus(eye));
}

/// Facing along the unit vector of any horizontal direction gives an
/// orthonormal, upright basis whose forward axis is that unit vector.
pub proof fn lemma_facing_orthonormal(direction: Vector)
    requires
        direction != Vector::zero(),
        direction.y == 0,
    ensures
        Basis::facing(direction.unit()).is_orthonormal(),
        Basis::facing(direction.unit()).is_upright(),
        Basis::facing(direction.unit()).forward == direction.unit(),
{
    lemma_unit_is_unit(direction);
    lemma_norm_sq(direction);
    lemma_unit_part(0, direction.norm_sq());
    let u = direction.unit();
    let f = Basis::facing(u);
    assert(u.y == 0);
    lemma_square(u.x);
    lemma_square(u.z);
    assert((-u.x) * (-u.x) == u.x * u.x) by (nonlinear_arith);
    assert(u.z * u.x + 0 * 0 + (-u.x) * u.z == 0) by (nonlinear_arith);
    assert(u.x * u.z + 0 * 0 + u.z * (-u.x) == 0) by (nonlinear_arith);
    assert(f.right.norm_sq() == u.norm_sq());
    assert(f.forward.norm_sq() == u.norm_sq());
    assert(f.right.dot(f.up) == 0) by (nonlinear_arith)
        requires
            f.right.y == 0,
            f.up.x == 0,
            f.up.z == 0,
    ;
    assert(f.up.dot(f.forward) == 0) by (nonlinear_arith)
        requires
            f.forward.y == 0,
            f.up.x == 0,
            f.up.z == 0,
    ;
    assert(f.forward.dot(f.right) == 0);
}

/// Tells whether `a` and `b` lie more than `eps` apart.
fn apart_exec(a: i64, b: i64, eps: i64) -> (r: bool)
    requires
        0 <= eps <= ONE,
    ensures
        r == apart(a as int, b as int, eps as int),
{
    let d: i128 = (a as i128) - (b as i128);
    d > eps as i128 || -d > eps as i128
}

/// Tells whether some component of `a` and `b` lies more than `eps` apart.
fn vectors_apart_exec(a: &Vec3, b: &Vec3, eps: i64) -> (r: bool)
    requires
        0 <= eps <= ONE,
    ensures
        r == vectors_apart(a@, b@, eps as int),
{
    apart_exec(a.x, b.x, eps) || apart_exec(a.y, b.y, eps) || apart_exec(a.z, b.z, eps)
}

/// Tells whether `d` lies within the slack of zero.
fn negligible(d: i64) -> (r: bool)
    ensures
        r == (magnitude(d as int) <= AXIS_SLACK),
{
    -AXIS_SLACK <= d && d <= AXIS_SLACK
}

/// Tells whether a squared length is that of a unit axis.
fn unit_length(n: i64) -> (r: bool)
    ensures
        r == (ONE * ONE - AXIS_SLACK <= n <= ONE * ONE),
{
    ONE * ONE - AXIS_SLACK <= n && n <= ONE * ONE
}

impl Rotation {
    /// The rotation of an entity that is not rotated.
    pub fn identity() -> (r: Rotation)
        ensures
            r@ == Basis::identity(),
            r@.is_orthonormal(),
    {
        Rotation {
            right: Vec3 { x: ONE, y: 0, z: 0 },
            up: Vec3 { x: 0, y: ONE, z: 0 },
            forward: Vec3 { x: 0, y: 0, z: ONE },
        }
    }

    /// Tells whether the rotation is normalised.
    pub fn is_orthonormal(&self) -> (b: bool)
        ensures
            b == self@.is_orthonormal(),
    {
        if !self.right.within(ONE) || !self.up.within(ONE) || !self.forward.within(ONE) {
            return false;
        }
        unit_length(self.right.norm_sq()) && unit_length(self.up.norm_sq()) && unit_length(
            self.forward.norm_sq(),
        ) && negligible(self.right.dot(&self.up)) && negligible(self.up.dot(&self.forward))
            && negligible(self.forward.dot(&self.right))
    }

    /// The upright rotation whose forward axis is the horizontal part of
    /// `heading`.
    pub fn facing(heading: &Vec3) -> (r: Rotation)
        requires
            heading@.within(ONE as int),
        ensures
            r@ == Basis::facing(heading@),
            r@.is_upright(),
    {
        Rotation {
            right: Vec3 { x: heading.z, y: 0, z: -heading.x },
            up: Vec3 { x: 0, y: ONE, z: 0 },
            forward: Vec3 { x: heading.x, y: 0, z: heading.z },
        }
    }

    /// The rotation that makes an entity at `eye` look at `target`, by the
    /// look-at construction; `None` where the construction is undefined.
    pub fn look_at(eye: &Vec3, target: &Vec3, up: &Vec3) -> (r: Option<Rotation>)
        ensures
            match r {
                Some(rotation) => Basis::can_look_at(eye@, target@, up@) && rotation@
                    == Basis::look_at(eye@, target@, up@) && rotation@.is_orthonormal(),
                None => !Basis::can_look_at(eye@, target@, up@),
            },
    {
        if !eye.in_world() || !target.in_world() || !up.within(ONE) {
            return None;
        }
        let line = target.minus(eye);
        let forward = match line.normalize() {
            Some(f) => f,
            None => {
                return None;
            },
        };
        let side = up.cross(&forward);
        let right = match side.normalize() {
            Some(r) => r,
            None => {
                return None;
            },
        };
        let lifted = forward.cross(&right).scaled_down();
        proof {
            lemma_look_at_orthonormal(eye@, target@, up@);
        }
        Some(Rotation { right, up: lifted, forward })
    }

    /// Tells whether some component of the two rotations lies more than
    /// `eps` ticks apart.
    pub fn differs_beyond(&self, other: &Rotation, eps: i64) -> (b: bool)
        requires
            0 <= eps <= ONE,
        ensures
            b == self@.differs_beyond(other@, eps as int),
    {
        vectors_apart_exec(&self.right, &other.right, eps) || vectors_apart_exec(
            &self.up,
            &other.up,
            eps,
        ) || vectors_apart_exec(&self.forward, &other.forward, eps)
    }
}

} // verus!
