//! Two-dimensional vectors of fixed-point scalars.
//!
//! A vector holds its two components and nothing else: its magnitude is
//! recomputed on every read. Each operation that takes a scalar first
//! saturates it into the scalar range, and every result saturates too.
use crate::fixed::{
    abs, clamp, diff, in_range, is_root, is_root_quotient, lemma_le_root, lemma_product_bound,
    lemma_root_div, minus, plus, product, root, root_div, root_of, saturate, scale_by_root, sum,
    times, LIMIT, ONE,
};
use vstd::prelude::*;

verus! {

/// The magnitude of a pair of raw components: the integer square root of the
/// sum of their squares.
pub open spec fn magnitude(v: (int, int)) -> int {
    root(v.0 * v.0 + v.1 * v.1)
}

/// The sum of the squares of the components.
pub open spec fn norm2(v: (int, int)) -> int {
    v.0 * v.0 + v.1 * v.1
}

/// The unit vector along `v`, or the zero vector when `v` is zero. Each
/// component is `v.i * ONE / |v|`, with `|v|` the exact Euclidean length,
/// rounded toward zero (`ONE` is length one).
pub open spec fn unit(v: (int, int)) -> (int, int) {
    if v == (0int, 0int) {
        (0, 0)
    } else {
        (root_div(v.0 * ONE, norm2(v)), root_div(v.1 * ONE, norm2(v)))
    }
}

/// The direction a vector is rescaled along: its own, or for the zero
/// vector, which has none, that of `(1, 1)`, the vector that one unit added
/// to each of its components makes.
pub open spec fn direction_of(v: (int, int)) -> (int, int) {
    if v == (0int, 0int) {
        (ONE as int, ONE as int)
    } else {
        v
    }
}

/// `v` rescaled to magnitude `s`: each component of its direction `b` becomes
/// `b.i * s / |b|`, with `|b|` the exact Euclidean length, rounded toward
/// zero.
pub open spec fn resized(v: (int, int), s: int) -> (int, int) {
    let b = direction_of(v);
    (root_div(b.0 * s, norm2(b)), root_div(b.1 * s, norm2(b)))
}

/// Component-wise saturating sum.
pub open spec fn vsum(a: (int, int), b: (int, int)) -> (int, int) {
    (sum(a.0, b.0), sum(a.1, b.1))
}

/// Component-wise saturating difference.
pub open spec fn vdiff(a: (int, int), b: (int, int)) -> (int, int) {
    (diff(a.0, b.0), diff(a.1, b.1))
}

/// Both components scaled by the fixed-point scalar `s`.
pub open spec fn vscale(a: (int, int), s: int) -> (int, int) {
    (product(a.0, s), product(a.1, s))
}

/// The dot product, rounded once.
pub open spec fn dot_of(a: (int, int), b: (int, int)) -> int {
    clamp(crate::fixed::tdiv(a.0 * b.0 + a.1 * b.1, ONE as int))
}

/// The distance between two points: the magnitude of their difference.
pub open spec fn distance(a: (int, int), b: (int, int)) -> int {
    magnitude(vdiff(a, b))
}

pub open spec fn in_range2(v: (int, int)) -> bool {
    in_range(v.0) && in_range(v.1)
}

/// The magnitude of a vector of in-range components is at least each of
/// them, and zero exactly for the zero vector.
pub proof fn lemma_magnitude_bounds(v: (int, int))
    requires
        in_range2(v),
    ensures
        magnitude(v) >= 0,
        abs(v.0) <= magnitude(v),
        abs(v.1) <= magnitude(v),
        magnitude(v) <= 2 * LIMIT,
        magnitude(v) == 0 <==> v == (0int, 0int),
{
    let (x, y) = v;
    lemma_le_root(x, y);
    lemma_le_root(y, x);
    assert(y * y + x * x == x * x + y * y);
    let m = magnitude(v);
    let n = x * x + y * y;
    assert(m * m <= n);
    assert(n <= 2 * LIMIT * LIMIT) by (nonlinear_arith)
        requires
            in_range(x),
            in_range(y),
            n == x * x + y * y,
    ;
    if m > 2 * LIMIT {
        assert(m * m > 4 * LIMIT * LIMIT) by (nonlinear_arith)
            requires
                m > 2 * LIMIT,
        ;
    }
    if v == (0int, 0int) {
        assert(n == 0);
        assert(m == 0) by (nonlinear_arith)
            requires
                m >= 0,
                m * m <= 0,
        ;
    }
}

/// A squared-sum bound that the square root accepts.
proof fn lemma_square_sum_fits(x: int, y: int)
    requires
        in_range(x),
        in_range(y),
    ensures
        0 <= x * x + y * y < 0x10_0000_0000_0000_0000_0000,
{
    assert(0 <= x * x + y * y <= 8_000_000_000_000_000_000) by (nonlinear_arith)
        requires
            -2_000_000_000 <= x <= 2_000_000_000,
            -2_000_000_000 <= y <= 2_000_000_000,
    ;
}

/// The rescaled components `c` of a direction `b`: both of their squares
/// together are at most `s * s`, and with one added to each magnitude, more.
proof fn lemma_resized_squares(b: (int, int), s: int)
    requires
        norm2(b) >= 1,
        s >= 0,
    ensures
        ({
            let c0 = abs(root_div(b.0 * s, norm2(b)));
            let c1 = abs(root_div(b.1 * s, norm2(b)));
            &&& c0 >= 0 && c1 >= 0
            &&& c0 * c0 + c1 * c1 <= s * s
            &&& s * s < (c0 + 1) * (c0 + 1) + (c1 + 1) * (c1 + 1)
        }),
{
    let n = norm2(b);
    lemma_root_div(b.0 * s, n);
    lemma_root_div(b.1 * s, n);
    let c0 = abs(root_div(b.0 * s, n));
    let c1 = abs(root_div(b.1 * s, n));
    assert((b.0 * s) * (b.0 * s) + (b.1 * s) * (b.1 * s) == n * (s * s)) by (nonlinear_arith)
        requires
            n == b.0 * b.0 + b.1 * b.1,
    ;
    assert(c0 * c0 + c1 * c1 <= s * s) by (nonlinear_arith)
        requires
            c0 * c0 * n <= (b.0 * s) * (b.0 * s),
            c1 * c1 * n <= (b.1 * s) * (b.1 * s),
            (b.0 * s) * (b.0 * s) + (b.1 * s) * (b.1 * s) == n * (s * s),
            n >= 1,
    ;
    assert(s * s < (c0 + 1) * (c0 + 1) + (c1 + 1) * (c1 + 1)) by (nonlinear_arith)
        requires
            (b.0 * s) * (b.0 * s) < (c0 + 1) * (c0 + 1) * n,
            (b.1 * s) * (b.1 * s) < (c1 + 1) * (c1 + 1) * n,
            (b.0 * s) * (b.0 * s) + (b.1 * s) * (b.1 * s) == n * (s * s),
            n >= 1,
    ;
}

/// Two non-negative integers whose squares sum to at most `s * s`, but to
/// more once each is raised by one, have squares that sum to at least
/// `(s - 2) * (s - 2)`.
proof fn lemma_near_circle(a: int, b: int, s: int)
    requires
        a >= 0,
        b >= 0,
        s >= 2,
        s * s < (a + 1) * (a + 1) + (b + 1) * (b + 1),
    ensures
        (s - 2) * (s - 2) <= a * a + b * b,
{
    if a * a + b * b < (s - 2) * (s - 2) {
        let t = a + b;
        assert(t * t <= 2 * (a * a + b * b)) by (nonlinear_arith)
            requires
                t == a + b,
        ;
        assert(2 * ((s - 2) * (s - 2)) <= (2 * s - 3) * (2 * s - 3)) by (nonlinear_arith)
            requires
                s >= 2,
        ;
        assert((s - 2) * (s - 2) + 4 * s - 4 == s * s) by (nonlinear_arith);
        assert(t < 2 * s - 3) by (nonlinear_arith)
            requires
                t >= 0,
                2 * s - 3 >= 1,
                t * t < (2 * s - 3) * (2 * s - 3),
        ;
        assert((a + 1) * (a + 1) + (b + 1) * (b + 1) == a * a + b * b + 2 * t + 2) by (nonlinear_arith)
            requires
                t == a + b,
        ;
    }
}

/// The direction a vector is rescaled along is never the zero vector.
pub proof fn lemma_direction_nonzero(v: (int, int))
    ensures
        norm2(direction_of(v)) >= 1,
{
    let b = direction_of(v);
    assert(b.0 * b.0 >= 0 && b.1 * b.1 >= 0) by (nonlinear_arith);
    if b.0 != 0 {
        assert(b.0 * b.0 >= 1) by (nonlinear_arith)
            requires
                b.0 != 0,
        ;
    } else {
        assert(b.1 * b.1 >= 1) by (nonlinear_arith)
            requires
                b.1 != 0,
        ;
    }
}

/// A vector rescaled to magnitude `s` (at least two raw units) has a
/// magnitude within two raw units below `s`, and never above it.
pub proof fn lemma_resized_length(v: (int, int), s: int)
    requires
        s >= 2,
    ensures
        s - 2 <= magnitude(resized(v, s)) <= s,
{
    let b = direction_of(v);
    lemma_direction_nonzero(v);
    lemma_resized_squares(b, s);
    let r = resized(v, s);
    let c0 = abs(r.0);
    let c1 = abs(r.1);
    lemma_near_circle(c0, c1, s);
    assert(r.0 * r.0 == c0 * c0 && r.1 * r.1 == c1 * c1) by (nonlinear_arith)
        requires
            c0 == r.0 || c0 == -r.0,
            c1 == r.1 || c1 == -r.1,
    ;
    let n = norm2(r);
    lemma_le_root(r.0, r.1);
    let m = magnitude(r);
    assert(is_root(m, n));
    if m > s {
        assert(m * m > s * s) by (nonlinear_arith)
            requires
                m > s,
                s >= 0,
        ;
    }
    if m < s - 2 {
        assert((m + 1) * (m + 1) <= (s - 2) * (s - 2)) by (nonlinear_arith)
            requires
                0 <= m + 1 <= s - 2,
        ;
    }
}

/// The unit vector of a vector that is not zero has a magnitude of `ONE`, or
/// at most two raw units less.
pub proof fn lemma_unit_length(v: (int, int))
    requires
        v != (0int, 0int),
    ensures
        ONE - 2 <= magnitude(unit(v)) <= ONE,
{
    lemma_resized_length(v, ONE as int);
    assert(unit(v) == resized(v, ONE as int));
}

/// The parts of a vector, read at once.
#[derive(Clone, Copy, PartialEq, Eq, Debug)]
pub struct Components {
    pub magnitude: i64,
    pub x: i64,
    pub y: i64,
}

impl Components {
    pub fn new(x: i64, y: i64, magnitude: i64) -> (r: Components)
        ensures
            r.x == x,
            r.y == y,
            r.magnitude == magnitude,
    {
        Components { magnitude, x, y }
    }
}

/// A two-dimensional vector of fixed-point components.
#[derive(Clone, Copy, PartialEq, Eq, Debug)]
pub struct Vector2 {
    x: i64,
    y: i64,
}

impl View for Vector2 {
    type V = (int, int);

    closed spec fn view(&self) -> (int, int) {
        (self.x as int, self.y as int)
    }
}

impl Vector2 {
    #[verifier::type_invariant]
    spec fn inv(&self) -> bool {
        in_range(self.x as int) && in_range(self.y as int)
    }

    /// Creates the zero vector.
    pub fn new() -> (r: Vector2)
        ensures
            r@ == (0int, 0int),
    {
        Vector2::from_zero()
    }

    /// Creates a vector from its components, each saturated into range.
    pub fn from_components(x: i64, y: i64) -> (r: Vector2)
        ensures
            r@ == (clamp(x as int), clamp(y as int)),
            in_range(x as int) && in_range(y as int) ==> r@ == (x as int, y as int),
    {
        Vector2 { x: saturate(x), y: saturate(y) }
    }

    fn from_zero() -> (r: Vector2)
        ensures
            r@ == (0int, 0int),
    {
        Vector2 { x: 0, y: 0 }
    }

    pub fn get_x(&self) -> (r: i64)
        ensures
            r == self@.0,
            in_range(r as int),
    {
        proof {
            use_type_invariant(self);
        }
        self.x
    }

    pub fn get_y(&self) -> (r: i64)
        ensures
            r == self@.1,
            in_range(r as int),
    {
        proof {
            use_type_invariant(self);
        }
        self.y
    }

    /// The length of the vector, computed from the components on every call.
    pub fn get_magnitude(&self) -> (r: i64)
        ensures
            r == magnitude(self@),
            is_root(r as int, self@.0 * self@.0 + self@.1 * self@.1),
            0 <= r <= 2 * LIMIT,
    {
        proof {
            use_type_invariant(self);
            lemma_magnitude_bounds(self@);
        }
        Vector2::calculate_magnitude(self.get_x(), self.get_y())
    }

    pub fn get_components(&self) -> (r: Components)
        ensures
            r.x == self@.0,
            r.y == self@.1,
            r.magnitude == magnitude(self@),
    {
        Components::new(self.get_x(), self.get_y(), self.get_magnitude())
    }

    /// The components and the magnitude, in the order `(x, y, magnitude)`.
    pub fn get_components_tuple(&self) -> (r: (i64, i64, i64))
        ensures
            r.0 == self@.0,
            r.1 == self@.1,
            r.2 == magnitude(self@),
    {
        (self.get_x(), self.get_y(), self.get_magnitude())
    }

    pub fn set_components(&mut self, x: i64, y: i64)
        ensures
            final(self)@ == (clamp(x as int), clamp(y as int)),
    {
        *self = Vector2::from_components(x, y);
    }

    pub fn set_x(&mut self, x: i64)
        ensures
            final(self)@ == (clamp(x as int), old(self)@.1),
    {
        let y = self.get_y();
        self.set_components(x, y);
    }

    pub fn set_y(&mut self, y: i64)
        ensures
            final(self)@ == (old(self)@.0, clamp(y as int)),
    {
        let x = self.get_x();
        self.set_components(x, y);
    }

    /// Rescales the vector to magnitude `s`, keeping its direction; a zero
    /// vector takes the direction of `(1, 1)`.
    pub fn set_magnitude(&mut self, s: i64)
        ensures
            final(self)@ == resized(old(self)@, clamp(s as int)),
    {
        *self = self.set_magnitude_vector(s);
    }

    /// This vector rescaled to magnitude `s`; a zero vector takes the
    /// direction of `(1, 1)`.
    pub fn set_magnitude_vector(&self, s: i64) -> (r: Vector2)
        ensures
            r@ == resized(self@, clamp(s as int)),
            is_root_quotient(
                r@.0,
                direction_of(self@).0 * clamp(s as int),
                norm2(direction_of(self@)),
            ),
            is_root_quotient(
                r@.1,
                direction_of(self@).1 * clamp(s as int),
                norm2(direction_of(self@)),
            ),
            clamp(s as int) >= 2 ==> clamp(s as int) - 2 <= magnitude(r@) <= clamp(s as int),
    {
        proof {
            if clamp(s as int) >= 2 {
                lemma_resized_length(self@, clamp(s as int));
            }
        }
        let s = saturate(s);
        let b = if self.get_x() == 0 && self.get_y() == 0 {
            Vector2 { x: ONE, y: ONE }
        } else {
            *self
        };
        let (x, y) = (b.get_x(), b.get_y());
        let n = Vector2::square_sum(x, y);
        proof {
            lemma_root_div(x * s, n as int);
            lemma_root_div(y * s, n as int);
        }
        Vector2 { x: scale_by_root(x, s, n), y: scale_by_root(y, s, n) }
    }

    /// The sum of the squares of two in-range components, at least the
    /// square of each, and positive unless both are zero.
    fn square_sum(x: i64, y: i64) -> (n: u128)
        requires
            in_range(x as int),
            in_range(y as int),
        ensures
            n == norm2((x as int, y as int)),
            x * x <= n,
            y * y <= n,
            (x != 0 || y != 0) ==> n >= 1,
            n < 0x10_0000_0000_0000_0000_0000,
    {
        proof {
            lemma_square_sum_fits(x as int, y as int);
            lemma_product_bound(x as int, x as int, LIMIT as int, LIMIT as int);
            lemma_product_bound(y as int, y as int, LIMIT as int, LIMIT as int);
            assert(x * x >= 0 && y * y >= 0) by (nonlinear_arith);
            if x != 0 {
                assert(x * x >= 1) by (nonlinear_arith)
                    requires
                        x != 0,
                ;
            }
            if y != 0 {
                assert(y * y >= 1) by (nonlinear_arith)
                    requires
                        y != 0,
                ;
            }
        }
        ((x as i128) * (x as i128) + (y as i128) * (y as i128)) as u128
    }

    pub fn add(&mut self, v: &Vector2)
        ensures
            final(self)@ == vsum(old(self)@, v@),
    {
        *self = self.add_vector(v);
    }

    pub fn add_scalar(&mut self, s: i64)
        ensures
            final(self)@ == vsum(old(self)@, (clamp(s as int), clamp(s as int))),
    {
        *self = self.add_scalar_vector(s);
    }

    pub fn add_vector(&self, v: &Vector2) -> (r: Vector2)
        ensures
            r@ == vsum(self@, v@),
    {
        Vector2 { x: plus(self.get_x(), v.get_x()), y: plus(self.get_y(), v.get_y()) }
    }

    pub fn add_scalar_vector(&self, s: i64) -> (r: Vector2)
        ensures
            r@ == vsum(self@, (clamp(s as int), clamp(s as int))),
    {
        let s = saturate(s);
        Vector2 { x: plus(self.get_x(), s), y: plus(self.get_y(), s) }
    }

    pub fn subtract(&mut self, v: &Vector2)
        ensures
            final(self)@ == vdiff(old(self)@, v@),
    {
        *self = self.subtract_vector(v);
    }

    pub fn subtract_scalar(&mut self, s: i64)
        ensures
            final(self)@ == vdiff(old(self)@, (clamp(s as int), clamp(s as int))),
    {
        *self = self.subtract_scalar_vector(s);
    }

    pub fn subtract_vector(&self, v: &Vector2) -> (r: Vector2)
        ensures
            r@ == vdiff(self@, v@),
    {
        Vector2 { x: minus(self.get_x(), v.get_x()), y: minus(self.get_y(), v.get_y()) }
    }

    pub fn subtract_scalar_vector(&self, s: i64) -> (r: Vector2)
        ensures
            r@ == vdiff(self@, (clamp(s as int), clamp(s as int))),
    {
        let s = saturate(s);
        Vector2 { x: minus(self.get_x(), s), y: minus(self.get_y(), s) }
    }

    /// Multiplies component by component.
    pub fn multiply(&mut self, v: &Vector2)
        ensures
            final(self)@ == (product(old(self)@.0, v@.0), product(old(self)@.1, v@.1)),
    {
        self.multiply_scalar_x(v.get_x());
        self.multiply_scalar_y(v.get_y());
    }

    pub fn multiply_scalar(&mut self, s: i64)
        ensures
            final(self)@ == vscale(old(self)@, clamp(s as int)),
    {
        *self = self.multiply_scalar_vector(s);
    }

    pub fn multiply_scalar_x(&mut self, s: i64)
        ensures
            final(self)@ == (product(old(self)@.0, clamp(s as int)), old(self)@.1),
    {
        let x = times(self.get_x(), saturate(s));
        self.set_x(x);
    }

    pub fn multiply_scalar_y(&mut self, s: i64)
        ensures
            final(self)@ == (old(self)@.0, product(old(self)@.1, clamp(s as int))),
    {
        let y = times(self.get_y(), saturate(s));
        self.set_y(y);
    }

    pub fn multiply_scalar_vector(&self, s: i64) -> (r: Vector2)
        ensures
            r@ == vscale(self@, clamp(s as int)),
    {
        let s = saturate(s);
        Vector2 { x: times(self.get_x(), s), y: times(self.get_y(), s) }
    }

    /// The component-by-component product.
    pub fn multiply_vector(&self, v: &Vector2) -> (r: Vector2)
        ensures
            r@ == (product(self@.0, v@.0), product(self@.1, v@.1)),
    {
        Vector2 { x: times(self.get_x(), v.get_x()), y: times(self.get_y(), v.get_y()) }
    }

    pub fn dot(&self, v: &Vector2) -> (r: i64)
        ensures
            r == dot_of(self@, v@),
    {
        Vector2::dot_product(self, v)
    }

    fn dot_product(v1: &Vector2, v2: &Vector2) -> (r: i64)
        ensures
            r == dot_of(v1@, v2@),
    {
        let (a, b, c, d) = (v1.get_x(), v1.get_y(), v2.get_x(), v2.get_y());
        proof {
            lemma_product_bound(a as int, c as int, LIMIT as int, LIMIT as int);
            lemma_product_bound(b as int, d as int, LIMIT as int, LIMIT as int);
        }
        let s = (a as i128) * (c as i128) + (b as i128) * (d as i128);
        let q = if s >= 0 {
            s / (ONE as i128)
        } else {
            -((-s) / (ONE as i128))
        };
        proof {
            crate::fixed::lemma_tdiv_bound(s as int, ONE as int);
        }
        if q > LIMIT as i128 {
            LIMIT
        } else if q < -(LIMIT as i128) {
            -LIMIT
        } else {
            q as i64
        }
    }

    /// Turns the vector into its unit vector; the zero vector stays zero.
    pub fn normalize(&mut self)
        ensures
            final(self)@ == unit(old(self)@),
    {
        *self = Vector2::normalize_vector(self);
    }

    /// The unit vector along this one; the zero vector for the zero vector.
    pub fn normalized(&self) -> (r: Vector2)
        ensures
            r@ == unit(self@),
            self@ == (0int, 0int) ==> r@ == (0int, 0int),
            self@ != (0int, 0int) ==> ONE - 2 <= magnitude(r@) <= ONE,
    {
        proof {
            if self@ != (0int, 0int) {
                lemma_unit_length(self@);
            }
        }
        Vector2::normalize_vector(self)
    }

    fn normalize_vector(v: &Vector2) -> (r: Vector2)
        ensures
            r@ == unit(v@),
            v@ != (0int, 0int) ==> is_root_quotient(r@.0, v@.0 * ONE, norm2(v@)),
            v@ != (0int, 0int) ==> is_root_quotient(r@.1, v@.1 * ONE, norm2(v@)),
    {
        let (x, y) = (v.get_x(), v.get_y());
        if x == 0 && y == 0 {
            return Vector2::from_zero();
        }
        let n = Vector2::square_sum(x, y);
        proof {
            lemma_root_div(x * ONE, n as int);
            lemma_root_div(y * ONE, n as int);
        }
        Vector2 { x: scale_by_root(x, ONE, n), y: scale_by_root(y, ONE, n) }
    }

    /// The distance to `v`.
    pub fn get_distance_scalar(&self, v: &Vector2) -> (r: i64)
        ensures
            r == distance(self@, v@),
            r >= 0,
    {
        Vector2::get_distance(self, v).get_magnitude()
    }

    /// The vector from `v` to this one.
    pub fn get_distance_vector(&self, v: &Vector2) -> (r: Vector2)
        ensures
            r@ == vdiff(self@, v@),
    {
        Vector2::get_distance(self, v)
    }

    fn get_distance(v1: &Vector2, v2: &Vector2) -> (r: Vector2)
        ensures
            r@ == vdiff(v1@, v2@),
    {
        v1.subtract_vector(v2)
    }

    pub fn reverse(&mut self)
        ensures
            final(self)@ == (-old(self)@.0, -old(self)@.1),
    {
        *self = self.reverse_vector();
    }

    pub fn reverse_vector(&self) -> (r: Vector2)
        ensures
            r@ == (-self@.0, -self@.1),
    {
        Vector2 { x: -self.get_x(), y: -self.get_y() }
    }

    fn calculate_magnitude(x: i64, y: i64) -> (r: i64)
        requires
            in_range(x as int),
            in_range(y as int),
        ensures
            r == root(x * x + y * y),
            is_root(r as int, x * x + y * y),
    {
        root_of(Vector2::square_sum(x, y))
    }
}

} // verus!
