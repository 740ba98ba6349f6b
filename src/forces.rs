//! The force models, each a pure function from plain values to the change of
//! velocity it causes over one tick of length `dt`, and the per-axis wall
//! response.
use crate::fixed::{clamp, diff, in_range, minus, product, product3, scaled, times, times3, LIMIT};
use crate::vector::{magnitude, resized, vdiff, Vector2};
use vstd::prelude::*;

verus! {

/// Gravity pulls toward negative `y`: the change is `g * mass * dt`.
pub open spec fn gravity_dv(g: int, mass: int, dt: int) -> (int, int) {
    (0, -product3(g, mass, dt))
}

/// How much speed drag takes in one tick: `|v| * mass * c * dt`, never more
/// than the speed itself.
pub open spec fn drag_amount(v: (int, int), mass: int, c: int, dt: int) -> int {
    let speed = clamp(magnitude(v));
    let s = product(product3(speed, mass, c), dt);
    if s < speed {
        s
    } else {
        speed
    }
}

/// Drag opposes the velocity, with the amount above.
pub open spec fn drag_dv(v: (int, int), mass: int, c: int, dt: int) -> (int, int) {
    resized((-v.0, -v.1), drag_amount(v, mass, c, dt))
}

/// How hard `other` pushes a particle at distance `d`: `k * (radius - d) * dt`
/// within the interaction radius, zero beyond it.
pub open spec fn repulsion_amount(d: int, radius: int, k: int, dt: int) -> int {
    if d > radius {
        0
    } else {
        product3(k, radius - d, dt)
    }
}

/// The push on a particle at `p` from one at `other`, directed away from it.
/// Two particles at the same place are told apart by their order: the one
/// that comes first is pushed toward negative `x`, the other toward positive
/// `x`.
pub open spec fn repulsion_dv(
    p: (int, int),
    other: (int, int),
    first: bool,
    radius: int,
    k: int,
    dt: int,
) -> (int, int) {
    let off = vdiff(p, other);
    let d = magnitude(off);
    let s = repulsion_amount(d, radius, k, dt);
    if d > radius {
        (0, 0)
    } else if off == (0int, 0int) {
        if first {
            (-s, 0)
        } else {
            (s, 0)
        }
    } else {
        resized(off, s)
    }
}

/// How hard a pointer at distance `d` acts: `strength * dt * (radius - d) / radius`
/// within its radius, zero beyond it.
pub open spec fn pointer_amount(d: int, radius: int, strength: int, dt: int) -> int {
    scaled(product(strength, dt), radius - d, radius)
}

/// The pull toward (or, with `attract` false, the push away from) a pointer
/// at `q`. Nothing acts on a particle exactly at the pointer, nor on any when
/// the radius is zero.
pub open spec fn pointer_dv(
    p: (int, int),
    q: (int, int),
    attract: bool,
    radius: int,
    strength: int,
    dt: int,
) -> (int, int) {
    let off = vdiff(q, p);
    let d = magnitude(off);
    if radius <= 0 || d > radius || off == (0int, 0int) {
        (0, 0)
    } else {
        let v = resized(off, pointer_amount(d, radius, strength, dt));
        if attract {
            v
        } else {
            (-v.0, -v.1)
        }
    }
}

/// A wall at distance `dist` from a particle's edge (negative when the
/// particle reaches past it) is out of reach of a particle of raw radius `r`
/// when the particle is clear of its margin, or lies more than `margin + r`
/// beyond it.
pub open spec fn out_of_reach(dist: int, margin: int, r: int) -> bool {
    dist >= margin || dist < -(margin + r)
}

/// The push away from one wall at distance `dist` from the edge of a
/// particle of raw radius `r`: `strength * (margin - dist) * dt` inside the
/// margin, the full `strength * margin * dt` at contact or past it, and
/// nothing once the wall is out of reach.
pub open spec fn edge_push(dist: int, margin: int, r: int, strength: int, dt: int) -> int {
    if out_of_reach(dist, margin, r) {
        0
    } else if dist <= 0 {
        product3(strength, margin, dt)
    } else {
        product3(strength, margin - dist, dt)
    }
}

/// The pushes of the four walls of a `w` by `h` domain on a particle of raw
/// radius `r` at `p`; the walls at zero push toward positive coordinates.
pub open spec fn edge_dv(
    p: (int, int),
    r: int,
    w: int,
    h: int,
    margin: int,
    strength: int,
    dt: int,
) -> (int, int) {
    (
        diff(
            edge_push(p.0 - r, margin, r, strength, dt),
            edge_push(w - r - p.0, margin, r, strength, dt),
        ),
        diff(
            edge_push(p.1 - r, margin, r, strength, dt),
            edge_push(h - r - p.1, margin, r, strength, dt),
        ),
    )
}

/// One axis of the wall response: a coordinate below `lo` or above `hi` is
/// put back on that bound, and its velocity turned around and scaled by the
/// restitution `e`.
pub open spec fn bounce(x: int, v: int, lo: int, hi: int, e: int) -> (int, int) {
    if x < lo {
        (lo, -product(e, v))
    } else if x > hi {
        (hi, -product(e, v))
    } else {
        (x, v)
    }
}

/// Gravity's change of velocity.
pub fn gravity_impulse(g: i64, mass: i64, dt: i64) -> (r: Vector2)
    requires
        in_range(g as int),
        in_range(mass as int),
        in_range(dt as int),
    ensures
        r@ == gravity_dv(g as int, mass as int, dt as int),
{
    Vector2::from_components(0, -times3(g, mass, dt))
}

/// Drag's change of velocity.
pub fn drag_impulse(v: &Vector2, mass: i64, c: i64, dt: i64) -> (r: Vector2)
    requires
        in_range(mass as int),
        in_range(c as int),
        in_range(dt as int),
    ensures
        r@ == drag_dv(v@, mass as int, c as int, dt as int),
{
    let speed = crate::fixed::saturate(v.get_magnitude());
    let s = times(times3(speed, mass, c), dt);
    let amount = if s < speed {
        s
    } else {
        speed
    };
    v.reverse_vector().set_magnitude_vector(amount)
}

/// The push on a particle at `p` from one at `other`; `first` tells which of
/// the two comes first in the population.
pub fn repulsion_impulse(
    p: &Vector2,
    other: &Vector2,
    first: bool,
    radius: i64,
    k: i64,
    dt: i64,
) -> (r: Vector2)
    requires
        0 <= radius <= LIMIT,
        in_range(k as int),
        in_range(dt as int),
    ensures
        r@ == repulsion_dv(p@, other@, first, radius as int, k as int, dt as int),
{
    let off = p.get_distance_vector(other);
    let d = off.get_magnitude();
    if d > radius {
        return Vector2::new();
    }
    let s = times3(k, radius - d, dt);
    if off.get_x() == 0 && off.get_y() == 0 {
        if first {
            Vector2::from_components(-s, 0)
        } else {
            Vector2::from_components(s, 0)
        }
    } else {
        off.set_magnitude_vector(s)
    }
}

/// The pointer's change of velocity on a particle at `p`.
pub fn pointer_impulse(
    p: &Vector2,
    q: &Vector2,
    attract: bool,
    radius: i64,
    strength: i64,
    dt: i64,
) -> (r: Vector2)
    requires
        in_range(radius as int),
        in_range(strength as int),
        in_range(dt as int),
    ensures
        r@ == pointer_dv(p@, q@, attract, radius as int, strength as int, dt as int),
{
    let off = q.subtract_vector(p);
    let d = off.get_magnitude();
    if radius <= 0 || d > radius || (off.get_x() == 0 && off.get_y() == 0) {
        return Vector2::new();
    }
    let amount = crate::fixed::mul_div(times(strength, dt), radius - d, radius);
    let v = off.set_magnitude_vector(amount);
    if attract {
        v
    } else {
        v.reverse_vector()
    }
}

/// The push of one wall.
pub fn wall_push(dist: i64, margin: i64, r: i64, strength: i64, dt: i64) -> (res: i64)
    requires
        -3 * LIMIT <= dist <= 3 * LIMIT,
        0 <= margin <= LIMIT,
        0 <= r <= LIMIT,
        in_range(strength as int),
        in_range(dt as int),
    ensures
        res == edge_push(dist as int, margin as int, r as int, strength as int, dt as int),
        out_of_reach(dist as int, margin as int, r as int) ==> res == 0,
        in_range(res as int),
{
    if dist >= margin || dist < -(margin + r) {
        0
    } else if dist <= 0 {
        times3(strength, margin, dt)
    } else {
        times3(strength, margin - dist, dt)
    }
}

/// The pushes of all four walls; an axis whose two walls are both out of
/// reach gets no push.
pub fn edge_impulse(
    p: &Vector2,
    r: i64,
    w: i64,
    h: i64,
    margin: i64,
    strength: i64,
    dt: i64,
) -> (res: Vector2)
    requires
        0 <= r <= LIMIT,
        0 <= w <= LIMIT,
        0 <= h <= LIMIT,
        0 <= margin <= LIMIT,
        in_range(strength as int),
        in_range(dt as int),
    ensures
        res@ == edge_dv(p@, r as int, w as int, h as int, margin as int, strength as int, dt as int),
        out_of_reach(p@.0 - r, margin as int, r as int) && out_of_reach(
            w - r - p@.0,
            margin as int,
            r as int,
        ) ==> res@.0 == 0,
        out_of_reach(p@.1 - r, margin as int, r as int) && out_of_reach(
            h - r - p@.1,
            margin as int,
            r as int,
        ) ==> res@.1 == 0,
{
    let (x, y) = (p.get_x(), p.get_y());
    let left = wall_push(x - r, margin, r, strength, dt);
    let right = wall_push(w - r - x, margin, r, strength, dt);
    let bottom = wall_push(y - r, margin, r, strength, dt);
    let top = wall_push(h - r - y, margin, r, strength, dt);
    Vector2::from_components(minus(left, right), minus(bottom, top))
}

/// One axis of the wall response.
pub fn bounce_axis(x: i64, v: i64, lo: i64, hi: i64, e: i64) -> (r: (i64, i64))
    requires
        in_range(x as int),
        in_range(v as int),
        in_range(lo as int),
        in_range(hi as int),
        in_range(e as int),
    ensures
        (r.0 as int, r.1 as int) == bounce(x as int, v as int, lo as int, hi as int, e as int),
        in_range(r.0 as int),
        in_range(r.1 as int),
{
    if x < lo {
        (lo, -times(e, v))
    } else if x > hi {
        (hi, -times(e, v))
    } else {
        (x, v)
    }
}

} // verus!
