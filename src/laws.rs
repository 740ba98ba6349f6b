//! Properties of the kernel that span several of its functions, proved from
//! the same definitions that their contracts use.
use crate::fixed::{
    in_range, is_root_quotient, lemma_root_div, lemma_root_quotient_unique, product, product3,
    root_div, tdiv, LIMIT, ONE,
};
use crate::forces::{drag_amount, drag_dv, edge_dv, edge_push, repulsion_amount, repulsion_dv};
use crate::particle::{advanced, integrated, own_dv, radius_of, valid_particle, Particle};
use crate::simulation::{
    admitted, all_valid, is_tick, next_state, repulsion_total, survivors, valid_config,
    PointerEvent, SimulationConfig,
};
use crate::vector::{
    direction_of, in_range2, lemma_direction_nonzero, lemma_magnitude_bounds, norm2, resized,
    vdiff, vscale, vsum,
};
use vstd::prelude::*;

verus! {

/// Both vectors of `p` lie in the scalar range, as those of every particle do.
pub open spec fn particle_in_range(p: Particle) -> bool {
    in_range2(p.position@) && in_range2(p.velocity@)
}

/// `p` lies between the walls of the domain.
pub open spec fn within_walls(c: SimulationConfig, p: Particle) -> bool {
    let r = radius_of(p);
    &&& r <= p.position@.0 <= c.width - r
    &&& r <= p.position@.1 <= c.height - r
}

/// Rescaling any vector to magnitude zero gives the zero vector, whatever
/// direction a zero vector is given.
pub proof fn lemma_resized_to_zero(v: (int, int))
    requires
        in_range2(v),
    ensures
        resized(v, 0) == (0int, 0int),
{
    let b = direction_of(v);
    lemma_direction_nonzero(v);
    assert(b.0 * 0 == 0 && b.1 * 0 == 0);
    lemma_root_div(0, norm2(b));
}

/// With no time passing, no particle pushes another.
proof fn lemma_no_push_without_time(
    c: SimulationConfig,
    snap: Seq<Particle>,
    i: int,
    n: nat,
)
    requires
        valid_config(c),
        0 <= i < snap.len(),
        n <= snap.len(),
    ensures
        repulsion_total(c, snap, i, 0, n) == (0int, 0int),
    decreases n,
{
    if n > 0 {
        lemma_no_push_without_time(c, snap, i, (n - 1) as nat);
        let j = n - 1;
        if j != i {
            let off = vdiff(snap[i].position@, snap[j].position@);
            lemma_resized_to_zero(off);
            let d = crate::vector::magnitude(off);
            let k = c.repulsion_strength as int;
            let r = c.repulsion_radius as int;
            assert(k * (r - d) * 0 == 0);
            assert(repulsion_amount(d, r, k, 0) == 0);
        }
    }
}

/// A step of length zero leaves the position and velocity of every particle
/// as they were, provided each lies between the walls (a particle outside
/// them is put back on them by any step).
pub proof fn lemma_zero_step(
    c: SimulationConfig,
    before: Seq<Particle>,
    after: Seq<Particle>,
    ev: PointerEvent,
)
    requires
        valid_config(c),
        all_valid(before),
        forall|i: int| 0 <= i < before.len() ==> particle_in_range(#[trigger] before[i]),
        forall|i: int| 0 <= i < before.len() ==> within_walls(c, #[trigger] before[i]),
        in_range2(ev.position@),
        is_tick(c, before, after, 0, ev),
    ensures
        after.len() == before.len(),
        forall|i: int|
            0 <= i < after.len() ==> (#[trigger] after[i]).position@ == before[i].position@
                && after[i].velocity@ == before[i].velocity@,
{
    assert forall|i: int| 0 <= i < after.len() implies (#[trigger] after[i]).position@
        == before[i].position@ && after[i].velocity@ == before[i].velocity@ by {
        lemma_state_without_time(c, before, i, ev);
    }
}

/// One particle's state after a step of length zero.
proof fn lemma_state_without_time(
    c: SimulationConfig,
    snap: Seq<Particle>,
    i: int,
    ev: PointerEvent,
)
    requires
        valid_config(c),
        all_valid(snap),
        0 <= i < snap.len(),
        particle_in_range(snap[i]),
        within_walls(c, snap[i]),
        in_range2(ev.position@),
    ensures
        next_state(c, snap, i, 0, ev) == (snap[i].position@, snap[i].velocity@),
{
    let p = snap[i];
    assert(valid_particle(p));
    let v = p.velocity@;
    lemma_own_without_time(c, p);
    let off = vdiff(ev.position@, p.position@);
    lemma_resized_to_zero(off);
    let pr = c.pointer_radius as int;
    let ps = c.pointer_strength as int;
    assert(ps * 0 == 0);
    if pr > 0 {
        let d = crate::vector::magnitude(off);
        assert(tdiv(0 * (pr - d), pr) == 0) by (nonlinear_arith)
            requires
                pr > 0,
        ;
    }
    lemma_no_push_without_time(c, snap, i, snap.len());
    assert(v.0 * 0 == 0 && v.1 * 0 == 0);
    assert(vscale(v, 0) == (0int, 0int));
}

/// With no time passing, the forces on a particle alone change nothing.
proof fn lemma_own_without_time(c: SimulationConfig, p: Particle)
    requires
        valid_config(c),
        valid_particle(p),
        particle_in_range(p),
    ensures
        own_dv(c, p, 0) == (0int, 0int),
{
    let v = p.velocity@;
    lemma_magnitude_bounds(v);
    let g = c.gravity as int;
    let m = p.mass as int;
    assert(g * m * 0 == 0);
    let speed = crate::fixed::clamp(crate::vector::magnitude(v));
    let dc = c.drag as int;
    assert(speed * m * dc * 0 == 0);
    assert(product3(speed, m, dc) * 0 == 0);
    lemma_resized_to_zero((-v.0, -v.1));
    let es = c.edge_strength as int;
    let margin = c.edge_margin as int;
    assert(es * margin * 0 == 0);
}

/// A particle alone between the walls, stepped by zero time with
/// `calculate`, keeps its position and velocity.
pub proof fn lemma_calculate_zero_step(c: SimulationConfig, p: Particle)
    requires
        valid_config(c),
        valid_particle(p),
        particle_in_range(p),
        within_walls(c, p),
    ensures
        advanced(c, p, own_dv(c, p, 0), 0) == (p.position@, p.velocity@),
{
    lemma_own_without_time(c, p);
    let v = p.velocity@;
    assert(v.0 * 0 == 0 && v.1 * 0 == 0);
    assert(vscale(v, 0) == (0int, 0int));
}

/// A wall with no strength pushes nothing.
proof fn lemma_wall_without_strength(d: int, margin: int, r: int, dt: int)
    ensures
        edge_push(d, margin, r, 0, dt) == 0,
{
    assert(0 * margin * dt == 0);
    assert(0 * (margin - d) * dt == 0);
}

/// The forces on a particle at rest, alone, with no drag and no soft walls:
/// gravity's alone.
proof fn lemma_own_at_rest(c: SimulationConfig, p: Particle, dt: int)
    requires
        valid_config(c),
        valid_particle(p),
        particle_in_range(p),
        in_range(dt),
        p.velocity@ == (0int, 0int),
        c.drag == 0,
        c.edge_strength == 0,
    ensures
        own_dv(c, p, dt) == (0int, -product3(c.gravity as int, p.mass as int, dt)),
{
    let m = p.mass as int;
    let speed = crate::fixed::clamp(crate::vector::magnitude(p.velocity@));
    lemma_magnitude_bounds(p.velocity@);
    assert(speed * m * 0 == 0);
    lemma_resized_to_zero((-p.velocity@.0, -p.velocity@.1));
    let r = radius_of(p);
    let margin = c.edge_margin as int;
    lemma_wall_without_strength(p.position@.0 - r, margin, r, dt);
    lemma_wall_without_strength(c.width - r - p.position@.0, margin, r, dt);
    lemma_wall_without_strength(p.position@.1 - r, margin, r, dt);
    lemma_wall_without_strength(c.height - r - p.position@.1, margin, r, dt);
    assert(edge_dv(p.position@, r, c.width as int, c.height as int, margin, 0, dt) == (0int, 0int));
    assert(product3(speed, m, 0) == 0);
    assert(0 * dt == 0);
    assert(product(0, dt) == 0);
    assert(drag_amount(p.velocity@, m, 0, dt) == 0);
}

/// A particle at rest, alone, with no drag and no soft walls, stepped with
/// `calculate`, falls: its vertical velocity drops by exactly
/// `gravity * mass * dt` and it moves by that velocity times `dt`, as long as
/// that keeps it between the walls.
pub proof fn lemma_calculate_free_fall(c: SimulationConfig, p: Particle, dt: int)
    requires
        valid_config(c),
        valid_particle(p),
        particle_in_range(p),
        in_range(dt),
        p.velocity@ == (0int, 0int),
        c.drag == 0,
        c.edge_strength == 0,
        ({
            let x = vsum(p.position@, vscale((0int, -product3(c.gravity as int, p.mass as int, dt)), dt));
            let r = radius_of(p);
            r <= x.0 <= c.width - r && r <= x.1 <= c.height - r
        }),
    ensures
        ({
            let v = (0int, -product3(c.gravity as int, p.mass as int, dt));
            advanced(c, p, own_dv(c, p, dt), dt) == (vsum(p.position@, vscale(v, dt)), v)
        }),
{
    lemma_own_at_rest(c, p, dt);
}

/// A particle at rest, alone, with no pointer, no drag and no soft walls,
/// falls: its vertical velocity drops by exactly `gravity * mass * dt` and
/// it moves by that velocity times `dt`, as long as that keeps it between the
/// walls.
pub proof fn lemma_free_fall(
    c: SimulationConfig,
    p: Particle,
    dt: int,
    ev: PointerEvent,
)
    requires
        valid_config(c),
        valid_particle(p),
        particle_in_range(p),
        in_range(dt),
        p.velocity@ == (0int, 0int),
        c.drag == 0,
        c.edge_strength == 0,
        !ev.active,
        ({
            let x = vsum(p.position@, vscale((0int, -product3(c.gravity as int, p.mass as int, dt)), dt));
            let r = radius_of(p);
            r <= x.0 <= c.width - r && r <= x.1 <= c.height - r
        }),
    ensures
        ({
            let v = (0int, -product3(c.gravity as int, p.mass as int, dt));
            next_state(c, seq![p], 0, dt, ev) == (vsum(p.position@, vscale(v, dt)), v)
        }),
{
    let snap = seq![p];
    lemma_own_at_rest(c, p, dt);
    assert(repulsion_total(c, snap, 0, dt, 1) == (0int, 0int)) by {
        reveal_with_fuel(repulsion_total, 2);
    }
}

/// One component of drag's change: never more than the component itself,
/// and against it.
proof fn lemma_drag_component(x: int, s: int, n: int)
    requires
        0 <= s,
        s * s <= n,
        x * x <= n,
        n >= 1,
    ensures
        x >= 0 ==> 0 <= x + root_div(-x * s, n) <= x,
        x <= 0 ==> x <= x + root_div(-x * s, n) <= 0,
{
    lemma_root_div(-x * s, n);
    let c = root_div(-x * s, n);
    let q = crate::fixed::abs(c);
    let y = crate::fixed::abs(x);
    assert((-x * s) * (-x * s) <= y * y * n) by (nonlinear_arith)
        requires
            s >= 0,
            s * s <= n,
            y == x || y == -x,
    ;
    if q > y {
        assert(q * q * n > y * y * n) by (nonlinear_arith)
            requires
                q > y,
                y >= 0,
                n >= 1,
        ;
    }
    assert(-x * s <= 0 <==> x * s >= 0) by (nonlinear_arith);
    assert(x >= 0 ==> x * s >= 0) by (nonlinear_arith)
        requires
            s >= 0,
    ;
    assert(x <= 0 ==> x * s <= 0) by (nonlinear_arith)
        requires
            s >= 0,
    ;
}

/// Drag never overshoots: with a coefficient and a step that are not
/// negative, each component of the velocity keeps its sign or becomes zero,
/// and never grows.
pub proof fn lemma_drag_never_reverses(v: (int, int), mass: int, c: int, dt: int)
    requires
        in_range2(v),
        0 < mass <= LIMIT,
        0 <= c <= LIMIT,
        0 <= dt <= LIMIT,
    ensures
        ({
            let w = vsum(v, drag_dv(v, mass, c, dt));
            &&& v.0 >= 0 ==> 0 <= w.0 <= v.0
            &&& v.0 <= 0 ==> v.0 <= w.0 <= 0
            &&& v.1 >= 0 ==> 0 <= w.1 <= v.1
            &&& v.1 <= 0 ==> v.1 <= w.1 <= 0
        }),
{
    lemma_magnitude_bounds(v);
    let m = crate::vector::magnitude(v);
    let speed = crate::fixed::clamp(m);
    let t = product3(speed, mass, c);
    assert(speed * mass * c >= 0) by (nonlinear_arith)
        requires
            speed >= 0,
            mass > 0,
            c >= 0,
    ;
    crate::fixed::lemma_tdiv_bound(speed * mass * c, ONE * ONE);
    assert(t * dt >= 0) by (nonlinear_arith)
        requires
            t >= 0,
            dt >= 0,
    ;
    crate::fixed::lemma_tdiv_bound(t * dt, ONE as int);
    let s = drag_amount(v, mass, c, dt);
    assert(0 <= s <= speed);
    if v == (0int, 0int) {
        assert(s == 0);
        lemma_resized_to_zero((-v.0, -v.1));
    } else {
        let w = (-v.0, -v.1);
        assert(w != (0int, 0int));
        assert(direction_of(w) == w);
        let n = norm2(w);
        assert(n == v.0 * v.0 + v.1 * v.1) by (nonlinear_arith)
            requires
                n == (-v.0) * (-v.0) + (-v.1) * (-v.1),
        ;
        crate::fixed::lemma_le_root(v.0, v.1);
        assert(s * s <= n) by (nonlinear_arith)
            requires
                0 <= s <= m,
                m * m <= n,
        ;
        assert(v.0 * v.0 <= n && v.1 * v.1 <= n) by (nonlinear_arith)
            requires
                n == v.0 * v.0 + v.1 * v.1,
        ;
        assert(w.0 * s == -v.0 * s && w.1 * s == -v.1 * s);
        lemma_direction_nonzero(w);
        lemma_drag_component(v.0, s, n);
        lemma_drag_component(v.1, s, n);
    }
}

/// A particle that integration carries past the left wall by `d` is put
/// back on that wall, at `x` equal to its radius, and its horizontal
/// velocity is turned around and scaled by the restitution.
pub proof fn lemma_left_wall(
    c: SimulationConfig,
    p: Particle,
    dv: (int, int),
    dt: int,
    d: int,
)
    requires
        valid_config(c),
        valid_particle(p),
        d > 0,
        integrated(p, dv, dt).0.0 == radius_of(p) - d,
    ensures
        advanced(c, p, dv, dt).0.0 == radius_of(p),
        advanced(c, p, dv, dt).1.0 == -product(c.restitution as int, integrated(p, dv, dt).1.0),
{
}

/// The push on a particle at the origin from one at `(d, 0)`: its size, along
/// negative `x`.
proof fn lemma_push_on_axis(radius: int, k: int, dt: int, d: int)
    requires
        0 <= d <= LIMIT,
        0 <= radius <= LIMIT,
        k >= 0,
        dt >= 0,
    ensures
        repulsion_dv((0, 0), (d, 0), true, radius, k, dt) == (
            -repulsion_amount(d, radius, k, dt),
            0int,
        ),
        repulsion_amount(d, radius, k, dt) >= 0,
{
    let off = vdiff((0, 0), (d, 0));
    assert(off == (-d, 0int));
    assert((-d) * (-d) + 0 * 0 == d * d) by (nonlinear_arith);
    crate::fixed::lemma_root_of_square(d);
    let s = repulsion_amount(d, radius, k, dt);
    if d <= radius {
        assert(k * (radius - d) * dt >= 0) by (nonlinear_arith)
            requires
                k >= 0,
                radius - d >= 0,
                dt >= 0,
        ;
        crate::fixed::lemma_tdiv_bound(k * (radius - d) * dt, ONE * ONE);
    }
    if d > 0 && d <= radius {
        assert(off != (0int, 0int));
        assert(direction_of(off) == off);
        let n = norm2(off);
        assert(n == d * d) by (nonlinear_arith)
            requires
                n == (-d) * (-d) + 0 * 0,
        ;
        assert(d * d >= 1) by (nonlinear_arith)
            requires
                d > 0,
        ;
        assert(is_root_quotient(-s, -d * s, n)) by {
            assert(s * s * n <= (-d * s) * (-d * s) && (-d * s) * (-d * s) < (s + 1) * (s + 1) * n) by (nonlinear_arith)
                requires
                    n == d * d,
                    d > 0,
                    s >= 0,
            ;
            assert(-d * s <= 0 && (-d * s >= 0 ==> s == 0)) by (nonlinear_arith)
                requires
                    d > 0,
                    s >= 0,
            ;
            assert(crate::fixed::abs(-s) == s);
        }
        lemma_root_quotient_unique(-s, -d * s, n);
        assert(0 * s == 0);
        lemma_root_div(0, n);
    }
}

/// The size of the push on a particle at the origin from one at `(d, 0)`.
pub open spec fn axis_push(d: int, radius: int, k: int, dt: int) -> int {
    -repulsion_dv((0, 0), (d, 0), true, radius, k, dt).0
}

/// Two particles on the `x` axis at distance `d`: the push between them is
/// zero from the interaction radius on, never shrinks as they come closer,
/// and grows strictly when they come closer by at least one step of the
/// scalars' resolution (`k * dt * (d2 - d1)` of at least one unit squared)
/// and the push is below saturation.
pub proof fn lemma_repulsion_monotone(radius: int, k: int, dt: int, d1: int, d2: int)
    requires
        0 <= d1 < d2 <= LIMIT,
        0 <= radius <= LIMIT,
        0 <= k <= LIMIT,
        0 <= dt <= LIMIT,
    ensures
        repulsion_dv((0, 0), (d2, 0), true, radius, k, dt).1 == 0,
        0 <= axis_push(d2, radius, k, dt) <= axis_push(d1, radius, k, dt),
        d2 >= radius ==> repulsion_dv((0, 0), (d2, 0), true, radius, k, dt) == (0int, 0int),
        d2 < radius && k * dt * (d2 - d1) >= ONE * ONE && k * (radius - d1) * dt < LIMIT * ONE
            * ONE ==> axis_push(d2, radius, k, dt) < axis_push(d1, radius, k, dt),
{
    lemma_push_on_axis(radius, k, dt, d1);
    lemma_push_on_axis(radius, k, dt, d2);
    let n = ONE * ONE;
    if d2 == radius {
        assert(k * (radius - d2) * dt == 0) by (nonlinear_arith)
            requires
                radius - d2 == 0,
        ;
    }
    if d2 <= radius {
        let x1 = k * (radius - d1) * dt;
        let x2 = k * (radius - d2) * dt;
        assert(x1 - x2 == k * dt * (d2 - d1)) by (nonlinear_arith)
            requires
                x1 == k * (radius - d1) * dt,
                x2 == k * (radius - d2) * dt,
        ;
        assert(x2 >= 0 && k * dt * (d2 - d1) >= 0) by (nonlinear_arith)
            requires
                k >= 0,
                dt >= 0,
                radius - d2 >= 0,
                d2 - d1 > 0,
                x2 == k * (radius - d2) * dt,
        ;
        crate::fixed::lemma_tdiv_monotone(x2, x1, n);
        crate::fixed::lemma_tdiv_bound(x2, n);
        crate::fixed::lemma_clamp_monotone(tdiv(x2, n), tdiv(x1, n));
        assert(repulsion_amount(d1, radius, k, dt) == crate::fixed::clamp(tdiv(x1, n)));
        assert(repulsion_amount(d2, radius, k, dt) == crate::fixed::clamp(tdiv(x2, n)));
        if k * dt * (d2 - d1) >= n && x1 < LIMIT * n {
            assert(x2 / n < x1 / n && x1 / n <= LIMIT) by (nonlinear_arith)
                requires
                    x2 >= 0,
                    x1 - x2 >= n,
                    x1 < LIMIT * n,
                    n == 1_000_000,
            ;
        }
    }
}

/// A spawned particle joins last, after every particle already there or
/// already asked for; nothing else moves.
pub proof fn lemma_spawn_joins_last(
    ps: Seq<Particle>,
    removed: Seq<usize>,
    spawned: Seq<Particle>,
    p: Particle,
)
    ensures
        admitted(ps, removed, spawned.push(p)) == admitted(ps, removed, spawned).push(p),
{
    assert(survivors(ps, removed) + spawned.push(p) =~= (survivors(ps, removed) + spawned).push(p));
}

/// With no removal asked for, the population keeps every particle at its
/// index.
pub proof fn lemma_no_removal_keeps_all(ps: Seq<Particle>)
    ensures
        survivors(ps, Seq::empty()) == ps,
    decreases ps.len(),
{
    if ps.len() > 0 {
        let n = ps.len() - 1;
        lemma_no_removal_keeps_all(ps.take(n as int));
        assert(ps.take(n as int).push(ps[n as int]) =~= ps);
    }
}

/// Removing the particle at index `i` takes out that particle alone: those
/// before it keep their index and those after it their order.
pub proof fn lemma_removal_takes_one(ps: Seq<Particle>, i: usize)
    requires
        i < ps.len() <= usize::MAX,
    ensures
        survivors(ps, seq![i]) == ps.remove(i as int),
    decreases ps.len(),
{
    let n = ps.len() - 1;
    let front = ps.take(n as int);
    lemma_single_index(i, n as usize);
    if i as int == n {
        lemma_survivors_without(front, i);
        assert(front =~= ps.remove(i as int));
    } else {
        lemma_removal_takes_one(front, i);
        lemma_single_index(i, n as usize);
        assert(front.remove(i as int).push(ps[n as int]) =~= ps.remove(i as int));
    }
}

/// A one-index request names that index alone.
proof fn lemma_single_index(i: usize, x: usize)
    ensures
        seq![i].contains(x) <==> x == i,
{
    if x == i {
        assert(seq![i][0] == x);
    } else {
        assert forall|k: int| 0 <= k < seq![i].len() implies seq![i][k] != x by {
            assert(seq![i][k] == i);
        }
    }
}

/// Removing an index beyond a sequence keeps all of it.
proof fn lemma_survivors_without(ps: Seq<Particle>, i: usize)
    requires
        ps.len() <= i,
    ensures
        survivors(ps, seq![i]) == ps,
    decreases ps.len(),
{
    if ps.len() > 0 {
        let n = ps.len() - 1;
        lemma_survivors_without(ps.take(n as int), i);
        lemma_single_index(i, n as usize);
        assert(ps.take(n as int).push(ps[n as int]) =~= ps);
    }
}

/// A tick never changes the population: the particle at each index after it
/// is the one at that index before it, with its size, mass and color.
pub proof fn lemma_tick_keeps_identity(
    c: SimulationConfig,
    before: Seq<Particle>,
    after: Seq<Particle>,
    dt: int,
    ev: PointerEvent,
)
    requires
        is_tick(c, before, after, dt, ev),
    ensures
        after.len() == before.len(),
        forall|i: int|
            0 <= i < after.len() ==> (#[trigger] after[i]).radius == before[i].radius
                && after[i].mass == before[i].mass && after[i].color == before[i].color,
{
}

} // verus!
