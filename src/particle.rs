//! A particle, its validation, and its own part of a tick: the forces that
//! depend on nothing but itself, integration, and the wall response.
use crate::fixed::{clamp, in_range, saturate, LIMIT, ONE};
use crate::forces::{
    bounce, bounce_axis, drag_dv, drag_impulse, edge_dv, edge_impulse, gravity_dv, out_of_reach,
    gravity_impulse,
};
use crate::simulation::{valid_config, SetupError, SimulationConfig};
use crate::vector::{magnitude, vscale, vsum, Vector2};
use vstd::prelude::*;

verus! {

/// The largest radius, in whole units, that a particle can have.
pub const MAX_RADIUS: u32 = 2_000_000;

/// A point mass with a size; the color is what a renderer was asked to use.
#[derive(Clone, Copy, PartialEq, Eq, Debug)]
pub struct Particle {
    pub position: Vector2,
    pub radius: u32,
    pub mass: i64,
    pub velocity: Vector2,
    pub color: (u8, u8, u8, u8),
}

/// A particle that a simulation accepts: positive mass and radius, both in
/// range.
pub open spec fn valid_particle(p: Particle) -> bool {
    0 < p.mass <= LIMIT && 0 < p.radius <= MAX_RADIUS
}

/// Which check a particle fails first, if any.
pub open spec fn particle_error(p: Particle) -> Option<SetupError> {
    if p.mass <= 0 {
        Some(SetupError::NonPositiveMass)
    } else if p.radius == 0 {
        Some(SetupError::NonPositiveRadius)
    } else if p.mass > LIMIT || p.radius > MAX_RADIUS {
        Some(SetupError::OutOfRange)
    } else {
        None
    }
}

/// The radius in raw scalar units.
pub open spec fn radius_of(p: Particle) -> int {
    p.radius * ONE
}

/// The change of velocity from the forces that act on a particle alone:
/// gravity, drag and the walls' soft push.
pub open spec fn own_dv(c: SimulationConfig, p: Particle, dt: int) -> (int, int) {
    vsum(
        vsum(gravity_dv(c.gravity as int, p.mass as int, dt), drag_dv(p.velocity@, p.mass as int, c.drag as int, dt)),
        edge_dv(p.position@, radius_of(p), c.width as int, c.height as int, c.edge_margin as int, c.edge_strength as int, dt),
    )
}

/// Semi-implicit Euler: the velocity takes the change `dv`, then the position
/// moves by the new velocity times `dt`.
pub open spec fn integrated(p: Particle, dv: (int, int), dt: int) -> ((int, int), (int, int)) {
    let v = vsum(p.velocity@, dv);
    (vsum(p.position@, vscale(v, dt)), v)
}

/// The wall response on both axes, independently, for a particle of raw
/// radius `r` at `x` moving at `v`.
pub open spec fn contained(c: SimulationConfig, r: int, x: (int, int), v: (int, int)) -> ((int, int), (int, int)) {
    let bx = bounce(x.0, v.0, r, c.width - r, c.restitution as int);
    let by = bounce(x.1, v.1, r, c.height - r, c.restitution as int);
    ((bx.0, by.0), (bx.1, by.1))
}

/// Position and velocity after a tick in which `p` takes the change `dv`.
pub open spec fn advanced(c: SimulationConfig, p: Particle, dv: (int, int), dt: int) -> ((int, int), (int, int)) {
    let (x, v) = integrated(p, dv, dt);
    contained(c, radius_of(p), x, v)
}

/// The red channel of the speed color: `255` at a speed of 7.5 units and
/// above, falling linearly to `0` at rest.
pub open spec fn red_of(speed: int) -> int {
    let t = speed * 34 / ONE as int;
    if t > 255 {
        255
    } else {
        t
    }
}

/// The blue channel of the speed color: `255` at rest, falling linearly to
/// `0` at a speed of 7.5 units.
pub open spec fn blue_of(speed: int) -> int {
    let t = 255 * ONE - speed * 34;
    if t <= 0 {
        0
    } else {
        t / ONE as int
    }
}

impl Particle {
    /// A particle at rest.
    pub fn new(position: Vector2, radius: u32, mass: i64, rgba: (u8, u8, u8, u8)) -> (r: Particle)
        ensures
            r.position == position,
            r.radius == radius,
            r.mass == mass,
            r.velocity@ == (0int, 0int),
            r.color == rgba,
    {
        Particle { position, radius, mass, velocity: Vector2::new(), color: rgba }
    }

    /// Checks mass and radius: each must be positive and in range.
    pub fn validate(&self) -> (r: Result<(), SetupError>)
        ensures
            r is Ok <==> valid_particle(*self),
            r is Err ==> particle_error(*self) == Some(r->Err_0),
            r is Ok ==> particle_error(*self) is None,
    {
        if self.mass <= 0 {
            Err(SetupError::NonPositiveMass)
        } else if self.radius == 0 {
            Err(SetupError::NonPositiveRadius)
        } else if self.mass > LIMIT || self.radius > MAX_RADIUS {
            Err(SetupError::OutOfRange)
        } else {
            Ok(())
        }
    }

    /// The radius in raw scalar units.
    pub fn raw_radius(&self) -> (r: i64)
        requires
            self.radius <= MAX_RADIUS,
        ensures
            r == radius_of(*self),
            0 <= r <= LIMIT,
    {
        self.radius as i64 * ONE
    }

    /// One tick of a particle on its own: gravity, drag and the walls' soft
    /// push, then integration and the wall response.
    pub fn calculate(&mut self, dt: i64, config: &SimulationConfig)
        requires
            valid_particle(*old(self)),
            valid_config(*config),
        ensures
            final(self).radius == old(self).radius,
            final(self).mass == old(self).mass,
            final(self).color == old(self).color,
            (final(self).position@, final(self).velocity@) == advanced(
                *config,
                *old(self),
                own_dv(*config, *old(self), clamp(dt as int)),
                clamp(dt as int),
            ),
    {
        let dt = saturate(dt);
        let dv = self.own_impulse(dt, config);
        self.advance(&dv, dt, config);
    }

    /// The change of velocity from the forces that act on this particle alone.
    pub fn own_impulse(&self, dt: i64, config: &SimulationConfig) -> (r: Vector2)
        requires
            valid_particle(*self),
            valid_config(*config),
            in_range(dt as int),
        ensures
            r@ == own_dv(*config, *self, dt as int),
    {
        let g = self.gravity(dt, config);
        let d = self.drag(dt, config);
        let e = self.calculate_border_repulsiveness(dt, config);
        g.add_vector(&d).add_vector(&e)
    }

    /// Takes the change `dv`, moves, and meets the walls.
    pub fn advance(&mut self, dv: &Vector2, dt: i64, config: &SimulationConfig)
        requires
            valid_particle(*old(self)),
            valid_config(*config),
            in_range(dt as int),
        ensures
            final(self).radius == old(self).radius,
            final(self).mass == old(self).mass,
            final(self).color == old(self).color,
            (final(self).position@, final(self).velocity@) == advanced(*config, *old(self), dv@, dt as int),
    {
        self.velocity.add(dv);
        self.update_position(dt);
        self.check_boundaries(config);
    }

    /// Gravity's change of velocity on this particle.
    pub fn gravity(&self, dt: i64, config: &SimulationConfig) -> (r: Vector2)
        requires
            valid_particle(*self),
            valid_config(*config),
            in_range(dt as int),
        ensures
            r@ == gravity_dv(config.gravity as int, self.mass as int, dt as int),
    {
        gravity_impulse(config.gravity, self.mass, dt)
    }

    /// Drag's change of velocity on this particle.
    pub fn drag(&self, dt: i64, config: &SimulationConfig) -> (r: Vector2)
        requires
            valid_particle(*self),
            valid_config(*config),
            in_range(dt as int),
        ensures
            r@ == drag_dv(self.velocity@, self.mass as int, config.drag as int, dt as int),
    {
        drag_impulse(&self.velocity, self.mass, config.drag, dt)
    }

    /// The walls' soft push on this particle. Along an axis on which the
    /// particle is clear of both walls' margins, or more than margin plus
    /// radius beyond a wall, there is none.
    pub fn calculate_border_repulsiveness(&self, dt: i64, config: &SimulationConfig) -> (r: Vector2)
        requires
            valid_particle(*self),
            valid_config(*config),
            in_range(dt as int),
        ensures
            r@ == edge_dv(
                self.position@,
                radius_of(*self),
                config.width as int,
                config.height as int,
                config.edge_margin as int,
                config.edge_strength as int,
                dt as int,
            ),
            out_of_reach(self.position@.0 - radius_of(*self), config.edge_margin as int, radius_of(*self))
                && out_of_reach(
                config.width - radius_of(*self) - self.position@.0,
                config.edge_margin as int,
                radius_of(*self),
            ) ==> r@.0 == 0,
            out_of_reach(self.position@.1 - radius_of(*self), config.edge_margin as int, radius_of(*self))
                && out_of_reach(
                config.height - radius_of(*self) - self.position@.1,
                config.edge_margin as int,
                radius_of(*self),
            ) ==> r@.1 == 0,
    {
        edge_impulse(
            &self.position,
            self.raw_radius(),
            config.width,
            config.height,
            config.edge_margin,
            config.edge_strength,
            dt,
        )
    }

    /// Moves the particle by its velocity times `dt`.
    pub fn update_position(&mut self, dt: i64)
        requires
            in_range(dt as int),
        ensures
            final(self).position@ == vsum(old(self).position@, vscale(old(self).velocity@, dt as int)),
            final(self).velocity == old(self).velocity,
            final(self).radius == old(self).radius,
            final(self).mass == old(self).mass,
            final(self).color == old(self).color,
    {
        let step = self.velocity.multiply_scalar_vector(dt);
        self.position.add(&step);
    }

    /// The wall response on both axes.
    pub fn check_boundaries(&mut self, config: &SimulationConfig)
        requires
            valid_particle(*old(self)),
            valid_config(*config),
        ensures
            (final(self).position@, final(self).velocity@) == contained(
                *config,
                radius_of(*old(self)),
                old(self).position@,
                old(self).velocity@,
            ),
            final(self).radius == old(self).radius,
            final(self).mass == old(self).mass,
            final(self).color == old(self).color,
    {
        let r = self.raw_radius();
        let e = config.restitution;
        let (x, vx) = bounce_axis(
            self.position.get_x(),
            self.velocity.get_x(),
            r,
            config.width - r,
            e,
        );
        let (y, vy) = bounce_axis(
            self.position.get_y(),
            self.velocity.get_y(),
            r,
            config.height - r,
            e,
        );
        self.position = Vector2::from_components(x, y);
        self.velocity = Vector2::from_components(vx, vy);
    }

    /// The color that shows the particle's speed: red grows and blue fades
    /// as it speeds up.
    pub fn speed_color(&self) -> (r: (u8, u8, u8, u8))
        ensures
            r.0 == red_of(magnitude(self.velocity@)),
            r.1 == 0,
            r.2 == blue_of(magnitude(self.velocity@)),
            r.3 == 255,
    {
        let speed = self.velocity.get_magnitude();
        let t = speed as i128 * 34;
        let red: u8 = if t / (ONE as i128) > 255 {
            255
        } else {
            (t / (ONE as i128)) as u8
        };
        let b = 255 * (ONE as i128) - t;
        let blue: u8 = if b <= 0 {
            0
        } else {
            (b / (ONE as i128)) as u8
        };
        (red, 0, blue, 255)
    }
}

} // verus!
