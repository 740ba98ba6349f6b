//! The simulation: its configuration, the pointer events it takes, and the
//! tick that moves a whole population at once.
use crate::fixed::{clamp, in_range, saturate, LIMIT};
use crate::forces::{pointer_dv, pointer_impulse, repulsion_dv, repulsion_impulse};
use crate::particle::{advanced, own_dv, particle_error, radius_of, valid_particle, Particle};
use crate::vector::{distance, vsum, Vector2};
use vstd::prelude::*;

verus! {

/// Why a configuration or a particle was refused.
#[derive(Clone, Copy, PartialEq, Eq, Debug)]
pub enum SetupError {
    NonPositiveMass,
    NonPositiveRadius,
    NegativeBounds,
    OutOfRange,
}

/// The tuning of a simulation. Every field is a fixed-point scalar.
#[derive(Clone, Copy, PartialEq, Eq, Debug)]
pub struct SimulationConfig {
    /// Acceleration of gravity, toward negative `y`.
    pub gravity: i64,
    /// Drag coefficient: the share of speed per unit of mass and time that
    /// drag takes away.
    pub drag: i64,
    /// Distance within which two particles push each other apart.
    pub repulsion_radius: i64,
    /// How hard two particles push per unit of overlap and time.
    pub repulsion_strength: i64,
    /// Share of speed kept, turned around, when a particle meets a wall.
    pub restitution: i64,
    /// Distance within which the pointer acts.
    pub pointer_radius: i64,
    /// How hard the pointer acts at its center, per unit of time.
    pub pointer_strength: i64,
    /// Width of the zone along each wall in which the wall pushes softly.
    pub edge_margin: i64,
    /// How hard a wall pushes per unit of depth into that zone and of time.
    pub edge_strength: i64,
    /// Width of the domain, which spans `[0, width]` in `x`.
    pub width: i64,
    /// Height of the domain, which spans `[0, height]` in `y`.
    pub height: i64,
}

/// A configuration that a simulation accepts: bounds not negative, distances
/// not negative, every field in range.
pub open spec fn valid_config(c: SimulationConfig) -> bool {
    &&& 0 <= c.width <= LIMIT
    &&& 0 <= c.height <= LIMIT
    &&& 0 <= c.repulsion_radius <= LIMIT
    &&& 0 <= c.pointer_radius <= LIMIT
    &&& 0 <= c.edge_margin <= LIMIT
    &&& in_range(c.gravity as int)
    &&& in_range(c.drag as int)
    &&& in_range(c.repulsion_strength as int)
    &&& in_range(c.restitution as int)
    &&& in_range(c.pointer_strength as int)
    &&& in_range(c.edge_strength as int)
}

/// Which check a configuration fails first, if any.
pub open spec fn config_error(c: SimulationConfig) -> Option<SetupError> {
    if c.width < 0 || c.height < 0 {
        Some(SetupError::NegativeBounds)
    } else if !valid_config(c) {
        Some(SetupError::OutOfRange)
    } else {
        None
    }
}

impl SimulationConfig {
    /// Checks the configuration: bounds first, then the range of every field.
    pub fn validate(&self) -> (r: Result<(), SetupError>)
        ensures
            r is Ok <==> valid_config(*self),
            r is Ok ==> config_error(*self) is None,
            r is Err ==> config_error(*self) == Some(r->Err_0),
    {
        if self.width < 0 || self.height < 0 {
            Err(SetupError::NegativeBounds)
        } else if self.width > LIMIT || self.height > LIMIT || self.repulsion_radius < 0
            || self.repulsion_radius > LIMIT || self.pointer_radius < 0 || self.pointer_radius
            > LIMIT || self.edge_margin < 0 || self.edge_margin > LIMIT || self.gravity < -LIMIT
            || self.gravity > LIMIT || self.drag < -LIMIT || self.drag > LIMIT
            || self.repulsion_strength < -LIMIT || self.repulsion_strength > LIMIT
            || self.restitution < -LIMIT || self.restitution > LIMIT || self.pointer_strength
            < -LIMIT || self.pointer_strength > LIMIT || self.edge_strength < -LIMIT
            || self.edge_strength > LIMIT {
            Err(SetupError::OutOfRange)
        } else {
            Ok(())
        }
    }
}

/// What a pointer event asks for. Attraction and repulsion act during the
/// tick they come with; spawning and removal change the population, which
/// only happens between ticks: `Simulation::handle_event` turns them into
/// requests.
#[derive(Clone, Copy, PartialEq, Eq, Debug)]
pub enum PointerMode {
    Attract,
    Repel,
    Spawn,
    Remove,
}

/// The pointer's state for one tick.
#[derive(Clone, Copy, PartialEq, Eq, Debug)]
pub struct PointerEvent {
    pub position: Vector2,
    pub mode: PointerMode,
    pub active: bool,
}

impl PointerEvent {
    /// A pointer that does nothing.
    pub fn inactive() -> (r: PointerEvent)
        ensures
            !r.active,
    {
        PointerEvent { position: Vector2::new(), mode: PointerMode::Attract, active: false }
    }
}

/// Every particle of `ps` is one that a simulation accepts.
pub open spec fn all_valid(ps: Seq<Particle>) -> bool {
    forall|i: int| 0 <= i < ps.len() ==> valid_particle(#[trigger] ps[i])
}

/// The first particle error of `ps` among its first `n` particles.
pub open spec fn first_error(ps: Seq<Particle>, n: nat) -> Option<SetupError>
    decreases n,
{
    if n == 0 {
        None
    } else {
        let e = first_error(ps, (n - 1) as nat);
        if e is Some {
            e
        } else {
            particle_error(ps[n - 1])
        }
    }
}

/// The pointer's change of velocity on `p`, when it attracts or repels.
pub open spec fn pointer_term(c: SimulationConfig, p: Particle, ev: PointerEvent, dt: int) -> (int, int) {
    if ev.active && (ev.mode is Attract || ev.mode is Repel) {
        pointer_dv(
            p.position@,
            ev.position@,
            ev.mode is Attract,
            c.pointer_radius as int,
            c.pointer_strength as int,
            dt,
        )
    } else {
        (0, 0)
    }
}

/// The pushes on particle `i` of the snapshot from each other particle among
/// the first `n`.
pub open spec fn repulsion_total(c: SimulationConfig, snap: Seq<Particle>, i: int, dt: int, n: nat) -> (int, int)
    decreases n,
{
    if n == 0 {
        (0, 0)
    } else {
        let j = n - 1;
        let prev = repulsion_total(c, snap, i, dt, (n - 1) as nat);
        if j == i {
            prev
        } else {
            vsum(
                prev,
                repulsion_dv(
                    snap[i].position@,
                    snap[j].position@,
                    i < j,
                    c.repulsion_radius as int,
                    c.repulsion_strength as int,
                    dt,
                ),
            )
        }
    }
}

/// Everything that changes the velocity of particle `i` in a tick, all read
/// from the snapshot taken before it.
pub open spec fn tick_dv(c: SimulationConfig, snap: Seq<Particle>, i: int, dt: int, ev: PointerEvent) -> (int, int) {
    vsum(
        vsum(own_dv(c, snap[i], dt), pointer_term(c, snap[i], ev, dt)),
        repulsion_total(c, snap, i, dt, snap.len()),
    )
}

/// Position and velocity of particle `i` after a tick from the snapshot.
pub open spec fn next_state(c: SimulationConfig, snap: Seq<Particle>, i: int, dt: int, ev: PointerEvent) -> ((int, int), (int, int)) {
    advanced(c, snap[i], tick_dv(c, snap, i, dt, ev), dt)
}

/// `after` is the population one tick after `before`: the same particles in
/// the same order, each moved as the snapshot `before` dictates.
pub open spec fn is_tick(
    c: SimulationConfig,
    before: Seq<Particle>,
    after: Seq<Particle>,
    dt: int,
    ev: PointerEvent,
) -> bool {
    &&& after.len() == before.len()
    &&& forall|i: int|
        0 <= i < after.len() ==> {
            &&& (#[trigger] after[i]).radius == before[i].radius
            &&& after[i].mass == before[i].mass
            &&& after[i].color == before[i].color
            &&& (after[i].position@, after[i].velocity@) == next_state(c, before, i, dt, ev)
        }
}

/// The particles of `ps` whose index is not in `removed`, in their order.
pub open spec fn survivors(ps: Seq<Particle>, removed: Seq<usize>) -> Seq<Particle>
    decreases ps.len(),
{
    if ps.len() == 0 {
        Seq::empty()
    } else {
        let n = ps.len() - 1;
        let rest = survivors(ps.take(n as int), removed);
        if removed.contains(n as usize) {
            rest
        } else {
            rest.push(ps[n as int])
        }
    }
}

/// The population at a tick boundary: the survivors of the removals, then
/// the spawned particles in the order they were asked for.
pub open spec fn admitted(ps: Seq<Particle>, removed: Seq<usize>, spawned: Seq<Particle>) -> Seq<Particle> {
    survivors(ps, removed) + spawned
}

/// A coordinate placed at random between the walls: within `[r, w - r)`,
/// or on `r` when the domain leaves the particle no room to move.
pub open spec fn placed(x: int, r: int, w: int) -> bool {
    if r < w - r {
        r <= x < w - r
    } else {
        x == r
    }
}

/// Relies on `rand::rng` and `rand::Rng::random_range`: a value drawn from
/// the inclusive range `[lo, hi]`, which is not empty.
#[verifier::external_body]
fn random_between(lo: i64, hi: i64) -> (r: i64)
    requires
        lo <= hi,
    ensures
        lo <= r <= hi,
{
    rand::Rng::random_range(&mut rand::rng(), lo..=hi)
}

/// A coordinate drawn between the walls.
fn random_coordinate(r: i64, w: i64) -> (x: i64)
    requires
        0 <= r <= LIMIT,
        0 <= w <= LIMIT,
    ensures
        placed(x as int, r as int, w as int),
        in_range(x as int),
{
    if r < w - r {
        random_between(r, w - r - 1)
    } else {
        r
    }
}

/// Particle `i` of `ps` is the one nearest to `q` among those within
/// `radius` of it, and the first of those equally near.
pub open spec fn is_nearest(ps: Seq<Particle>, q: (int, int), radius: int, i: int) -> bool {
    &&& 0 <= i < ps.len()
    &&& distance(ps[i].position@, q) <= radius
    &&& forall|j: int|
        0 <= j < ps.len() ==> distance(ps[i].position@, q) <= distance(
            #[trigger] ps[j].position@,
            q,
        )
    &&& forall|j: int|
        0 <= j < i ==> distance(ps[i].position@, q) < distance(#[trigger] ps[j].position@, q)
}

/// No particle of `ps` lies within `radius` of `q`.
pub open spec fn none_within(ps: Seq<Particle>, q: (int, int), radius: int) -> bool {
    forall|j: int| 0 <= j < ps.len() ==> distance(#[trigger] ps[j].position@, q) > radius
}

/// The index of the particle nearest to `q` within `radius`, if any.
fn nearest_within(ps: &Vec<Particle>, q: &Vector2, radius: i64) -> (r: Option<usize>)
    ensures
        r is Some ==> is_nearest(ps@, q@, radius as int, r->Some_0 as int),
        r is None ==> none_within(ps@, q@, radius as int),
{
    let mut best: Option<usize> = None;
    let mut best_d: i64 = 0;
    let mut k: usize = 0;
    while k < ps.len()
        invariant
            k <= ps.len(),
            best is None ==> forall|j: int|
                0 <= j < k ==> distance(#[trigger] ps@[j].position@, q@) > radius,
            best is Some ==> {
                let b = best->Some_0 as int;
                &&& b < k
                &&& best_d == distance(ps@[b].position@, q@)
                &&& best_d <= radius
                &&& forall|j: int| 0 <= j < k ==> best_d <= distance(#[trigger] ps@[j].position@, q@)
                &&& forall|j: int| 0 <= j < b ==> best_d < distance(#[trigger] ps@[j].position@, q@)
            },
        decreases ps.len() - k,
    {
        let d = ps[k].position.get_distance_scalar(q);
        let closer = match best {
            None => d <= radius,
            Some(_) => d < best_d,
        };
        if closer {
            best = Some(k);
            best_d = d;
        }
        k += 1;
    }
    best
}

/// Tells whether `i` is among `items`.
fn holds(items: &Vec<usize>, i: usize) -> (r: bool)
    ensures
        r == items@.contains(i),
{
    let mut k: usize = 0;
    while k < items.len()
        invariant
            k <= items.len(),
            forall|m: int| 0 <= m < k ==> items@[m] != i,
        decreases items.len() - k,
    {
        if items[k] == i {
            return true;
        }
        k += 1;
    }
    false
}

/// The pointer's change of velocity on `p`.
fn pointer_part(c: &SimulationConfig, p: &Particle, ev: &PointerEvent, dt: i64) -> (r: Vector2)
    requires
        valid_config(*c),
        in_range(dt as int),
    ensures
        r@ == pointer_term(*c, *p, *ev, dt as int),
{
    let attract = match ev.mode {
        PointerMode::Attract => true,
        _ => false,
    };
    let repel = match ev.mode {
        PointerMode::Repel => true,
        _ => false,
    };
    if ev.active && (attract || repel) {
        pointer_impulse(&p.position, &ev.position, attract, c.pointer_radius, c.pointer_strength, dt)
    } else {
        Vector2::new()
    }
}

/// Everything that changes the velocity of particle `i` in a tick.
fn tick_impulse(c: &SimulationConfig, snap: &Vec<Particle>, i: usize, dt: i64, ev: &PointerEvent) -> (r: Vector2)
    requires
        valid_config(*c),
        all_valid(snap@),
        i < snap.len(),
        in_range(dt as int),
    ensures
        r@ == tick_dv(*c, snap@, i as int, dt as int, *ev),
{
    let p = &snap[i];
    let own = p.own_impulse(dt, c);
    let pointer = pointer_part(c, p, ev, dt);
    let mut push = Vector2::new();
    let mut j: usize = 0;
    while j < snap.len()
        invariant
            valid_config(*c),
            in_range(dt as int),
            i < snap.len(),
            j <= snap.len(),
            *p == snap@[i as int],
            push@ == repulsion_total(*c, snap@, i as int, dt as int, j as nat),
        decreases snap.len() - j,
    {
        if j != i {
            let one = repulsion_impulse(
                &p.position,
                &snap[j].position,
                i < j,
                c.repulsion_radius,
                c.repulsion_strength,
                dt,
            );
            push = push.add_vector(&one);
        }
        j += 1;
    }
    own.add_vector(&pointer).add_vector(&push)
}

/// A population of particles in a rectangular domain, with the requests that
/// will change it at the next tick boundary.
pub struct Simulation {
    config: SimulationConfig,
    particles: Vec<Particle>,
    spawns: Vec<Particle>,
    removals: Vec<usize>,
}

impl Simulation {
    #[verifier::type_invariant]
    spec fn inv(&self) -> bool {
        &&& valid_config(self.config)
        &&& all_valid(self.particles@)
        &&& all_valid(self.spawns@)
    }

    /// The configuration.
    pub closed spec fn settings(&self) -> SimulationConfig {
        self.config
    }

    /// The committed population, in order.
    pub closed spec fn population(&self) -> Seq<Particle> {
        self.particles@
    }

    /// The particles that will join at the next tick boundary.
    pub closed spec fn pending_spawns(&self) -> Seq<Particle> {
        self.spawns@
    }

    /// The indices, in the committed population, of the particles that will
    /// leave at the next tick boundary.
    pub closed spec fn pending_removals(&self) -> Seq<usize> {
        self.removals@
    }

    /// The population that the next tick will start from.
    pub open spec fn upcoming(&self) -> Seq<Particle> {
        admitted(self.population(), self.pending_removals(), self.pending_spawns())
    }

    /// A simulation of the given particles. The configuration is checked
    /// first, then each particle in order; the first failure is returned.
    pub fn new(config: SimulationConfig, particles: Vec<Particle>) -> (r: Result<Simulation, SetupError>)
        ensures
            r is Ok <==> config_error(config) is None && first_error(particles@, particles@.len()) is None,
            r is Ok ==> {
                &&& r->Ok_0.settings() == config
                &&& r->Ok_0.population() == particles@
                &&& r->Ok_0.pending_spawns().len() == 0
                &&& r->Ok_0.pending_removals().len() == 0
            },
            r is Err ==> r->Err_0 == (if config_error(config) is Some {
                config_error(config)->Some_0
            } else {
                first_error(particles@, particles@.len())->Some_0
            }),
    {
        if let Err(e) = config.validate() {
            return Err(e);
        }
        let mut i: usize = 0;
        while i < particles.len()
            invariant
                i <= particles.len(),
                config_error(config) is None,
                first_error(particles@, i as nat) is None,
                forall|k: int| 0 <= k < i ==> valid_particle(#[trigger] particles@[k]),
            decreases particles.len() - i,
        {
            if let Err(e) = particles[i].validate() {
                proof {
                    assert(first_error(particles@, (i + 1) as nat) == particle_error(particles@[i as int]));
                    lemma_first_error_stays(particles@, (i + 1) as nat, particles@.len());
                }
                return Err(e);
            }
            i += 1;
        }
        Ok(Simulation { config, particles, spawns: Vec::new(), removals: Vec::new() })
    }

    /// A simulation of `count` copies of `template`, each placed at random
    /// between the walls. The configuration is checked first, then the
    /// template.
    pub fn populate(config: SimulationConfig, count: usize, template: Particle) -> (r: Result<Simulation, SetupError>)
        ensures
            r is Ok <==> config_error(config) is None && particle_error(template) is None,
            r is Err ==> r->Err_0 == (if config_error(config) is Some {
                config_error(config)->Some_0
            } else {
                particle_error(template)->Some_0
            }),
            r is Ok ==> {
                let pop = r->Ok_0.population();
                &&& r->Ok_0.settings() == config
                &&& r->Ok_0.pending_spawns().len() == 0
                &&& r->Ok_0.pending_removals().len() == 0
                &&& pop.len() == count
                &&& forall|i: int|
                    0 <= i < count ==> {
                        &&& (#[trigger] pop[i]).radius == template.radius
                        &&& pop[i].mass == template.mass
                        &&& pop[i].color == template.color
                        &&& pop[i].velocity == template.velocity
                        &&& placed(pop[i].position@.0, radius_of(template), config.width as int)
                        &&& placed(pop[i].position@.1, radius_of(template), config.height as int)
                    }
            },
    {
        if let Err(e) = config.validate() {
            return Err(e);
        }
        if let Err(e) = template.validate() {
            return Err(e);
        }
        let r = template.raw_radius();
        let mut particles: Vec<Particle> = Vec::new();
        let mut i: usize = 0;
        while i < count
            invariant
                valid_config(config),
                valid_particle(template),
                r == radius_of(template),
                i <= count,
                particles@.len() == i,
                all_valid(particles@),
                forall|k: int|
                    0 <= k < i ==> {
                        &&& (#[trigger] particles@[k]).radius == template.radius
                        &&& particles@[k].mass == template.mass
                        &&& particles@[k].color == template.color
                        &&& particles@[k].velocity == template.velocity
                        &&& placed(particles@[k].position@.0, r as int, config.width as int)
                        &&& placed(particles@[k].position@.1, r as int, config.height as int)
                    },
            decreases count - i,
        {
            let x = random_coordinate(r, config.width);
            let y = random_coordinate(r, config.height);
            let mut p = template;
            p.position = Vector2::from_components(x, y);
            particles.push(p);
            i += 1;
        }
        Ok(Simulation { config, particles, spawns: Vec::new(), removals: Vec::new() })
    }

    /// The committed population, in order.
    pub fn particles(&self) -> (r: &Vec<Particle>)
        ensures
            r@ == self.population(),
    {
        &self.particles
    }

    /// The configuration.
    pub fn config(&self) -> (r: SimulationConfig)
        ensures
            r == self.settings(),
    {
        self.config
    }

    /// Asks for `p` to join at the next tick boundary; the committed
    /// population does not change now. A particle that a simulation does not
    /// accept is refused.
    pub fn request_spawn(&mut self, p: Particle) -> (r: Result<(), SetupError>)
        ensures
            r is Ok <==> valid_particle(p),
            r is Err ==> particle_error(p) == Some(r->Err_0),
            final(self).population() == old(self).population(),
            final(self).settings() == old(self).settings(),
            final(self).pending_removals() == old(self).pending_removals(),
            final(self).pending_spawns() == (if r is Ok {
                old(self).pending_spawns().push(p)
            } else {
                old(self).pending_spawns()
            }),
    {
        if let Err(e) = p.validate() {
            return Err(e);
        }
        let Simulation { config, particles, mut spawns, removals } = self.take();
        spawns.push(p);
        *self = Simulation { config, particles, spawns, removals };
        Ok(())
    }

    /// Asks for the particle at `index` of the committed population to leave
    /// at the next tick boundary; the committed population does not change
    /// now, and an index that names no particle removes nothing.
    pub fn request_remove(&mut self, index: usize)
        ensures
            final(self).population() == old(self).population(),
            final(self).settings() == old(self).settings(),
            final(self).pending_spawns() == old(self).pending_spawns(),
            final(self).pending_removals() == old(self).pending_removals().push(index),
    {
        let Simulation { config, particles, spawns, mut removals } = self.take();
        removals.push(index);
        *self = Simulation { config, particles, spawns, removals };
    }

    /// Turns a pointer event into a request. A spawn event asks for
    /// `template`, placed at the pointer, to join; a remove event asks for
    /// the committed particle nearest to the pointer within the pointer
    /// radius to leave, and does nothing when none is that near. Other
    /// events, and inactive ones, act through `step` and ask for nothing.
    pub fn handle_event(&mut self, event: &PointerEvent, template: Particle) -> (r: Result<(), SetupError>)
        ensures
            final(self).population() == old(self).population(),
            final(self).settings() == old(self).settings(),
            event.active && event.mode is Spawn ==> {
                &&& (r is Ok <==> valid_particle(template))
                &&& (r is Err ==> particle_error(template) == Some(r->Err_0))
                &&& final(self).pending_removals() == old(self).pending_removals()
                &&& final(self).pending_spawns() == (if r is Ok {
                    old(self).pending_spawns().push(Particle { position: event.position, ..template })
                } else {
                    old(self).pending_spawns()
                })
            },
            event.active && event.mode is Remove ==> {
                &&& r is Ok
                &&& final(self).pending_spawns() == old(self).pending_spawns()
                &&& (final(self).pending_removals() == old(self).pending_removals() && none_within(
                    old(self).population(),
                    event.position@,
                    old(self).settings().pointer_radius as int,
                ) || exists|i: int|
                    is_nearest(
                        old(self).population(),
                        event.position@,
                        old(self).settings().pointer_radius as int,
                        i,
                    ) && final(self).pending_removals() == old(self).pending_removals().push(
                        i as usize,
                    ))
            },
            !(event.active && (event.mode is Spawn || event.mode is Remove)) ==> {
                &&& r is Ok
                &&& final(self).pending_spawns() == old(self).pending_spawns()
                &&& final(self).pending_removals() == old(self).pending_removals()
            },
    {
        if !event.active {
            return Ok(());
        }
        match event.mode {
            PointerMode::Spawn => {
                let mut p = template;
                p.position = event.position;
                self.request_spawn(p)
            },
            PointerMode::Remove => {
                match nearest_within(&self.particles, &event.position, self.config.pointer_radius) {
                    Some(i) => {
                        self.request_remove(i);
                    },
                    None => {},
                }
                Ok(())
            },
            _ => Ok(()),
        }
    }

    /// Moves the whole state out, leaving an empty population behind.
    fn take(&mut self) -> (r: Simulation)
        ensures
            r == *old(self),
            valid_config(r.config),
            all_valid(r.particles@),
            all_valid(r.spawns@),
    {
        proof {
            use_type_invariant(&*self);
        }
        let mut r = Simulation {
            config: self.config,
            particles: Vec::new(),
            spawns: Vec::new(),
            removals: Vec::new(),
        };
        std::mem::swap(self, &mut r);
        r
    }

    /// The population at the tick boundary: survivors, then spawned particles.
    fn boundary_population(&self) -> (r: Vec<Particle>)
        ensures
            r@ == self.upcoming(),
            all_valid(r@),
    {
        proof {
            use_type_invariant(self);
        }
        let mut out: Vec<Particle> = Vec::new();
        let mut i: usize = 0;
        while i < self.particles.len()
            invariant
                i <= self.particles.len(),
                all_valid(self.particles@),
                all_valid(out@),
                out@ == survivors(self.particles@.take(i as int), self.removals@),
            decreases self.particles.len() - i,
        {
            let ghost before = out@;
            proof {
                let t = self.particles@.take(i as int + 1);
                assert(t.take(i as int) =~= self.particles@.take(i as int));
                assert(t[i as int] == self.particles@[i as int]);
            }
            if !holds(&self.removals, i) {
                out.push(self.particles[i]);
            }
            i += 1;
        }
        proof {
            assert(self.particles@.take(i as int) =~= self.particles@);
        }
        let ghost kept = out@;
        let mut k: usize = 0;
        while k < self.spawns.len()
            invariant
                k <= self.spawns.len(),
                all_valid(self.spawns@),
                all_valid(out@),
                out@ == kept + self.spawns@.take(k as int),
            decreases self.spawns.len() - k,
        {
            out.push(self.spawns[k]);
            proof {
                assert(kept + self.spawns@.take(k as int + 1) =~= (kept + self.spawns@.take(k as int)).push(self.spawns@[k as int]));
            }
            k += 1;
        }
        proof {
            assert(self.spawns@.take(k as int) =~= self.spawns@);
        }
        out
    }

    /// One tick. Pending requests are applied first, at the boundary; then
    /// every particle's change of velocity is computed from that snapshot
    /// alone, and every particle is integrated and meets the walls. The
    /// result does not depend on the order in which particles are visited.
    pub fn step(&mut self, dt: i64, event: &PointerEvent)
        ensures
            final(self).settings() == old(self).settings(),
            final(self).pending_spawns().len() == 0,
            final(self).pending_removals().len() == 0,
            is_tick(old(self).settings(), old(self).upcoming(), final(self).population(), clamp(dt as int), *event),
    {
        proof {
            use_type_invariant(&*self);
        }
        let dt = saturate(dt);
        let snap = self.boundary_population();
        let config = self.config;
        let mut next: Vec<Particle> = Vec::new();
        let mut i: usize = 0;
        while i < snap.len()
            invariant
                valid_config(config),
                all_valid(snap@),
                in_range(dt as int),
                i <= snap.len(),
                all_valid(next@),
                next@.len() == i,
                forall|k: int|
                    0 <= k < i ==> {
                        &&& (#[trigger] next@[k]).radius == snap@[k].radius
                        &&& next@[k].mass == snap@[k].mass
                        &&& next@[k].color == snap@[k].color
                        &&& (next@[k].position@, next@[k].velocity@) == next_state(config, snap@, k, dt as int, *event)
                    },
            decreases snap.len() - i,
        {
            let dv = tick_impulse(&config, &snap, i, dt, event);
            let mut p = snap[i];
            p.advance(&dv, dt, &config);
            next.push(p);
            i += 1;
        }
        *self = Simulation { config, particles: next, spawns: Vec::new(), removals: Vec::new() };
    }
}

/// Once an error is found among the first `n` particles, it stays the first
/// error among any more of them.
pub proof fn lemma_first_error_stays(ps: Seq<Particle>, n: nat, m: nat)
    requires
        n <= m,
        first_error(ps, n) is Some,
    ensures
        first_error(ps, m) == first_error(ps, n),
    decreases m - n,
{
    if n < m {
        lemma_first_error_stays(ps, n, (m - 1) as nat);
    }
}

} // verus!
