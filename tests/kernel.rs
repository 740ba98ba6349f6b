use particles::fixed::ONE;
use particles::forces::{bounce_axis, drag_impulse, repulsion_impulse};
use particles::particle::Particle;
use particles::simulation::{PointerEvent, PointerMode, SetupError, Simulation, SimulationConfig};
use particles::vector::Vector2;

const WHITE: (u8, u8, u8, u8) = (255, 255, 255, 255);

fn quiet_config() -> SimulationConfig {
    SimulationConfig {
        gravity: 0,
        drag: 0,
        repulsion_radius: 10 * ONE,
        repulsion_strength: 2 * ONE,
        restitution: ONE / 2,
        pointer_radius: 50 * ONE,
        pointer_strength: 10 * ONE,
        edge_margin: 0,
        edge_strength: 0,
        width: 1000 * ONE,
        height: 1000 * ONE,
    }
}

fn particle_at(x: i64, y: i64) -> Particle {
    Particle::new(Vector2::from_components(x, y), 5, ONE, WHITE)
}

fn state(p: &Particle) -> (i64, i64, i64, i64) {
    (p.position.get_x(), p.position.get_y(), p.velocity.get_x(), p.velocity.get_y())
}

#[test]
fn free_fall_one_tick() {
    let mut config = quiet_config();
    config.gravity = 9 * ONE + 810;
    let mass = ONE / 2;
    let p = Particle::new(Vector2::from_components(500 * ONE, 500 * ONE), 5, mass, WHITE);
    let mut sim = Simulation::new(config, vec![p]).unwrap();
    let dt = ONE / 10;
    sim.step(dt, &PointerEvent::inactive());
    let after = sim.particles()[0];
    // gravity * mass * dt = 9.81 * 0.5 * 0.1 = 0.4905
    assert_eq!(-490, after.velocity.get_y());
    assert_eq!(0, after.velocity.get_x());
    // the position moves by the new velocity times dt: -0.049
    assert_eq!((500 * ONE, 500 * ONE - 49), (after.position.get_x(), after.position.get_y()));
}

#[test]
fn left_wall_bounce() {
    let mut config = quiet_config();
    config.restitution = 600;
    // radius 5 units; moving left at 3 units per second for one second from x = 6
    let mut p = particle_at(6 * ONE, 500 * ONE);
    p.velocity = Vector2::from_components(-3 * ONE, 0);
    let mut sim = Simulation::new(config, vec![p]).unwrap();
    sim.step(ONE, &PointerEvent::inactive());
    let after = sim.particles()[0];
    assert_eq!(5 * ONE, after.position.get_x());
    assert_eq!(1800, after.velocity.get_x());
}

#[test]
fn bounce_axis_on_each_side() {
    assert_eq!((5, -6), bounce_axis(2, 10, 5, 100, 600));
    assert_eq!((100, 6), bounce_axis(120, -10, 5, 100, 600));
    assert_eq!((50, 10), bounce_axis(50, 10, 5, 100, 600));
}

#[test]
fn repulsion_grows_as_distance_shrinks() {
    let origin = Vector2::new();
    let mut last = -1;
    for d in [10, 9, 8, 6, 4, 2, 1] {
        let other = Vector2::from_components(d * ONE, 0);
        let push = repulsion_impulse(&origin, &other, true, 10 * ONE, 2 * ONE, ONE);
        assert_eq!(0, push.get_y());
        let size = -push.get_x();
        assert!(size > last, "push at distance {} is {}", d, size);
        last = size;
    }
    let far = Vector2::from_components(12 * ONE, 0);
    let none = repulsion_impulse(&origin, &far, true, 10 * ONE, 2 * ONE, ONE);
    assert_eq!((0, 0), (none.get_x(), none.get_y()));
    let edge = Vector2::from_components(10 * ONE, 0);
    let zero = repulsion_impulse(&origin, &edge, true, 10 * ONE, 2 * ONE, ONE);
    assert_eq!((0, 0), (zero.get_x(), zero.get_y()));
}

#[test]
fn coincident_particles_separate() {
    let p = Vector2::from_components(ONE, ONE);
    let a = repulsion_impulse(&p, &p, true, 10 * ONE, 2 * ONE, ONE);
    let b = repulsion_impulse(&p, &p, false, 10 * ONE, 2 * ONE, ONE);
    assert_eq!((-20 * ONE, 0), (a.get_x(), a.get_y()));
    assert_eq!((20 * ONE, 0), (b.get_x(), b.get_y()));
}

#[test]
fn zero_step_changes_nothing() {
    let mut config = quiet_config();
    config.gravity = 10 * ONE;
    config.drag = ONE / 10;
    config.edge_margin = 20 * ONE;
    config.edge_strength = 3 * ONE;
    let mut a = particle_at(100 * ONE, 100 * ONE);
    a.velocity = Vector2::from_components(4 * ONE, -7 * ONE);
    let b = particle_at(104 * ONE, 100 * ONE);
    let c = particle_at(8 * ONE, 990 * ONE);
    let mut sim = Simulation::new(config, vec![a, b, c]).unwrap();
    let before: Vec<_> = sim.particles().iter().map(state).collect();
    let event = PointerEvent {
        position: Vector2::from_components(102 * ONE, 100 * ONE),
        mode: PointerMode::Attract,
        active: true,
    };
    sim.step(0, &event);
    let after: Vec<_> = sim.particles().iter().map(state).collect();
    assert_eq!(before, after);
}

#[test]
fn two_particles_push_apart() {
    // at (0, 0) and (6, 0): distance 6 within the interaction radius 10
    let a = Vector2::new();
    let b = Vector2::from_components(6 * ONE, 0);
    let k = 2 * ONE;
    // k * (10 - 6) * dt = 8
    let on_a = repulsion_impulse(&a, &b, true, 10 * ONE, k, ONE);
    let on_b = repulsion_impulse(&b, &a, false, 10 * ONE, k, ONE);
    assert_eq!((-8 * ONE, 0), (on_a.get_x(), on_a.get_y()));
    assert_eq!((8 * ONE, 0), (on_b.get_x(), on_b.get_y()));

    // the same pair inside a domain, through a full tick
    let config = quiet_config();
    let sim_a = particle_at(100 * ONE, 100 * ONE);
    let sim_b = particle_at(106 * ONE, 100 * ONE);
    let mut sim = Simulation::new(config, vec![sim_a, sim_b]).unwrap();
    sim.step(ONE, &PointerEvent::inactive());
    let ps = sim.particles();
    assert_eq!((92 * ONE, 100 * ONE, -8 * ONE, 0), state(&ps[0]));
    assert_eq!((114 * ONE, 100 * ONE, 8 * ONE, 0), state(&ps[1]));
}

#[test]
fn spawn_waits_for_the_boundary() {
    let config = quiet_config();
    let mut sim = Simulation::new(config, vec![particle_at(100 * ONE, 100 * ONE)]).unwrap();
    sim.request_spawn(particle_at(500 * ONE, 500 * ONE)).unwrap();
    assert_eq!(1, sim.particles().len());
    sim.step(ONE, &PointerEvent::inactive());
    assert_eq!(2, sim.particles().len());
    assert_eq!(500 * ONE, sim.particles()[1].position.get_x());
}

#[test]
fn removal_keeps_order() {
    let config = quiet_config();
    let ps = vec![
        particle_at(100 * ONE, 100 * ONE),
        particle_at(200 * ONE, 100 * ONE),
        particle_at(300 * ONE, 100 * ONE),
        particle_at(400 * ONE, 100 * ONE),
    ];
    let mut sim = Simulation::new(config, ps).unwrap();
    sim.request_remove(1);
    sim.request_remove(9);
    assert_eq!(4, sim.particles().len());
    sim.step(0, &PointerEvent::inactive());
    let xs: Vec<i64> = sim.particles().iter().map(|p| p.position.get_x()).collect();
    assert_eq!(vec![100 * ONE, 300 * ONE, 400 * ONE], xs);
}

#[test]
fn setup_errors() {
    let config = quiet_config();
    let mut neg = config;
    neg.width = -1;
    assert_eq!(Some(SetupError::NegativeBounds), Simulation::new(neg, vec![]).err());
    let mut wide = config;
    wide.gravity = i64::MAX;
    assert_eq!(Some(SetupError::OutOfRange), Simulation::new(wide, vec![]).err());
    let mut heavy = particle_at(ONE, ONE);
    heavy.mass = 0;
    assert_eq!(Some(SetupError::NonPositiveMass), Simulation::new(config, vec![heavy]).err());
    let mut flat = particle_at(ONE, ONE);
    flat.radius = 0;
    assert_eq!(Some(SetupError::NonPositiveRadius), Simulation::new(config, vec![flat]).err());
    let mut sim = Simulation::new(config, vec![]).unwrap();
    assert_eq!(Err(SetupError::NonPositiveMass), sim.request_spawn(heavy));
    assert_eq!(Err(SetupError::NonPositiveMass), Simulation::populate(config, 3, heavy).map(|_| ()));
}

#[test]
fn populate_places_between_walls() {
    let config = quiet_config();
    let template = particle_at(0, 0);
    let sim = Simulation::populate(config, 200, template).unwrap();
    let ps = sim.particles();
    assert_eq!(200, ps.len());
    for p in ps.iter() {
        assert!(p.position.get_x() >= 5 * ONE && p.position.get_x() < 995 * ONE);
        assert!(p.position.get_y() >= 5 * ONE && p.position.get_y() < 995 * ONE);
    }
    let first = ps[0].position.get_x();
    assert!(ps.iter().any(|p| p.position.get_x() != first));
}

#[test]
fn drag_never_reverses() {
    let v = Vector2::from_components(3 * ONE, -4 * ONE);
    // |v| * mass * c * dt = 5 * 1 * 100 * 1: capped at the speed
    let d = drag_impulse(&v, ONE, 100 * ONE, ONE);
    assert_eq!((-3 * ONE, 4 * ONE), (d.get_x(), d.get_y()));
    // 5 * 1 * 0.1 * 1 = 0.5
    let small = drag_impulse(&v, ONE, ONE / 10, ONE);
    assert_eq!((-300, 400), (small.get_x(), small.get_y()));
}

#[test]
fn pointer_attracts_and_repels() {
    let config = quiet_config();
    let p = particle_at(100 * ONE, 100 * ONE);
    let attract = PointerEvent {
        position: Vector2::from_components(125 * ONE, 100 * ONE),
        mode: PointerMode::Attract,
        active: true,
    };
    let mut sim = Simulation::new(config, vec![p]).unwrap();
    sim.step(ONE, &attract);
    // 10 * 1 * (50 - 25) / 50 = 5
    assert_eq!(5 * ONE, sim.particles()[0].velocity.get_x());
    let repel = PointerEvent { mode: PointerMode::Repel, ..attract };
    let mut sim = Simulation::new(config, vec![p]).unwrap();
    sim.step(ONE, &repel);
    assert_eq!(-5 * ONE, sim.particles()[0].velocity.get_x());
}

#[test]
fn soft_wall_pushes_inward() {
    let mut config = quiet_config();
    config.edge_margin = 10 * ONE;
    config.edge_strength = ONE;
    // 5 units from the left wall's contact line: push 1 * (10 - 5) * 1 = 5
    let p = particle_at(10 * ONE, 500 * ONE);
    let mut sim = Simulation::new(config, vec![p]).unwrap();
    sim.step(ONE, &PointerEvent::inactive());
    assert_eq!(5 * ONE, sim.particles()[0].velocity.get_x());
}

#[test]
fn calculate_single_particle() {
    let mut config = quiet_config();
    config.gravity = 2 * ONE;
    let mut p = particle_at(500 * ONE, 500 * ONE);
    p.calculate(ONE, &config);
    assert_eq!((500 * ONE, 498 * ONE, 0, -2 * ONE), state(&p));
}

#[test]
fn speed_color_follows_speed() {
    let mut p = particle_at(0, 0);
    assert_eq!((0, 0, 255, 255), p.speed_color());
    p.velocity = Vector2::from_components(3 * ONE, 4 * ONE);
    // 5 * 34 = 170 red, 255 - 170 = 85 blue
    assert_eq!((170, 0, 85, 255), p.speed_color());
    p.velocity = Vector2::from_components(30 * ONE, 0);
    assert_eq!((255, 0, 0, 255), p.speed_color());
}

#[test]
fn spawn_event_places_template_at_pointer() {
    let config = quiet_config();
    let mut sim = Simulation::new(config, vec![particle_at(100 * ONE, 100 * ONE)]).unwrap();
    let event = PointerEvent {
        position: Vector2::from_components(300 * ONE, 400 * ONE),
        mode: PointerMode::Spawn,
        active: true,
    };
    assert_eq!(Ok(()), sim.handle_event(&event, particle_at(0, 0)));
    assert_eq!(1, sim.particles().len());
    sim.step(0, &PointerEvent::inactive());
    assert_eq!(2, sim.particles().len());
    assert_eq!((300 * ONE, 400 * ONE), (sim.particles()[1].position.get_x(), sim.particles()[1].position.get_y()));
    let mut bad = particle_at(0, 0);
    bad.radius = 0;
    assert_eq!(Err(SetupError::NonPositiveRadius), sim.handle_event(&event, bad));
}

#[test]
fn remove_event_takes_nearest_within_radius() {
    let config = quiet_config();
    let ps = vec![
        particle_at(100 * ONE, 100 * ONE),
        particle_at(140 * ONE, 100 * ONE),
        particle_at(130 * ONE, 100 * ONE),
    ];
    let mut sim = Simulation::new(config, ps).unwrap();
    let event = PointerEvent {
        position: Vector2::from_components(128 * ONE, 100 * ONE),
        mode: PointerMode::Remove,
        active: true,
    };
    sim.handle_event(&event, particle_at(0, 0)).unwrap();
    let far = PointerEvent { position: Vector2::from_components(900 * ONE, 900 * ONE), ..event };
    sim.handle_event(&far, particle_at(0, 0)).unwrap();
    assert_eq!(3, sim.particles().len());
    sim.step(0, &PointerEvent::inactive());
    let xs: Vec<i64> = sim.particles().iter().map(|p| p.position.get_x()).collect();
    assert_eq!(vec![100 * ONE, 140 * ONE], xs);
}

#[test]
fn soft_wall_ignores_particles_far_outside() {
    let mut config = quiet_config();
    config.edge_margin = 16 * ONE;
    config.edge_strength = 2 * ONE + 500;
    // 100 units past the left wall: more than margin plus radius beyond it
    let far = particle_at(-100 * ONE, 500 * ONE);
    let push = far.calculate_border_repulsiveness(ONE, &config);
    assert_eq!((0, 0), (push.get_x(), push.get_y()));
    // just past the wall, within margin plus radius: the full push 2.5 * 16 * 1 = 40
    let near = particle_at(-10 * ONE, 500 * ONE);
    let push = near.calculate_border_repulsiveness(ONE, &config);
    assert_eq!((40 * ONE, 0), (push.get_x(), push.get_y()));
}

#[test]
fn populate_in_a_domain_with_no_room() {
    let mut config = quiet_config();
    config.width = 10 * ONE;
    let sim = Simulation::populate(config, 5, particle_at(0, 0)).unwrap();
    for p in sim.particles().iter() {
        assert_eq!(5 * ONE, p.position.get_x());
    }
}
