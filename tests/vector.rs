use particles::fixed::{LIMIT, ONE};
use particles::vector::{Components, Vector2};

fn ceil_units(raw: i64) -> i64 {
    (raw + ONE - 1) / ONE * ONE
}

#[test]
fn vector_new() {
    let v = Vector2::new();

    assert_eq!((0, 0, 0), (v.get_x(), v.get_y(), v.get_magnitude()))
}

#[test]
fn vector_from_components() {
    let v = Vector2::from_components(2 * ONE, 5 * ONE);

    assert_eq!((2 * ONE, 5 * ONE, 5385), v.get_components_tuple())
}

#[test]
fn get_x() {
    let v = Vector2::from_components(5 * ONE, 2 * ONE);

    assert_eq!(5 * ONE, v.get_x())
}

#[test]
fn get_y() {
    let v = Vector2::from_components(5 * ONE, 2 * ONE);

    assert_eq!(2 * ONE, v.get_y())
}

#[test]
fn get_magnitude() {
    let v = Vector2::from_components(2 * ONE, 5 * ONE);

    assert_eq!(5385, v.get_magnitude())
}

#[test]
fn get_components() {
    let v = Vector2::from_components(2 * ONE, 5 * ONE);

    assert_eq!(Components::new(2 * ONE, 5 * ONE, 5385), v.get_components())
}

#[test]
fn set_components() {
    let mut v = Vector2::new();
    v.set_components(1 * ONE, 2 * ONE);

    assert_eq!((1 * ONE, 2 * ONE), (v.get_x(), v.get_y()))
}

#[test]
fn set_x() {
    let mut v = Vector2::new();
    v.set_x(5 * ONE);

    assert_eq!(5 * ONE, v.get_x())
}

#[test]
fn set_y() {
    let mut v = Vector2::new();
    v.set_y(2 * ONE);

    assert_eq!(2 * ONE, v.get_y())
}

#[test]
fn set_magnitude() {
    let mut v = Vector2::new();
    v.set_magnitude(4 * ONE);

    assert_eq!(4 * ONE, ceil_units(v.get_magnitude()))
}

#[test]
fn set_magnitude_vector() {
    let v = Vector2::new();
    let v = v.set_magnitude_vector(4 * ONE);

    assert_eq!(4 * ONE, ceil_units(v.get_magnitude()))
}

#[test]
fn add() {
    let mut v = Vector2::new();
    v.add(&Vector2::from_components(5 * ONE, 6 * ONE));

    assert_eq!((5 * ONE, 6 * ONE), (v.get_x(), v.get_y()))
}

#[test]
fn add_scalar() {
    let mut v = Vector2::new();
    v.add_scalar(5 * ONE);

    assert_eq!((5 * ONE, 5 * ONE), (v.get_x(), v.get_y()))
}

#[test]
fn add_scalar_vector() {
    let v = Vector2::new();
    let v = v.add_scalar_vector(3 * ONE);

    assert_eq!((3 * ONE, 3 * ONE), (v.get_x(), v.get_y()))
}

#[test]
fn add_vector() {
    let v = Vector2::new();
    let v = v.add_vector(&Vector2::from_components(2 * ONE, 5 * ONE));

    assert_eq!((2 * ONE, 5 * ONE), (v.get_x(), v.get_y()))
}

#[test]
fn subtract() {
    let mut v = Vector2::new();
    v.subtract(&Vector2::from_components(21 * ONE, 5 * ONE));

    assert_eq!((-21 * ONE, -5 * ONE), (v.get_x(), v.get_y()))
}

#[test]
fn subtract_scalar() {
    let mut v = Vector2::new();
    v.subtract_scalar(3 * ONE);

    assert_eq!((-3 * ONE, -3 * ONE), (v.get_x(), v.get_y()))
}

#[test]
fn subtract_scalar_vector() {
    let v = Vector2::new();
    let v = v.subtract_scalar_vector(5 * ONE);

    assert_eq!((-5 * ONE, -5 * ONE), (v.get_x(), v.get_y()))
}

#[test]
fn subtract_vector() {
    let v = Vector2::new();
    let v = v.subtract_vector(&Vector2::from_components(2 * ONE, 1 * ONE));

    assert_eq!((-2 * ONE, -1 * ONE), (v.get_x(), v.get_y()))
}

#[test]
fn multiply() {
    let mut v = Vector2::from_components(5 * ONE, 5 * ONE);
    v.multiply(&Vector2::from_components(2 * ONE, 2 * ONE));

    assert_eq!((10 * ONE, 10 * ONE), (v.get_x(), v.get_y()))
}

#[test]
fn magnitude_is_floor_root() {
    let v = Vector2::from_components(3 * ONE, -4 * ONE);
    assert_eq!(5 * ONE, v.get_magnitude());
    let w = Vector2::from_components(1, 1);
    assert_eq!(1, w.get_magnitude());
    let z = Vector2::from_components(-7, 0);
    assert_eq!(7, z.get_magnitude());
}

#[test]
fn normalized_zero_is_zero() {
    let v = Vector2::new().normalized();
    assert_eq!((0, 0), (v.get_x(), v.get_y()));
    let mut w = Vector2::new();
    w.normalize();
    assert_eq!((0, 0), (w.get_x(), w.get_y()));
}

#[test]
fn normalized_has_unit_length() {
    let v = Vector2::from_components(3 * ONE, 4 * ONE).normalized();
    assert_eq!((600, 800), (v.get_x(), v.get_y()));
    assert_eq!(ONE, v.get_magnitude());
}

#[test]
fn set_magnitude_keeps_direction() {
    let v = Vector2::from_components(3 * ONE, -4 * ONE).set_magnitude_vector(10 * ONE);
    assert_eq!((6 * ONE, -8 * ONE), (v.get_x(), v.get_y()));
}

#[test]
fn set_magnitude_of_zero_points_along_diagonal() {
    let v = Vector2::new().set_magnitude_vector(ONE);
    assert_eq!((707, 707), (v.get_x(), v.get_y()));
}

#[test]
fn dot_and_distance() {
    let a = Vector2::from_components(1 * ONE, 2 * ONE);
    let b = Vector2::from_components(3 * ONE, -4 * ONE);
    assert_eq!(-5 * ONE, a.dot(&b));
    let c = Vector2::from_components(1500, 0);
    assert_eq!(2499, c.dot(&Vector2::from_components(1666, 0)));
    assert_eq!(-2499, c.dot(&Vector2::from_components(-1666, 0)));
    let p = Vector2::from_components(1 * ONE, 1 * ONE);
    let q = Vector2::from_components(4 * ONE, 5 * ONE);
    assert_eq!(5 * ONE, p.get_distance_scalar(&q));
    let d = q.get_distance_vector(&p);
    assert_eq!((3 * ONE, 4 * ONE), (d.get_x(), d.get_y()));
}

#[test]
fn reverse_and_scale() {
    let mut v = Vector2::from_components(2 * ONE, -3 * ONE);
    v.reverse();
    assert_eq!((-2 * ONE, 3 * ONE), (v.get_x(), v.get_y()));
    let r = v.reverse_vector();
    assert_eq!((2 * ONE, -3 * ONE), (r.get_x(), r.get_y()));
    let s = r.multiply_scalar_vector(ONE / 2);
    assert_eq!((ONE, -1500), (s.get_x(), s.get_y()));
    let mut t = r;
    t.multiply_scalar_x(3 * ONE);
    t.multiply_scalar_y(-ONE);
    assert_eq!((6 * ONE, 3 * ONE), (t.get_x(), t.get_y()));
    let m = r.multiply_vector(&Vector2::from_components(ONE / 4, 2 * ONE));
    assert_eq!((500, -6 * ONE), (m.get_x(), m.get_y()));
}

#[test]
fn components_saturate_at_the_limit() {
    let v = Vector2::from_components(i64::MAX, i64::MIN);
    assert_eq!((LIMIT, -LIMIT), (v.get_x(), v.get_y()));
    let w = v.add_vector(&v);
    assert_eq!((LIMIT, -LIMIT), (w.get_x(), w.get_y()));
}

#[test]
fn normalized_short_vector_has_unit_length() {
    let v = Vector2::from_components(1, 1).normalized();
    assert_eq!((707, 707), (v.get_x(), v.get_y()));
    assert!(v.get_magnitude() >= ONE - 2 && v.get_magnitude() <= ONE);
}

#[test]
fn set_magnitude_short_vector() {
    let mut v = Vector2::from_components(1, 1);
    v.set_magnitude(ONE);
    assert_eq!((707, 707), (v.get_x(), v.get_y()));
    let w = Vector2::from_components(1, 2).set_magnitude_vector(5 * ONE);
    // 5 / sqrt(5) = 2.2360.., 10 / sqrt(5) = 4.4721..
    assert_eq!((2236, 4472), (w.get_x(), w.get_y()));
}

#[test]
fn zero_vector_rescaled_along_diagonal_exactly() {
    // 1000 / sqrt(2) = 707.1067..
    let v = Vector2::new().set_magnitude_vector(1000 * ONE);
    assert_eq!((707106, 707106), (v.get_x(), v.get_y()));
    let m = v.get_magnitude();
    assert!(m >= 1000 * ONE - 2 && m <= 1000 * ONE);
}
