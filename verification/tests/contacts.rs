use rigid2d::body::{Circle, Object, Polygon, RigidBody};
use rigid2d::manifold::{Face, Manifold};
use rigid2d::math::{Constants, Rotation, Vector2d};

fn close(a: f64, b: f64) -> bool {
    (a - b).abs() < 1e-9
}

fn v(x: f64, y: f64) -> Vector2d<f64> {
    Vector2d::new(x, y)
}

fn near(p: Vector2d<f64>, x: f64, y: f64) -> bool {
    close(p.x, x) && close(p.y, y)
}

fn square_at(x: f64, y: f64, orient: f64) -> Polygon<f64> {
    let mut p = Polygon::new(x, y, 1.0).unwrap();
    p.set_vertices(&vec![v(-1.0, -1.0), v(1.0, -1.0), v(1.0, 1.0), v(-1.0, 1.0)]);
    p.object.orient = orient;
    p
}

fn material(o: &mut Object<f64>, restitution: f64, static_friction: f64, dynamic_friction: f64) {
    o.restitution = restitution;
    o.static_friction = static_friction;
    o.dynamic_friction = dynamic_friction;
}

fn circles(
    e: f64,
    mu_s: f64,
    mu_d: f64,
    va: (f64, f64),
    vb: (f64, f64),
) -> (Circle<f64>, Circle<f64>) {
    let mut a = Circle::new(0.0, 0.0, 1.0).unwrap();
    let mut b = Circle::new(1.9, 0.0, 1.0).unwrap();
    material(&mut a.object, e, mu_s, mu_d);
    material(&mut b.object, e, mu_s, mu_d);
    a.object.velocity = v(va.0, va.1);
    b.object.velocity = v(vb.0, vb.1);
    (a, b)
}

#[test]
fn circles_that_just_touch_make_no_contact() {
    let a = Circle::new(0.0f64, 0.0, 1.0).unwrap();
    let b = Circle::new(2.5f64, 0.0, 1.5).unwrap();
    assert!(Manifold::circle_to_circle(&a, &b).is_none());
    assert!(Manifold::circle_to_circle(&b, &a).is_none());
    let c = Circle::new(3.0f64, 4.0, 4.0).unwrap();
    assert!(Manifold::circle_to_circle(&a, &c).is_none());
    let far = Circle::new(30.0f64, 0.0, 1.5).unwrap();
    assert!(Manifold::circle_to_circle(&a, &far).is_none());
}

#[test]
fn circles_that_overlap_a_little() {
    let a = Circle::new(0.0f64, 0.0, 1.0).unwrap();
    let b = Circle::new(2.5 - 1.0e-3, 0.0, 1.5).unwrap();
    let m = Manifold::circle_to_circle(&a, &b).unwrap();
    assert!(close(m.penetration, 1.0e-3));
    assert_eq!((m.normal.x, m.normal.y), (1.0, 0.0));
    assert_eq!(m.contacts.len(), 1);
    assert!(near(m.contacts[0], 1.0, 0.0));
}

#[test]
fn the_normal_points_from_the_first_circle_to_the_second() {
    let a = Circle::new(0.0f64, 0.0, 1.0).unwrap();
    let b = Circle::new(3.0f64, 4.0, 4.5).unwrap();
    let m = Manifold::circle_to_circle(&a, &b).unwrap();
    assert!(close(m.penetration, 0.5));
    assert!(near(m.normal, 0.6, 0.8));
    assert!(near(m.contacts[0], 0.6, 0.8));
    let w = Manifold::circle_to_circle(&b, &a).unwrap();
    assert!(close(w.penetration, 0.5));
    assert_eq!(w.normal.x, -m.normal.x);
    assert_eq!(w.normal.y, -m.normal.y);
    assert!(near(w.contacts[0], 0.3, 0.4));
}

#[test]
fn circles_about_one_centre() {
    let a = Circle::new(2.0f64, 3.0, 1.5).unwrap();
    let b = Circle::new(2.0f64, 3.0, 0.5).unwrap();
    let m = Manifold::circle_to_circle(&a, &b).unwrap();
    assert_eq!(m.penetration, 1.5);
    assert_eq!((m.normal.x, m.normal.y), (1.0, 0.0));
    assert_eq!(m.contacts.len(), 1);
    assert_eq!((m.contacts[0].x, m.contacts[0].y), (2.0, 3.0));
}

#[test]
fn the_coefficients_are_mixed() {
    let mut a = Circle::new(0.0f64, 0.0, 1.0).unwrap();
    let mut b = Circle::new(1.0f64, 0.0, 1.0).unwrap();
    material(&mut a.object, 0.9, 0.5, 0.2);
    material(&mut b.object, 0.4, 0.125, 0.8);
    let m = Manifold::circle_to_circle(&a, &b).unwrap();
    assert_eq!(m.mixed_restitution, 0.4);
    assert_eq!(m.mixed_static_friction, 0.25);
    assert_eq!(m.mixed_dynamic_friction, (0.2f64 * 0.8).sqrt());
    let plain = Circle::new(0.0f64, 0.0, 1.0).unwrap();
    let other = Circle::new(1.0f64, 0.0, 1.0).unwrap();
    let d = Manifold::circle_to_circle(&plain, &other).unwrap();
    assert_eq!(d.mixed_restitution, 0.2);
    assert_eq!(d.mixed_static_friction, (0.5f64 * 0.5).sqrt());
    assert_eq!(d.mixed_dynamic_friction, (0.3f64 * 0.3).sqrt());
}

#[test]
fn a_circle_against_a_face() {
    let p = square_at(0.0, 0.0, 0.0);
    let c = Circle::new(1.5f64, 0.0, 1.0).unwrap();
    let m = Manifold::circle_to_polygon(&c, &p).unwrap();
    assert!(close(m.penetration, 0.5));
    assert!(near(m.normal, -1.0, 0.0));
    assert_eq!(m.contacts.len(), 1);
    assert!(near(m.contacts[0], 0.5, 0.0));
}

#[test]
fn a_circle_against_a_corner() {
    let p = square_at(0.0, 0.0, 0.0);
    let c = Circle::new(1.5f64, 1.5, 1.0).unwrap();
    let m = Manifold::circle_to_polygon(&c, &p).unwrap();
    assert!(close(m.penetration, 0.5));
    let h = 0.5f64.sqrt();
    assert!(near(m.normal, -h, -h));
    assert!(near(m.contacts[0], 1.0, 1.0));
    let c = Circle::new(-1.5f64, -1.5, 1.0).unwrap();
    let m = Manifold::circle_to_polygon(&c, &p).unwrap();
    assert!(near(m.normal, h, h));
    assert!(near(m.contacts[0], -1.0, -1.0));
}

#[test]
fn a_circle_with_its_centre_inside() {
    let p = square_at(0.0, 0.0, 0.0);
    let c = Circle::new(0.5f64, 0.25, 1.0).unwrap();
    let m = Manifold::circle_to_polygon(&c, &p).unwrap();
    assert_eq!(m.penetration, 1.0);
    assert!(near(m.normal, -1.0, 0.0));
    assert!(near(m.contacts[0], -0.5, 0.25));
}

#[test]
fn a_circle_away_from_the_polygon() {
    let p = square_at(0.0, 0.0, 0.0);
    assert!(Manifold::circle_to_polygon(&Circle::new(2.5f64, 0.0, 1.0).unwrap(), &p).is_none());
    assert!(Manifold::circle_to_polygon(&Circle::new(1.8f64, 1.8, 1.0).unwrap(), &p).is_none());
    assert!(Manifold::polygon_to_circle(&p, &Circle::new(2.5f64, 0.0, 1.0).unwrap()).is_none());
}

#[test]
fn a_circle_that_just_touches_a_face() {
    let p = square_at(0.0, 0.0, 0.0);
    let m = Manifold::circle_to_polygon(&Circle::new(2.0f64, 0.0, 1.0).unwrap(), &p).unwrap();
    assert_eq!(m.penetration, 0.0);
    assert!(near(m.normal, -1.0, 0.0));
    assert!(near(m.contacts[0], 1.0, 0.0));
}

#[test]
fn a_circle_against_a_turned_polygon() {
    let p = square_at(5.0, 5.0, std::f64::consts::FRAC_PI_4);
    let c = Circle::new(6.2f64, 5.0, 0.5).unwrap();
    let m = Manifold::circle_to_polygon(&c, &p).unwrap();
    assert!(close(m.penetration, 0.5));
    let h = 0.5f64.sqrt();
    assert!(near(m.normal, -h, -h));
    assert!(near(m.contacts[0], 5.846446609406726, 4.646446609406726));
}

#[test]
fn a_polygon_without_vertices_touches_nothing() {
    let mut p = Polygon::new(0.0f64, 0.0, 1.0).unwrap();
    p.set_vertices(&Vec::new());
    let c = Circle::new(0.0f64, 0.0, 1.0).unwrap();
    assert!(Manifold::circle_to_polygon(&c, &p).is_none());
    assert!(Manifold::polygon_to_circle(&p, &c).is_none());
    let q = square_at(0.0, 0.0, 0.0);
    assert!(Manifold::polygon_to_polygon(&p, &q).is_none());
    assert!(Manifold::polygon_to_polygon(&q, &p).is_none());
}

#[test]
fn polygon_to_circle_reverses_the_normal() {
    let p = square_at(0.0, 0.0, 0.0);
    for &(x, y) in &[(1.5, 0.0), (1.5, 1.5), (0.5, 0.25), (-1.2, 0.3), (0.1, -1.7)] {
        let c = Circle::new(x, y, 1.0).unwrap();
        let m = Manifold::circle_to_polygon(&c, &p).unwrap();
        let w = Manifold::polygon_to_circle(&p, &c).unwrap();
        assert_eq!(w.normal.x, -m.normal.x);
        assert_eq!(w.normal.y, -m.normal.y);
        assert_eq!(w.penetration, m.penetration);
        assert_eq!(w.contacts.len(), 1);
        assert_eq!((w.contacts[0].x, w.contacts[0].y), (m.contacts[0].x, m.contacts[0].y));
        assert_eq!(w.mixed_restitution, m.mixed_restitution);
    }
    let m = Manifold::polygon_to_circle(&p, &Circle::new(1.5f64, 0.0, 1.0).unwrap()).unwrap();
    assert!(near(m.normal, 1.0, 0.0));
}

#[test]
fn clip_keeps_what_lies_behind_the_line() {
    let f = |a: (f64, f64), b: (f64, f64)| Face {
        v1: v(a.0, a.1),
        v2: v(b.0, b.1),
        normal: v(9.0, 9.0),
    };
    let r = Manifold::clip(v(1.0, 0.0), 1.0, f((0.0, 0.0), (2.0, 0.0)), 0.0).unwrap();
    assert_eq!((r.v1.x, r.v1.y, r.v2.x, r.v2.y), (0.0, 0.0, 1.0, 0.0));
    assert_eq!((r.normal.x, r.normal.y), (0.0, 0.0));
    let r = Manifold::clip(v(1.0, 0.0), 1.0, f((2.0, 0.0), (0.0, 0.0)), 0.0).unwrap();
    assert_eq!((r.v1.x, r.v1.y, r.v2.x, r.v2.y), (0.0, 0.0, 1.0, 0.0));
    let r = Manifold::clip(v(1.0, 0.0), 1.0, f((0.0, 0.0), (0.5, 3.0)), 0.0).unwrap();
    assert_eq!((r.v1.x, r.v1.y, r.v2.x, r.v2.y), (0.0, 0.0, 0.5, 3.0));
    let r = Manifold::clip(v(0.0, 1.0), 0.5, f((0.0, 0.0), (4.0, 2.0)), 0.0).unwrap();
    assert_eq!((r.v1.x, r.v1.y, r.v2.x, r.v2.y), (0.0, 0.0, 1.0, 0.5));
}

#[test]
fn clip_keeps_points_on_the_line() {
    let face = Face { v1: v(1.0, 0.0), v2: v(1.0, 5.0), normal: v(0.0, 0.0) };
    let r = Manifold::clip(v(1.0, 0.0), 1.0, face, 0.0).unwrap();
    assert_eq!((r.v1.x, r.v1.y, r.v2.x, r.v2.y), (1.0, 0.0, 1.0, 5.0));
}

#[test]
fn clip_of_a_face_beyond_the_line_is_nothing() {
    let face = Face { v1: v(2.0, 0.0), v2: v(3.0, 0.0), normal: v(0.0, 0.0) };
    assert!(Manifold::clip(v(1.0, 0.0), 1.0, face, 0.0).is_none());
}

#[test]
fn two_squares_side_by_side() {
    let a = square_at(0.0, 0.0, 0.0);
    let b = square_at(1.5, 0.5, 0.0);
    let m = Manifold::polygon_to_polygon(&a, &b).unwrap();
    assert!(close(m.penetration, 0.5));
    assert!(near(m.normal, 1.0, 0.0));
    assert_eq!(m.contacts.len(), 2);
    assert!(near(m.contacts[0], 0.5, -0.5));
    assert!(near(m.contacts[1], 0.5, 1.0));
    let w = Manifold::polygon_to_polygon(&b, &a).unwrap();
    assert!(near(w.normal, -1.0, 0.0));
    assert!(close(w.penetration, 0.5));
    assert_eq!(w.contacts.len(), 2);
}

#[test]
fn squares_apart_make_no_contact() {
    let a = square_at(0.0, 0.0, 0.0);
    assert!(Manifold::polygon_to_polygon(&a, &square_at(3.0, 0.0, 0.0)).is_none());
    assert!(Manifold::polygon_to_polygon(&a, &square_at(2.0, 0.0, 0.0)).is_none());
    assert!(Manifold::polygon_to_polygon(&square_at(2.0, 0.0, 0.0), &a).is_none());
    assert!(Manifold::polygon_to_polygon(&a, &square_at(0.0, -2.5, 0.3)).is_none());
}

#[test]
fn a_corner_in_a_face() {
    let a = square_at(0.0, 0.0, 0.0);
    let b = square_at(1.9, 0.0, std::f64::consts::FRAC_PI_4);
    let m = Manifold::polygon_to_polygon(&a, &b).unwrap();
    assert!(close(m.penetration, 0.514213562373095));
    assert!(near(m.normal, 1.0, 0.0));
    assert_eq!(m.contacts.len(), 1);
    assert!(near(m.contacts[0], 0.485786437626905, 0.0));
    let w = Manifold::polygon_to_polygon(&b, &a).unwrap();
    assert!(close(w.penetration, m.penetration));
    assert_eq!(w.normal.x, -m.normal.x);
    assert!(close(w.normal.y, 0.0));
    assert_eq!(w.contacts.len(), 1);
    assert!(near(w.contacts[0], m.contacts[0].x, m.contacts[0].y));
}

#[test]
fn a_tilted_square_on_a_square() {
    let a = square_at(0.0, 0.0, 0.0);
    let b = square_at(0.5, 1.8, 0.3);
    let m = Manifold::polygon_to_polygon(&a, &b).unwrap();
    assert!(close(m.penetration, 0.2714700862601097));
    assert!(near(m.normal, 0.0, 1.0));
    assert_eq!(m.contacts.len(), 2);
    assert!(near(m.contacts[0], -0.15981628246426638, 0.5491433042130545));
    assert!(near(m.contacts[1], 1.0, 0.9079165232667261));
    let w = Manifold::polygon_to_polygon(&b, &a).unwrap();
    assert!(close(w.penetration, m.penetration));
    assert!(near(w.normal, 0.0, -1.0));
    assert_eq!(w.contacts.len(), 2);
    assert!(near(w.contacts[0], m.contacts[0].x, m.contacts[0].y));
    assert!(near(w.contacts[1], m.contacts[1].x, m.contacts[1].y));
}

#[test]
fn the_axis_of_least_penetration() {
    let a = square_at(0.0, 0.0, 0.0);
    let b = square_at(0.5, 1.8, 0.3);
    let k = Constants::<f64>::new();
    let (face, depth) = Manifold::find_axis_least_penetration(
        &a,
        &b,
        Rotation::of(0.0),
        Rotation::back(0.3),
        k,
    );
    assert_eq!(face, 2);
    assert!(close(depth, -0.4508566957869455));
    let (face, depth) = Manifold::find_axis_least_penetration(
        &b,
        &a,
        Rotation::of(0.3),
        Rotation::back(0.0),
        k,
    );
    assert_eq!(face, 0);
    assert!(close(depth, -0.6790111186915244));
}

#[test]
fn the_incident_face_opposes_the_reference_normal() {
    let a = square_at(0.0, 0.0, 0.0);
    let b = square_at(0.5, 1.8, 0.3);
    let k = Constants::<f64>::new();
    let toward = a.normals[2].rotated(&Rotation::of(0.0)).rotated(&Rotation::back(0.3));
    let face = Manifold::find_incident_face(&b, toward, Rotation::of(0.3), k);
    assert!(near(face.v1, -0.15981628246426638, 0.5491433042130545));
    assert!(near(face.v2, 1.7508566957869456, 1.1401837175357337));
    assert!(near(face.normal, 0.3f64.sin(), -(0.3f64.cos())));
}

#[test]
fn the_shapes_decide_the_test() {
    let disc_one = RigidBody::Circle(Circle::new(0.0f64, 0.0, 1.0).unwrap());
    let disc_two = RigidBody::Circle(Circle::new(1.5f64, 0.0, 1.0).unwrap());
    let box_one = RigidBody::Polygon(square_at(0.0, 0.0, 0.0));
    let box_two = RigidBody::Polygon(square_at(1.5, 0.5, 0.0));
    let m = Manifold::solve_collision(&disc_one, &disc_two).unwrap();
    assert!(close(m.penetration, 0.5));
    assert!(near(m.normal, 1.0, 0.0));
    let m = Manifold::solve_collision(&disc_two, &box_one).unwrap();
    assert!(near(m.normal, -1.0, 0.0));
    assert!(near(m.contacts[0], 0.5, 0.0));
    let m = Manifold::solve_collision(&box_one, &disc_two).unwrap();
    assert!(near(m.normal, 1.0, 0.0));
    assert!(near(m.contacts[0], 0.5, 0.0));
    let m = Manifold::solve_collision(&box_one, &box_two).unwrap();
    assert_eq!(m.contacts.len(), 2);
    assert!(near(m.normal, 1.0, 0.0));
    let far = RigidBody::Circle(Circle::new(50.0f64, 0.0, 1.0).unwrap());
    assert!(Manifold::solve_collision(&disc_one, &far).is_none());
    assert!(Manifold::solve_collision(&box_one, &far).is_none());
    assert!(Manifold::solve_collision(&far, &box_one).is_none());
}

#[test]
fn swapping_the_bodies_reverses_the_normal() {
    let bodies = vec![
        RigidBody::Circle(Circle::new(0.0f64, 0.0, 1.0).unwrap()),
        RigidBody::Circle(Circle::new(1.2f64, 0.7, 1.0).unwrap()),
        RigidBody::Polygon(square_at(0.3, -1.4, 0.2)),
        RigidBody::Polygon(square_at(1.6, 0.1, 1.1)),
    ];
    let mut hits = 0;
    for i in 0..bodies.len() {
        for j in 0..bodies.len() {
            if i == j {
                continue;
            }
            let m = Manifold::solve_collision(&bodies[i], &bodies[j]);
            let w = Manifold::solve_collision(&bodies[j], &bodies[i]);
            assert_eq!(m.is_some(), w.is_some());
            if let (Some(m), Some(w)) = (m, w) {
                hits += 1;
                assert!(close(m.normal.x, -w.normal.x));
                assert!(close(m.normal.y, -w.normal.y));
                assert!(close(m.penetration, w.penetration));
                assert_eq!(m.contacts.len(), w.contacts.len());
                let both_circles = matches!(
                    (&bodies[i], &bodies[j]),
                    (RigidBody::Circle(_), RigidBody::Circle(_))
                );
                if !both_circles {
                    for p in &m.contacts {
                        assert!(w.contacts.iter().any(|q| near(*p, q.x, q.y)));
                    }
                }
            }
        }
    }
    assert!(hits >= 8);
}

#[test]
fn equal_circles_exchange_their_velocities() {
    let (mut a, mut b) = circles(1.0, 0.0, 0.0, (1.0, 0.0), (-1.0, 0.0));
    let m = Manifold::circle_to_circle(&a, &b).unwrap();
    m.apply_impulse(&mut a.object, &mut b.object);
    assert!(near(a.object.velocity, -1.0, 0.0));
    assert!(near(b.object.velocity, 1.0, 0.0));
    assert_eq!(a.object.angular_velocity, 0.0);
    assert_eq!(b.object.angular_velocity, 0.0);
    assert_eq!((a.object.position.x, a.object.position.y), (0.0, 0.0));

    let (mut a, mut b) = circles(1.0, 0.0, 0.0, (2.0, 0.0), (0.0, 0.0));
    let m = Manifold::circle_to_circle(&a, &b).unwrap();
    m.apply_impulse(&mut a.object, &mut b.object);
    assert!(near(a.object.velocity, 0.0, 0.0));
    assert!(near(b.object.velocity, 2.0, 0.0));
}

#[test]
fn without_restitution_the_circles_move_together() {
    let (mut a, mut b) = circles(0.0, 0.0, 0.0, (1.0, 0.0), (-1.0, 0.0));
    let m = Manifold::circle_to_circle(&a, &b).unwrap();
    m.apply_impulse(&mut a.object, &mut b.object);
    assert!(near(a.object.velocity, 0.0, 0.0));
    assert!(near(b.object.velocity, 0.0, 0.0));

    let (mut a, mut b) = circles(0.0, 0.0, 0.0, (3.0, 0.0), (1.0, 0.0));
    let m = Manifold::circle_to_circle(&a, &b).unwrap();
    m.apply_impulse(&mut a.object, &mut b.object);
    assert!(close(a.object.velocity.x, b.object.velocity.x));
    assert!(close(a.object.velocity.x, 2.0));
}

#[test]
fn separating_bodies_are_left_alone() {
    let (mut a, mut b) = circles(0.2, 0.5, 0.3, (-1.0, 0.0), (1.0, 0.0));
    let m = Manifold::circle_to_circle(&a, &b).unwrap();
    m.apply_impulse(&mut a.object, &mut b.object);
    assert_eq!((a.object.velocity.x, a.object.velocity.y), (-1.0, 0.0));
    assert_eq!((b.object.velocity.x, b.object.velocity.y), (1.0, 0.0));
}

#[test]
fn static_friction_takes_the_whole_tangential_impulse() {
    let (mut a, mut b) = circles(0.2, 0.5, 0.3, (1.0, 1.0), (-1.0, 0.0));
    let m = Manifold::circle_to_circle(&a, &b).unwrap();
    m.apply_impulse(&mut a.object, &mut b.object);
    assert!(near(a.object.velocity, -0.2, 0.5));
    assert!(near(b.object.velocity, 0.2, 0.5));
    assert!(close(a.object.angular_velocity, -1.0));
    assert!(close(b.object.angular_velocity, -0.9));
}

#[test]
fn dynamic_friction_caps_the_tangential_impulse() {
    let (mut a, mut b) = circles(0.2, 0.5, 0.3, (1.0, 5.0), (-1.0, 0.0));
    let m = Manifold::circle_to_circle(&a, &b).unwrap();
    m.apply_impulse(&mut a.object, &mut b.object);
    assert!(near(a.object.velocity, -0.2, 4.64));
    assert!(near(b.object.velocity, 0.2, 0.36));
    assert!(close(a.object.angular_velocity, -0.72));
    assert!(close(b.object.angular_velocity, -0.648));
}

#[test]
fn a_small_tangential_impulse_is_still_applied() {
    let (mut a, mut b) = circles(0.2, 0.5, 0.3, (1.0, 0.05), (-1.0, 0.0));
    let m = Manifold::circle_to_circle(&a, &b).unwrap();
    m.apply_impulse(&mut a.object, &mut b.object);
    assert!(near(a.object.velocity, -0.2, 0.025));
    assert!(near(b.object.velocity, 0.2, 0.025));
    assert!(close(a.object.angular_velocity, -0.05));
}

#[test]
fn a_tangential_speed_below_the_margin_is_not_resisted() {
    let (mut a, mut b) = circles(0.2, 0.5, 0.3, (1.0, 0.005), (-1.0, 0.0));
    let m = Manifold::circle_to_circle(&a, &b).unwrap();
    m.apply_impulse(&mut a.object, &mut b.object);
    assert!(near(a.object.velocity, -0.2, 0.005));
    assert!(near(b.object.velocity, 0.2, 0.0));
    assert_eq!(a.object.angular_velocity, 0.0);
}

#[test]
fn two_immovable_bodies_are_halted() {
    let mut a = Object::new(0.0f64, 0.0).unwrap();
    let mut b = Object::new(1.0f64, 0.0).unwrap();
    a.set_static();
    b.set_static();
    a.velocity = v(3.0, 4.0);
    b.velocity = v(-1.0, 2.0);
    let m = Manifold {
        penetration: 0.1,
        normal: v(1.0, 0.0),
        contacts: Vec::new(),
        mixed_restitution: 0.2,
        mixed_dynamic_friction: 0.3,
        mixed_static_friction: 0.5,
    };
    m.apply_impulse(&mut a, &mut b);
    assert_eq!((a.velocity.x, a.velocity.y), (0.0, 0.0));
    assert_eq!((b.velocity.x, b.velocity.y), (0.0, 0.0));
}

#[test]
fn a_manifold_without_contacts_changes_no_moving_body() {
    let mut a = Object::new(0.0f64, 0.0).unwrap();
    let mut b = Object::new(1.0f64, 0.0).unwrap();
    a.velocity = v(3.0, 4.0);
    b.velocity = v(-1.0, 2.0);
    let m = Manifold {
        penetration: 0.1,
        normal: v(1.0, 0.0),
        contacts: Vec::new(),
        mixed_restitution: 0.2,
        mixed_dynamic_friction: 0.3,
        mixed_static_friction: 0.5,
    };
    m.apply_impulse(&mut a, &mut b);
    assert_eq!((a.velocity.x, a.velocity.y), (3.0, 4.0));
    assert_eq!((b.velocity.x, b.velocity.y), (-1.0, 2.0));
}

#[test]
fn two_contact_points_share_the_impulse() {
    let mut a = square_at(0.0, 0.0, 0.0);
    let mut b = square_at(0.5, 1.8, 0.0);
    a.set_static();
    b.object.velocity = v(0.3, -1.0);
    b.object.angular_velocity = 0.2;
    let m = Manifold::polygon_to_polygon(&a, &b).unwrap();
    assert!(close(m.penetration, 0.2));
    assert!(near(m.normal, 0.0, 1.0));
    assert_eq!(m.contacts.len(), 2);
    assert!(near(m.contacts[0], -0.5, 0.8));
    assert!(near(m.contacts[1], 1.0, 0.8));
    m.apply_impulse(&mut a.object, &mut b.object);
    assert_eq!((a.object.velocity.x, a.object.velocity.y), (0.0, 0.0));
    assert!(near(b.object.velocity, 0.2661818181818182, -0.3179636363636364));
    assert!(close(b.object.angular_velocity, 0.012800000000000006));
}

#[test]
fn the_correction_moves_both_bodies_apart() {
    let mut a = Circle::new(0.0f64, 0.0, 1.0).unwrap();
    let mut b = Circle::new(1.5f64, 0.0, 1.0).unwrap();
    let m = Manifold::circle_to_circle(&a, &b).unwrap();
    m.position_correction(&mut a.object, &mut b.object);
    let inverse_inertia = a.object.inverse_inertia;
    let shift = 1.0 * 0.4 * ((0.5 - 0.05) / (inverse_inertia + inverse_inertia))
        * a.object.inverse_mass;
    assert!(close(shift, 0.045));
    assert!(near(a.object.position, -0.045, 0.0));
    assert!(near(b.object.position, 1.545, 0.0));
    assert_eq!((a.object.velocity.x, a.object.velocity.y), (0.0, 0.0));
}

#[test]
fn a_penetration_within_the_slop_is_not_corrected() {
    let mut a = Circle::new(0.0f64, 0.0, 1.0).unwrap();
    let mut b = Circle::new(1.96f64, 0.0, 1.0).unwrap();
    let m = Manifold::circle_to_circle(&a, &b).unwrap();
    assert!(m.penetration < 0.05);
    m.position_correction(&mut a.object, &mut b.object);
    assert_eq!((a.object.position.x, a.object.position.y), (0.0, 0.0));
    assert_eq!((b.object.position.x, b.object.position.y), (1.96, 0.0));
}

#[test]
fn the_correction_leaves_an_immovable_body() {
    let mut a = Circle::new(0.0f64, 0.0, 1.0).unwrap();
    let mut b = Circle::new(1.5f64, 0.0, 1.0).unwrap();
    a.set_static();
    let m = Manifold::circle_to_circle(&a, &b).unwrap();
    m.position_correction(&mut a.object, &mut b.object);
    assert_eq!((a.object.position.x, a.object.position.y), (0.0, 0.0));
    assert!(near(b.object.position, 1.59, 0.0));
}

#[test]
fn the_smallest_tangential_impulse_is_applied_too() {
    let (mut a, mut b) = circles(0.2, 0.5, 0.3, (1.0, 0.012), (-1.0, 0.0));
    let m = Manifold::circle_to_circle(&a, &b).unwrap();
    m.apply_impulse(&mut a.object, &mut b.object);
    assert!(near(a.object.velocity, -0.2, 0.006));
    assert!(near(b.object.velocity, 0.2, 0.006));
    assert!(close(a.object.angular_velocity, -0.012));
    assert!(close(b.object.angular_velocity, -0.0108));
}

#[test]
fn a_manifold_of_polygons_has_a_contact_point() {
    let mut a = square_at(0.0, 0.0, 0.0);
    a.normals = vec![v(-1.0, 0.0), v(1.0, 0.0), v(0.0, -1.0), v(-1.0, 1.0)];
    assert!(a.is_well_formed());
    let b = square_at(-0.1, 0.4, 0.0);
    assert!(Manifold::polygon_to_polygon(&a, &b).is_none());
    assert!(Manifold::solve_collision(&RigidBody::Polygon(a), &RigidBody::Polygon(b)).is_none());

    let mut seed: u64 = 99;
    let mut next = move || {
        seed = seed.wrapping_mul(6364136223846793005).wrapping_add(1442695040888963407);
        ((seed >> 33) % 60001) as f64 / 10000.0 - 3.0
    };
    let mut hits = 0;
    for _ in 0..2000 {
        let p = square_at(0.0, 0.0, next());
        let q = square_at(next(), next(), next());
        if let Some(m) = Manifold::polygon_to_polygon(&p, &q) {
            hits += 1;
            assert!(m.contacts.len() == 1 || m.contacts.len() == 2);
            assert!(m.penetration >= 0.0);
        }
    }
    assert!(hits > 100);
}
