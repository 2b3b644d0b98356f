use rigid2d::body::{Circle, Polygon, RigidBody};
use rigid2d::math::Vector2d;
use rigid2d::random::Rng;
use rigid2d::scene::{Canvas, Scene};

fn close(a: f64, b: f64) -> bool {
    (a - b).abs() < 1e-9
}

fn v(x: f64, y: f64) -> Vector2d<f64> {
    Vector2d::new(x, y)
}

fn scene_of(bodies: Vec<RigidBody<f64>>) -> Scene<f64> {
    Scene {
        canvas: Canvas::new(800, 800, 20.0, 20.0),
        m_dt: 1.0 / 60.0,
        m_iterations: 10,
        gravity: v(0.0, 9.8),
        bodies,
        contacts: Vec::new(),
        pairs: Vec::new(),
        rng: Rng::new().unwrap(),
    }
}

fn fixed_circle(x: f64, y: f64, r: f64) -> RigidBody<f64> {
    let mut c = Circle::new(x, y, r).unwrap();
    c.set_static();
    RigidBody::Circle(c)
}

fn square_at(x: f64, y: f64) -> Polygon<f64> {
    let mut p = Polygon::new(x, y, 1.0).unwrap();
    p.set_vertices(&vec![v(-1.0, -1.0), v(1.0, -1.0), v(1.0, 1.0), v(-1.0, 1.0)]);
    p
}

#[test]
fn a_canvas_knows_its_scales() {
    let c = Canvas::new(800, 400, 20.0f64, 10.0);
    assert_eq!(c.scaled_width, 40.0);
    assert_eq!(c.scaled_height, 40.0);
    assert_eq!(c.width, 20.0);
    assert_eq!(c.height, 10.0);
    let c = Canvas::new(300, 600, 20.0f64, 20.0);
    assert_eq!(c.scaled_width, 15.0);
    assert_eq!(c.scaled_height, 30.0);
}

#[test]
fn a_canvas_takes_a_new_size() {
    let mut c = Canvas::new(800, 800, 20.0f64, 20.0);
    c.resize(200, 500);
    assert_eq!(c.scaled_width, 25.0);
    assert_eq!(c.scaled_height, 10.0);
    assert_eq!(c.width, 20.0);
    assert_eq!(c.height, 20.0);
}

#[test]
fn the_scene_starts_with_two_immovable_bodies() {
    let s: Scene<f64> = Scene::new(Canvas::new(800, 800, 20.0, 20.0)).unwrap();
    assert_eq!(s.bodies.len(), 2);
    assert_eq!(s.contacts.len(), 0);
    assert_eq!(s.m_iterations, 10);
    assert_eq!(s.m_dt, 1.0 / 60.0);
    assert_eq!((s.gravity.x, s.gravity.y), (0.0, 9.8));
    match &s.bodies[0] {
        RigidBody::Circle(c) => {
            assert_eq!(c.radius, 1.0);
            assert_eq!((c.object.position.x, c.object.position.y), (10.0, 10.0));
            assert_eq!(c.object.inverse_mass, 0.0);
            assert_eq!(c.object.inverse_inertia, 0.0);
        },
        RigidBody::Polygon(_) => panic!("the first body is a circle"),
    }
    match &s.bodies[1] {
        RigidBody::Polygon(p) => {
            assert_eq!(p.radius, 27.0);
            assert_eq!((p.object.position.x, p.object.position.y), (10.0, 17.0));
            assert_eq!(p.object.inverse_mass, 0.0);
            assert_eq!(p.vertices.len(), 4);
            assert_eq!((p.vertices[0].x, p.vertices[0].y), (-9.0, -0.5));
            assert_eq!((p.vertices[1].x, p.vertices[1].y), (9.0, -0.5));
            assert_eq!((p.vertices[2].x, p.vertices[2].y), (9.0, 0.5));
            assert_eq!((p.vertices[3].x, p.vertices[3].y), (-9.0, 0.5));
            assert_eq!((p.normals[0].x, p.normals[0].y), (0.0, -1.0));
        },
        RigidBody::Circle(_) => panic!("the second body is a polygon"),
    }
}

#[test]
fn immovable_bodies_never_move() {
    let mut s: Scene<f64> = Scene::new(Canvas::new(800, 800, 20.0, 20.0)).unwrap();
    for _ in 0..20 {
        s.step();
    }
    assert_eq!(s.contacts.len(), 0);
    assert_eq!(s.bodies.len(), 2);
    let o = s.bodies[0].object();
    assert_eq!((o.position.x, o.position.y), (10.0, 10.0));
    assert_eq!((o.velocity.x, o.velocity.y), (0.0, 0.0));
    let o = s.bodies[1].object();
    assert_eq!((o.position.x, o.position.y), (10.0, 17.0));
    assert_eq!(o.orient, 0.0);
}

#[test]
fn resize_cuts_the_surface_to_800_pixels() {
    let mut s: Scene<f64> = Scene::new(Canvas::new(800, 800, 20.0, 20.0)).unwrap();
    assert_eq!(s.resize(1000, 640), (800, 640));
    assert_eq!(s.canvas.scaled_width, 32.0);
    assert_eq!(s.canvas.scaled_height, 40.0);
    assert_eq!(s.resize(400, 2000), (400, 800));
    assert_eq!(s.canvas.scaled_width, 40.0);
    assert_eq!(s.canvas.scaled_height, 20.0);
    assert_eq!(s.resize(800, 800), (800, 800));
    assert_eq!(s.resize(0, 799), (0, 799));
    assert_eq!(s.bodies.len(), 2);
}

#[test]
fn a_circle_is_added_where_the_pointer_is() {
    let mut s: Scene<f64> = Scene::new(Canvas::new(800, 400, 20.0, 20.0)).unwrap();
    for i in 0..50 {
        assert!(s.add_circle(200.0, 100.0));
        assert_eq!(s.bodies.len(), 3 + i);
        match s.bodies.last().unwrap() {
            RigidBody::Circle(c) => {
                assert_eq!((c.object.position.x, c.object.position.y), (5.0, 5.0));
                assert!(0.3 <= c.radius && c.radius <= 0.8 + 1e-12);
                assert!(c.object.inverse_mass > 0.0);
                assert_eq!(c.object.mass, std::f64::consts::PI * c.radius * c.radius * 1.0);
            },
            RigidBody::Polygon(_) => panic!("a circle was asked for"),
        }
    }
}

#[test]
fn a_polygon_is_added_where_the_pointer_is() {
    let mut s: Scene<f64> = Scene::new(Canvas::new(800, 400, 20.0, 20.0)).unwrap();
    for i in 0..50 {
        assert!(s.add_polygon(400.0, 60.0));
        assert_eq!(s.bodies.len(), 3 + i);
        match s.bodies.last().unwrap() {
            RigidBody::Polygon(p) => {
                assert_eq!((p.object.position.x, p.object.position.y), (10.0, 3.0));
                assert!(0.75 <= p.radius && p.radius <= 2.25 + 1e-12);
                assert!(p.vertices.len() >= 1 && p.vertices.len() <= 64);
                assert_eq!(p.normals.len(), p.vertices.len());
            },
            RigidBody::Circle(_) => panic!("a polygon was asked for"),
        }
    }
}

#[test]
fn a_body_is_added_at_the_end() {
    let mut s: Scene<f64> = Scene::new(Canvas::new(800, 800, 20.0, 20.0)).unwrap();
    s.add_body(RigidBody::Polygon(square_at(3.0, 3.0)));
    s.add_body(RigidBody::Circle(Circle::new(15.0, 3.0, 0.5).unwrap()));
    assert_eq!(s.bodies.len(), 4);
    assert_eq!(s.bodies[2].radius(), 1.5);
    assert_eq!(s.bodies[3].radius(), 0.5);
    assert_eq!(s.contacts.len(), 0);
}

#[test]
fn bodies_far_apart_fall_freely() {
    let canvas = Canvas::new(20, 20, 20.0f64, 20.0);
    assert_eq!(canvas.scaled_width, 1.0);
    let mut s = scene_of(vec![
        fixed_circle(10.0, 10.0, 1.0),
        RigidBody::Circle(Circle::new(0.0, 0.0, 1.0).unwrap()),
        RigidBody::Polygon(square_at(30.0, -5.0)),
    ]);
    s.canvas = canvas;
    let dt = 1.0 / 60.0;
    s.step();
    assert_eq!(s.contacts.len(), 0);
    assert_eq!(s.pairs.len(), 0);
    let o = s.bodies[0].object();
    assert_eq!((o.position.x, o.position.y), (10.0, 10.0));
    assert_eq!((o.velocity.x, o.velocity.y), (0.0, 0.0));
    let o = s.bodies[1].object();
    assert_eq!(o.velocity.x, 0.0);
    assert_eq!(o.velocity.y, 9.8 * dt);
    assert_eq!((o.position.x, o.position.y), (0.0, 0.0 + 9.8 * dt * dt));
    let o = s.bodies[2].object();
    assert_eq!(o.velocity.y, 9.8 * dt);
    assert_eq!(o.position.y, -5.0 + 9.8 * dt * dt);
    assert_eq!(o.orient, 0.0);
    s.step();
    assert_eq!(s.contacts.len(), 0);
    let o = s.bodies[1].object();
    assert_eq!(o.velocity.y, 9.8 * dt + 9.8 * dt);
}

#[test]
fn contacts_are_found_anew_in_each_step() {
    let mut s = scene_of(vec![
        fixed_circle(10.0, 10.0, 1.0),
        RigidBody::Circle(Circle::new(10.0, 8.5, 1.0).unwrap()),
    ]);
    s.step();
    assert_eq!(s.contacts.len(), 1);
    assert_eq!(s.pairs.len(), 1);
    assert_eq!((s.pairs[0].a, s.pairs[0].b), (0, 1));
    assert!(close(s.contacts[0].penetration, 0.5));
    assert!(close(s.contacts[0].normal.x, 0.0));
    assert!(close(s.contacts[0].normal.y, -1.0));
    let mut o = s.bodies[1].object();
    o.position = v(10.0, 2.0);
    s.bodies[1].set_object(o);
    s.step();
    assert_eq!(s.contacts.len(), 0);
    assert_eq!(s.pairs.len(), 0);
}

#[test]
fn two_immovable_bodies_are_not_tested() {
    let mut s = scene_of(vec![fixed_circle(10.0, 10.0, 1.0), fixed_circle(10.5, 10.0, 1.0)]);
    s.step();
    assert_eq!(s.contacts.len(), 0);
    let o = s.bodies[1].object();
    assert_eq!((o.position.x, o.position.y), (10.5, 10.0));
}

#[test]
fn pairs_come_in_the_order_of_the_list() {
    let mut s = scene_of(vec![
        RigidBody::Circle(Circle::new(0.0, 0.0, 1.0).unwrap()),
        RigidBody::Circle(Circle::new(1.5, 0.0, 1.0).unwrap()),
        RigidBody::Circle(Circle::new(3.0, 0.0, 1.0).unwrap()),
        RigidBody::Circle(Circle::new(0.0, 1.5, 1.0).unwrap()),
    ]);
    s.step();
    let pairs: Vec<(usize, usize)> = s.pairs.iter().map(|p| (p.a, p.b)).collect();
    assert_eq!(pairs, vec![(0, 1), (0, 3), (1, 2)]);
    assert_eq!(s.contacts.len(), 3);
}

#[test]
fn a_falling_circle_comes_to_rest_on_a_fixed_one() {
    let mut s = scene_of(vec![
        fixed_circle(10.0, 10.0, 1.0),
        RigidBody::Circle(Circle::new(10.0, 5.0, 1.0).unwrap()),
    ]);
    s.step();
    let o = s.bodies[1].object();
    assert!(close(o.position.y, 5.002722222222222));
    assert!(close(o.velocity.y, 0.16333333333333333));
    let mut lowest: f64 = 0.0;
    for step in 1..1200 {
        s.step();
        let y = s.bodies[1].object().position.y;
        lowest = lowest.max(y);
        if step >= 600 {
            assert!(y > 7.95 && y < 8.05);
            if s.contacts.len() == 1 {
                assert!(s.contacts[0].penetration < 0.05);
            }
        }
    }
    let o = s.bodies[1].object();
    assert!((o.position.y - 8.0).abs() < 0.01);
    assert!((o.position.y - 8.00090632018739).abs() < 1e-6);
    assert!(close(o.position.x, 10.0));
    assert!(lowest < 8.1);
    let fixed = s.bodies[0].object();
    assert_eq!((fixed.position.x, fixed.position.y), (10.0, 10.0));
}

#[test]
fn a_square_and_a_circle_settle_on_the_slab() {
    let mut s: Scene<f64> = Scene::new(Canvas::new(800, 800, 20.0, 20.0)).unwrap();
    s.add_body(RigidBody::Polygon(square_at(10.5, 6.0)));
    s.add_body(RigidBody::Circle(Circle::new(4.0, 14.0, 0.5).unwrap()));
    s.step();
    assert!(close(s.bodies[2].object().position.y, 6.002722222222222));
    for _ in 1..300 {
        s.step();
    }
    let square = s.bodies[2].object();
    let circle = s.bodies[3].object();
    assert!((square.position.x - 17.504999755278835).abs() < 1e-6);
    assert!((square.position.y - 15.501840944944549).abs() < 1e-6);
    assert!((square.orient - 4.711414901635163).abs() < 1e-6);
    assert!((circle.position.y - 16.001088307823583).abs() < 1e-6);
    assert!(close(circle.position.x, 4.0));
    assert_eq!(s.contacts.len(), 2);
    assert_eq!(s.bodies.len(), 4);
}

#[test]
fn a_step_keeps_the_shapes() {
    let mut s: Scene<f64> = Scene::new(Canvas::new(800, 800, 20.0, 20.0)).unwrap();
    s.add_body(RigidBody::Polygon(square_at(10.5, 14.0)));
    for _ in 0..100 {
        s.step();
    }
    match &s.bodies[2] {
        RigidBody::Polygon(p) => {
            assert_eq!(p.vertices.len(), 4);
            assert_eq!((p.vertices[0].x, p.vertices[0].y), (-1.0, -1.0));
            assert_eq!(p.radius, 1.5);
            assert_eq!(p.object.mass, 4.0);
        },
        RigidBody::Circle(_) => panic!("the shape changed"),
    }
}

#[test]
fn a_scene_tells_whether_it_is_well_formed() {
    let mut s: Scene<f64> = Scene::new(Canvas::new(800, 800, 20.0, 20.0)).unwrap();
    assert!(s.is_well_formed());
    s.add_body(RigidBody::Circle(Circle::new(10.0, 8.5, 1.0).unwrap()));
    s.step();
    assert_eq!(s.contacts.len(), 1);
    assert!(s.is_well_formed());
    let spare = s.pairs[0];
    s.pairs.push(spare);
    assert!(!s.is_well_formed());
    s.pairs.pop();
    assert!(s.is_well_formed());
    s.pairs[0].b = 7;
    assert!(!s.is_well_formed());
    s.pairs[0].b = 0;
    assert!(!s.is_well_formed());
    s.pairs[0].b = 2;
    assert!(s.is_well_formed());
    let mut broken = square_at(0.0, 0.0);
    broken.normals.pop();
    assert!(!broken.is_well_formed());
    s.bodies.push(RigidBody::Polygon(broken));
    assert!(!s.bodies[3].is_well_formed());
    assert!(!s.is_well_formed());
}

#[test]
fn a_step_may_be_given_its_tick() {
    let mut s = scene_of(vec![
        fixed_circle(10.0, 10.0, 1.0),
        RigidBody::Circle(Circle::new(10.0, 0.0, 1.0).unwrap()),
    ]);
    s.step_by(0.5);
    let o = s.bodies[1].object();
    assert_eq!(o.velocity.y, 9.8 * 0.5);
    assert_eq!(o.position.y, 0.0 + 9.8 * 0.5 * 0.5);
    assert_eq!(s.m_dt, 1.0 / 60.0);
    let fixed = s.bodies[0].object();
    assert_eq!((fixed.position.x, fixed.position.y), (10.0, 10.0));

    let mut a = scene_of(vec![RigidBody::Circle(Circle::new(1.0, 2.0, 1.0).unwrap())]);
    let mut b = scene_of(vec![RigidBody::Circle(Circle::new(1.0, 2.0, 1.0).unwrap())]);
    a.step();
    b.step_by(1.0 / 60.0);
    assert_eq!(a.bodies[0].object().position.y, b.bodies[0].object().position.y);
    assert_eq!(a.bodies[0].object().velocity.y, b.bodies[0].object().velocity.y);
}
