use rigid2d::math::{
    cosine, greater, infinity, lesser, magnitude, neg_infinity, one, pi, ratio, scalar, sine,
    square_root, zero, Constants, CrossProduct, Rotation, Vector2d,
};

fn close(a: f64, b: f64) -> bool {
    (a - b).abs() < 1e-12
}

#[test]
fn new_keeps_the_components() {
    let v = Vector2d::new(1.5f64, -2.0);
    assert_eq!(v.x, 1.5);
    assert_eq!(v.y, -2.0);
}

#[test]
fn zero_is_the_zero_vector() {
    let v: Vector2d<f64> = Vector2d::zero();
    assert_eq!(v.x, 0.0);
    assert_eq!(v.y, 0.0);
}

#[test]
fn set_replaces_both_components() {
    let mut v = Vector2d::new(1.0f64, 2.0);
    v.set(-3.0, 4.5);
    assert_eq!(v.x, -3.0);
    assert_eq!(v.y, 4.5);
}

#[test]
fn len_of_three_four_is_five() {
    let v = Vector2d::new(3.0f64, 4.0);
    assert_eq!(v.len(), 5.0);
    assert_eq!(v.len_square(), 25.0);
}

#[test]
fn len_square_is_not_the_length() {
    let v = Vector2d::new(0.0f64, 3.0);
    assert_eq!(v.len_square(), 9.0);
    assert_eq!(v.len(), 3.0);
}

#[test]
fn normalize_divides_by_the_length() {
    let v = Vector2d::new(3.0f64, 4.0).normalize();
    assert_eq!(v.x, 3.0 / 5.0);
    assert_eq!(v.y, 4.0 / 5.0);
    assert!(close(v.len(), 1.0));
}

#[test]
fn normalize_of_the_zero_vector_is_not_a_number() {
    let v = Vector2d::new(0.0f64, 0.0).normalize();
    assert!(v.x.is_nan());
    assert!(v.y.is_nan());
}

#[test]
fn rotate_by_a_quarter_turn() {
    let v = Vector2d::new(1.0f64, 0.0).rotate(std::f64::consts::FRAC_PI_2);
    assert!(close(v.x, 0.0));
    assert!(close(v.y, 1.0));
    let w = Vector2d::new(0.0f64, 2.0).rotate(std::f64::consts::PI);
    assert!(close(w.x, 0.0));
    assert!(close(w.y, -2.0));
}

#[test]
fn rotate_follows_the_formula() {
    let theta = 0.3f64;
    let v = Vector2d::new(2.0f64, -1.0).rotate(theta);
    assert_eq!(v.x, 2.0 * theta.cos() - (-1.0) * theta.sin());
    assert_eq!(v.y, 2.0 * theta.sin() + (-1.0) * theta.cos());
}

#[test]
fn rotate_by_nothing_changes_nothing() {
    let v = Vector2d::new(2.0f64, -1.0).rotate(0.0);
    assert_eq!(v.x, 2.0);
    assert_eq!(v.y, -1.0);
}

#[test]
fn turn_takes_cosine_and_sine() {
    let v = Vector2d::new(1.0f64, 2.0).turn(0.0, 1.0);
    assert_eq!(v.x, -2.0);
    assert_eq!(v.y, 1.0);
    let r = Rotation { cos: 0.0f64, sin: 1.0 };
    let w = Vector2d::new(1.0f64, 2.0).rotated(&r);
    assert_eq!(w.x, -2.0);
    assert_eq!(w.y, 1.0);
}

#[test]
fn rotation_holds_cosine_and_sine() {
    let r = Rotation::of(0.5f64);
    assert_eq!(r.cos, 0.5f64.cos());
    assert_eq!(r.sin, 0.5f64.sin());
    let b = Rotation::back(0.5f64);
    assert_eq!(b.cos, (-0.5f64).cos());
    assert_eq!(b.sin, (-0.5f64).sin());
}

#[test]
fn sum_and_difference_go_by_component() {
    let a = Vector2d::new(1.0f64, 2.0);
    let b = Vector2d::new(10.0f64, 20.0);
    let s = a + b;
    assert_eq!((s.x, s.y), (11.0, 22.0));
    let d = a - b;
    assert_eq!((d.x, d.y), (-9.0, -18.0));
    let s2 = a.add_to(&b);
    assert_eq!((s2.x, s2.y), (11.0, 22.0));
    let d2 = a.less(&b);
    assert_eq!((d2.x, d2.y), (-9.0, -18.0));
}

#[test]
fn scaling_and_division_by_a_scalar() {
    let a = Vector2d::new(1.0f64, -2.0);
    let m = a * 3.0;
    assert_eq!((m.x, m.y), (3.0, -6.0));
    let q = a / 4.0;
    assert_eq!((q.x, q.y), (0.25, -0.5));
    let m2 = a.times(3.0);
    assert_eq!((m2.x, m2.y), (3.0, -6.0));
    let q2 = a.over(4.0);
    assert_eq!((q2.x, q2.y), (0.25, -0.5));
}

#[test]
fn division_by_zero_gives_infinity() {
    let q = Vector2d::new(1.0f64, -2.0) / 0.0;
    assert_eq!(q.x, f64::INFINITY);
    assert_eq!(q.y, f64::NEG_INFINITY);
}

#[test]
fn dot_product() {
    let a = Vector2d::new(1.0f64, 2.0);
    let b = Vector2d::new(3.0f64, -4.0);
    assert_eq!(a * b, -5.0);
    assert_eq!(a.dot_with(&b), -5.0);
}

#[test]
fn negation() {
    let a = -Vector2d::new(1.0f64, -2.0);
    assert_eq!((a.x, a.y), (-1.0, 2.0));
    let b = Vector2d::new(1.0f64, -2.0).reversed();
    assert_eq!((b.x, b.y), (-1.0, 2.0));
}

#[test]
fn quarter_turn_is_clockwise() {
    let a = Vector2d::new(1.0f64, 2.0).quarter_turn();
    assert_eq!((a.x, a.y), (2.0, -1.0));
}

#[test]
fn cross_product_of_two_vectors() {
    let a = Vector2d::new(1.0f64, 2.0);
    let b = Vector2d::new(3.0f64, -4.0);
    assert_eq!(a.cross_product(b), -10.0);
    assert_eq!(b.cross_product(a), 10.0);
    assert_eq!(a.cross_with(&b), -10.0);
}

#[test]
fn cross_product_of_vector_and_scalar() {
    let a = Vector2d::new(1.0f64, 2.0);
    let c = a.cross_product(3.0);
    assert_eq!((c.x, c.y), (6.0, -3.0));
}

#[test]
fn cross_product_of_scalar_and_vector() {
    let a = Vector2d::new(1.0f64, 2.0);
    let c = 3.0f64.cross_product(a);
    assert_eq!((c.x, c.y), (-6.0, 3.0));
}

#[test]
fn equality_compares_both_components() {
    let a = Vector2d::new(1.0f64, 2.0);
    assert!(a == Vector2d::new(1.0, 2.0));
    assert!(a != Vector2d::new(1.0, 2.5));
    assert!(a != Vector2d::new(0.0, 2.0));
    assert!(a.equals(&Vector2d::new(1.0, 2.0)));
    assert!(!a.equals(&Vector2d::new(1.0, 2.5)));
    let n = Vector2d::new(f64::NAN, 0.0);
    assert!(n != n);
    assert!(!n.equals(&n));
}

#[test]
fn works_in_single_precision() {
    let v = Vector2d::new(3.0f32, 4.0);
    assert_eq!(v.len(), 5.0f32);
    let d = v.less(&Vector2d::new(1.0f32, 1.0));
    assert_eq!((d.x, d.y), (2.0f32, 3.0f32));
}

#[test]
fn scalar_converts_integers() {
    assert_eq!(scalar::<f64>(7), 7.0);
    assert_eq!(scalar::<f64>(-10000), -10000.0);
    assert_eq!(scalar::<f32>(3), 3.0f32);
}

#[test]
fn ratio_is_the_nearest_scalar() {
    assert_eq!(ratio::<f64>(1, 100), 0.01);
    assert_eq!(ratio::<f64>(5, 100), 0.05);
    assert_eq!(ratio::<f64>(4, 10), 0.4);
    assert_eq!(ratio::<f64>(98, 10), 9.8);
    assert_eq!(ratio::<f64>(1, 60), 1.0 / 60.0);
    assert_eq!(ratio::<f64>(15, 10), 1.5);
    assert_eq!(ratio::<f64>(-5, 10), -0.5);
    assert_eq!(ratio::<f64>(1, 3), 1.0 / 3.0);
}

#[test]
fn constants_have_their_values() {
    let k = Constants::<f64>::new();
    assert_eq!(k.nothing, 0.0);
    assert_eq!(k.unit, 1.0);
    assert_eq!(k.floor, f64::NEG_INFINITY);
    assert_eq!(k.ceiling, f64::INFINITY);
    assert_eq!(k.margin, 0.01);
    assert_eq!(k.slop, 0.05);
    assert_eq!(k.percent, 0.4);
}

#[test]
fn the_scalar_type_gives_its_constants() {
    assert_eq!(zero::<f64>(), 0.0);
    assert!(zero::<f64>().is_sign_positive());
    assert_eq!(one::<f64>(), 1.0);
    assert_eq!(infinity::<f64>(), f64::INFINITY);
    assert_eq!(neg_infinity::<f64>(), f64::NEG_INFINITY);
    assert_eq!(pi::<f64>(), std::f64::consts::PI);
    assert_eq!(pi::<f32>(), std::f32::consts::PI);
}

#[test]
fn the_scalar_type_gives_roots_and_magnitudes() {
    assert_eq!(square_root(9.0f64), 3.0);
    assert_eq!(square_root(2.0f64), std::f64::consts::SQRT_2);
    assert!(square_root(-1.0f64).is_nan());
    assert_eq!(magnitude(-2.5f64), 2.5);
    assert_eq!(magnitude(2.5f64), 2.5);
}

#[test]
fn the_scalar_type_gives_sines_and_cosines() {
    assert_eq!(sine(0.0f64), 0.0);
    assert_eq!(cosine(0.0f64), 1.0);
    assert_eq!(sine(1.0f64), 1.0f64.sin());
    assert_eq!(cosine(1.0f64), 1.0f64.cos());
    assert!(close(sine(std::f64::consts::FRAC_PI_2), 1.0));
}

#[test]
fn the_lesser_and_the_greater_pass_over_what_is_no_number() {
    assert_eq!(lesser(1.0f64, 2.0), 1.0);
    assert_eq!(lesser(2.0f64, 1.0), 1.0);
    assert_eq!(greater(1.0f64, 2.0), 2.0);
    assert_eq!(greater(-0.45f64, 0.0), 0.0);
    assert_eq!(lesser(f64::NAN, 2.0), 2.0);
    assert_eq!(greater(2.0, f64::NAN), 2.0);
}
