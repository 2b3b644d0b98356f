use rigid2d::random::Rng;

#[test]
fn pick_reduces_modulo_the_span() {
    assert_eq!(Rng::pick(7, 0, 4), 2);
    assert_eq!(Rng::pick(0, 3, 64), 3);
    assert_eq!(Rng::pick(61, 3, 64), 64);
    assert_eq!(Rng::pick(62, 3, 64), 3);
    assert_eq!(Rng::pick(20001, 0, 20000), 0);
    assert_eq!(Rng::pick(12, -5, 5), -4);
}

#[test]
fn pick_on_a_single_value() {
    assert_eq!(Rng::pick(0, 9, 9), 9);
    assert_eq!(Rng::pick(u32::MAX, 9, 9), 9);
}

#[test]
fn pick_on_the_widest_span() {
    assert_eq!(Rng::pick(u32::MAX, 0, i32::MAX - 1), 1);
    assert_eq!(Rng::pick(5, i32::MIN, -2), i32::MIN + 5);
    assert_eq!(Rng::pick(u32::MAX, -1, i32::MAX - 2), 0);
}

#[test]
fn gen_range_stays_within_the_bounds() {
    let mut rng = Rng::new().unwrap();
    for _ in 0..2000 {
        let n = rng.gen_range(3, 64).unwrap();
        assert!(3 <= n && n <= 64);
        let c = rng.gen_range(0, 200).unwrap();
        assert!(0 <= c && c <= 200);
        let s = rng.gen_range(-7, -3).unwrap();
        assert!(-7 <= s && s <= -3);
    }
}

#[test]
fn gen_range_of_one_value() {
    let mut rng = Rng::new().unwrap();
    assert_eq!(rng.gen_range(5, 5).unwrap(), 5);
    assert_eq!(rng.gen_range(-1, -1).unwrap(), -1);
}

#[test]
fn gen_range_draws_more_than_one_value() {
    let mut rng = Rng::new().unwrap();
    let first = rng.gen_range(0, 20000).unwrap();
    let mut differs = false;
    for _ in 0..200 {
        if rng.gen_range(0, 20000).unwrap() != first {
            differs = true;
        }
    }
    assert!(differs);
}

#[test]
fn a_generator_opens_on_this_system() {
    assert!(Rng::new().is_some());
    let mut rng = Rng::new().unwrap();
    assert!(rng.gen_range(0, 1).is_some());
}
