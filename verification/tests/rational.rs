use ta::rational::{rat_add, rat_div_u, rat_lt, rat_scale, rat_sub, Rat};

#[test]
fn rat_new_rejects_bad_denominators() {
    assert!(Rat::new(1, 0).is_none());
    assert!(Rat::new(1, -2).is_none());
    assert!(Rat::new(3, 4).is_some());
}

#[test]
fn rat_add_is_exact() {
    let a = Rat::new(1, 2).unwrap();
    let b = Rat::new(1, 3).unwrap();
    let c = rat_add(a, b).unwrap();
    assert_eq!(c.num, 5);
    assert_eq!(c.den, 6);
}

#[test]
fn rat_sub_is_exact() {
    let a = Rat::new(3, 4).unwrap();
    let b = Rat::new(1, 4).unwrap();
    let c = rat_sub(a, b).unwrap();
    assert_eq!(c.num, 8);
    assert_eq!(c.den, 16);
}

#[test]
fn rat_scale_and_divide_are_exact() {
    let a = Rat::new(7, 3).unwrap();
    let b = rat_scale(a, 4).unwrap();
    assert_eq!(b.num, 28);
    assert_eq!(b.den, 3);
    let c = rat_div_u(b, 2).unwrap();
    assert_eq!(c.num, 28);
    assert_eq!(c.den, 6);
}

#[test]
fn rat_lt_compares_cross_multiplied() {
    let a = Rat::new(1, 3).unwrap();
    let b = Rat::new(1, 2).unwrap();
    assert!(rat_lt(a, b));
    assert!(!rat_lt(b, a));
    assert!(!rat_lt(a, a));
}

#[test]
fn rat_of_int_builds_whole_numbers() {
    let a = Rat::of_int(-17);
    assert_eq!(a.num, -17);
    assert_eq!(a.den, 1);
}
