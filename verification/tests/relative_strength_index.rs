use ta::errors::TaError;
use ta::indicators::RelativeStrengthIndex;
use ta::rational::Rat;

fn r(x: f64) -> Rat {
    let mut num = x;
    let mut den: i128 = 1;
    while num.fract() != 0.0 {
        num *= 2.0;
        den *= 2;
    }
    Rat::new(num as i128, den).unwrap()
}

fn to_f64(v: Rat) -> f64 {
    v.num as f64 / v.den as f64
}

#[test]
fn relative_strength_index_test_new() {
    assert!(RelativeStrengthIndex::new(0).is_err());
    assert!(RelativeStrengthIndex::new(1).is_ok());
}

#[test]
fn relative_strength_index_test_next() {
    let mut rsi = RelativeStrengthIndex::new(3).unwrap();
    assert_eq!(to_f64(rsi.next(r(10.0))), 50.0);
    assert_eq!(to_f64(rsi.next(r(10.5))).round(), 100.0);
    assert_eq!(to_f64(rsi.next(r(10.0))).round(), 50.0);
    assert_eq!(to_f64(rsi.next(r(9.5))).round(), 33.0);
}

#[test]
fn relative_strength_index_test_reset() {
    let mut rsi = RelativeStrengthIndex::new(3).unwrap();
    assert_eq!(to_f64(rsi.next(r(10.0))), 50.0);
    assert_eq!(to_f64(rsi.next(r(10.5))).round(), 100.0);

    rsi.reset();
    assert_eq!(to_f64(rsi.next(r(10.0))).round(), 50.0);
    assert_eq!(to_f64(rsi.next(r(10.5))).round(), 100.0);
}

#[test]
fn relative_strength_index_test_default() {
    let rsi = RelativeStrengthIndex::default();
    assert_eq!(rsi.period(), 14);
}

#[test]
fn relative_strength_index_test_display() {
    let rsi = RelativeStrengthIndex::new(16).unwrap();
    assert_eq!(rsi.to_string(), "RSI(16)");
}

#[test]
fn rsi_new_rejects_zero_period_with_invalid_parameter() {
    match RelativeStrengthIndex::new(0) {
        Err(e) => assert_eq!(e, TaError::InvalidParameter),
        Ok(_) => panic!("a zero period must be rejected"),
    }
}

#[test]
fn rsi_output_stays_within_bounds() {
    let mut rsi = RelativeStrengthIndex::new(2).unwrap();
    let inputs = [3.0, -7.5, 12.25, 12.25, 0.0, -100.0, 55.5];
    for x in inputs {
        let out = rsi.next(r(x));
        assert!(out.num >= 0);
        assert!(out.num <= 100 * out.den);
        let v = to_f64(out);
        assert!((0.0..=100.0).contains(&v));
    }
}

#[test]
fn rsi_nondecreasing_inputs_emit_hundred() {
    let mut rsi = RelativeStrengthIndex::new(3).unwrap();
    assert_eq!(to_f64(rsi.next(r(10.0))), 50.0);
    assert_eq!(to_f64(rsi.next(r(11.0))), 100.0);
    assert_eq!(to_f64(rsi.next(r(11.0))), 100.0);
    assert_eq!(to_f64(rsi.next(r(12.5))), 100.0);
}

#[test]
fn rsi_nonincreasing_inputs_emit_zero() {
    let mut rsi = RelativeStrengthIndex::new(3).unwrap();
    assert_eq!(to_f64(rsi.next(r(10.0))), 50.0);
    assert_eq!(to_f64(rsi.next(r(9.0))), 0.0);
    assert_eq!(to_f64(rsi.next(r(8.5))), 0.0);
}

#[test]
fn rsi_constant_inputs_emit_fifty() {
    let mut rsi = RelativeStrengthIndex::new(3).unwrap();
    assert_eq!(to_f64(rsi.next(r(10.0))), 50.0);
    assert_eq!(to_f64(rsi.next(r(10.0))), 50.0);
    assert_eq!(to_f64(rsi.next(r(10.0))), 50.0);
}
