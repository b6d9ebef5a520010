use ta::bar::Bar;
use ta::errors::TaError;
use ta::indicators::SmoothedSimpleMovingAverage;
use ta::rational::Rat;

fn r(x: f64) -> Rat {
    let mut num = x;
    let mut den: i128 = 1;
    while num.fract() != 0.0 {
        num *= 2.0;
        den *= 2;
    }
    Rat::new(num as i128, den).unwrap()
}

fn to_f64(v: Rat) -> f64 {
    v.num as f64 / v.den as f64
}

#[test]
fn smoothed_simple_moving_average_test_new() {
    assert!(SmoothedSimpleMovingAverage::new(0).is_err());
    assert!(SmoothedSimpleMovingAverage::new(1).is_ok());
}

#[test]
fn smoothed_simple_moving_average_test_next() {
    let mut ssma = SmoothedSimpleMovingAverage::new(3).unwrap();

    assert_eq!(to_f64(ssma.next(r(10.0))), 10.0);
    assert_eq!(to_f64(ssma.next(r(11.0))), 10.5);
    assert_eq!(to_f64(ssma.next(r(12.0))), 11.0);

    assert!((to_f64(ssma.next(r(13.0))) - 11.666666666666666).abs() < 1e-9);
    assert!((to_f64(ssma.next(r(14.0))) - 12.444444444444445).abs() < 1e-9);
    assert!((to_f64(ssma.next(r(15.0))) - 13.296296296296296).abs() < 1e-9);
}

#[test]
fn test_next_with_bars() {
    fn bar(close: f64) -> Bar {
        Bar::new().close(r(close))
    }

    let mut ssma = SmoothedSimpleMovingAverage::new(4).unwrap();
    assert_eq!(to_f64(ssma.next_of(&bar(4.0))), 4.0);
    assert_eq!(to_f64(ssma.next_of(&bar(5.0))), 4.5);
    assert_eq!(to_f64(ssma.next_of(&bar(6.0))), 5.0);
    assert_eq!(to_f64(ssma.next_of(&bar(6.0))), 5.25);
    assert_eq!(to_f64(ssma.next_of(&bar(6.0))), 5.4375);
    assert_eq!(to_f64(ssma.next_of(&bar(2.0))), 4.578125);
}

#[test]
fn smoothed_simple_moving_average_test_reset() {
    let mut ssma = SmoothedSimpleMovingAverage::new(3).unwrap();
    ssma.next(r(10.0));
    ssma.next(r(11.0));
    ssma.next(r(12.0));
    ssma.next(r(13.0));

    ssma.reset();
    assert_eq!(to_f64(ssma.next(r(99.0))), 99.0);
}

#[test]
fn smoothed_simple_moving_average_test_default() {
    let default_ssma = SmoothedSimpleMovingAverage::default();
    assert_eq!(default_ssma.period(), 9);
}

#[test]
fn smoothed_simple_moving_average_test_display() {
    let ssma = SmoothedSimpleMovingAverage::new(5).unwrap();
    assert_eq!(ssma.to_string(), "SSMA(5)");
}

#[test]
fn test_period_1() {
    let mut ssma = SmoothedSimpleMovingAverage::new(1).unwrap();
    assert_eq!(to_f64(ssma.next(r(100.0))), 100.0);
    assert_eq!(to_f64(ssma.next(r(200.0))), 200.0);
    assert_eq!(to_f64(ssma.next(r(300.0))), 300.0);
}

#[test]
fn ssma_new_rejects_zero_period_with_invalid_parameter() {
    match SmoothedSimpleMovingAverage::new(0) {
        Err(e) => assert_eq!(e, TaError::InvalidParameter),
        Ok(_) => panic!("a zero period must be rejected"),
    }
}

#[test]
fn ssma_warmup_equals_running_mean() {
    let mut ssma = SmoothedSimpleMovingAverage::new(5).unwrap();
    assert_eq!(to_f64(ssma.next(r(2.0))), 2.0);
    assert_eq!(to_f64(ssma.next(r(4.0))), 3.0);
    assert_eq!(to_f64(ssma.next(r(9.0))), 5.0);
}

#[test]
fn ssma_reset_replays_identically() {
    let mut a = SmoothedSimpleMovingAverage::new(3).unwrap();
    let inputs = [10.0, 11.0, 12.0, 13.0, 14.0];
    let first: Vec<f64> = inputs.iter().map(|&x| to_f64(a.next(r(x)))).collect();
    a.reset();
    let second: Vec<f64> = inputs.iter().map(|&x| to_f64(a.next(r(x)))).collect();
    assert_eq!(first, second);
}
