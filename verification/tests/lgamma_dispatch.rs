use pymath::repr::POS_INF_BITS;
use pymath::{lgamma_case, lgamma_finish, Error, LgammaCase};

#[test]
fn lgamma_is_exactly_zero_at_one_and_two() {
    assert_eq!(lgamma_case(1.0f64.to_bits()), LgammaCase::Done(0));
    assert_eq!(lgamma_case(2.0f64.to_bits()), LgammaCase::Done(0));
    assert_eq!(f64::from_bits(0), 0.0);
    assert!(f64::from_bits(0).is_sign_positive());
}

#[test]
fn lgamma_poles_at_nonpositive_integers() {
    for x in [0.0f64, -0.0, -1.0, -3.0, -22.0, -1e21] {
        assert_eq!(lgamma_case(x.to_bits()), LgammaCase::Pole);
    }
}

#[test]
fn lgamma_positive_integers_above_two_take_the_generic_path() {
    assert_eq!(
        lgamma_case(3.0f64.to_bits()),
        LgammaCase::Generic { negative: false }
    );
    assert_eq!(
        lgamma_case(22.0f64.to_bits()),
        LgammaCase::Generic { negative: false }
    );
}

#[test]
fn lgamma_nan_and_infinities() {
    let nan_bits = f64::NAN.to_bits();
    assert_eq!(lgamma_case(nan_bits), LgammaCase::Done(nan_bits));
    assert_eq!(
        lgamma_case(f64::INFINITY.to_bits()),
        LgammaCase::Done(POS_INF_BITS)
    );
    assert_eq!(
        lgamma_case(f64::NEG_INFINITY.to_bits()),
        LgammaCase::Done(POS_INF_BITS)
    );
}

#[test]
fn lgamma_tiny_magnitudes() {
    assert_eq!(lgamma_case(1e-21f64.to_bits()), LgammaCase::TinyLog);
    assert_eq!(lgamma_case((-5e-21f64).to_bits()), LgammaCase::TinyLog);
    assert_eq!(
        lgamma_case(1e-20f64.to_bits()),
        LgammaCase::Generic { negative: false }
    );
}

#[test]
fn lgamma_generic_path_flags() {
    assert_eq!(
        lgamma_case(4.5f64.to_bits()),
        LgammaCase::Generic { negative: false }
    );
    assert_eq!(
        lgamma_case((-2.5f64).to_bits()),
        LgammaCase::Generic { negative: true }
    );
}

#[test]
fn lgamma_finish_reclassifies_overflow() {
    assert_eq!(lgamma_finish(f64::INFINITY.to_bits()), Err(Error::ERANGE));
    assert_eq!(
        lgamma_finish(f64::NEG_INFINITY.to_bits()),
        Err(Error::ERANGE)
    );
    let ordinary = 2.453736570842442f64.to_bits();
    assert_eq!(lgamma_finish(ordinary), Ok(ordinary));
}

#[test]
fn lgamma_classification_is_pure() {
    for x in [4.5f64, -2.5, 1.0, 0.0, 1e-21, f64::NAN] {
        let first = lgamma_case(x.to_bits());
        let second = lgamma_case(x.to_bits());
        assert_eq!(first, second);
    }
}

#[test]
fn error_codes_round_trip() {
    assert_eq!(Error::EDOM.code(), 33);
    assert_eq!(Error::ERANGE.code(), 34);
    assert_eq!(Error::from_errno(33), Ok(Error::EDOM));
    assert_eq!(Error::from_errno(34), Ok(Error::ERANGE));
    assert_eq!(Error::from_errno(0), Err(0));
    assert_eq!(Error::from_errno(7), Err(7));
}
