use pymath::dispatch::TINY_BITS;
use pymath::repr::{NAN_BITS, NEG_INF_BITS, POS_INF_BITS};
use pymath::{gamma_case, gamma_finish, Error, GammaCase, Settled};

#[test]
fn gamma_small_integers_match_factorials() {
    let mut fact: f64 = 1.0;
    for n in 1u64..=22 {
        let case = gamma_case((n as f64).to_bits());
        assert_eq!(case, GammaCase::Done(Settled::Value(fact.to_bits())));
        fact *= n as f64;
    }
}

#[test]
fn gamma_factorial_example() {
    let case = gamma_case(5.0f64.to_bits());
    assert_eq!(case, GammaCase::Done(Settled::Value(24.0f64.to_bits())));
}

#[test]
fn gamma_negative_integer_is_domain_error() {
    for x in [-1.0f64, -2.0, -10.0, -22.0, -100.0, -1e21] {
        let case = gamma_case(x.to_bits());
        assert_eq!(case, GammaCase::Done(Settled::Fault(Error::EDOM, NAN_BITS)));
    }
}

#[test]
fn gamma_zero_carries_signed_infinity_sentinel() {
    let plus = gamma_case(0.0f64.to_bits());
    assert_eq!(plus, GammaCase::Done(Settled::Fault(Error::EDOM, POS_INF_BITS)));
    let minus = gamma_case((-0.0f64).to_bits());
    assert_eq!(minus, GammaCase::Done(Settled::Fault(Error::EDOM, NEG_INF_BITS)));
}

#[test]
fn gamma_nan_and_infinities() {
    let nan_bits = f64::NAN.to_bits();
    assert_eq!(gamma_case(nan_bits), GammaCase::Done(Settled::Value(nan_bits)));
    // A NaN with a payload comes back with the payload untouched.
    let odd_nan: u64 = 0x7ff8_dead_beef_0001;
    assert_eq!(gamma_case(odd_nan), GammaCase::Done(Settled::Value(odd_nan)));
    assert_eq!(
        gamma_case(f64::INFINITY.to_bits()),
        GammaCase::Done(Settled::Value(POS_INF_BITS))
    );
    assert_eq!(
        gamma_case(f64::NEG_INFINITY.to_bits()),
        GammaCase::Done(Settled::Fault(Error::EDOM, NAN_BITS))
    );
}

#[test]
fn gamma_overflow_past_the_huge_cutoff() {
    assert_eq!(
        gamma_case(201.0f64.to_bits()),
        GammaCase::Done(Settled::Fault(Error::ERANGE, POS_INF_BITS))
    );
    assert_eq!(
        gamma_case(200.5f64.to_bits()),
        GammaCase::Done(Settled::Fault(Error::ERANGE, POS_INF_BITS))
    );
    // Exactly 200 still takes the generic path.
    assert_eq!(
        gamma_case(200.0f64.to_bits()),
        GammaCase::Generic { negative: false, split: true }
    );
    assert_eq!(gamma_case((-200.5f64).to_bits()), GammaCase::HugeNegative);
    assert_eq!(gamma_case((-250.25f64).to_bits()), GammaCase::HugeNegative);
}

#[test]
fn gamma_tiny_magnitudes() {
    assert_eq!(gamma_case(1e-21f64.to_bits()), GammaCase::Tiny);
    assert_eq!(gamma_case((-1e-21f64).to_bits()), GammaCase::Tiny);
    assert_eq!(gamma_case(f64::MIN_POSITIVE.to_bits()), GammaCase::Tiny);
    // The literal 1e-20 rounds to exactly the cutoff pattern, and the cutoff
    // itself is not tiny, matching a strict `< 1e-20` comparison.
    assert_eq!(f64::from_bits(TINY_BITS), 1e-20);
    assert_eq!(
        gamma_case(TINY_BITS),
        GammaCase::Generic { negative: false, split: false }
    );
    assert_eq!(
        gamma_case(1e-20f64.to_bits()),
        GammaCase::Generic { negative: false, split: false }
    );
}

#[test]
fn gamma_generic_path_flags() {
    assert_eq!(
        gamma_case(4.5f64.to_bits()),
        GammaCase::Generic { negative: false, split: false }
    );
    assert_eq!(
        gamma_case((-4.5f64).to_bits()),
        GammaCase::Generic { negative: true, split: false }
    );
    assert_eq!(
        gamma_case(150.0f64.to_bits()),
        GammaCase::Generic { negative: false, split: true }
    );
    assert_eq!(
        gamma_case((-150.5f64).to_bits()),
        GammaCase::Generic { negative: true, split: true }
    );
    assert_eq!(
        gamma_case(139.5f64.to_bits()),
        GammaCase::Generic { negative: false, split: false }
    );
    assert_eq!(
        gamma_case(140.0f64.to_bits()),
        GammaCase::Generic { negative: false, split: true }
    );
    // A positive integer of 23 or more is not answered from the table.
    assert_eq!(
        gamma_case(23.0f64.to_bits()),
        GammaCase::Generic { negative: false, split: false }
    );
}

#[test]
fn gamma_large_integers() {
    // Integer detection precedes the huge-magnitude check, so a huge negative
    // integer is a pole, not a signed zero.
    let two_to_52 = 4503599627370496.0f64;
    assert_eq!(
        gamma_case((-two_to_52).to_bits()),
        GammaCase::Done(Settled::Fault(Error::EDOM, NAN_BITS))
    );
    assert_eq!(
        gamma_case(two_to_52.to_bits()),
        GammaCase::Done(Settled::Fault(Error::ERANGE, POS_INF_BITS))
    );
    // The largest half-integer is not an integer and overflows instead.
    let half = 4503599627370495.5f64;
    assert_eq!(half.fract(), 0.5);
    assert_eq!(
        gamma_case(half.to_bits()),
        GammaCase::Done(Settled::Fault(Error::ERANGE, POS_INF_BITS))
    );
}

#[test]
fn gamma_finish_reclassifies_overflow() {
    assert_eq!(
        gamma_finish(f64::INFINITY.to_bits()),
        Settled::Fault(Error::ERANGE, POS_INF_BITS)
    );
    assert_eq!(
        gamma_finish(f64::NEG_INFINITY.to_bits()),
        Settled::Fault(Error::ERANGE, POS_INF_BITS)
    );
    let ordinary = 11.631728396567448f64.to_bits();
    assert_eq!(gamma_finish(ordinary), Settled::Value(ordinary));
    let nan = f64::NAN.to_bits();
    assert_eq!(gamma_finish(nan), Settled::Value(nan));
}

#[test]
fn gamma_classification_is_pure() {
    for x in [4.5f64, 0.3, -7.0, 1e-21, 201.0, f64::NAN] {
        let first = gamma_case(x.to_bits());
        let second = gamma_case(x.to_bits());
        assert_eq!(first, second);
    }
}

#[test]
fn sinpi_bucket_rounds_twice_the_argument() {
    // Over a fine grid of reduced arguments, the bucket is 2*y rounded to
    // the nearest integer, halves away from zero.
    for k in 0..32 {
        let y = k as f64 / 16.0;
        let expected = (2.0 * y).round() as u8;
        assert_eq!(pymath::sinpi_bucket(y.to_bits()), expected, "y = {y}");
    }
    for y in [0.1f64, 0.2499999999, 0.2500000001, 0.9, 1.0, 1.1, 1.9, 1.9999999] {
        let expected = (2.0 * y).round() as u8;
        assert_eq!(pymath::sinpi_bucket(y.to_bits()), expected, "y = {y}");
    }
}

#[test]
fn sinpi_bucket_boundaries_round_half_up() {
    assert_eq!(pymath::sinpi_bucket(0.0f64.to_bits()), 0);
    assert_eq!(pymath::sinpi_bucket(0.25f64.to_bits()), 1);
    assert_eq!(pymath::sinpi_bucket(0.75f64.to_bits()), 2);
    assert_eq!(pymath::sinpi_bucket(1.25f64.to_bits()), 3);
    assert_eq!(pymath::sinpi_bucket(1.75f64.to_bits()), 4);
}
