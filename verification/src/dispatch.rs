//! Special-case dispatch for gamma and log-gamma.
//!
//! `gamma_case` and `lgamma_case` classify an input bit pattern exactly as
//! the evaluation algorithm requires, in order: NaN, infinities, zeros,
//! non-positive integers, small positive integers (answered from the
//! factorial table), tiny magnitudes, huge magnitudes, and the generic
//! Lanczos path.  Resolved cases carry the finished result or the error kind;
//! the error kind keeps the conventional best-effort sentinel value beside
//! it, so callers that follow the C errno convention lose nothing.
//! `gamma_finish` / `lgamma_finish` take the bit pattern produced by the
//! generic numeric path and reclassify an overflowed result as a range error.

use vstd::prelude::*;
use vstd::arithmetic::div_mod::lemma_div_multiples_vanish_fancy;
use vstd::arithmetic::mul::lemma_mul_is_associative;
use vstd::arithmetic::power2::{lemma2_to64, lemma2_to64_rest, lemma_pow2_adds, lemma_pow2_pos, pow2};
use crate::err::Error;
use crate::repr::{
    abs_of, abs_scaled, biased_exp, frac_of, int_magnitude, integer_magnitude, is_finite_bits,
    is_integer_bits, is_integer_value, is_nan_bits, lemma_fields, lemma_scaled_decode,
    lemma_scaled_decode_wide, lemma_scaled_order, lemma_scaled_strictly_monotone, sign_of,
    ABS_MASK, NAN_BITS, NEG_INF_BITS, POS_INF_BITS, SIGN_MASK,
};

verus! {

/// The tiny-magnitude cutoff: the double that the literal `1e-20` rounds to,
/// which is also the largest double below the real `10^-20`.  Magnitudes
/// strictly below this pattern take the reciprocal approximation.
pub const TINY_BITS: u64 = 0x3bc7_9ca1_0c92_4223;

/// The pattern of `2.0`, the upper end of log-gamma's exact integer range.
pub const TWO_BITS: u64 = 0x4000_0000_0000_0000;

/// The pattern of `23.0`: positive integers below it are answered from the
/// factorial table.
pub const TWENTY_THREE_BITS: u64 = 0x4037_0000_0000_0000;

/// The pattern of `140.0`: from this magnitude on, the generic path must
/// split its power term to avoid intermediate overflow.
pub const SPLIT_BITS: u64 = 0x4061_8000_0000_0000;

/// The pattern of `200.0`: magnitudes beyond it never reach the generic path.
pub const HUGE_BITS: u64 = 0x4069_0000_0000_0000;

/// The pattern of `0.25`, the first bucket boundary of the `sin(pi*x)`
/// helper's classification.
pub const QUARTER_BITS: u64 = 0x3fd0_0000_0000_0000;

/// The pattern of `0.75`.
pub const THREE_QUARTER_BITS: u64 = 0x3fe8_0000_0000_0000;

/// The pattern of `1.25`.
pub const FIVE_QUARTER_BITS: u64 = 0x3ff4_0000_0000_0000;

/// The pattern of `1.75`.
pub const SEVEN_QUARTER_BITS: u64 = 0x3ffc_0000_0000_0000;

/// A finished outcome: either a value, or an error kind together with the
/// best-effort sentinel value (NaN, a signed infinity) that the C errno
/// convention would have produced for it.
#[derive(Debug, Clone, Copy, PartialEq, Eq, Structural)]
pub enum Settled {
    Value(u64),
    Fault(Error, u64),
}

/// The decision of the gamma dispatcher: a finished outcome, or the numeric
/// path the caller must evaluate.
#[derive(Debug, Clone, Copy, PartialEq, Eq, Structural)]
pub enum GammaCase {
    /// Resolved without numeric work.
    Done(Settled),
    /// `|x| < 1e-20`: evaluate `1/x` and hand the bits to `gamma_finish`.
    Tiny,
    /// `|x| > 200` and negative: the result is the correctly signed zero
    /// `0 / sin(pi*x)`.
    HugeNegative,
    /// The Lanczos path; `negative` selects the reflection formula and
    /// `split` (for `|x| >= 140`) the two-step power evaluation.  The final
    /// bits go to `gamma_finish`.
    Generic { negative: bool, split: bool },
}

/// The decision of the log-gamma dispatcher.
#[derive(Debug, Clone, Copy, PartialEq, Eq, Structural)]
pub enum LgammaCase {
    /// Resolved without numeric work.
    Done(u64),
    /// A pole: a non-positive integer input, a domain error.
    Pole,
    /// `|x| < 1e-20`: the result is `-ln|x|`.
    TinyLog,
    /// The Lanczos path; `negative` selects the reflection formula.  The
    /// final bits go to `lgamma_finish`.
    Generic { negative: bool },
}

/// The mathematical factorial.
pub open spec fn factorial(n: nat) -> nat
    decreases n,
{
    if n == 0 {
        1
    } else {
        n * factorial((n - 1) as nat)
    }
}

/// The bit pattern of `k!` as a double, for `k` up to 22; every entry is
/// exactly representable.
pub open spec fn fact_bits(k: int) -> u64 {
    if k == 0 {
        0x3ff0_0000_0000_0000
    } else if k == 1 {
        0x3ff0_0000_0000_0000
    } else if k == 2 {
        0x4000_0000_0000_0000
    } else if k == 3 {
        0x4018_0000_0000_0000
    } else if k == 4 {
        0x4038_0000_0000_0000
    } else if k == 5 {
        0x405e_0000_0000_0000
    } else if k == 6 {
        0x4086_8000_0000_0000
    } else if k == 7 {
        0x40b3_b000_0000_0000
    } else if k == 8 {
        0x40e3_b000_0000_0000
    } else if k == 9 {
        0x4116_2600_0000_0000
    } else if k == 10 {
        0x414b_af80_0000_0000
    } else if k == 11 {
        0x4183_08a8_0000_0000
    } else if k == 12 {
        0x41bc_8cfc_0000_0000
    } else if k == 13 {
        0x41f7_328c_c000_0000
    } else if k == 14 {
        0x4234_4c3b_2800_0000
    } else if k == 15 {
        0x4273_0777_7580_0000
    } else if k == 16 {
        0x42b3_0777_7580_0000
    } else if k == 17 {
        0x42f4_37ee_ecd8_0000
    } else if k == 18 {
        0x4336_beec_ca73_0000
    } else if k == 19 {
        0x437b_02b9_3068_9000
    } else if k == 20 {
        0x43c0_e1b3_be41_5a00
    } else if k == 21 {
        0x4406_283b_e9b5_c620
    } else if k == 22 {
        0x444e_7752_6159_f06c
    } else {
        0
    }
}

/// What the gamma dispatcher decides for a given input pattern.
pub open spec fn gamma_case_spec(b: u64) -> GammaCase {
    if is_nan_bits(b) {
        GammaCase::Done(Settled::Value(b))
    } else if b == POS_INF_BITS {
        GammaCase::Done(Settled::Value(b))
    } else if b == NEG_INF_BITS {
        GammaCase::Done(Settled::Fault(Error::EDOM, NAN_BITS))
    } else if abs_of(b) == 0 {
        GammaCase::Done(
            Settled::Fault(
                Error::EDOM,
                if sign_of(b) {
                    NEG_INF_BITS
                } else {
                    POS_INF_BITS
                },
            ),
        )
    } else if is_integer_bits(b) && sign_of(b) {
        GammaCase::Done(Settled::Fault(Error::EDOM, NAN_BITS))
    } else if is_integer_bits(b) && abs_scaled(b) < 23 * (pow2(1074) as int) {
        GammaCase::Done(Settled::Value(fact_bits(int_magnitude(b) - 1)))
    } else if abs_scaled(b) < abs_scaled(TINY_BITS) {
        GammaCase::Tiny
    } else if abs_scaled(b) > 200 * (pow2(1074) as int) {
        if sign_of(b) {
            GammaCase::HugeNegative
        } else {
            GammaCase::Done(Settled::Fault(Error::ERANGE, POS_INF_BITS))
        }
    } else {
        GammaCase::Generic { negative: sign_of(b), split: abs_scaled(b) >= 140 * (pow2(1074) as int) }
    }
}

/// The overflow reclassification applied to the bits coming back from the
/// tiny and generic gamma paths.
pub open spec fn gamma_finish_spec(r: u64) -> Settled {
    if abs_of(r) == POS_INF_BITS {
        Settled::Fault(Error::ERANGE, POS_INF_BITS)
    } else {
        Settled::Value(r)
    }
}

/// What the log-gamma dispatcher decides for a given input pattern.
pub open spec fn lgamma_case_spec(b: u64) -> LgammaCase {
    if is_nan_bits(b) {
        LgammaCase::Done(b)
    } else if abs_of(b) == POS_INF_BITS {
        LgammaCase::Done(POS_INF_BITS)
    } else if is_integer_bits(b) && (sign_of(b) || abs_scaled(b) <= 2 * (pow2(1074) as int)) {
        if sign_of(b) || abs_of(b) == 0 {
            LgammaCase::Pole
        } else {
            LgammaCase::Done(0)
        }
    } else if abs_scaled(b) < abs_scaled(TINY_BITS) {
        LgammaCase::TinyLog
    } else {
        LgammaCase::Generic { negative: sign_of(b) }
    }
}

/// The overflow reclassification applied to the bits coming back from the
/// generic log-gamma path.
pub open spec fn lgamma_finish_spec(r: u64) -> core::result::Result<u64, Error> {
    if abs_of(r) == POS_INF_BITS {
        core::result::Result::Err(Error::ERANGE)
    } else {
        core::result::Result::Ok(r)
    }
}

/// The concrete values of the factorial spec function.
pub proof fn lemma_factorial_values()
    ensures
        factorial(0) == 1,
        factorial(1) == 1,
        factorial(2) == 2,
        factorial(3) == 6,
        factorial(4) == 24,
        factorial(5) == 120,
        factorial(6) == 720,
        factorial(7) == 5040,
        factorial(8) == 40320,
        factorial(9) == 362880,
        factorial(10) == 3628800,
        factorial(11) == 39916800,
        factorial(12) == 479001600,
        factorial(13) == 6227020800,
        factorial(14) == 87178291200,
        factorial(15) == 1307674368000,
        factorial(16) == 20922789888000,
        factorial(17) == 355687428096000,
        factorial(18) == 6402373705728000,
        factorial(19) == 121645100408832000,
        factorial(20) == 2432902008176640000,
        factorial(21) == 51090942171709440000,
        factorial(22) == 1124000727777607680000,
{
    assert(factorial(0) == 1);
    assert(factorial(1) == 1);
    assert(factorial(2) == 2);
    assert(factorial(3) == 6);
    assert(factorial(4) == 24);
    assert(factorial(5) == 120);
    assert(factorial(6) == 720);
    assert(factorial(7) == 5040);
    assert(factorial(8) == 40320);
    assert(factorial(9) == 362880);
    assert(factorial(10) == 3628800);
    assert(factorial(11) == 39916800);
    assert(factorial(12) == 479001600);
    assert(factorial(13) == 6227020800);
    assert(factorial(14) == 87178291200);
    assert(factorial(15) == 1307674368000);
    assert(factorial(16) == 20922789888000);
    assert(factorial(17) == 355687428096000);
    assert(factorial(18) == 6402373705728000);
    assert(factorial(19) == 121645100408832000);
    assert(factorial(20) == 2432902008176640000);
    assert(factorial(21) == 51090942171709440000);
    assert(factorial(22) == 1124000727777607680000);
}

/// Every factorial table entry is a positive finite pattern encoding exactly
/// `k!`.
pub proof fn lemma_fact_decode(k: int)
    requires
        0 <= k < 23,
    ensures
        !sign_of(fact_bits(k)),
        is_finite_bits(fact_bits(k)),
        fact_bits(k) <= ABS_MASK,
        abs_scaled(fact_bits(k)) == factorial(k as nat) * (pow2(1074) as int),
{
    lemma2_to64();
    lemma2_to64_rest();
    lemma_factorial_values();
    lemma_fields(fact_bits(k));
    if k == 0 {
        assert(biased_exp(0x3ff0_0000_0000_0000u64) == 1023 && frac_of(0x3ff0_0000_0000_0000u64)
            == 0 && !sign_of(0x3ff0_0000_0000_0000u64)) by (bit_vector);
        lemma_scaled_decode(0x3ff0_0000_0000_0000, 1, 52);
    }
    if k == 1 {
        assert(biased_exp(0x3ff0_0000_0000_0000u64) == 1023 && frac_of(0x3ff0_0000_0000_0000u64)
            == 0 && !sign_of(0x3ff0_0000_0000_0000u64)) by (bit_vector);
        lemma_scaled_decode(0x3ff0_0000_0000_0000, 1, 52);
    }
    if k == 2 {
        assert(biased_exp(0x4000_0000_0000_0000u64) == 1024 && frac_of(0x4000_0000_0000_0000u64)
            == 0 && !sign_of(0x4000_0000_0000_0000u64)) by (bit_vector);
        lemma_scaled_decode(0x4000_0000_0000_0000, 2, 51);
    }
    if k == 3 {
        assert(biased_exp(0x4018_0000_0000_0000u64) == 1025 && frac_of(0x4018_0000_0000_0000u64)
            == 0x0008_0000_0000_0000 && !sign_of(0x4018_0000_0000_0000u64)) by (bit_vector);
        lemma_scaled_decode(0x4018_0000_0000_0000, 6, 50);
    }
    if k == 4 {
        assert(biased_exp(0x4038_0000_0000_0000u64) == 1027 && frac_of(0x4038_0000_0000_0000u64)
            == 0x0008_0000_0000_0000 && !sign_of(0x4038_0000_0000_0000u64)) by (bit_vector);
        lemma_scaled_decode(0x4038_0000_0000_0000, 24, 48);
    }
    if k == 5 {
        assert(biased_exp(0x405e_0000_0000_0000u64) == 1029 && frac_of(0x405e_0000_0000_0000u64)
            == 0x000e_0000_0000_0000 && !sign_of(0x405e_0000_0000_0000u64)) by (bit_vector);
        lemma_scaled_decode(0x405e_0000_0000_0000, 120, 46);
    }
    if k == 6 {
        assert(biased_exp(0x4086_8000_0000_0000u64) == 1032 && frac_of(0x4086_8000_0000_0000u64)
            == 0x0006_8000_0000_0000 && !sign_of(0x4086_8000_0000_0000u64)) by (bit_vector);
        lemma_scaled_decode(0x4086_8000_0000_0000, 720, 43);
    }
    if k == 7 {
        assert(biased_exp(0x40b3_b000_0000_0000u64) == 1035 && frac_of(0x40b3_b000_0000_0000u64)
            == 0x0003_b000_0000_0000 && !sign_of(0x40b3_b000_0000_0000u64)) by (bit_vector);
        lemma_scaled_decode(0x40b3_b000_0000_0000, 5040, 40);
    }
    if k == 8 {
        assert(biased_exp(0x40e3_b000_0000_0000u64) == 1038 && frac_of(0x40e3_b000_0000_0000u64)
            == 0x0003_b000_0000_0000 && !sign_of(0x40e3_b000_0000_0000u64)) by (bit_vector);
        lemma_scaled_decode(0x40e3_b000_0000_0000, 40320, 37);
    }
    if k == 9 {
        assert(biased_exp(0x4116_2600_0000_0000u64) == 1041 && frac_of(0x4116_2600_0000_0000u64)
            == 0x0006_2600_0000_0000 && !sign_of(0x4116_2600_0000_0000u64)) by (bit_vector);
        lemma_scaled_decode(0x4116_2600_0000_0000, 362880, 34);
    }
    if k == 10 {
        assert(biased_exp(0x414b_af80_0000_0000u64) == 1044 && frac_of(0x414b_af80_0000_0000u64)
            == 0x000b_af80_0000_0000 && !sign_of(0x414b_af80_0000_0000u64)) by (bit_vector);
        lemma_scaled_decode(0x414b_af80_0000_0000, 3628800, 31);
    }
    if k == 11 {
        assert(biased_exp(0x4183_08a8_0000_0000u64) == 1048 && frac_of(0x4183_08a8_0000_0000u64)
            == 0x0003_08a8_0000_0000 && !sign_of(0x4183_08a8_0000_0000u64)) by (bit_vector);
        lemma_scaled_decode(0x4183_08a8_0000_0000, 39916800, 27);
    }
    if k == 12 {
        assert(biased_exp(0x41bc_8cfc_0000_0000u64) == 1051 && frac_of(0x41bc_8cfc_0000_0000u64)
            == 0x000c_8cfc_0000_0000 && !sign_of(0x41bc_8cfc_0000_0000u64)) by (bit_vector);
        lemma_scaled_decode(0x41bc_8cfc_0000_0000, 479001600, 24);
    }
    if k == 13 {
        assert(biased_exp(0x41f7_328c_c000_0000u64) == 1055 && frac_of(0x41f7_328c_c000_0000u64)
            == 0x0007_328c_c000_0000 && !sign_of(0x41f7_328c_c000_0000u64)) by (bit_vector);
        lemma_scaled_decode(0x41f7_328c_c000_0000, 6227020800, 20);
    }
    if k == 14 {
        assert(biased_exp(0x4234_4c3b_2800_0000u64) == 1059 && frac_of(0x4234_4c3b_2800_0000u64)
            == 0x0004_4c3b_2800_0000 && !sign_of(0x4234_4c3b_2800_0000u64)) by (bit_vector);
        lemma_scaled_decode(0x4234_4c3b_2800_0000, 87178291200, 16);
    }
    if k == 15 {
        assert(biased_exp(0x4273_0777_7580_0000u64) == 1063 && frac_of(0x4273_0777_7580_0000u64)
            == 0x0003_0777_7580_0000 && !sign_of(0x4273_0777_7580_0000u64)) by (bit_vector);
        lemma_scaled_decode(0x4273_0777_7580_0000, 1307674368000, 12);
    }
    if k == 16 {
        assert(biased_exp(0x42b3_0777_7580_0000u64) == 1067 && frac_of(0x42b3_0777_7580_0000u64)
            == 0x0003_0777_7580_0000 && !sign_of(0x42b3_0777_7580_0000u64)) by (bit_vector);
        lemma_scaled_decode(0x42b3_0777_7580_0000, 20922789888000, 8);
    }
    if k == 17 {
        assert(biased_exp(0x42f4_37ee_ecd8_0000u64) == 1071 && frac_of(0x42f4_37ee_ecd8_0000u64)
            == 0x0004_37ee_ecd8_0000 && !sign_of(0x42f4_37ee_ecd8_0000u64)) by (bit_vector);
        lemma_scaled_decode(0x42f4_37ee_ecd8_0000, 355687428096000, 4);
    }
    if k == 18 {
        assert(biased_exp(0x4336_beec_ca73_0000u64) == 1075 && frac_of(0x4336_beec_ca73_0000u64)
            == 0x0006_beec_ca73_0000 && !sign_of(0x4336_beec_ca73_0000u64)) by (bit_vector);
        lemma_scaled_decode(0x4336_beec_ca73_0000, 6402373705728000, 0);
    }
    if k == 19 {
        assert(biased_exp(0x437b_02b9_3068_9000u64) == 1079 && frac_of(0x437b_02b9_3068_9000u64)
            == 0x000b_02b9_3068_9000 && !sign_of(0x437b_02b9_3068_9000u64)) by (bit_vector);
        lemma_scaled_decode_wide(0x437b_02b9_3068_9000, 121645100408832000, 4);
    }
    if k == 20 {
        assert(biased_exp(0x43c0_e1b3_be41_5a00u64) == 1084 && frac_of(0x43c0_e1b3_be41_5a00u64)
            == 0x0000_e1b3_be41_5a00 && !sign_of(0x43c0_e1b3_be41_5a00u64)) by (bit_vector);
        lemma_scaled_decode_wide(0x43c0_e1b3_be41_5a00, 2432902008176640000, 9);
    }
    if k == 21 {
        assert(biased_exp(0x4406_283b_e9b5_c620u64) == 1088 && frac_of(0x4406_283b_e9b5_c620u64)
            == 0x0006_283b_e9b5_c620 && !sign_of(0x4406_283b_e9b5_c620u64)) by (bit_vector);
        lemma_scaled_decode_wide(0x4406_283b_e9b5_c620, 51090942171709440000, 13);
    }
    if k == 22 {
        assert(biased_exp(0x444e_7752_6159_f06cu64) == 1092 && frac_of(0x444e_7752_6159_f06cu64)
            == 0x000e_7752_6159_f06c && !sign_of(0x444e_7752_6159_f06cu64)) by (bit_vector);
        lemma_scaled_decode_wide(0x444e_7752_6159_f06c, 1124000727777607680000, 17);
    }
}

/// The scaled magnitudes of the dispatch cutoffs.
pub proof fn lemma_cutoff_values()
    ensures
        abs_scaled(TINY_BITS) == 6646139978924579 * (pow2(955) as int),
        abs_scaled(TWO_BITS) == 2 * (pow2(1074) as int),
        abs_scaled(TWENTY_THREE_BITS) == 23 * (pow2(1074) as int),
        abs_scaled(SPLIT_BITS) == 140 * (pow2(1074) as int),
        abs_scaled(HUGE_BITS) == 200 * (pow2(1074) as int),
{
    lemma2_to64_rest();
    assert(biased_exp(0x3bc7_9ca1_0c92_4223u64) == 956 && frac_of(0x3bc7_9ca1_0c92_4223u64)
        == 0x0007_9ca1_0c92_4223) by (bit_vector);
    assert(biased_exp(0x4000_0000_0000_0000u64) == 1024 && frac_of(0x4000_0000_0000_0000u64) == 0)
        by (bit_vector);
    assert(biased_exp(0x4037_0000_0000_0000u64) == 1027 && frac_of(0x4037_0000_0000_0000u64)
        == 0x0007_0000_0000_0000) by (bit_vector);
    assert(biased_exp(0x4061_8000_0000_0000u64) == 1030 && frac_of(0x4061_8000_0000_0000u64)
        == 0x0001_8000_0000_0000) by (bit_vector);
    assert(biased_exp(0x4069_0000_0000_0000u64) == 1030 && frac_of(0x4069_0000_0000_0000u64)
        == 0x0009_0000_0000_0000) by (bit_vector);
    lemma_scaled_decode(TWO_BITS, 2, 51);
    lemma_scaled_decode(TWENTY_THREE_BITS, 23, 48);
    lemma_scaled_decode(SPLIT_BITS, 140, 45);
    lemma_scaled_decode(HUGE_BITS, 200, 45);
}

/// Classify a gamma input.  The result is a function of the input pattern
/// alone, so repeated calls agree bit for bit.
pub fn gamma_case(b: u64) -> (c: GammaCase)
    ensures
        c == gamma_case_spec(b),
{
    let abs = b & ABS_MASK;
    proof {
        lemma_fields(b);
    }
    if abs > POS_INF_BITS {
        return GammaCase::Done(Settled::Value(b));
    }
    if b == POS_INF_BITS {
        return GammaCase::Done(Settled::Value(b));
    }
    if b == NEG_INF_BITS {
        return GammaCase::Done(Settled::Fault(Error::EDOM, NAN_BITS));
    }
    if abs == 0 {
        let sentinel = if b >= SIGN_MASK {
            NEG_INF_BITS
        } else {
            POS_INF_BITS
        };
        return GammaCase::Done(Settled::Fault(Error::EDOM, sentinel));
    }
    let negative = b >= SIGN_MASK;
    proof {
        lemma_cutoff_values();
        lemma_scaled_order(abs, TINY_BITS);
        lemma_scaled_order(abs, TWENTY_THREE_BITS);
        lemma_scaled_order(abs, SPLIT_BITS);
        lemma_scaled_order(abs, HUGE_BITS);
        lemma_scaled_strictly_monotone(0, abs);
        assert(abs_scaled(b) == abs_scaled(abs));
        assert(is_integer_bits(b) == is_integer_bits(abs));
    }
    if is_integer_value(abs) {
        if negative {
            return GammaCase::Done(Settled::Fault(Error::EDOM, NAN_BITS));
        }
        if abs < TWENTY_THREE_BITS {
            let n = integer_magnitude(abs);
            return GammaCase::Done(Settled::Value(factorial_value_bits(n - 1)));
        }
    }
    if abs < TINY_BITS {
        return GammaCase::Tiny;
    }
    if abs > HUGE_BITS {
        if negative {
            return GammaCase::HugeNegative;
        }
        return GammaCase::Done(Settled::Fault(Error::ERANGE, POS_INF_BITS));
    }
    GammaCase::Generic { negative, split: abs >= SPLIT_BITS }
}

/// Turn the bits coming back from a numeric gamma path into the final
/// outcome: an infinite result is an overflow, a range error with the
/// positive-infinity sentinel.
pub fn gamma_finish(r: u64) -> (s: Settled)
    ensures
        s == gamma_finish_spec(r),
{
    proof {
        lemma_fields(r);
    }
    if (r & ABS_MASK) == POS_INF_BITS {
        Settled::Fault(Error::ERANGE, POS_INF_BITS)
    } else {
        Settled::Value(r)
    }
}

/// Classify a log-gamma input.  The result is a function of the input
/// pattern alone, so repeated calls agree bit for bit.
pub fn lgamma_case(b: u64) -> (c: LgammaCase)
    ensures
        c == lgamma_case_spec(b),
{
    let abs = b & ABS_MASK;
    proof {
        lemma_fields(b);
    }
    if abs > POS_INF_BITS {
        return LgammaCase::Done(b);
    }
    if abs == POS_INF_BITS {
        return LgammaCase::Done(POS_INF_BITS);
    }
    let negative = b >= SIGN_MASK;
    proof {
        lemma_cutoff_values();
        lemma_scaled_order(abs, TWO_BITS);
        lemma_scaled_order(abs, TINY_BITS);
        assert(abs_scaled(b) == abs_scaled(abs));
        assert(is_integer_bits(b) == is_integer_bits(abs));
    }
    if is_integer_value(abs) && (negative || abs <= TWO_BITS) {
        if negative || abs == 0 {
            return LgammaCase::Pole;
        }
        return LgammaCase::Done(0);
    }
    if abs < TINY_BITS {
        return LgammaCase::TinyLog;
    }
    LgammaCase::Generic { negative }
}

/// Turn the bits coming back from the numeric log-gamma path into the final
/// outcome: an infinite result is an overflow range error.
pub fn lgamma_finish(r: u64) -> (res: core::result::Result<u64, Error>)
    ensures
        res == lgamma_finish_spec(r),
{
    proof {
        lemma_fields(r);
    }
    if (r & ABS_MASK) == POS_INF_BITS {
        Err(Error::ERANGE)
    } else {
        Ok(r)
    }
}

/// The five-way bucket classification of the `sin(pi*x)` helper: for a
/// reduced argument `y` in `[0, 2)`, pick the trigonometric identity that is
/// best conditioned, by rounding `2*y` to the nearest integer with halves
/// rounded up.  The quotient below is exactly `floor(2*y + 1/2)`.
pub fn sinpi_bucket(y: u64) -> (n: u8)
    requires
        !sign_of(y),
        abs_scaled(y) < 2 * (pow2(1074) as int),
    ensures
        n as int == (4 * abs_scaled(y) + (pow2(1074) as int)) / (2 * (pow2(1074) as int)),
        n <= 4,
{
    proof {
        lemma_fields(y);
        lemma2_to64();
        lemma2_to64_rest();
        assert(biased_exp(0x3fd0_0000_0000_0000u64) == 1021 && frac_of(0x3fd0_0000_0000_0000u64)
            == 0 && biased_exp(0x3fe8_0000_0000_0000u64) == 1022 && frac_of(
            0x3fe8_0000_0000_0000u64,
        ) == 0x0008_0000_0000_0000 && biased_exp(0x3ff4_0000_0000_0000u64) == 1023 && frac_of(
            0x3ff4_0000_0000_0000u64,
        ) == 0x0004_0000_0000_0000 && biased_exp(0x3ffc_0000_0000_0000u64) == 1023 && frac_of(
            0x3ffc_0000_0000_0000u64,
        ) == 0x000c_0000_0000_0000) by (bit_vector);
        let q = pow2(1072) as int;
        lemma_pow2_adds(52, 1020);
        assert(abs_scaled(QUARTER_BITS) == q);
        lemma_pow2_adds(51, 1021);
        assert(abs_scaled(THREE_QUARTER_BITS) == 3 * q) by {
            lemma_mul_is_associative(3, pow2(51) as int, pow2(1021) as int);
        }
        lemma_pow2_adds(50, 1022);
        assert(abs_scaled(FIVE_QUARTER_BITS) == 5 * q) by {
            lemma_mul_is_associative(5, pow2(50) as int, pow2(1022) as int);
        }
        assert(abs_scaled(SEVEN_QUARTER_BITS) == 7 * q) by {
            lemma_mul_is_associative(7, pow2(50) as int, pow2(1022) as int);
        }
        lemma_pow2_adds(2, 1072);
        assert(pow2(1074) == 4 * q);
        lemma_scaled_order(y, QUARTER_BITS);
        lemma_scaled_order(y, THREE_QUARTER_BITS);
        lemma_scaled_order(y, FIVE_QUARTER_BITS);
        lemma_scaled_order(y, SEVEN_QUARTER_BITS);
    }
    let n: u8 = if y < QUARTER_BITS {
        0
    } else if y < THREE_QUARTER_BITS {
        1
    } else if y < FIVE_QUARTER_BITS {
        2
    } else if y < SEVEN_QUARTER_BITS {
        3
    } else {
        4
    };
    proof {
        let s = abs_scaled(y);
        let p = pow2(1074) as int;
        lemma_pow2_pos(1074);
        if n == 0 {
            lemma_div_multiples_vanish_fancy(0, 4 * s + p, 2 * p);
        } else if n == 1 {
            lemma_div_multiples_vanish_fancy(1, 4 * s + p - 2 * p, 2 * p);
        } else if n == 2 {
            lemma_div_multiples_vanish_fancy(2, 4 * s + p - 4 * p, 2 * p);
        } else if n == 3 {
            lemma_div_multiples_vanish_fancy(3, 4 * s + p - 6 * p, 2 * p);
        } else {
            lemma_div_multiples_vanish_fancy(4, 4 * s + p - 8 * p, 2 * p);
        }
    }
    n
}

/// Look up the bit pattern of `k!`.
pub fn factorial_value_bits(k: u64) -> (r: u64)
    requires
        k < 23,
    ensures
        r == fact_bits(k as int),
{
    match k {
        0 => 0x3ff0_0000_0000_0000,
        1 => 0x3ff0_0000_0000_0000,
        2 => 0x4000_0000_0000_0000,
        3 => 0x4018_0000_0000_0000,
        4 => 0x4038_0000_0000_0000,
        5 => 0x405e_0000_0000_0000,
        6 => 0x4086_8000_0000_0000,
        7 => 0x40b3_b000_0000_0000,
        8 => 0x40e3_b000_0000_0000,
        9 => 0x4116_2600_0000_0000,
        10 => 0x414b_af80_0000_0000,
        11 => 0x4183_08a8_0000_0000,
        12 => 0x41bc_8cfc_0000_0000,
        13 => 0x41f7_328c_c000_0000,
        14 => 0x4234_4c3b_2800_0000,
        15 => 0x4273_0777_7580_0000,
        16 => 0x42b3_0777_7580_0000,
        17 => 0x42f4_37ee_ecd8_0000,
        18 => 0x4336_beec_ca73_0000,
        19 => 0x437b_02b9_3068_9000,
        20 => 0x43c0_e1b3_be41_5a00,
        21 => 0x4406_283b_e9b5_c620,
        _ => 0x444e_7752_6159_f06c,
    }
}

} // verus!
