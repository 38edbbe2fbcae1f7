//! The laws the dispatcher guarantees, stated over the integer model.

use vstd::prelude::*;
use vstd::arithmetic::power2::{lemma2_to64, lemma2_to64_rest, lemma_pow2_adds, lemma_pow2_pos, pow2};
use vstd::arithmetic::mul::{
    lemma_mul_inequality, lemma_mul_is_associative, lemma_mul_is_commutative,
    lemma_mul_is_distributive_add, lemma_mul_strict_inequality,
};
use vstd::arithmetic::div_mod::{lemma_div_by_multiple, lemma_mod_multiples_basic};
use crate::dispatch::{
    fact_bits, factorial, gamma_case_spec, lemma_cutoff_values, lemma_fact_decode,
    lgamma_case_spec, GammaCase, LgammaCase, Settled, TINY_BITS,
};
use crate::err::Error;
use crate::repr::{
    abs_of, abs_scaled, is_finite_bits, is_integer_bits, is_nan_bits, lemma_fields, sign_of,
    NAN_BITS, NEG_INF_BITS, POS_INF_BITS,
};

verus! {

/// Gamma at a positive integer `n` up to 22 resolves, with no numeric work,
/// to a value encoding exactly `(n-1)!`.
pub proof fn lemma_gamma_small_integer_is_factorial(b: u64, n: int)
    requires
        is_finite_bits(b),
        !sign_of(b),
        1 <= n <= 22,
        abs_scaled(b) == n * (pow2(1074) as int),
    ensures
        gamma_case_spec(b) == GammaCase::Done(Settled::Value(fact_bits(n - 1))),
        abs_scaled(fact_bits(n - 1)) == factorial((n - 1) as nat) * (pow2(1074) as int),
        !sign_of(fact_bits(n - 1)),
        is_finite_bits(fact_bits(n - 1)),
{
    lemma_fields(b);
    lemma_pow2_pos(1074);
    let p = pow2(1074) as int;
    // The pattern is a nonzero finite positive integer below 23.
    lemma_mul_inequality(1, n, p);
    assert(abs_scaled(b) > 0);
    assert(abs_of(b) != 0);
    lemma_mod_multiples_basic(n, p);
    assert(is_integer_bits(b));
    lemma_mul_strict_inequality(n, 23, p);
    lemma_div_by_multiple(n, p);
    assert(b & 0x7fff_ffff_ffff_ffff < 0x7ff0_0000_0000_0000 ==> (b != 0x7ff0_0000_0000_0000 && b
        != 0xfff0_0000_0000_0000)) by (bit_vector);
    lemma_fact_decode(n - 1);
}

/// Gamma at a pole — any finite integer at or below zero, both signed zeros
/// included — is a domain error, with the conventional sentinel: the matching
/// signed infinity at a zero, NaN at a negative integer.
pub proof fn lemma_gamma_pole_is_domain_error(b: u64)
    requires
        is_finite_bits(b),
        is_integer_bits(b),
        sign_of(b) || abs_of(b) == 0,
    ensures
        gamma_case_spec(b) == (if abs_of(b) == 0 {
            GammaCase::Done(
                Settled::Fault(
                    Error::EDOM,
                    if sign_of(b) {
                        NEG_INF_BITS
                    } else {
                        POS_INF_BITS
                    },
                ),
            )
        } else {
            GammaCase::Done(Settled::Fault(Error::EDOM, NAN_BITS))
        }),
{
    lemma_fields(b);
}

/// Gamma propagates every NaN input unchanged.
pub proof fn lemma_gamma_propagates_nan(b: u64)
    requires
        is_nan_bits(b),
    ensures
        gamma_case_spec(b) == GammaCase::Done(Settled::Value(b)),
{
}

/// The gamma decision is a function of the input pattern alone: two
/// classifications of the same pattern agree bit for bit.
pub proof fn lemma_gamma_case_deterministic(b: u64, c1: GammaCase, c2: GammaCase)
    requires
        c1 == gamma_case_spec(b),
        c2 == gamma_case_spec(b),
    ensures
        c1 == c2,
{
}

/// The log-gamma decision is likewise a function of the input pattern alone.
pub proof fn lemma_lgamma_case_deterministic(b: u64, c1: LgammaCase, c2: LgammaCase)
    requires
        c1 == lgamma_case_spec(b),
        c2 == lgamma_case_spec(b),
    ensures
        c1 == c2,
{
}

/// Log-gamma at 1 and at 2 resolves to exactly positive zero.
pub proof fn lemma_lgamma_unit_integers(b: u64, n: int)
    requires
        is_finite_bits(b),
        !sign_of(b),
        1 <= n <= 2,
        abs_scaled(b) == n * (pow2(1074) as int),
    ensures
        lgamma_case_spec(b) == LgammaCase::Done(0),
{
    lemma_fields(b);
    lemma_pow2_pos(1074);
    let p = pow2(1074) as int;
    lemma_mul_inequality(1, n, p);
    lemma_mul_inequality(n, 2, p);
    assert(abs_of(b) != 0);
    lemma_mod_multiples_basic(n, p);
    assert(is_integer_bits(b));
}

/// Log-gamma at a pole — any finite integer at or below zero — is a domain
/// error.
pub proof fn lemma_lgamma_pole_is_domain_error(b: u64)
    requires
        is_finite_bits(b),
        is_integer_bits(b),
        sign_of(b) || abs_of(b) == 0,
    ensures
        lgamma_case_spec(b) == LgammaCase::Pole,
{
    lemma_fields(b);
    if abs_of(b) == 0 {
        lemma_pow2_pos(1074);
        lemma_mul_inequality(0, 2, pow2(1074) as int);
    }
}

/// The tiny cutoff is tight: the cutoff pattern encodes the largest double
/// strictly below `1e-20` — its magnitude falls short of `10^-20`, while one
/// unit in the last place more would reach it.
pub proof fn lemma_tiny_cutoff_is_sharp()
    ensures
        abs_scaled(TINY_BITS) * 100000000000000000000 < pow2(1074),
        pow2(1074) < (abs_scaled(TINY_BITS) + pow2(955)) * 100000000000000000000,
{
    lemma_cutoff_values();
    lemma2_to64();
    lemma2_to64_rest();
    let m: int = 6646139978924579;
    let ten20: int = 100000000000000000000;
    let p955 = pow2(955) as int;
    lemma_pow2_pos(955);
    lemma_pow2_adds(64, 55);
    assert(pow2(119) == 664613997892457936451903530140172288);
    lemma_pow2_adds(119, 955);
    // m * 10^20 < 2^119 < (m + 1) * 10^20, scaled up by 2^955.
    lemma_mul_strict_inequality(m * ten20, pow2(119) as int, p955);
    lemma_mul_strict_inequality(pow2(119) as int, (m + 1) * ten20, p955);
    assert((m * ten20) * p955 == (m * p955) * ten20) by {
        lemma_mul_is_associative(m, ten20, p955);
        lemma_mul_is_commutative(ten20, p955);
        lemma_mul_is_associative(m, p955, ten20);
    }
    assert(((m + 1) * ten20) * p955 == ((m + 1) * p955) * ten20) by {
        lemma_mul_is_associative(m + 1, ten20, p955);
        lemma_mul_is_commutative(ten20, p955);
        lemma_mul_is_associative(m + 1, p955, ten20);
    }
    assert((m + 1) * p955 == m * p955 + p955) by {
        lemma_mul_is_commutative(m + 1, p955);
        lemma_mul_is_commutative(m, p955);
        lemma_mul_is_distributive_add(p955, m, 1);
    }
}

} // verus!
