//! An exact integer model of IEEE-754 double-precision bit patterns.
//!
//! A finite double with pattern `b` encodes the value
//! `(-1)^sign * abs_scaled(b) / 2^1074`, where `abs_scaled(b)` is a
//! non-negative integer.  All classification decisions of the dispatcher are
//! specified against this model and proved about the bit-level tests that the
//! executable code performs.

use vstd::prelude::*;
use vstd::arithmetic::power2::{
    lemma2_to64, lemma2_to64_rest, lemma_pow2_adds, lemma_pow2_pos, lemma_pow2_strictly_increases,
    pow2,
};
use vstd::arithmetic::mul::{
    lemma_mul_inequality, lemma_mul_is_associative, lemma_mul_is_commutative,
    lemma_mul_strict_inequality,
};
use vstd::arithmetic::div_mod::{
    lemma_div_by_multiple, lemma_fundamental_div_mod, lemma_mod_multiples_basic,
    lemma_mod_multiples_vanish, lemma_small_mod, lemma_truncate_middle,
};
use vstd::bits::{
    lemma_u64_low_bits_mask_is_mod, lemma_u64_pow2_no_overflow, lemma_u64_shl_is_mul,
    lemma_u64_shr_is_div, low_bits_mask,
};

verus! {

/// Everything but the sign bit.
pub const ABS_MASK: u64 = 0x7fff_ffff_ffff_ffff;

/// The 52 fraction bits.
pub const FRAC_MASK: u64 = 0x000f_ffff_ffff_ffff;

/// The sign bit.
pub const SIGN_MASK: u64 = 0x8000_0000_0000_0000;

/// The implicit leading significand bit of a normal double, `2^52`.
pub const IMPLICIT_BIT: u64 = 0x0010_0000_0000_0000;

/// The pattern of positive infinity.
pub const POS_INF_BITS: u64 = 0x7ff0_0000_0000_0000;

/// The pattern of negative infinity.
pub const NEG_INF_BITS: u64 = 0xfff0_0000_0000_0000;

/// The canonical quiet NaN pattern.
pub const NAN_BITS: u64 = 0x7ff8_0000_0000_0000;

/// Whether the sign bit of `b` is set, i.e. the encoded value is negative
/// (or a negative zero / negative NaN).
pub open spec fn sign_of(b: u64) -> bool {
    b & SIGN_MASK == SIGN_MASK
}

/// The pattern of `b` with the sign bit cleared.
pub open spec fn abs_of(b: u64) -> u64 {
    b & ABS_MASK
}

/// The biased exponent field of `b`.
pub open spec fn biased_exp(b: u64) -> u64 {
    abs_of(b) >> 52u64
}

/// The fraction field of `b`.
pub open spec fn frac_of(b: u64) -> u64 {
    b & FRAC_MASK
}

/// `b` encodes a NaN.
pub open spec fn is_nan_bits(b: u64) -> bool {
    abs_of(b) > POS_INF_BITS
}

/// `b` encodes a finite value.
pub open spec fn is_finite_bits(b: u64) -> bool {
    abs_of(b) < POS_INF_BITS
}

/// `|value(b)| * 2^1074` as an exact integer; meaningful for finite `b`.
/// A subnormal (biased exponent 0) encodes `frac * 2^-1074`; a normal double
/// encodes `(2^52 + frac) * 2^(e - 1075)` for biased exponent `e`.
pub open spec fn abs_scaled(b: u64) -> int {
    if biased_exp(b) == 0 {
        frac_of(b) as int
    } else {
        (frac_of(b) + IMPLICIT_BIT) * pow2((biased_exp(b) - 1) as nat)
    }
}

/// `b` encodes a mathematical integer (finite `b`).
pub open spec fn is_integer_bits(b: u64) -> bool {
    abs_scaled(b) % (pow2(1074) as int) == 0
}

/// The integer magnitude `|value(b)|` of an integer-valued pattern.
pub open spec fn int_magnitude(b: u64) -> int {
    abs_scaled(b) / (pow2(1074) as int)
}

/// The field decomposition of a pattern, and the bit-level facts the
/// dispatcher's tests rely on.
pub proof fn lemma_fields(b: u64)
    ensures
        abs_of(b) == biased_exp(b) * IMPLICIT_BIT + frac_of(b),
        biased_exp(b) <= 0x7ff,
        frac_of(b) < IMPLICIT_BIT,
        abs_of(b) <= ABS_MASK,
        sign_of(b) == (b >= SIGN_MASK),
        abs_of(abs_of(b)) == abs_of(b),
        frac_of(abs_of(b)) == frac_of(b),
        !sign_of(abs_of(b)),
        abs_of(b) == POS_INF_BITS ==> b == POS_INF_BITS || b == NEG_INF_BITS,
        abs_of(b) == 0 ==> b == 0 || b == SIGN_MASK,
{
    assert((b & 0x7fff_ffff_ffff_ffff) == ((b & 0x7fff_ffff_ffff_ffff) >> 52u64)
        * 0x0010_0000_0000_0000 + (b & 0x000f_ffff_ffff_ffff)
        && ((b & 0x7fff_ffff_ffff_ffff) >> 52u64) <= 0x7ff
        && (b & 0x000f_ffff_ffff_ffff) < 0x0010_0000_0000_0000
        && (b & 0x7fff_ffff_ffff_ffff) <= 0x7fff_ffff_ffff_ffff
        && ((b & 0x8000_0000_0000_0000 == 0x8000_0000_0000_0000) == (b
        >= 0x8000_0000_0000_0000))
        && ((b & 0x7fff_ffff_ffff_ffff) & 0x7fff_ffff_ffff_ffff) == (b & 0x7fff_ffff_ffff_ffff)
        && ((b & 0x7fff_ffff_ffff_ffff) & 0x000f_ffff_ffff_ffff) == (b & 0x000f_ffff_ffff_ffff)
        && ((b & 0x7fff_ffff_ffff_ffff) & 0x8000_0000_0000_0000) == 0
        && ((b & 0x7fff_ffff_ffff_ffff) == 0x7ff0_0000_0000_0000 ==> b == 0x7ff0_0000_0000_0000
        || b == 0xfff0_0000_0000_0000)
        && ((b & 0x7fff_ffff_ffff_ffff) == 0 ==> b == 0 || b == 0x8000_0000_0000_0000))
        by (bit_vector);
}

/// The scaled magnitude is strictly monotone in the sign-free bit pattern:
/// larger patterns encode strictly larger magnitudes.
pub proof fn lemma_scaled_strictly_monotone(a: u64, b: u64)
    requires
        a < b,
        b <= ABS_MASK,
    ensures
        abs_scaled(a) < abs_scaled(b),
{
    lemma_fields(a);
    lemma_fields(b);
    assert(a & 0x7fff_ffff_ffff_ffff == a && b & 0x7fff_ffff_ffff_ffff == b) by (bit_vector)
        requires
            a < b,
            b <= 0x7fff_ffff_ffff_ffff,
    ;
    let ea = biased_exp(a) as int;
    let eb = biased_exp(b) as int;
    let fa = frac_of(a) as int;
    let fb = frac_of(b) as int;
    let ib = IMPLICIT_BIT as int;
    lemma2_to64_rest();
    assert(ib == pow2(52));
    if ea == eb {
        if ea == 0 {
            assert(abs_scaled(a) < abs_scaled(b));
        } else {
            lemma_pow2_pos((ea - 1) as nat);
            lemma_mul_strict_inequality(fa + ib, fb + ib, pow2((ea - 1) as nat) as int);
        }
    } else {
        assert(ea < eb);
        if ea == 0 {
            // a is subnormal: abs_scaled(a) = fa < 2^52 <= abs_scaled(b).
            lemma_pow2_pos((eb - 1) as nat);
            lemma_mul_inequality(1, pow2((eb - 1) as nat) as int, ib);
            lemma_mul_is_commutative(ib, pow2((eb - 1) as nat) as int);
            lemma_mul_inequality(ib, fb + ib, pow2((eb - 1) as nat) as int);
            assert(ib * pow2((eb - 1) as nat) >= ib * 1);
        } else {
            // abs_scaled(a) < 2^(ea+52) <= 2^(eb+51) <= abs_scaled(b).
            lemma_pow2_pos((ea - 1) as nat);
            lemma_pow2_pos((eb - 1) as nat);
            lemma_mul_strict_inequality(fa + ib, 2 * ib, pow2((ea - 1) as nat) as int);
            lemma_pow2_adds(53, (ea - 1) as nat);
            assert(2 * ib == pow2(53));
            assert((2 * ib) * pow2((ea - 1) as nat) == pow2((ea + 52) as nat));
            lemma_mul_inequality(ib, fb + ib, pow2((eb - 1) as nat) as int);
            lemma_pow2_adds(52, (eb - 1) as nat);
            assert(ib * pow2((eb - 1) as nat) == pow2((eb + 51) as nat));
            if ea + 52 < eb + 51 {
                lemma_pow2_strictly_increases((ea + 52) as nat, (eb + 51) as nat);
            }
            assert(pow2((ea + 52) as nat) <= pow2((eb + 51) as nat));
            assert(abs_scaled(a) < pow2((ea + 52) as nat));
            assert(abs_scaled(b) >= pow2((eb + 51) as nat));
        }
    }
}

/// Decode helper: a normal pattern whose full significand is `v * 2^shift`
/// with `shift` the distance from the exponent to the units place encodes the
/// integer magnitude `v`.
pub proof fn lemma_scaled_decode(abs: u64, v: int, shift: nat)
    requires
        1 <= biased_exp(abs),
        biased_exp(abs) + shift == 1075,
        frac_of(abs) + IMPLICIT_BIT == v * pow2(shift),
    ensures
        abs_scaled(abs) == v * pow2(1074),
{
    lemma_pow2_adds(shift, (biased_exp(abs) - 1) as nat);
    lemma_mul_is_associative(v, pow2(shift) as int, pow2((biased_exp(abs) - 1) as nat) as int);
}

/// Decode helper for magnitudes at or above `2^52`, whose biased exponent
/// sits at or above the units place.
pub proof fn lemma_scaled_decode_wide(abs: u64, v: int, k: nat)
    requires
        biased_exp(abs) == 1075 + k,
        v == (frac_of(abs) + IMPLICIT_BIT) * pow2(k),
    ensures
        abs_scaled(abs) == v * pow2(1074),
{
    lemma_pow2_adds(k, 1074);
    lemma_mul_is_associative(
        (frac_of(abs) + IMPLICIT_BIT) as int,
        pow2(k) as int,
        pow2(1074) as int,
    );
}

/// For a normal pattern below the units-place exponent, divisibility of the
/// scaled magnitude by `2^1074` comes down to divisibility of the significand
/// by `2^shift`.
proof fn lemma_divisibility_split(b: u64)
    requires
        1023 <= biased_exp(b) <= 1074,
    ensures
        ({
            let shift = (1075 - biased_exp(b)) as nat;
            let m = (frac_of(b) + IMPLICIT_BIT) as int;
            &&& abs_scaled(b) % (pow2(1074) as int) == pow2((biased_exp(b) - 1) as nat) * (m % (
                pow2(shift) as int))
            &&& (abs_scaled(b) % (pow2(1074) as int) == 0 <==> m % (pow2(shift) as int) == 0)
            &&& m % (pow2(shift) as int) == (frac_of(b) as int) % (pow2(shift) as int)
        }),
{
    let e = (biased_exp(b) - 1) as nat;
    let shift = (1075 - biased_exp(b)) as nat;
    let m = (frac_of(b) + IMPLICIT_BIT) as int;
    lemma_pow2_pos(e);
    lemma_pow2_pos(shift);
    lemma_truncate_middle(m, pow2(e) as int, pow2(shift) as int);
    lemma_pow2_adds(e, shift);
    assert(pow2(e) * pow2(shift) == pow2(1074));
    lemma_mul_is_commutative(m, pow2(e) as int);
    assert(abs_scaled(b) % (pow2(1074) as int) == pow2(e) * (m % (pow2(shift) as int)));
    if m % (pow2(shift) as int) != 0 {
        lemma_mul_strict_inequality(0, m % (pow2(shift) as int), pow2(e) as int);
        lemma_mul_is_commutative(m % (pow2(shift) as int), pow2(e) as int);
    }
    // The implicit bit is a multiple of 2^shift, so it vanishes modulo 2^shift.
    lemma_pow2_adds(shift, (52 - shift) as nat);
    assert(IMPLICIT_BIT == pow2(shift) * pow2((52 - shift) as nat)) by {
        lemma2_to64_rest();
    }
    lemma_mod_multiples_vanish(
        pow2((52 - shift) as nat) as int,
        frac_of(b) as int,
        pow2(shift) as int,
    );
}

/// Bit-level integer test: decides whether a finite pattern encodes a
/// mathematical integer.
pub fn is_integer_value(b: u64) -> (r: bool)
    requires
        is_finite_bits(b),
    ensures
        r == is_integer_bits(b),
{
    let abs = b & ABS_MASK;
    let be = abs >> 52u64;
    let frac = b & FRAC_MASK;
    proof {
        lemma_fields(b);
        lemma_pow2_pos(1074);
    }
    if abs == 0 {
        proof {
            lemma_small_mod(0, pow2(1074));
        }
        true
    } else if be >= 1075 {
        proof {
            let m = (frac_of(b) + IMPLICIT_BIT) as int;
            let k = (be - 1075) as nat;
            lemma_pow2_adds(k, 1074);
            lemma_mul_is_associative(m, pow2(k) as int, pow2(1074) as int);
            lemma_mod_multiples_basic(m * (pow2(k) as int), pow2(1074) as int);
        }
        true
    } else if be < 1023 {
        proof {
            if be == 0 {
                assert(frac_of(b) > 0);
                lemma_pow2_strictly_increases(52, 1074);
                lemma2_to64_rest();
                lemma_small_mod(frac_of(b) as nat, pow2(1074));
            } else {
                let m = (frac_of(b) + IMPLICIT_BIT) as int;
                let e = (be - 1) as nat;
                lemma2_to64_rest();
                lemma_pow2_pos(e);
                assert(m < pow2(53));
                lemma_mul_strict_inequality(m, pow2(53) as int, pow2(e) as int);
                lemma_mul_is_commutative(m, pow2(e) as int);
                lemma_mul_is_commutative(pow2(53) as int, pow2(e) as int);
                lemma_pow2_adds(53, e);
                if 53 + e < 1074 {
                    lemma_pow2_strictly_increases((53 + e) as nat, 1074);
                }
                lemma_mul_inequality(1, m, pow2(e) as int);
                assert(abs_scaled(b) >= pow2(e) > 0);
                lemma_small_mod(abs_scaled(b) as nat, pow2(1074));
            }
        }
        false
    } else {
        let shift = 1075 - be;
        proof {
            lemma_u64_pow2_no_overflow(shift as nat);
            lemma_u64_shl_is_mul(1u64, shift);
            lemma_pow2_pos(shift as nat);
        }
        let mask = (1u64 << shift) - 1;
        proof {
            lemma_divisibility_split(b);
            assert(mask == low_bits_mask(shift as nat) as u64);
            lemma_u64_low_bits_mask_is_mod(frac, shift as nat);
        }
        (frac & mask) == 0
    }
}

/// Extract the integer magnitude of a small positive integer pattern.
pub fn integer_magnitude(abs: u64) -> (n: u64)
    requires
        abs <= ABS_MASK,
        is_integer_bits(abs),
        0 < abs_scaled(abs),
        abs_scaled(abs) < 23 * pow2(1074),
    ensures
        n as int == int_magnitude(abs),
        1 <= n <= 22,
{
    proof {
        lemma_fields(abs);
        assert(abs & 0x7fff_ffff_ffff_ffff == abs) by (bit_vector)
            requires
                abs <= 0x7fff_ffff_ffff_ffff,
        ;
        lemma_pow2_pos(1074);
        lemma2_to64_rest();
        // The magnitude bounds pin the biased exponent into [1023, 1027].
        if biased_exp(abs) == 0 {
            lemma_pow2_strictly_increases(52, 1074);
            lemma_small_mod(frac_of(abs) as nat, pow2(1074));
        }
        if 1 <= biased_exp(abs) <= 1022 {
            let m = (frac_of(abs) + IMPLICIT_BIT) as int;
            let e = (biased_exp(abs) - 1) as nat;
            lemma_pow2_pos(e);
            lemma_mul_strict_inequality(m, pow2(53) as int, pow2(e) as int);
            lemma_mul_is_commutative(m, pow2(e) as int);
            lemma_mul_is_commutative(pow2(53) as int, pow2(e) as int);
            lemma_pow2_adds(53, e);
            if 53 + e < 1074 {
                lemma_pow2_strictly_increases((53 + e) as nat, 1074);
            }
            lemma_small_mod(abs_scaled(abs) as nat, pow2(1074));
        }
        if biased_exp(abs) >= 1028 {
            let m = (frac_of(abs) + IMPLICIT_BIT) as int;
            let e = (biased_exp(abs) - 1) as nat;
            lemma_pow2_pos(e);
            lemma_mul_inequality(pow2(52) as int, m, pow2(e) as int);
            lemma_mul_is_commutative(pow2(52) as int, pow2(e) as int);
            lemma_mul_is_commutative(m, pow2(e) as int);
            lemma_pow2_adds(52, e);
            assert(abs_scaled(abs) >= pow2((52 + e) as nat));
            lemma2_to64();
            lemma_pow2_adds(5, 1074);
            lemma_mul_strict_inequality(23, pow2(5) as int, pow2(1074) as int);
            if 1079 < 52 + e {
                lemma_pow2_strictly_increases(1079, (52 + e) as nat);
            }
        }
        assert(1023 <= biased_exp(abs) <= 1027);
    }
    let be = abs >> 52u64;
    let m = (abs & FRAC_MASK) + IMPLICIT_BIT;
    let shift = 1075 - be;
    let n = m >> shift;
    proof {
        let shift_n = shift as nat;
        let e = (be - 1) as nat;
        lemma_divisibility_split(abs);
        lemma_pow2_pos(shift_n);
        lemma_u64_shr_is_div(m, shift);
        // m is a multiple of 2^shift, so the shifted-out bits are zero and the
        // quotient times 2^1074 is exactly the scaled magnitude.
        let q = (m as int) / (pow2(shift_n) as int);
        lemma_fundamental_div_mod(m as int, pow2(shift_n) as int);
        assert(m == q * pow2(shift_n)) by {
            lemma_mul_is_commutative(q, pow2(shift_n) as int);
        }
        lemma_scaled_decode(abs, q, shift_n);
        lemma_div_by_multiple(q, pow2(1074) as int);
        assert(int_magnitude(abs) == q);
        if q >= 23 {
            lemma_mul_inequality(23, q, pow2(1074) as int);
        }
        if q <= 0 {
            lemma_mul_inequality(q, 0, pow2(1074) as int);
        }
    }
    n
}

/// Order and equality of sign-free patterns agree with order and equality of
/// the magnitudes they encode.
pub proof fn lemma_scaled_order(a: u64, b: u64)
    requires
        a <= ABS_MASK,
        b <= ABS_MASK,
    ensures
        (a < b) == (abs_scaled(a) < abs_scaled(b)),
        (a == b) == (abs_scaled(a) == abs_scaled(b)),
{
    if a < b {
        lemma_scaled_strictly_monotone(a, b);
    } else if b < a {
        lemma_scaled_strictly_monotone(b, a);
    }
}

} // verus!
