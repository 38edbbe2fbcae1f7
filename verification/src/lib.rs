//! Bit-exact classification and dispatch for the gamma and log-gamma
//! functions on IEEE-754 double-precision values.
//!
//! Doubles are handled as their raw 64-bit patterns, so every decision the
//! dispatcher makes (NaN, infinities, signed zeros, integer detection, the
//! tiny and huge magnitude cutoffs, the factorial table, the bucket
//! selection of the `sin(pi*x)` helper) is stated and proved over an exact
//! integer model of the encoded value.  The floating-point arithmetic of the
//! generic Lanczos path itself is left to the caller, which hands
//! intermediate results back as bit patterns for the final
//! overflow-to-range-error decision.

pub mod dispatch;
pub mod err;
pub mod laws;
pub mod repr;

pub use dispatch::{
    gamma_case, gamma_finish, lgamma_case, lgamma_finish, sinpi_bucket, GammaCase, LgammaCase,
    Settled,
};
pub use err::Error;
