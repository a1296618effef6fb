//! A capital-pool underwriting ledger.
//!
//! Underwriters ("providers") stake fungible capital into a shared pool; the
//! pool backs coverage policies bought by users for a premium; premiums flow
//! partly to a team treasury and partly to providers; a bonding-curve rule
//! prices coverage from the available (unused) capital.  A provider may
//! withdraw only the part of its stake not currently shadowed by outstanding
//! policies; exited providers' residual exposure unwinds as policies are
//! later canceled in strict id order; a judge-adjudicated claim workflow pays
//! a beneficiary out of a risk reserve, socializing any shortfall across all
//! stakers by devaluing the exchange rate.
//!
//! The ledger only computes amounts and state transitions.  Executing value
//! transfers, authenticating callers and reading the clock belong to the
//! host: every operation takes the verified caller identity and the current
//! timestamp as arguments, and returns the amount the host must then move.

pub mod admin;
pub mod arith;
pub mod errors;
pub mod keyed;
pub mod laws;
pub mod ledger;
pub mod policy_ops;
pub mod provider_ops;
pub mod records;
pub mod sums;
