//! The entity records the ledger stores: providers, exited providers with
//! frozen capital, and policies.

use vstd::prelude::*;

verus! {

/// One active staking identity.
///
/// `index` is the insertion order, assigned at stake time and never reused.
/// `stoken_amount` is the share units owned; `reward_debt` and `shadow_debt`
/// are the debt terms of the per-share accumulator pattern: what of the
/// global accumulators this provider is *not* owed, fixed when it joined or
/// last settled.
#[derive(Clone, Copy, Debug, PartialEq, Eq, Structural)]
pub struct Provider {
    pub index: u128,
    pub participation_time: u64,
    pub stoken_amount: u128,
    pub reward_debt: u128,
    pub shadow_debt: u128,
}

/// A provider that exited while part of its stake was still shadowed by
/// outstanding policies.  The shadowed part stays frozen, denominated in
/// share units, until later cancellations release it.
#[derive(Clone, Copy, Debug, PartialEq, Eq, Structural)]
pub struct HistoricalProvider {
    pub index_before: u128,
    pub stoken_amount_before: u128,
    pub frozen_token_amount: u128,
    pub shadow_accumulator_at_exit: u128,
    pub shadow_debt_before: u128,
}

/// One purchased coverage.
///
/// `latest_provider_index` is a causality stamp: the provider count at
/// purchase time, marking which providers were at risk for this policy.
/// `delta_shadow` is this policy's contribution to the shadow accumulator,
/// remembered so that a cancellation can roll exactly it back.
#[derive(Clone, Copy, Debug, PartialEq, Eq, Structural)]
pub struct Policy {
    pub id: u128,
    pub beneficiary: u128,
    pub coverage: u128,
    pub deposit: u128,
    pub start_time: u64,
    pub effective_until: u64,
    pub latest_provider_index: u128,
    pub delta_shadow: u128,
    pub is_claimed: bool,
    pub in_claim_applying: bool,
    pub is_canceled: bool,
}

/// How an accepted claim is paid: `from_reserve` comes out of the risk
/// reserve, `from_pool` is the shortfall the pool absorbs and pays itself.
#[derive(Clone, Copy, Debug, PartialEq, Eq, Structural)]
pub struct ClaimPayout {
    pub from_reserve: u128,
    pub from_pool: u128,
}

} // verus!
