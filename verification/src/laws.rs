//! The ledger's stated laws: the conservation invariants every operation
//! preserves, and the stake-exit round trip.

use vstd::prelude::*;

use crate::arith::lemma_round_trip_value;
use crate::ledger::{
    spec_reward, spec_shadow, total_live_coverage, total_stoken, MetaDefender, ACC_SCALE,
    SCALE_RATE,
};
use crate::records::Provider;

verus! {

/// At all times the share units in circulation (`stoken_supply`) are
/// exactly the sum of `stoken_amount` over all provider records.  Every
/// operation requires and re-establishes `wf`, so this holds across any
/// sequence of operations.
pub proof fn lemma_supply_is_provider_sum(st: MetaDefender)
    requires
        st.wf(),
    ensures
        total_stoken(st.providers@) == st.stoken_supply as int,
{
}

/// At all times the outstanding coverage (`total_coverage`) is exactly the
/// sum of `coverage` over all non-canceled policies.  Every operation
/// requires and re-establishes `wf`, so this holds across any sequence of
/// operations.
pub proof fn lemma_coverage_is_live_sum(st: MetaDefender)
    requires
        st.wf(),
    ensures
        total_live_coverage(st.policies@) == st.total_coverage as int,
{
}

/// Stake-exit round trip.  A provider that stakes `a` base units at
/// exchange rate `rate` and exits before any premium, purchase or
/// cancellation event is owed no reward and carries no shadow — provided
/// it joined past the unfrozen checkpoint, or nothing is left unrolled in
/// the shadow accumulator.  `provider_abolish` therefore pays back the
/// full share value `token_remain`, which is at most `a` and misses it
/// only by the rounding of the two rate conversions: strictly less than
/// one share's base value plus one.  The premises mirror what
/// `provide_capital`'s contract establishes for the record it writes.
pub proof fn lemma_stake_exit_round_trip(
    rate: u128,
    acc_rps: u128,
    acc_sps: u128,
    acc_down: u128,
    latest: u128,
    index: u128,
    now: u64,
    a: u128,
)
    requires
        rate != 0,
        a * SCALE_RATE <= u128::MAX,
        (a * SCALE_RATE / (rate as int)) * acc_rps <= u128::MAX,
        (a * SCALE_RATE / (rate as int)) * acc_sps <= u128::MAX,
        index > latest || acc_sps == acc_down,
    ensures
        ({
            let s = a * SCALE_RATE / (rate as int);
            let p = Provider {
                index,
                participation_time: now,
                stoken_amount: s as u128,
                reward_debt: (s * acc_rps / (ACC_SCALE as int)) as u128,
                shadow_debt: (s * acc_sps / (ACC_SCALE as int)) as u128,
            };
            let token_remain = p.stoken_amount * rate / (SCALE_RATE as int);
            &&& spec_reward(p, acc_rps) == 0
            &&& spec_shadow(p, acc_sps, acc_down, latest) == 0
            &&& token_remain <= a
            &&& (a - token_remain) * SCALE_RATE < rate + SCALE_RATE
        }),
{
    let s = a * SCALE_RATE / (rate as int);
    assert(0 <= s <= a * SCALE_RATE) by (nonlinear_arith)
        requires
            rate >= 1,
            0 <= a * SCALE_RATE,
            s == a * SCALE_RATE / (rate as int),
    ;
    assert(s * acc_rps / (ACC_SCALE as int) <= u128::MAX);
    assert(s * acc_sps / (ACC_SCALE as int) <= u128::MAX) by {
        vstd::arithmetic::div_mod::lemma_div_is_ordered(
            s * acc_sps,
            (u128::MAX) as int,
            ACC_SCALE as int,
        );
        vstd::arithmetic::div_mod::lemma_div_is_ordered(
            s * acc_rps,
            (u128::MAX) as int,
            ACC_SCALE as int,
        );
    }
    if index <= latest {
        assert((s as u128) * (acc_sps - acc_down) == 0);
    }
    lemma_round_trip_value(a as int, SCALE_RATE as int, rate as int);
}

} // verus!
