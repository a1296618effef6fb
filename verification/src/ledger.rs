//! The ledger state: global accumulators, counters, the entity stores, and
//! the well-formedness invariant every operation preserves.  Also the pure
//! queries (available capital, premium rate) and the bonding-curve
//! recalibration shared by staking, exiting and cancellation.

use vstd::prelude::*;

use crate::keyed::distinct_keys;
use crate::records::{HistoricalProvider, Policy, Provider};
use crate::sums::seq_sum;

verus! {

/// Share-to-base-unit exchange-rate scale, and the premium-rate scale.
pub const SCALE_RATE: u128 = 100_000;

/// Scale of the per-share reward and shadow accumulators.
pub const ACC_SCALE: u128 = 10_000_000_000_000;

/// Premium rate (scaled by `SCALE_RATE`) used to seed the pricing constant
/// when the first provider stakes.
pub const INITIAL_FEE: u128 = 2000;

/// Floor on the premium rate enforced by cancellations.
pub const MIN_FEE: u128 = 2000;

/// How long a policy covers, in milliseconds: 90 days.
pub const POLICY_TERM: u64 = 7_776_000_000;

/// Grace window past expiry in which only the beneficiary may cancel, in
/// milliseconds: one day.
pub const CANCEL_GRACE: u64 = 86_400_000;

/// The measure summed over the provider store: share units owned.
pub open spec fn stake_measure() -> spec_fn((u128, Provider)) -> int {
    |e: (u128, Provider)| e.1.stoken_amount as int
}

/// The measure summed over the policy store: coverage of policies not yet
/// canceled.
pub open spec fn live_coverage_measure() -> spec_fn(Policy) -> int {
    |p: Policy| if p.is_canceled { 0 } else { p.coverage as int }
}

/// The measure summed over the policy store: shadow-accumulator
/// contributions of policies not yet canceled.
pub open spec fn live_delta_measure() -> spec_fn(Policy) -> int {
    |p: Policy| if p.is_canceled { 0 } else { p.delta_shadow as int }
}

/// Sum of share units over all providers.
pub open spec fn total_stoken(s: Seq<(u128, Provider)>) -> int {
    seq_sum(s, stake_measure())
}

/// Sum of coverage over all non-canceled policies.
pub open spec fn total_live_coverage(s: Seq<Policy>) -> int {
    seq_sum(s, live_coverage_measure())
}

/// Sum of `delta_shadow` over all non-canceled policies.
pub open spec fn total_live_delta(s: Seq<Policy>) -> int {
    seq_sum(s, live_delta_measure())
}

/// A provider's claimable reward: its share of the reward accumulator,
/// minus the debt fixed when it joined or last settled.
pub open spec fn spec_reward(p: Provider, acc_rps: u128) -> int {
    p.stoken_amount * acc_rps / (ACC_SCALE as int) - p.reward_debt
}

/// A provider's shadow: the part of its capital locked against policies
/// still outstanding.  A provider that joined after the cancellation
/// protocol's checkpoint (`index > latest`) owes by its own debt term; an
/// older one is forgiven everything rolled back so far.
pub open spec fn spec_shadow(p: Provider, acc_sps: u128, acc_down: u128, latest: u128) -> int {
    if p.index > latest {
        p.stoken_amount * acc_sps / (ACC_SCALE as int) - p.shadow_debt
    } else {
        p.stoken_amount * (acc_sps - acc_down) / (ACC_SCALE as int)
    }
}

/// The shadow of an exited provider, computed against the accumulator
/// snapshot taken at exit.  Cancellations processed past its index are
/// forgiven via the rollback accumulator; once the rollback passes the
/// snapshot nothing is left to lock.
pub open spec fn spec_historical_shadow(h: HistoricalProvider, acc_down: u128, latest: u128) -> int {
    if h.index_before > latest {
        h.stoken_amount_before * h.shadow_accumulator_at_exit / (ACC_SCALE as int)
            - h.shadow_debt_before
    } else if h.shadow_accumulator_at_exit >= acc_down {
        h.stoken_amount_before * (h.shadow_accumulator_at_exit - acc_down) / (ACC_SCALE as int)
    } else {
        0
    }
}

/// The capital-pool underwriting ledger.
///
/// All identities are the host's verified account ids; timestamps come from
/// the host's monotonic clock.  Every operation is one atomic transaction:
/// it either commits fully and reports the amount the host must transfer,
/// or changes nothing and returns the error.
pub struct MetaDefender {
    /// Active providers, keyed by account; a record stays (zeroed) after exit.
    pub providers: Vec<(u128, Provider)>,
    /// Exited providers with capital still frozen, keyed by account.
    pub historical_providers: Vec<(u128, HistoricalProvider)>,
    /// Ids of the policies each account has bought, keyed by account.
    pub user_policies: Vec<(u128, Vec<u128>)>,
    /// All policies ever written; a policy's id is its position.
    pub policies: Vec<Policy>,
    /// Mining proxies and whether each is currently approved.
    pub mining_proxies: Vec<(u128, bool)>,

    /// Number of providers ever recorded; the next provider's index.
    pub provider_count: u128,
    /// Share-to-base-unit rate, scaled by `SCALE_RATE`.
    pub exchange_rate: u128,
    /// Number of policies ever written; the next policy's id.
    pub policy_count: u128,
    /// Cumulative reward per share unit, scaled by `ACC_SCALE`.
    pub acc_reward_per_share: u128,
    /// Cumulative shadow per share unit, scaled by `ACC_SCALE`.
    pub acc_shadow_per_share: u128,
    /// How much of the shadow accumulator cancellations have rolled back.
    pub acc_shadow_rolled_back: u128,
    /// Base units staked by active providers.
    pub token_staked: u128,
    /// Share units outstanding over all active providers.
    pub stoken_supply: u128,
    /// Base units frozen for exited providers.
    pub token_frozen: u128,
    /// Coverage of all non-canceled policies.
    pub total_coverage: u128,
    /// Bonding-curve constant: premium rate times smoothed available capital.
    pub pricing_constant: u128,
    /// The highest causality stamp among canceled policies: providers at or
    /// below it are settled through the rollback accumulator.
    pub latest_unfrozen_index: u128,

    /// Premium rate seeding the curve when the first provider stakes.
    pub initial_fee: u128,
    /// Premium-rate floor enforced on cancellation.
    pub min_fee: u128,

    /// The claim judge's account.
    pub judger: u128,
    /// The team treasury's account.
    pub official: u128,
    /// The account claims are paid from.
    pub risk_reserve: u128,

    /// Premium share accrued to the team and not yet claimed.
    pub team_claimable_reward: u128,
    /// Smoothing constant keeping the premium rate finite near zero capital.
    pub virtual_liquidity_param: u128,
    /// Re-entrancy latch for the provider exit path.
    pub provider_leaving: bool,
    /// Re-entrancy latch for the frozen-capital withdrawal path.
    pub historical_provider_leaving: bool,
}

impl MetaDefender {
    /// The ledger's well-formedness invariant.  `new` establishes it and
    /// every operation preserves it; all accounting arguments rest on it.
    pub open spec fn wf(self) -> bool {
        &&& self.provider_count == self.providers@.len()
        &&& forall|i: int|
            0 <= i < self.providers@.len() ==> (#[trigger] self.providers@[i]).1.index == i
        &&& distinct_keys(self.providers@)
        &&& distinct_keys(self.historical_providers@)
        &&& distinct_keys(self.user_policies@)
        &&& distinct_keys(self.mining_proxies@)
        // every provider's debts never exceed its accumulator share, so
        // rewards and shadows never go negative
        &&& forall|i: int|
            0 <= i < self.providers@.len() ==> (#[trigger] self.providers@[i]).1.reward_debt
                <= self.providers@[i].1.stoken_amount * self.acc_reward_per_share / (
            ACC_SCALE as int)
        &&& forall|i: int|
            0 <= i < self.providers@.len() ==> (#[trigger] self.providers@[i]).1.shadow_debt
                <= self.providers@[i].1.stoken_amount * self.acc_shadow_per_share / (
            ACC_SCALE as int)
        &&& forall|i: int|
            0 <= i < self.historical_providers@.len() ==> (
            #[trigger] self.historical_providers@[i]).1.shadow_debt_before
                <= self.historical_providers@[i].1.stoken_amount_before
                * self.historical_providers@[i].1.shadow_accumulator_at_exit / (ACC_SCALE as int)
        // share units in circulation are exactly the sum over providers
        &&& total_stoken(self.providers@) == self.stoken_supply as int
        // the policy store is dense and append-only
        &&& self.policy_count == self.policies@.len()
        &&& forall|i: int| 0 <= i < self.policies@.len() ==> (#[trigger] self.policies@[i]).id == i
        // causality stamps never exceed the provider count and never
        // decrease along the policy order
        &&& forall|i: int|
            0 <= i < self.policies@.len() ==> (
            #[trigger] self.policies@[i]).latest_provider_index <= self.provider_count
        &&& forall|i: int, j: int|
            0 <= i <= j < self.policies@.len() ==> (
            #[trigger] self.policies@[i]).latest_provider_index
                <= (#[trigger] self.policies@[j]).latest_provider_index
        // canceled policies form a prefix of the id order
        &&& forall|i: int, j: int|
            0 <= i <= j < self.policies@.len() && (#[trigger] self.policies@[j]).is_canceled ==> (
            #[trigger] self.policies@[i]).is_canceled
        // the unfrozen checkpoint sits between the canceled and the live
        &&& forall|i: int|
            0 <= i < self.policies@.len() && (#[trigger] self.policies@[i]).is_canceled
                ==> self.policies@[i].latest_provider_index <= self.latest_unfrozen_index
        &&& forall|i: int|
            0 <= i < self.policies@.len() && !(#[trigger] self.policies@[i]).is_canceled
                ==> self.latest_unfrozen_index <= self.policies@[i].latest_provider_index
        &&& self.latest_unfrozen_index <= self.provider_count
        // outstanding coverage is exactly the sum over non-canceled policies
        &&& total_live_coverage(self.policies@) == self.total_coverage as int
        // what cancellations rolled back plus what is still outstanding
        // never exceeds the shadow accumulator
        &&& self.acc_shadow_rolled_back + total_live_delta(self.policies@)
            <= self.acc_shadow_per_share as int
    }

    /// A fresh ledger.  The team (`official`) and the claim judge are fixed
    /// identities; `virtual_liquidity_param` smooths the bonding curve;
    /// claims are paid from `risk_reserve`.
    pub fn new(official: u128, judger: u128, risk_reserve: u128, virtual_liquidity_param: u128) -> (
        r: MetaDefender)
        ensures
            r.wf(),
            r.providers@.len() == 0,
            r.historical_providers@.len() == 0,
            r.user_policies@.len() == 0,
            r.policies@.len() == 0,
            r.mining_proxies@.len() == 0,
            r.provider_count == 0,
            r.exchange_rate == SCALE_RATE,
            r.policy_count == 0,
            r.acc_reward_per_share == 0,
            r.acc_shadow_per_share == 0,
            r.acc_shadow_rolled_back == 0,
            r.token_staked == 0,
            r.stoken_supply == 0,
            r.token_frozen == 0,
            r.total_coverage == 0,
            r.pricing_constant == 0,
            r.latest_unfrozen_index == 0,
            r.initial_fee == INITIAL_FEE,
            r.min_fee == MIN_FEE,
            r.judger == judger,
            r.official == official,
            r.risk_reserve == risk_reserve,
            r.team_claimable_reward == 0,
            r.virtual_liquidity_param == virtual_liquidity_param,
            !r.provider_leaving,
            !r.historical_provider_leaving,
    {
        MetaDefender {
            providers: Vec::new(),
            historical_providers: Vec::new(),
            user_policies: Vec::new(),
            policies: Vec::new(),
            mining_proxies: Vec::new(),
            provider_count: 0,
            exchange_rate: SCALE_RATE,
            policy_count: 0,
            acc_reward_per_share: 0,
            acc_shadow_per_share: 0,
            acc_shadow_rolled_back: 0,
            token_staked: 0,
            stoken_supply: 0,
            token_frozen: 0,
            total_coverage: 0,
            pricing_constant: 0,
            latest_unfrozen_index: 0,
            initial_fee: INITIAL_FEE,
            min_fee: MIN_FEE,
            judger,
            official,
            risk_reserve,
            team_claimable_reward: 0,
            virtual_liquidity_param,
            provider_leaving: false,
            historical_provider_leaving: false,
        }
    }

    /// The capital currently available to back new coverage: staked capital
    /// not yet covering policies, floored at zero.
    pub open spec fn spec_useable_capital(self) -> int {
        if self.token_staked >= self.total_coverage {
            self.token_staked - self.total_coverage
        } else {
            0
        }
    }

    /// Current useable capital (see `spec_useable_capital`).
    pub fn get_useable_capital(&self) -> (r: u128)
        ensures
            r as int == self.spec_useable_capital(),
    {
        if self.token_staked >= self.total_coverage {
            self.token_staked - self.total_coverage
        } else {
            0
        }
    }

    /// The current premium rate, scaled by `SCALE_RATE`: the pricing
    /// constant over the smoothed useable capital, or zero when no capital
    /// is useable.
    pub open spec fn spec_fee(self) -> int {
        if self.spec_useable_capital() != 0 {
            self.pricing_constant as int / (self.spec_useable_capital()
                + self.virtual_liquidity_param)
        } else {
            0
        }
    }

    /// Current premium rate (see `spec_fee`).  The smoothed capital must fit
    /// the machine word, a bound every caller inside the ledger checks first.
    pub fn get_fee(&self) -> (r: u128)
        requires
            self.spec_useable_capital() + self.virtual_liquidity_param <= u128::MAX,
        ensures
            r as int == self.spec_fee(),
    {
        let useable_capital = self.get_useable_capital();
        if useable_capital != 0 {
            self.pricing_constant / (useable_capital + self.virtual_liquidity_param)
        } else {
            0
        }
    }

    /// The pricing constant that keeps the premium rate continuous across a
    /// stake or exit changing useable capital from `pre_u` to `cur_u`: the
    /// rate at the old capital, re-multiplied by the new smoothed capital.
    /// For the very first provider the rate is seeded from `initial_fee`.
    /// `None` reports arithmetic that exceeds the machine word (including a
    /// zero smoothed capital, which would leave the rate undefined).
    pub open spec fn spec_pricing_after_stake_change(self, pre_u: int, cur_u: int) -> Option<
        u128,
    > {
        if self.provider_count == 0 {
            if cur_u + self.virtual_liquidity_param > u128::MAX {
                None
            } else if self.initial_fee * (cur_u + self.virtual_liquidity_param) > u128::MAX {
                None
            } else {
                Some((self.initial_fee * (cur_u + self.virtual_liquidity_param)) as u128)
            }
        } else {
            if pre_u + self.virtual_liquidity_param > u128::MAX {
                None
            } else if pre_u + self.virtual_liquidity_param == 0 {
                None
            } else if cur_u + self.virtual_liquidity_param > u128::MAX {
                None
            } else if (self.pricing_constant as int / (pre_u + self.virtual_liquidity_param)) * (
            cur_u + self.virtual_liquidity_param) > u128::MAX {
                None
            } else {
                Some(((self.pricing_constant as int / (pre_u + self.virtual_liquidity_param)) * (
                cur_u + self.virtual_liquidity_param)) as u128)
            }
        }
    }

    /// Recalibrate the curve across a capital change (see
    /// `spec_pricing_after_stake_change`).
    pub fn pricing_after_stake_change(&self, pre_u: u128, cur_u: u128) -> (r: Option<u128>)
        ensures
            r == self.spec_pricing_after_stake_change(pre_u as int, cur_u as int),
    {
        if self.provider_count == 0 {
            match cur_u.checked_add(self.virtual_liquidity_param) {
                None => None,
                Some(d) => self.initial_fee.checked_mul(d),
            }
        } else {
            match pre_u.checked_add(self.virtual_liquidity_param) {
                None => None,
                Some(d) => {
                    if d == 0 {
                        None
                    } else {
                        let fee = self.pricing_constant / d;
                        match cur_u.checked_add(self.virtual_liquidity_param) {
                            None => None,
                            Some(d2) => fee.checked_mul(d2),
                        }
                    }
                },
            }
        }
    }

    /// The pricing constant after a cancellation leaves `total_coverage` at
    /// `tc`: unchanged, unless staked capital exceeds `tc` and the implied
    /// rate would fall below `min_fee`, in which case the constant is raised
    /// so the rate is exactly the floor.  `None` reports arithmetic that
    /// exceeds the machine word.
    pub open spec fn spec_pricing_after_cancel(self, tc: u128) -> Option<u128> {
        if self.token_staked > tc {
            let u = self.token_staked - tc;
            if u + self.virtual_liquidity_param > u128::MAX {
                None
            } else if self.pricing_constant as int / (u + self.virtual_liquidity_param)
                >= self.min_fee {
                Some(self.pricing_constant)
            } else if self.min_fee * (u + self.virtual_liquidity_param) > u128::MAX {
                None
            } else {
                Some((self.min_fee * (u + self.virtual_liquidity_param)) as u128)
            }
        } else {
            Some(self.pricing_constant)
        }
    }

    /// Enforce the premium-rate floor after a cancellation (see
    /// `spec_pricing_after_cancel`).
    pub fn pricing_after_cancel(&self, tc: u128) -> (r: Option<u128>)
        ensures
            r == self.spec_pricing_after_cancel(tc),
    {
        if self.token_staked > tc {
            let u = self.token_staked - tc;
            match u.checked_add(self.virtual_liquidity_param) {
                None => None,
                Some(d) => {
                    let tentative_fee = self.pricing_constant / d;
                    if tentative_fee >= self.min_fee {
                        Some(self.pricing_constant)
                    } else {
                        self.min_fee.checked_mul(d)
                    }
                },
            }
        } else {
            Some(self.pricing_constant)
        }
    }
}

} // verus!
