//! The underwriter operations: staking capital, settling rewards, exiting,
//! and releasing capital frozen for exited providers.

use vstd::prelude::*;

use crate::errors::Error;
use crate::keyed::{
    find_key, has_key, key_index, lemma_key_index_unique, lemma_push_distinct,
    lemma_update_same_key,
};
use crate::ledger::{
    live_delta_measure, spec_historical_shadow, spec_reward, spec_shadow, stake_measure,
    MetaDefender, ACC_SCALE, SCALE_RATE,
};
use crate::records::{HistoricalProvider, Provider};
use crate::sums::{lemma_seq_sum_element, lemma_seq_sum_nonneg, lemma_seq_sum_push,
    lemma_seq_sum_update};

verus! {

/// The capital available once `staked` base units back `covered` coverage.
pub open spec fn useable_capital(staked: int, covered: int) -> int {
    if staked >= covered {
        staked - covered
    } else {
        0
    }
}

/// Whether the product inside `spec_shadow` fits the machine word.
pub open spec fn spec_shadow_fits(p: Provider, acc_sps: u128, acc_down: u128, latest: u128) -> bool {
    if p.index > latest {
        p.stoken_amount * acc_sps <= u128::MAX
    } else {
        p.stoken_amount * (acc_sps - acc_down) <= u128::MAX
    }
}

/// Whether the product inside `spec_historical_shadow` fits the machine
/// word.
pub open spec fn spec_historical_shadow_fits(
    h: HistoricalProvider,
    acc_down: u128,
    latest: u128,
) -> bool {
    if h.index_before > latest {
        h.stoken_amount_before * h.shadow_accumulator_at_exit <= u128::MAX
    } else if h.shadow_accumulator_at_exit >= acc_down {
        h.stoken_amount_before * (h.shadow_accumulator_at_exit - acc_down) <= u128::MAX
    } else {
        true
    }
}

/// A provider's claimable reward, or `None` when the accumulator product
/// exceeds the machine word.
fn reward_checked(p: &Provider, acc_rps: u128) -> (r: Option<u128>)
    requires
        p.reward_debt <= p.stoken_amount * acc_rps / (ACC_SCALE as int),
    ensures
        r is Some <==> p.stoken_amount * acc_rps <= u128::MAX,
        r is Some ==> r->0 as int == spec_reward(*p, acc_rps),
{
    match p.stoken_amount.checked_mul(acc_rps) {
        None => None,
        Some(x) => Some(x / ACC_SCALE - p.reward_debt),
    }
}

/// A provider's shadowed (locked) capital, or `None` when the accumulator
/// product exceeds the machine word.
fn shadow_checked(p: &Provider, acc_sps: u128, acc_down: u128, latest: u128) -> (r: Option<u128>)
    requires
        p.shadow_debt <= p.stoken_amount * acc_sps / (ACC_SCALE as int),
        acc_down <= acc_sps,
    ensures
        r is Some <==> spec_shadow_fits(*p, acc_sps, acc_down, latest),
        r is Some ==> r->0 as int == spec_shadow(*p, acc_sps, acc_down, latest),
{
    if p.index > latest {
        match p.stoken_amount.checked_mul(acc_sps) {
            None => None,
            Some(x) => Some(x / ACC_SCALE - p.shadow_debt),
        }
    } else {
        let delta = acc_sps - acc_down;
        match p.stoken_amount.checked_mul(delta) {
            None => None,
            Some(x) => Some(x / ACC_SCALE),
        }
    }
}

/// An exited provider's shadowed capital, computed against its exit
/// snapshot, or `None` when the product exceeds the machine word.
fn historical_shadow_checked(h: &HistoricalProvider, acc_down: u128, latest: u128) -> (r: Option<
    u128,
>)
    requires
        h.shadow_debt_before <= h.stoken_amount_before * h.shadow_accumulator_at_exit / (
        ACC_SCALE as int),
    ensures
        r is Some <==> spec_historical_shadow_fits(*h, acc_down, latest),
        r is Some ==> r->0 as int == spec_historical_shadow(*h, acc_down, latest),
{
    if h.index_before > latest {
        match h.stoken_amount_before.checked_mul(h.shadow_accumulator_at_exit) {
            None => None,
            Some(x) => Some(x / ACC_SCALE - h.shadow_debt_before),
        }
    } else if h.shadow_accumulator_at_exit >= acc_down {
        let delta = h.shadow_accumulator_at_exit - acc_down;
        match h.stoken_amount_before.checked_mul(delta) {
            None => None,
            Some(x) => Some(x / ACC_SCALE),
        }
    } else {
        Some(0)
    }
}

impl MetaDefender {
    /// What `get_reward` returns: the claimable reward of `a`'s provider
    /// record, or zero when there is none or it holds no shares.
    pub open spec fn spec_get_reward(self, a: u128) -> int {
        if has_key(self.providers@, a) {
            let p = self.providers@[key_index(self.providers@, a)].1;
            if p.stoken_amount != 0 {
                spec_reward(p, self.acc_reward_per_share)
            } else {
                0
            }
        } else {
            0
        }
    }

    /// Whether the reward product for `a`'s provider record fits the
    /// machine word (vacuously true without a record).
    pub open spec fn reward_query_fits(self, a: u128) -> bool {
        has_key(self.providers@, a) ==> self.providers@[key_index(self.providers@, a)].1
            .stoken_amount * self.acc_reward_per_share <= u128::MAX
    }

    /// The reward `address` could settle now (see `spec_get_reward`).
    pub fn get_reward(&self, address: u128) -> (r: u128)
        requires
            self.wf(),
            self.reward_query_fits(address),
        ensures
            r as int == self.spec_get_reward(address),
    {
        match find_key(&self.providers, address) {
            None => 0,
            Some(i) => {
                proof {
                    lemma_key_index_unique(self.providers@, address, i as int);
                }
                let p = self.providers[i].1;
                if p.stoken_amount != 0 {
                    match reward_checked(&p, self.acc_reward_per_share) {
                        None => 0,  // unreachable under the requires
                        Some(x) => x,
                    }
                } else {
                    0
                }
            },
        }
    }

    /// The share units `amount` base units buy at the current rate, and the
    /// debt terms a provider joining now starts with.
    pub open spec fn spec_stake_shares(self, amount: u128) -> int {
        amount * SCALE_RATE / (self.exchange_rate as int)
    }

    /// Whether every arithmetic step of `provide_capital` fits the machine
    /// word.
    pub open spec fn stake_fits(self, amount: u128) -> bool {
        let s = self.spec_stake_shares(amount);
        &&& self.exchange_rate != 0
        &&& amount * SCALE_RATE <= u128::MAX
        &&& s * self.acc_reward_per_share <= u128::MAX
        &&& s * self.acc_shadow_per_share <= u128::MAX
        &&& self.stoken_supply + s <= u128::MAX
        &&& self.token_staked + amount <= u128::MAX
        &&& self.spec_pricing_after_stake_change(
            useable_capital(self.token_staked as int, self.total_coverage as int),
            useable_capital(self.token_staked + amount, self.total_coverage as int),
        ) is Some
    }

    /// Stake `amount` base units for `caller`, minting shares at the
    /// current exchange rate, recording the join-time debts so the new
    /// provider owes nothing accrued before it, and recalibrating the
    /// pricing curve across the capital change.  The host collects
    /// `amount` from `caller` exactly when `Ok` is returned.
    pub fn provide_capital(&mut self, caller: u128, now: u64, amount: u128) -> (r: Result<
        (),
        Error,
    >)
        requires
            old(self).wf(),
        ensures
            final(self).wf(),
            final(self).latest_unfrozen_index == old(self).latest_unfrozen_index,
            final(self).acc_shadow_rolled_back == old(self).acc_shadow_rolled_back,
            r is Err ==> *final(self) == *old(self),
            r == Err::<(), Error>(Error::ExistingUnderwriter) <==> has_key(
                old(self).providers@,
                caller,
            ),
            !has_key(old(self).providers@, caller) ==> (r == Err::<(), Error>(Error::Overflow)
                <==> !old(self).stake_fits(amount)),
            r is Ok <==> !has_key(old(self).providers@, caller) && old(self).stake_fits(amount),
            r is Ok ==> ({
                let s = old(self).spec_stake_shares(amount);
                let p = Provider {
                    index: old(self).provider_count,
                    participation_time: now,
                    stoken_amount: s as u128,
                    reward_debt: (s * old(self).acc_reward_per_share / (ACC_SCALE as int)) as u128,
                    shadow_debt: (s * old(self).acc_shadow_per_share / (ACC_SCALE as int)) as u128,
                };
                &&& final(self).providers@ == old(self).providers@.push((caller, p))
                &&& final(self).stoken_supply == old(self).stoken_supply + s
                &&& final(self).token_staked == old(self).token_staked + amount
                &&& final(self).provider_count == old(self).provider_count + 1
                &&& Some(final(self).pricing_constant) == old(self).spec_pricing_after_stake_change(
                    useable_capital(old(self).token_staked as int, old(self).total_coverage as int),
                    useable_capital(old(self).token_staked + amount, old(self).total_coverage as int),
                )
                &&& *final(self) == (MetaDefender {
                    providers: final(self).providers,
                    stoken_supply: final(self).stoken_supply,
                    token_staked: final(self).token_staked,
                    provider_count: final(self).provider_count,
                    pricing_constant: final(self).pricing_constant,
                    ..*old(self)
                })
            }),
    {
        if find_key(&self.providers, caller).is_some() {
            return Err(Error::ExistingUnderwriter);
        }
        if self.exchange_rate == 0 {
            return Err(Error::Overflow);
        }
        let scaled = match amount.checked_mul(SCALE_RATE) {
            None => return Err(Error::Overflow),
            Some(x) => x,
        };
        let stoken_amount = scaled / self.exchange_rate;
        let reward_debt = match stoken_amount.checked_mul(self.acc_reward_per_share) {
            None => return Err(Error::Overflow),
            Some(x) => x / ACC_SCALE,
        };
        let shadow_debt = match stoken_amount.checked_mul(self.acc_shadow_per_share) {
            None => return Err(Error::Overflow),
            Some(x) => x / ACC_SCALE,
        };
        let new_supply = match self.stoken_supply.checked_add(stoken_amount) {
            None => return Err(Error::Overflow),
            Some(x) => x,
        };
        let new_staked = match self.token_staked.checked_add(amount) {
            None => return Err(Error::Overflow),
            Some(x) => x,
        };
        let pre_useable = self.get_useable_capital();
        let cur_useable = if new_staked >= self.total_coverage {
            new_staked - self.total_coverage
        } else {
            0
        };
        let new_pricing = match self.pricing_after_stake_change(pre_useable, cur_useable) {
            None => return Err(Error::Overflow),
            Some(k) => k,
        };
        let index = self.provider_count;
        let n = self.providers.len();
        let p = Provider { index, participation_time: now, stoken_amount, reward_debt, shadow_debt };
        proof {
            lemma_seq_sum_push(self.providers@, stake_measure(), (caller, p));
            lemma_push_distinct(self.providers@, (caller, p));
        }
        self.providers.push((caller, p));
        self.stoken_supply = new_supply;
        self.token_staked = new_staked;
        self.pricing_constant = new_pricing;
        self.provider_count = self.provider_count + 1;
        proof {
            assert forall|i: int| 0 <= i < self.providers@.len() implies (
            #[trigger] self.providers@[i]).1.index == i by {
                if i < self.providers@.len() - 1 {
                    assert(self.providers@[i] == old(self).providers@[i]);
                }
            }
        }
        Ok(())
    }

    /// Settle `caller`'s accrued reward: report it for payout and reset the
    /// reward debt so the same value cannot be drawn twice.  The host pays
    /// `caller` the returned amount exactly when `Ok` is returned.
    pub fn provider_take_reward(&mut self, caller: u128) -> (r: Result<u128, Error>)
        requires
            old(self).wf(),
        ensures
            final(self).wf(),
            final(self).latest_unfrozen_index == old(self).latest_unfrozen_index,
            final(self).acc_shadow_rolled_back == old(self).acc_shadow_rolled_back,
            r is Err ==> *final(self) == *old(self),
            r == Err::<u128, Error>(Error::NotUnderwriter) <==> !has_key(
                old(self).providers@,
                caller,
            ),
            has_key(old(self).providers@, caller) ==> ({
                let i = key_index(old(self).providers@, caller);
                let p = old(self).providers@[i].1;
                &&& (r == Err::<u128, Error>(Error::NotValidUnderwriter) <==> p.stoken_amount == 0)
                &&& (p.stoken_amount != 0 ==> {
                    &&& (r is Ok <==> p.stoken_amount * old(self).acc_reward_per_share
                        <= u128::MAX)
                    &&& (r == Err::<u128, Error>(Error::Overflow) <==> p.stoken_amount * old(
                        self,
                    ).acc_reward_per_share > u128::MAX)
                    &&& (r is Ok ==> {
                        &&& r->Ok_0 as int == spec_reward(p, old(self).acc_reward_per_share)
                        &&& final(self).providers@ == old(self).providers@.update(
                            i,
                            (
                                caller,
                                Provider {
                                    reward_debt: (p.stoken_amount * old(self).acc_reward_per_share
                                        / (ACC_SCALE as int)) as u128,
                                    ..p
                                },
                            ),
                        )
                        &&& *final(self) == (MetaDefender {
                            providers: final(self).providers,
                            ..*old(self)
                        })
                    })
                })
            }),
    {
        let i = match find_key(&self.providers, caller) {
            None => return Err(Error::NotUnderwriter),
            Some(i) => i,
        };
        proof {
            lemma_key_index_unique(self.providers@, caller, i as int);
        }
        let p = self.providers[i].1;
        if p.stoken_amount == 0 {
            return Err(Error::NotValidUnderwriter);
        }
        let x = match p.stoken_amount.checked_mul(self.acc_reward_per_share) {
            None => return Err(Error::Overflow),
            Some(x) => x,
        };
        let total = x / ACC_SCALE;
        let reward = total - p.reward_debt;
        let updated = Provider { reward_debt: total, ..p };
        proof {
            lemma_update_same_key(self.providers@, i as int, (caller, updated));
            lemma_seq_sum_update(self.providers@, stake_measure(), i as int, (caller, updated));
        }
        let e = &mut self.providers[i];
        e.1 = updated;
        proof {
            assert forall|j: int| 0 <= j < self.providers@.len() implies (
            #[trigger] self.providers@[j]).1.index == j by {
                if j != i {
                    assert(self.providers@[j] == old(self).providers@[j]);
                }
            }
        }
        Ok(reward)
    }

    /// Whether every arithmetic step of `provider_abolish` fits the machine
    /// word (meaningful when `a` has a provider record).
    pub open spec fn abolish_fits(self, a: u128) -> bool {
        let p = self.providers@[key_index(self.providers@, a)].1;
        let token_remain = p.stoken_amount * self.exchange_rate / (SCALE_RATE as int);
        let shadow = spec_shadow(
            p,
            self.acc_shadow_per_share,
            self.acc_shadow_rolled_back,
            self.latest_unfrozen_index,
        );
        let withdrawable = if token_remain >= shadow {
            token_remain - shadow
        } else {
            0
        };
        let token_left = token_remain - withdrawable;
        &&& self.exchange_rate != 0
        &&& p.stoken_amount * self.exchange_rate <= u128::MAX
        &&& spec_shadow_fits(
            p,
            self.acc_shadow_per_share,
            self.acc_shadow_rolled_back,
            self.latest_unfrozen_index,
        )
        &&& p.stoken_amount * self.acc_reward_per_share <= u128::MAX
        &&& token_left * SCALE_RATE <= u128::MAX
        &&& self.token_frozen + token_left <= u128::MAX
        &&& self.token_staked >= token_remain
        &&& self.spec_pricing_after_stake_change(
            useable_capital(self.token_staked as int, self.total_coverage as int),
            useable_capital(self.token_staked - token_remain, self.total_coverage as int),
        ) is Some
        &&& withdrawable + spec_reward(p, self.acc_reward_per_share) <= u128::MAX
    }

    /// The record an exiting provider leaves behind: its index, shares and
    /// shadow debt as they were, the still-shadowed value converted back to
    /// share units, and the shadow accumulator as of the exit.
    pub open spec fn spec_exit_record(self, a: u128) -> HistoricalProvider {
        let p = self.providers@[key_index(self.providers@, a)].1;
        let token_remain = p.stoken_amount * self.exchange_rate / (SCALE_RATE as int);
        let shadow = spec_shadow(
            p,
            self.acc_shadow_per_share,
            self.acc_shadow_rolled_back,
            self.latest_unfrozen_index,
        );
        let withdrawable = if token_remain >= shadow {
            token_remain - shadow
        } else {
            0
        };
        let token_left = token_remain - withdrawable;
        HistoricalProvider {
            index_before: p.index,
            stoken_amount_before: p.stoken_amount,
            frozen_token_amount: (token_left * SCALE_RATE / (self.exchange_rate as int)) as u128,
            shadow_accumulator_at_exit: self.acc_shadow_per_share,
            shadow_debt_before: p.shadow_debt,
        }
    }

    /// Exit `caller`: pay out the stake not shadowed by outstanding
    /// policies plus the accrued reward, freeze the shadowed remainder in a
    /// historical record, retire the provider's shares and recalibrate the
    /// pricing curve.  The host pays `caller` the returned amount exactly
    /// when `Ok` is returned.
    pub fn provider_abolish(&mut self, caller: u128) -> (r: Result<u128, Error>)
        requires
            old(self).wf(),
        ensures
            final(self).wf(),
            final(self).latest_unfrozen_index == old(self).latest_unfrozen_index,
            final(self).acc_shadow_rolled_back == old(self).acc_shadow_rolled_back,
            r is Err ==> *final(self) == *old(self),
            r == Err::<u128, Error>(Error::NotUnderwriter) <==> !has_key(
                old(self).providers@,
                caller,
            ),
            has_key(old(self).providers@, caller) ==> ({
                let i = key_index(old(self).providers@, caller);
                let p = old(self).providers@[i].1;
                &&& (r == Err::<u128, Error>(Error::ProviderLeavingInProgress) <==> old(
                    self,
                ).provider_leaving)
                &&& (!old(self).provider_leaving ==> (r == Err::<u128, Error>(
                    Error::NotValidUnderwriter,
                ) <==> p.stoken_amount == 0))
                &&& (!old(self).provider_leaving && p.stoken_amount != 0 ==> {
                    &&& (r is Ok <==> old(self).abolish_fits(caller))
                    &&& (r == Err::<u128, Error>(Error::Overflow) <==> !old(self).abolish_fits(
                        caller,
                    ))
                    &&& (r is Ok ==> ({
                        let token_remain = p.stoken_amount * old(self).exchange_rate / (
                        SCALE_RATE as int);
                        let shadow = spec_shadow(
                            p,
                            old(self).acc_shadow_per_share,
                            old(self).acc_shadow_rolled_back,
                            old(self).latest_unfrozen_index,
                        );
                        let withdrawable = if token_remain >= shadow {
                            token_remain - shadow
                        } else {
                            0
                        };
                        let token_left = token_remain - withdrawable;
                        let h = old(self).spec_exit_record(caller);
                        &&& r->Ok_0 as int == withdrawable + spec_reward(
                            p,
                            old(self).acc_reward_per_share,
                        )
                        &&& final(self).providers@ == old(self).providers@.update(
                            i,
                            (
                                caller,
                                Provider { stoken_amount: 0, reward_debt: 0, shadow_debt: 0, ..p },
                            ),
                        )
                        &&& final(self).historical_providers@ == (if has_key(
                            old(self).historical_providers@,
                            caller,
                        ) {
                            old(self).historical_providers@.update(
                                key_index(old(self).historical_providers@, caller),
                                (caller, h),
                            )
                        } else {
                            old(self).historical_providers@.push((caller, h))
                        })
                        &&& final(self).stoken_supply == old(self).stoken_supply
                            - p.stoken_amount
                        &&& final(self).token_staked == old(self).token_staked - token_remain
                        &&& final(self).token_frozen == old(self).token_frozen + token_left
                        &&& Some(final(self).pricing_constant) == old(
                            self,
                        ).spec_pricing_after_stake_change(
                            useable_capital(
                                old(self).token_staked as int,
                                old(self).total_coverage as int,
                            ),
                            useable_capital(
                                old(self).token_staked - token_remain,
                                old(self).total_coverage as int,
                            ),
                        )
                        &&& *final(self) == (MetaDefender {
                            providers: final(self).providers,
                            historical_providers: final(self).historical_providers,
                            stoken_supply: final(self).stoken_supply,
                            token_staked: final(self).token_staked,
                            token_frozen: final(self).token_frozen,
                            pricing_constant: final(self).pricing_constant,
                            ..*old(self)
                        })
                    }))
                })
            }),
    {
        let i = match find_key(&self.providers, caller) {
            None => return Err(Error::NotUnderwriter),
            Some(i) => i,
        };
        proof {
            lemma_key_index_unique(self.providers@, caller, i as int);
        }
        if self.provider_leaving {
            return Err(Error::ProviderLeavingInProgress);
        }
        let p = self.providers[i].1;
        if p.stoken_amount == 0 {
            return Err(Error::NotValidUnderwriter);
        }
        if self.exchange_rate == 0 {
            return Err(Error::Overflow);
        }
        let token_remain = match p.stoken_amount.checked_mul(self.exchange_rate) {
            None => return Err(Error::Overflow),
            Some(x) => x / SCALE_RATE,
        };
        proof {
            lemma_seq_sum_nonneg(self.policies@, live_delta_measure());
        }
        let shadow = match shadow_checked(
            &p,
            self.acc_shadow_per_share,
            self.acc_shadow_rolled_back,
            self.latest_unfrozen_index,
        ) {
            None => return Err(Error::Overflow),
            Some(x) => x,
        };
        let withdrawable = if token_remain >= shadow {
            token_remain - shadow
        } else {
            0
        };
        let reward = match reward_checked(&p, self.acc_reward_per_share) {
            None => return Err(Error::Overflow),
            Some(x) => x,
        };
        let token_left = token_remain - withdrawable;
        let frozen_token_amount = match token_left.checked_mul(SCALE_RATE) {
            None => return Err(Error::Overflow),
            Some(x) => x / self.exchange_rate,
        };
        let new_frozen = match self.token_frozen.checked_add(token_left) {
            None => return Err(Error::Overflow),
            Some(x) => x,
        };
        let new_staked = match self.token_staked.checked_sub(token_remain) {
            None => return Err(Error::Overflow),
            Some(x) => x,
        };
        let pre_useable = self.get_useable_capital();
        let cur_useable = if new_staked >= self.total_coverage {
            new_staked - self.total_coverage
        } else {
            0
        };
        let new_pricing = match self.pricing_after_stake_change(pre_useable, cur_useable) {
            None => return Err(Error::Overflow),
            Some(k) => k,
        };
        let payout = match withdrawable.checked_add(reward) {
            None => return Err(Error::Overflow),
            Some(x) => x,
        };
        proof {
            lemma_seq_sum_element(self.providers@, stake_measure(), i as int);
        }
        let new_supply = self.stoken_supply - p.stoken_amount;
        let h = HistoricalProvider {
            index_before: p.index,
            stoken_amount_before: p.stoken_amount,
            frozen_token_amount,
            shadow_accumulator_at_exit: self.acc_shadow_per_share,
            shadow_debt_before: p.shadow_debt,
        };
        match find_key(&self.historical_providers, caller) {
            Some(j) => {
                proof {
                    lemma_key_index_unique(self.historical_providers@, caller, j as int);
                    lemma_update_same_key(self.historical_providers@, j as int, (caller, h));
                }
                let e = &mut self.historical_providers[j];
                e.1 = h;
            },
            None => {
                proof {
                    lemma_push_distinct(self.historical_providers@, (caller, h));
                }
                self.historical_providers.push((caller, h));
            },
        }
        let retired = Provider { stoken_amount: 0, reward_debt: 0, shadow_debt: 0, ..p };
        proof {
            lemma_update_same_key(self.providers@, i as int, (caller, retired));
            lemma_seq_sum_update(self.providers@, stake_measure(), i as int, (caller, retired));
        }
        let e = &mut self.providers[i];
        e.1 = retired;
        self.stoken_supply = new_supply;
        self.token_staked = new_staked;
        self.token_frozen = new_frozen;
        self.pricing_constant = new_pricing;
        proof {
            assert forall|j: int| 0 <= j < self.providers@.len() implies (
            #[trigger] self.providers@[j]).1.index == j by {
                if j != i {
                    assert(self.providers@[j] == old(self).providers@[j]);
                }
            }
        }
        Ok(payout)
    }

    /// What `get_unfrozen_capital` returns: the value a historical record
    /// could release now, or what an active provider could withdraw beyond
    /// its shadow, or zero for a stranger.
    pub open spec fn spec_unfrozen_capital(self, a: u128) -> int {
        if has_key(self.historical_providers@, a) {
            let h = self.historical_providers@[key_index(self.historical_providers@, a)].1;
            let shadow = spec_historical_shadow(
                h,
                self.acc_shadow_rolled_back,
                self.latest_unfrozen_index,
            );
            let frozen_value = h.frozen_token_amount * self.exchange_rate / (SCALE_RATE as int);
            if frozen_value <= shadow {
                0
            } else {
                frozen_value - shadow
            }
        } else if has_key(self.providers@, a) {
            let p = self.providers@[key_index(self.providers@, a)].1;
            let token_remain = p.stoken_amount * self.exchange_rate / (SCALE_RATE as int);
            let shadow = spec_shadow(
                p,
                self.acc_shadow_per_share,
                self.acc_shadow_rolled_back,
                self.latest_unfrozen_index,
            );
            if token_remain >= shadow {
                token_remain - shadow
            } else {
                0
            }
        } else {
            0
        }
    }

    /// Whether the products inside `spec_unfrozen_capital` fit the machine
    /// word.
    pub open spec fn unfrozen_query_fits(self, a: u128) -> bool {
        if has_key(self.historical_providers@, a) {
            let h = self.historical_providers@[key_index(self.historical_providers@, a)].1;
            spec_historical_shadow_fits(h, self.acc_shadow_rolled_back, self.latest_unfrozen_index)
                && h.frozen_token_amount * self.exchange_rate <= u128::MAX
        } else if has_key(self.providers@, a) {
            let p = self.providers@[key_index(self.providers@, a)].1;
            p.stoken_amount * self.exchange_rate <= u128::MAX && spec_shadow_fits(
                p,
                self.acc_shadow_per_share,
                self.acc_shadow_rolled_back,
                self.latest_unfrozen_index,
            )
        } else {
            true
        }
    }

    /// The capital `caller` could have released right now (see
    /// `spec_unfrozen_capital`).
    pub fn get_unfrozen_capital(&self, caller: u128) -> (r: u128)
        requires
            self.wf(),
            self.unfrozen_query_fits(caller),
        ensures
            r as int == self.spec_unfrozen_capital(caller),
    {
        proof {
            lemma_seq_sum_nonneg(self.policies@, live_delta_measure());
        }
        match find_key(&self.historical_providers, caller) {
            Some(j) => {
                proof {
                    lemma_key_index_unique(self.historical_providers@, caller, j as int);
                }
                let h = self.historical_providers[j].1;
                let shadow = match historical_shadow_checked(
                    &h,
                    self.acc_shadow_rolled_back,
                    self.latest_unfrozen_index,
                ) {
                    None => 0,  // unreachable under the requires
                    Some(x) => x,
                };
                let frozen_value = match h.frozen_token_amount.checked_mul(self.exchange_rate) {
                    None => 0,  // unreachable under the requires
                    Some(x) => x / SCALE_RATE,
                };
                if frozen_value <= shadow {
                    0
                } else {
                    frozen_value - shadow
                }
            },
            None => {
                match find_key(&self.providers, caller) {
                    None => 0,
                    Some(i) => {
                        proof {
                            lemma_key_index_unique(self.providers@, caller, i as int);
                        }
                        let p = self.providers[i].1;
                        let token_remain = match p.stoken_amount.checked_mul(self.exchange_rate) {
                            None => 0,  // unreachable under the requires
                            Some(x) => x / SCALE_RATE,
                        };
                        let shadow = match shadow_checked(
                            &p,
                            self.acc_shadow_per_share,
                            self.acc_shadow_rolled_back,
                            self.latest_unfrozen_index,
                        ) {
                            None => 0,  // unreachable under the requires
                            Some(x) => x,
                        };
                        if token_remain >= shadow {
                            token_remain - shadow
                        } else {
                            0
                        }
                    },
                }
            },
        }
    }

    /// Whether the products computed before the release decision in
    /// `historical_provider_withdraw` fit the machine word.
    pub open spec fn withdraw_fits_pre(self, a: u128) -> bool {
        let h = self.historical_providers@[key_index(self.historical_providers@, a)].1;
        &&& spec_historical_shadow_fits(
            h,
            self.acc_shadow_rolled_back,
            self.latest_unfrozen_index,
        )
        &&& h.frozen_token_amount * self.exchange_rate <= u128::MAX
    }

    /// Whether something is releasable: the frozen value exceeds the
    /// remaining shadow.
    pub open spec fn withdraw_viable(self, a: u128) -> bool {
        let h = self.historical_providers@[key_index(self.historical_providers@, a)].1;
        let shadow = spec_historical_shadow(
            h,
            self.acc_shadow_rolled_back,
            self.latest_unfrozen_index,
        );
        h.frozen_token_amount * self.exchange_rate / (SCALE_RATE as int) > shadow
    }

    /// Whether the steps after the release decision fit the machine word.
    pub open spec fn withdraw_fits_post(self, a: u128) -> bool {
        let h = self.historical_providers@[key_index(self.historical_providers@, a)].1;
        let shadow = spec_historical_shadow(
            h,
            self.acc_shadow_rolled_back,
            self.latest_unfrozen_index,
        );
        let frozen_value = h.frozen_token_amount * self.exchange_rate / (SCALE_RATE as int);
        &&& self.token_frozen >= frozen_value - shadow
        &&& shadow * SCALE_RATE <= u128::MAX
    }

    /// Release to `caller` whatever part of its frozen capital later
    /// cancellations have unshadowed, keeping the rest frozen.  The host
    /// pays `caller` the returned amount exactly when `Ok` is returned.
    pub fn historical_provider_withdraw(&mut self, caller: u128) -> (r: Result<u128, Error>)
        requires
            old(self).wf(),
        ensures
            final(self).wf(),
            final(self).latest_unfrozen_index == old(self).latest_unfrozen_index,
            final(self).acc_shadow_rolled_back == old(self).acc_shadow_rolled_back,
            r is Err ==> *final(self) == *old(self),
            r == Err::<u128, Error>(Error::NotHistoricalUnderwriter) <==> !has_key(
                old(self).historical_providers@,
                caller,
            ),
            has_key(old(self).historical_providers@, caller) ==> ({
                let j = key_index(old(self).historical_providers@, caller);
                let h = old(self).historical_providers@[j].1;
                let shadow = spec_historical_shadow(
                    h,
                    old(self).acc_shadow_rolled_back,
                    old(self).latest_unfrozen_index,
                );
                let frozen_value = h.frozen_token_amount * old(self).exchange_rate / (
                SCALE_RATE as int);
                &&& (r == Err::<u128, Error>(Error::HistoricalProviderLeavingInProgress) <==> old(
                    self,
                ).historical_provider_leaving)
                &&& (!old(self).historical_provider_leaving ==> {
                    &&& (!old(self).withdraw_fits_pre(caller) ==> r == Err::<u128, Error>(
                        Error::Overflow,
                    ))
                    &&& (old(self).withdraw_fits_pre(caller) && !old(self).withdraw_viable(caller)
                        ==> r == Err::<u128, Error>(Error::InsufficientSToken))
                    &&& (old(self).withdraw_fits_pre(caller) && old(self).withdraw_viable(caller)
                        && !old(self).withdraw_fits_post(caller) ==> r == Err::<u128, Error>(
                        Error::Overflow,
                    ))
                    &&& (r is Ok <==> old(self).withdraw_fits_pre(caller) && old(
                        self,
                    ).withdraw_viable(caller) && old(self).withdraw_fits_post(caller))
                    &&& (r is Ok ==> {
                        &&& r->Ok_0 as int == frozen_value - shadow
                        &&& final(self).token_frozen == old(self).token_frozen - (frozen_value
                            - shadow)
                        &&& final(self).historical_providers@ == old(
                            self,
                        ).historical_providers@.update(
                            j,
                            (
                                caller,
                                HistoricalProvider {
                                    frozen_token_amount: (shadow * SCALE_RATE / (old(
                                        self,
                                    ).exchange_rate as int)) as u128,
                                    ..h
                                },
                            ),
                        )
                        &&& *final(self) == (MetaDefender {
                            historical_providers: final(self).historical_providers,
                            token_frozen: final(self).token_frozen,
                            ..*old(self)
                        })
                    })
                })
            }),
    {
        let j = match find_key(&self.historical_providers, caller) {
            None => return Err(Error::NotHistoricalUnderwriter),
            Some(j) => j,
        };
        proof {
            lemma_key_index_unique(self.historical_providers@, caller, j as int);
        }
        if self.historical_provider_leaving {
            return Err(Error::HistoricalProviderLeavingInProgress);
        }
        let h = self.historical_providers[j].1;
        let shadow = match historical_shadow_checked(
            &h,
            self.acc_shadow_rolled_back,
            self.latest_unfrozen_index,
        ) {
            None => return Err(Error::Overflow),
            Some(x) => x,
        };
        let frozen_value = match h.frozen_token_amount.checked_mul(self.exchange_rate) {
            None => return Err(Error::Overflow),
            Some(x) => x / SCALE_RATE,
        };
        if frozen_value <= shadow {
            return Err(Error::InsufficientSToken);
        }
        let amount = frozen_value - shadow;
        let new_frozen = match self.token_frozen.checked_sub(amount) {
            None => return Err(Error::Overflow),
            Some(x) => x,
        };
        // frozen_value > shadow >= 0 rules a zero rate out, so the
        // conversion back to share units is well defined
        proof {
            if self.exchange_rate == 0 {
                assert(h.frozen_token_amount * self.exchange_rate == 0);
            }
        }
        let new_ftoken = match shadow.checked_mul(SCALE_RATE) {
            None => return Err(Error::Overflow),
            Some(x) => x / self.exchange_rate,
        };
        let updated = HistoricalProvider { frozen_token_amount: new_ftoken, ..h };
        proof {
            lemma_update_same_key(self.historical_providers@, j as int, (caller, updated));
        }
        let e = &mut self.historical_providers[j];
        e.1 = updated;
        self.token_frozen = new_frozen;
        Ok(amount)
    }
}

} // verus!
