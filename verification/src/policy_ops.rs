//! The policy operations: buying coverage, the strictly-ordered
//! cancellation protocol, and the judge-adjudicated claim workflow with
//! pool-wide shortfall absorption.

use vstd::prelude::*;

use crate::arith::{lemma_mul_div_le, lemma_mul_div_mono};
use crate::errors::Error;
use crate::keyed::{
    find_key, has_key, key_index, lemma_entry_lookup_after_push,
    lemma_entry_lookup_after_update, lemma_key_index_unique, lemma_push_distinct,
    lemma_update_same_key,
};
use crate::ledger::{
    live_coverage_measure, live_delta_measure, MetaDefender, ACC_SCALE,
    CANCEL_GRACE, POLICY_TERM, SCALE_RATE,
};
use crate::records::{ClaimPayout, Policy};
use crate::sums::{lemma_seq_sum_element, lemma_seq_sum_nonneg, lemma_seq_sum_push,
    lemma_seq_sum_update};

verus! {

impl MetaDefender {
    /// Open a claim on policy `id`: only the beneficiary may apply, only
    /// while the policy is effective, not already claimed, not already in
    /// adjudication, and not canceled.
    pub fn policy_claim_apply(&mut self, caller: u128, now: u64, id: u128) -> (r: Result<
        (),
        Error,
    >)
        requires
            old(self).wf(),
        ensures
            final(self).wf(),
            final(self).latest_unfrozen_index == old(self).latest_unfrozen_index,
            final(self).acc_shadow_rolled_back == old(self).acc_shadow_rolled_back,
            r is Err ==> *final(self) == *old(self),
            r == Err::<(), Error>(Error::NotExistedPolicy) <==> id >= old(self).policy_count,
            id < old(self).policy_count ==> ({
                let p = old(self).policies@[id as int];
                &&& (r == Err::<(), Error>(Error::NotBeneficiary) <==> p.beneficiary != caller)
                &&& (p.beneficiary == caller ==> {
                    &&& (r == Err::<(), Error>(Error::AlreadyClaimedPolicy) <==> p.is_claimed)
                    &&& (!p.is_claimed ==> {
                        &&& (r == Err::<(), Error>(Error::InClaimingProgress)
                            <==> p.in_claim_applying)
                        &&& (!p.in_claim_applying ==> {
                            &&& (r == Err::<(), Error>(Error::AlreadyCancelledPolicy)
                                <==> p.is_canceled)
                            &&& (!p.is_canceled ==> {
                                &&& (r == Err::<(), Error>(Error::NotEffectivePolicy) <==> now
                                    > p.effective_until)
                                &&& (r is Ok <==> now <= p.effective_until)
                            })
                        })
                    })
                })
                &&& (r is Ok ==> {
                    &&& final(self).policies@ == old(self).policies@.update(
                        id as int,
                        (Policy { in_claim_applying: true, ..p }),
                    )
                    &&& *final(self) == (MetaDefender {
                        policies: final(self).policies,
                        ..*old(self)
                    })
                })
            }),
    {
        if id >= self.policy_count {
            return Err(Error::NotExistedPolicy);
        }
        let n = self.policies.len();
        assert(id < n as u128);
        let iu = id as usize;
        let p = self.policies[iu];
        if p.beneficiary != caller {
            return Err(Error::NotBeneficiary);
        }
        if p.is_claimed {
            return Err(Error::AlreadyClaimedPolicy);
        }
        if p.in_claim_applying {
            return Err(Error::InClaimingProgress);
        }
        if p.is_canceled {
            return Err(Error::AlreadyCancelledPolicy);
        }
        if now > p.effective_until {
            return Err(Error::NotEffectivePolicy);
        }
        proof {
            lemma_seq_sum_update(
                self.policies@,
                live_coverage_measure(),
                id as int,
                (Policy { in_claim_applying: true, ..p }),
            );
            lemma_seq_sum_update(
                self.policies@,
                live_delta_measure(),
                id as int,
                (Policy { in_claim_applying: true, ..p }),
            );
        }
        let e = &mut self.policies[iu];
        e.in_claim_applying = true;
        proof {
            self.lemma_policy_pointwise_wf(*old(self), id as int);
        }
        Ok(())
    }

    /// Close the claim on policy `id` without paying: only the judge may
    /// refuse.  Refusing a policy that is not in adjudication is a no-op,
    /// so a second refusal neither errors nor changes anything.
    pub fn refuse_apply(&mut self, caller: u128, id: u128) -> (r: Result<(), Error>)
        requires
            old(self).wf(),
        ensures
            final(self).wf(),
            final(self).latest_unfrozen_index == old(self).latest_unfrozen_index,
            final(self).acc_shadow_rolled_back == old(self).acc_shadow_rolled_back,
            r is Err ==> *final(self) == *old(self),
            r == Err::<(), Error>(Error::NotJudger) <==> caller != old(self).judger,
            caller == old(self).judger ==> (r == Err::<(), Error>(Error::NotExistedPolicy) <==> id
                >= old(self).policy_count),
            r is Ok <==> caller == old(self).judger && id < old(self).policy_count,
            r is Ok ==> ({
                let p = old(self).policies@[id as int];
                &&& (p.in_claim_applying ==> final(self).policies@ == old(self).policies@.update(
                    id as int,
                    (Policy { in_claim_applying: false, ..p }),
                ))
                &&& (!p.in_claim_applying ==> *final(self) == *old(self))
                &&& *final(self) == (MetaDefender { policies: final(self).policies, ..*old(self) })
            }),
    {
        if caller != self.judger {
            return Err(Error::NotJudger);
        }
        if id >= self.policy_count {
            return Err(Error::NotExistedPolicy);
        }
        let n = self.policies.len();
        assert(id < n as u128);
        let iu = id as usize;
        let p = self.policies[iu];
        if !p.in_claim_applying {
            return Ok(());
        }
        proof {
            lemma_seq_sum_update(
                self.policies@,
                live_coverage_measure(),
                id as int,
                (Policy { in_claim_applying: false, ..p }),
            );
            lemma_seq_sum_update(
                self.policies@,
                live_delta_measure(),
                id as int,
                (Policy { in_claim_applying: false, ..p }),
            );
        }
        let e = &mut self.policies[iu];
        e.in_claim_applying = false;
        proof {
            self.lemma_policy_pointwise_wf(*old(self), id as int);
        }
        Ok(())
    }

    /// Whether the shortfall-absorption arithmetic fits the machine word:
    /// the pool can cover `exceeded`, and every rescaling product fits.
    pub open spec fn exceeded_fits(self, exceeded: u128) -> bool {
        let pre = self.token_staked + self.token_frozen;
        let delta_rate = (pre - exceeded) * SCALE_RATE / pre;
        &&& pre <= u128::MAX
        &&& pre != 0
        &&& exceeded <= pre
        &&& (pre - exceeded) * SCALE_RATE <= u128::MAX
        &&& self.exchange_rate * delta_rate <= u128::MAX
        &&& self.token_staked * delta_rate <= u128::MAX
        &&& self.token_frozen * delta_rate <= u128::MAX
    }

    /// Socialize a claim shortfall across all stakers: scale the exchange
    /// rate, the staked capital and the frozen capital down by the ratio of
    /// the pool after paying `exceeded` to the pool before, permanently
    /// devaluing every share proportionally.
    fn exceeded_pay(&mut self, exceeded: u128) -> (r: Result<(), Error>)
        requires
            old(self).wf(),
        ensures
            final(self).wf(),
            final(self).latest_unfrozen_index == old(self).latest_unfrozen_index,
            final(self).acc_shadow_rolled_back == old(self).acc_shadow_rolled_back,
            r is Err ==> *final(self) == *old(self) && r == Err::<(), Error>(Error::Overflow),
            r is Ok <==> old(self).exceeded_fits(exceeded),
            r is Ok ==> ({
                let pre = old(self).token_staked + old(self).token_frozen;
                let delta_rate = (pre - exceeded) * SCALE_RATE / pre;
                &&& final(self).exchange_rate == old(self).exchange_rate * delta_rate / (
                SCALE_RATE as int)
                &&& final(self).token_staked == old(self).token_staked * delta_rate / (
                SCALE_RATE as int)
                &&& final(self).token_frozen == old(self).token_frozen * delta_rate / (
                SCALE_RATE as int)
                &&& *final(self) == (MetaDefender {
                    exchange_rate: final(self).exchange_rate,
                    token_staked: final(self).token_staked,
                    token_frozen: final(self).token_frozen,
                    ..*old(self)
                })
            }),
    {
        let pre_reserve = match self.token_staked.checked_add(self.token_frozen) {
            None => return Err(Error::Overflow),
            Some(x) => x,
        };
        if pre_reserve == 0 {
            return Err(Error::Overflow);
        }
        let after_reserve = match pre_reserve.checked_sub(exceeded) {
            None => return Err(Error::Overflow),
            Some(x) => x,
        };
        let delta_rate = match after_reserve.checked_mul(SCALE_RATE) {
            None => return Err(Error::Overflow),
            Some(x) => x / pre_reserve,
        };
        let new_rate = match self.exchange_rate.checked_mul(delta_rate) {
            None => return Err(Error::Overflow),
            Some(x) => x / SCALE_RATE,
        };
        let new_staked = match self.token_staked.checked_mul(delta_rate) {
            None => return Err(Error::Overflow),
            Some(x) => x / SCALE_RATE,
        };
        let new_frozen = match self.token_frozen.checked_mul(delta_rate) {
            None => return Err(Error::Overflow),
            Some(x) => x / SCALE_RATE,
        };
        self.exchange_rate = new_rate;
        self.token_staked = new_staked;
        self.token_frozen = new_frozen;
        Ok(())
    }

    /// Pay the claim on policy `id`: only the judge may accept, and only
    /// while the claim is in adjudication.  The risk reserve (whose current
    /// balance the host samples and passes in) pays up to the coverage; any
    /// shortfall is absorbed by the pool and paid out of it.  The host
    /// executes the returned payout exactly when `Ok` is returned.
    pub fn accept_apply(&mut self, caller: u128, id: u128, reserve_balance: u128) -> (r: Result<
        ClaimPayout,
        Error,
    >)
        requires
            old(self).wf(),
        ensures
            final(self).wf(),
            final(self).latest_unfrozen_index == old(self).latest_unfrozen_index,
            final(self).acc_shadow_rolled_back == old(self).acc_shadow_rolled_back,
            r is Err ==> *final(self) == *old(self),
            r == Err::<ClaimPayout, Error>(Error::NotJudger) <==> caller != old(self).judger,
            caller == old(self).judger ==> (r == Err::<ClaimPayout, Error>(
                Error::NotExistedPolicy,
            ) <==> id >= old(self).policy_count),
            caller == old(self).judger && id < old(self).policy_count ==> ({
                let p = old(self).policies@[id as int];
                &&& (r == Err::<ClaimPayout, Error>(Error::NotInClaimingProgress)
                    <==> !p.in_claim_applying)
                &&& (p.in_claim_applying ==> {
                    &&& (reserve_balance >= p.coverage ==> {
                        &&& r is Ok
                        &&& r->Ok_0 == (ClaimPayout { from_reserve: p.coverage, from_pool: 0u128 })
                        &&& final(self).policies@ == old(self).policies@.update(
                            id as int,
                            (Policy { in_claim_applying: false, is_claimed: true, ..p }),
                        )
                        &&& *final(self) == (MetaDefender {
                            policies: final(self).policies,
                            ..*old(self)
                        })
                    })
                    &&& (reserve_balance < p.coverage ==> {
                        &&& (r is Ok <==> old(self).exceeded_fits((p.coverage - reserve_balance) as u128))
                        &&& (r is Err ==> r == Err::<ClaimPayout, Error>(Error::Overflow))
                        &&& (r is Ok ==> ({
                            let exceeded = (p.coverage - reserve_balance) as u128;
                            let pre = old(self).token_staked + old(self).token_frozen;
                            let delta_rate = (pre - exceeded) * SCALE_RATE / pre;
                            &&& r->Ok_0 == (ClaimPayout {
                                from_reserve: reserve_balance,
                                from_pool: exceeded,
                            })
                            &&& final(self).exchange_rate == old(self).exchange_rate * delta_rate
                                / (SCALE_RATE as int)
                            &&& final(self).token_staked == old(self).token_staked * delta_rate / (
                            SCALE_RATE as int)
                            &&& final(self).token_frozen == old(self).token_frozen * delta_rate / (
                            SCALE_RATE as int)
                            &&& final(self).policies@ == old(self).policies@.update(
                                id as int,
                                (Policy { in_claim_applying: false, is_claimed: true, ..p }),
                            )
                            &&& *final(self) == (MetaDefender {
                                policies: final(self).policies,
                                exchange_rate: final(self).exchange_rate,
                                token_staked: final(self).token_staked,
                                token_frozen: final(self).token_frozen,
                                ..*old(self)
                            })
                        }))
                    })
                })
            }),
    {
        if caller != self.judger {
            return Err(Error::NotJudger);
        }
        if id >= self.policy_count {
            return Err(Error::NotExistedPolicy);
        }
        let n = self.policies.len();
        assert(id < n as u128);
        let iu = id as usize;
        let p = self.policies[iu];
        if !p.in_claim_applying {
            return Err(Error::NotInClaimingProgress);
        }
        let settled = Policy { in_claim_applying: false, is_claimed: true, ..p };
        if reserve_balance >= p.coverage {
            proof {
                lemma_seq_sum_update(self.policies@, live_coverage_measure(), id as int, settled);
                lemma_seq_sum_update(self.policies@, live_delta_measure(), id as int, settled);
            }
            let e = &mut self.policies[iu];
            *e = settled;
            proof {
                self.lemma_policy_pointwise_wf(*old(self), id as int);
            }
            Ok(ClaimPayout { from_reserve: p.coverage, from_pool: 0 })
        } else {
            let exceeded = p.coverage - reserve_balance;
            match self.exceeded_pay(exceeded) {
                Err(e) => Err(e),
                Ok(()) => {
                    proof {
                        lemma_seq_sum_update(
                            self.policies@,
                            live_coverage_measure(),
                            id as int,
                            settled,
                        );
                        lemma_seq_sum_update(
                            self.policies@,
                            live_delta_measure(),
                            id as int,
                            settled,
                        );
                    }
                    let e = &mut self.policies[iu];
                    *e = settled;
                    proof {
                        self.lemma_policy_pointwise_wf(*old(self), id as int);
                    }
                    Ok(ClaimPayout { from_reserve: reserve_balance, from_pool: exceeded })
                },
            }
        }
    }

    /// The ids of the policies `a` has bought, in purchase order.
    pub open spec fn user_policy_ids(self, a: u128) -> Seq<u128> {
        if has_key(self.user_policies@, a) {
            self.user_policies@[key_index(self.user_policies@, a)].1@
        } else {
            Seq::empty()
        }
    }

    /// Whether every arithmetic step of `buy_cover` past the coverage
    /// check fits the machine word (`stoken_supply != 0` keeps the
    /// accumulator divisions defined).
    pub open spec fn buy_fits(self, now: u64, coverage: u128) -> bool {
        let u = self.spec_useable_capital();
        let fee = self.spec_fee();
        let cover_fee = coverage * fee / (SCALE_RATE as int);
        let five = cover_fee * 5 / 100;
        let rfp = cover_fee - five;
        &&& u + self.virtual_liquidity_param <= u128::MAX
        &&& coverage * fee <= u128::MAX
        &&& cover_fee * 5 <= u128::MAX
        &&& cover_fee + five <= u128::MAX
        &&& self.stoken_supply != 0
        &&& coverage * ACC_SCALE <= u128::MAX
        &&& self.acc_shadow_per_share + coverage * ACC_SCALE / (self.stoken_supply as int) <= u128::MAX
        &&& self.team_claimable_reward + five <= u128::MAX
        &&& rfp * ACC_SCALE <= u128::MAX
        &&& self.acc_reward_per_share + rfp * ACC_SCALE / (self.stoken_supply as int) <= u128::MAX
        &&& self.total_coverage + coverage <= u128::MAX
        &&& now + POLICY_TERM <= u64::MAX
    }

    /// The policy `buy_cover` writes: a 90-day coverage for `caller`,
    /// stamped with the current provider count and remembering its own
    /// shadow-accumulator contribution.
    pub open spec fn spec_policy_written(self, caller: u128, now: u64, coverage: u128) -> Policy {
        let fee = self.spec_fee();
        let cover_fee = coverage * fee / (SCALE_RATE as int);
        Policy {
            id: self.policy_count,
            beneficiary: caller,
            coverage,
            deposit: (cover_fee * 5 / 100) as u128,
            start_time: now,
            effective_until: (now + POLICY_TERM) as u64,
            latest_provider_index: self.provider_count,
            delta_shadow: (coverage * ACC_SCALE / (self.stoken_supply as int)) as u128,
            is_claimed: false,
            in_claim_applying: false,
            is_canceled: false,
        }
    }

    /// Buy `coverage` for `caller`: refused unless some capital is useable
    /// and `coverage` is at most two percent of it.  The premium is the
    /// current rate applied to the coverage; five percent of it goes to
    /// the team and the rest to providers through the reward accumulator;
    /// the same five percent is also taken as a cancellation deposit.  The
    /// host collects the returned premium-plus-deposit from `caller`
    /// exactly when `Ok` is returned.
    pub fn buy_cover(&mut self, caller: u128, now: u64, coverage: u128) -> (r: Result<u128, Error>)
        requires
            old(self).wf(),
        ensures
            final(self).wf(),
            final(self).latest_unfrozen_index == old(self).latest_unfrozen_index,
            final(self).acc_shadow_rolled_back == old(self).acc_shadow_rolled_back,
            r is Err ==> *final(self) == *old(self),
            ({
                let u = old(self).spec_useable_capital();
                &&& (u == 0 ==> r == Err::<u128, Error>(Error::InsufficientCoverage))
                &&& (u != 0 && u * 2 > u128::MAX ==> r == Err::<u128, Error>(Error::Overflow))
                &&& (u != 0 && u * 2 <= u128::MAX && coverage > u * 2 / 100 ==> r == Err::<
                    u128,
                    Error,
                >(Error::InsufficientCoverage))
                &&& (u != 0 && u * 2 <= u128::MAX && coverage <= u * 2 / 100 ==> {
                    &&& (r is Ok <==> old(self).buy_fits(now, coverage))
                    &&& (!old(self).buy_fits(now, coverage) ==> r == Err::<u128, Error>(
                        Error::Overflow,
                    ))
                    &&& (r is Ok ==> ({
                        let fee = old(self).spec_fee();
                        let cover_fee = coverage * fee / (SCALE_RATE as int);
                        let five = cover_fee * 5 / 100;
                        let rfp = cover_fee - five;
                        let pol = old(self).spec_policy_written(caller, now, coverage);
                        &&& r->Ok_0 == cover_fee + five
                        &&& final(self).policies@ == old(self).policies@.push(pol)
                        &&& final(self).policy_count == old(self).policy_count + 1
                        &&& final(self).total_coverage == old(self).total_coverage + coverage
                        &&& final(self).acc_shadow_per_share == old(self).acc_shadow_per_share
                            + coverage * ACC_SCALE / (old(self).stoken_supply as int)
                        &&& final(self).acc_reward_per_share == old(self).acc_reward_per_share
                            + rfp * ACC_SCALE / (old(self).stoken_supply as int)
                        &&& final(self).team_claimable_reward == old(self).team_claimable_reward
                            + five
                        &&& final(self).user_policy_ids(caller) == old(self).user_policy_ids(
                            caller,
                        ).push(old(self).policy_count)
                        &&& (forall|b: u128|
                            b != caller ==> final(self).user_policy_ids(b) == old(
                                self,
                            ).user_policy_ids(b))
                        &&& *final(self) == (MetaDefender {
                            policies: final(self).policies,
                            policy_count: final(self).policy_count,
                            total_coverage: final(self).total_coverage,
                            acc_shadow_per_share: final(self).acc_shadow_per_share,
                            acc_reward_per_share: final(self).acc_reward_per_share,
                            team_claimable_reward: final(self).team_claimable_reward,
                            user_policies: final(self).user_policies,
                            ..*old(self)
                        })
                    }))
                })
            }),
    {
        let useable_capital = self.get_useable_capital();
        if useable_capital == 0 {
            return Err(Error::InsufficientCoverage);
        }
        let double = match useable_capital.checked_mul(2) {
            None => return Err(Error::Overflow),
            Some(x) => x,
        };
        if coverage > double / 100 {
            return Err(Error::InsufficientCoverage);
        }
        let denom = match useable_capital.checked_add(self.virtual_liquidity_param) {
            None => return Err(Error::Overflow),
            Some(x) => x,
        };
        let fee = self.pricing_constant / denom;
        let cover_fee = match coverage.checked_mul(fee) {
            None => return Err(Error::Overflow),
            Some(x) => x / SCALE_RATE,
        };
        let five = match cover_fee.checked_mul(5) {
            None => return Err(Error::Overflow),
            Some(x) => x / 100,
        };
        let total_pay = match cover_fee.checked_add(five) {
            None => return Err(Error::Overflow),
            Some(x) => x,
        };
        if self.stoken_supply == 0 {
            return Err(Error::Overflow);
        }
        let delta_shadow = match coverage.checked_mul(ACC_SCALE) {
            None => return Err(Error::Overflow),
            Some(x) => x / self.stoken_supply,
        };
        let new_acc_sps = match self.acc_shadow_per_share.checked_add(delta_shadow) {
            None => return Err(Error::Overflow),
            Some(x) => x,
        };
        let new_team = match self.team_claimable_reward.checked_add(five) {
            None => return Err(Error::Overflow),
            Some(x) => x,
        };
        proof {
            lemma_mul_div_le(cover_fee as int, 5, 100);
        }
        let reward_for_providers = cover_fee - five;
        let delta_rps = match reward_for_providers.checked_mul(ACC_SCALE) {
            None => return Err(Error::Overflow),
            Some(x) => x / self.stoken_supply,
        };
        let new_acc_rps = match self.acc_reward_per_share.checked_add(delta_rps) {
            None => return Err(Error::Overflow),
            Some(x) => x,
        };
        let new_total_cov = match self.total_coverage.checked_add(coverage) {
            None => return Err(Error::Overflow),
            Some(x) => x,
        };
        let effective_until = match now.checked_add(POLICY_TERM) {
            None => return Err(Error::Overflow),
            Some(x) => x,
        };
        let n = self.policies.len();
        let pid = self.policy_count;
        let pol = Policy {
            id: pid,
            beneficiary: caller,
            coverage,
            deposit: five,
            start_time: now,
            effective_until,
            latest_provider_index: self.provider_count,
            delta_shadow,
            is_claimed: false,
            in_claim_applying: false,
            is_canceled: false,
        };
        proof {
            lemma_seq_sum_push(self.policies@, live_coverage_measure(), pol);
            lemma_seq_sum_push(self.policies@, live_delta_measure(), pol);
        }
        self.policies.push(pol);
        self.total_coverage = new_total_cov;
        self.acc_shadow_per_share = new_acc_sps;
        self.acc_reward_per_share = new_acc_rps;
        self.team_claimable_reward = new_team;
        match find_key(&self.user_policies, caller) {
            Some(k) => {
                proof {
                    lemma_key_index_unique(self.user_policies@, caller, k as int);
                }
                let e = &mut self.user_policies[k];
                e.1.push(pid);
                proof {
                    lemma_update_same_key(
                        old(self).user_policies@,
                        k as int,
                        self.user_policies@[k as int],
                    );
                    assert forall|b: u128| b != caller implies self.user_policy_ids(b) == old(
                        self,
                    ).user_policy_ids(b) by {
                        lemma_entry_lookup_after_update(
                            old(self).user_policies@,
                            k as int,
                            self.user_policies@[k as int],
                            b,
                        );
                    }
                }
            },
            None => {
                let mut ids: Vec<u128> = Vec::new();
                ids.push(pid);
                self.user_policies.push((caller, ids));
                proof {
                    lemma_push_distinct(
                        old(self).user_policies@,
                        self.user_policies@.last(),
                    );
                    lemma_key_index_unique(
                        self.user_policies@,
                        caller,
                        self.user_policies@.len() - 1,
                    );
                    assert forall|b: u128| b != caller implies self.user_policy_ids(b) == old(
                        self,
                    ).user_policy_ids(b) by {
                        lemma_entry_lookup_after_push(
                            old(self).user_policies@,
                            self.user_policies@.last(),
                            b,
                        );
                    }
                    assert(self.user_policy_ids(caller) =~= old(self).user_policy_ids(
                        caller,
                    ).push(pid));
                }
            },
        }
        self.policy_count = self.policy_count + 1;
        proof {
            assert forall|j: int| 0 <= j < self.policies@.len() implies (
            #[trigger] self.policies@[j]).id == j by {
                if j < self.policies@.len() - 1 {
                    assert(self.policies@[j] == old(self).policies@[j]);
                }
            }
            assert forall|i: int|
                0 <= i < self.providers@.len() implies (#[trigger] self.providers@[i]).1.reward_debt
                <= self.providers@[i].1.stoken_amount * self.acc_reward_per_share / (
            ACC_SCALE as int) by {
                lemma_mul_div_mono(
                    self.providers@[i].1.stoken_amount as int,
                    old(self).acc_reward_per_share as int,
                    self.acc_reward_per_share as int,
                    ACC_SCALE as int,
                );
            }
            assert forall|i: int|
                0 <= i < self.providers@.len() implies (#[trigger] self.providers@[i]).1.shadow_debt
                <= self.providers@[i].1.stoken_amount * self.acc_shadow_per_share / (
            ACC_SCALE as int) by {
                lemma_mul_div_mono(
                    self.providers@[i].1.stoken_amount as int,
                    old(self).acc_shadow_per_share as int,
                    self.acc_shadow_per_share as int,
                    ACC_SCALE as int,
                );
            }
        }
        Ok(total_pay)
    }

    /// Cancel policy `id` once it has expired, refunding its deposit to
    /// whoever triggered the cancellation: within one day past expiry only
    /// the beneficiary may do so, afterwards anyone.  Policies must be
    /// canceled in strict id order, which lets the unfrozen checkpoint
    /// advance without scanning every policy: the canceled coverage leaves
    /// `total_coverage`, its shadow contribution moves to the rollback
    /// accumulator, and the checkpoint advances to its causality stamp.
    /// The premium rate is floored at `min_fee` afterwards.  The host
    /// refunds the returned deposit to `caller` exactly when `Ok` is
    /// returned.
    pub fn try_policy_cancel(&mut self, caller: u128, now: u64, id: u128) -> (r: Result<
        u128,
        Error,
    >)
        requires
            old(self).wf(),
        ensures
            final(self).wf(),
            final(self).latest_unfrozen_index >= old(self).latest_unfrozen_index,
            final(self).acc_shadow_rolled_back >= old(self).acc_shadow_rolled_back,
            r is Err ==> *final(self) == *old(self),
            r == Err::<u128, Error>(Error::NotExistedPolicy) <==> id >= old(self).policy_count,
            id < old(self).policy_count ==> ({
                let p = old(self).policies@[id as int];
                &&& (r == Err::<u128, Error>(Error::AlreadyCancelledPolicy) <==> p.is_canceled)
                &&& (!p.is_canceled ==> {
                    &&& (r == Err::<u128, Error>(Error::PreviousPolicyNotCancelled) <==> id > 0
                        && !old(self).policies@[id - 1].is_canceled)
                    &&& (id == 0 || old(self).policies@[id - 1].is_canceled ==> {
                        &&& (r == Err::<u128, Error>(Error::NotExpiredPolicy)
                            <==> p.effective_until > now)
                        &&& (p.effective_until <= now ==> {
                            &&& (r == Err::<u128, Error>(Error::ClaimingInProgress)
                                <==> p.in_claim_applying)
                            &&& (!p.in_claim_applying ==> {
                                &&& (r == Err::<u128, Error>(Error::OnlyPolicyHolderCanCancel)
                                    <==> now - p.effective_until <= CANCEL_GRACE && caller
                                    != p.beneficiary)
                                &&& (now - p.effective_until > CANCEL_GRACE || caller
                                    == p.beneficiary ==> {
                                    &&& (r is Ok <==> old(self).spec_pricing_after_cancel(
                                        (old(self).total_coverage - p.coverage) as u128,
                                    ) is Some)
                                    &&& (r is Err ==> r == Err::<u128, Error>(Error::Overflow))
                                    &&& (r is Ok ==> {
                                        &&& r->Ok_0 == p.deposit
                                        &&& final(self).policies@ == old(self).policies@.update(
                                            id as int,
                                            (Policy { is_canceled: true, ..p }),
                                        )
                                        &&& final(self).total_coverage == old(self).total_coverage
                                            - p.coverage
                                        &&& final(self).acc_shadow_rolled_back == old(
                                            self,
                                        ).acc_shadow_rolled_back + p.delta_shadow
                                        &&& final(self).latest_unfrozen_index
                                            == p.latest_provider_index
                                        &&& Some(final(self).pricing_constant) == old(
                                            self,
                                        ).spec_pricing_after_cancel(
                                            (old(self).total_coverage - p.coverage) as u128,
                                        )
                                        &&& ({
                                            let lat = final(self).latest_unfrozen_index;
                                            let down = final(self).acc_shadow_rolled_back;
                                            *final(self) == (MetaDefender {
                                                policies: final(self).policies,
                                                total_coverage: final(self).total_coverage,
                                                acc_shadow_rolled_back: down,
                                                latest_unfrozen_index: lat,
                                                pricing_constant: final(self).pricing_constant,
                                                ..*old(self)
                                            })
                                        })
                                    })
                                })
                            })
                        })
                    })
                })
            }),
    {
        if id >= self.policy_count {
            return Err(Error::NotExistedPolicy);
        }
        let n = self.policies.len();
        assert(id < n as u128);
        let iu = id as usize;
        let p = self.policies[iu];
        if p.is_canceled {
            return Err(Error::AlreadyCancelledPolicy);
        }
        if id > 0 {
            let prev = self.policies[iu - 1];
            if !prev.is_canceled {
                return Err(Error::PreviousPolicyNotCancelled);
            }
        }
        if p.effective_until > now {
            return Err(Error::NotExpiredPolicy);
        }
        if p.in_claim_applying {
            return Err(Error::ClaimingInProgress);
        }
        let time_pass = now - p.effective_until;
        if time_pass <= CANCEL_GRACE && caller != p.beneficiary {
            return Err(Error::OnlyPolicyHolderCanCancel);
        }
        proof {
            lemma_seq_sum_element(self.policies@, live_coverage_measure(), id as int);
            lemma_seq_sum_element(self.policies@, live_delta_measure(), id as int);
            lemma_seq_sum_nonneg(self.policies@, live_delta_measure());
        }
        let new_total = self.total_coverage - p.coverage;
        let new_down = self.acc_shadow_rolled_back + p.delta_shadow;
        let new_pricing = match self.pricing_after_cancel(new_total) {
            None => return Err(Error::Overflow),
            Some(k) => k,
        };
        let canceled = Policy { is_canceled: true, ..p };
        proof {
            lemma_seq_sum_update(self.policies@, live_coverage_measure(), id as int, canceled);
            lemma_seq_sum_update(self.policies@, live_delta_measure(), id as int, canceled);
        }
        let e = &mut self.policies[iu];
        *e = canceled;
        self.total_coverage = new_total;
        self.acc_shadow_rolled_back = new_down;
        self.latest_unfrozen_index = p.latest_provider_index;
        self.pricing_constant = new_pricing;
        proof {
            let pre = *old(self);
            let post = *self;
            // every policy below `id` was already canceled
            assert forall|i: int| 0 <= i < id implies (
            #[trigger] pre.policies@[i]).is_canceled by {
                assert(pre.policies@[id - 1].is_canceled);
            }
            assert forall|j: int| 0 <= j < post.policies@.len() implies (
            #[trigger] post.policies@[j]).id == j by {
                if j != id {
                    assert(post.policies@[j] == pre.policies@[j]);
                }
            }
            assert forall|j: int|
                0 <= j < post.policies@.len() implies (
            #[trigger] post.policies@[j]).latest_provider_index
                == pre.policies@[j].latest_provider_index by {
                if j != id {
                    assert(post.policies@[j] == pre.policies@[j]);
                }
            }
            assert forall|j: int|
                0 <= j < post.policies@.len() && !(#[trigger] post.policies@[j]).is_canceled
                implies post.latest_unfrozen_index <= post.policies@[j].latest_provider_index by {
                assert(post.policies@[j] == pre.policies@[j]);
                assert(j > id);
            }
            assert forall|j: int|
                0 <= j < post.policies@.len() && (#[trigger] post.policies@[j]).is_canceled
                implies post.policies@[j].latest_provider_index <= post.latest_unfrozen_index by {
                if j != id {
                    assert(post.policies@[j] == pre.policies@[j]);
                    assert(j < id);
                }
            }
        }
        Ok(p.deposit)
    }

    /// The policy-store well-formedness clauses survive rewriting one
    /// policy in place when its id, causality stamp, coverage, shadow
    /// contribution and cancellation flag are kept.
    proof fn lemma_policy_pointwise_wf(self, pre: MetaDefender, i: int)
        requires
            0 <= i < pre.policies@.len(),
            self.policies@.len() == pre.policies@.len(),
            forall|j: int|
                0 <= j < pre.policies@.len() && j != i ==> self.policies@[j] == pre.policies@[j],
            self.policies@[i].id == pre.policies@[i].id,
            self.policies@[i].latest_provider_index == pre.policies@[i].latest_provider_index,
            self.policies@[i].is_canceled == pre.policies@[i].is_canceled,
        ensures
            (forall|j: int|
                0 <= j < pre.policies@.len() ==> (#[trigger] self.policies@[j]).id
                    == pre.policies@[j].id),
            (forall|j: int|
                0 <= j < pre.policies@.len() ==> (#[trigger] self.policies@[j]).latest_provider_index
                    == pre.policies@[j].latest_provider_index),
            (forall|j: int|
                0 <= j < pre.policies@.len() ==> (#[trigger] self.policies@[j]).is_canceled
                    == pre.policies@[j].is_canceled),
    {
    }
}

} // verus!
