//! Administrative operations: handing over the judge and team identities,
//! claiming the team's premium share, and managing mining proxies.

use vstd::prelude::*;

use crate::errors::Error;
use crate::keyed::{
    find_key, has_key, key_index, lemma_entry_lookup_after_push, lemma_entry_lookup_after_update,
    lemma_key_index_unique, lemma_push_distinct, lemma_update_same_key,
};
use crate::ledger::MetaDefender;

verus! {

impl MetaDefender {
    /// The current claim judge.
    pub fn check_judger(&self) -> (r: u128)
        ensures
            r == self.judger,
    {
        self.judger
    }

    /// The current team identity.
    pub fn check_official(&self) -> (r: u128)
        ensures
            r == self.official,
    {
        self.official
    }

    /// Hand the judge role to `judger`.  Only the current judge may do so.
    pub fn judger_transfer(&mut self, caller: u128, judger: u128) -> (r: Result<(), Error>)
        requires
            old(self).wf(),
        ensures
            final(self).wf(),
            final(self).latest_unfrozen_index == old(self).latest_unfrozen_index,
            final(self).acc_shadow_rolled_back == old(self).acc_shadow_rolled_back,
            r is Err ==> *final(self) == *old(self),
            r == Err::<(), Error>(Error::NotJudger) <==> caller != old(self).judger,
            r is Ok <==> caller == old(self).judger,
            r is Ok ==> *final(self) == (MetaDefender { judger, ..*old(self) }),
    {
        if caller != self.judger {
            Err(Error::NotJudger)
        } else {
            self.judger = judger;
            Ok(())
        }
    }

    /// Hand the team identity to `official`.  Only the current team
    /// identity may do so.
    pub fn official_transfer(&mut self, caller: u128, official: u128) -> (r: Result<(), Error>)
        requires
            old(self).wf(),
        ensures
            final(self).wf(),
            final(self).latest_unfrozen_index == old(self).latest_unfrozen_index,
            final(self).acc_shadow_rolled_back == old(self).acc_shadow_rolled_back,
            r is Err ==> *final(self) == *old(self),
            r == Err::<(), Error>(Error::NotOfficial) <==> caller != old(self).official,
            r is Ok <==> caller == old(self).official,
            r is Ok ==> *final(self) == (MetaDefender { official, ..*old(self) }),
    {
        if caller != self.official {
            Err(Error::NotOfficial)
        } else {
            self.official = official;
            Ok(())
        }
    }

    /// Report the team's claimable premium share for payout to the team
    /// identity.  Only the team identity may claim.  The host pays the
    /// returned amount to the team exactly when `Ok` is returned; the
    /// ledger keeps the balance on its books.
    pub fn team_claim(&mut self, caller: u128) -> (r: Result<u128, Error>)
        requires
            old(self).wf(),
        ensures
            final(self).wf(),
            *final(self) == *old(self),
            r == Err::<u128, Error>(Error::NotOfficial) <==> caller != old(self).official,
            r is Ok <==> caller == old(self).official,
            r is Ok ==> r->Ok_0 == old(self).team_claimable_reward,
    {
        if caller == self.official {
            Ok(self.team_claimable_reward)
        } else {
            Err(Error::NotOfficial)
        }
    }

    /// Whether `a` is currently an approved mining proxy.
    pub open spec fn proxy_approved(self, a: u128) -> bool {
        has_key(self.mining_proxies@, a) && self.mining_proxies@[key_index(
            self.mining_proxies@,
            a,
        )].1
    }

    /// Approve or terminate the mining proxy `proxy`.  Only the team
    /// identity may manage proxies.
    pub fn valid_mining_proxy_manage(&mut self, caller: u128, proxy: u128, valid: bool) -> (r:
        Result<(), Error>)
        requires
            old(self).wf(),
        ensures
            final(self).wf(),
            final(self).latest_unfrozen_index == old(self).latest_unfrozen_index,
            final(self).acc_shadow_rolled_back == old(self).acc_shadow_rolled_back,
            r is Err ==> *final(self) == *old(self),
            r == Err::<(), Error>(Error::NotOfficial) <==> caller != old(self).official,
            r is Ok <==> caller == old(self).official,
            r is Ok ==> {
                &&& final(self).proxy_approved(proxy) == valid
                &&& (forall|b: u128|
                    b != proxy ==> final(self).proxy_approved(b) == old(self).proxy_approved(b))
                &&& *final(self) == (MetaDefender {
                    mining_proxies: final(self).mining_proxies,
                    ..*old(self)
                })
            },
    {
        if caller != self.official {
            return Err(Error::NotOfficial);
        }
        match find_key(&self.mining_proxies, proxy) {
            Some(k) => {
                proof {
                    lemma_key_index_unique(self.mining_proxies@, proxy, k as int);
                    lemma_update_same_key(self.mining_proxies@, k as int, (proxy, valid));
                }
                let e = &mut self.mining_proxies[k];
                e.1 = valid;
                proof {
                    assert forall|b: u128| b != proxy implies self.proxy_approved(b) == old(
                        self,
                    ).proxy_approved(b) by {
                        lemma_entry_lookup_after_update(
                            old(self).mining_proxies@,
                            k as int,
                            (proxy, valid),
                            b,
                        );
                    }
                }
            },
            None => {
                proof {
                    lemma_push_distinct(self.mining_proxies@, (proxy, valid));
                }
                self.mining_proxies.push((proxy, valid));
                proof {
                    lemma_key_index_unique(
                        self.mining_proxies@,
                        proxy,
                        self.mining_proxies@.len() - 1,
                    );
                    assert forall|b: u128| b != proxy implies self.proxy_approved(b) == old(
                        self,
                    ).proxy_approved(b) by {
                        lemma_entry_lookup_after_push(
                            old(self).mining_proxies@,
                            (proxy, valid),
                            b,
                        );
                    }
                }
            },
        }
        Ok(())
    }

    /// Clear sending `amount` of unused capital to the approved mining
    /// proxy `to`.  Only the judge may trigger it; the host executes the
    /// transfer exactly when `Ok` is returned.
    pub fn unused_capital_for_mining(&mut self, caller: u128, amount: u128, to: u128) -> (r: Result<
        u128,
        Error,
    >)
        requires
            old(self).wf(),
        ensures
            final(self).wf(),
            *final(self) == *old(self),
            r == Err::<u128, Error>(Error::NotJudger) <==> caller != old(self).judger,
            caller == old(self).judger ==> (r == Err::<u128, Error>(Error::NotValidMiningProxy)
                <==> !old(self).proxy_approved(to)),
            r is Ok <==> caller == old(self).judger && old(self).proxy_approved(to),
            r is Ok ==> r->Ok_0 == amount,
    {
        if caller != self.judger {
            return Err(Error::NotJudger);
        }
        match find_key(&self.mining_proxies, to) {
            None => Err(Error::NotValidMiningProxy),
            Some(k) => {
                proof {
                    lemma_key_index_unique(self.mining_proxies@, to, k as int);
                }
                if !self.mining_proxies[k].1 {
                    Err(Error::NotValidMiningProxy)
                } else {
                    Ok(amount)
                }
            },
        }
    }
}

} // verus!
