//! Buying coverage, the ordered cancellation protocol, and the claim
//! workflow.

use meta_defender::errors::Error;
use meta_defender::ledger::MetaDefender;
use meta_defender::records::ClaimPayout;

const ALICE: u128 = 1;
const BOB: u128 = 2;
const CHARLIE: u128 = 3;
const DJANGO: u128 = 4;

const DAY: u64 = 86_400_000;
const TERM: u64 = 7_776_000_000;

fn fresh() -> MetaDefender {
    MetaDefender::new(BOB, CHARLIE, DJANGO, 0)
}

#[test]
fn coverage_capacity_scenario() {
    let mut md = fresh();
    // empty pool: any coverage is refused
    assert_eq!(md.buy_cover(CHARLIE, 0, 1), Err(Error::InsufficientCoverage));
    md.provide_capital(ALICE, 0, 1_000_000).unwrap();
    assert_eq!(md.get_useable_capital(), 1_000_000);
    // one over two percent of the useable capital is refused
    assert_eq!(
        md.buy_cover(CHARLIE, 0, 20_001),
        Err(Error::InsufficientCoverage)
    );
    // exactly two percent is accepted: premium 400 plus deposit 20
    assert_eq!(md.buy_cover(CHARLIE, 0, 20_000), Ok(420));
    assert_eq!(md.total_coverage, 20_000);
    assert_eq!(md.get_useable_capital(), 980_000);
}

#[test]
fn premium_rate_follows_the_curve() {
    let mut md = fresh();
    assert_eq!(md.get_fee(), 0);
    md.provide_capital(ALICE, 0, 1_000_000).unwrap();
    // seeded from the initial fee at the first stake
    assert_eq!(md.get_fee(), 2_000);
    md.buy_cover(CHARLIE, 0, 20_000).unwrap();
    // covered capital shrank the useable capital, the rate rose
    assert_eq!(md.get_fee(), md.pricing_constant / 980_000);
}

#[test]
fn cancellation_must_follow_id_order() {
    let mut md = fresh();
    md.provide_capital(ALICE, 0, 10_000_000).unwrap();
    md.buy_cover(CHARLIE, 0, 20_000).unwrap();
    md.buy_cover(CHARLIE, 0, 20_000).unwrap();
    let late = TERM + DAY + 1;
    assert_eq!(md.try_policy_cancel(BOB, late, 9), Err(Error::NotExistedPolicy));
    // policy 1 cannot go before policy 0
    assert_eq!(
        md.try_policy_cancel(BOB, late, 1),
        Err(Error::PreviousPolicyNotCancelled)
    );
    assert_eq!(md.try_policy_cancel(BOB, late, 0), Ok(20));
    assert_eq!(md.try_policy_cancel(BOB, late, 1), Ok(20));
    assert_eq!(
        md.try_policy_cancel(BOB, late, 0),
        Err(Error::AlreadyCancelledPolicy)
    );
    assert_eq!(md.total_coverage, 0);
}

#[test]
fn purchases_are_indexed_per_user() {
    let mut md = fresh();
    md.provide_capital(ALICE, 0, 10_000_000).unwrap();
    md.buy_cover(CHARLIE, 0, 20_000).unwrap();
    md.buy_cover(DJANGO, 0, 20_000).unwrap();
    md.buy_cover(CHARLIE, 0, 20_000).unwrap();
    assert_eq!(md.policy_count, 3);
    let charlie_ids = &md.user_policies.iter().find(|e| e.0 == CHARLIE).unwrap().1;
    assert_eq!(charlie_ids, &vec![0, 2]);
    let django_ids = &md.user_policies.iter().find(|e| e.0 == DJANGO).unwrap().1;
    assert_eq!(django_ids, &vec![1]);
}

#[test]
fn cancellation_timing_and_permission() {
    let mut md = fresh();
    md.provide_capital(ALICE, 0, 1_000_000).unwrap();
    md.buy_cover(CHARLIE, 0, 20_000).unwrap();
    // not yet expired
    assert_eq!(
        md.try_policy_cancel(CHARLIE, TERM - 1, 0),
        Err(Error::NotExpiredPolicy)
    );
    // within the grace day only the beneficiary may cancel
    assert_eq!(
        md.try_policy_cancel(BOB, TERM + DAY, 0),
        Err(Error::OnlyPolicyHolderCanCancel)
    );
    // past the grace day anyone may trigger the cleanup and gets the deposit
    assert_eq!(md.try_policy_cancel(BOB, TERM + DAY + 1, 0), Ok(20));
    assert!(md.policies[0].is_canceled);
    assert_eq!(md.latest_unfrozen_index, 1);
    assert_eq!(md.acc_shadow_rolled_back, md.acc_shadow_per_share);
}

#[test]
fn claim_applying_blocks_reapply_and_cancel() {
    let mut md = fresh();
    md.provide_capital(ALICE, 0, 1_000_000).unwrap();
    md.buy_cover(CHARLIE, 0, 20_000).unwrap();
    assert_eq!(md.policy_claim_apply(BOB, 1, 0), Err(Error::NotBeneficiary));
    assert_eq!(md.policy_claim_apply(CHARLIE, 1, 0), Ok(()));
    // a second application while one is pending is refused
    assert_eq!(
        md.policy_claim_apply(CHARLIE, 2, 0),
        Err(Error::InClaimingProgress)
    );
    // cancellation is blocked while the claim is adjudicated
    assert_eq!(
        md.try_policy_cancel(CHARLIE, TERM + 1, 0),
        Err(Error::ClaimingInProgress)
    );
}

#[test]
fn claim_apply_needs_effective_policy() {
    let mut md = fresh();
    md.provide_capital(ALICE, 0, 1_000_000).unwrap();
    md.buy_cover(CHARLIE, 0, 20_000).unwrap();
    assert_eq!(md.policy_claim_apply(CHARLIE, 1, 9), Err(Error::NotExistedPolicy));
    assert_eq!(
        md.policy_claim_apply(CHARLIE, TERM + 1, 0),
        Err(Error::NotEffectivePolicy)
    );
    // a canceled policy cannot be claimed against
    let mut md2 = fresh();
    md2.provide_capital(ALICE, 0, 1_000_000).unwrap();
    md2.buy_cover(CHARLIE, 0, 20_000).unwrap();
    md2.try_policy_cancel(CHARLIE, TERM + 1, 0).unwrap();
    assert_eq!(
        md2.policy_claim_apply(CHARLIE, TERM + 2, 0),
        Err(Error::AlreadyCancelledPolicy)
    );
}

#[test]
fn refuse_twice_is_a_no_op() {
    let mut md = fresh();
    md.provide_capital(ALICE, 0, 1_000_000).unwrap();
    md.buy_cover(CHARLIE, 0, 20_000).unwrap();
    md.policy_claim_apply(CHARLIE, 1, 0).unwrap();
    assert_eq!(md.refuse_apply(BOB, 0), Err(Error::NotJudger));
    assert_eq!(md.refuse_apply(CHARLIE, 9), Err(Error::NotExistedPolicy));
    assert_eq!(md.refuse_apply(CHARLIE, 0), Ok(()));
    assert!(!md.policies[0].in_claim_applying);
    let staked = md.token_staked;
    let team = md.team_claimable_reward;
    // refusing an already-refused policy neither errors nor changes state
    assert_eq!(md.refuse_apply(CHARLIE, 0), Ok(()));
    assert!(!md.policies[0].in_claim_applying);
    assert!(!md.policies[0].is_claimed);
    assert_eq!(md.token_staked, staked);
    assert_eq!(md.team_claimable_reward, team);
}

#[test]
fn accept_pays_from_reserve_when_it_suffices() {
    let mut md = fresh();
    md.provide_capital(ALICE, 0, 1_000_000).unwrap();
    md.buy_cover(CHARLIE, 0, 20_000).unwrap();
    assert_eq!(md.accept_apply(BOB, 0, 50_000), Err(Error::NotJudger));
    assert_eq!(
        md.accept_apply(CHARLIE, 0, 50_000),
        Err(Error::NotInClaimingProgress)
    );
    md.policy_claim_apply(CHARLIE, 1, 0).unwrap();
    assert_eq!(
        md.accept_apply(CHARLIE, 0, 50_000),
        Ok(ClaimPayout { from_reserve: 20_000, from_pool: 0 })
    );
    assert!(md.policies[0].is_claimed);
    assert!(!md.policies[0].in_claim_applying);
    // the pool was not touched
    assert_eq!(md.exchange_rate, 100_000);
    assert_eq!(md.token_staked, 1_000_000);
    // a claimed policy cannot apply again
    assert_eq!(
        md.policy_claim_apply(CHARLIE, 2, 0),
        Err(Error::AlreadyClaimedPolicy)
    );
}

#[test]
fn accept_socializes_the_shortfall() {
    let mut md = fresh();
    md.provide_capital(ALICE, 0, 1_000_000).unwrap();
    md.buy_cover(CHARLIE, 0, 20_000).unwrap();
    md.policy_claim_apply(CHARLIE, 1, 0).unwrap();
    // the reserve holds only 5_000: the missing 15_000 devalues the pool
    assert_eq!(
        md.accept_apply(CHARLIE, 0, 5_000),
        Ok(ClaimPayout { from_reserve: 5_000, from_pool: 15_000 })
    );
    // delta = (1_000_000 - 15_000) * 100_000 / 1_000_000 = 98_500
    assert_eq!(md.exchange_rate, 98_500);
    assert_eq!(md.token_staked, 985_000);
    assert_eq!(md.token_frozen, 0);
    assert!(md.policies[0].is_claimed);
}
