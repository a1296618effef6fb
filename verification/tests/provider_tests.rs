//! Staking, rewards, exit, and the release of frozen capital.

use meta_defender::errors::Error;
use meta_defender::ledger::MetaDefender;

const ALICE: u128 = 1;
const BOB: u128 = 2;
const CHARLIE: u128 = 3;
const DJANGO: u128 = 4;

fn fresh() -> MetaDefender {
    MetaDefender::new(BOB, CHARLIE, DJANGO, 0)
}

#[test]
fn stake_then_exit_returns_stake_and_clears_supply() {
    // round trip with no intervening premium events: the full stake comes
    // back and no share units remain outstanding
    let mut md = fresh();
    assert_eq!(md.provide_capital(ALICE, 7, 12_345), Ok(()));
    assert_eq!(md.stoken_supply, 12_345);
    assert_eq!(md.provider_abolish(ALICE), Ok(12_345));
    assert_eq!(md.stoken_supply, 0);
    assert_eq!(md.token_staked, 0);
    assert_eq!(md.token_frozen, 0);
}

#[test]
fn stake_then_exit_round_trip_after_devaluation() {
    // with a devalued exchange rate the round trip loses only the rounding
    // of the two rate conversions: less than rate / 100_000 + 1
    let mut md = fresh();
    md.provide_capital(ALICE, 0, 1_000_000).unwrap();
    md.buy_cover(CHARLIE, 0, 20_000).unwrap();
    md.policy_claim_apply(CHARLIE, 1, 0).unwrap();
    // the reserve only holds 5_000 of the 20_000 coverage: the pool
    // absorbs the rest and the exchange rate drops to 98_500
    md.accept_apply(CHARLIE, 0, 5_000).unwrap();
    assert_eq!(md.exchange_rate, 98_500);
    assert_eq!(md.provide_capital(BOB, 2, 54_321), Ok(()));
    let shares = 54_321u128 * 100_000 / 98_500;
    assert_eq!(shares, 55_148);
    let payout = md.provider_abolish(BOB).unwrap();
    assert_eq!(payout, shares * 98_500 / 100_000);
    assert_eq!(payout, 54_320);
    assert!(payout <= 54_321);
    assert!((54_321 - payout) * 100_000 < 98_500 + 100_000);
}

#[test]
fn double_stake_is_refused() {
    let mut md = fresh();
    assert_eq!(md.provide_capital(ALICE, 0, 1_000), Ok(()));
    assert_eq!(
        md.provide_capital(ALICE, 1, 2_000),
        Err(Error::ExistingUnderwriter)
    );
}

#[test]
fn stake_overflow_is_reported() {
    let mut md = fresh();
    assert_eq!(md.provide_capital(ALICE, 0, u128::MAX), Err(Error::Overflow));
    // nothing committed
    assert_eq!(md.provider_count, 0);
    assert_eq!(md.token_staked, 0);
}

#[test]
fn reward_requires_live_provider() {
    let mut md = fresh();
    assert_eq!(md.provider_take_reward(ALICE), Err(Error::NotUnderwriter));
    // a zero stake mints zero shares: the record exists but is not valid
    md.provide_capital(ALICE, 0, 0).unwrap();
    assert_eq!(md.provider_take_reward(ALICE), Err(Error::NotValidUnderwriter));
    assert_eq!(md.provider_abolish(ALICE), Err(Error::NotValidUnderwriter));
}

#[test]
fn rewards_are_proportional_to_shares() {
    // two providers at 1:3, one premium event: rewards split 1:3 exactly
    let mut md = fresh();
    md.provide_capital(ALICE, 0, 1_000_000).unwrap();
    md.provide_capital(BOB, 1, 3_000_000).unwrap();
    md.buy_cover(CHARLIE, 2, 80_000).unwrap();
    // premium: 80_000 * 2000 / 100_000 = 1600; team keeps 80, providers 1520
    assert_eq!(md.get_reward(ALICE), 380);
    assert_eq!(md.get_reward(BOB), 1140);
    assert_eq!(md.get_reward(BOB), 3 * md.get_reward(ALICE));
    // settling pays the same amount and resets the debt
    assert_eq!(md.provider_take_reward(ALICE), Ok(380));
    assert_eq!(md.get_reward(ALICE), 0);
    assert_eq!(md.provider_take_reward(BOB), Ok(1140));
}

#[test]
fn exit_latch_blocks_and_errors() {
    let mut md = fresh();
    md.provide_capital(ALICE, 0, 1_000).unwrap();
    md.provider_leaving = true;
    assert_eq!(md.provider_abolish(ALICE), Err(Error::ProviderLeavingInProgress));
    md.provider_leaving = false;
    assert_eq!(md.provider_abolish(ALICE), Ok(1_000));
}

#[test]
fn exit_freezes_shadowed_capital_and_cancel_releases_it() {
    let mut md = fresh();
    md.provide_capital(ALICE, 0, 1_000_000).unwrap();
    assert_eq!(md.buy_cover(CHARLIE, 0, 20_000), Ok(420));
    // alice's exit keeps the 20_000 backing the open policy frozen and
    // pays out the rest plus her 380 reward share
    assert_eq!(md.provider_abolish(ALICE), Ok(980_380));
    assert_eq!(md.token_frozen, 20_000);
    assert_eq!(md.stoken_supply, 0);
    // nothing is releasable while the policy is open
    assert_eq!(md.get_unfrozen_capital(ALICE), 0);
    assert_eq!(
        md.historical_provider_withdraw(ALICE),
        Err(Error::InsufficientSToken)
    );
    // the policy expires and its beneficiary cancels within the grace day
    let after_expiry = 7_776_000_000 + 1;
    assert_eq!(md.try_policy_cancel(CHARLIE, after_expiry, 0), Ok(20));
    // the cancellation rolled the shadow back: the full 20_000 is free
    assert_eq!(md.get_unfrozen_capital(ALICE), 20_000);
    assert_eq!(md.historical_provider_withdraw(ALICE), Ok(20_000));
    assert_eq!(md.token_frozen, 0);
    assert_eq!(md.get_unfrozen_capital(ALICE), 0);
}

#[test]
fn withdraw_latch_and_stranger_errors() {
    let mut md = fresh();
    assert_eq!(
        md.historical_provider_withdraw(ALICE),
        Err(Error::NotHistoricalUnderwriter)
    );
    md.provide_capital(ALICE, 0, 1_000).unwrap();
    md.provider_abolish(ALICE).unwrap();
    md.historical_provider_leaving = true;
    assert_eq!(
        md.historical_provider_withdraw(ALICE),
        Err(Error::HistoricalProviderLeavingInProgress)
    );
}

#[test]
fn unfrozen_capital_of_active_provider() {
    let mut md = fresh();
    assert_eq!(md.get_unfrozen_capital(ALICE), 0);
    md.provide_capital(ALICE, 0, 1_000_000).unwrap();
    // no policies: the whole stake is unshadowed
    assert_eq!(md.get_unfrozen_capital(ALICE), 1_000_000);
    md.buy_cover(CHARLIE, 0, 20_000).unwrap();
    // the open policy shadows exactly its coverage
    assert_eq!(md.get_unfrozen_capital(ALICE), 980_000);
}
