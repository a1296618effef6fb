//! Role handover, team claim and mining-proxy management.

use meta_defender::errors::Error;
use meta_defender::ledger::MetaDefender;

const ALICE: u128 = 1;
const BOB: u128 = 2;
const CHARLIE: u128 = 3;
const DJANGO: u128 = 4;

fn create_default() -> MetaDefender {
    // official: bob, judger: charlie, risk reserve: django
    MetaDefender::new(BOB, CHARLIE, DJANGO, 10_000_000)
}

#[test]
fn judger_transfer_should_works() {
    let mut meta_defender = create_default();

    // current judger is charlie,
    // charlie initiates the judger transfer, should work
    let _ = meta_defender.judger_transfer(CHARLIE, ALICE);
    assert_eq!(meta_defender.check_judger(), ALICE);
}

#[test]
#[should_panic]
fn judger_transfer_should_not_works() {
    let mut meta_defender = create_default();

    // current judger is charlie,
    // bob initiates the judger transfer, should not work
    let _ = meta_defender.judger_transfer(BOB, ALICE);
    assert_eq!(meta_defender.check_judger(), ALICE);
}

#[test]
fn judger_transfer_rejects_non_judger() {
    let mut md = create_default();
    assert_eq!(md.judger_transfer(BOB, ALICE), Err(Error::NotJudger));
    assert_eq!(md.check_judger(), CHARLIE);
}

#[test]
fn official_transfer_only_official() {
    let mut md = create_default();
    assert_eq!(md.official_transfer(ALICE, DJANGO), Err(Error::NotOfficial));
    assert_eq!(md.check_official(), BOB);
    assert_eq!(md.official_transfer(BOB, DJANGO), Ok(()));
    assert_eq!(md.check_official(), DJANGO);
}

#[test]
fn team_claim_reports_accrued_reward() {
    let mut md = MetaDefender::new(BOB, CHARLIE, DJANGO, 0);
    assert_eq!(md.team_claim(ALICE), Err(Error::NotOfficial));
    assert_eq!(md.team_claim(BOB), Ok(0));
    md.provide_capital(ALICE, 0, 1_000_000).unwrap();
    md.buy_cover(CHARLIE, 0, 20_000).unwrap();
    // premium 400, five percent of it to the team
    assert_eq!(md.team_claim(BOB), Ok(20));
    // the balance stays on the books; claiming does not reset it
    assert_eq!(md.team_claim(BOB), Ok(20));
}

#[test]
fn mining_proxy_management_and_use() {
    let mut md = create_default();
    assert_eq!(
        md.valid_mining_proxy_manage(ALICE, DJANGO, true),
        Err(Error::NotOfficial)
    );
    // unknown proxy is refused
    assert_eq!(
        md.unused_capital_for_mining(CHARLIE, 500, DJANGO),
        Err(Error::NotValidMiningProxy)
    );
    // the official approves django as a proxy, the judge may then route to it
    assert_eq!(md.valid_mining_proxy_manage(BOB, DJANGO, true), Ok(()));
    assert_eq!(
        md.unused_capital_for_mining(ALICE, 500, DJANGO),
        Err(Error::NotJudger)
    );
    assert_eq!(md.unused_capital_for_mining(CHARLIE, 500, DJANGO), Ok(500));
    // terminating the proxy closes the route again
    assert_eq!(md.valid_mining_proxy_manage(BOB, DJANGO, false), Ok(()));
    assert_eq!(
        md.unused_capital_for_mining(CHARLIE, 500, DJANGO),
        Err(Error::NotValidMiningProxy)
    );
}
