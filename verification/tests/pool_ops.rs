use deposit_loan::engine::{Config, LoanEngine};
use deposit_loan::ledger::Ledger;
use deposit_loan::types::Error;

const COLLECTION_ASSET: u32 = 1;
const COLLECTION_ACCOUNT: u64 = 10;
const MARKET_ASSET: u32 = 2;
const MARKET_ACCOUNT: u64 = 11;
const TOTAL_ASSET: u32 = 3;
const TOTAL_ACCOUNT: u64 = 12;
const ADMIN: u64 = 99;
const SAVER: u64 = 30;

fn config() -> Config {
    Config {
        collection_asset_id: COLLECTION_ASSET,
        collection_account_id: COLLECTION_ACCOUNT,
        market_dtoken_asset_id: MARKET_ASSET,
        market_dtoken_account_id: MARKET_ACCOUNT,
        total_dtoken_asset_id: TOTAL_ASSET,
        total_dtoken_account_id: TOTAL_ACCOUNT,
        profit_asset_id: 4,
        profit_pool: 13,
        pawn_shop: 14,
        collateral_asset_id: 5,
        loan_asset_id: 6,
        global_ltv_limit: 7000,
        global_liquidation_threshold: 9000,
        global_warning_threshold: 8000,
        penalty_rate: 0,
        liquidation_penalty: 1000,
        liquidation_account: 15,
        minimum_collateral: 0,
        loan_cap: None,
        admin: ADMIN,
    }
}

#[test]
fn first_staking_mints_one_share_per_unit() {
    let mut engine = LoanEngine::new(config(), 100_000_000_000);
    let mut ledger = Ledger::new();
    let r = engine.create_staking(&mut ledger, SAVER, 100);
    assert_eq!(r, Ok(()));
    assert_eq!(engine.account_dtokens_of(SAVER), 100);
    assert_eq!(ledger.balance_of(MARKET_ASSET, MARKET_ACCOUNT), 100);
    assert_eq!(ledger.balance_of(TOTAL_ASSET, TOTAL_ACCOUNT), 100);
}

#[test]
fn later_staking_is_proportional() {
    let mut engine = LoanEngine::new(config(), 100_000_000_000);
    let mut ledger = Ledger::new();
    assert_eq!(engine.create_staking(&mut ledger, SAVER, 100), Ok(()));
    // market 100 over total 100: 50 more buys 50 * 100 / 100 = 50 shares
    assert_eq!(engine.create_staking(&mut ledger, SAVER, 50), Ok(()));
    assert_eq!(engine.account_dtokens_of(SAVER), 150);
    assert_eq!(ledger.balance_of(MARKET_ASSET, MARKET_ACCOUNT), 150);
    assert_eq!(ledger.balance_of(TOTAL_ASSET, TOTAL_ACCOUNT), 150);
}

#[test]
fn staking_zero_is_rejected() {
    let mut engine = LoanEngine::new(config(), 100_000_000_000);
    let mut ledger = Ledger::new();
    assert_eq!(
        engine.create_staking(&mut ledger, SAVER, 0),
        Err(Error::ZeroSaving)
    );
}

#[test]
fn staking_dispatch_checks_the_asset_and_the_balance() {
    let mut engine = LoanEngine::new(config(), 100_000_000_000);
    let mut ledger = Ledger::new();
    assert_eq!(
        engine.staking(&mut ledger, SAVER, 7, 100),
        Err(Error::WrongAsset)
    );
    assert_eq!(
        engine.staking(&mut ledger, SAVER, COLLECTION_ASSET, 100),
        Err(Error::InsufficientBalance)
    );
    assert!(ledger.mint(COLLECTION_ASSET, SAVER, 100));
    assert_eq!(
        engine.staking(&mut ledger, SAVER, COLLECTION_ASSET, 100),
        Ok(())
    );
    assert_eq!(engine.account_dtokens_of(SAVER), 100);
}

#[test]
fn sudo_staking_needs_the_privileged_caller() {
    let mut engine = LoanEngine::new(config(), 100_000_000_000);
    let mut ledger = Ledger::new();
    assert!(ledger.mint(COLLECTION_ASSET, SAVER, 100));
    assert_eq!(
        engine.sudo_staking(&mut ledger, SAVER, COLLECTION_ASSET, 100, SAVER),
        Err(Error::Unauthorized)
    );
    assert_eq!(
        engine.sudo_staking(&mut ledger, ADMIN, COLLECTION_ASSET, 100, SAVER),
        Ok(())
    );
}

#[test]
fn redeeming_more_than_the_share_is_rejected() {
    let mut engine = LoanEngine::new(config(), 100_000_000_000);
    let mut ledger = Ledger::new();
    assert_eq!(engine.create_staking(&mut ledger, SAVER, 100), Ok(()));
    // the share of 100 at ratio 1 is worth 100
    assert_eq!(
        engine.make_redeem(&mut ledger, SAVER, 101),
        Err(Error::RedeemOverLimit)
    );
}

#[test]
fn redeeming_against_an_empty_pool_faults() {
    let mut engine = LoanEngine::new(config(), 100_000_000_000);
    let mut ledger = Ledger::new();
    assert_eq!(
        engine.make_redeem(&mut ledger, SAVER, 1),
        Err(Error::Overflow)
    );
}

#[test]
fn redeem_all_pays_out_and_burns_shares() {
    let mut engine = LoanEngine::new(config(), 100_000_000_000);
    let mut ledger = Ledger::new();
    assert_eq!(engine.create_staking(&mut ledger, SAVER, 100), Ok(()));
    // the payout transfer draws on the saver's collection-asset balance
    assert!(ledger.mint(COLLECTION_ASSET, SAVER, 100));
    assert!(ledger.mint(COLLECTION_ASSET, COLLECTION_ACCOUNT, 100));
    let r = engine.make_redeem_all(&mut ledger, SAVER);
    assert_eq!(r, Ok(()));
    assert_eq!(ledger.balance_of(COLLECTION_ASSET, COLLECTION_ACCOUNT), 200);
    assert_eq!(ledger.balance_of(COLLECTION_ASSET, SAVER), 0);
    assert_eq!(ledger.balance_of(MARKET_ASSET, MARKET_ACCOUNT), 0);
    assert_eq!(ledger.balance_of(TOTAL_ASSET, TOTAL_ACCOUNT), 0);
    // the share table itself is not rewritten by a full redemption
    assert_eq!(engine.account_dtokens_of(SAVER), 100);
}

#[test]
fn partial_redeem_restakes_the_remainder() {
    let mut engine = LoanEngine::new(config(), 100_000_000_000);
    let mut ledger = Ledger::new();
    assert_eq!(engine.create_staking(&mut ledger, SAVER, 100), Ok(()));
    assert!(ledger.mint(COLLECTION_ASSET, SAVER, 100));
    assert!(ledger.mint(COLLECTION_ASSET, COLLECTION_ACCOUNT, 100));
    let r = engine.make_redeem(&mut ledger, SAVER, 30);
    assert_eq!(r, Ok(()));
    // the full redemption burned the pool empty, so the restaked remainder
    // of 70 buys 70 fresh shares on top of the stale 100
    assert_eq!(engine.account_dtokens_of(SAVER), 170);
    assert_eq!(ledger.balance_of(MARKET_ASSET, MARKET_ACCOUNT), 70);
    assert_eq!(ledger.balance_of(TOTAL_ASSET, TOTAL_ACCOUNT), 70);
}

#[test]
fn redeem_dispatch_needs_a_collection_asset() {
    let mut cfg = config();
    cfg.collection_asset_id = 0;
    let mut engine = LoanEngine::new(cfg, 100_000_000_000);
    let mut ledger = Ledger::new();
    assert_eq!(
        engine.redeem(&mut ledger, SAVER, 0, 10),
        Err(Error::WrongAsset)
    );
}

