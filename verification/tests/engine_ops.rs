use deposit_loan::engine::{Config, LoanEngine};
use deposit_loan::ledger::Ledger;
use deposit_loan::types::{CollateralLoan, Error, Loan, LoanHealth};

const COLLECTION_ASSET: u32 = 1;
const COLLECTION_ACCOUNT: u64 = 10;
const MARKET_ASSET: u32 = 2;
const MARKET_ACCOUNT: u64 = 11;
const TOTAL_ASSET: u32 = 3;
const TOTAL_ACCOUNT: u64 = 12;
const PROFIT_ASSET: u32 = 6;
const PROFIT_POOL: u64 = 13;
const PAWN_SHOP: u64 = 14;
const COLLATERAL_ASSET: u32 = 5;
const LOAN_ASSET: u32 = 6;
const LIQUIDATION_ACCOUNT: u64 = 15;
const ADMIN: u64 = 99;
const OWNER: u64 = 20;

fn base_config() -> Config {
    Config {
        collection_asset_id: COLLECTION_ASSET,
        collection_account_id: COLLECTION_ACCOUNT,
        market_dtoken_asset_id: MARKET_ASSET,
        market_dtoken_account_id: MARKET_ACCOUNT,
        total_dtoken_asset_id: TOTAL_ASSET,
        total_dtoken_account_id: TOTAL_ACCOUNT,
        profit_asset_id: PROFIT_ASSET,
        profit_pool: PROFIT_POOL,
        pawn_shop: PAWN_SHOP,
        collateral_asset_id: COLLATERAL_ASSET,
        loan_asset_id: LOAN_ASSET,
        global_ltv_limit: 7000,
        global_liquidation_threshold: 9000,
        global_warning_threshold: 8000,
        penalty_rate: 0,
        liquidation_penalty: 1000,
        liquidation_account: LIQUIDATION_ACCOUNT,
        minimum_collateral: 0,
        loan_cap: None,
        admin: ADMIN,
    }
}

/// Price of 1000.00000000 in `PRICE_PREC` units.
const PRICE_1000: u128 = 100_000_000_000;

fn engine_with_funds() -> (LoanEngine, Ledger) {
    let engine = LoanEngine::new(base_config(), PRICE_1000);
    let mut ledger = Ledger::new();
    assert!(ledger.mint(COLLATERAL_ASSET, OWNER, 1000));
    (engine, ledger)
}

#[test]
fn apply_creates_a_well_loan() {
    let (mut engine, mut ledger) = engine_with_funds();
    let r = engine.apply_for_loan(&mut ledger, OWNER, 2, 100);
    assert_eq!(r, Ok(()));
    assert_eq!(engine.loans.len(), 1);
    let loan = engine.loans[0];
    assert_eq!(loan.id, 0);
    assert_eq!(loan.who, OWNER);
    assert_eq!(loan.collateral_balance_original, 2);
    assert_eq!(loan.collateral_balance_available, 2);
    assert_eq!(loan.loan_balance_total, 100);
    assert_eq!(loan.status, LoanHealth::Well);
    assert_eq!(engine.total_loan, 100);
    assert_eq!(engine.total_collateral, 2);
    assert_eq!(ledger.balance_of(COLLATERAL_ASSET, OWNER), 998);
    assert_eq!(ledger.balance_of(COLLATERAL_ASSET, PAWN_SHOP), 2);
    assert_eq!(ledger.balance_of(LOAN_ASSET, OWNER), 100);
}

#[test]
fn apply_rejects_empty_pair() {
    let (mut engine, mut ledger) = engine_with_funds();
    let r = engine.apply_for_loan(&mut ledger, OWNER, 0, 0);
    assert_eq!(r, Err(Error::InvalidCollateralLoanAmounts));
    assert_eq!(engine.loans.len(), 0);
}

#[test]
fn apply_rejects_over_ltv_pair() {
    let (mut engine, mut ledger) = engine_with_funds();
    // ltv of (1, 800) at 1000.0 is 800 * 10^12 / 10^11 = 8000 > 7000
    let r = engine.apply_for_loan(&mut ledger, OWNER, 1, 800);
    assert_eq!(r, Err(Error::OverLTVLimit));
}

#[test]
fn apply_respects_loan_cap() {
    let (mut engine, mut ledger) = engine_with_funds();
    assert_eq!(engine.set_loan_cap(ADMIN, 50), Ok(()));
    assert_eq!(engine.apply_for_loan(&mut ledger, OWNER, 2, 100), Ok(()));
    // the cap of 50 is now exceeded by the total of 100: the next apply fails
    assert_eq!(
        engine.apply_for_loan(&mut ledger, OWNER, 2, 100),
        Err(Error::ReachLoanCap)
    );
}

#[test]
fn apply_respects_minimum_collateral() {
    let (mut engine, mut ledger) = engine_with_funds();
    engine.config.minimum_collateral = 5;
    let r = engine.apply_for_loan(&mut ledger, OWNER, 2, 100);
    assert_eq!(r, Err(Error::BelowMinimumCollateral));
}

#[test]
fn apply_without_funds_fails_cleanly() {
    let engine_config = base_config();
    let mut engine = LoanEngine::new(engine_config, PRICE_1000);
    let mut ledger = Ledger::new();
    let r = engine.apply_for_loan(&mut ledger, OWNER, 2, 100);
    assert_eq!(r, Err(Error::InsufficientBalance));
    assert_eq!(engine.loans.len(), 0);
    assert_eq!(engine.total_loan, 0);
}

#[test]
fn apply_compensates_failed_mint() {
    let (mut engine, mut ledger) = engine_with_funds();
    // call 0 was the endowment mint; apply makes calls 1 (collateral
    // transfer) and 2 (the loan-asset mint): deny the mint
    ledger.deny(2);
    let r = engine.apply_for_loan(&mut ledger, OWNER, 2, 100);
    assert_eq!(r, Err(Error::InsufficientBalance));
    assert_eq!(engine.loans.len(), 0);
    assert_eq!(engine.total_loan, 0);
    assert_eq!(engine.total_collateral, 0);
    // the collateral transfer was reversed
    assert_eq!(ledger.balance_of(COLLATERAL_ASSET, OWNER), 1000);
    assert_eq!(ledger.balance_of(COLLATERAL_ASSET, PAWN_SHOP), 0);
    assert_eq!(ledger.balance_of(LOAN_ASSET, OWNER), 0);
}

#[test]
fn ratio_calculator_exact_boundary() {
    // at price 10000.0, limit 7000: a loan of 70000 needs collateral 10 exactly
    let engine = LoanEngine::new(base_config(), 1_000_000_000_000);
    let r = engine.get_collateral_loan(0, 70000);
    assert_eq!(
        r,
        Ok(CollateralLoan { collateral_amount: 10, loan_amount: 70000 })
    );
    // and that collateral sits exactly at the global limit
    let ltv = Loan::get_ltv(10, 70000, 1_000_000_000_000);
    assert_eq!(ltv, 7000);
}

#[test]
fn ratio_calculator_derives_loan_side() {
    // collateral 10 at price 10000.0 supports 70000 at the limit
    let engine = LoanEngine::new(base_config(), 1_000_000_000_000);
    let r = engine.get_collateral_loan(10, 0);
    assert_eq!(
        r,
        Ok(CollateralLoan { collateral_amount: 10, loan_amount: 70000 })
    );
}

#[test]
fn repay_round_trip_restores_everything() {
    let (mut engine, mut ledger) = engine_with_funds();
    assert_eq!(engine.apply_for_loan(&mut ledger, OWNER, 2, 100), Ok(()));
    assert_eq!(engine.repay_loan(&mut ledger, OWNER, 0), Ok(()));
    assert_eq!(engine.loans.len(), 0);
    assert_eq!(engine.total_loan, 0);
    assert_eq!(engine.total_collateral, 0);
    assert_eq!(engine.liquidating_loans.len(), 0);
    assert_eq!(ledger.balance_of(COLLATERAL_ASSET, OWNER), 1000);
    assert_eq!(ledger.balance_of(COLLATERAL_ASSET, PAWN_SHOP), 0);
    // the discharged loan asset was burned at the pool
    assert_eq!(ledger.balance_of(LOAN_ASSET, OWNER), 0);
    assert_eq!(ledger.balance_of(LOAN_ASSET, PAWN_SHOP), 0);
}

#[test]
fn repay_compensates_failed_second_transfer() {
    let (mut engine, mut ledger) = engine_with_funds();
    assert_eq!(engine.apply_for_loan(&mut ledger, OWNER, 2, 100), Ok(()));
    // calls 0 (endowment), 1 and 2 (apply) are spent; repay makes calls 3
    // (debt in), 4 (collateral out) and 5; force the second transfer to fail
    ledger.deny(4);
    let r = engine.repay_loan(&mut ledger, OWNER, 0);
    assert_eq!(r, Err(Error::InsufficientBalance));
    // the registry, the aggregates and every balance stand as before the call
    assert_eq!(engine.loans.len(), 1);
    assert_eq!(engine.loans[0].id, 0);
    assert_eq!(engine.loans[0].loan_balance_total, 100);
    assert_eq!(engine.total_loan, 100);
    assert_eq!(engine.total_collateral, 2);
    assert_eq!(ledger.balance_of(COLLATERAL_ASSET, OWNER), 998);
    assert_eq!(ledger.balance_of(COLLATERAL_ASSET, PAWN_SHOP), 2);
    assert_eq!(ledger.balance_of(LOAN_ASSET, OWNER), 100);
    assert_eq!(ledger.balance_of(LOAN_ASSET, PAWN_SHOP), 0);
}

#[test]
fn repay_rejects_wrong_owner_and_unknown_loan() {
    let (mut engine, mut ledger) = engine_with_funds();
    assert_eq!(engine.apply_for_loan(&mut ledger, OWNER, 2, 100), Ok(()));
    assert_eq!(engine.repay_loan(&mut ledger, 21, 0), Err(Error::NotOwner));
    assert_eq!(
        engine.repay_loan(&mut ledger, OWNER, 7),
        Err(Error::LoanNotFound)
    );
}

#[test]
fn add_collateral_raises_both_balances_and_the_aggregate() {
    let (mut engine, mut ledger) = engine_with_funds();
    assert_eq!(engine.apply_for_loan(&mut ledger, OWNER, 2, 100), Ok(()));
    assert_eq!(
        engine.add_loan_collateral(&mut ledger, 0, OWNER, 3),
        Ok(())
    );
    assert_eq!(engine.loans[0].collateral_balance_original, 5);
    assert_eq!(engine.loans[0].collateral_balance_available, 5);
    assert_eq!(engine.total_collateral, 5);
    assert_eq!(ledger.balance_of(COLLATERAL_ASSET, PAWN_SHOP), 5);
    assert_eq!(ledger.balance_of(COLLATERAL_ASSET, OWNER), 995);
}

#[test]
fn draw_respects_available_credit() {
    let (mut engine, mut ledger) = engine_with_funds();
    // collateral 10 at 1000.0 under limit 7000 supports 7000 of debt
    assert_eq!(engine.apply_for_loan(&mut ledger, OWNER, 10, 100), Ok(()));
    assert_eq!(engine.draw_from_loan(OWNER, 0, 6900), Ok(()));
    assert_eq!(engine.loans[0].loan_balance_total, 7000);
    assert_eq!(engine.total_loan, 7000);
    assert_eq!(
        engine.draw_from_loan(OWNER, 0, 1),
        Err(Error::ShortOfCredit)
    );
    assert_eq!(engine.draw_from_loan(21, 0, 1), Err(Error::NotOwner));
}

#[test]
fn aggregates_match_the_registry() {
    let (mut engine, mut ledger) = engine_with_funds();
    assert_eq!(engine.apply_for_loan(&mut ledger, OWNER, 2, 100), Ok(()));
    assert_eq!(engine.apply_for_loan(&mut ledger, OWNER, 10, 300), Ok(()));
    assert_eq!(engine.draw_from_loan(OWNER, 1, 50), Ok(()));
    let mut sum_loan: u64 = 0;
    let mut sum_coll: u64 = 0;
    for loan in engine.loans.iter() {
        sum_loan += loan.loan_balance_total;
        sum_coll += loan.collateral_balance_available;
        assert!(loan.collateral_balance_available <= loan.collateral_balance_original);
    }
    assert_eq!(engine.total_loan, sum_loan);
    assert_eq!(engine.total_collateral, sum_coll);
}

#[test]
fn pause_gates_the_operations() {
    let (mut engine, mut ledger) = engine_with_funds();
    assert_eq!(engine.pause(21), Err(Error::Unauthorized));
    assert_eq!(engine.pause(ADMIN), Ok(()));
    assert_eq!(
        engine.apply(&mut ledger, OWNER, 2, 100, 0),
        Err(Error::Paused)
    );
    assert_eq!(engine.repay(&mut ledger, OWNER, 0), Err(Error::Paused));
    assert_eq!(engine.draw(OWNER, 0, 1), Err(Error::Paused));
    assert_eq!(engine.resume(ADMIN), Ok(()));
    assert_eq!(engine.apply(&mut ledger, OWNER, 2, 100, 0), Ok(()));
}

#[test]
fn setters_are_privileged() {
    let mut engine = LoanEngine::new(base_config(), PRICE_1000);
    assert_eq!(
        engine.set_global_ltv_limit(21, 6000),
        Err(Error::Unauthorized)
    );
    assert_eq!(engine.set_global_ltv_limit(ADMIN, 6000), Ok(()));
    assert_eq!(engine.config.global_ltv_limit, 6000);
    assert_eq!(engine.set_price(ADMIN, 42), Ok(()));
    assert_eq!(engine.btc_price, 42);
    assert_eq!(engine.set_loan_cap(ADMIN, 0), Ok(()));
    assert_eq!(engine.config.loan_cap, None);
    assert_eq!(engine.set_loan_cap(ADMIN, 9), Ok(()));
    assert_eq!(engine.config.loan_cap, Some(9));
}

#[test]
fn oracle_updates_the_price() {
    let mut engine = LoanEngine::new(base_config(), PRICE_1000);
    engine.on_change(7);
    assert_eq!(engine.btc_price, 7);
}
