use deposit_loan::engine::{Config, LoanEngine};
use deposit_loan::ledger::Ledger;
use deposit_loan::types::{Error, Event, LoanHealth};

const PROFIT_POOL: u64 = 13;
const PAWN_SHOP: u64 = 14;
const COLLATERAL_ASSET: u32 = 5;
const LOAN_ASSET: u32 = 6;
const LIQUIDATION_ACCOUNT: u64 = 15;
const ADMIN: u64 = 99;
const OWNER: u64 = 20;

fn config() -> Config {
    Config {
        collection_asset_id: 1,
        collection_account_id: 10,
        market_dtoken_asset_id: 2,
        market_dtoken_account_id: 11,
        total_dtoken_asset_id: 3,
        total_dtoken_account_id: 12,
        profit_asset_id: LOAN_ASSET,
        profit_pool: PROFIT_POOL,
        pawn_shop: PAWN_SHOP,
        collateral_asset_id: COLLATERAL_ASSET,
        loan_asset_id: LOAN_ASSET,
        global_ltv_limit: 7000,
        global_liquidation_threshold: 9000,
        global_warning_threshold: 8000,
        penalty_rate: 0,
        liquidation_penalty: 1000,
        liquidation_account: LIQUIDATION_ACCOUNT,
        minimum_collateral: 0,
        loan_cap: None,
        admin: ADMIN,
    }
}

/// An engine holding one loan of 100 against collateral 2, made at 1000.0.
fn engine_with_loan() -> (LoanEngine, Ledger) {
    let mut engine = LoanEngine::new(config(), 100_000_000_000);
    let mut ledger = Ledger::new();
    assert!(ledger.mint(COLLATERAL_ASSET, OWNER, 1000));
    assert_eq!(engine.apply_for_loan(&mut ledger, OWNER, 2, 100), Ok(()));
    (engine, ledger)
}

#[test]
fn sweep_leaves_healthy_loans_alone() {
    let (mut engine, _ledger) = engine_with_loan();
    engine.on_each_block(1);
    assert_eq!(engine.loans[0].status, LoanHealth::Well);
    assert_eq!(engine.liquidating_loans.len(), 0);
}

#[test]
fn sweep_warns_once_per_ltv_value() {
    let (mut engine, _ledger) = engine_with_loan();
    // at 60.0 the ltv is 100 * 10^12 / (2 * 6 * 10^9) = 8333: warning band
    engine.on_change(6_000_000_000);
    let events_before = engine.events.len();
    engine.on_each_block(1);
    assert_eq!(engine.loans[0].status, LoanHealth::Warning(8333));
    assert_eq!(engine.events.len(), events_before + 1);
    assert_eq!(engine.events[events_before], Event::Warning(0, 8333));
    // a second sweep at the same price changes nothing and emits nothing
    engine.on_each_block(2);
    assert_eq!(engine.loans[0].status, LoanHealth::Warning(8333));
    assert_eq!(engine.events.len(), events_before + 1);
    assert_eq!(engine.liquidating_loans.len(), 0);
}

#[test]
fn sweep_liquidates_exactly_at_the_threshold() {
    let mut engine = LoanEngine::new(config(), 100_000_000_000);
    let mut ledger = Ledger::new();
    assert!(ledger.mint(COLLATERAL_ASSET, OWNER, 1000));
    assert_eq!(engine.apply_for_loan(&mut ledger, OWNER, 2, 90), Ok(()));
    // at 50.0 the ltv is 90 * 10^12 / (2 * 5 * 10^9) = 9000 == threshold:
    // the loan liquidates, it does not merely warn
    engine.on_change(5_000_000_000);
    engine.on_each_block(1);
    assert_eq!(engine.loans[0].status, LoanHealth::Liquidating(9000));
    assert_eq!(engine.liquidating_loans, vec![0]);
    // the liquidating set and the statuses agree
    for loan in engine.loans.iter() {
        let in_set = engine.liquidating_loans.contains(&loan.id);
        let is_liquidating = matches!(loan.status, LoanHealth::Liquidating(_));
        assert_eq!(in_set, is_liquidating);
    }
}

#[test]
fn sweep_skips_loans_already_liquidating() {
    let (mut engine, _ledger) = engine_with_loan();
    engine.on_change(4_500_000_000);
    engine.on_each_block(1);
    let events_after_first = engine.events.len();
    engine.on_each_block(2);
    assert_eq!(engine.events.len(), events_after_first);
    assert_eq!(engine.liquidating_loans, vec![0]);
}

#[test]
fn liquidating_loan_cannot_be_repaid() {
    let (mut engine, mut ledger) = engine_with_loan();
    engine.on_change(4_500_000_000);
    engine.on_each_block(1);
    assert_eq!(
        engine.repay_loan(&mut ledger, OWNER, 0),
        Err(Error::LoanInLiquidation)
    );
}

#[test]
fn settlement_splits_the_surplus() {
    let (mut engine, mut ledger) = engine_with_loan();
    engine.on_change(4_500_000_000);
    engine.on_each_block(1);
    assert!(ledger.mint(LOAN_ASSET, LIQUIDATION_ACCOUNT, 150));
    let owner_loan_asset_before = ledger.balance_of(LOAN_ASSET, OWNER);
    let r = engine.mark_loan_liquidated(&mut ledger, 0, LIQUIDATION_ACCOUNT, 150);
    assert_eq!(r, Ok(()));
    // principal 100 to the pool; leftover 50; penalty 50 * 1000 / 10000 = 5
    // to the profit pool; residual 45 to the borrower
    assert_eq!(ledger.balance_of(LOAN_ASSET, PAWN_SHOP), 100);
    assert_eq!(ledger.balance_of(LOAN_ASSET, PROFIT_POOL), 5);
    assert_eq!(
        ledger.balance_of(LOAN_ASSET, OWNER),
        owner_loan_asset_before + 45
    );
    assert_eq!(ledger.balance_of(LOAN_ASSET, LIQUIDATION_ACCOUNT), 0);
    // the loan left the registry, the set and the aggregates
    assert_eq!(engine.loans.len(), 0);
    assert_eq!(engine.liquidating_loans.len(), 0);
    assert_eq!(engine.total_loan, 0);
    assert_eq!(engine.total_collateral, 0);
}

#[test]
fn settlement_requires_the_liquidating_set() {
    let (mut engine, mut ledger) = engine_with_loan();
    assert!(ledger.mint(LOAN_ASSET, LIQUIDATION_ACCOUNT, 150));
    assert_eq!(
        engine.mark_loan_liquidated(&mut ledger, 0, LIQUIDATION_ACCOUNT, 150),
        Err(Error::LoanNotInLiquidation)
    );
}

#[test]
fn settlement_is_privileged() {
    let (mut engine, mut ledger) = engine_with_loan();
    engine.on_change(4_500_000_000);
    engine.on_each_block(1);
    assert_eq!(
        engine.mark_liquidated(&mut ledger, OWNER, 0, 150),
        Err(Error::Unauthorized)
    );
}

#[test]
fn settlement_compensates_a_failed_surplus_transfer() {
    let (mut engine, mut ledger) = engine_with_loan();
    engine.on_change(4_500_000_000);
    engine.on_each_block(1);
    assert!(ledger.mint(LOAN_ASSET, LIQUIDATION_ACCOUNT, 150));
    // calls so far: 0 the collateral endowment, 1 and 2 the apply, 3 the
    // endowment above; settlement makes calls 4 (principal), 5 (penalty)
    // and 6 (residual): force the residual transfer to fail
    ledger.deny(6);
    let r = engine.mark_loan_liquidated(&mut ledger, 0, LIQUIDATION_ACCOUNT, 150);
    assert_eq!(r, Err(Error::InsufficientBalance));
    // the loan is still registered and liquidating, and every balance stands
    assert_eq!(engine.loans.len(), 1);
    assert_eq!(engine.liquidating_loans, vec![0]);
    assert_eq!(ledger.balance_of(LOAN_ASSET, LIQUIDATION_ACCOUNT), 150);
    assert_eq!(ledger.balance_of(LOAN_ASSET, PAWN_SHOP), 0);
    assert_eq!(ledger.balance_of(LOAN_ASSET, PROFIT_POOL), 0);
}

#[test]
fn interest_accrues_proportionally() {
    let mut engine = LoanEngine::new(config(), 100_000_000_000_000);
    let mut ledger = Ledger::new();
    assert!(ledger.mint(COLLATERAL_ASSET, OWNER, 1000));
    assert_eq!(engine.apply_for_loan(&mut ledger, OWNER, 10, 100), Ok(()));
    // deposits of 99999900 beside a total loan of 100 give a utilization of
    // 100 and a rate of (100 + 4) / 10 = 10
    assert!(ledger.mint(1, 10, 99_999_900));
    // the borrower can pay the interest transfer
    assert!(ledger.mint(LOAN_ASSET, OWNER, 900));
    engine.calculate_loan_interest_rate(&mut ledger, 1);
    assert_eq!(engine.loan_interest_rate_current, 10);
    assert_eq!(engine.bonus_time, 1);
    // interest of 1 * 100 * 10 = 1000, all of it on the single loan
    assert_eq!(engine.loans[0].loan_balance_total, 1100);
    assert_eq!(engine.total_loan, 1100);
    // and the same amount moved from the borrower to the profit pool
    assert_eq!(ledger.balance_of(LOAN_ASSET, PROFIT_POOL), 1000);
    assert_eq!(ledger.balance_of(LOAN_ASSET, OWNER), 0);
}

#[test]
fn paused_module_skips_the_sweep() {
    let (mut engine, _ledger) = engine_with_loan();
    engine.on_change(4_500_000_000);
    assert_eq!(engine.pause(ADMIN), Ok(()));
    engine.on_initialize(1);
    // nothing was classified while paused
    assert_eq!(engine.loans[0].status, LoanHealth::Well);
    assert_eq!(engine.liquidating_loans.len(), 0);
    assert_eq!(engine.resume(ADMIN), Ok(()));
    engine.on_initialize(2);
    assert!(matches!(engine.loans[0].status, LoanHealth::Liquidating(_)));
}

#[test]
fn lifecycle_operations_notify() {
    let (mut engine, mut ledger) = engine_with_loan();
    assert!(matches!(engine.events[0], Event::LoanCreated(_)));
    assert_eq!(engine.draw_from_loan(OWNER, 0, 10), Ok(()));
    assert_eq!(engine.events[1], Event::LoanDrawn(0, 10));
    assert_eq!(engine.add_loan_collateral(&mut ledger, 0, OWNER, 1), Ok(()));
    assert_eq!(engine.events[2], Event::AddCollateral(0, 1));
    // the drawn amount was recorded as debt without a transfer, so the
    // owner needs 10 more of the loan asset to repay in full
    assert!(ledger.mint(LOAN_ASSET, OWNER, 10));
    assert_eq!(engine.repay_loan(&mut ledger, OWNER, 0), Ok(()));
    assert_eq!(engine.events[3], Event::LoanRepaid(0, 110, 3));
}

