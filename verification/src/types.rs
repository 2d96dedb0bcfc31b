//! Core data types of the loan engine: balances, loans, health states,
//! errors and the outward notification surface.

use vstd::prelude::*;

verus! {

/// Scale of the utilization-based interest rate (one unit is 10^-8).
pub const INTEREST_RATE_PREC: u32 = 100000000;

/// Scale of every loan-to-value ratio: basis-point-like units, 10000 = 100%.
pub const LTV_PREC: u32 = 10000;

/// Scale of the collateral price: a price of 10^8 means 1.00000000.
pub const PRICE_PREC: u32 = 100000000;

/// Seconds of one accrual term, a.k.a. one day.
pub const TERMS_UNIT: u32 = 86400;

pub type LoanId = u64;

pub type LTV = u64;

pub type Price = u128;

pub type Balance = u64;

pub type AccountId = u64;

pub type AssetId = u32;

pub type Moment = u64;

/// Every error an operation of the engine can return.
#[derive(Clone, Copy, Debug, PartialEq, Eq, Structural)]
pub enum Error {
    /// The module-level pause switch is on.
    Paused,
    /// The configured cap on the total loan balance is already met.
    ReachLoanCap,
    /// Collateral and loan amount were both zero.
    InvalidCollateralLoanAmounts,
    /// The implied LTV of the requested pair exceeds the global limit.
    OverLTVLimit,
    /// A ledger transfer, mint or burn did not go through.
    InsufficientBalance,
    /// No loan with the given id is in the registry.
    LoanNotFound,
    /// The caller does not own the loan.
    NotOwner,
    /// The loan is under liquidation, so it cannot be repaid.
    LoanInLiquidation,
    /// The loan is not under liquidation, so it cannot be settled.
    LoanNotInLiquidation,
    /// The caller is not the privileged account the operation demands.
    Unauthorized,
    /// The posted collateral is below the configured minimum floor.
    BelowMinimumCollateral,
    /// The requested draw exceeds the loan's available credit.
    ShortOfCredit,
    /// A saving of zero cannot be staked.
    ZeroSaving,
    /// The redeemed amount exceeds what the caller's share is worth.
    RedeemOverLimit,
    /// An arithmetic step of the share accounting would overflow or
    /// divide by zero.
    Overflow,
    /// The asset is not the one the operation collects.
    WrongAsset,
}

pub type LoanResult<T> = Result<T, Error>;

/// Health of one loan, carrying the LTV that was measured when the
/// status was assigned.
#[derive(Clone, Copy, Debug, PartialEq, Eq, Structural)]
pub enum LoanHealth {
    Well,
    Warning(LTV),
    Liquidating(LTV),
}

impl Default for LoanHealth {
    /// A loan is healthy when it is created.
    fn default() -> (r: Self)
        ensures
            r == LoanHealth::Well,
    {
        Self::Well
    }
}

/// A collateral/loan pair derived by the ratio calculator; never persisted.
#[derive(Clone, Copy, Debug, PartialEq, Eq, Structural)]
pub struct CollateralLoan {
    pub collateral_amount: Balance,
    pub loan_amount: Balance,
}

/// One live loan of the registry.
///
/// `collateral_balance_original` is the collateral ever posted to the loan;
/// `collateral_balance_available` is the collateral currently backing it.
#[derive(Clone, Copy, Debug, PartialEq, Eq, Structural)]
pub struct Loan {
    pub id: LoanId,
    pub who: AccountId,
    pub collateral_balance_original: Balance,
    pub collateral_balance_available: Balance,
    pub loan_balance_total: Balance,
    pub status: LoanHealth,
}

/// The loan-to-value ratio of a loan of `l` against collateral `c` at
/// price `p`, in `LTV_PREC` units with truncating division.
pub open spec fn ltv_of(c: int, l: int, p: int) -> int {
    (l * PRICE_PREC * LTV_PREC) / (c * p)
}

impl Loan {
    /// LTV of a collateral/loan pair at the given price.
    pub fn get_ltv(collateral_amount: Balance, loan_amount: Balance, btc_price: Price) -> (r: LTV)
        requires
            collateral_amount > 0,
            btc_price > 0,
            collateral_amount * btc_price <= u128::MAX,
            ltv_of(collateral_amount as int, loan_amount as int, btc_price as int) <= u64::MAX,
        ensures
            r == ltv_of(collateral_amount as int, loan_amount as int, btc_price as int),
    {
        proof {
            vstd::arithmetic::mul::lemma_mul_strictly_positive(
                collateral_amount as int,
                btc_price as int,
            );
        }
        let num: u128 = loan_amount as u128 * PRICE_PREC as u128 * LTV_PREC as u128;
        let den: u128 = collateral_amount as u128 * btc_price;
        (num / den) as u64
    }
}

/// A notification the engine emits; the outward event surface.
#[derive(Clone, Copy, Debug, PartialEq, Eq, Structural)]
pub enum Event {
    LoanCreated(Loan),
    LoanDrawn(LoanId, Balance),
    LoanRepaid(LoanId, Balance, Balance),
    Warning(LoanId, LTV),
    Liquidating(LoanId, AccountId, Balance, Balance),
    Liquidated(LoanId, Balance, Balance, Balance, Balance),
    AddCollateral(LoanId, Balance),
    /// The pause switch was turned on.  The engine models no block
    /// numbers, so the notification carries no position data.
    Paused,
    Resumed,
}

} // verus!
