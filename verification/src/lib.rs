//! A collateralized-loan lifecycle and liquidation engine.
//!
//! The engine mints a loan asset against locked collateral, tracks each
//! loan's health against a price-derived loan-to-value (LTV) ratio, and
//! liquidates loans that breach the configured risk thresholds.  It is a
//! deterministic state-transition core: every operation yields identical
//! results given identical inputs, and every multi-transfer operation
//! either completes or compensates the transfers it already made.

pub mod types;
pub mod ledger;
pub mod engine;
pub mod lifecycle;
pub mod liquidation;
pub mod interest;
pub mod saving;
pub mod dispatch;
pub mod laws;
