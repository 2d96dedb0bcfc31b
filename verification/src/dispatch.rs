//! The operation surface: every user-facing call passes the module-level
//! pause switch here, and the privileged calls their authorization check,
//! before the engine's own logic runs.

use vstd::prelude::*;
use crate::types::{AccountId, AssetId, Balance, Error, LoanId, LoanResult};
use crate::ledger::Ledger;
use crate::engine::{has_loan, loan_of, LoanEngine};

verus! {

pub type LoanPackageId = u64;

impl LoanEngine {
    /// Apply for a loan (see `apply_for_loan`); rejected while paused.
    /// The package id is accepted for compatibility and not consulted.
    pub fn apply(
        &mut self,
        ledger: &mut Ledger,
        origin: AccountId,
        collateral_amount: Balance,
        loan_amount: Balance,
        package_id: LoanPackageId,
    ) -> (r: LoanResult<()>)
        requires
            old(self).wf(),
            old(ledger).calls() + 3 <= u64::MAX,
            old(self).ratio_fits(collateral_amount, loan_amount),
            old(self).next_loan_id < u64::MAX,
            old(self).apply_precheck(collateral_amount, loan_amount) is None ==> old(self).total_loan + old(self).derived_pair(collateral_amount, loan_amount).loan_amount
                <= u64::MAX,
            old(self).apply_precheck(collateral_amount, loan_amount) is None ==> old(self).total_collateral + old(self).derived_pair(
                collateral_amount,
                loan_amount,
            ).collateral_amount <= u64::MAX,
        ensures
            final(self).wf(),
            old(self).paused ==> r == LoanResult::<()>::Err(Error::Paused) && *final(self)
                == *old(self) && *final(ledger) == *old(ledger),
            !old(self).paused ==> old(self).apply_post(
                *final(self),
                *old(ledger),
                *final(ledger),
                origin,
                collateral_amount,
                loan_amount,
                r,
            ),
    {
        if self.paused {
            return Err(Error::Paused);
        }
        self.apply_for_loan(ledger, origin, collateral_amount, loan_amount)
    }

    /// Repay a loan in full (see `repay_loan`); rejected while paused.
    pub fn repay(&mut self, ledger: &mut Ledger, origin: AccountId, loan_id: LoanId) -> (r: LoanResult<()>)
        requires
            old(self).wf(),
            old(ledger).calls() + 3 <= u64::MAX,
        ensures
            final(self).wf(),
            old(self).paused ==> r == LoanResult::<()>::Err(Error::Paused) && *final(self)
                == *old(self) && *final(ledger) == *old(ledger),
            !old(self).paused ==> old(self).repay_post(
                *final(self),
                *old(ledger),
                *final(ledger),
                origin,
                loan_id,
                r,
            ),
    {
        if self.paused {
            return Err(Error::Paused);
        }
        self.repay_loan(ledger, origin, loan_id)
    }

    /// Settle a liquidating loan (see `mark_loan_liquidated`): only the
    /// configured settlement account may, and only while not paused.
    pub fn mark_liquidated(
        &mut self,
        ledger: &mut Ledger,
        origin: AccountId,
        loan_id: LoanId,
        auction_balance: Balance,
    ) -> (r: LoanResult<()>)
        requires
            old(self).wf(),
            old(ledger).calls() + 5 <= u64::MAX,
        ensures
            final(self).wf(),
            old(self).paused ==> r == LoanResult::<()>::Err(Error::Paused) && *final(self)
                == *old(self) && *final(ledger) == *old(ledger),
            !old(self).paused && origin != old(self).config.liquidation_account ==> r
                == LoanResult::<()>::Err(Error::Unauthorized) && *final(self) == *old(self)
                && *final(ledger) == *old(ledger),
            !old(self).paused && origin == old(self).config.liquidation_account ==> {
                &&& (old(self).mark_precheck(*old(ledger), loan_id, origin, auction_balance)
                    matches Some(e) ==> r == LoanResult::<()>::Err(e) && *final(self) == *old(self) && *final(ledger) == *old(ledger))
                &&& (old(self).mark_precheck(*old(ledger), loan_id, origin, auction_balance)
                    is None ==> (r is Ok ==> old(self).mark_discharged(
                    *final(self),
                    loan_id,
                    auction_balance,
                ) && old(self).mark_success_ledger(
                    *old(ledger),
                    *final(ledger),
                    loan_id,
                    origin,
                    auction_balance,
                )) && (r is Err ==> r == LoanResult::<()>::Err(Error::InsufficientBalance)
                    && *final(self) == *old(self) && old(self).mark_failed_ledger(
                    *old(ledger),
                    *final(ledger),
                    loan_id,
                    origin,
                    auction_balance,
                )))
                &&& (old(self).mark_precheck(*old(ledger), loan_id, origin, auction_balance)
                    is None && old(self).mark_undisturbed(
                    *old(ledger),
                    loan_id,
                    origin,
                    auction_balance,
                ) ==> r is Ok)
            },
    {
        if self.paused {
            return Err(Error::Paused);
        }
        if origin != self.config.liquidation_account {
            return Err(Error::Unauthorized);
        }
        self.mark_loan_liquidated(ledger, loan_id, origin, auction_balance)
    }

    /// Add collateral to an owned loan (see `add_loan_collateral`):
    /// rejected while paused, and only the owner may.
    pub fn add_collateral(
        &mut self,
        ledger: &mut Ledger,
        origin: AccountId,
        loan_id: LoanId,
        amount: Balance,
    ) -> (r: LoanResult<()>)
        requires
            old(self).wf(),
            old(ledger).calls() < u64::MAX,
            has_loan(old(self).loans@, loan_id) ==> loan_of(
                old(self).loans@,
                loan_id,
            ).collateral_balance_original + amount <= u64::MAX && old(self).total_collateral
                + amount <= u64::MAX,
        ensures
            final(self).wf(),
            old(self).paused ==> r == LoanResult::<()>::Err(Error::Paused) && *final(self)
                == *old(self) && *final(ledger) == *old(ledger),
            !old(self).paused && !has_loan(old(self).loans@, loan_id) ==> r == LoanResult::<
                (),
            >::Err(Error::LoanNotFound) && *final(self) == *old(self) && *final(ledger) == *old(ledger),
            !old(self).paused && has_loan(old(self).loans@, loan_id) && origin != loan_of(
                old(self).loans@,
                loan_id,
            ).who ==> r == LoanResult::<()>::Err(Error::NotOwner) && *final(self) == *old(self)
                && *final(ledger) == *old(ledger),
            !old(self).paused && has_loan(old(self).loans@, loan_id) && origin == loan_of(
                old(self).loans@,
                loan_id,
            ).who ==> old(self).add_collateral_post(
                *final(self),
                *old(ledger),
                *final(ledger),
                loan_id,
                origin,
                amount,
                r,
            ),
    {
        if self.paused {
            return Err(Error::Paused);
        }
        let i = match self.find_loan(loan_id) {
            None => {
                return Err(Error::LoanNotFound);
            },
            Some(i) => i,
        };
        let loan = self.loans[i];
        proof {
            crate::engine::lemma_loan_at(self.loans@, i as int);
        }
        if origin != loan.who {
            return Err(Error::NotOwner);
        }
        self.add_loan_collateral(ledger, loan_id, loan.who, amount)
    }

    /// Draw further credit from an owned loan (see `draw_from_loan`);
    /// rejected while paused.
    pub fn draw(&mut self, origin: AccountId, loan_id: LoanId, amount: Balance) -> (r: LoanResult<()>)
        requires
            old(self).wf(),
        ensures
            final(self).wf(),
            old(self).paused ==> r == LoanResult::<()>::Err(Error::Paused) && *final(self)
                == *old(self),
            !old(self).paused ==> {
                &&& (old(self).draw_precheck(origin, loan_id, amount) matches Some(e) ==> r
                    == LoanResult::<()>::Err(e) && *final(self) == *old(self))
                &&& (old(self).draw_precheck(origin, loan_id, amount) is None ==> r is Ok && old(self).draw_success_post(*final(self), loan_id, amount))
            },
    {
        if self.paused {
            return Err(Error::Paused);
        }
        self.draw_from_loan(origin, loan_id, amount)
    }

    /// Stake into the deposit pool (see `create_staking`): rejected while
    /// paused, for a foreign asset, or without the balance to stake.
    pub fn staking(
        &mut self,
        ledger: &mut Ledger,
        origin: AccountId,
        asset_id: AssetId,
        amount: Balance,
    ) -> (r: LoanResult<()>)
        requires
            old(self).wf(),
            old(ledger).calls() + 2 <= u64::MAX,
        ensures
            final(self).wf(),
            old(self).paused ==> r == LoanResult::<()>::Err(Error::Paused) && *final(self)
                == *old(self) && *final(ledger) == *old(ledger),
            !old(self).paused && asset_id != old(self).config.collection_asset_id ==> r
                == LoanResult::<()>::Err(Error::WrongAsset) && *final(self) == *old(self)
                && *final(ledger) == *old(ledger),
            !old(self).paused && asset_id == old(self).config.collection_asset_id && old(ledger).balance(asset_id, origin) < amount ==> r == LoanResult::<()>::Err(
                Error::InsufficientBalance,
            ) && *final(self) == *old(self) && *final(ledger) == *old(ledger),
            !old(self).paused && asset_id == old(self).config.collection_asset_id && old(ledger).balance(asset_id, origin) >= amount ==> old(self).staking_post(
                *final(self),
                *old(ledger),
                *final(ledger),
                origin,
                amount,
                r,
            ),
            !old(self).paused && asset_id == old(self).config.collection_asset_id && old(
                ledger,
            ).balance(asset_id, origin) >= amount && old(self).staking_precheck(
                *old(ledger),
                origin,
                amount,
            ) is None && old(self).staking_undisturbed(*old(ledger), amount) ==> r is Ok,
    {
        if self.paused {
            return Err(Error::Paused);
        }
        if self.config.collection_asset_id != asset_id {
            return Err(Error::WrongAsset);
        }
        if ledger.balance_of(asset_id, origin) < amount {
            return Err(Error::InsufficientBalance);
        }
        self.create_staking(ledger, origin, amount)
    }

    /// `staking` on behalf of a delegatee, for the privileged account.
    pub fn sudo_staking(
        &mut self,
        ledger: &mut Ledger,
        origin: AccountId,
        asset_id: AssetId,
        amount: Balance,
        delegatee: AccountId,
    ) -> (r: LoanResult<()>)
        requires
            old(self).wf(),
            old(ledger).calls() + 2 <= u64::MAX,
        ensures
            final(self).wf(),
            old(self).paused ==> r == LoanResult::<()>::Err(Error::Paused) && *final(self)
                == *old(self) && *final(ledger) == *old(ledger),
            !old(self).paused && origin != old(self).config.admin ==> r == LoanResult::<()>::Err(
                Error::Unauthorized,
            ) && *final(self) == *old(self) && *final(ledger) == *old(ledger),
            !old(self).paused && origin == old(self).config.admin && asset_id != old(self).config.collection_asset_id ==> r == LoanResult::<()>::Err(Error::WrongAsset)
                && *final(self) == *old(self) && *final(ledger) == *old(ledger),
            !old(self).paused && origin == old(self).config.admin && asset_id == old(self).config.collection_asset_id && old(ledger).balance(asset_id, delegatee) < amount
                ==> r == LoanResult::<()>::Err(Error::InsufficientBalance) && *final(self)
                == *old(self) && *final(ledger) == *old(ledger),
            !old(self).paused && origin == old(self).config.admin && asset_id == old(self).config.collection_asset_id && old(ledger).balance(asset_id, delegatee) >= amount
                ==> old(self).staking_post(
                *final(self),
                *old(ledger),
                *final(ledger),
                delegatee,
                amount,
                r,
            ),
            !old(self).paused && origin == old(self).config.admin && asset_id == old(
                self,
            ).config.collection_asset_id && old(ledger).balance(asset_id, delegatee) >= amount
                && old(self).staking_precheck(*old(ledger), delegatee, amount) is None && old(
                self,
            ).staking_undisturbed(*old(ledger), amount) ==> r is Ok,
    {
        if self.paused {
            return Err(Error::Paused);
        }
        if origin != self.config.admin {
            return Err(Error::Unauthorized);
        }
        if self.config.collection_asset_id != asset_id {
            return Err(Error::WrongAsset);
        }
        if ledger.balance_of(asset_id, delegatee) < amount {
            return Err(Error::InsufficientBalance);
        }
        self.create_staking(ledger, delegatee, amount)
    }

    /// Redeem savings from the deposit pool (see `make_redeem`): rejected
    /// while paused, without a configured collection asset, or when the
    /// collection account cannot pay the amount out.
    pub fn redeem(
        &mut self,
        ledger: &mut Ledger,
        origin: AccountId,
        iou_asset_id: AssetId,
        iou_asset_amount: Balance,
    ) -> (r: LoanResult<()>)
        requires
            old(self).wf(),
            old(ledger).calls() + 5 <= u64::MAX,
        ensures
            final(self).wf(),
            old(self).paused ==> r == LoanResult::<()>::Err(Error::Paused) && *final(self)
                == *old(self) && *final(ledger) == *old(ledger),
            !old(self).paused && old(self).config.collection_asset_id == 0 ==> r == LoanResult::<
                (),
            >::Err(Error::WrongAsset) && *final(self) == *old(self) && *final(ledger) == *old(ledger),
            !old(self).paused && old(self).config.collection_asset_id != 0 && old(ledger).balance(
                old(self).config.collection_asset_id,
                old(self).config.collection_account_id,
            ) < iou_asset_amount ==> r == LoanResult::<()>::Err(Error::InsufficientBalance)
                && *final(self) == *old(self) && *final(ledger) == *old(ledger),
            !old(self).paused && old(self).config.collection_asset_id != 0 && old(ledger).balance(
                old(self).config.collection_asset_id,
                old(self).config.collection_account_id,
            ) >= iou_asset_amount ==> old(self).make_redeem_post(
                *final(self),
                *old(ledger),
                *final(ledger),
                origin,
                iou_asset_amount,
                r,
            ),
            final(self).same_loan_state(*old(self)),
    {
        if self.paused {
            return Err(Error::Paused);
        }
        let collection_asset_id = self.config.collection_asset_id;
        let collection_account_id = self.config.collection_account_id;
        if collection_asset_id == 0 {
            return Err(Error::WrongAsset);
        }
        if ledger.balance_of(collection_asset_id, collection_account_id) < iou_asset_amount {
            return Err(Error::InsufficientBalance);
        }
        self.make_redeem(ledger, origin, iou_asset_amount)
    }

    /// `redeem` on behalf of a delegatee, for the privileged account.
    pub fn sudo_redeem(
        &mut self,
        ledger: &mut Ledger,
        origin: AccountId,
        iou_asset_id: AssetId,
        iou_asset_amount: Balance,
        delegatee: AccountId,
    ) -> (r: LoanResult<()>)
        requires
            old(self).wf(),
            old(ledger).calls() + 5 <= u64::MAX,
        ensures
            final(self).wf(),
            old(self).paused ==> r == LoanResult::<()>::Err(Error::Paused) && *final(self)
                == *old(self) && *final(ledger) == *old(ledger),
            !old(self).paused && origin != old(self).config.admin ==> r == LoanResult::<()>::Err(
                Error::Unauthorized,
            ) && *final(self) == *old(self) && *final(ledger) == *old(ledger),
            !old(self).paused && origin == old(self).config.admin && old(
                self,
            ).config.collection_asset_id == 0 ==> r == LoanResult::<()>::Err(Error::WrongAsset)
                && *final(self) == *old(self) && *final(ledger) == *old(ledger),
            !old(self).paused && origin == old(self).config.admin && old(
                self,
            ).config.collection_asset_id != 0 && old(ledger).balance(
                old(self).config.collection_asset_id,
                old(self).config.collection_account_id,
            ) < iou_asset_amount ==> r == LoanResult::<()>::Err(Error::InsufficientBalance)
                && *final(self) == *old(self) && *final(ledger) == *old(ledger),
            !old(self).paused && origin == old(self).config.admin && old(
                self,
            ).config.collection_asset_id != 0 && old(ledger).balance(
                old(self).config.collection_asset_id,
                old(self).config.collection_account_id,
            ) >= iou_asset_amount ==> old(self).make_redeem_post(
                *final(self),
                *old(ledger),
                *final(ledger),
                delegatee,
                iou_asset_amount,
                r,
            ),
            final(self).same_loan_state(*old(self)),
    {
        if self.paused {
            return Err(Error::Paused);
        }
        if origin != self.config.admin {
            return Err(Error::Unauthorized);
        }
        let collection_asset_id = self.config.collection_asset_id;
        let collection_account_id = self.config.collection_account_id;
        if collection_asset_id == 0 {
            return Err(Error::WrongAsset);
        }
        if ledger.balance_of(collection_asset_id, collection_account_id) < iou_asset_amount {
            return Err(Error::InsufficientBalance);
        }
        self.make_redeem(ledger, delegatee, iou_asset_amount)
    }

    /// The per-block hook: run the health sweep unless the module is paused.
    pub fn on_initialize(&mut self, height: u64)
        requires
            old(self).wf(),
        ensures
            final(self).wf(),
            old(self).paused ==> *final(self) == *old(self),
            !old(self).paused ==> old(self).sweep_post(*final(self)),
    {
        if !self.paused {
            self.on_each_block(height);
        }
    }
}

} // verus!
