//! The liquidation subsystem: per-period health classification of every
//! loan, and the privileged settlement that discharges a liquidating loan
//! and splits the auction surplus.

use vstd::prelude::*;
use crate::types::{
    ltv_of, AccountId, Balance, Error, Event, Loan, LoanHealth, LoanId, LoanResult, LTV,
    LTV_PREC, Moment, PRICE_PREC, Price,
};
use crate::ledger::{same_balances, transfer_post, Ledger};
use crate::engine::{
    has_loan, lemma_loan_at, lemma_owner_ids_absent, lemma_owner_ids_update,
    lemma_owner_index_first, lemma_remove_id_keeps, lemma_remove_id_subset,
    lemma_sum_loans_remove, lemma_sum_loans_update, loan_index, loan_of, owner_ids, remove_id,
    unique_ids, AccountLoans, LoanEngine,
};


verus! {

/// Health classification: at or above the liquidation threshold a loan
/// liquidates (the comparison is `>=`, so a loan exactly at the threshold
/// liquidates, never merely warns); at or above the warning threshold it
/// warns; otherwise it is well.
pub open spec fn classify(ltv: LTV, liquidation: LTV, warning: LTV) -> LoanHealth {
    if ltv >= liquidation {
        LoanHealth::Liquidating(ltv)
    } else if ltv >= warning {
        LoanHealth::Warning(ltv)
    } else {
        LoanHealth::Well
    }
}

/// Whether the sweep can classify a loan without faulting: collateral
/// present and the LTV computation representable.
pub open spec fn sweep_computable(loan: Loan, price: Price) -> bool {
    &&& loan.collateral_balance_available > 0
    &&& loan.collateral_balance_available * price <= u128::MAX
    &&& ltv_of(
        loan.collateral_balance_available as int,
        loan.loan_balance_total as int,
        price as int,
    ) <= u64::MAX
}

/// The status a sweep leaves on a loan it classified: `Well` leaves the
/// previous status standing, the other two overwrite it.
pub open spec fn sweep_status(loan: Loan, price: Price, liquidation: LTV, warning: LTV) -> LoanHealth {
    let ltv = ltv_of(
        loan.collateral_balance_available as int,
        loan.loan_balance_total as int,
        price as int,
    );
    match classify(ltv as LTV, liquidation, warning) {
        LoanHealth::Well => loan.status,
        LoanHealth::Warning(v) => LoanHealth::Warning(v),
        LoanHealth::Liquidating(v) => LoanHealth::Liquidating(v),
    }
}

/// The scaled debt side of the LTV ratio.
fn ltv_numerator(loan_balance_total: Balance) -> (r: u128)
    ensures
        r == loan_balance_total as u128 * (PRICE_PREC as u128) * (LTV_PREC as u128),
{
    let a: u128 = loan_balance_total as u128;
    proof {
        assert(a <= 18446744073709551615u128);
        assert(a * 100000000 <= 18446744073709551615u128 * 100000000) by (nonlinear_arith)
            requires a <= 18446744073709551615u128;
    }
    a * 100000000 * 10000
}

/// The notifications one loan contributes to a sweep: a warning only when
/// it changes the status (no duplicate warnings while the measured LTV is
/// unchanged), a liquidation-entered notification unconditionally.
pub open spec fn sweep_loan_events(s0: LoanEngine, loan: Loan) -> Seq<Event> {
    if s0.liquidating_loans@.contains(loan.id) || !sweep_computable(loan, s0.btc_price) {
        Seq::empty()
    } else {
        let h = classify(
            ltv_of(
                loan.collateral_balance_available as int,
                loan.loan_balance_total as int,
                s0.btc_price as int,
            ) as LTV,
            s0.config.global_liquidation_threshold,
            s0.config.global_warning_threshold,
        );
        match h {
            LoanHealth::Well => Seq::empty(),
            LoanHealth::Warning(v) => if loan.status == LoanHealth::Warning(v) {
                Seq::empty()
            } else {
                seq![Event::Warning(loan.id, v)]
            },
            LoanHealth::Liquidating(v) => seq![
                Event::Liquidating(
                    loan.id,
                    loan.who,
                    loan.collateral_balance_available,
                    loan.loan_balance_total,
                ),
            ],
        }
    }
}

/// The notifications a sweep over the first `i` loans emits, in order.
pub open spec fn sweep_events(s0: LoanEngine, i: int) -> Seq<Event>
    decreases i,
{
    if i <= 0 {
        Seq::empty()
    } else {
        sweep_events(s0, i - 1) + sweep_loan_events(s0, s0.loans@[i - 1])
    }
}

impl LoanEngine {
    /// Classify one loan's health at the given price and thresholds.
    pub fn check_loan_health(
        loan: &Loan,
        now: Moment,
        btc_price: Price,
        liquidation: LTV,
        warning: LTV,
    ) -> (r: LoanHealth)
        requires
            sweep_computable(*loan, btc_price),
            btc_price > 0,
        ensures
            r == classify(
                ltv_of(
                    loan.collateral_balance_available as int,
                    loan.loan_balance_total as int,
                    btc_price as int,
                ) as LTV,
                liquidation,
                warning,
            ),
    {
        let current_ltv = Loan::get_ltv(
            loan.collateral_balance_available,
            loan.loan_balance_total,
            btc_price,
        );
        if current_ltv >= liquidation {
            return LoanHealth::Liquidating(current_ltv);
        }
        if current_ltv >= warning {
            return LoanHealth::Warning(current_ltv);
        }
        LoanHealth::Well
    }

    /// Mark one loan liquidating and put its id into the liquidating set.
    fn liquidate_loan(&mut self, loan_id: LoanId, liquidating_ltv: LTV)
        requires
            old(self).wf(),
            has_loan(old(self).loans@, loan_id),
        ensures
            final(self).wf(),
            final(self).loans@ == old(self).loans@.update(
                loan_index(old(self).loans@, loan_id),
                (Loan {
                    status: LoanHealth::Liquidating(liquidating_ltv),
                    ..old(self).loans@[loan_index(old(self).loans@, loan_id)]
                }),
            ),
            final(self).liquidating_loans@ == old(self).liquidating_loans@.push(loan_id),
            final(self).loans_by_account@ == old(self).loans_by_account@,
            final(self).total_loan == old(self).total_loan,
            final(self).total_collateral == old(self).total_collateral,
            final(self).next_loan_id == old(self).next_loan_id,
            final(self).same_aux(*old(self)),
            final(self).events@ == old(self).events@,
    {
        let ghost s0 = *self;
        let i = match self.find_loan(loan_id) {
            None => {
                proof {
                    assert(false);
                }
                return ;
            },
            Some(i) => i,
        };
        let loan = self.loans[i];
        let loan2 = Loan { status: LoanHealth::Liquidating(liquidating_ltv), ..loan };
        self.loans.remove(i);
        self.loans.insert(i, loan2);
        self.liquidating_loans.push(loan_id);
        proof {
            assert(self.loans@ =~= s0.loans@.update(i as int, loan2));
            lemma_sum_loans_update(s0.loans@, i as int, loan2);
            assert(unique_ids(self.loans@));
            assert forall|k: int|
                0 <= k < self.liquidating_loans@.len() implies has_loan(
                self.loans@,
                #[trigger] self.liquidating_loans@[k],
            ) && loan_of(self.loans@, self.liquidating_loans@[k]).status is Liquidating by {
                let id = self.liquidating_loans@[k];
                if k < s0.liquidating_loans@.len() {
                    let j = loan_index(s0.loans@, id);
                    assert(0 <= j < s0.loans@.len() && s0.loans@[j].id == id);
                    assert(self.loans@[j].id == id);
                    lemma_loan_at(self.loans@, j);
                } else {
                    assert(id == loan_id);
                    lemma_loan_at(self.loans@, i as int);
                }
            }
            assert forall|a: int|
                0 <= a < self.loans@.len() implies ((#[trigger] self.loans@[a]).status
                is Liquidating ==> self.liquidating_loans@.contains(self.loans@[a].id)) by {
                if a != i as int && s0.loans@[a].status is Liquidating {
                    let k = choose|k: int|
                        0 <= k < s0.liquidating_loans@.len() && s0.liquidating_loans@[k]
                            == s0.loans@[a].id;
                    assert(self.liquidating_loans@[k] == self.loans@[a].id);
                }
                if a == i as int {
                    assert(self.liquidating_loans@.last() == loan_id);
                }
            }
        }
    }

    /// The per-period health sweep.  Loans already in the liquidating set
    /// are skipped; a loan whose classification would fault is skipped so
    /// that the rest of the book is still monitored; a warning is recorded
    /// only when it changes the status; a liquidation is recorded and the
    /// id enters the liquidating set.  No ledger call and no balance change.
    #[verifier::rlimit(60)]
    /// Everything a sweep does: each loan keeps its amounts and gets the
    /// classified status (unless skipped), the liquidating set only grows,
    /// the rest of the state stands, and exactly the sweep's notifications
    /// are appended, in registry order.
    pub open spec fn sweep_post(self, post: LoanEngine) -> bool {
        &&& post.loans@.len() == self.loans@.len()
        &&& forall|j: int|
            0 <= j < self.loans@.len() ==> {
                let l0 = self.loans@[j];
                let l1 = #[trigger] post.loans@[j];
                &&& l1.id == l0.id
                &&& l1.who == l0.who
                &&& l1.collateral_balance_original == l0.collateral_balance_original
                &&& l1.collateral_balance_available == l0.collateral_balance_available
                &&& l1.loan_balance_total == l0.loan_balance_total
                &&& l1.status == (if self.liquidating_loans@.contains(l0.id)
                    || !sweep_computable(l0, self.btc_price) {
                    l0.status
                } else {
                    sweep_status(
                        l0,
                        self.btc_price,
                        self.config.global_liquidation_threshold,
                        self.config.global_warning_threshold,
                    )
                })
            }
        &&& self.liquidating_loans@.is_prefix_of(post.liquidating_loans@)
        &&& post.loans_by_account@ == self.loans_by_account@
        &&& post.total_loan == self.total_loan
        &&& post.total_collateral == self.total_collateral
        &&& post.next_loan_id == self.next_loan_id
        &&& post.same_aux(self)
        &&& post.events@ == self.events@ + sweep_events(self, self.loans@.len() as int)
    }

    pub fn on_each_block(&mut self, _height: u64)
        requires
            old(self).wf(),
        ensures
            final(self).wf(),
            old(self).sweep_post(*final(self)),
    {
        let ghost s0 = *self;
        // classification reads only price and thresholds; the moment is
        // carried for the classifier's signature and not consulted
        let now: Moment = 0;
        let btc_price = self.btc_price;
        let liquidation_thd = self.config.global_liquidation_threshold;
        let warning_thd = self.config.global_warning_threshold;

        let mut i: usize = 0;
        proof {
            assert(s0.liquidating_loans@.subrange(0, s0.liquidating_loans@.len() as int)
                =~= s0.liquidating_loans@);
            assert(s0.events@ + sweep_events(s0, 0) =~= s0.events@);
        }
        while i < self.loans.len()
            invariant
                s0.wf(),
                self.wf(),
                0 <= i <= self.loans@.len(),
                self.loans@.len() == s0.loans@.len(),
                btc_price == s0.btc_price,
                liquidation_thd == s0.config.global_liquidation_threshold,
                warning_thd == s0.config.global_warning_threshold,
                forall|j: int|
                    0 <= j < s0.loans@.len() ==> {
                        let l0 = s0.loans@[j];
                        let l1 = #[trigger] self.loans@[j];
                        &&& l1.id == l0.id
                        &&& l1.who == l0.who
                        &&& l1.collateral_balance_original == l0.collateral_balance_original
                        &&& l1.collateral_balance_available == l0.collateral_balance_available
                        &&& l1.loan_balance_total == l0.loan_balance_total
                    },
                forall|j: int|
                    i <= j < s0.loans@.len() ==> (#[trigger] self.loans@[j]).status
                        == s0.loans@[j].status,
                forall|j: int|
                    0 <= j < i ==> (#[trigger] self.loans@[j]).status == (if s0
                        .liquidating_loans@.contains(s0.loans@[j].id) || !sweep_computable(
                        s0.loans@[j],
                        s0.btc_price,
                    ) {
                        s0.loans@[j].status
                    } else {
                        sweep_status(
                            s0.loans@[j],
                            s0.btc_price,
                            s0.config.global_liquidation_threshold,
                            s0.config.global_warning_threshold,
                        )
                    }),
                s0.liquidating_loans@.is_prefix_of(self.liquidating_loans@),
                forall|k: int|
                    s0.liquidating_loans@.len() <= k < self.liquidating_loans@.len()
                        ==> exists|j2: int|
                        0 <= j2 < i && #[trigger] self.liquidating_loans@[k] == s0.loans@[j2].id,
                self.loans_by_account@ == s0.loans_by_account@,
                self.total_loan == s0.total_loan,
                self.total_collateral == s0.total_collateral,
                self.next_loan_id == s0.next_loan_id,
                self.same_aux(s0),
                self.events@ == s0.events@ + sweep_events(s0, i as int),
            decreases self.loans@.len() - i,
        {
            let loan = self.loans[i];
            let ghost l0 = s0.loans@[i as int];
            let in_liq = self.check_loan_in_liquidation(&loan.id);
            proof {
                assert(loan == self.loans@[i as int]);
                assert(loan.id == s0.loans@[i as int].id);
                if in_liq {
                    let k = choose|k: int|
                        0 <= k < self.liquidating_loans@.len() && self.liquidating_loans@[k]
                            == loan.id;
                    if k >= s0.liquidating_loans@.len() {
                        let j2 = choose|j2: int|
                            0 <= j2 < i && #[trigger] self.liquidating_loans@[k] == s0.loans@[
                            j2].id;
                        assert(0 <= j2 < i && self.liquidating_loans@[k] == s0.loans@[j2].id);
                        assert(s0.loans@[j2].id == s0.loans@[i as int].id);
                        assert(unique_ids(s0.loans@));
                        assert(false);
                    }
                    assert(s0.liquidating_loans@.subrange(
                        0,
                        s0.liquidating_loans@.len() as int,
                    ) =~= s0.liquidating_loans@);
                    assert(s0.liquidating_loans@[k] == loan.id);
                    assert(s0.liquidating_loans@.contains(loan.id));
                } else {
                    if s0.liquidating_loans@.contains(loan.id) {
                        let k = choose|k: int|
                            0 <= k < s0.liquidating_loans@.len() && s0.liquidating_loans@[k]
                                == loan.id;
                        assert(self.liquidating_loans@[k] == loan.id);
                        assert(false);
                    }
                }
            }
            if !in_liq {
                let mut skip = loan.collateral_balance_available == 0;
                let mut computable = false;
                if !skip {
                    match (loan.collateral_balance_available as u128).checked_mul(btc_price) {
                        None => {
                            skip = true;
                        },
                        Some(den) => {
                            proof {
                                vstd::arithmetic::mul::lemma_mul_strictly_positive(
                                    loan.collateral_balance_available as int,
                                    btc_price as int,
                                );
                            }
                            let num: u128 = ltv_numerator(loan.loan_balance_total);
                            if num / den > u64::MAX as u128 {
                                skip = true;
                            } else {
                                computable = true;
                            }
                        },
                    }
                }
                proof {
                    assert(computable == sweep_computable(l0, s0.btc_price));
                }
                if computable {
                    let health = Self::check_loan_health(
                        &loan,
                        now,
                        btc_price,
                        liquidation_thd,
                        warning_thd,
                    );
                    match health {
                        LoanHealth::Well => {},
                        LoanHealth::Warning(ltv) => {
                            let new_status = LoanHealth::Warning(ltv);
                            if !(loan.status == new_status) {
                                let ghost loans0 = self.loans@;
                                let loan2 = Loan { status: new_status, ..loan };
                                self.loans.remove(i);
                                self.loans.insert(i, loan2);
                                self.events.push(Event::Warning(loan.id, ltv));
                                proof {
                                    assert(self.loans@ =~= loans0.update(i as int, loan2));
                                    lemma_sum_loans_update(loans0, i as int, loan2);
                                    assert(unique_ids(self.loans@));
                                    assert forall|k: int|
                                        0 <= k < self.liquidating_loans@.len() implies has_loan(
                                        self.loans@,
                                        #[trigger] self.liquidating_loans@[k],
                                    ) && loan_of(
                                        self.loans@,
                                        self.liquidating_loans@[k],
                                    ).status is Liquidating by {
                                        let id = self.liquidating_loans@[k];
                                        let j = loan_index(loans0, id);
                                        assert(0 <= j < loans0.len() && loans0[j].id == id);
                                        assert(self.liquidating_loans@.contains(id));
                                        assert(j != i as int);
                                        assert(self.loans@[j] == loans0[j]);
                                        lemma_loan_at(self.loans@, j);
                                    }
                                }
                            }
                        },
                        LoanHealth::Liquidating(l) => {
                            let ghost loans_a = self.loans@;
                            let ghost liq_a = self.liquidating_loans@;
                            proof {
                                lemma_loan_at(self.loans@, i as int);
                            }
                            self.liquidate_loan(loan.id, l);
                            self.events.push(
                                Event::Liquidating(
                                    loan.id,
                                    loan.who,
                                    loan.collateral_balance_available,
                                    loan.loan_balance_total,
                                ),
                            );
                            proof {
                                assert(self.loans@ == loans_a.update(
                                    i as int,
                                    (Loan {
                                        status: LoanHealth::Liquidating(l),
                                        ..loans_a[i as int]
                                    }),
                                ));
                                assert forall|k: int|
                                    s0.liquidating_loans@.len() <= k
                                        < self.liquidating_loans@.len() implies exists|j2: int|
                                    0 <= j2 < i + 1 && #[trigger] self.liquidating_loans@[k]
                                        == s0.loans@[j2].id by {
                                    if k < self.liquidating_loans@.len() - 1 {
                                        assert(self.liquidating_loans@[k] == liq_a[k]);
                                        let j2 = choose|j2: int|
                                            0 <= j2 < i && #[trigger] liq_a[k] == s0.loans@[
                                            j2].id;
                                        assert(0 <= j2 < i + 1 && self.liquidating_loans@[k]
                                            == s0.loans@[j2].id);
                                    } else {
                                        assert(self.liquidating_loans@[k] == loan.id);
                                        assert(loan.id == s0.loans@[i as int].id);
                                    }
                                }
                            }
                        },
                    }
                }
            }
            proof {
                assert(sweep_events(s0, i as int + 1) =~= sweep_events(s0, i as int)
                    + sweep_loan_events(s0, s0.loans@[i as int]));
                assert(self.events@ =~= s0.events@ + sweep_events(s0, i as int + 1));
            }
            i += 1;
        }
    }
}

/// Penalty cut from a settlement surplus, in `LTV_PREC` units.
pub open spec fn penalty_of(leftover: int, rate: int) -> int {
    leftover * rate / (LTV_PREC as int)
}

impl LoanEngine {
    /// The checks `mark_loan_liquidated` runs before any transfer.
    pub open spec fn mark_precheck(
        self,
        l0: Ledger,
        loan_id: LoanId,
        liquidation_account: AccountId,
        auction_balance: Balance,
    ) -> Option<Error> {
        if !has_loan(self.loans@, loan_id) {
            Some(Error::LoanNotFound)
        } else if !self.liquidating_loans@.contains(loan_id) {
            Some(Error::LoanNotInLiquidation)
        } else if l0.balance(self.config.loan_asset_id, liquidation_account) < auction_balance {
            Some(Error::InsufficientBalance)
        } else {
            None
        }
    }

    /// The settled loan left the registry, the owner index, the
    /// liquidating set and the aggregates, and the settlement was notified.
    pub open spec fn mark_discharged(self, post: LoanEngine, loan_id: LoanId, auction_balance: Balance) -> bool {
        let i = loan_index(self.loans@, loan_id);
        let loan = self.loans@[i];
        &&& post.loans@ == self.loans@.remove(i)
        &&& owner_ids(post.loans_by_account@, loan.who) == remove_id(
            owner_ids(self.loans_by_account@, loan.who),
            loan_id,
        )
        &&& forall|w: AccountId|
            w != loan.who ==> owner_ids(post.loans_by_account@, w) == owner_ids(
                self.loans_by_account@,
                w,
            )
        &&& post.liquidating_loans@ == remove_id(self.liquidating_loans@, loan_id)
        &&& post.total_loan == self.total_loan - loan.loan_balance_total
        &&& post.total_collateral == self.total_collateral - loan.collateral_balance_available
        &&& post.next_loan_id == self.next_loan_id
        &&& post.same_aux(self)
        &&& post.events@ == self.events@.push(
            Event::Liquidated(
                loan.id,
                loan.collateral_balance_original,
                loan.collateral_balance_available,
                auction_balance,
                loan.loan_balance_total,
            ),
        )
    }

    /// The transfers of a successful settlement: principal to the pool;
    /// with a surplus also the penalty to the profit pool and the residual
    /// to the borrower.
    pub open spec fn mark_success_ledger(
        self,
        l0: Ledger,
        l1: Ledger,
        loan_id: LoanId,
        liquidation_account: AccountId,
        auction_balance: Balance,
    ) -> bool {
        let loan = loan_of(self.loans@, loan_id);
        let leftover = auction_balance - loan.loan_balance_total;
        let penalty = penalty_of(leftover, self.config.liquidation_penalty as int);
        if leftover > 0 {
            &&& l1.calls() == l0.calls() + 3
            &&& l1.denied_schedule() == l0.denied_schedule()
            &&& exists|la: Ledger, lb: Ledger|
                transfer_post(
                    l0,
                    la,
                    self.config.loan_asset_id,
                    liquidation_account,
                    self.config.pawn_shop,
                    loan.loan_balance_total,
                ) && #[trigger] transfer_post(
                    la,
                    lb,
                    self.config.loan_asset_id,
                    liquidation_account,
                    self.config.profit_pool,
                    penalty as Balance,
                ) && transfer_post(
                    lb,
                    l1,
                    self.config.loan_asset_id,
                    liquidation_account,
                    loan.who,
                    (leftover - penalty) as Balance,
                )
        } else {
            transfer_post(
                l0,
                l1,
                self.config.loan_asset_id,
                liquidation_account,
                self.config.pawn_shop,
                loan.loan_balance_total,
            )
        }
    }

    /// What the ledger looks like after a failed settlement: every
    /// completed transfer was compensated in reverse order as far as the
    /// compensating transfers themselves went through.
    pub open spec fn mark_failed_ledger(
        self,
        l0: Ledger,
        l1: Ledger,
        loan_id: LoanId,
        liquidation_account: AccountId,
        auction_balance: Balance,
    ) -> bool {
        let loan = loan_of(self.loans@, loan_id);
        &&& l1.denied_schedule() == l0.denied_schedule()
        &&& {
            ||| (l1.calls() == l0.calls() + 1 && same_balances(l0, l1))
            ||| (l1.calls() == l0.calls() + 3 && same_balances(l0, l1))
            ||| (l1.calls() == l0.calls() + 3 && l0.denies((l0.calls() + 2) as u64) && exists|
                la: Ledger,
            |
                #[trigger] transfer_post(
                    l0,
                    la,
                    self.config.loan_asset_id,
                    liquidation_account,
                    self.config.pawn_shop,
                    loan.loan_balance_total,
                ) && same_balances(la, l1))
            ||| (l1.calls() == l0.calls() + 5 && same_balances(l0, l1))
            ||| (l1.calls() == l0.calls() + 5 && l0.denies((l0.calls() + 4) as u64) && exists|
                la: Ledger,
            |
                #[trigger] transfer_post(
                    l0,
                    la,
                    self.config.loan_asset_id,
                    liquidation_account,
                    self.config.pawn_shop,
                    loan.loan_balance_total,
                ) && same_balances(la, l1))
            ||| (l1.calls() == l0.calls() + 4 && l0.denies((l0.calls() + 3) as u64) && exists|
                la: Ledger,
                lb: Ledger,
            |
                transfer_post(
                    l0,
                    la,
                    self.config.loan_asset_id,
                    liquidation_account,
                    self.config.pawn_shop,
                    loan.loan_balance_total,
                ) && #[trigger] transfer_post(
                    la,
                    lb,
                    self.config.loan_asset_id,
                    liquidation_account,
                    self.config.profit_pool,
                    penalty_of(
                        auction_balance - loan.loan_balance_total,
                        self.config.liquidation_penalty as int,
                    ) as Balance,
                ) && same_balances(lb, l1))
        }
    }

    /// The ledger conditions under which a settlement cannot fail.
    pub open spec fn mark_undisturbed(
        self,
        l0: Ledger,
        loan_id: LoanId,
        liquidation_account: AccountId,
        auction_balance: Balance,
    ) -> bool {
        let loan = loan_of(self.loans@, loan_id);
        &&& liquidation_account != self.config.pawn_shop
        &&& liquidation_account != self.config.profit_pool
        &&& liquidation_account != loan.who
        &&& loan.who != self.config.pawn_shop
        &&& loan.who != self.config.profit_pool
        &&& self.config.pawn_shop != self.config.profit_pool
        &&& !l0.denies(l0.calls())
        &&& !l0.denies((l0.calls() + 1) as u64)
        &&& !l0.denies((l0.calls() + 2) as u64)
        &&& l0.balance(self.config.loan_asset_id, liquidation_account)
            >= loan.loan_balance_total
        &&& l0.balance(self.config.loan_asset_id, self.config.pawn_shop)
            + loan.loan_balance_total <= u64::MAX
        &&& l0.balance(self.config.loan_asset_id, self.config.pawn_shop) + auction_balance
            <= u64::MAX
        &&& l0.balance(self.config.loan_asset_id, self.config.profit_pool) + auction_balance
            <= u64::MAX
        &&& l0.balance(self.config.loan_asset_id, loan.who) + auction_balance <= u64::MAX
    }

    /// Settle a liquidating loan: the settlement agent discharges the
    /// principal to the custodial pool; of any surplus of the auction a
    /// penalty goes to the profit pool and the rest back to the borrower;
    /// then the loan leaves the registry, the owner index and the
    /// liquidating set.  On a failed transfer every completed one is
    /// compensated in reverse order before the error is surfaced.
    pub fn mark_loan_liquidated(
        &mut self,
        ledger: &mut Ledger,
        loan_id: LoanId,
        liquidation_account: AccountId,
        auction_balance: Balance,
    ) -> (r: LoanResult<()>)
        requires
            old(self).wf(),
            old(ledger).calls() + 5 <= u64::MAX,
        ensures
            final(self).wf(),
            old(self).mark_precheck(*old(ledger), loan_id, liquidation_account, auction_balance)
                matches Some(e) ==> r == LoanResult::<()>::Err(e) && *final(self) == *old(self)
                && *final(ledger) == *old(ledger),
            old(self).mark_precheck(*old(ledger), loan_id, liquidation_account, auction_balance)
                is None ==> {
                ||| (r is Ok && old(self).mark_discharged(*final(self), loan_id, auction_balance)
                    && old(self).mark_success_ledger(
                    *old(ledger),
                    *final(ledger),
                    loan_id,
                    liquidation_account,
                    auction_balance,
                ))
                ||| (r == LoanResult::<()>::Err(Error::InsufficientBalance) && *final(self)
                    == *old(self) && old(self).mark_failed_ledger(
                    *old(ledger),
                    *final(ledger),
                    loan_id,
                    liquidation_account,
                    auction_balance,
                ))
            },
            old(self).mark_precheck(*old(ledger), loan_id, liquidation_account, auction_balance)
                is None && old(self).mark_undisturbed(
                *old(ledger),
                loan_id,
                liquidation_account,
                auction_balance,
            ) ==> r is Ok,
    {
        let ghost s0 = *self;
        let ghost l0 = *ledger;
        let loan_asset_id = self.config.loan_asset_id;
        let pawnshop = self.config.pawn_shop;
        let profit_pool = self.config.profit_pool;

        let i = match self.find_loan(loan_id) {
            None => {
                return Err(Error::LoanNotFound);
            },
            Some(i) => i,
        };
        let loan = self.loans[i];
        proof {
            lemma_loan_at(s0.loans@, i as int);
        }
        if !self.check_loan_in_liquidation(&loan_id) {
            return Err(Error::LoanNotInLiquidation);
        }
        if ledger.balance_of(loan_asset_id, liquidation_account) < auction_balance {
            return Err(Error::InsufficientBalance);
        }

        if !ledger.transfer(loan_asset_id, liquidation_account, pawnshop, loan.loan_balance_total)
         {
            proof {
                if s0.mark_undisturbed(l0, loan_id, liquidation_account, auction_balance) {
                    assert(l0.can_transfer(
                        loan_asset_id,
                        liquidation_account,
                        pawnshop,
                        loan.loan_balance_total,
                    ));
                    assert(false);
                }
            }
            return Err(Error::InsufficientBalance);
        }
        let ghost l1 = *ledger;

        if auction_balance > loan.loan_balance_total {
            let leftover = auction_balance - loan.loan_balance_total;
            proof {
                lemma_penalty_le_leftover(
                    leftover as int,
                    self.config.liquidation_penalty as int,
                );
            }
            let penalty = (leftover as u128 * self.config.liquidation_penalty as u128 / (
            LTV_PREC as u128)) as u64;

            if !ledger.transfer(loan_asset_id, liquidation_account, profit_pool, penalty) {
                proof {
                    if s0.mark_undisturbed(l0, loan_id, liquidation_account, auction_balance) {
                        assert(l1.balance(loan_asset_id, liquidation_account) == l0.balance(
                            loan_asset_id,
                            liquidation_account,
                        ) - loan.loan_balance_total);
                        assert(l1.balance(loan_asset_id, profit_pool) == l0.balance(
                            loan_asset_id,
                            profit_pool,
                        ));
                        assert(!l1.denies(l1.calls()));
                        assert(l1.can_transfer(
                            loan_asset_id,
                            liquidation_account,
                            profit_pool,
                            penalty,
                        ));
                        assert(false);
                    }
                }
                let compensated = ledger.transfer(
                    loan_asset_id,
                    pawnshop,
                    liquidation_account,
                    loan.loan_balance_total,
                );
                proof {
                    if compensated {
                        assert(same_balances(l0, *ledger));
                    } else {
                        // the pool received the principal and the agent has
                        // room for it back: only the schedule can refuse the
                        // compensating transfer
                        if liquidation_account != pawnshop {
                            assert(l1.balance(loan_asset_id, pawnshop) == l0.balance(
                                loan_asset_id,
                                pawnshop,
                            ) + loan.loan_balance_total);
                            assert(l1.balance(loan_asset_id, liquidation_account)
                                + loan.loan_balance_total == l0.balance(
                                loan_asset_id,
                                liquidation_account,
                            ));
                        }
                        assert(l0.denies((l0.calls() + 2) as u64));
                        assert(transfer_post(
                            l0,
                            l1,
                            loan_asset_id,
                            liquidation_account,
                            pawnshop,
                            loan.loan_balance_total,
                        ));
                        assert(same_balances(l1, *ledger));
                    }
                }
                return Err(Error::InsufficientBalance);
            }
            let ghost l2 = *ledger;

            if !ledger.transfer(loan_asset_id, liquidation_account, loan.who, leftover - penalty)
             {
                proof {
                    if s0.mark_undisturbed(l0, loan_id, liquidation_account, auction_balance) {
                        assert(l2.balance(loan_asset_id, liquidation_account) == l0.balance(
                            loan_asset_id,
                            liquidation_account,
                        ) - loan.loan_balance_total - penalty);
                        assert(l2.balance(loan_asset_id, loan.who) == l0.balance(
                            loan_asset_id,
                            loan.who,
                        ));
                        assert(!l2.denies(l2.calls()));
                        assert(l2.can_transfer(
                            loan_asset_id,
                            liquidation_account,
                            loan.who,
                            (leftover - penalty) as Balance,
                        ));
                        assert(false);
                    }
                }
                let compensated2 = ledger.transfer(
                    loan_asset_id,
                    profit_pool,
                    liquidation_account,
                    penalty,
                );
                if !compensated2 {
                    proof {
                        // the profit pool holds the penalty and the agent has
                        // room for it back: only the schedule can refuse
                        if liquidation_account != profit_pool {
                            assert(l2.balance(loan_asset_id, profit_pool) >= penalty);
                            assert(l2.balance(loan_asset_id, liquidation_account)
                                + penalty <= u64::MAX);
                        }
                        assert(l0.denies((l0.calls() + 3) as u64));
                        assert(transfer_post(
                            l0,
                            l1,
                            loan_asset_id,
                            liquidation_account,
                            pawnshop,
                            loan.loan_balance_total,
                        ) && transfer_post(
                            l1,
                            l2,
                            loan_asset_id,
                            liquidation_account,
                            profit_pool,
                            penalty,
                        ));
                        assert(same_balances(l2, *ledger));
                        assert(penalty as int == penalty_of(
                            auction_balance - loan.loan_balance_total,
                            s0.config.liquidation_penalty as int,
                        ));
                    }
                    return Err(Error::InsufficientBalance);
                }
                let compensated1 = ledger.transfer(
                    loan_asset_id,
                    pawnshop,
                    liquidation_account,
                    loan.loan_balance_total,
                );
                proof {
                    if compensated1 {
                        assert(same_balances(l0, *ledger));
                    } else {
                        // the pool still holds the principal and the agent has
                        // room for it back: only the schedule can refuse
                        let ghost lc = *ledger;
                        if liquidation_account != pawnshop {
                            assert(lc.balance(loan_asset_id, pawnshop)
                                >= loan.loan_balance_total);
                            assert(lc.balance(loan_asset_id, liquidation_account)
                                + loan.loan_balance_total <= u64::MAX);
                        }
                        assert(l0.denies((l0.calls() + 4) as u64));
                        assert(transfer_post(
                            l0,
                            l1,
                            loan_asset_id,
                            liquidation_account,
                            pawnshop,
                            loan.loan_balance_total,
                        ));
                        assert(same_balances(l1, *ledger));
                    }
                }
                return Err(Error::InsufficientBalance);
            }
            proof {
                assert(transfer_post(
                    l0,
                    l1,
                    loan_asset_id,
                    liquidation_account,
                    pawnshop,
                    loan.loan_balance_total,
                ) && transfer_post(
                    l1,
                    l2,
                    loan_asset_id,
                    liquidation_account,
                    profit_pool,
                    penalty,
                ) && transfer_post(
                    l2,
                    *ledger,
                    loan_asset_id,
                    liquidation_account,
                    loan.who,
                    (leftover - penalty) as Balance,
                ));
            }
        }

        let ghost l_done = *ledger;
        self.loans.remove(i);
        proof {
            lemma_sum_loans_remove(s0.loans@, i as int);
            crate::engine::lemma_sum_loans_bound(s0.loans@, i as int);
        }
        let ghost idx0 = self.loans_by_account@;
        match self.find_account_entry(loan.who) {
            Some(e) => {
                let entry = self.loans_by_account.remove(e);
                let new_ids = crate::engine::remove_id_vec(&entry.loan_ids, loan_id);
                let new_entry = AccountLoans { who: loan.who, loan_ids: new_ids };
                self.loans_by_account.insert(e, new_entry);
                proof {
                    assert(self.loans_by_account@ =~= idx0.update(
                        e as int,
                        self.loans_by_account@[e as int],
                    ));
                    lemma_owner_ids_update(idx0, e as int, self.loans_by_account@[e as int]);
                    lemma_owner_index_first(idx0, e as int);
                }
            },
            None => {
                proof {
                    lemma_owner_ids_absent(idx0, loan.who);
                    assert(remove_id(owner_ids(idx0, loan.who), loan_id) =~= owner_ids(
                        idx0,
                        loan.who,
                    ));
                }
            },
        }
        proof {
            assert forall|e: int, k: int|
                0 <= e < self.loans_by_account@.len() && 0 <= k
                    < self.loans_by_account@[e].loan_ids@.len() implies #[trigger] self
                .loans_by_account@[e].loan_ids@[k] < self.next_loan_id by {
                let x = self.loans_by_account@[e].loan_ids@[k];
                if self.loans_by_account@[e].loan_ids@ != idx0[e].loan_ids@ {
                    crate::engine::lemma_remove_id_subset(idx0[e].loan_ids@, loan_id, x);
                    let k2 = choose|k2: int|
                        0 <= k2 < idx0[e].loan_ids@.len() && idx0[e].loan_ids@[k2] == x;
                    assert(s0.loans_by_account@[e].loan_ids@[k2] == x);
                }
            }
        }
        let new_liq = crate::engine::remove_id_vec(&self.liquidating_loans, loan_id);
        self.liquidating_loans = new_liq;
        self.total_loan = self.total_loan - loan.loan_balance_total;
        self.total_collateral = self.total_collateral - loan.collateral_balance_available;
        self.events.push(
            Event::Liquidated(
                loan.id,
                loan.collateral_balance_original,
                loan.collateral_balance_available,
                auction_balance,
                loan.loan_balance_total,
            ),
        );
        proof {
            lemma_mark_discharged_wf(s0, *self, loan_id, i as int);
        }
        Ok(())
    }
}

/// The penalty never exceeds the surplus it is cut from, and fits `u64`.
proof fn lemma_penalty_le_leftover(leftover: int, rate: int)
    requires
        0 <= leftover <= u64::MAX,
        0 <= rate <= LTV_PREC,
    ensures
        0 <= penalty_of(leftover, rate) <= leftover,
{
    vstd::arithmetic::mul::lemma_mul_inequality(rate, LTV_PREC as int, leftover);
    vstd::arithmetic::mul::lemma_mul_nonnegative(leftover, rate);
    vstd::arithmetic::div_mod::lemma_div_is_ordered(
        leftover * rate,
        leftover * (LTV_PREC as int),
        LTV_PREC as int,
    );
    vstd::arithmetic::div_mod::lemma_div_multiples_vanish(leftover, LTV_PREC as int);
    vstd::arithmetic::div_mod::lemma_div_pos_is_pos(leftover * rate, LTV_PREC as int);
}

/// The settled state satisfies the engine invariant again.
proof fn lemma_mark_discharged_wf(s0: LoanEngine, s1: LoanEngine, loan_id: LoanId, i: int)
    requires
        s0.wf(),
        has_loan(s0.loans@, loan_id),
        i == loan_index(s0.loans@, loan_id),
        s1.loans@ == s0.loans@.remove(i),
        s1.liquidating_loans@ == remove_id(s0.liquidating_loans@, loan_id),
        s1.next_loan_id == s0.next_loan_id,
        s1.total_loan as int == s0.total_loan - s0.loans@[i].loan_balance_total,
        s1.total_collateral as int == s0.total_collateral
            - s0.loans@[i].collateral_balance_available,
        s1.config == s0.config,
        s1.btc_price == s0.btc_price,
        forall|e: int, k: int|
            0 <= e < s1.loans_by_account@.len() && 0 <= k
                < s1.loans_by_account@[e].loan_ids@.len()
                ==> #[trigger] s1.loans_by_account@[e].loan_ids@[k] < s1.next_loan_id,
    ensures
        s1.wf(),
{
    assert(0 <= i < s0.loans@.len() && s0.loans@[i].id == loan_id);
    lemma_sum_loans_remove(s0.loans@, i);
    assert(unique_ids(s1.loans@)) by {
        assert forall|a: int, b: int|
            0 <= a < s1.loans@.len() && 0 <= b < s1.loans@.len() && a != b implies s1.loans@[a].id
            != s1.loans@[b].id by {
            let a0 = if a < i {
                a
            } else {
                a + 1
            };
            let b0 = if b < i {
                b
            } else {
                b + 1
            };
            assert(s1.loans@[a] == s0.loans@[a0] && s1.loans@[b] == s0.loans@[b0]);
        }
    }
    assert forall|k: int|
        0 <= k < s1.liquidating_loans@.len() implies has_loan(
        s1.loans@,
        #[trigger] s1.liquidating_loans@[k],
    ) && loan_of(s1.loans@, s1.liquidating_loans@[k]).status is Liquidating by {
        let id = s1.liquidating_loans@[k];
        assert(s1.liquidating_loans@.contains(id));
        crate::engine::lemma_remove_id_subset(s0.liquidating_loans@, loan_id, id);
        crate::engine::lemma_remove_id_gone(s0.liquidating_loans@, loan_id);
        assert(id != loan_id);
        let j = loan_index(s0.loans@, id);
        assert(0 <= j < s0.loans@.len() && s0.loans@[j].id == id);
        assert(j != i);
        let j1 = if j < i {
            j
        } else {
            j - 1
        };
        assert(s1.loans@[j1] == s0.loans@[j]);
        lemma_loan_at(s1.loans@, j1);
    }
    assert forall|a: int|
        0 <= a < s1.loans@.len() implies ((#[trigger] s1.loans@[a]).status is Liquidating
        ==> s1.liquidating_loans@.contains(s1.loans@[a].id)) by {
        let a0 = if a < i {
            a
        } else {
            a + 1
        };
        assert(s1.loans@[a] == s0.loans@[a0]);
        if s0.loans@[a0].status is Liquidating {
            assert(s0.liquidating_loans@.contains(s0.loans@[a0].id));
            assert(s0.loans@[a0].id != loan_id);
            lemma_remove_id_keeps(s0.liquidating_loans@, loan_id, s0.loans@[a0].id);
        }
    }
}

} // verus!
