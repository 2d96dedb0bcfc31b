//! Lifecycle operations: loan creation, adding collateral and drawing
//! further credit.  Each operation either completes, or compensates every
//! ledger transfer it already made and leaves the registry as it found it.

use vstd::prelude::*;
use crate::types::{
    ltv_of, AccountId, Balance, CollateralLoan, Error, Event, Loan, LoanHealth, LoanId,
    LoanResult, LTV_PREC, PRICE_PREC,
};
use crate::ledger::{burn_post, mint_post, same_balances, transfer_post, Ledger};
use crate::engine::{
    can_loan_spec, has_loan, lemma_owner_ids_absent, lemma_owner_ids_push,
    lemma_owner_ids_update, lemma_sum_loans_bound, lemma_sum_loans_push, lemma_sum_loans_remove,
    lemma_sum_loans_update,
    lemma_owner_index_first, loan_index, loan_of, must_collateral_spec, owner_ids, remove_id,
    unique_ids,
    AccountLoans, LoanEngine,
};

verus! {

/// A loan id a freshly created loan gets, and the record it gets.
pub open spec fn new_loan_record(s: LoanEngine, who: AccountId, pair: CollateralLoan) -> Loan {
    Loan {
        id: s.next_loan_id,
        who,
        collateral_balance_original: pair.collateral_amount,
        collateral_balance_available: pair.collateral_amount,
        loan_balance_total: pair.loan_amount,
        status: LoanHealth::Well,
    }
}

impl LoanEngine {
    /// Whether the configured loan cap exists and is already met.
    pub open spec fn cap_reached(self) -> bool {
        match self.config.loan_cap {
            Some(cap) => self.total_loan >= cap,
            None => false,
        }
    }

    /// The collateral/loan pair the ratio calculator yields when it does
    /// not reject (the missing side derived at the global LTV limit).
    pub open spec fn derived_pair(self, collateral_amount: Balance, loan_amount: Balance) -> CollateralLoan {
        if collateral_amount == 0 {
            CollateralLoan {
                collateral_amount: must_collateral_spec(
                    loan_amount as int,
                    self.btc_price as int,
                    self.config.global_ltv_limit as int,
                ) as Balance,
                loan_amount,
            }
        } else if loan_amount == 0 {
            CollateralLoan {
                collateral_amount,
                loan_amount: can_loan_spec(
                    collateral_amount as int,
                    self.btc_price as int,
                    self.config.global_ltv_limit as int,
                ) as Balance,
            }
        } else {
            CollateralLoan { collateral_amount, loan_amount }
        }
    }

    /// The check, in order, that `apply_for_loan` runs before any transfer;
    /// `None` means the request reaches the ledger.
    pub open spec fn apply_precheck(self, collateral_amount: Balance, loan_amount: Balance) -> Option<Error> {
        if self.cap_reached() {
            Some(Error::ReachLoanCap)
        } else if collateral_amount == 0 && loan_amount == 0 {
            Some(Error::InvalidCollateralLoanAmounts)
        } else if collateral_amount != 0 && loan_amount != 0 && ltv_of(
            collateral_amount as int,
            loan_amount as int,
            self.btc_price as int,
        ) > self.config.global_ltv_limit {
            Some(Error::OverLTVLimit)
        } else if collateral_amount < self.config.minimum_collateral {
            Some(Error::BelowMinimumCollateral)
        } else {
            None
        }
    }

    /// The ledger conditions under which a loan application cannot fail:
    /// distinct assets, a distinct custodial account, neither call denied,
    /// the collateral at hand and both receiving balances representable.
    pub open spec fn apply_undisturbed(
        self,
        l0: Ledger,
        who: AccountId,
        collateral_amount: Balance,
        loan_amount: Balance,
    ) -> bool {
        let pair = self.derived_pair(collateral_amount, loan_amount);
        &&& self.config.collateral_asset_id != self.config.loan_asset_id
        &&& who != self.config.pawn_shop
        &&& !l0.denies(l0.calls())
        &&& !l0.denies((l0.calls() + 1) as u64)
        &&& l0.balance(self.config.collateral_asset_id, who) >= pair.collateral_amount
        &&& l0.balance(self.config.collateral_asset_id, self.config.pawn_shop)
            + pair.collateral_amount <= u64::MAX
        &&& l0.balance(self.config.loan_asset_id, who) + pair.loan_amount <= u64::MAX
    }

    /// What a successful `apply_for_loan` did: the collateral moved to the
    /// custodial pool, the loan asset was minted to the owner, and the new
    /// loan stands in the registry, the owner index and the aggregates.
    pub open spec fn apply_success_post(
        self,
        post: LoanEngine,
        l0: Ledger,
        l1: Ledger,
        who: AccountId,
        collateral_amount: Balance,
        loan_amount: Balance,
    ) -> bool {
        let pair = self.derived_pair(collateral_amount, loan_amount);
        let loan = new_loan_record(self, who, pair);
        &&& post.loans@ == self.loans@.push(loan)
        &&& owner_ids(post.loans_by_account@, who) == owner_ids(
            self.loans_by_account@,
            who,
        ).push(loan.id)
        &&& forall|w: AccountId|
            w != who ==> owner_ids(post.loans_by_account@, w) == owner_ids(
                self.loans_by_account@,
                w,
            )
        &&& post.liquidating_loans@ == self.liquidating_loans@
        &&& post.total_loan == self.total_loan + pair.loan_amount
        &&& post.total_collateral == self.total_collateral + pair.collateral_amount
        &&& post.next_loan_id == self.next_loan_id + 1
        &&& post.same_aux(self)
        &&& post.events@ == self.events@.push(Event::LoanCreated(loan))
        &&& exists|mid: Ledger|
            #[trigger] transfer_post(
                l0,
                mid,
                self.config.collateral_asset_id,
                who,
                self.config.pawn_shop,
                pair.collateral_amount,
            ) && mint_post(mid, l1, self.config.loan_asset_id, who, pair.loan_amount)
    }

    /// Everything `apply_for_loan` promises, also quoted by the dispatch
    /// operation that gates it: each precheck error with state untouched,
    /// success owed when the ledger cooperates, and on the transfer path
    /// either the full success state or a fully enumerated compensation.
    pub open spec fn apply_post(
        self,
        post: LoanEngine,
        l0: Ledger,
        l1: Ledger,
        who: AccountId,
        collateral_amount: Balance,
        loan_amount: Balance,
        r: LoanResult<()>,
    ) -> bool {
        &&& (self.apply_precheck(collateral_amount, loan_amount) matches Some(e) ==> r
            == LoanResult::<()>::Err(e) && post == self && l1 == l0)
        &&& (self.apply_precheck(collateral_amount, loan_amount) is None
            && self.apply_undisturbed(l0, who, collateral_amount, loan_amount) ==> r is Ok)
        &&& (self.apply_precheck(collateral_amount, loan_amount) is None ==> {
            let pair = self.derived_pair(collateral_amount, loan_amount);
            ||| (r is Ok && self.apply_success_post(
                post,
                l0,
                l1,
                who,
                collateral_amount,
                loan_amount,
            ))
            ||| (r == LoanResult::<()>::Err(Error::InsufficientBalance) && post == self
                && !l0.can_transfer(
                self.config.collateral_asset_id,
                who,
                self.config.pawn_shop,
                pair.collateral_amount,
            ) && same_balances(l0, l1) && l1.calls() == l0.calls() + 1 && l1.denied_schedule()
                == l0.denied_schedule())
            ||| (r == LoanResult::<()>::Err(Error::InsufficientBalance) && post == (LoanEngine {
                next_loan_id: (self.next_loan_id + 1) as LoanId,
                ..self
            }) && same_balances(l0, l1) && l1.calls() == l0.calls() + 3 && l1.denied_schedule()
                == l0.denied_schedule())
            ||| (r == LoanResult::<()>::Err(Error::InsufficientBalance) && post == (LoanEngine {
                next_loan_id: (self.next_loan_id + 1) as LoanId,
                ..self
            }) && l0.denies((l0.calls() + 2) as u64) && (exists|mid: Ledger|
                #[trigger] transfer_post(
                    l0,
                    mid,
                    self.config.collateral_asset_id,
                    who,
                    self.config.pawn_shop,
                    pair.collateral_amount,
                ) && same_balances(mid, l1)) && l1.calls() == l0.calls() + 3
                && l1.denied_schedule() == l0.denied_schedule())
        })
    }

    /// Create a loan: derive the actual pair, move the collateral to the
    /// custodial pool, mint the loan asset to the owner.  If the mint
    /// fails, the collateral transfer is reversed before the error is
    /// surfaced: no residual registry or balance change on that path.
    ///
    /// Note that a derived loan amount may truncate to zero (a small
    /// collateral against the precision scales), in which case a loan
    /// with zero debt is registered; no rule here rejects it.
    pub fn apply_for_loan(
        &mut self,
        ledger: &mut Ledger,
        who: AccountId,
        collateral_amount: Balance,
        loan_amount: Balance,
    ) -> (r: LoanResult<()>)
        requires
            old(self).wf(),
            old(ledger).calls() + 3 <= u64::MAX,
            old(self).ratio_fits(collateral_amount, loan_amount),
            old(self).next_loan_id < u64::MAX,
            old(self).apply_precheck(collateral_amount, loan_amount) is None ==> old(self).total_loan + old(self).derived_pair(collateral_amount, loan_amount).loan_amount
                <= u64::MAX,
            old(self).apply_precheck(collateral_amount, loan_amount) is None ==> old(self).total_collateral + old(self).derived_pair(
                collateral_amount,
                loan_amount,
            ).collateral_amount <= u64::MAX,
        ensures
            final(self).wf(),
            old(self).apply_post(
                *final(self),
                *old(ledger),
                *final(ledger),
                who,
                collateral_amount,
                loan_amount,
                r,
            ),
    {
        let ghost s0 = *self;
        let ghost l0 = *ledger;
        let shop = self.config.pawn_shop;
        let loan_asset_id = self.config.loan_asset_id;
        let collateral_asset_id = self.config.collateral_asset_id;

        match self.config.loan_cap {
            Some(cap) => {
                if self.total_loan >= cap {
                    return Err(Error::ReachLoanCap);
                }
            },
            None => {},
        }

        let pair = match self.get_collateral_loan(collateral_amount, loan_amount) {
            Err(e) => {
                return Err(e);
            },
            Ok(p) => p,
        };
        let actual_collateral_amount = pair.collateral_amount;
        let actual_loan_amount = pair.loan_amount;

        if collateral_amount < self.config.minimum_collateral {
            return Err(Error::BelowMinimumCollateral);
        }
        proof {
            assert(s0.apply_precheck(collateral_amount, loan_amount) is None);
            assert(pair == s0.derived_pair(collateral_amount, loan_amount));
        }

        if !ledger.transfer(collateral_asset_id, who, shop, actual_collateral_amount) {
            proof {
                if s0.apply_undisturbed(l0, who, collateral_amount, loan_amount) {
                    assert(l0.can_transfer(
                        collateral_asset_id,
                        who,
                        shop,
                        actual_collateral_amount,
                    ));
                    assert(false);
                }
            }
            return Err(Error::InsufficientBalance);
        }
        let ghost l1 = *ledger;

        let loan_id = self.get_next_loan_id();
        let loan = Loan {
            id: loan_id,
            who,
            collateral_balance_original: actual_collateral_amount,
            collateral_balance_available: actual_collateral_amount,
            loan_balance_total: actual_loan_amount,
            status: LoanHealth::Well,
        };

        if !ledger.mint(loan_asset_id, who, actual_loan_amount) {
            let compensated = ledger.transfer(
                collateral_asset_id,
                shop,
                who,
                actual_collateral_amount,
            );
            proof {
                if s0.apply_undisturbed(l0, who, collateral_amount, loan_amount) {
                    assert(l1.balance(loan_asset_id, who) == l0.balance(loan_asset_id, who));
                    assert(!l1.denies(l1.calls()));
                    assert(l1.can_mint(loan_asset_id, who, actual_loan_amount));
                    assert(false);
                }
                if compensated {
                    assert(same_balances(l0, *ledger));
                } else {
                    // after the forward transfer, the pool holds the amount and
                    // the owner's balance has room for it back: the compensating
                    // transfer can only have been refused by the schedule
                    if who != shop {
                        assert(l1.balance(collateral_asset_id, shop) == l0.balance(
                            collateral_asset_id,
                            shop,
                        ) + actual_collateral_amount);
                        assert(l1.balance(collateral_asset_id, who) + actual_collateral_amount
                            == l0.balance(collateral_asset_id, who));
                    }
                    assert(l0.denies((l0.calls() + 2) as u64));
                    assert(transfer_post(
                        l0,
                        l1,
                        collateral_asset_id,
                        who,
                        shop,
                        actual_collateral_amount,
                    ));
                    assert(same_balances(l1, *ledger));
                }
            }
            return Err(Error::InsufficientBalance);
        }

        self.loans.push(loan);
        let ghost loans1 = self.loans@;
        proof {
            lemma_sum_loans_push(s0.loans@, loan);
        }

        match self.find_account_entry(who) {
            Some(i) => {
                let ghost idx0 = self.loans_by_account@;
                let entry = self.loans_by_account.remove(i);
                let mut ids = entry.loan_ids;
                ids.push(loan_id);
                let new_entry = AccountLoans { who, loan_ids: ids };
                self.loans_by_account.insert(i, new_entry);
                proof {
                    assert(self.loans_by_account@ =~= idx0.update(
                        i as int,
                        self.loans_by_account@[i as int],
                    ));
                    lemma_owner_ids_update(idx0, i as int, self.loans_by_account@[i as int]);
                    assert(self.loans_by_account@[i as int].loan_ids@ =~= owner_ids(
                        idx0,
                        who,
                    ).push(loan_id)) by {
                        assert(owner_ids(idx0, who) == idx0[i as int].loan_ids@) by {
                            lemma_owner_index_first(idx0, i as int);
                        }
                    }
                }
            },
            None => {
                let mut ids: Vec<LoanId> = Vec::new();
                ids.push(loan_id);
                let new_entry = AccountLoans { who, loan_ids: ids };
                self.loans_by_account.push(new_entry);
                proof {
                    let idx0 = s0.loans_by_account@;
                    lemma_owner_ids_push(idx0, self.loans_by_account@.last());
                    lemma_owner_ids_absent(idx0, who);
                    assert(self.loans_by_account@ =~= idx0.push(self.loans_by_account@.last()));
                    assert(self.loans_by_account@.last().loan_ids@ =~= owner_ids(
                        idx0,
                        who,
                    ).push(loan_id));
                }
            },
        }

        self.total_loan = self.total_loan + actual_loan_amount;
        self.total_collateral = self.total_collateral + actual_collateral_amount;
        self.events.push(Event::LoanCreated(loan));

        proof {
            let s1 = *self;
            assert forall|k: int|
                0 <= k < s1.liquidating_loans@.len() implies has_loan(
                s1.loans@,
                #[trigger] s1.liquidating_loans@[k],
            ) && loan_of(s1.loans@, s1.liquidating_loans@[k]).status is Liquidating by {
                let id = s1.liquidating_loans@[k];
                let j = loan_index(s0.loans@, id);
                assert(0 <= j < s0.loans@.len() && s0.loans@[j].id == id);
                assert(s1.loans@[j] == s0.loans@[j]);
                crate::engine::lemma_loan_at(s1.loans@, j);
            }
            assert(transfer_post(l0, l1, collateral_asset_id, who, shop, actual_collateral_amount));
            assert(mint_post(l1, *ledger, loan_asset_id, who, actual_loan_amount));
            assert(s0.apply_success_post(
                s1,
                l0,
                *ledger,
                who,
                collateral_amount,
                loan_amount,
            ));
        }
        Ok(())
    }

    /// The checks `add_loan_collateral` runs before the transfer.
    pub open spec fn add_collateral_precheck(
        self,
        l0: Ledger,
        loan_id: LoanId,
        from: AccountId,
        amount: Balance,
    ) -> Option<Error> {
        if !has_loan(self.loans@, loan_id) {
            Some(Error::LoanNotFound)
        } else if l0.balance(self.config.collateral_asset_id, from) < amount {
            Some(Error::InsufficientBalance)
        } else {
            None
        }
    }

    /// What a successful `add_loan_collateral` did.
    pub open spec fn add_collateral_success_post(
        self,
        post: LoanEngine,
        l0: Ledger,
        l1: Ledger,
        loan_id: LoanId,
        from: AccountId,
        amount: Balance,
    ) -> bool {
        let i = loan_index(self.loans@, loan_id);
        let loan = self.loans@[i];
        let loan2 = Loan {
            collateral_balance_original: (loan.collateral_balance_original + amount) as Balance,
            collateral_balance_available: (loan.collateral_balance_available + amount) as Balance,
            ..loan
        };
        &&& post.loans@ == self.loans@.update(i, loan2)
        &&& forall|w: AccountId|
            owner_ids(post.loans_by_account@, w) == owner_ids(self.loans_by_account@, w)
        &&& post.liquidating_loans@ == self.liquidating_loans@
        &&& post.total_loan == self.total_loan
        &&& post.total_collateral == self.total_collateral + amount
        &&& post.next_loan_id == self.next_loan_id
        &&& post.same_aux(self)
        &&& post.events@ == self.events@.push(Event::AddCollateral(loan_id, amount))
        &&& transfer_post(
            l0,
            l1,
            self.config.collateral_asset_id,
            from,
            self.config.pawn_shop,
            amount,
        )
    }

    /// Everything `add_loan_collateral` promises, also quoted by the
    /// dispatch operation that gates it: success exactly when the checks
    /// pass and the single transfer goes through.
    pub open spec fn add_collateral_post(
        self,
        post: LoanEngine,
        l0: Ledger,
        l1: Ledger,
        loan_id: LoanId,
        from: AccountId,
        amount: Balance,
        r: LoanResult<()>,
    ) -> bool {
        &&& (self.add_collateral_precheck(l0, loan_id, from, amount) matches Some(e) ==> r
            == LoanResult::<()>::Err(e) && post == self && l1 == l0)
        &&& (self.add_collateral_precheck(l0, loan_id, from, amount) is None ==> {
            ||| (r is Ok && self.add_collateral_success_post(post, l0, l1, loan_id, from, amount))
            ||| (r == LoanResult::<()>::Err(Error::InsufficientBalance) && !l0.can_transfer(
                self.config.collateral_asset_id,
                from,
                self.config.pawn_shop,
                amount,
            ) && post == self && same_balances(l0, l1) && l1.calls() == l0.calls() + 1
                && l1.denied_schedule() == l0.denied_schedule())
        })
    }

    /// Add collateral to a loan: one transfer from `from` to the custodial
    /// pool, then both collateral balances and the collateral aggregate
    /// rise by `amount`.  A single transfer needs no compensation.
    pub fn add_loan_collateral(
        &mut self,
        ledger: &mut Ledger,
        loan_id: LoanId,
        from: AccountId,
        amount: Balance,
    ) -> (r: LoanResult<()>)
        requires
            old(self).wf(),
            old(ledger).calls() < u64::MAX,
            has_loan(old(self).loans@, loan_id) ==> loan_of(
                old(self).loans@,
                loan_id,
            ).collateral_balance_original + amount <= u64::MAX && old(self).total_collateral
                + amount <= u64::MAX,
        ensures
            final(self).wf(),
            old(self).add_collateral_post(
                *final(self),
                *old(ledger),
                *final(ledger),
                loan_id,
                from,
                amount,
                r,
            ),
    {
        let ghost s0 = *self;
        let ghost l0 = *ledger;
        let pawnshop = self.config.pawn_shop;
        let collateral_asset_id = self.config.collateral_asset_id;

        let i = match self.find_loan(loan_id) {
            None => {
                return Err(Error::LoanNotFound);
            },
            Some(i) => i,
        };
        let loan = self.loans[i];
        proof {
            crate::engine::lemma_loan_at(s0.loans@, i as int);
        }

        if ledger.balance_of(collateral_asset_id, from) < amount {
            return Err(Error::InsufficientBalance);
        }

        if !ledger.transfer(collateral_asset_id, from, pawnshop, amount) {
            return Err(Error::InsufficientBalance);
        }

        let loan2 = Loan {
            collateral_balance_original: loan.collateral_balance_original + amount,
            collateral_balance_available: loan.collateral_balance_available + amount,
            ..loan
        };
        let ghost loans0 = self.loans@;
        self.loans.remove(i);
        self.loans.insert(i, loan2);
        proof {
            assert(self.loans@ =~= loans0.update(i as int, loan2));
            lemma_sum_loans_update(loans0, i as int, loan2);
        }
        self.total_collateral = self.total_collateral + amount;
        self.events.push(Event::AddCollateral(loan_id, amount));

        proof {
            let s1 = *self;
            assert(unique_ids(s1.loans@));
            assert forall|k: int|
                0 <= k < s1.liquidating_loans@.len() implies has_loan(
                s1.loans@,
                #[trigger] s1.liquidating_loans@[k],
            ) && loan_of(s1.loans@, s1.liquidating_loans@[k]).status is Liquidating by {
                let id = s1.liquidating_loans@[k];
                let j = loan_index(s0.loans@, id);
                assert(0 <= j < s0.loans@.len() && s0.loans@[j].id == id);
                assert(s1.loans@[j].id == id && s1.loans@[j].status == s0.loans@[j].status);
                crate::engine::lemma_loan_at(s1.loans@, j);
            }
        }
        Ok(())
    }

    /// Credit still available to a loan: what the collateral supports at
    /// the global LTV limit, less the debt already drawn.
    pub open spec fn loan_capacity(self, loan: Loan) -> int {
        loan.collateral_balance_available * self.btc_price * self.config.global_ltv_limit / (
        LTV_PREC as int) / (PRICE_PREC as int)
    }

    /// The checks `draw_from_loan` runs, in order.
    pub open spec fn draw_precheck(self, who: AccountId, loan_id: LoanId, amount: Balance) -> Option<Error> {
        if !has_loan(self.loans@, loan_id) {
            Some(Error::LoanNotFound)
        } else if loan_of(self.loans@, loan_id).who != who {
            Some(Error::NotOwner)
        } else if amount + loan_of(self.loans@, loan_id).loan_balance_total > self.loan_capacity(
            loan_of(self.loans@, loan_id),
        ) {
            Some(Error::ShortOfCredit)
        } else if loan_of(self.loans@, loan_id).loan_balance_total + amount > u64::MAX
            || self.total_loan + amount > u64::MAX {
            Some(Error::ShortOfCredit)
        } else {
            None
        }
    }

    /// What a successful `draw_from_loan` did.
    pub open spec fn draw_success_post(
        self,
        post: LoanEngine,
        loan_id: LoanId,
        amount: Balance,
    ) -> bool {
        let i = loan_index(self.loans@, loan_id);
        let loan = self.loans@[i];
        let loan2 = Loan {
            loan_balance_total: (loan.loan_balance_total + amount) as Balance,
            ..loan
        };
        &&& post.loans@ == self.loans@.update(i, loan2)
        &&& forall|w: AccountId|
            owner_ids(post.loans_by_account@, w) == owner_ids(self.loans_by_account@, w)
        &&& post.liquidating_loans@ == self.liquidating_loans@
        &&& post.total_loan == self.total_loan + amount
        &&& post.total_collateral == self.total_collateral
        &&& post.next_loan_id == self.next_loan_id
        &&& post.same_aux(self)
        &&& post.events@ == self.events@.push(Event::LoanDrawn(loan_id, amount))
    }

    /// Draw further credit from a loan: as long as the new debt stays
    /// within what the collateral supports at the global LTV limit, the
    /// recorded debt and the loan aggregate rise by `amount`.  No asset
    /// moves on this path.
    pub fn draw_from_loan(&mut self, who: AccountId, loan_id: LoanId, amount: Balance) -> (r: LoanResult<()>)
        requires
            old(self).wf(),
        ensures
            final(self).wf(),
            old(self).draw_precheck(who, loan_id, amount) matches Some(e) ==> r == LoanResult::<
                (),
            >::Err(e) && *final(self) == *old(self),
            old(self).draw_precheck(who, loan_id, amount) is None ==> r is Ok && old(self).draw_success_post(*final(self), loan_id, amount),
    {
        let ghost s0 = *self;
        let i = match self.find_loan(loan_id) {
            None => {
                return Err(Error::LoanNotFound);
            },
            Some(i) => i,
        };
        let loan = self.loans[i];
        proof {
            crate::engine::lemma_loan_at(s0.loans@, i as int);
        }
        if loan.who != who {
            return Err(Error::NotOwner);
        }

        let lbt = loan.loan_balance_total;
        let enough: bool = match (loan.collateral_balance_available as u128).checked_mul(
            self.btc_price,
        ) {
            None => {
                proof {
                    vstd::arithmetic::mul::lemma_mul_inequality(
                        1,
                        self.config.global_ltv_limit as int,
                        loan.collateral_balance_available as int * self.btc_price as int,
                    );
                    lemma_capacity_over_max(
                        loan.collateral_balance_available as int,
                        self.btc_price as int,
                        self.config.global_ltv_limit as int,
                        loan.collateral_balance_available as int * self.btc_price as int,
                    );
                }
                true
            },
            Some(cp) => {
                match cp.checked_mul(self.config.global_ltv_limit as u128) {
                    None => {
                        proof {
                            lemma_capacity_over_max(
                                loan.collateral_balance_available as int,
                                self.btc_price as int,
                                self.config.global_ltv_limit as int,
                                loan.collateral_balance_available as int * self.btc_price as int
                                    * self.config.global_ltv_limit as int,
                            );
                        }
                        true
                    },
                    Some(cp2) => {
                        let capacity = cp2 / (LTV_PREC as u128) / (PRICE_PREC as u128);
                        amount as u128 + lbt as u128 <= capacity
                    },
                }
            },
        };
        if !enough {
            return Err(Error::ShortOfCredit);
        }
        if amount > u64::MAX - lbt || amount > u64::MAX - self.total_loan {
            return Err(Error::ShortOfCredit);
        }

        let loan2 = Loan { loan_balance_total: lbt + amount, ..loan };
        let ghost loans0 = self.loans@;
        self.loans.remove(i);
        self.loans.insert(i, loan2);
        proof {
            assert(self.loans@ =~= loans0.update(i as int, loan2));
            lemma_sum_loans_update(loans0, i as int, loan2);
        }
        self.total_loan = self.total_loan + amount;
        self.events.push(Event::LoanDrawn(loan_id, amount));

        proof {
            let s1 = *self;
            assert(unique_ids(s1.loans@));
            assert forall|k: int|
                0 <= k < s1.liquidating_loans@.len() implies has_loan(
                s1.loans@,
                #[trigger] s1.liquidating_loans@[k],
            ) && loan_of(s1.loans@, s1.liquidating_loans@[k]).status is Liquidating by {
                let id = s1.liquidating_loans@[k];
                let j = loan_index(s0.loans@, id);
                assert(0 <= j < s0.loans@.len() && s0.loans@[j].id == id);
                assert(s1.loans@[j].id == id && s1.loans@[j].status == s0.loans@[j].status);
                crate::engine::lemma_loan_at(s1.loans@, j);
            }
        }
        Ok(())
    }

    /// The checks `repay_loan` runs before touching anything, in order.
    pub open spec fn repay_precheck(self, l0: Ledger, who: AccountId, loan_id: LoanId) -> Option<Error> {
        if !has_loan(self.loans@, loan_id) {
            Some(Error::LoanNotFound)
        } else if loan_of(self.loans@, loan_id).who != who {
            Some(Error::NotOwner)
        } else if l0.balance(self.config.loan_asset_id, who) < loan_of(
            self.loans@,
            loan_id,
        ).loan_balance_total {
            Some(Error::InsufficientBalance)
        } else if l0.balance(self.config.collateral_asset_id, self.config.pawn_shop) < loan_of(
            self.loans@,
            loan_id,
        ).collateral_balance_available {
            Some(Error::InsufficientBalance)
        } else if self.liquidating_loans@.contains(loan_id) {
            Some(Error::LoanInLiquidation)
        } else {
            None
        }
    }

    /// The loan record and aggregates are discharged from the registry.
    pub open spec fn repay_discharged(self, post: LoanEngine, who: AccountId, loan_id: LoanId) -> bool {
        let i = loan_index(self.loans@, loan_id);
        let loan = self.loans@[i];
        &&& post.loans@ == self.loans@.remove(i)
        &&& owner_ids(post.loans_by_account@, who) == remove_id(
            owner_ids(self.loans_by_account@, who),
            loan_id,
        )
        &&& forall|w: AccountId|
            w != who ==> owner_ids(post.loans_by_account@, w) == owner_ids(
                self.loans_by_account@,
                w,
            )
        &&& post.liquidating_loans@ == self.liquidating_loans@
        &&& post.total_loan == self.total_loan - loan.loan_balance_total
        &&& post.total_collateral == self.total_collateral - loan.collateral_balance_available
        &&& post.next_loan_id == self.next_loan_id
        &&& post.same_aux(self)
    }

    /// The registry stands as before the call, except that the repaid
    /// loan's id was re-appended at the end of its owner's index entry
    /// (the compensation reinserts rather than restores order).
    pub open spec fn repay_reverted(self, post: LoanEngine, who: AccountId, loan_id: LoanId) -> bool {
        &&& post.loans@ == self.loans@
        &&& owner_ids(post.loans_by_account@, who) == remove_id(
            owner_ids(self.loans_by_account@, who),
            loan_id,
        ).push(loan_id)
        &&& forall|w: AccountId|
            w != who ==> owner_ids(post.loans_by_account@, w) == owner_ids(
                self.loans_by_account@,
                w,
            )
        &&& post.liquidating_loans@ == self.liquidating_loans@
        &&& post.total_loan == self.total_loan
        &&& post.total_collateral == self.total_collateral
        &&& post.next_loan_id == self.next_loan_id
        &&& post.same_aux(self)
        &&& post.events@ == self.events@
    }

    /// The ledger conditions under which a repayment cannot fail: distinct
    /// assets, a distinct custodial account, none of the three calls
    /// denied, and both receiving balances representable.
    pub open spec fn repay_undisturbed(self, l0: Ledger, who: AccountId, loan_id: LoanId) -> bool {
        let loan = loan_of(self.loans@, loan_id);
        &&& self.config.loan_asset_id != self.config.collateral_asset_id
        &&& who != self.config.pawn_shop
        &&& !l0.denies(l0.calls())
        &&& !l0.denies((l0.calls() + 1) as u64)
        &&& !l0.denies((l0.calls() + 2) as u64)
        &&& l0.balance(self.config.loan_asset_id, self.config.pawn_shop)
            + loan.loan_balance_total <= u64::MAX
        &&& l0.balance(self.config.collateral_asset_id, who) + loan.collateral_balance_available
            <= u64::MAX
    }

    /// What a fully successful `repay_loan` did: discharge, two transfers,
    /// the discharged loan asset burned at the pool, and the notification.
    pub open spec fn repay_success_post(
        self,
        post: LoanEngine,
        l0: Ledger,
        l1: Ledger,
        who: AccountId,
        loan_id: LoanId,
    ) -> bool {
        let i = loan_index(self.loans@, loan_id);
        let loan = self.loans@[i];
        &&& self.repay_discharged(post, who, loan_id)
        &&& post.events@ == self.events@.push(
            Event::LoanRepaid(
                loan_id,
                loan.loan_balance_total,
                loan.collateral_balance_available,
            ),
        )
        &&& l1.calls() == l0.calls() + 3
        &&& l1.denied_schedule() == l0.denied_schedule()
        &&& exists|la: Ledger, lb: Ledger|
            transfer_post(
                l0,
                la,
                self.config.loan_asset_id,
                who,
                self.config.pawn_shop,
                loan.loan_balance_total,
            ) && #[trigger] transfer_post(
                la,
                lb,
                self.config.collateral_asset_id,
                self.config.pawn_shop,
                who,
                loan.collateral_balance_available,
            ) && burn_post(
                lb,
                l1,
                self.config.loan_asset_id,
                self.config.pawn_shop,
                loan.loan_balance_total,
            )
    }

    /// `repay_loan` when only the final burn failed: the discharge and both
    /// transfers stand, the pool keeps the discharged loan asset, and no
    /// notification is emitted.
    pub open spec fn repay_burn_failed_post(
        self,
        post: LoanEngine,
        l0: Ledger,
        l1: Ledger,
        who: AccountId,
        loan_id: LoanId,
    ) -> bool {
        let i = loan_index(self.loans@, loan_id);
        let loan = self.loans@[i];
        &&& self.repay_discharged(post, who, loan_id)
        &&& post.events@ == self.events@
        &&& l1.calls() == l0.calls() + 3
        &&& l1.denied_schedule() == l0.denied_schedule()
        &&& exists|la: Ledger, lb: Ledger|
            transfer_post(
                l0,
                la,
                self.config.loan_asset_id,
                who,
                self.config.pawn_shop,
                loan.loan_balance_total,
            ) && #[trigger] transfer_post(
                la,
                lb,
                self.config.collateral_asset_id,
                self.config.pawn_shop,
                who,
                loan.collateral_balance_available,
            ) && same_balances(lb, l1)
    }

    /// Put a discharged loan back: the exact compensation `repay_loan`
    /// runs when a transfer fails after the optimistic removal.
    fn reinstate_loan(&mut self, i: usize, loan: Loan)
        requires
            i <= old(self).loans@.len(),
            old(self).total_loan + loan.loan_balance_total <= u64::MAX,
            old(self).total_collateral + loan.collateral_balance_available <= u64::MAX,
            loan.id < old(self).next_loan_id,
            forall|e: int, k: int|
                0 <= e < old(self).loans_by_account@.len() && 0 <= k
                    < old(self).loans_by_account@[e].loan_ids@.len()
                    ==> #[trigger] old(self).loans_by_account@[e].loan_ids@[k] < old(self).next_loan_id,
        ensures
            final(self).loans@ == old(self).loans@.insert(i as int, loan),
            owner_ids(final(self).loans_by_account@, loan.who) == owner_ids(
                old(self).loans_by_account@,
                loan.who,
            ).push(loan.id),
            forall|w: AccountId|
                w != loan.who ==> owner_ids(final(self).loans_by_account@, w) == owner_ids(
                    old(self).loans_by_account@,
                    w,
                ),
            forall|e: int, k: int|
                0 <= e < final(self).loans_by_account@.len() && 0 <= k
                    < final(self).loans_by_account@[e].loan_ids@.len()
                    ==> #[trigger] final(self).loans_by_account@[e].loan_ids@[k] < old(self).next_loan_id,
            final(self).total_loan == old(self).total_loan + loan.loan_balance_total,
            final(self).total_collateral == old(self).total_collateral
                + loan.collateral_balance_available,
            final(self).liquidating_loans@ == old(self).liquidating_loans@,
            final(self).next_loan_id == old(self).next_loan_id,
            final(self).same_aux(*old(self)),
            final(self).events@ == old(self).events@,
    {
        let ghost idx0 = self.loans_by_account@;
        self.loans.insert(i, loan);
        match self.find_account_entry(loan.who) {
            Some(e) => {
                let entry = self.loans_by_account.remove(e);
                let mut ids = entry.loan_ids;
                ids.push(loan.id);
                let new_entry = AccountLoans { who: loan.who, loan_ids: ids };
                self.loans_by_account.insert(e, new_entry);
                proof {
                    assert(self.loans_by_account@ =~= idx0.update(
                        e as int,
                        self.loans_by_account@[e as int],
                    ));
                    lemma_owner_ids_update(idx0, e as int, self.loans_by_account@[e as int]);
                    lemma_owner_index_first(idx0, e as int);
                    assert(self.loans_by_account@[e as int].loan_ids@ =~= owner_ids(
                        idx0,
                        loan.who,
                    ).push(loan.id));
                }
            },
            None => {
                let mut ids: Vec<LoanId> = Vec::new();
                ids.push(loan.id);
                let new_entry = AccountLoans { who: loan.who, loan_ids: ids };
                self.loans_by_account.push(new_entry);
                proof {
                    lemma_owner_ids_push(idx0, self.loans_by_account@.last());
                    lemma_owner_ids_absent(idx0, loan.who);
                    assert(self.loans_by_account@ =~= idx0.push(self.loans_by_account@.last()));
                    assert(self.loans_by_account@.last().loan_ids@ =~= owner_ids(
                        idx0,
                        loan.who,
                    ).push(loan.id));
                }
            },
        }
        self.total_loan = self.total_loan + loan.loan_balance_total;
        self.total_collateral = self.total_collateral + loan.collateral_balance_available;
    }

    /// Everything `repay_loan` promises, also quoted by the dispatch
    /// operation that gates it.
    pub open spec fn repay_post(
        self,
        post: LoanEngine,
        l0: Ledger,
        l1: Ledger,
        who: AccountId,
        loan_id: LoanId,
        r: LoanResult<()>,
    ) -> bool {
        &&& (self.repay_precheck(l0, who, loan_id) matches Some(e) ==> r == LoanResult::<
            (),
        >::Err(e) && post == self && l1 == l0)
        &&& (self.repay_precheck(l0, who, loan_id) is None ==> {
            let loan = loan_of(self.loans@, loan_id);
            ||| (r is Ok && self.repay_success_post(post, l0, l1, who, loan_id))
            ||| (r == LoanResult::<()>::Err(Error::InsufficientBalance) && self.repay_reverted(
                post,
                who,
                loan_id,
            ) && !l0.can_transfer(
                self.config.loan_asset_id,
                who,
                self.config.pawn_shop,
                loan.loan_balance_total,
            ) && same_balances(l0, l1) && l1.calls() == l0.calls() + 1 && l1.denied_schedule()
                == l0.denied_schedule())
            ||| (r == LoanResult::<()>::Err(Error::InsufficientBalance) && self.repay_reverted(
                post,
                who,
                loan_id,
            ) && same_balances(l0, l1) && l1.calls() == l0.calls() + 3 && l1.denied_schedule()
                == l0.denied_schedule())
            ||| (r == LoanResult::<()>::Err(Error::InsufficientBalance) && self.repay_reverted(
                post,
                who,
                loan_id,
            ) && l0.denies((l0.calls() + 2) as u64) && (exists|la: Ledger|
                #[trigger] transfer_post(
                    l0,
                    la,
                    self.config.loan_asset_id,
                    who,
                    self.config.pawn_shop,
                    loan.loan_balance_total,
                ) && same_balances(la, l1)) && l1.calls() == l0.calls() + 3
                && l1.denied_schedule() == l0.denied_schedule())
            ||| (r == LoanResult::<()>::Err(Error::InsufficientBalance)
                && self.repay_burn_failed_post(post, l0, l1, who, loan_id))
        })
        &&& (self.repay_precheck(l0, who, loan_id) is None && self.repay_undisturbed(
            l0,
            who,
            loan_id,
        ) ==> r is Ok)
    }

    /// Repay a loan in full: the owner returns the debt to the custodial
    /// pool, the pool returns the collateral, and the discharged loan
    /// asset is burned.  The registry is discharged optimistically; if
    /// either transfer fails, every prior mutation is compensated in
    /// reverse order before the error is surfaced.
    pub fn repay_loan(&mut self, ledger: &mut Ledger, who: AccountId, loan_id: LoanId) -> (r: LoanResult<()>)
        requires
            old(self).wf(),
            old(ledger).calls() + 3 <= u64::MAX,
        ensures
            final(self).wf(),
            old(self).repay_post(*final(self), *old(ledger), *final(ledger), who, loan_id, r),
    {
        let ghost s0 = *self;
        let ghost l0 = *ledger;
        let loan_asset_id = self.config.loan_asset_id;
        let collateral_asset_id = self.config.collateral_asset_id;
        let pawn_shop = self.config.pawn_shop;

        let i = match self.find_loan(loan_id) {
            None => {
                return Err(Error::LoanNotFound);
            },
            Some(i) => i,
        };
        let loan = self.loans[i];
        proof {
            crate::engine::lemma_loan_at(s0.loans@, i as int);
        }
        if loan.who != who {
            return Err(Error::NotOwner);
        }
        if ledger.balance_of(loan_asset_id, who) < loan.loan_balance_total {
            return Err(Error::InsufficientBalance);
        }
        if ledger.balance_of(collateral_asset_id, pawn_shop) < loan.collateral_balance_available {
            return Err(Error::InsufficientBalance);
        }
        if self.check_loan_in_liquidation(&loan_id) {
            return Err(Error::LoanInLiquidation);
        }

        proof {
            lemma_sum_loans_remove(s0.loans@, i as int);
            lemma_sum_loans_bound(s0.loans@, i as int);
        }
        self.loans.remove(i);
        let ghost idx0 = self.loans_by_account@;
        match self.find_account_entry(who) {
            Some(e) => {
                let entry = self.loans_by_account.remove(e);
                let new_ids = crate::engine::remove_id_vec(&entry.loan_ids, loan_id);
                let new_entry = AccountLoans { who, loan_ids: new_ids };
                self.loans_by_account.insert(e, new_entry);
                proof {
                    assert(self.loans_by_account@ =~= idx0.update(
                        e as int,
                        self.loans_by_account@[e as int],
                    ));
                    lemma_owner_ids_update(idx0, e as int, self.loans_by_account@[e as int]);
                    lemma_owner_index_first(idx0, e as int);
                }
            },
            None => {
                proof {
                    lemma_owner_ids_absent(idx0, who);
                    assert(remove_id(owner_ids(idx0, who), loan_id) =~= owner_ids(idx0, who));
                }
            },
        }
        self.total_loan = self.total_loan - loan.loan_balance_total;
        self.total_collateral = self.total_collateral - loan.collateral_balance_available;
        proof {
            assert(s0.repay_discharged(*self, who, loan_id));
            assert forall|e: int, k: int|
                0 <= e < self.loans_by_account@.len() && 0 <= k
                    < self.loans_by_account@[e].loan_ids@.len() implies #[trigger] self
                .loans_by_account@[e].loan_ids@[k] < self.next_loan_id by {
                let x = self.loans_by_account@[e].loan_ids@[k];
                if self.loans_by_account@[e].loan_ids@ != idx0[e].loan_ids@ {
                    crate::engine::lemma_remove_id_subset(idx0[e].loan_ids@, loan_id, x);
                    let k2 = choose|k2: int|
                        0 <= k2 < idx0[e].loan_ids@.len() && idx0[e].loan_ids@[k2] == x;
                    assert(s0.loans_by_account@[e].loan_ids@[k2] == x);
                }
            }
        }
        let ghost s_removed = *self;

        if !ledger.transfer(loan_asset_id, who, pawn_shop, loan.loan_balance_total) {
            self.reinstate_loan(i, loan);
            proof {
                assert(self.loans@ =~= s0.loans@);
                lemma_reverted_wf(s0, *self, who, loan_id);
                assert(s0.repay_reverted(*self, who, loan_id));
                if s0.repay_undisturbed(l0, who, loan_id) {
                    assert(l0.can_transfer(
                        loan_asset_id,
                        who,
                        pawn_shop,
                        loan.loan_balance_total,
                    ));
                    assert(false);
                }
            }
            return Err(Error::InsufficientBalance);
        }
        let ghost l1 = *ledger;

        if !ledger.transfer(
            collateral_asset_id,
            pawn_shop,
            who,
            loan.collateral_balance_available,
        ) {
            self.reinstate_loan(i, loan);
            proof {
                assert(self.loans@ =~= s0.loans@);
                lemma_reverted_wf(s0, *self, who, loan_id);
                assert(s0.repay_reverted(*self, who, loan_id));
                if s0.repay_undisturbed(l0, who, loan_id) {
                    assert(l1.balance(collateral_asset_id, pawn_shop) == l0.balance(
                        collateral_asset_id,
                        pawn_shop,
                    ));
                    assert(l1.balance(collateral_asset_id, who) == l0.balance(
                        collateral_asset_id,
                        who,
                    ));
                    assert(!l1.denies(l1.calls()));
                    assert(l1.can_transfer(
                        collateral_asset_id,
                        pawn_shop,
                        who,
                        loan.collateral_balance_available,
                    ));
                    assert(false);
                }
            }
            let compensated = ledger.transfer(
                loan_asset_id,
                pawn_shop,
                who,
                loan.loan_balance_total,
            );
            proof {
                if compensated {
                    assert(same_balances(l0, *ledger));
                } else {
                    // the pool received the principal and the owner's balance
                    // has room for it back: the compensating transfer can only
                    // have been refused by the schedule
                    if who != pawn_shop {
                        assert(l1.balance(loan_asset_id, pawn_shop) == l0.balance(
                            loan_asset_id,
                            pawn_shop,
                        ) + loan.loan_balance_total);
                        assert(l1.balance(loan_asset_id, who) + loan.loan_balance_total
                            == l0.balance(loan_asset_id, who));
                    }
                    assert(l0.denies((l0.calls() + 2) as u64));
                    assert(transfer_post(
                        l0,
                        l1,
                        loan_asset_id,
                        who,
                        pawn_shop,
                        loan.loan_balance_total,
                    ));
                    assert(same_balances(l1, *ledger));
                }
            }
            return Err(Error::InsufficientBalance);
        }
        let ghost l2 = *ledger;

        let burned = ledger.burn(loan_asset_id, pawn_shop, loan.loan_balance_total);
        proof {
            lemma_discharged_wf(s0, *self, who, loan_id, i as int);
        }
        if !burned {
            proof {
                assert(transfer_post(
                    l0,
                    l1,
                    loan_asset_id,
                    who,
                    pawn_shop,
                    loan.loan_balance_total,
                ) && transfer_post(
                    l1,
                    l2,
                    collateral_asset_id,
                    pawn_shop,
                    who,
                    loan.collateral_balance_available,
                ) && same_balances(l2, *ledger));
                assert(s0.repay_burn_failed_post(*self, l0, *ledger, who, loan_id));
                if s0.repay_undisturbed(l0, who, loan_id) {
                    assert(l2.balance(loan_asset_id, pawn_shop) == l0.balance(
                        loan_asset_id,
                        pawn_shop,
                    ) + loan.loan_balance_total);
                    assert(!l2.denies(l2.calls()));
                    assert(l2.can_burn(loan_asset_id, pawn_shop, loan.loan_balance_total));
                    assert(false);
                }
            }
            return Err(Error::InsufficientBalance);
        }
        self.events.push(
            Event::LoanRepaid(loan_id, loan.loan_balance_total, loan.collateral_balance_available),
        );
        proof {
            assert(transfer_post(l0, l1, loan_asset_id, who, pawn_shop, loan.loan_balance_total)
                && transfer_post(
                l1,
                l2,
                collateral_asset_id,
                pawn_shop,
                who,
                loan.collateral_balance_available,
            ) && burn_post(l2, *ledger, loan_asset_id, pawn_shop, loan.loan_balance_total));
        }
        Ok(())
    }
}

/// A reverted repayment satisfies the engine invariant again.
proof fn lemma_reverted_wf(s0: LoanEngine, s1: LoanEngine, who: AccountId, loan_id: LoanId)
    requires
        s0.wf(),
        s0.repay_reverted(s1, who, loan_id),
        loan_id < s0.next_loan_id,
        forall|e: int, k: int|
            0 <= e < s1.loans_by_account@.len() && 0 <= k
                < s1.loans_by_account@[e].loan_ids@.len()
                ==> #[trigger] s1.loans_by_account@[e].loan_ids@[k] < s1.next_loan_id,
        s1.config == s0.config,
        s1.btc_price == s0.btc_price,
    ensures
        s1.wf(),
{
}

/// A discharged repayment satisfies the engine invariant again.
proof fn lemma_discharged_wf(s0: LoanEngine, s1: LoanEngine, who: AccountId, loan_id: LoanId, i: int)
    requires
        s0.wf(),
        s0.repay_discharged(s1, who, loan_id),
        !s0.liquidating_loans@.contains(loan_id),
        i == loan_index(s0.loans@, loan_id),
        has_loan(s0.loans@, loan_id),
        forall|e: int, k: int|
            0 <= e < s1.loans_by_account@.len() && 0 <= k
                < s1.loans_by_account@[e].loan_ids@.len()
                ==> #[trigger] s1.loans_by_account@[e].loan_ids@[k] < s1.next_loan_id,
        s1.config == s0.config,
        s1.btc_price == s0.btc_price,
        s1.events@ == s0.events@ || s1.events@ == s0.events@.push(
            Event::LoanRepaid(
                loan_id,
                s0.loans@[i].loan_balance_total,
                s0.loans@[i].collateral_balance_available,
            ),
        ),
    ensures
        s1.wf(),
{
    assert(0 <= i < s0.loans@.len() && s0.loans@[i].id == loan_id);
    crate::engine::lemma_sum_loans_remove(s0.loans@, i);
    assert(unique_ids(s1.loans@)) by {
        assert forall|a: int, b: int|
            0 <= a < s1.loans@.len() && 0 <= b < s1.loans@.len() && a != b implies s1.loans@[a].id
            != s1.loans@[b].id by {
            let a0 = if a < i {
                a
            } else {
                a + 1
            };
            let b0 = if b < i {
                b
            } else {
                b + 1
            };
            assert(s1.loans@[a] == s0.loans@[a0] && s1.loans@[b] == s0.loans@[b0]);
        }
    }
    assert forall|k: int|
        0 <= k < s1.liquidating_loans@.len() implies has_loan(
        s1.loans@,
        #[trigger] s1.liquidating_loans@[k],
    ) && loan_of(s1.loans@, s1.liquidating_loans@[k]).status is Liquidating by {
        let id = s1.liquidating_loans@[k];
        let j = loan_index(s0.loans@, id);
        assert(0 <= j < s0.loans@.len() && s0.loans@[j].id == id);
        assert(id != loan_id);
        assert(j != i);
        let j1 = if j < i {
            j
        } else {
            j - 1
        };
        assert(s1.loans@[j1] == s0.loans@[j]);
        crate::engine::lemma_loan_at(s1.loans@, j1);
    }
    assert forall|a: int|
        0 <= a < s1.loans@.len() implies ((#[trigger] s1.loans@[a]).status is Liquidating
        ==> s1.liquidating_loans@.contains(s1.loans@[a].id)) by {
        let a0 = if a < i {
            a
        } else {
            a + 1
        };
        assert(s1.loans@[a] == s0.loans@[a0]);
    }
}

/// When the collateral-value product already exceeds `u128::MAX`, the
/// capacity it yields after the two precision divisions still dwarfs any
/// pair of balances.
proof fn lemma_capacity_over_max(cba: int, price: int, limit: int, prod: int)
    requires
        limit >= 1,
        price >= 1,
        cba >= 0,
        prod > u128::MAX,
        cba * price * limit >= prod,
    ensures
        cba * price * limit / (LTV_PREC as int) / (PRICE_PREC as int) > 2 * u64::MAX,
{
    let full = cba * price * limit;
    vstd::arithmetic::div_mod::lemma_div_is_ordered(prod, full, LTV_PREC as int);
    vstd::arithmetic::div_mod::lemma_div_is_ordered(
        prod / (LTV_PREC as int),
        full / (LTV_PREC as int),
        PRICE_PREC as int,
    );
    assert((u128::MAX as int + 1) / (LTV_PREC as int) / (PRICE_PREC as int) > 2 * u64::MAX);
    vstd::arithmetic::div_mod::lemma_div_is_ordered(
        u128::MAX as int + 1,
        prod,
        LTV_PREC as int,
    );
    vstd::arithmetic::div_mod::lemma_div_is_ordered(
        (u128::MAX as int + 1) / (LTV_PREC as int),
        prod / (LTV_PREC as int),
        PRICE_PREC as int,
    );
}

} // verus!
