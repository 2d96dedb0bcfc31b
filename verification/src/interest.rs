//! The interest accrual engine: a utilization-based rate curve, applied to
//! every active loan proportionally to its share of the total debt, with a
//! matching transfer to the profit pool.

use vstd::prelude::*;
use crate::types::{AccountId, Balance, INTEREST_RATE_PREC, Loan, Moment};
use crate::ledger::Ledger;
use crate::engine::{lemma_sum_loans_bound, LoanEngine};

verus! {

/// Utilization of the deposit pool: the lent-out share of all capital,
/// scaled by `INTEREST_RATE_PREC`.
pub open spec fn utilization_of(total_loan: int, total_deposit: int) -> int {
    total_loan * (INTEREST_RATE_PREC as int) / (total_deposit + total_loan)
}

/// The three-segment rate curve over utilization: a low-utilization linear
/// segment, a high-utilization polynomial segment and a mid-utilization
/// linear segment.  The breakpoint literals stand as the accounting rules
/// give them, although utilization itself never exceeds
/// `INTEREST_RATE_PREC`, so only the first segment is reachable.
pub open spec fn rate_curve(x: int) -> int {
    if x < 400000000 {
        (1 * x + 4) / 10
    } else if x >= 80000000 {
        (30 * x * x * x * x * x * x + 10 * x * x * x + 6) / (1000000000000000000000int
            * 1000000000000000000000int)
    } else {
        20 * x + 1
    }
}

/// Interest a loan owes for the period: its proportional share.
pub open spec fn share_of(interest: int, balance: int, total: int) -> int {
    interest * balance / total
}

/// Sum of the loan balances of the first `i` registry entries.
pub open spec fn balance_prefix(loans: Seq<Loan>, i: int) -> int
    decreases i,
{
    if i <= 0 {
        0
    } else {
        balance_prefix(loans, i - 1) + loans[i - 1].loan_balance_total
    }
}

/// Sum of the interest shares of the first `i` registry entries.
pub open spec fn share_sum(loans: Seq<Loan>, interest: int, total: int, i: int) -> int
    decreases i,
{
    if i <= 0 {
        0
    } else {
        share_sum(loans, interest, total, i - 1) + share_of(
            interest,
            loans[i - 1].loan_balance_total as int,
            total,
        )
    }
}

/// The prefix balance sums agree with the registry sum over the whole book.
proof fn lemma_balance_prefix_all(loans: Seq<Loan>)
    ensures
        balance_prefix(loans, loans.len() as int) == crate::engine::sum_loans(loans),
    decreases loans.len(),
{
    if loans.len() > 0 {
        lemma_balance_prefix_all(loans.drop_last());
        lemma_balance_prefix_frame(loans, loans.len() as int - 1);
    }
}

/// A prefix sum reads only the entries below its bound.
proof fn lemma_balance_prefix_frame(loans: Seq<Loan>, i: int)
    requires
        0 <= i < loans.len(),
    ensures
        balance_prefix(loans, i) == balance_prefix(loans.drop_last(), i),
    decreases i,
{
    if i > 0 {
        lemma_balance_prefix_frame(loans, i - 1);
    }
}

/// The shares of a prefix never sum past its balances' worth of interest.
proof fn lemma_share_sum_le(loans: Seq<Loan>, interest: int, total: int, i: int)
    requires
        total > 0,
        interest >= 0,
        0 <= i <= loans.len(),
    ensures
        share_sum(loans, interest, total, i) * total <= interest * balance_prefix(loans, i),
        share_sum(loans, interest, total, i) >= 0,
    decreases i,
{
    if i > 0 {
        lemma_share_sum_le(loans, interest, total, i - 1);
        let bal = loans[i - 1].loan_balance_total as int;
        let share = share_of(interest, bal, total);
        vstd::arithmetic::mul::lemma_mul_nonnegative(interest, bal);
        vstd::arithmetic::div_mod::lemma_div_pos_is_pos(interest * bal, total);
        assert(share * total <= interest * bal) by {
            vstd::arithmetic::div_mod::lemma_fundamental_div_mod(interest * bal, total);
            vstd::arithmetic::mul::lemma_mul_is_commutative(total, share);
        }
        vstd::arithmetic::mul::lemma_mul_is_distributive_add_other_way(
            total,
            share_sum(loans, interest, total, i - 1),
            share,
        );
        vstd::arithmetic::mul::lemma_mul_is_distributive_add(
            interest,
            balance_prefix(loans, i - 1),
            bal,
        );
    }
}

/// Over the whole book the shares sum to at most the period's interest.
proof fn lemma_share_sum_bounded(loans: Seq<Loan>, interest: int, total: int, i: int)
    requires
        total > 0,
        interest >= 0,
        0 <= i <= loans.len(),
        crate::engine::sum_loans(loans) == total,
    ensures
        0 <= share_sum(loans, interest, total, i) <= interest,
    decreases loans.len() - i,
{
    if i == loans.len() {
        lemma_share_sum_le(loans, interest, total, i);
        lemma_balance_prefix_all(loans);
        vstd::arithmetic::mul::lemma_mul_is_commutative(interest, total);
        vstd::arithmetic::mul::lemma_mul_inequality_converse(
            share_sum(loans, interest, total, i),
            interest,
            total,
        );
    } else {
        lemma_share_sum_bounded(loans, interest, total, i + 1);
        let bal = loans[i].loan_balance_total as int;
        vstd::arithmetic::mul::lemma_mul_nonnegative(interest, bal);
        vstd::arithmetic::div_mod::lemma_div_pos_is_pos(interest * bal, total);
        lemma_share_sum_le(loans, interest, total, i);
    }
}

/// Whether a loan's share fits its credit line and `u64`, so its draw is
/// applied (once the aggregate headroom of `accrual_headroom` holds).
pub open spec fn share_applied(s0: LoanEngine, loan: Loan, interest: int) -> bool {
    let share = share_of(interest, loan.loan_balance_total as int, s0.total_loan as int);
    &&& share + loan.loan_balance_total <= s0.loan_capacity(loan)
    &&& loan.loan_balance_total + share <= u64::MAX
}

/// No account owns two loans of the registry.
pub open spec fn distinct_borrowers(s: LoanEngine) -> bool {
    forall|i: int, j: int|
        0 <= i < s.loans@.len() && 0 <= j < s.loans@.len() && i != j ==> s.loans@[i].who
            != s.loans@[j].who
}

/// An account that owns a loan of the registry.
pub open spec fn is_borrower(s: LoanEngine, w: AccountId) -> bool {
    exists|j: int| 0 <= j < s.loans@.len() && s.loans@[j].who == w
}

impl LoanEngine {
    /// The deposit pool's balance, which the utilization is measured against.
    pub open spec fn deposit_of(self, l: Ledger) -> int {
        l.balance(self.config.collection_asset_id, self.config.collection_account_id) as int
    }

    /// The per-period rate the curve yields in this state.
    pub open spec fn accrual_rate(self, l: Ledger) -> int {
        rate_curve(utilization_of(self.total_loan as int, self.deposit_of(l)))
    }

    /// Total interest generated since the last accrual.
    pub open spec fn interest_generated(self, l: Ledger, now: Moment) -> int {
        (now - self.bonus_time) * self.total_loan * self.accrual_rate(l)
    }

    /// Accrue interest: derive the utilization-based rate, charge every
    /// loan its proportional share by drawing on it, and move the same
    /// share from the borrower to the profit pool.  A loan whose draw or
    /// transfer fails is skipped, so one loan's shortfall does not block
    /// accrual for the rest.  Skipped entirely when no capital is out.
    pub fn calculate_loan_interest_rate(&mut self, ledger: &mut Ledger, now: Moment)
        requires
            old(self).wf(),
            old(ledger).calls() + old(self).loans@.len() <= u64::MAX,
            old(self).deposit_of(*old(ledger)) + old(self).total_loan != 0 ==> {
                &&& now >= old(self).bonus_time
                &&& now - old(self).bonus_time <= u32::MAX
                &&& (now - old(self).bonus_time) * old(self).total_loan <= u64::MAX
                &&& (now - old(self).bonus_time) * old(self).total_loan * old(self).accrual_rate(*old(ledger)) <= u64::MAX
                &&& old(self).interest_generated(*old(ledger), now) * old(self).total_loan
                    <= u64::MAX
                &&& (old(self).loans@.len() > 0 ==> old(self).total_loan > 0)
            },
        ensures
            final(self).wf(),
            old(self).deposit_of(*old(ledger)) + old(self).total_loan == 0 ==> *final(self)
                == *old(self) && *final(ledger) == *old(ledger),
            old(self).deposit_of(*old(ledger)) + old(self).total_loan != 0 ==> {
                let interest = old(self).interest_generated(*old(ledger), now);
                &&& final(self).loan_interest_rate_current == old(self).accrual_rate(
                    *old(ledger),
                )
                &&& final(self).bonus_time == now
                &&& final(self).loans@.len() == old(self).loans@.len()
                &&& forall|j: int|
                    0 <= j < old(self).loans@.len() ==> {
                        let l0 = old(self).loans@[j];
                        let l1 = #[trigger] final(self).loans@[j];
                        &&& l1.id == l0.id
                        &&& l1.who == l0.who
                        &&& l1.collateral_balance_original == l0.collateral_balance_original
                        &&& l1.collateral_balance_available == l0.collateral_balance_available
                        &&& l1.status == l0.status
                        &&& (l1.loan_balance_total == l0.loan_balance_total
                            || l1.loan_balance_total == l0.loan_balance_total + share_of(
                            interest,
                            l0.loan_balance_total as int,
                            old(self).total_loan as int,
                        ))
                    }
                &&& final(self).liquidating_loans@ == old(self).liquidating_loans@
                &&& forall|w: AccountId|
                    crate::engine::owner_ids(final(self).loans_by_account@, w)
                        == crate::engine::owner_ids(old(self).loans_by_account@, w)
                &&& final(self).total_collateral == old(self).total_collateral
                &&& final(self).next_loan_id == old(self).next_loan_id
                &&& final(self).config == old(self).config
                &&& final(self).paused == old(self).paused
                &&& final(self).btc_price == old(self).btc_price
                &&& final(self).account_dtokens@ == old(self).account_dtokens@
                &&& old(self).events@.is_prefix_of(final(self).events@)
                &&& final(ledger).calls() == old(ledger).calls() + old(self).loans@.len()
                &&& final(ledger).denied_schedule() == old(ledger).denied_schedule()
                &&& forall|a: u32, w: AccountId|
                    a != old(self).config.profit_asset_id ==> final(ledger).balance(a, w) == old(ledger).balance(a, w)
                &&& forall|w: AccountId|
                    w != old(self).config.profit_pool && !is_borrower(*old(self), w) ==> final(ledger).balance(old(self).config.profit_asset_id, w) == old(ledger).balance(
                        old(self).config.profit_asset_id,
                        w,
                    )
                &&& (old(self).total_loan + interest <= u64::MAX ==> forall|j: int|
                    0 <= j < old(self).loans@.len()
                        ==> (#[trigger] final(self).loans@[j]).loan_balance_total as int == (
                    if share_applied(*old(self), old(self).loans@[j], interest) {
                        old(self).loans@[j].loan_balance_total + share_of(
                            interest,
                            old(self).loans@[j].loan_balance_total as int,
                            old(self).total_loan as int,
                        )
                    } else {
                        old(self).loans@[j].loan_balance_total as int
                    }))
                &&& (old(self).total_loan + interest <= u64::MAX && distinct_borrowers(
                    *old(self),
                ) && !is_borrower(*old(self), old(self).config.profit_pool) && old(
                    ledger,
                ).balance(old(self).config.profit_asset_id, old(self).config.profit_pool)
                    + interest <= u64::MAX ==> forall|j: int|
                    0 <= j < old(self).loans@.len() ==> {
                        let share = share_of(
                            interest,
                            (#[trigger] old(self).loans@[j]).loan_balance_total as int,
                            old(self).total_loan as int,
                        );
                        let w = old(self).loans@[j].who;
                        if !old(ledger).denies((old(ledger).calls() + j) as u64) && old(
                            ledger,
                        ).balance(old(self).config.profit_asset_id, w) >= share {
                            final(ledger).balance(old(self).config.profit_asset_id, w) as int
                                == old(ledger).balance(old(self).config.profit_asset_id, w)
                                - share
                        } else {
                            final(ledger).balance(old(self).config.profit_asset_id, w) == old(
                                ledger,
                            ).balance(old(self).config.profit_asset_id, w)
                        }
                    })
            },
    {
        let ghost s0 = *self;
        let ghost l0 = *ledger;
        let total_loan = self.total_loan;
        let collection_asset_id = self.config.collection_asset_id;
        let collection_account_id = self.config.collection_account_id;
        let profit_asset = self.config.profit_asset_id;
        let profit_pool = self.config.profit_pool;
        let total_deposit = ledger.balance_of(collection_asset_id, collection_account_id);

        if total_deposit as u128 + total_loan as u128 == 0 {
            return ;
        }

        let utilization_rate_x: u128 = total_loan as u128 * INTEREST_RATE_PREC as u128 / (
        total_deposit as u128 + total_loan as u128);
        proof {
            lemma_utilization_bounded(total_loan as int, total_deposit as int);
        }
        let loan_interest_rate_current: u128 = if utilization_rate_x < 400000000 {
            (1 * utilization_rate_x + 4) / 10
        } else if utilization_rate_x >= 80000000 {
            (30 * utilization_rate_x * utilization_rate_x * utilization_rate_x
                * utilization_rate_x * utilization_rate_x * utilization_rate_x + 10
                * utilization_rate_x * utilization_rate_x * utilization_rate_x + 6) / (
            1000000000000000000000u128 * 1000000000000000000000u128)
        } else {
            20 * utilization_rate_x + 1
        };
        let rate: Balance = loan_interest_rate_current as u64;
        proof {
            assert(rate == s0.accrual_rate(l0));
        }

        let last_bonus_time = self.bonus_time;
        let time_duration: u32 = (now - last_bonus_time) as u32;
        let interest_generated: Balance = time_duration as u64 * total_loan * rate;
        proof {
            assert(interest_generated == s0.interest_generated(l0, now));
        }

        let ghost interest = s0.interest_generated(l0, now);
        let ghost headroom = s0.total_loan as int + interest <= u64::MAX;
        let ghost isolated = headroom && distinct_borrowers(s0) && !is_borrower(
            s0,
            s0.config.profit_pool,
        ) && l0.balance(s0.config.profit_asset_id, s0.config.profit_pool) + interest
            <= u64::MAX;
        let mut i: usize = 0;
        proof {
            assert(s0.events@.subrange(0, s0.events@.len() as int) =~= s0.events@);
        }
        while i < self.loans.len()
            invariant
                s0.wf(),
                self.wf(),
                0 <= i <= self.loans@.len(),
                self.loans@.len() == s0.loans@.len(),
                total_loan == s0.total_loan,
                profit_asset == s0.config.profit_asset_id,
                profit_pool == s0.config.profit_pool,
                interest == interest_generated,
                interest * s0.total_loan <= u64::MAX,
                s0.loans@.len() > 0 ==> s0.total_loan > 0,
                forall|j: int|
                    0 <= j < s0.loans@.len() ==> {
                        let a = s0.loans@[j];
                        let b = #[trigger] self.loans@[j];
                        &&& b.id == a.id
                        &&& b.who == a.who
                        &&& b.collateral_balance_original == a.collateral_balance_original
                        &&& b.collateral_balance_available == a.collateral_balance_available
                        &&& b.status == a.status
                    },
                forall|j: int|
                    i <= j < s0.loans@.len() ==> (#[trigger] self.loans@[j]).loan_balance_total
                        == s0.loans@[j].loan_balance_total,
                forall|j: int|
                    0 <= j < i ==> {
                        let a = s0.loans@[j];
                        let b = #[trigger] self.loans@[j];
                        b.loan_balance_total == a.loan_balance_total || b.loan_balance_total
                            == a.loan_balance_total + share_of(
                            interest,
                            a.loan_balance_total as int,
                            s0.total_loan as int,
                        )
                    },
                headroom == (s0.total_loan as int + interest <= u64::MAX),
                isolated == (headroom && distinct_borrowers(s0) && !is_borrower(
                    s0,
                    s0.config.profit_pool,
                ) && l0.balance(s0.config.profit_asset_id, s0.config.profit_pool) + interest
                    <= u64::MAX),
                headroom ==> self.total_loan as int <= s0.total_loan + share_sum(
                    s0.loans@,
                    interest,
                    s0.total_loan as int,
                    i as int,
                ),
                headroom ==> forall|j: int|
                    0 <= j < i ==> (#[trigger] self.loans@[j]).loan_balance_total as int == (
                    if share_applied(s0, s0.loans@[j], interest) {
                        s0.loans@[j].loan_balance_total + share_of(
                            interest,
                            s0.loans@[j].loan_balance_total as int,
                            s0.total_loan as int,
                        )
                    } else {
                        s0.loans@[j].loan_balance_total as int
                    }),
                isolated ==> forall|j: int|
                    0 <= j < i ==> {
                        let share = share_of(
                            interest,
                            (#[trigger] s0.loans@[j]).loan_balance_total as int,
                            s0.total_loan as int,
                        );
                        let w = s0.loans@[j].who;
                        if !l0.denies((l0.calls() + j) as u64) && l0.balance(
                            s0.config.profit_asset_id,
                            w,
                        ) >= share {
                            ledger.balance(s0.config.profit_asset_id, w) as int == l0.balance(
                                s0.config.profit_asset_id,
                                w,
                            ) - share
                        } else {
                            ledger.balance(s0.config.profit_asset_id, w) == l0.balance(
                                s0.config.profit_asset_id,
                                w,
                            )
                        }
                    },
                isolated ==> forall|j: int|
                    i <= j < s0.loans@.len() ==> ledger.balance(
                        s0.config.profit_asset_id,
                        (#[trigger] s0.loans@[j]).who,
                    ) == l0.balance(s0.config.profit_asset_id, s0.loans@[j].who),
                isolated ==> ledger.balance(s0.config.profit_asset_id, s0.config.profit_pool)
                    as int <= l0.balance(s0.config.profit_asset_id, s0.config.profit_pool)
                    + share_sum(s0.loans@, interest, s0.total_loan as int, i as int),
                self.liquidating_loans@ == s0.liquidating_loans@,
                forall|w: AccountId|
                    crate::engine::owner_ids(self.loans_by_account@, w)
                        == crate::engine::owner_ids(s0.loans_by_account@, w),
                self.total_collateral == s0.total_collateral,
                self.next_loan_id == s0.next_loan_id,
                self.config == s0.config,
                self.paused == s0.paused,
                self.btc_price == s0.btc_price,
                self.account_dtokens@ == s0.account_dtokens@,
                self.loan_interest_rate_current == s0.loan_interest_rate_current,
                self.bonus_time == s0.bonus_time,
                s0.events@.is_prefix_of(self.events@),
                ledger.calls() == l0.calls() + i,
                l0.calls() + s0.loans@.len() <= u64::MAX,
                ledger.denied_schedule() == l0.denied_schedule(),
                forall|a: u32, w: AccountId|
                    a != s0.config.profit_asset_id ==> ledger.balance(a, w) == l0.balance(a, w),
                forall|w: AccountId|
                    w != s0.config.profit_pool && !is_borrower(s0, w) ==> ledger.balance(
                        s0.config.profit_asset_id,
                        w,
                    ) == l0.balance(s0.config.profit_asset_id, w),
            decreases self.loans@.len() - i,
        {
            let loan = self.loans[i];
            proof {
                assert(loan.loan_balance_total == s0.loans@[i as int].loan_balance_total);
                lemma_sum_loans_bound(s0.loans@, i as int);
                assert(loan.loan_balance_total <= s0.total_loan);
                vstd::arithmetic::mul::lemma_mul_inequality(
                    loan.loan_balance_total as int,
                    s0.total_loan as int,
                    interest,
                );
                assert(interest * loan.loan_balance_total <= interest * s0.total_loan) by {
                    vstd::arithmetic::mul::lemma_mul_is_commutative(
                        interest,
                        loan.loan_balance_total as int,
                    );
                    vstd::arithmetic::mul::lemma_mul_is_commutative(
                        interest,
                        s0.total_loan as int,
                    );
                }
            }
            let share: Balance = interest_generated * loan.loan_balance_total / total_loan;
            proof {
                assert(share as int == share_of(
                    interest,
                    s0.loans@[i as int].loan_balance_total as int,
                    s0.total_loan as int,
                ));
                assert(share_sum(s0.loans@, interest, s0.total_loan as int, i as int + 1)
                    == share_sum(s0.loans@, interest, s0.total_loan as int, i as int)
                    + share as int);
                if headroom {
                    lemma_share_sum_bounded(
                        s0.loans@,
                        interest,
                        s0.total_loan as int,
                        i as int + 1,
                    );
                    lemma_share_sum_bounded(s0.loans@, interest, s0.total_loan as int, i as int);
                    assert(self.total_loan as int + share <= u64::MAX);
                }
            }
            let ghost ev_b = self.events@;
            let ghost loans_b = self.loans@;
            let ghost total_b = self.total_loan;
            let _drawn = self.draw_from_loan(loan.who, loan.id, share);
            proof {
                crate::engine::lemma_loan_at(loans_b, i as int);
                assert(self.events@.subrange(0, s0.events@.len() as int) =~= ev_b.subrange(
                    0,
                    s0.events@.len() as int,
                ));
                if headroom {
                    if share_applied(s0, s0.loans@[i as int], interest) {
                        assert(loans_b.update(
                            i as int,
                            (Loan {
                                loan_balance_total: (loan.loan_balance_total + share) as Balance,
                                ..loan
                            }),
                        )[i as int].loan_balance_total as int == s0.loans@[
                        i as int].loan_balance_total + share);
                        assert(self.loans@[i as int].loan_balance_total as int == s0.loans@[
                        i as int].loan_balance_total + share);
                    } else {
                        assert(self.loans@[i as int].loan_balance_total == s0.loans@[
                        i as int].loan_balance_total);
                    }
                }
            }
            let ghost l_before = *ledger;
            let _paid = ledger.transfer(profit_asset, loan.who, profit_pool, share);
            proof {
                if isolated {
                    assert(l_before.balance(profit_asset, loan.who) == l0.balance(
                        profit_asset,
                        loan.who,
                    ));
                    assert(loan.who != profit_pool);
                    if !l0.denies((l0.calls() + i as int) as u64) && l0.balance(
                        profit_asset,
                        loan.who,
                    ) >= share {
                        assert(l_before.balance(profit_asset, profit_pool) + share
                            <= u64::MAX) by {
                            lemma_share_sum_bounded(
                                s0.loans@,
                                interest,
                                s0.total_loan as int,
                                i as int + 1,
                            );
                        }
                        assert(_paid);
                        assert(ledger.balance(profit_asset, loan.who) as int == l0.balance(
                            profit_asset,
                            loan.who,
                        ) - share);
                    }
                }
            }
            i += 1;
        }
        self.loan_interest_rate_current = rate;
        self.bonus_time = now;
    }
}

/// Utilization never exceeds the scale it is measured in.
proof fn lemma_utilization_bounded(total_loan: int, total_deposit: int)
    requires
        total_loan >= 0,
        total_deposit >= 0,
        total_deposit + total_loan > 0,
    ensures
        0 <= utilization_of(total_loan, total_deposit) <= INTEREST_RATE_PREC,
{
    let k = INTEREST_RATE_PREC as int;
    let d = total_deposit + total_loan;
    vstd::arithmetic::mul::lemma_mul_inequality(total_loan, d, k);
    vstd::arithmetic::mul::lemma_mul_nonnegative(total_loan, k);
    vstd::arithmetic::div_mod::lemma_div_is_ordered(total_loan * k, d * k, d);
    vstd::arithmetic::div_mod::lemma_div_multiples_vanish(k, d);
    vstd::arithmetic::div_mod::lemma_div_pos_is_pos(total_loan * k, d);
}

} // verus!
