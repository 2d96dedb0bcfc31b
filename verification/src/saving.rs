//! The share-based deposit pool: staking mints proportional share tokens,
//! redeeming pays savings back out and burns the share tokens.

use vstd::prelude::*;
use crate::types::{AccountId, Balance, Error, LoanResult};
use crate::ledger::{burn_post, failed_call_post, mint_post, same_balances, transfer_post, Ledger};
use crate::engine::LoanEngine;

verus! {

/// Share tokens held by one saver: the first entry of the table, or zero.
pub open spec fn dtokens_of(s: Seq<(AccountId, Balance)>, who: AccountId) -> Balance
    decreases s.len(),
{
    if s.len() == 0 {
        0
    } else if s[0].0 == who {
        s[0].1
    } else {
        dtokens_of(s.drop_first(), who)
    }
}

/// Updating the first entry of a saver rewrites that saver's share alone.
proof fn lemma_dtokens_update(s: Seq<(AccountId, Balance)>, i: int, e: (AccountId, Balance))
    requires
        0 <= i < s.len(),
        s[i].0 == e.0,
        forall|j: int| 0 <= j < i ==> (#[trigger] s[j]).0 != e.0,
    ensures
        dtokens_of(s.update(i, e), e.0) == e.1,
        forall|w: AccountId| w != e.0 ==> dtokens_of(s.update(i, e), w) == dtokens_of(s, w),
    decreases s.len(),
{
    let upd = s.update(i, e);
    if i == 0 {
        assert(upd.drop_first() =~= s.drop_first());
    } else {
        assert(upd.drop_first() =~= s.drop_first().update(i - 1, e));
        lemma_dtokens_update(s.drop_first(), i - 1, e);
        assert(upd[0] == s[0]);
        assert forall|w: AccountId| w != e.0 implies dtokens_of(upd, w) == dtokens_of(s, w) by {
            if s[0].0 == w {
            } else {
                assert(dtokens_of(upd, w) == dtokens_of(upd.drop_first(), w));
                assert(dtokens_of(s, w) == dtokens_of(s.drop_first(), w));
            }
        }
    }
}

/// Appending an entry for a new saver sets that saver's share alone.
proof fn lemma_dtokens_push(s: Seq<(AccountId, Balance)>, e: (AccountId, Balance))
    requires
        forall|j: int| 0 <= j < s.len() ==> (#[trigger] s[j]).0 != e.0,
    ensures
        dtokens_of(s.push(e), e.0) == e.1,
        forall|w: AccountId| w != e.0 ==> dtokens_of(s.push(e), w) == dtokens_of(s, w),
    decreases s.len(),
{
    let p = s.push(e);
    if s.len() == 0 {
        assert(p.drop_first() =~= Seq::<(AccountId, Balance)>::empty());
        assert(p[0] == e);
        assert forall|w: AccountId| w != e.0 implies dtokens_of(p, w) == dtokens_of(s, w) by {
            assert(dtokens_of(p, w) == dtokens_of(p.drop_first(), w));
        }
    } else {
        assert(p.drop_first() =~= s.drop_first().push(e));
        lemma_dtokens_push(s.drop_first(), e);
        assert(p[0] == s[0]);
        assert(dtokens_of(p, e.0) == dtokens_of(p.drop_first(), e.0));
        assert forall|w: AccountId| w != e.0 implies dtokens_of(p, w) == dtokens_of(s, w) by {
            if s[0].0 == w {
            } else {
                assert(dtokens_of(p, w) == dtokens_of(p.drop_first(), w));
                assert(dtokens_of(s, w) == dtokens_of(s.drop_first(), w));
            }
        }
    }
}

/// A saver with no entry holds no share.
proof fn lemma_dtokens_absent(s: Seq<(AccountId, Balance)>, who: AccountId)
    requires
        forall|j: int| 0 <= j < s.len() ==> (#[trigger] s[j]).0 != who,
    ensures
        dtokens_of(s, who) == 0,
    decreases s.len(),
{
    if s.len() > 0 {
        lemma_dtokens_absent(s.drop_first(), who);
    }
}

/// Share tokens a saving of `balance` is worth at the current pool state.
pub open spec fn user_dtoken_of(balance: int, market: int, total: int) -> int {
    if total == 0 {
        balance
    } else {
        balance * market / total
    }
}

impl LoanEngine {
    /// The market share-token balance the pool accounting reads.
    pub open spec fn market_dtoken_amount(self, l: Ledger) -> Balance {
        l.balance(self.config.market_dtoken_asset_id, self.config.market_dtoken_account_id)
    }

    /// The total share-token balance the pool accounting reads.
    pub open spec fn total_dtoken_amount(self, l: Ledger) -> Balance {
        l.balance(self.config.total_dtoken_asset_id, self.config.total_dtoken_account_id)
    }

    /// Everything a staking or redeeming step leaves alone: the whole loan
    /// side of the engine.
    pub open spec fn same_loan_state(self, other: LoanEngine) -> bool {
        &&& self.loans@ == other.loans@
        &&& self.loans_by_account@ == other.loans_by_account@
        &&& self.liquidating_loans@ == other.liquidating_loans@
        &&& self.total_loan == other.total_loan
        &&& self.total_collateral == other.total_collateral
        &&& self.next_loan_id == other.next_loan_id
        &&& self.config == other.config
        &&& self.paused == other.paused
        &&& self.btc_price == other.btc_price
        &&& self.loan_interest_rate_current == other.loan_interest_rate_current
        &&& self.bonus_time == other.bonus_time
        &&& self.events@ == other.events@
    }

    /// The checks and arithmetic guards `create_staking` runs before the
    /// share table is written.
    pub open spec fn staking_precheck(self, l0: Ledger, who: AccountId, balance: Balance) -> Option<Error> {
        let market = self.market_dtoken_amount(l0) as int;
        let total = self.total_dtoken_amount(l0) as int;
        if balance == 0 {
            Some(Error::ZeroSaving)
        } else if total != 0 && balance * market > u64::MAX {
            Some(Error::Overflow)
        } else if dtokens_of(self.account_dtokens@, who) + user_dtoken_of(
            balance as int,
            market,
            total,
        ) > u64::MAX {
            Some(Error::Overflow)
        } else {
            None
        }
    }

    /// Everything `create_staking` promises, also quoted by the dispatch
    /// operations that gate it.
    pub open spec fn staking_post(
        self,
        post: LoanEngine,
        l0: Ledger,
        l1: Ledger,
        who: AccountId,
        balance: Balance,
        r: LoanResult<()>,
    ) -> bool {
        &&& post.wf()
        &&& post.same_loan_state(self)
        &&& (self.staking_precheck(l0, who, balance) matches Some(e) ==> r == LoanResult::<
            (),
        >::Err(e) && post.account_dtokens@ == self.account_dtokens@ && l1 == l0)
        &&& (self.staking_precheck(l0, who, balance) is None ==> {
            let market = self.market_dtoken_amount(l0) as int;
            let total = self.total_dtoken_amount(l0) as int;
            let user = user_dtoken_of(balance as int, market, total);
            &&& dtokens_of(post.account_dtokens@, who) == dtokens_of(self.account_dtokens@, who)
                + user
            &&& forall|w: AccountId|
                w != who ==> dtokens_of(post.account_dtokens@, w) == dtokens_of(
                    self.account_dtokens@,
                    w,
                )
            &&& {
                ||| (r is Ok && exists|mid: Ledger|
                    #[trigger] mint_post(
                        l0,
                        mid,
                        self.config.market_dtoken_asset_id,
                        self.config.market_dtoken_account_id,
                        user as Balance,
                    ) && mint_post(
                        mid,
                        l1,
                        self.config.total_dtoken_asset_id,
                        self.config.total_dtoken_account_id,
                        balance,
                    ))
                ||| (r == LoanResult::<()>::Err(Error::InsufficientBalance) && failed_call_post(
                    l0,
                    l1,
                ))
                ||| (r == LoanResult::<()>::Err(Error::InsufficientBalance) && (exists|
                    mid: Ledger,
                |
                    #[trigger] mint_post(
                        l0,
                        mid,
                        self.config.market_dtoken_asset_id,
                        self.config.market_dtoken_account_id,
                        user as Balance,
                    ) && same_balances(mid, l1)) && l1.calls() == l0.calls() + 2
                    && l1.denied_schedule() == l0.denied_schedule())
            }
        })
    }

    /// The ledger conditions under which a staking cannot fail: distinct
    /// share-token keys, neither mint denied, both minted balances
    /// representable.
    pub open spec fn staking_undisturbed(self, l0: Ledger, balance: Balance) -> bool {
        let market = self.market_dtoken_amount(l0) as int;
        let total = self.total_dtoken_amount(l0) as int;
        let user = user_dtoken_of(balance as int, market, total);
        &&& (self.config.market_dtoken_asset_id != self.config.total_dtoken_asset_id
            || self.config.market_dtoken_account_id != self.config.total_dtoken_account_id)
        &&& !l0.denies(l0.calls())
        &&& !l0.denies((l0.calls() + 1) as u64)
        &&& market + user <= u64::MAX
        &&& total + balance <= u64::MAX
    }

    /// Stake a saving: credit the saver's share of the pool in the share
    /// table, then mint the share token to the market account and the
    /// saved amount to the total account.  A failed mint is surfaced with
    /// the share table already credited.
    pub fn create_staking(&mut self, ledger: &mut Ledger, who: AccountId, balance: Balance) -> (r: LoanResult<()>)
        requires
            old(self).wf(),
            old(ledger).calls() + 2 <= u64::MAX,
        ensures
            old(self).staking_post(*final(self), *old(ledger), *final(ledger), who, balance, r),
            old(self).staking_precheck(*old(ledger), who, balance) is None && old(
                self,
            ).staking_undisturbed(*old(ledger), balance) ==> r is Ok,
    {
        let ghost s0 = *self;
        let ghost l0 = *ledger;
        if balance == 0 {
            return Err(Error::ZeroSaving);
        }

        let market_dtoken_account_id = self.config.market_dtoken_account_id;
        let market_dtoken_asset_id = self.config.market_dtoken_asset_id;
        let total_dtoken_account_id = self.config.total_dtoken_account_id;
        let total_dtoken_asset_id = self.config.total_dtoken_asset_id;

        let market_dtoken_amount = ledger.balance_of(
            market_dtoken_asset_id,
            market_dtoken_account_id,
        );
        let total_dtoken_amount = ledger.balance_of(
            total_dtoken_asset_id,
            total_dtoken_account_id,
        );

        let user_dtoken: Balance;
        if total_dtoken_amount == 0 {
            user_dtoken = balance;
        } else {
            user_dtoken = match balance.checked_mul(market_dtoken_amount) {
                None => {
                    return Err(Error::Overflow);
                },
                Some(p) => p / total_dtoken_amount,
            };
            proof {
                vstd::arithmetic::mul::lemma_mul_nonnegative(
                    balance as int,
                    market_dtoken_amount as int,
                );
                vstd::arithmetic::div_mod::lemma_div_pos_is_pos(
                    balance as int * market_dtoken_amount as int,
                    total_dtoken_amount as int,
                );
                vstd::arithmetic::div_mod::lemma_div_is_ordered(
                    balance as int * market_dtoken_amount as int,
                    u64::MAX as int,
                    total_dtoken_amount as int,
                );
                assert(user_dtoken as int == user_dtoken_of(
                    balance as int,
                    s0.market_dtoken_amount(l0) as int,
                    s0.total_dtoken_amount(l0) as int,
                ));
            }
        }

        proof {
            assert(user_dtoken == user_dtoken_of(
                balance as int,
                s0.market_dtoken_amount(l0) as int,
                s0.total_dtoken_amount(l0) as int,
            ) as u64);
        }
        let ghost table0 = self.account_dtokens@;
        let mut entry_index: usize = 0;
        let mut found = false;
        while entry_index < self.account_dtokens.len() && !found
            invariant
                0 <= entry_index <= self.account_dtokens@.len(),
                forall|j: int|
                    0 <= j < entry_index ==> (#[trigger] self.account_dtokens@[j]).0 != who,
                found ==> entry_index < self.account_dtokens@.len()
                    && self.account_dtokens@[entry_index as int].0 == who,
                self.account_dtokens@ == table0,
            decreases self.account_dtokens@.len() - entry_index + (if found {
                0int
            } else {
                1int
            }),
        {
            if self.account_dtokens[entry_index].0 == who {
                found = true;
            } else {
                entry_index += 1;
            }
        }

        if found {
            let current = self.account_dtokens[entry_index].1;
            let new_value = match current.checked_add(user_dtoken) {
                None => {
                    proof {
                        lemma_dtokens_first(table0, entry_index as int);
                    }
                    return Err(Error::Overflow);
                },
                Some(v) => v,
            };
            self.account_dtokens.remove(entry_index);
            self.account_dtokens.insert(entry_index, (who, new_value));
            proof {
                assert(self.account_dtokens@ =~= table0.update(
                    entry_index as int,
                    (who, new_value),
                ));
                lemma_dtokens_update(table0, entry_index as int, (who, new_value));
                lemma_dtokens_first(table0, entry_index as int);
            }
        } else {
            self.account_dtokens.push((who, user_dtoken));
            proof {
                lemma_dtokens_push(table0, (who, user_dtoken));
                lemma_dtokens_absent(table0, who);
            }
        }

        if !ledger.mint(market_dtoken_asset_id, market_dtoken_account_id, user_dtoken) {
            proof {
                if s0.staking_undisturbed(l0, balance) {
                    assert(l0.can_mint(
                        market_dtoken_asset_id,
                        market_dtoken_account_id,
                        user_dtoken,
                    ));
                    assert(false);
                }
            }
            return Err(Error::InsufficientBalance);
        }
        let ghost l1 = *ledger;
        if !ledger.mint(total_dtoken_asset_id, total_dtoken_account_id, balance) {
            proof {
                if s0.staking_undisturbed(l0, balance) {
                    assert(l1.balance(total_dtoken_asset_id, total_dtoken_account_id)
                        == l0.balance(total_dtoken_asset_id, total_dtoken_account_id));
                    assert(!l1.denies(l1.calls()));
                    assert(l1.can_mint(total_dtoken_asset_id, total_dtoken_account_id, balance));
                    assert(false);
                }
                assert(mint_post(
                    l0,
                    l1,
                    market_dtoken_asset_id,
                    market_dtoken_account_id,
                    user_dtoken,
                ));
                assert(same_balances(l1, *ledger));
            }
            return Err(Error::InsufficientBalance);
        }
        proof {
            assert(mint_post(
                l0,
                l1,
                market_dtoken_asset_id,
                market_dtoken_account_id,
                user_dtoken,
            ) && mint_post(l1, *ledger, total_dtoken_asset_id, total_dtoken_account_id, balance));
        }
        Ok(())
    }

    /// The saver's current share-token balance.
    pub fn account_dtokens_of(&self, who: AccountId) -> (r: Balance)
        ensures
            r == dtokens_of(self.account_dtokens@, who),
    {
        let mut i: usize = 0;
        while i < self.account_dtokens.len()
            invariant
                0 <= i <= self.account_dtokens@.len(),
                forall|j: int|
                    0 <= j < i ==> (#[trigger] self.account_dtokens@[j]).0 != who,
            decreases self.account_dtokens@.len() - i,
        {
            if self.account_dtokens[i].0 == who {
                proof {
                    lemma_dtokens_first(self.account_dtokens@, i as int);
                }
                return self.account_dtokens[i].1;
            }
            i += 1;
        }
        proof {
            lemma_dtokens_absent(self.account_dtokens@, who);
        }
        0
    }

    /// Savings one redeemed share is worth: the share balance divided by
    /// the market-to-total ratio.
    pub open spec fn user_will_get_of(self, l: Ledger, who: AccountId) -> int {
        dtokens_of(self.account_dtokens@, who) as int / (self.market_dtoken_amount(l) as int
            / self.total_dtoken_amount(l) as int)
    }

    /// The checks `make_redeem_all` runs before any ledger call.
    pub open spec fn redeem_all_precheck(self, l0: Ledger, who: AccountId) -> Option<Error> {
        let market = self.market_dtoken_amount(l0) as int;
        let total = self.total_dtoken_amount(l0) as int;
        if total == 0 || market / total == 0 {
            Some(Error::Overflow)
        } else if l0.balance(self.config.collection_asset_id, self.config.collection_account_id)
            < self.user_will_get_of(l0, who) {
            Some(Error::InsufficientBalance)
        } else if self.total_dtoken_amount(l0) < self.user_will_get_of(l0, who) {
            Some(Error::InsufficientBalance)
        } else if self.market_dtoken_amount(l0) < dtokens_of(self.account_dtokens@, who) {
            Some(Error::InsufficientBalance)
        } else {
            None
        }
    }

    /// Everything `make_redeem_all` promises.
    pub open spec fn redeem_all_post(
        self,
        post: LoanEngine,
        l0: Ledger,
        l1: Ledger,
        who: AccountId,
        r: LoanResult<()>,
    ) -> bool {
        let uwg = self.user_will_get_of(l0, who) as Balance;
        let dt = dtokens_of(self.account_dtokens@, who);
        &&& post == self
        &&& (self.redeem_all_precheck(l0, who) matches Some(e) ==> r == LoanResult::<()>::Err(e)
            && l1 == l0)
        &&& (self.redeem_all_precheck(l0, who) is None ==> {
            ||| (r is Ok && exists|la: Ledger, lb: Ledger|
                transfer_post(
                    l0,
                    la,
                    self.config.collection_asset_id,
                    who,
                    self.config.collection_account_id,
                    uwg,
                ) && #[trigger] burn_post(
                    la,
                    lb,
                    self.config.total_dtoken_asset_id,
                    self.config.total_dtoken_account_id,
                    uwg,
                ) && burn_post(
                    lb,
                    l1,
                    self.config.market_dtoken_asset_id,
                    self.config.market_dtoken_account_id,
                    dt,
                ))
            ||| (r == LoanResult::<()>::Err(Error::InsufficientBalance) && failed_call_post(
                l0,
                l1,
            ))
            ||| (r == LoanResult::<()>::Err(Error::InsufficientBalance) && (exists|la: Ledger|
                #[trigger] transfer_post(
                    l0,
                    la,
                    self.config.collection_asset_id,
                    who,
                    self.config.collection_account_id,
                    uwg,
                ) && same_balances(la, l1)) && l1.calls() == l0.calls() + 2
                && l1.denied_schedule() == l0.denied_schedule())
            ||| (r == LoanResult::<()>::Err(Error::InsufficientBalance) && (exists|
                la: Ledger,
                lb: Ledger,
            |
                transfer_post(
                    l0,
                    la,
                    self.config.collection_asset_id,
                    who,
                    self.config.collection_account_id,
                    uwg,
                ) && #[trigger] burn_post(
                    la,
                    lb,
                    self.config.total_dtoken_asset_id,
                    self.config.total_dtoken_account_id,
                    uwg,
                ) && same_balances(lb, l1)) && l1.calls() == l0.calls() + 3
                && l1.denied_schedule() == l0.denied_schedule())
        })
    }

    /// The ledger conditions under which a full redemption cannot fail:
    /// the saver can pay the savings in, the three keys the calls touch
    /// are distinct, no call is denied, and the collection account's
    /// balance stays representable.
    pub open spec fn redeem_all_undisturbed(self, l0: Ledger, who: AccountId) -> bool {
        let uwg = self.user_will_get_of(l0, who);
        &&& who != self.config.collection_account_id
        &&& !l0.denies(l0.calls())
        &&& !l0.denies((l0.calls() + 1) as u64)
        &&& !l0.denies((l0.calls() + 2) as u64)
        &&& l0.balance(self.config.collection_asset_id, who) >= uwg
        &&& l0.balance(self.config.collection_asset_id, self.config.collection_account_id) + uwg
            <= u64::MAX
        &&& (self.config.total_dtoken_asset_id != self.config.collection_asset_id || (
        self.config.total_dtoken_account_id != who && self.config.total_dtoken_account_id
            != self.config.collection_account_id))
        &&& (self.config.market_dtoken_asset_id != self.config.collection_asset_id || (
        self.config.market_dtoken_account_id != who && self.config.market_dtoken_account_id
            != self.config.collection_account_id))
        &&& (self.config.market_dtoken_asset_id != self.config.total_dtoken_asset_id
            || self.config.market_dtoken_account_id != self.config.total_dtoken_account_id)
    }

    /// Redeem the caller's whole share: pay the savings it is worth into
    /// the collection account and burn the matching share tokens.  The
    /// share table itself is not rewritten here.
    pub fn make_redeem_all(&mut self, ledger: &mut Ledger, who: AccountId) -> (r: LoanResult<()>)
        requires
            old(self).wf(),
            old(ledger).calls() + 3 <= u64::MAX,
        ensures
            final(self).wf(),
            old(self).redeem_all_post(*final(self), *old(ledger), *final(ledger), who, r),
            old(self).redeem_all_precheck(*old(ledger), who) is None && old(
                self,
            ).redeem_all_undisturbed(*old(ledger), who) ==> r is Ok,
    {
        let ghost s0 = *self;
        let ghost l0 = *ledger;
        let market_dtoken_account_id = self.config.market_dtoken_account_id;
        let market_dtoken_asset_id = self.config.market_dtoken_asset_id;
        let total_dtoken_account_id = self.config.total_dtoken_account_id;
        let total_dtoken_asset_id = self.config.total_dtoken_asset_id;
        let collection_asset_id = self.config.collection_asset_id;
        let collection_account_id = self.config.collection_account_id;

        let market_dtoken_amount = ledger.balance_of(
            market_dtoken_asset_id,
            market_dtoken_account_id,
        );
        let total_dtoken_amount = ledger.balance_of(
            total_dtoken_asset_id,
            total_dtoken_account_id,
        );
        if total_dtoken_amount == 0 {
            return Err(Error::Overflow);
        }
        let ratio = market_dtoken_amount / total_dtoken_amount;
        if ratio == 0 {
            return Err(Error::Overflow);
        }

        let user_dtoken_amount = self.account_dtokens_of(who);
        let user_will_get = user_dtoken_amount / ratio;
        proof {
            assert(user_will_get == s0.user_will_get_of(l0, who) as Balance);
        }

        if ledger.balance_of(collection_asset_id, collection_account_id) < user_will_get {
            return Err(Error::InsufficientBalance);
        }
        if ledger.balance_of(total_dtoken_asset_id, total_dtoken_account_id) < user_will_get {
            return Err(Error::InsufficientBalance);
        }
        if ledger.balance_of(market_dtoken_asset_id, market_dtoken_account_id)
            < user_dtoken_amount {
            return Err(Error::InsufficientBalance);
        }

        if !ledger.transfer(collection_asset_id, who, collection_account_id, user_will_get) {
            proof {
                if s0.redeem_all_undisturbed(l0, who) {
                    assert(l0.can_transfer(
                        collection_asset_id,
                        who,
                        collection_account_id,
                        user_will_get,
                    ));
                    assert(false);
                }
            }
            return Err(Error::InsufficientBalance);
        }
        let ghost la = *ledger;
        if !ledger.burn(total_dtoken_asset_id, total_dtoken_account_id, user_will_get) {
            proof {
                if s0.redeem_all_undisturbed(l0, who) {
                    assert(la.balance(total_dtoken_asset_id, total_dtoken_account_id)
                        == l0.balance(total_dtoken_asset_id, total_dtoken_account_id));
                    assert(!la.denies(la.calls()));
                    assert(la.can_burn(
                        total_dtoken_asset_id,
                        total_dtoken_account_id,
                        user_will_get,
                    ));
                    assert(false);
                }
                assert(transfer_post(
                    l0,
                    la,
                    collection_asset_id,
                    who,
                    collection_account_id,
                    user_will_get,
                ));
                assert(same_balances(la, *ledger));
            }
            return Err(Error::InsufficientBalance);
        }
        let ghost lb = *ledger;
        if !ledger.burn(market_dtoken_asset_id, market_dtoken_account_id, user_dtoken_amount) {
            proof {
                if s0.redeem_all_undisturbed(l0, who) {
                    assert(lb.balance(market_dtoken_asset_id, market_dtoken_account_id)
                        == l0.balance(market_dtoken_asset_id, market_dtoken_account_id));
                    assert(!lb.denies(lb.calls()));
                    assert(lb.can_burn(
                        market_dtoken_asset_id,
                        market_dtoken_account_id,
                        user_dtoken_amount,
                    ));
                    assert(false);
                }
                assert(transfer_post(
                    l0,
                    la,
                    collection_asset_id,
                    who,
                    collection_account_id,
                    user_will_get,
                ) && burn_post(
                    la,
                    lb,
                    total_dtoken_asset_id,
                    total_dtoken_account_id,
                    user_will_get,
                ));
                assert(same_balances(lb, *ledger));
            }
            return Err(Error::InsufficientBalance);
        }
        proof {
            assert(transfer_post(
                l0,
                la,
                collection_asset_id,
                who,
                collection_account_id,
                user_will_get,
            ) && burn_post(
                la,
                lb,
                total_dtoken_asset_id,
                total_dtoken_account_id,
                user_will_get,
            ) && burn_post(
                lb,
                *ledger,
                market_dtoken_asset_id,
                market_dtoken_account_id,
                user_dtoken_amount,
            ));
        }
        Ok(())
    }

    /// Everything `make_redeem` promises, also quoted by the dispatch
    /// operations that gate it: the guard errors with state untouched, and
    /// past the guards a full redemption followed by a restake of the
    /// excess, each step meeting its own contract (their failures are
    /// swallowed, so the step results are existential).
    pub open spec fn make_redeem_post(
        self,
        post: LoanEngine,
        l0: Ledger,
        l1: Ledger,
        who: AccountId,
        amount: Balance,
        r: LoanResult<()>,
    ) -> bool {
        let market = self.market_dtoken_amount(l0) as int;
        let total = self.total_dtoken_amount(l0) as int;
        let uwg = self.user_will_get_of(l0, who);
        &&& post.same_loan_state(self)
        &&& (total == 0 || market / total == 0 ==> r == LoanResult::<()>::Err(Error::Overflow)
            && post == self && l1 == l0)
        &&& (!(total == 0 || market / total == 0) && uwg < amount ==> r == LoanResult::<
            (),
        >::Err(Error::RedeemOverLimit) && post == self && l1 == l0)
        &&& (!(total == 0 || market / total == 0) && uwg >= amount ==> r is Ok && exists|
            lmid: Ledger,
            r1: LoanResult<()>,
            r2: LoanResult<()>,
        |
            #![trigger self.redeem_all_post(self, l0, lmid, who, r1), self.staking_post(
                post,
                lmid,
                l1,
                who,
                (uwg - amount) as Balance,
                r2,
            )]
            self.redeem_all_post(self, l0, lmid, who, r1) && self.staking_post(
                post,
                lmid,
                l1,
                who,
                (uwg - amount) as Balance,
                r2,
            ))
        &&& forall|w: AccountId|
            w != who ==> dtokens_of(post.account_dtokens@, w) == dtokens_of(
                self.account_dtokens@,
                w,
            )
        &&& l1.calls() <= l0.calls() + 5
        &&& l1.denied_schedule() == l0.denied_schedule()
    }

    /// Redeem part of the caller's share: redeem everything, then stake
    /// what exceeds the requested amount back.  The two steps run
    /// best-effort: their own failures are not surfaced.
    pub fn make_redeem(&mut self, ledger: &mut Ledger, who: AccountId, amount: Balance) -> (r: LoanResult<()>)
        requires
            old(self).wf(),
            old(ledger).calls() + 5 <= u64::MAX,
        ensures
            final(self).wf(),
            old(self).make_redeem_post(*final(self), *old(ledger), *final(ledger), who, amount, r),
    {
        let market_dtoken_amount = ledger.balance_of(
            self.config.market_dtoken_asset_id,
            self.config.market_dtoken_account_id,
        );
        let total_dtoken_amount = ledger.balance_of(
            self.config.total_dtoken_asset_id,
            self.config.total_dtoken_account_id,
        );
        if total_dtoken_amount == 0 {
            return Err(Error::Overflow);
        }
        let ratio = market_dtoken_amount / total_dtoken_amount;
        if ratio == 0 {
            return Err(Error::Overflow);
        }
        let user_dtoken_amount = self.account_dtokens_of(who);
        let user_will_get = user_dtoken_amount / ratio;

        if user_will_get < amount {
            return Err(Error::RedeemOverLimit);
        }
        let ghost s0 = *self;
        let ghost l0 = *ledger;
        let _redeemed = self.make_redeem_all(ledger, who);
        let ghost lmid = *ledger;
        let _restaked = self.create_staking(ledger, who, user_will_get - amount);
        proof {
            assert(user_will_get == s0.user_will_get_of(l0, who) as Balance);
            assert(s0.redeem_all_post(s0, l0, lmid, who, _redeemed));
            assert(s0.staking_post(
                *self,
                lmid,
                *ledger,
                who,
                (s0.user_will_get_of(l0, who) - amount) as Balance,
                _restaked,
            ));
        }
        Ok(())
    }
}

/// In a share table whose first `i` entries miss `who`, entry `i` of `who`
/// is the share that counts.
proof fn lemma_dtokens_first(s: Seq<(AccountId, Balance)>, i: int)
    requires
        0 <= i < s.len(),
        forall|j: int| 0 <= j < i ==> (#[trigger] s[j]).0 != s[i].0,
    ensures
        dtokens_of(s, s[i].0) == s[i].1,
    decreases i,
{
    if i > 0 {
        assert(s.drop_first()[i - 1] == s[i]);
        lemma_dtokens_first(s.drop_first(), i - 1);
    }
}

} // verus!
