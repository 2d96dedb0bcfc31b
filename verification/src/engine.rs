//! The loan registry and its surrounding state: global risk configuration,
//! running aggregates, the liquidating set, and the administrative surface.

use vstd::prelude::*;
use crate::types::{
    ltv_of, AccountId, AssetId, Balance, CollateralLoan, Error, Event, LTV, LTV_PREC, Loan,
    LoanId, LoanResult, Moment, PRICE_PREC, Price,
};

verus! {

/// Global risk configuration and the privileged/custodial accounts.
///
/// The surrounding system owns these values; the engine reads them and
/// changes them only through the privileged setters.
#[derive(Clone, Copy, Debug, PartialEq, Eq, Structural)]
pub struct Config {
    /// The asset users save into the deposit pool.
    pub collection_asset_id: AssetId,
    /// The account the deposit pool's savings sit in.
    pub collection_account_id: AccountId,
    pub market_dtoken_asset_id: AssetId,
    pub market_dtoken_account_id: AccountId,
    pub total_dtoken_asset_id: AssetId,
    pub total_dtoken_account_id: AccountId,
    /// Asset and account that collect the engine's profit.
    pub profit_asset_id: AssetId,
    pub profit_pool: AccountId,
    /// The custodial pool holding collateral of active loans.
    pub pawn_shop: AccountId,
    pub collateral_asset_id: AssetId,
    pub loan_asset_id: AssetId,
    /// The highest LTV a loan may be created at, in `LTV_PREC` units.
    pub global_ltv_limit: LTV,
    /// At or above this LTV a loan is liquidated.
    pub global_liquidation_threshold: LTV,
    /// At or above this LTV a warning is emitted.
    pub global_warning_threshold: LTV,
    /// A settable rate that no computation consults; settlement reads
    /// `liquidation_penalty` instead, keeping the two values split.
    pub penalty_rate: u32,
    /// Share of a settlement's surplus cut as penalty, in `LTV_PREC`
    /// units; this, not `penalty_rate`, is what `mark_loan_liquidated`
    /// applies, and no setter changes it.
    pub liquidation_penalty: u32,
    /// The only account allowed to settle liquidating loans.
    pub liquidation_account: AccountId,
    /// Collateral below this floor is rejected at creation.
    pub minimum_collateral: Balance,
    /// Cap on the total loan balance; no cap if `None`.
    pub loan_cap: Option<Balance>,
    /// The privileged account for administrative operations.
    pub admin: AccountId,
}

/// The loan ids belonging to one account, the owner index's entry.
pub struct AccountLoans {
    pub who: AccountId,
    pub loan_ids: Vec<LoanId>,
}

/// Sum of `loan_balance_total` over a registry.
pub open spec fn sum_loans(s: Seq<Loan>) -> int
    decreases s.len(),
{
    if s.len() == 0 {
        0
    } else {
        sum_loans(s.drop_last()) + s.last().loan_balance_total
    }
}

/// Sum of `collateral_balance_available` over a registry.
pub open spec fn sum_collateral(s: Seq<Loan>) -> int
    decreases s.len(),
{
    if s.len() == 0 {
        0
    } else {
        sum_collateral(s.drop_last()) + s.last().collateral_balance_available
    }
}

pub open spec fn has_loan(s: Seq<Loan>, id: LoanId) -> bool {
    exists|i: int| 0 <= i < s.len() && s[i].id == id
}

/// Index of the loan with the given id (meaningful under `has_loan`).
pub open spec fn loan_index(s: Seq<Loan>, id: LoanId) -> int {
    choose|i: int| 0 <= i < s.len() && s[i].id == id
}

/// The loan with the given id (meaningful under `has_loan`).
pub open spec fn loan_of(s: Seq<Loan>, id: LoanId) -> Loan {
    s[loan_index(s, id)]
}

pub open spec fn unique_ids(s: Seq<Loan>) -> bool {
    forall|i: int, j: int|
        0 <= i < s.len() && 0 <= j < s.len() && i != j ==> s[i].id != s[j].id
}

/// The loan ids the owner index holds for `who`.
pub open spec fn owner_ids(idx: Seq<AccountLoans>, who: AccountId) -> Seq<LoanId>
    decreases idx.len(),
{
    if idx.len() == 0 {
        Seq::empty()
    } else if idx[0].who == who {
        idx[0].loan_ids@
    } else {
        owner_ids(idx.drop_first(), who)
    }
}

/// `s` with every occurrence of `id` taken out, order kept.
pub open spec fn remove_id(s: Seq<LoanId>, id: LoanId) -> Seq<LoanId>
    decreases s.len(),
{
    if s.len() == 0 {
        Seq::empty()
    } else if s[0] == id {
        remove_id(s.drop_first(), id)
    } else {
        seq![s[0]] + remove_id(s.drop_first(), id)
    }
}

pub proof fn lemma_sum_loans_push(s: Seq<Loan>, l: Loan)
    ensures
        sum_loans(s.push(l)) == sum_loans(s) + l.loan_balance_total,
        sum_collateral(s.push(l)) == sum_collateral(s) + l.collateral_balance_available,
{
    assert(s.push(l).drop_last() =~= s);
}

pub proof fn lemma_sum_loans_update(s: Seq<Loan>, i: int, l: Loan)
    requires
        0 <= i < s.len(),
    ensures
        sum_loans(s.update(i, l)) == sum_loans(s) - s[i].loan_balance_total
            + l.loan_balance_total,
        sum_collateral(s.update(i, l)) == sum_collateral(s) - s[i].collateral_balance_available
            + l.collateral_balance_available,
    decreases s.len(),
{
    if i == s.len() - 1 {
        assert(s.update(i, l).drop_last() =~= s.drop_last());
    } else {
        assert(s.update(i, l).drop_last() =~= s.drop_last().update(i, l));
        lemma_sum_loans_update(s.drop_last(), i, l);
    }
}

pub proof fn lemma_sum_loans_remove(s: Seq<Loan>, i: int)
    requires
        0 <= i < s.len(),
    ensures
        sum_loans(s.remove(i)) == sum_loans(s) - s[i].loan_balance_total,
        sum_collateral(s.remove(i)) == sum_collateral(s) - s[i].collateral_balance_available,
    decreases s.len(),
{
    if i == s.len() - 1 {
        assert(s.remove(i) =~= s.drop_last());
    } else {
        assert(s.remove(i).drop_last() =~= s.drop_last().remove(i));
        lemma_sum_loans_remove(s.drop_last(), i);
    }
}

/// Every element's contribution is at most the whole sum.
pub proof fn lemma_sum_loans_bound(s: Seq<Loan>, i: int)
    requires
        0 <= i < s.len(),
    ensures
        s[i].loan_balance_total <= sum_loans(s),
        s[i].collateral_balance_available <= sum_collateral(s),
    decreases s.len(),
{
    lemma_sum_loans_nonneg(s.drop_last());
    if i < s.len() - 1 {
        lemma_sum_loans_bound(s.drop_last(), i);
    }
}

pub proof fn lemma_sum_loans_nonneg(s: Seq<Loan>)
    ensures
        sum_loans(s) >= 0,
        sum_collateral(s) >= 0,
    decreases s.len(),
{
    if s.len() > 0 {
        lemma_sum_loans_nonneg(s.drop_last());
    }
}


/// In a registry with unique ids, the loan found at an index is the loan
/// looked up by its id.
pub proof fn lemma_loan_at(s: Seq<Loan>, i: int)
    requires
        unique_ids(s),
        0 <= i < s.len(),
    ensures
        has_loan(s, s[i].id),
        loan_index(s, s[i].id) == i,
        loan_of(s, s[i].id) == s[i],
{
    assert(has_loan(s, s[i].id));
    let j = loan_index(s, s[i].id);
    assert(0 <= j < s.len() && s[j].id == s[i].id);
}

/// Updating the first entry of `who` rewrites `who`'s ids and no other's.
pub proof fn lemma_owner_ids_update(idx: Seq<AccountLoans>, i: int, e: AccountLoans)
    requires
        0 <= i < idx.len(),
        idx[i].who == e.who,
        forall|j: int| 0 <= j < i ==> (#[trigger] idx[j]).who != e.who,
    ensures
        owner_ids(idx.update(i, e), e.who) == e.loan_ids@,
        forall|w: AccountId| w != e.who ==> owner_ids(idx.update(i, e), w) == owner_ids(idx, w),
    decreases idx.len(),
{
    let upd = idx.update(i, e);
    if i == 0 {
        assert(upd.drop_first() =~= idx.drop_first());
        assert(upd[0] == e);
        assert(owner_ids(upd, e.who) == e.loan_ids@);
        assert forall|w: AccountId| w != e.who implies owner_ids(upd, w) == owner_ids(
            idx,
            w,
        ) by {
            assert(owner_ids(upd, w) == owner_ids(upd.drop_first(), w));
            assert(owner_ids(idx, w) == owner_ids(idx.drop_first(), w));
        }
    } else {
        assert(upd.drop_first() =~= idx.drop_first().update(i - 1, e));
        lemma_owner_ids_update(idx.drop_first(), i - 1, e);
        assert(upd[0] == idx[0]);
        assert(idx[0].who != e.who);
        assert(owner_ids(upd, e.who) == owner_ids(upd.drop_first(), e.who));
        assert forall|w: AccountId| w != e.who implies owner_ids(upd, w) == owner_ids(
            idx,
            w,
        ) by {
            if idx[0].who == w {
                assert(owner_ids(upd, w) == upd[0].loan_ids@);
                assert(owner_ids(idx, w) == idx[0].loan_ids@);
            } else {
                assert(owner_ids(upd, w) == owner_ids(upd.drop_first(), w));
                assert(owner_ids(idx, w) == owner_ids(idx.drop_first(), w));
            }
        }
    }
}

/// Appending an entry for a fresh owner sets that owner's ids and no other's.
pub proof fn lemma_owner_ids_push(idx: Seq<AccountLoans>, e: AccountLoans)
    requires
        forall|j: int| 0 <= j < idx.len() ==> (#[trigger] idx[j]).who != e.who,
    ensures
        owner_ids(idx.push(e), e.who) == e.loan_ids@,
        forall|w: AccountId| w != e.who ==> owner_ids(idx.push(e), w) == owner_ids(idx, w),
    decreases idx.len(),
{
    let p = idx.push(e);
    if idx.len() == 0 {
        assert(p.drop_first() =~= Seq::<AccountLoans>::empty());
        assert(p[0] == e);
        assert forall|w: AccountId| w != e.who implies owner_ids(p, w) == owner_ids(idx, w) by {
            assert(owner_ids(p, w) == owner_ids(p.drop_first(), w));
        }
    } else {
        assert(p.drop_first() =~= idx.drop_first().push(e));
        lemma_owner_ids_push(idx.drop_first(), e);
        assert(p[0] == idx[0]);
        assert(idx[0].who != e.who);
        assert(owner_ids(p, e.who) == owner_ids(p.drop_first(), e.who));
        assert forall|w: AccountId| w != e.who implies owner_ids(p, w) == owner_ids(idx, w) by {
            if idx[0].who == w {
                assert(owner_ids(p, w) == p[0].loan_ids@);
            } else {
                assert(owner_ids(p, w) == owner_ids(p.drop_first(), w));
                assert(owner_ids(idx, w) == owner_ids(idx.drop_first(), w));
            }
        }
    }
}

/// In an index where `i` is the first entry of its owner, the owner's ids
/// are that entry's.
pub proof fn lemma_owner_index_first(idx: Seq<AccountLoans>, i: int)
    requires
        0 <= i < idx.len(),
        forall|j: int| 0 <= j < i ==> (#[trigger] idx[j]).who != idx[i].who,
    ensures
        owner_ids(idx, idx[i].who) == idx[i].loan_ids@,
    decreases i,
{
    if i > 0 {
        assert(idx.drop_first()[i - 1] == idx[i]);
        lemma_owner_index_first(idx.drop_first(), i - 1);
    }
}

/// An owner with no entry has no ids.
pub proof fn lemma_owner_ids_absent(idx: Seq<AccountLoans>, who: AccountId)
    requires
        forall|j: int| 0 <= j < idx.len() ==> (#[trigger] idx[j]).who != who,
    ensures
        owner_ids(idx, who) == Seq::<LoanId>::empty(),
    decreases idx.len(),
{
    if idx.len() > 0 {
        lemma_owner_ids_absent(idx.drop_first(), who);
    }
}

/// Taking out an id that is not there changes nothing.
pub proof fn lemma_remove_id_absent(s: Seq<LoanId>, id: LoanId)
    requires
        !s.contains(id),
    ensures
        remove_id(s, id) == s,
    decreases s.len(),
{
    if s.len() == 0 {
        assert(remove_id(s, id) =~= s);
    } else {
        assert(s[0] != id);
        assert(!s.drop_first().contains(id)) by {
            if s.drop_first().contains(id) {
                let k = choose|k: int| 0 <= k < s.drop_first().len() && s.drop_first()[k] == id;
                assert(s[k + 1] == id);
            }
        }
        lemma_remove_id_absent(s.drop_first(), id);
        assert(seq![s[0]] + s.drop_first() =~= s);
    }
}

/// Appending an id and taking it out again restores the sequence.
pub proof fn lemma_remove_id_push(s: Seq<LoanId>, id: LoanId)
    requires
        !s.contains(id),
    ensures
        remove_id(s.push(id), id) == s,
    decreases s.len(),
{
    if s.len() == 0 {
        assert(s.push(id)[0] == id);
        assert(s.push(id).drop_first() =~= Seq::<LoanId>::empty());
        assert(remove_id(s.push(id), id) == remove_id(Seq::<LoanId>::empty(), id));
        assert(remove_id(Seq::<LoanId>::empty(), id) =~= s);
    } else {
        assert(s[0] != id);
        assert(s.push(id).drop_first() =~= s.drop_first().push(id));
        assert(!s.drop_first().contains(id)) by {
            if s.drop_first().contains(id) {
                let k = choose|k: int| 0 <= k < s.drop_first().len() && s.drop_first()[k] == id;
                assert(s[k + 1] == id);
            }
        }
        lemma_remove_id_push(s.drop_first(), id);
        assert(seq![s[0]] + s.drop_first() =~= s);
    }
}

/// What remains after `remove_id` was already there.
pub proof fn lemma_remove_id_subset(s: Seq<LoanId>, id: LoanId, x: LoanId)
    requires
        remove_id(s, id).contains(x),
    ensures
        s.contains(x),
    decreases s.len(),
{
    if s.len() == 0 {
    } else if s[0] == id {
        lemma_remove_id_subset(s.drop_first(), id, x);
        let k = choose|k: int| 0 <= k < s.drop_first().len() && s.drop_first()[k] == x;
        assert(s[k + 1] == x);
    } else {
        let r = remove_id(s, id);
        let k = choose|k: int| 0 <= k < r.len() && r[k] == x;
        if k == 0 {
            assert(s[0] == x);
        } else {
            assert(remove_id(s.drop_first(), id)[k - 1] == x);
            lemma_remove_id_subset(s.drop_first(), id, x);
            let k2 = choose|k2: int|
                0 <= k2 < s.drop_first().len() && s.drop_first()[k2] == x;
            assert(s[k2 + 1] == x);
        }
    }
}

/// Ids other than the removed one survive `remove_id`.
pub proof fn lemma_remove_id_keeps(s: Seq<LoanId>, id: LoanId, x: LoanId)
    requires
        s.contains(x),
        x != id,
    ensures
        remove_id(s, id).contains(x),
    decreases s.len(),
{
    let k = choose|k: int| 0 <= k < s.len() && s[k] == x;
    if k == 0 {
        if s[0] == id {
        } else {
            assert(remove_id(s, id)[0] == x);
        }
    } else {
        assert(s.drop_first()[k - 1] == x);
        lemma_remove_id_keeps(s.drop_first(), id, x);
        let r = remove_id(s.drop_first(), id);
        let k2 = choose|k2: int| 0 <= k2 < r.len() && r[k2] == x;
        if s[0] == id {
        } else {
            assert(remove_id(s, id)[k2 + 1] == x);
        }
    }
}

/// The removed id is gone entirely.
pub proof fn lemma_remove_id_gone(s: Seq<LoanId>, id: LoanId)
    ensures
        !remove_id(s, id).contains(id),
    decreases s.len(),
{
    if s.len() > 0 {
        lemma_remove_id_gone(s.drop_first(), id);
        if s[0] != id {
            let r = remove_id(s, id);
            if r.contains(id) {
                let k = choose|k: int| 0 <= k < r.len() && r[k] == id;
                if k > 0 {
                    assert(remove_id(s.drop_first(), id)[k - 1] == id);
                }
            }
        }
    }
}

/// A copy of `v` with every occurrence of `id` filtered out.
pub fn remove_id_vec(v: &Vec<LoanId>, id: LoanId) -> (r: Vec<LoanId>)
    ensures
        r@ == remove_id(v@, id),
{
    let mut r: Vec<LoanId> = Vec::new();
    let mut i: usize = 0;
    proof {
        assert(v@.skip(0) =~= v@);
        assert(r@ + remove_id(v@, id) =~= remove_id(v@, id));
    }
    while i < v.len()
        invariant
            0 <= i <= v@.len(),
            r@ + remove_id(v@.skip(i as int), id) == remove_id(v@, id),
        decreases v@.len() - i,
    {
        proof {
            assert(v@.skip(i as int).drop_first() =~= v@.skip(i as int + 1));
            assert(v@.skip(i as int)[0] == v@[i as int]);
        }
        let ghost r0 = r@;
        if v[i] != id {
            r.push(v[i]);
            proof {
                assert(r@ =~= r0 + seq![v@[i as int]]);
                assert(r@ + remove_id(v@.skip(i as int + 1), id) =~= r0 + remove_id(
                    v@.skip(i as int),
                    id,
                ));
            }
        }
        i += 1;
    }
    proof {
        assert(v@.skip(v@.len() as int) =~= Seq::<LoanId>::empty());
        assert(r@ + Seq::<LoanId>::empty() =~= r@);
    }
    r
}

/// Collateral needed to sit exactly at `limit` for a loan of `loan` at `price`.
pub open spec fn must_collateral_spec(loan: int, price: int, limit: int) -> int {
    (loan * LTV_PREC * PRICE_PREC) / (price * limit)
}

/// Largest loan `collateral` supports at `price` under `limit`.
pub open spec fn can_loan_spec(collateral: int, price: int, limit: int) -> int {
    (collateral * price * limit) / (LTV_PREC as int * PRICE_PREC as int)
}
/// The engine: loan registry, owner index, liquidating set, aggregates,
/// configuration and the notification log.
pub struct LoanEngine {
    pub config: Config,
    /// The module-level switch disabling the user-facing operations.
    pub paused: bool,
    /// Latest collateral price pushed by the oracle.
    pub btc_price: Price,
    /// Monotonically increasing id of the next loan to create.
    pub next_loan_id: LoanId,
    /// The currently running loans.
    pub loans: Vec<Loan>,
    /// Secondary index from owner to loan ids.
    pub loans_by_account: Vec<AccountLoans>,
    /// Ids of loans currently under liquidation.
    pub liquidating_loans: Vec<LoanId>,
    /// Total loan balance over the registry.
    pub total_loan: Balance,
    /// Total available collateral over the registry.
    pub total_collateral: Balance,
    /// Rate the interest accrual engine derived last.
    pub loan_interest_rate_current: Balance,
    /// Time of the last accrual.
    pub bonus_time: Moment,
    /// Share-token balance per saver of the deposit pool.
    pub account_dtokens: Vec<(AccountId, Balance)>,
    /// Notifications emitted so far.
    pub events: Vec<Event>,
}

impl LoanEngine {
    /// Every state the engine reaches satisfies this invariant: the
    /// aggregates equal the sums over the registry, available collateral
    /// never exceeds the collateral ever posted, loan ids are unique and
    /// below the id counter, and an id is in the liquidating set exactly
    /// when its loan's status is `Liquidating`.
    pub open spec fn wf(self) -> bool {
        &&& self.total_loan as int == sum_loans(self.loans@)
        &&& self.total_collateral as int == sum_collateral(self.loans@)
        &&& forall|i: int|
            0 <= i < self.loans@.len() ==> (#[trigger] self.loans@[i]).collateral_balance_available
                <= self.loans@[i].collateral_balance_original
        &&& forall|i: int|
            0 <= i < self.loans@.len() ==> (#[trigger] self.loans@[i]).id < self.next_loan_id
        &&& unique_ids(self.loans@)
        &&& forall|k: int|
            0 <= k < self.liquidating_loans@.len() ==> has_loan(
                self.loans@,
                #[trigger] self.liquidating_loans@[k],
            ) && loan_of(self.loans@, self.liquidating_loans@[k]).status is Liquidating
        &&& forall|i: int|
            0 <= i < self.loans@.len() ==> ((#[trigger] self.loans@[i]).status is Liquidating
                ==> self.liquidating_loans@.contains(self.loans@[i].id))
        &&& forall|e: int, k: int|
            0 <= e < self.loans_by_account@.len() && 0 <= k
                < self.loans_by_account@[e].loan_ids@.len()
                ==> #[trigger] self.loans_by_account@[e].loan_ids@[k] < self.next_loan_id
        &&& self.config.global_ltv_limit >= 1
        &&& self.config.liquidation_penalty <= LTV_PREC
        &&& self.btc_price >= 1
    }

    /// A fresh engine with the given configuration and starting price.
    pub fn new(config: Config, btc_price: Price) -> (e: LoanEngine)
        requires
            config.global_ltv_limit >= 1,
            config.liquidation_penalty <= LTV_PREC,
            btc_price >= 1,
        ensures
            e.wf(),
            e.config == config,
            e.btc_price == btc_price,
            !e.paused,
            e.next_loan_id == 0,
            e.loans@ =~= Seq::<Loan>::empty(),
            e.liquidating_loans@ =~= Seq::<LoanId>::empty(),
            e.total_loan == 0,
            e.total_collateral == 0,
            e.events@ =~= Seq::<Event>::empty(),
            forall|w: AccountId| owner_ids(e.loans_by_account@, w) =~= Seq::<LoanId>::empty(),
            e.account_dtokens@ =~= Seq::<(AccountId, Balance)>::empty(),
            e.loan_interest_rate_current == 0,
            e.bonus_time == 0,
    {
        LoanEngine {
            config,
            paused: false,
            btc_price,
            next_loan_id: 0,
            loans: Vec::new(),
            loans_by_account: Vec::new(),
            liquidating_loans: Vec::new(),
            total_loan: 0,
            total_collateral: 0,
            loan_interest_rate_current: 0,
            bonus_time: 0,
            account_dtokens: Vec::new(),
            events: Vec::new(),
        }
    }

    /// Parts of the state no lifecycle operation touches.
    pub open spec fn same_aux(self, other: LoanEngine) -> bool {
        &&& self.config == other.config
        &&& self.paused == other.paused
        &&& self.btc_price == other.btc_price
        &&& self.loan_interest_rate_current == other.loan_interest_rate_current
        &&& self.bonus_time == other.bonus_time
        &&& self.account_dtokens@ == other.account_dtokens@
    }

    /// The registry, owner index, liquidating set and aggregates agree.
    pub open spec fn same_registry(self, other: LoanEngine) -> bool {
        &&& self.loans@ == other.loans@
        &&& forall|w: AccountId|
            owner_ids(self.loans_by_account@, w) == owner_ids(other.loans_by_account@, w)
        &&& self.liquidating_loans@ == other.liquidating_loans@
        &&& self.total_loan == other.total_loan
        &&& self.total_collateral == other.total_collateral
    }

    /// Index of the loan with `loan_id`, scanning from the front.
    pub fn find_loan(&self, loan_id: LoanId) -> (r: Option<usize>)
        requires
            unique_ids(self.loans@),
        ensures
            match r {
                Some(i) => i < self.loans@.len() && self.loans@[i as int].id == loan_id && i
                    as int == loan_index(self.loans@, loan_id) && has_loan(self.loans@, loan_id),
                None => !has_loan(self.loans@, loan_id),
            },
    {
        let mut i: usize = 0;
        while i < self.loans.len()
            invariant
                0 <= i <= self.loans@.len(),
                forall|j: int| 0 <= j < i ==> (#[trigger] self.loans@[j]).id != loan_id,
                unique_ids(self.loans@),
            decreases self.loans@.len() - i,
        {
            if self.loans[i].id == loan_id {
                proof {
                    let k = loan_index(self.loans@, loan_id);
                    assert(0 <= k < self.loans@.len() && self.loans@[k].id == loan_id);
                }
                return Some(i);
            }
            i += 1;
        }
        None
    }

    /// Index of the owner index's entry for `who` (the first one).
    pub fn find_account_entry(&self, who: AccountId) -> (r: Option<usize>)
        ensures
            match r {
                Some(i) => i < self.loans_by_account@.len() && self.loans_by_account@[i
                    as int].who == who && forall|j: int|
                    0 <= j < i ==> (#[trigger] self.loans_by_account@[j]).who != who,
                None => forall|j: int|
                    0 <= j < self.loans_by_account@.len() ==> (
                    #[trigger] self.loans_by_account@[j]).who != who,
            },
    {
        let mut i: usize = 0;
        while i < self.loans_by_account.len()
            invariant
                0 <= i <= self.loans_by_account@.len(),
                forall|j: int| 0 <= j < i ==> (#[trigger] self.loans_by_account@[j]).who != who,
            decreases self.loans_by_account@.len() - i,
        {
            if self.loans_by_account[i].who == who {
                return Some(i);
            }
            i += 1;
        }
        None
    }

    /// The loan with the given id, if it is registered.
    pub fn get_loan_by_id(&self, loan_id: LoanId) -> (r: Option<Loan>)
        requires
            self.wf(),
        ensures
            match r {
                Some(l) => has_loan(self.loans@, loan_id) && l == loan_of(self.loans@, loan_id),
                None => !has_loan(self.loans@, loan_id),
            },
    {
        match self.find_loan(loan_id) {
            Some(i) => Some(self.loans[i]),
            None => None,
        }
    }

    /// The loan ids the owner index holds for `who`.
    pub fn loans_by_account_of(&self, who: AccountId) -> (r: Vec<LoanId>)
        ensures
            r@ == owner_ids(self.loans_by_account@, who),
    {
        match self.find_account_entry(who) {
            Some(i) => {
                proof {
                    lemma_owner_index_first(self.loans_by_account@, i as int);
                }
                let entry_ids = &self.loans_by_account[i].loan_ids;
                let mut out: Vec<LoanId> = Vec::new();
                let mut k: usize = 0;
                while k < entry_ids.len()
                    invariant
                        0 <= k <= entry_ids@.len(),
                        out@ == entry_ids@.take(k as int),
                    decreases entry_ids@.len() - k,
                {
                    out.push(entry_ids[k]);
                    proof {
                        assert(out@ =~= entry_ids@.take(k as int + 1));
                    }
                    k += 1;
                }
                proof {
                    assert(entry_ids@.take(entry_ids@.len() as int) =~= entry_ids@);
                }
                out
            },
            None => {
                proof {
                    lemma_owner_ids_absent(self.loans_by_account@, who);
                }
                Vec::new()
            },
        }
    }

    /// Whether the loan is in the liquidating set.
    pub fn check_loan_in_liquidation(&self, loan_id: &LoanId) -> (r: bool)
        ensures
            r == self.liquidating_loans@.contains(*loan_id),
    {
        let mut i: usize = 0;
        while i < self.liquidating_loans.len()
            invariant
                0 <= i <= self.liquidating_loans@.len(),
                forall|j: int| 0 <= j < i ==> self.liquidating_loans@[j] != *loan_id,
            decreases self.liquidating_loans@.len() - i,
        {
            if self.liquidating_loans[i] == *loan_id {
                return true;
            }
            i += 1;
        }
        false
    }

    /// Allocate the next loan id, increasing the counter.
    pub fn get_next_loan_id(&mut self) -> (r: LoanId)
        requires
            old(self).next_loan_id < u64::MAX,
        ensures
            r == old(self).next_loan_id,
            final(self).next_loan_id == old(self).next_loan_id + 1,
            *final(self) == (LoanEngine { next_loan_id: final(self).next_loan_id, ..*old(self) }),
    {
        let org = self.next_loan_id;
        self.next_loan_id = self.next_loan_id + 1;
        org
    }

    /// Pause the module: only the privileged account may.
    pub fn pause(&mut self, origin: AccountId) -> (r: LoanResult<()>)
        ensures
            origin == old(self).config.admin ==> r is Ok && final(self).paused && final(self).events@ == old(self).events@.push(Event::Paused) && *final(self) == (LoanEngine {
                paused: true,
                events: final(self).events,
                ..*old(self)
            }),
            origin != old(self).config.admin ==> r == LoanResult::<()>::Err(Error::Unauthorized)
                && *final(self) == *old(self),
    {
        if origin != self.config.admin {
            return Err(Error::Unauthorized);
        }
        self.paused = true;
        self.events.push(Event::Paused);
        Ok(())
    }

    /// Resume the module: only the privileged account may.
    pub fn resume(&mut self, origin: AccountId) -> (r: LoanResult<()>)
        ensures
            origin == old(self).config.admin ==> r is Ok && !final(self).paused && final(self).events@ == old(self).events@.push(Event::Resumed) && *final(self) == (LoanEngine {
                paused: false,
                events: final(self).events,
                ..*old(self)
            }),
            origin != old(self).config.admin ==> r == LoanResult::<()>::Err(Error::Unauthorized)
                && *final(self) == *old(self),
    {
        if origin != self.config.admin {
            return Err(Error::Unauthorized);
        }
        self.paused = false;
        self.events.push(Event::Resumed);
        Ok(())
    }


    /// Privileged setter for the asset the deposit pool collects.  The
    /// ledger model keeps no asset registry, so no existence check guards
    /// the asset setters; an unknown asset simply has every balance zero.
    pub fn set_collection_asset_id(&mut self, origin: AccountId, asset_id: AssetId) -> (r: LoanResult<()>)
        ensures
            origin != old(self).config.admin ==> r == LoanResult::<()>::Err(Error::Unauthorized)
                && *final(self) == *old(self),
            origin == old(self).config.admin ==> r is Ok && *final(self) == (LoanEngine {
                config: (Config { collection_asset_id: asset_id, ..old(self).config }),
                ..*old(self)
            }),
    {
        if origin != self.config.admin {
            return Err(Error::Unauthorized);
        }
        self.config.collection_asset_id = asset_id;
        Ok(())
    }

    /// Privileged setter for the account the deposit pool's savings sit in.
    pub fn set_collection_account(&mut self, origin: AccountId, account_id: AccountId) -> (r: LoanResult<()>)
        ensures
            origin != old(self).config.admin ==> r == LoanResult::<()>::Err(Error::Unauthorized)
                && *final(self) == *old(self),
            origin == old(self).config.admin ==> r is Ok && *final(self) == (LoanEngine {
                config: (Config { collection_account_id: account_id, ..old(self).config }),
                ..*old(self)
            }),
    {
        if origin != self.config.admin {
            return Err(Error::Unauthorized);
        }
        self.config.collection_account_id = account_id;
        Ok(())
    }

    /// Privileged setter for the market share-token account.
    pub fn set_market_dtoken_account_id(&mut self, origin: AccountId, account_id: AccountId) -> (r: LoanResult<()>)
        ensures
            origin != old(self).config.admin ==> r == LoanResult::<()>::Err(Error::Unauthorized)
                && *final(self) == *old(self),
            origin == old(self).config.admin ==> r is Ok && *final(self) == (LoanEngine {
                config: (Config { market_dtoken_account_id: account_id, ..old(self).config }),
                ..*old(self)
            }),
    {
        if origin != self.config.admin {
            return Err(Error::Unauthorized);
        }
        self.config.market_dtoken_account_id = account_id;
        Ok(())
    }

    /// Privileged setter for the total share-token account.
    pub fn set_total_dtoken_account_id(&mut self, origin: AccountId, account_id: AccountId) -> (r: LoanResult<()>)
        ensures
            origin != old(self).config.admin ==> r == LoanResult::<()>::Err(Error::Unauthorized)
                && *final(self) == *old(self),
            origin == old(self).config.admin ==> r is Ok && *final(self) == (LoanEngine {
                config: (Config { total_dtoken_account_id: account_id, ..old(self).config }),
                ..*old(self)
            }),
    {
        if origin != self.config.admin {
            return Err(Error::Unauthorized);
        }
        self.config.total_dtoken_account_id = account_id;
        Ok(())
    }

    /// Privileged setter for the market share-token asset.
    pub fn set_market_dtoken_asset_id(&mut self, origin: AccountId, asset_id: AssetId) -> (r: LoanResult<()>)
        ensures
            origin != old(self).config.admin ==> r == LoanResult::<()>::Err(Error::Unauthorized)
                && *final(self) == *old(self),
            origin == old(self).config.admin ==> r is Ok && *final(self) == (LoanEngine {
                config: (Config { market_dtoken_asset_id: asset_id, ..old(self).config }),
                ..*old(self)
            }),
    {
        if origin != self.config.admin {
            return Err(Error::Unauthorized);
        }
        self.config.market_dtoken_asset_id = asset_id;
        Ok(())
    }

    /// Privileged setter for the total share-token asset.
    pub fn set_total_dtoken_asset_id(&mut self, origin: AccountId, asset_id: AssetId) -> (r: LoanResult<()>)
        ensures
            origin != old(self).config.admin ==> r == LoanResult::<()>::Err(Error::Unauthorized)
                && *final(self) == *old(self),
            origin == old(self).config.admin ==> r is Ok && *final(self) == (LoanEngine {
                config: (Config { total_dtoken_asset_id: asset_id, ..old(self).config }),
                ..*old(self)
            }),
    {
        if origin != self.config.admin {
            return Err(Error::Unauthorized);
        }
        self.config.total_dtoken_asset_id = asset_id;
        Ok(())
    }

    /// Privileged setter for the collateral asset.
    pub fn set_collateral_asset_id(&mut self, origin: AccountId, asset_id: AssetId) -> (r: LoanResult<()>)
        ensures
            origin != old(self).config.admin ==> r == LoanResult::<()>::Err(Error::Unauthorized)
                && *final(self) == *old(self),
            origin == old(self).config.admin ==> r is Ok && *final(self) == (LoanEngine {
                config: (Config { collateral_asset_id: asset_id, ..old(self).config }),
                ..*old(self)
            }),
    {
        if origin != self.config.admin {
            return Err(Error::Unauthorized);
        }
        self.config.collateral_asset_id = asset_id;
        Ok(())
    }

    /// Privileged setter for the loan asset.
    pub fn set_loan_asset_id(&mut self, origin: AccountId, asset_id: AssetId) -> (r: LoanResult<()>)
        ensures
            origin != old(self).config.admin ==> r == LoanResult::<()>::Err(Error::Unauthorized)
                && *final(self) == *old(self),
            origin == old(self).config.admin ==> r is Ok && *final(self) == (LoanEngine {
                config: (Config { loan_asset_id: asset_id, ..old(self).config }),
                ..*old(self)
            }),
    {
        if origin != self.config.admin {
            return Err(Error::Unauthorized);
        }
        self.config.loan_asset_id = asset_id;
        Ok(())
    }

    /// Privileged setter for the LTV at which a loan liquidates.
    pub fn set_global_liquidation_threshold(&mut self, origin: AccountId, threshold: LTV) -> (r: LoanResult<()>)
        ensures
            origin != old(self).config.admin ==> r == LoanResult::<()>::Err(Error::Unauthorized)
                && *final(self) == *old(self),
            origin == old(self).config.admin ==> r is Ok && *final(self) == (LoanEngine {
                config: (Config { global_liquidation_threshold: threshold, ..old(self).config }),
                ..*old(self)
            }),
    {
        if origin != self.config.admin {
            return Err(Error::Unauthorized);
        }
        self.config.global_liquidation_threshold = threshold;
        Ok(())
    }

    /// Privileged setter for the LTV at which a loan warns.
    pub fn set_global_warning_threshold(&mut self, origin: AccountId, threshold: LTV) -> (r: LoanResult<()>)
        ensures
            origin != old(self).config.admin ==> r == LoanResult::<()>::Err(Error::Unauthorized)
                && *final(self) == *old(self),
            origin == old(self).config.admin ==> r is Ok && *final(self) == (LoanEngine {
                config: (Config { global_warning_threshold: threshold, ..old(self).config }),
                ..*old(self)
            }),
    {
        if origin != self.config.admin {
            return Err(Error::Unauthorized);
        }
        self.config.global_warning_threshold = threshold;
        Ok(())
    }

    /// Privileged setter for the settlement account.
    pub fn set_liquidation_account(&mut self, origin: AccountId, account_id: AccountId) -> (r: LoanResult<()>)
        ensures
            origin != old(self).config.admin ==> r == LoanResult::<()>::Err(Error::Unauthorized)
                && *final(self) == *old(self),
            origin == old(self).config.admin ==> r is Ok && *final(self) == (LoanEngine {
                config: (Config { liquidation_account: account_id, ..old(self).config }),
                ..*old(self)
            }),
    {
        if origin != self.config.admin {
            return Err(Error::Unauthorized);
        }
        self.config.liquidation_account = account_id;
        Ok(())
    }

    /// Privileged setter for the profit asset.
    pub fn set_profit_asset_id(&mut self, origin: AccountId, asset_id: AssetId) -> (r: LoanResult<()>)
        ensures
            origin != old(self).config.admin ==> r == LoanResult::<()>::Err(Error::Unauthorized)
                && *final(self) == *old(self),
            origin == old(self).config.admin ==> r is Ok && *final(self) == (LoanEngine {
                config: (Config { profit_asset_id: asset_id, ..old(self).config }),
                ..*old(self)
            }),
    {
        if origin != self.config.admin {
            return Err(Error::Unauthorized);
        }
        self.config.profit_asset_id = asset_id;
        Ok(())
    }

    /// Privileged setter for the profit pool account.
    pub fn set_profit_pool(&mut self, origin: AccountId, account_id: AccountId) -> (r: LoanResult<()>)
        ensures
            origin != old(self).config.admin ==> r == LoanResult::<()>::Err(Error::Unauthorized)
                && *final(self) == *old(self),
            origin == old(self).config.admin ==> r is Ok && *final(self) == (LoanEngine {
                config: (Config { profit_pool: account_id, ..old(self).config }),
                ..*old(self)
            }),
    {
        if origin != self.config.admin {
            return Err(Error::Unauthorized);
        }
        self.config.profit_pool = account_id;
        Ok(())
    }

    /// Privileged setter for `penalty_rate`.  Note that settlement reads
    /// the separate `liquidation_penalty`, so this value governs nothing.
    pub fn set_penalty_rate(&mut self, origin: AccountId, rate: u32) -> (r: LoanResult<()>)
        ensures
            origin != old(self).config.admin ==> r == LoanResult::<()>::Err(Error::Unauthorized)
                && *final(self) == *old(self),
            origin == old(self).config.admin ==> r is Ok && *final(self) == (LoanEngine {
                config: (Config { penalty_rate: rate, ..old(self).config }),
                ..*old(self)
            }),
    {
        if origin != self.config.admin {
            return Err(Error::Unauthorized);
        }
        self.config.penalty_rate = rate;
        Ok(())
    }

    /// Privileged setter for the global LTV limit a loan may be created at.
    pub fn set_global_ltv_limit(&mut self, origin: AccountId, limit: LTV) -> (r: LoanResult<()>)
        requires
            limit >= 1,
        ensures
            origin != old(self).config.admin ==> r == LoanResult::<()>::Err(Error::Unauthorized)
                && *final(self) == *old(self),
            origin == old(self).config.admin ==> r is Ok && *final(self) == (LoanEngine {
                config: (Config { global_ltv_limit: limit, ..old(self).config }),
                ..*old(self)
            }),
    {
        if origin != self.config.admin {
            return Err(Error::Unauthorized);
        }
        self.config.global_ltv_limit = limit;
        Ok(())
    }

    /// Privileged setter for the loan cap: zero clears it.
    pub fn set_loan_cap(&mut self, origin: AccountId, balance: Balance) -> (r: LoanResult<()>)
        ensures
            origin != old(self).config.admin ==> r == LoanResult::<()>::Err(Error::Unauthorized)
                && *final(self) == *old(self),
            origin == old(self).config.admin ==> r is Ok && *final(self) == (LoanEngine {
                config: (Config {
                    loan_cap: if balance == 0 {
                        None
                    } else {
                        Some(balance)
                    },
                    ..old(self).config
                }),
                ..*old(self)
            }),
    {
        if origin != self.config.admin {
            return Err(Error::Unauthorized);
        }
        if balance == 0 {
            self.config.loan_cap = None;
        } else {
            self.config.loan_cap = Some(balance);
        }
        Ok(())
    }

    /// Privileged backdoor to set the collateral price by hand.
    pub fn set_price(&mut self, origin: AccountId, price: Price) -> (r: LoanResult<()>)
        requires
            price >= 1,
        ensures
            origin != old(self).config.admin ==> r == LoanResult::<()>::Err(Error::Unauthorized)
                && *final(self) == *old(self),
            origin == old(self).config.admin ==> r is Ok && *final(self) == (LoanEngine {
                btc_price: price,
                ..*old(self)
            }),
    {
        if origin != self.config.admin {
            return Err(Error::Unauthorized);
        }
        self.btc_price = price;
        Ok(())
    }

    /// The price oracle's callback: store the latest price.
    pub fn on_change(&mut self, p: Price)
        requires
            p >= 1,
        ensures
            *final(self) == (LoanEngine { btc_price: p, ..*old(self) }),
    {
        self.btc_price = p;
    }

    /// The intermediate products and derived amounts of the ratio
    /// calculator stay representable: a machine limit on its inputs.
    pub open spec fn ratio_fits(self, collateral_amount: Balance, loan_amount: Balance) -> bool {
        &&& (collateral_amount == 0 && loan_amount != 0) ==> {
            &&& self.btc_price * self.config.global_ltv_limit <= u128::MAX
            &&& must_collateral_spec(
                loan_amount as int,
                self.btc_price as int,
                self.config.global_ltv_limit as int,
            ) <= u64::MAX
        }
        &&& (loan_amount == 0 && collateral_amount != 0) ==> {
            &&& collateral_amount * self.btc_price * self.config.global_ltv_limit <= u128::MAX
            &&& can_loan_spec(
                collateral_amount as int,
                self.btc_price as int,
                self.config.global_ltv_limit as int,
            ) <= u64::MAX
        }
    }

    /// The ratio calculator: derive the missing side of a collateral/loan
    /// pair under the global LTV limit, or check a full pair against it.
    pub fn get_collateral_loan(
        &self,
        collateral_amount: Balance,
        loan_amount: Balance,
    ) -> (r: LoanResult<CollateralLoan>)
        requires
            self.wf(),
            self.ratio_fits(collateral_amount, loan_amount),
        ensures
            collateral_amount == 0 && loan_amount == 0 ==> r == LoanResult::<
                CollateralLoan,
            >::Err(Error::InvalidCollateralLoanAmounts),
            collateral_amount == 0 && loan_amount != 0 ==> r == LoanResult::<CollateralLoan>::Ok(
                CollateralLoan {
                    collateral_amount: must_collateral_spec(
                        loan_amount as int,
                        self.btc_price as int,
                        self.config.global_ltv_limit as int,
                    ) as Balance,
                    loan_amount,
                },
            ),
            loan_amount == 0 && collateral_amount != 0 ==> r == LoanResult::<CollateralLoan>::Ok(
                CollateralLoan {
                    collateral_amount,
                    loan_amount: can_loan_spec(
                        collateral_amount as int,
                        self.btc_price as int,
                        self.config.global_ltv_limit as int,
                    ) as Balance,
                },
            ),
            collateral_amount != 0 && loan_amount != 0 ==> r == (if ltv_of(
                collateral_amount as int,
                loan_amount as int,
                self.btc_price as int,
            ) > self.config.global_ltv_limit {
                LoanResult::<CollateralLoan>::Err(Error::OverLTVLimit)
            } else {
                LoanResult::<CollateralLoan>::Ok(
                    CollateralLoan { collateral_amount, loan_amount },
                )
            }),
    {
        if collateral_amount == 0 && loan_amount == 0 {
            return Err(Error::InvalidCollateralLoanAmounts);
        }
        let btc_price = self.btc_price;
        let ltv_limit = self.config.global_ltv_limit;

        if collateral_amount == 0 {
            proof {
                vstd::arithmetic::mul::lemma_mul_strictly_positive(
                    btc_price as int,
                    ltv_limit as int,
                );
            }
            let num: u128 = loan_amount as u128 * LTV_PREC as u128 * PRICE_PREC as u128;
            let den: u128 = btc_price * ltv_limit as u128;
            let must_collateral_amount = num / den;
            return Ok(
                CollateralLoan { collateral_amount: must_collateral_amount as u64, loan_amount },
            );
        }

        if loan_amount == 0 {
            proof {
                vstd::arithmetic::mul::lemma_mul_inequality(
                    1,
                    ltv_limit as int,
                    collateral_amount as int * btc_price as int,
                );
            }
            let prod: u128 = collateral_amount as u128 * btc_price * ltv_limit as u128;
            let can_loan_amount = prod / (LTV_PREC as u128 * PRICE_PREC as u128);
            return Ok(CollateralLoan { collateral_amount, loan_amount: can_loan_amount as u64 });
        }

        let num: u128 = loan_amount as u128 * LTV_PREC as u128 * PRICE_PREC as u128;
        proof {
            vstd::arithmetic::div_mod::lemma_div_denominator(
                num as int,
                collateral_amount as int,
                btc_price as int,
            );
        }
        if num / collateral_amount as u128 / btc_price > ltv_limit as u128 {
            Err(Error::OverLTVLimit)
        } else {
            Ok(CollateralLoan { collateral_amount, loan_amount })
        }
    }
}

} // verus!
