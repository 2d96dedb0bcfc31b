//! The engine's global laws, stated and proved over the same spec
//! functions its operations promise: aggregate consistency, collateral
//! monotonicity, liquidating-set consistency, the apply/repay round trip,
//! and the liquidation-threshold edge.

use vstd::prelude::*;
use crate::types::{AccountId, Balance, LoanHealth, LoanId, LTV};
use crate::ledger::{burn_post, mint_post, same_balances, transfer_post, Ledger};
use crate::engine::{
    has_loan, lemma_loan_at, lemma_remove_id_push, loan_index, loan_of, owner_ids, remove_id,
    sum_collateral, sum_loans, unique_ids, AccountLoans, LoanEngine,
};
use crate::lifecycle::new_loan_record;
use crate::liquidation::classify;

verus! {

/// Aggregate consistency: in every reachable state the loan and collateral
/// aggregates equal the sums over all loans currently in the registry.
pub proof fn lemma_aggregate_consistency(s: LoanEngine)
    requires
        s.wf(),
    ensures
        s.total_loan as int == sum_loans(s.loans@),
        s.total_collateral as int == sum_collateral(s.loans@),
{
}

/// Collateral monotonicity: no loan's available collateral ever exceeds
/// the collateral ever posted to it.
pub proof fn lemma_collateral_monotonic(s: LoanEngine, i: int)
    requires
        s.wf(),
        0 <= i < s.loans@.len(),
    ensures
        s.loans@[i].collateral_balance_available <= s.loans@[i].collateral_balance_original,
{
}

/// Liquidating-set consistency: a loan id is in the liquidating set if and
/// only if the registry holds it with status `Liquidating`.
pub proof fn lemma_liquidating_set_consistency(s: LoanEngine, id: LoanId)
    requires
        s.wf(),
    ensures
        s.liquidating_loans@.contains(id) <==> (has_loan(s.loans@, id) && loan_of(
            s.loans@,
            id,
        ).status is Liquidating),
{
    if s.liquidating_loans@.contains(id) {
        let k = choose|k: int|
            0 <= k < s.liquidating_loans@.len() && s.liquidating_loans@[k] == id;
        assert(has_loan(s.loans@, s.liquidating_loans@[k]));
    }
    if has_loan(s.loans@, id) && loan_of(s.loans@, id).status is Liquidating {
        let i = loan_index(s.loans@, id);
        assert(0 <= i < s.loans@.len() && s.loans@[i].id == id);
        assert(s.loans@[i].status is Liquidating);
    }
}

/// An id the owner index holds stands in one of its entries.
proof fn lemma_owner_ids_element(idx: Seq<AccountLoans>, w: AccountId, x: LoanId)
    requires
        owner_ids(idx, w).contains(x),
    ensures
        exists|e: int, k: int|
            0 <= e < idx.len() && 0 <= k < idx[e].loan_ids@.len() && (
            #[trigger] idx[e].loan_ids@[k]) == x,
    decreases idx.len(),
{
    assert(idx.len() > 0);
    if idx[0].who == w {
        let k = choose|k: int| 0 <= k < idx[0].loan_ids@.len() && idx[0].loan_ids@[k] == x;
        assert(idx[0].loan_ids@[k] == x);
    } else {
        lemma_owner_ids_element(idx.drop_first(), w, x);
        let (e, k): (int, int) = choose|e: int, k: int|
            0 <= e < idx.drop_first().len() && 0 <= k < idx.drop_first()[e].loan_ids@.len() && (
            #[trigger] idx.drop_first()[e].loan_ids@[k]) == x;
        assert(idx[e + 1] == idx.drop_first()[e]);
        assert(idx[e + 1].loan_ids@[k] == x);
    }
}

/// Round trip: a successful `apply_for_loan` followed immediately by a
/// successful `repay_loan` of the new loan returns the registry, the owner
/// index, the liquidating set, the aggregates and every ledger balance to
/// their prior values (the minted loan asset was burned again).
pub proof fn lemma_apply_repay_round_trip(
    s0: LoanEngine,
    s1: LoanEngine,
    s2: LoanEngine,
    l0: Ledger,
    l1: Ledger,
    l2: Ledger,
    who: AccountId,
    collateral_amount: Balance,
    loan_amount: Balance,
    loan_id: LoanId,
)
    requires
        s0.wf(),
        loan_id == s0.next_loan_id,
        s0.apply_success_post(s1, l0, l1, who, collateral_amount, loan_amount),
        s1.repay_success_post(s2, l1, l2, who, loan_id),
    ensures
        s2.loans@ == s0.loans@,
        forall|w: AccountId|
            owner_ids(s2.loans_by_account@, w) == owner_ids(s0.loans_by_account@, w),
        s2.liquidating_loans@ == s0.liquidating_loans@,
        s2.total_loan == s0.total_loan,
        s2.total_collateral == s0.total_collateral,
        s2.same_aux(s0),
        same_balances(l2, l0),
{
    let pair = s0.derived_pair(collateral_amount, loan_amount);
    let loan = new_loan_record(s0, who, pair);
    let n = s0.loans@.len() as int;

    // the new loan is the unique (and last) holder of its id
    assert(unique_ids(s1.loans@)) by {
        assert forall|a: int, b: int|
            0 <= a < s1.loans@.len() && 0 <= b < s1.loans@.len() && a != b implies s1.loans@[a].id
            != s1.loans@[b].id by {
            if a < n && b < n {
                assert(s1.loans@[a] == s0.loans@[a] && s1.loans@[b] == s0.loans@[b]);
            } else if a == n {
                assert(s1.loans@[b] == s0.loans@[b] && s0.loans@[b].id < s0.next_loan_id);
            } else {
                assert(s1.loans@[a] == s0.loans@[a] && s0.loans@[a].id < s0.next_loan_id);
            }
        }
    }
    assert(s1.loans@[n] == loan);
    lemma_loan_at(s1.loans@, n);
    assert(loan_index(s1.loans@, loan_id) == n);
    assert(s2.loans@ == s1.loans@.remove(n));
    assert(s1.loans@.remove(n) =~= s0.loans@);

    // the owner index returns to its prior view
    assert(owner_ids(s1.loans_by_account@, who) == owner_ids(s0.loans_by_account@, who).push(
        loan_id,
    ));
    assert(!owner_ids(s0.loans_by_account@, who).contains(loan_id)) by {
        if owner_ids(s0.loans_by_account@, who).contains(loan_id) {
            lemma_owner_ids_element(s0.loans_by_account@, who, loan_id);
        }
    }
    lemma_remove_id_push(owner_ids(s0.loans_by_account@, who), loan_id);
    assert(owner_ids(s2.loans_by_account@, who) == remove_id(
        owner_ids(s1.loans_by_account@, who),
        loan_id,
    ));

    // every balance returns to its prior value
    let la = choose|mid: Ledger|
        #[trigger] transfer_post(
            l0,
            mid,
            s0.config.collateral_asset_id,
            who,
            s0.config.pawn_shop,
            pair.collateral_amount,
        ) && mint_post(mid, l1, s0.config.loan_asset_id, who, pair.loan_amount);
    let rloan = loan_of(s1.loans@, loan_id);
    assert(rloan == loan);
    let (lb, lc): (Ledger, Ledger) = choose|lb: Ledger, lc: Ledger|
        transfer_post(
            l1,
            lb,
            s1.config.loan_asset_id,
            who,
            s1.config.pawn_shop,
            rloan.loan_balance_total,
        ) && #[trigger] transfer_post(
            lb,
            lc,
            s1.config.collateral_asset_id,
            s1.config.pawn_shop,
            who,
            rloan.collateral_balance_available,
        ) && burn_post(
            lc,
            l2,
            s1.config.loan_asset_id,
            s1.config.pawn_shop,
            rloan.loan_balance_total,
        );
    assert(same_balances(l2, l0)) by {
        assert forall|a: u32, w: AccountId| true implies l2.balance(a, w) == l0.balance(a, w) by {
        }
    }
}

/// Compensation completeness: when a repayment fails on one of its two
/// transfers while the loan stays registered, and the compensating
/// transfer is not on the deny schedule, the registry, the aggregates and
/// every ledger balance stand as before the call.
pub proof fn lemma_repay_compensation_complete(
    s0: LoanEngine,
    s1: LoanEngine,
    l0: Ledger,
    l1: Ledger,
    who: AccountId,
    loan_id: LoanId,
    r: crate::types::LoanResult<()>,
)
    requires
        s0.repay_post(s1, l0, l1, who, loan_id, r),
        s0.repay_precheck(l0, who, loan_id) is None,
        r is Err,
        s1.loans@.len() == s0.loans@.len(),
        !l0.denies((l0.calls() + 2) as u64),
    ensures
        s0.repay_reverted(s1, who, loan_id),
        same_balances(l0, l1),
        s1.total_loan == s0.total_loan,
        s1.total_collateral == s0.total_collateral,
{
    let i = loan_index(s0.loans@, loan_id);
    assert(0 <= i < s0.loans@.len() && s0.loans@[i].id == loan_id);
    if s0.repay_burn_failed_post(s1, l0, l1, who, loan_id) {
        assert(s1.loans@.len() == s0.loans@.len() - 1);
        assert(false);
    }
}

/// Threshold edge: a loan whose measured LTV equals the liquidation
/// threshold exactly classifies as liquidating, never merely warning.
pub proof fn lemma_threshold_edge(ltv: LTV, liquidation: LTV, warning: LTV)
    requires
        ltv == liquidation,
    ensures
        classify(ltv, liquidation, warning) == LoanHealth::Liquidating(ltv),
{
}

} // verus!
