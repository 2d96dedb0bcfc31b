//! The asset ledger the engine settles against.
//!
//! Balances are kept as an append-only journal of `(asset, account,
//! balance)` entries; the balance of an account is the last entry written
//! for it.  Every transfer, mint and burn is one numbered call, and a call
//! whose number is on the `denied` schedule fails without effect.  The
//! schedule makes the ledger's calls independently fallible — as the
//! engine must assume they are — while keeping every run deterministic.

use vstd::prelude::*;
use crate::types::{AccountId, AssetId, Balance};

verus! {

/// Balance of `(asset, who)` in journal `s`: the last matching entry.
pub open spec fn bal_at(s: Seq<(AssetId, AccountId, Balance)>, asset: AssetId, who: AccountId) -> Balance
    decreases s.len(),
{
    if s.len() == 0 {
        0
    } else if s.last().0 == asset && s.last().1 == who {
        s.last().2
    } else {
        bal_at(s.drop_last(), asset, who)
    }
}

/// Appending one entry changes exactly that entry's key.
proof fn lemma_bal_at_push(
    s: Seq<(AssetId, AccountId, Balance)>,
    e: (AssetId, AccountId, Balance),
    asset: AssetId,
    who: AccountId,
)
    ensures
        bal_at(s.push(e), asset, who) == if asset == e.0 && who == e.1 {
            e.2
        } else {
            bal_at(s, asset, who)
        },
{
    assert(s.push(e).drop_last() =~= s);
}

pub struct Ledger {
    entries: Vec<(AssetId, AccountId, Balance)>,
    denied: Vec<u64>,
    calls: u64,
}

impl Ledger {
    /// Balance of `who` in `asset`.
    pub closed spec fn balance(self, asset: AssetId, who: AccountId) -> Balance {
        bal_at(self.entries@, asset, who)
    }

    /// How many transfers, mints and burns were attempted so far.
    pub closed spec fn calls(self) -> u64 {
        self.calls
    }

    pub closed spec fn denied_schedule(self) -> Seq<u64> {
        self.denied@
    }

    /// Whether call number `n` is scheduled to fail.
    pub open spec fn denies(self, n: u64) -> bool {
        self.denied_schedule().contains(n)
    }

    /// What a transfer needs to go through: the call is not denied, the
    /// source holds the amount, and the target's balance stays representable.
    pub open spec fn can_transfer(self, asset: AssetId, from: AccountId, to: AccountId, amount: Balance) -> bool {
        &&& !self.denies(self.calls())
        &&& self.balance(asset, from) >= amount
        &&& (from == to || self.balance(asset, to) + amount <= Balance::MAX)
    }

    /// What a mint needs to go through.
    pub open spec fn can_mint(self, asset: AssetId, to: AccountId, amount: Balance) -> bool {
        &&& !self.denies(self.calls())
        &&& self.balance(asset, to) + amount <= Balance::MAX
    }

    /// What a burn needs to go through.
    pub open spec fn can_burn(self, asset: AssetId, from: AccountId, amount: Balance) -> bool {
        &&& !self.denies(self.calls())
        &&& self.balance(asset, from) >= amount
    }

    /// An empty ledger: every balance zero, no denial scheduled.
    pub fn new() -> (l: Ledger)
        ensures
            l.calls() == 0,
            l.denied_schedule() =~= Seq::<u64>::empty(),
            forall|a: AssetId, w: AccountId| l.balance(a, w) == 0,
    {
        Ledger { entries: Vec::new(), denied: Vec::new(), calls: 0 }
    }

    /// Schedule call number `call` to fail.
    pub fn deny(&mut self, call: u64)
        ensures
            final(self).denied_schedule() == old(self).denied_schedule().push(call),
            final(self).calls() == old(self).calls(),
            forall|a: AssetId, w: AccountId|
                final(self).balance(a, w) == old(self).balance(a, w),
    {
        self.denied.push(call);
    }

    /// Whether the next call is scheduled to fail.
    fn next_call_denied(&self) -> (r: bool)
        ensures
            r == self.denies(self.calls()),
    {
        let mut i: usize = 0;
        while i < self.denied.len()
            invariant
                0 <= i <= self.denied.len(),
                forall|j: int| 0 <= j < i ==> self.denied@[j] != self.calls,
            decreases self.denied.len() - i,
        {
            if self.denied[i] == self.calls {
                return true;
            }
            i += 1;
        }
        false
    }

    /// Balance lookup: the youngest journal entry for `(asset, who)`.
    pub fn balance_of(&self, asset: AssetId, who: AccountId) -> (r: Balance)
        ensures
            r == self.balance(asset, who),
    {
        let ghost s = self.entries@;
        let mut i: usize = self.entries.len();
        proof {
            assert(s.take(i as int) =~= s);
        }
        while i > 0
            invariant
                0 <= i <= s.len(),
                s == self.entries@,
                bal_at(s.take(i as int), asset, who) == bal_at(s, asset, who),
            decreases i,
        {
            i -= 1;
            let e = self.entries[i];
            if e.0 == asset && e.1 == who {
                proof {
                    assert(s.take(i + 1).last() == s[i as int]);
                }
                return e.2;
            }
            proof {
                assert(s.take(i + 1).drop_last() =~= s.take(i as int));
            }
        }
        0
    }

    /// Move `amount` of `asset` from `from` to `to`.  Fails, leaving every
    /// balance unchanged, iff the call is denied, the source is short, or
    /// the target's balance would overflow.
    pub fn transfer(&mut self, asset: AssetId, from: AccountId, to: AccountId, amount: Balance) -> (ok: bool)
        requires
            old(self).calls() < u64::MAX,
        ensures
            final(self).calls() == old(self).calls() + 1,
            final(self).denied_schedule() == old(self).denied_schedule(),
            ok == old(self).can_transfer(asset, from, to, amount),
            !ok || from == to ==> forall|a: AssetId, w: AccountId|
                final(self).balance(a, w) == old(self).balance(a, w),
            ok && from != to ==> {
                &&& final(self).balance(asset, from) == old(self).balance(asset, from) - amount
                &&& final(self).balance(asset, to) == old(self).balance(asset, to) + amount
            },
            forall|a: AssetId, w: AccountId|
                !(a == asset && (w == from || w == to)) ==> final(self).balance(a, w) == old(
                    self,
                ).balance(a, w),
    {
        let denied = self.next_call_denied();
        self.calls = self.calls + 1;
        if denied {
            return false;
        }
        let bf = self.balance_of(asset, from);
        if bf < amount {
            return false;
        }
        if from == to {
            return true;
        }
        let bt = self.balance_of(asset, to);
        if bt > Balance::MAX - amount {
            return false;
        }
        let ghost s0 = self.entries@;
        self.entries.push((asset, from, bf - amount));
        let ghost s1 = self.entries@;
        self.entries.push((asset, to, bt + amount));
        proof {
            assert forall|a: AssetId, w: AccountId| true implies bal_at(
                self.entries@,
                a,
                w,
            ) == if a == asset && w == to {
                (bt + amount) as Balance
            } else if a == asset && w == from {
                (bf - amount) as Balance
            } else {
                bal_at(s0, a, w)
            } by {
                lemma_bal_at_push(s1, (asset, to, (bt + amount) as Balance), a, w);
                lemma_bal_at_push(s0, (asset, from, (bf - amount) as Balance), a, w);
            }
        }
        true
    }

    /// Create `amount` of `asset` at `to`.  Fails, leaving every balance
    /// unchanged, iff the call is denied or the balance would overflow.
    pub fn mint(&mut self, asset: AssetId, to: AccountId, amount: Balance) -> (ok: bool)
        requires
            old(self).calls() < u64::MAX,
        ensures
            final(self).calls() == old(self).calls() + 1,
            final(self).denied_schedule() == old(self).denied_schedule(),
            ok == old(self).can_mint(asset, to, amount),
            ok ==> final(self).balance(asset, to) == old(self).balance(asset, to) + amount,
            !ok ==> forall|a: AssetId, w: AccountId|
                final(self).balance(a, w) == old(self).balance(a, w),
            forall|a: AssetId, w: AccountId|
                !(a == asset && w == to) ==> final(self).balance(a, w) == old(self).balance(a, w),
    {
        let denied = self.next_call_denied();
        self.calls = self.calls + 1;
        if denied {
            return false;
        }
        let bt = self.balance_of(asset, to);
        if bt > Balance::MAX - amount {
            return false;
        }
        let ghost s0 = self.entries@;
        self.entries.push((asset, to, bt + amount));
        proof {
            assert forall|a: AssetId, w: AccountId| true implies bal_at(
                self.entries@,
                a,
                w,
            ) == if a == asset && w == to {
                (bt + amount) as Balance
            } else {
                bal_at(s0, a, w)
            } by {
                lemma_bal_at_push(s0, (asset, to, (bt + amount) as Balance), a, w);
            }
        }
        true
    }

    /// Destroy `amount` of `asset` at `from`.  Fails, leaving every balance
    /// unchanged, iff the call is denied or the account is short.
    pub fn burn(&mut self, asset: AssetId, from: AccountId, amount: Balance) -> (ok: bool)
        requires
            old(self).calls() < u64::MAX,
        ensures
            final(self).calls() == old(self).calls() + 1,
            final(self).denied_schedule() == old(self).denied_schedule(),
            ok == old(self).can_burn(asset, from, amount),
            ok ==> final(self).balance(asset, from) == old(self).balance(asset, from) - amount,
            !ok ==> forall|a: AssetId, w: AccountId|
                final(self).balance(a, w) == old(self).balance(a, w),
            forall|a: AssetId, w: AccountId|
                !(a == asset && w == from) ==> final(self).balance(a, w) == old(self).balance(
                    a,
                    w,
                ),
    {
        let denied = self.next_call_denied();
        self.calls = self.calls + 1;
        if denied {
            return false;
        }
        let bf = self.balance_of(asset, from);
        if bf < amount {
            return false;
        }
        let ghost s0 = self.entries@;
        self.entries.push((asset, from, bf - amount));
        proof {
            assert forall|a: AssetId, w: AccountId| true implies bal_at(
                self.entries@,
                a,
                w,
            ) == if a == asset && w == from {
                (bf - amount) as Balance
            } else {
                bal_at(s0, a, w)
            } by {
                lemma_bal_at_push(s0, (asset, from, (bf - amount) as Balance), a, w);
            }
        }
        true
    }
}

/// Two ledgers agree on every balance.
pub open spec fn same_balances(a: Ledger, b: Ledger) -> bool {
    forall|s: AssetId, w: AccountId| a.balance(s, w) == b.balance(s, w)
}

/// `b` is `a` after one successful transfer.
pub open spec fn transfer_post(
    a: Ledger,
    b: Ledger,
    asset: AssetId,
    from: AccountId,
    to: AccountId,
    amount: Balance,
) -> bool {
    &&& b.calls() == a.calls() + 1
    &&& b.denied_schedule() == a.denied_schedule()
    &&& a.can_transfer(asset, from, to, amount)
    &&& if from == to {
        same_balances(a, b)
    } else {
        &&& b.balance(asset, from) == a.balance(asset, from) - amount
        &&& b.balance(asset, to) == a.balance(asset, to) + amount
        &&& forall|x: AssetId, w: AccountId|
            !(x == asset && (w == from || w == to)) ==> b.balance(x, w) == a.balance(x, w)
    }
}

/// `b` is `a` after one successful mint.
pub open spec fn mint_post(a: Ledger, b: Ledger, asset: AssetId, to: AccountId, amount: Balance) -> bool {
    &&& b.calls() == a.calls() + 1
    &&& b.denied_schedule() == a.denied_schedule()
    &&& a.can_mint(asset, to, amount)
    &&& b.balance(asset, to) == a.balance(asset, to) + amount
    &&& forall|x: AssetId, w: AccountId|
        !(x == asset && w == to) ==> b.balance(x, w) == a.balance(x, w)
}

/// `b` is `a` after one successful burn.
pub open spec fn burn_post(a: Ledger, b: Ledger, asset: AssetId, from: AccountId, amount: Balance) -> bool {
    &&& b.calls() == a.calls() + 1
    &&& b.denied_schedule() == a.denied_schedule()
    &&& a.can_burn(asset, from, amount)
    &&& b.balance(asset, from) == a.balance(asset, from) - amount
    &&& forall|x: AssetId, w: AccountId|
        !(x == asset && w == from) ==> b.balance(x, w) == a.balance(x, w)
}

/// `b` is `a` after one failed call: one call consumed, nothing moved.
pub open spec fn failed_call_post(a: Ledger, b: Ledger) -> bool {
    &&& b.calls() == a.calls() + 1
    &&& b.denied_schedule() == a.denied_schedule()
    &&& same_balances(a, b)
}

} // verus!
