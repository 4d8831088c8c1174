//! The reward ledger as a capability, and a journal that implements it.

use vstd::prelude::*;
use crate::types::AccountId;
use crate::types::Balance;

verus! {

/// A ledger that can be asked to credit an account.
pub trait RewardLedger {
    /// The ledger's own invariant.
    spec fn wf(&self) -> bool;

    /// The credits granted so far, oldest first.
    spec fn credits(&self) -> Seq<(AccountId, Balance)>;

    /// Whether the ledger, as it stands, grants this credit.
    spec fn grants(&self, account: AccountId, amount: Balance) -> bool;

    /// Credits the account. A refused credit leaves the ledger as it was.
    fn credit(&mut self, account: AccountId, amount: Balance) -> (granted: bool)
        requires
            old(self).wf(),
        ensures
            final(self).wf(),
            granted == old(self).grants(account, amount),
            granted ==> final(self).credits() == old(self).credits().push((account, amount)),
            !granted ==> final(self).credits() == old(self).credits(),
    ;
}

/// The sum of the amounts of a list of credits.
pub open spec fn total_of(credits: Seq<(AccountId, Balance)>) -> int
    decreases credits.len(),
{
    if credits.len() == 0 {
        0
    } else {
        total_of(credits.drop_last()) + credits.last().1
    }
}

/// A journal of credits that keeps their running total and refuses a credit
/// that would take the total over what 64 bits hold.
#[derive(Debug)]
pub struct RewardBook {
    entries: Vec<(AccountId, Balance)>,
    issued: u64,
}

impl RewardBook {
    /// An empty journal.
    pub fn new() -> (book: RewardBook)
        ensures
            book.wf(),
            book.credits() == Seq::<(AccountId, Balance)>::empty(),
    {
        RewardBook { entries: Vec::new(), issued: 0 }
    }

    /// The total of all credits granted.
    pub fn total_issued(&self) -> (total: u64)
        requires
            self.wf(),
        ensures
            total == total_of(self.credits()),
    {
        self.issued
    }

    /// The number of credits granted.
    pub fn len(&self) -> (n: usize)
        ensures
            n == self.credits().len(),
    {
        self.entries.len()
    }

    /// The credit at a position of the journal, oldest first.
    pub fn entry(&self, at: usize) -> (credit: Option<(AccountId, Balance)>)
        ensures
            credit == if at < self.credits().len() {
                Some(self.credits()[at as int])
            } else {
                None
            },
    {
        if at < self.entries.len() {
            Some(self.entries[at])
        } else {
            None
        }
    }

    /// The total credited to one account.
    pub fn balance_of(&self, account: AccountId) -> (total: u64)
        requires
            self.wf(),
        ensures
            total == total_of(self.credits().filter(|c: (AccountId, Balance)| c.0 == account)),
    {
        let ghost pick = |c: (AccountId, Balance)| c.0 == account;
        let mut total: u64 = 0;
        let mut seen: u64 = 0;
        let mut i: usize = 0;
        while i < self.entries.len()
            invariant
                i <= self.entries.len(),
                self.issued == total_of(self.entries@),
                pick == |c: (AccountId, Balance)| c.0 == account,
                total == total_of(self.entries@.subrange(0, i as int).filter(pick)),
                seen == total_of(self.entries@.subrange(0, i as int)),
                total <= seen,
            decreases self.entries.len() - i,
        {
            let credit = self.entries[i];
            proof {
                let before = self.entries@.subrange(0, i as int);
                let upto = self.entries@.subrange(0, i + 1);
                assert(upto.drop_last() =~= before);
                assert(upto =~= before.push(credit));
                lemma_total_prefix(self.entries@, i + 1);
                filter_push(before, credit, pick);
                if pick(credit) {
                    assert(before.filter(pick).push(credit).drop_last() =~= before.filter(pick));
                }
            }
            seen = seen + credit.1;
            if credit.0 == account {
                total = total + credit.1;
            }
            i += 1;
        }
        proof {
            assert(self.entries@.subrange(0, self.entries.len() as int) =~= self.entries@);
        }
        total
    }
}

/// Filtering after a push filters the pushed element too.
proof fn filter_push(s: Seq<(AccountId, Balance)>, x: (AccountId, Balance), pick: spec_fn((AccountId, Balance)) -> bool)
    ensures
        s.push(x).filter(pick) == if pick(x) {
            s.filter(pick).push(x)
        } else {
            s.filter(pick)
        },
{
    reveal(Seq::filter);
    assert(s.push(x).drop_last() =~= s);
}

/// The total of a prefix is at most the total of the whole list.
pub proof fn lemma_total_prefix(credits: Seq<(AccountId, Balance)>, n: int)
    requires
        0 <= n <= credits.len(),
    ensures
        0 <= total_of(credits.subrange(0, n)) <= total_of(credits),
    decreases credits.len(),
{
    if credits.len() == 0 {
        assert(credits.subrange(0, n) =~= credits);
    } else if n == credits.len() {
        assert(credits.subrange(0, n) =~= credits);
        lemma_total_prefix(credits.drop_last(), n - 1);
        assert(credits.drop_last().subrange(0, n - 1) =~= credits.drop_last());
    } else {
        lemma_total_prefix(credits.drop_last(), n);
        assert(credits.drop_last().subrange(0, n) =~= credits.subrange(0, n));
    }
}

impl RewardLedger for RewardBook {
    closed spec fn wf(&self) -> bool {
        self.issued == total_of(self.entries@)
    }

    closed spec fn credits(&self) -> Seq<(AccountId, Balance)> {
        self.entries@
    }

    open spec fn grants(&self, account: AccountId, amount: Balance) -> bool {
        total_of(self.credits()) + amount <= u64::MAX
    }

    fn credit(&mut self, account: AccountId, amount: Balance) -> (granted: bool) {
        if amount > u64::MAX - self.issued {
            return false;
        }
        proof {
            assert(self.entries@.push((account, amount)).drop_last() =~= self.entries@);
        }
        self.entries.push((account, amount));
        self.issued = self.issued + amount;
        true
    }
}

} // verus!
