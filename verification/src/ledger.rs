//! A minimal in-memory balance ledger. It is the one implementation of
//! [`Config`] in this crate: it shows the trait's transfer contract is
//! satisfiable, and it serves hosts and tests that need no external ledger.
//! The purchase path stays generic over [`Config`], so a host may supply its
//! own ledger instead.

use vstd::prelude::*;

use crate::AccountId;
use crate::Balance;
use crate::Config;
use crate::PaymentError;

verus! {

/// The balance of `a` in the account list: the last entry for `a`, or zero
/// when there is none.
pub open spec fn lookup_bal(s: Seq<(AccountId, Balance)>, a: AccountId) -> int
    decreases s.len(),
{
    if s.len() == 0 {
        0
    } else if s.last().0 == a {
        s.last().1 as int
    } else {
        lookup_bal(s.drop_last(), a)
    }
}

/// Overwriting the last entry of `a` moves only `a`'s balance.
proof fn lemma_lookup_bal_update(
    s: Seq<(AccountId, Balance)>,
    i: int,
    v: Balance,
    b: AccountId,
)
    requires
        0 <= i < s.len(),
        forall|j: int| i < j < s.len() ==> (#[trigger] s[j]).0 != s[i].0,
    ensures
        lookup_bal(s.update(i, (s[i].0, v)), b) == if b == s[i].0 {
            v as int
        } else {
            lookup_bal(s, b)
        },
    decreases s.len(),
{
    let a = s[i].0;
    let s2 = s.update(i, (a, v));
    assert(s2.len() == s.len());
    if i == s.len() - 1 {
        assert(s2.last() == (a, v));
        assert(s2.drop_last() =~= s.drop_last());
        assert(s.last() == s[i]);
    } else {
        assert(s[s.len() - 1].0 != a);
        assert(s2.last() == s.last());
        assert(s2.drop_last() =~= s.drop_last().update(i, (a, v)));
        assert(forall|p: int| 0 <= p < s.len() - 1 ==> s.drop_last()[p] == s[p]);
        if s.last().0 != b {
            lemma_lookup_bal_update(s.drop_last(), i, v, b);
        }
    }
}

/// Appending an entry for `a` sets `a`'s balance and no other.
proof fn lemma_lookup_bal_push(
    s: Seq<(AccountId, Balance)>,
    a: AccountId,
    v: Balance,
    b: AccountId,
)
    ensures
        lookup_bal(s.push((a, v)), b) == if b == a {
            v as int
        } else {
            lookup_bal(s, b)
        },
{
    assert(s.push((a, v)).last() == (a, v));
    assert(s.push((a, v)).drop_last() =~= s);
}

/// An in-memory balance ledger: a list of account entries, the last entry for
/// an account giving its balance. Accounts absent from the list hold zero,
/// and an account record survives at balance zero, which is all the
/// "preserve" mode of the transfer primitive asks of this ledger.
#[derive(Clone)]
pub struct Balances {
    pub accounts: Vec<(AccountId, Balance)>,
}

impl Balances {
    /// The ledger as a total map from account to balance.
    pub open spec fn spec_balances(self) -> Map<AccountId, int> {
        Map::new(|a: AccountId| true, |a: AccountId| lookup_bal(self.accounts@, a))
    }

    /// An empty ledger: every account holds zero.
    pub fn new() -> (l: Balances)
        ensures
            forall|a: AccountId| l.spec_balances()[a] == 0,
    {
        Balances { accounts: Vec::new() }
    }

    /// The last slot of `a` in the account list, if any.
    fn find_last(&self, a: AccountId) -> (r: Option<usize>)
        ensures
            match r {
                Some(i) => i < self.accounts@.len() && self.accounts@[i as int].0 == a
                    && forall|j: int|
                        i < j < self.accounts@.len() ==> (#[trigger] self.accounts@[j]).0 != a,
                None => forall|j: int|
                    0 <= j < self.accounts@.len() ==> (#[trigger] self.accounts@[j]).0 != a,
            },
    {
        let mut i: usize = self.accounts.len();
        while i > 0
            invariant
                i <= self.accounts@.len(),
                forall|j: int|
                    i <= j < self.accounts@.len() ==> (#[trigger] self.accounts@[j]).0 != a,
            decreases i,
        {
            i = i - 1;
            if self.accounts[i].0 == a {
                return Some(i);
            }
        }
        None
    }

    /// The balance `a` currently holds.
    pub fn balance_of(&self, a: AccountId) -> (r: Balance)
        ensures
            r as int == self.spec_balances()[a],
    {
        proof {
            lemma_lookup_bal_read(self.accounts@, a, self.accounts@.len() as int);
        }
        let mut i: usize = self.accounts.len();
        while i > 0
            invariant
                i <= self.accounts@.len(),
                lookup_bal(self.accounts@, a) == lookup_bal(
                    self.accounts@.take(i as int),
                    a,
                ),
            decreases i,
        {
            i = i - 1;
            proof {
                assert(self.accounts@.take(i + 1).last() == self.accounts@[i as int]);
                assert(self.accounts@.take(i + 1).drop_last() =~= self.accounts@.take(i as int));
            }
            if self.accounts[i].0 == a {
                return self.accounts[i].1;
            }
        }
        0
    }

    /// Set `a`'s balance to exactly `v`, touching no other account.
    pub fn set_balance(&mut self, a: AccountId, v: Balance)
        ensures
            final(self).spec_balances() == old(self).spec_balances().insert(a, v as int),
    {
        match self.find_last(a) {
            Some(i) => {
                self.accounts[i] = (a, v);
                proof {
                    let s = old(self).accounts@;
                    assert(self.accounts@ =~= s.update(i as int, (s[i as int].0, v)));
                    assert forall|b: AccountId|
                        lookup_bal(self.accounts@, b) == (if b == a {
                            v as int
                        } else {
                            lookup_bal(s, b)
                        }) by {
                        lemma_lookup_bal_update(s, i as int, v, b);
                    }
                    assert(self.spec_balances() =~= old(self).spec_balances().insert(
                        a,
                        v as int,
                    ));
                }
            },
            None => {
                self.accounts.push((a, v));
                proof {
                    let s = old(self).accounts@;
                    assert forall|b: AccountId|
                        lookup_bal(self.accounts@, b) == (if b == a {
                            v as int
                        } else {
                            lookup_bal(s, b)
                        }) by {
                        lemma_lookup_bal_push(s, a, v, b);
                    }
                    assert(self.spec_balances() =~= old(self).spec_balances().insert(
                        a,
                        v as int,
                    ));
                }
            },
        }
    }
}

/// The loop of `balance_of` starts from the whole list.
proof fn lemma_lookup_bal_read(s: Seq<(AccountId, Balance)>, a: AccountId, n: int)
    requires
        n == s.len(),
    ensures
        lookup_bal(s, a) == lookup_bal(s.take(n), a),
{
    assert(s.take(n) =~= s);
}

impl Config for Balances {
    open spec fn balances(&self) -> Map<AccountId, int> {
        self.spec_balances()
    }

    fn transfer(
        &mut self,
        from: AccountId,
        to: AccountId,
        amount: Balance,
        _preserve: bool,
    ) -> (r: Result<(), PaymentError>) {
        let fb = self.balance_of(from);
        if fb < amount {
            return Err(PaymentError::InsufficientFunds);
        }
        if from == to {
            return Ok(());
        }
        let tb = self.balance_of(to);
        if tb > u64::MAX - amount {
            return Err(PaymentError::Other);
        }
        self.set_balance(from, fb - amount);
        self.set_balance(to, tb + amount);
        Ok(())
    }
}

} // verus!
