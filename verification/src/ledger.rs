//! The ledger: account balances and next-expected nonces, keyed by address.
//!
//! An absent account reads as balance 0 and next nonce 0; absence is not an
//! error. Balances are unsigned, so no reachable state holds a negative
//! balance, and a debit that would underflow is rejected before any
//! mutation is visible.

use vstd::prelude::*;
use crate::identity::Address;

verus! {

/// One account record: balance in the smallest currency unit, and the
/// nonce the next transaction from this account must carry.
#[derive(Clone, Debug)]
pub struct Account {
    pub address: Address,
    pub balance: u64,
    pub next_nonce: u64,
}

/// A ledger mutation that cannot be applied.
#[derive(Clone, Copy, Debug, PartialEq, Eq, Structural)]
pub enum LedgerError {
    /// A debit exceeds the account's balance.
    InsufficientFunds,
    /// A credit would push the account's balance past the representable
    /// maximum.
    BalanceOverflow,
}

/// The first account in `s` whose address is `addr`, if any.
pub open spec fn find_account(s: Seq<Account>, addr: Seq<char>) -> Option<Account>
    decreases s.len(),
{
    if s.len() == 0 {
        None
    } else if s[0].address@ == addr {
        Some(s[0])
    } else {
        find_account(s.drop_first(), addr)
    }
}

/// No two records share an address.
pub open spec fn unique_addrs(s: Seq<Account>) -> bool {
    forall|i: int, j: int| 0 <= i < j < s.len() ==> s[i].address@ != s[j].address@
}

/// The account store. Mutated only under the applier's direction.
#[derive(Debug)]
pub struct Ledger {
    accounts: Vec<Account>,
}

impl Ledger {
    /// The current account records.
    pub closed spec fn snap(&self) -> Seq<Account> {
        self.accounts@
    }

    /// Well-formedness: one record per address.
    pub open spec fn wf(&self) -> bool {
        unique_addrs(self.snap())
    }

    /// The balance recorded for `addr`, or 0 if the account is absent.
    pub open spec fn spec_balance(&self, addr: Seq<char>) -> u64 {
        match find_account(self.snap(), addr) {
            Some(a) => a.balance,
            None => 0,
        }
    }

    /// The next expected nonce for `addr`, or 0 if the account is absent.
    pub open spec fn spec_nonce(&self, addr: Seq<char>) -> u64 {
        match find_account(self.snap(), addr) {
            Some(a) => a.next_nonce,
            None => 0,
        }
    }

    /// Creates an empty ledger.
    pub fn new() -> (r: Ledger)
        ensures
            r.wf(),
            r.snap().len() == 0,
    {
        Ledger { accounts: Vec::new() }
    }

    fn find_index(&self, address: &Address) -> (r: Option<usize>)
        ensures
            match r {
                Some(i) => i < self.snap().len() && self.snap()[i as int].address@ == address@
                    && find_account(self.snap(), address@) == Some(self.snap()[i as int]),
                None => find_account(self.snap(), address@) is None,
            },
    {
        let mut i: usize = 0;
        while i < self.accounts.len()
            invariant
                i <= self.accounts@.len(),
                forall|j: int| 0 <= j < i ==> self.accounts@[j].address@ != address@,
            decreases self.accounts@.len() - i,
        {
            if self.accounts[i].address == *address {
                proof {
                    lemma_find_first(self.accounts@, address@, i as int);
                }
                return Some(i);
            }
            i = i + 1;
        }
        proof {
            lemma_find_none(self.accounts@, address@);
        }
        None
    }

    /// Reads the balance of `address`; an unknown address reads as 0.
    pub fn get_balance(&self, address: &Address) -> (r: u64)
        ensures
            r == self.spec_balance(address@),
    {
        match self.find_index(address) {
            Some(i) => self.accounts[i].balance,
            None => 0,
        }
    }

    /// Reads the next expected nonce of `address`; an unknown address
    /// reads as 0.
    pub fn get_next_nonce(&self, address: &Address) -> (r: u64)
        ensures
            r == self.spec_nonce(address@),
    {
        match self.find_index(address) {
            Some(i) => self.accounts[i].next_nonce,
            None => 0,
        }
    }

    /// Adds `amount` to the balance of `address`, creating the account if
    /// absent. Fails, changing nothing, only if the balance would exceed
    /// the representable maximum.
    pub fn credit(&mut self, address: &Address, amount: u64) -> (r: Result<(), LedgerError>)
        requires
            old(self).wf(),
        ensures
            final(self).wf(),
            r is Ok <==> old(self).spec_balance(address@) + amount <= u64::MAX,
            r is Err ==> r == Err::<(), LedgerError>(LedgerError::BalanceOverflow),
            r is Err ==> final(self).snap() == old(self).snap(),
            r is Ok ==> final(self).spec_balance(address@) == old(self).spec_balance(address@)
                + amount,
            final(self).spec_nonce(address@) == old(self).spec_nonce(address@),
            forall|a: Seq<char>|
                a != address@ ==> #[trigger] find_account(final(self).snap(), a) == find_account(
                    old(self).snap(),
                    a,
                ),
    {
        let ghost s0 = self.snap();
        match self.find_index(address) {
            Some(i) => {
                let balance = self.accounts[i].balance;
                if amount > u64::MAX - balance {
                    Err(LedgerError::BalanceOverflow)
                } else {
                    let mut acc = self.accounts.remove(i);
                    acc.balance = balance + amount;
                    self.accounts.insert(i, acc);
                    proof {
                        assert(self.accounts@ =~= s0.update(i as int, acc));
                        lemma_after_update(s0, i as int, acc, address@);
                    }
                    Ok(())
                }
            },
            None => {
                let acc = Account { address: address.clone(), balance: amount, next_nonce: 0 };
                self.accounts.push(acc);
                proof {
                    lemma_after_push(s0, acc, address@);
                }
                Ok(())
            },
        }
    }

    /// Subtracts `amount` from the balance of `address`. Fails with
    /// `InsufficientFunds`, changing nothing, exactly when the balance is
    /// below `amount`.
    pub fn debit(&mut self, address: &Address, amount: u64) -> (r: Result<(), LedgerError>)
        requires
            old(self).wf(),
        ensures
            final(self).wf(),
            r is Ok <==> amount <= old(self).spec_balance(address@),
            r is Err ==> r == Err::<(), LedgerError>(LedgerError::InsufficientFunds),
            r is Err ==> final(self).snap() == old(self).snap(),
            r is Ok ==> final(self).spec_balance(address@) == old(self).spec_balance(address@)
                - amount,
            final(self).spec_nonce(address@) == old(self).spec_nonce(address@),
            forall|a: Seq<char>|
                a != address@ ==> #[trigger] find_account(final(self).snap(), a) == find_account(
                    old(self).snap(),
                    a,
                ),
    {
        let ghost s0 = self.snap();
        match self.find_index(address) {
            Some(i) => {
                let balance = self.accounts[i].balance;
                if balance < amount {
                    Err(LedgerError::InsufficientFunds)
                } else {
                    let mut acc = self.accounts.remove(i);
                    acc.balance = balance - amount;
                    self.accounts.insert(i, acc);
                    proof {
                        assert(self.accounts@ =~= s0.update(i as int, acc));
                        lemma_after_update(s0, i as int, acc, address@);
                    }
                    Ok(())
                }
            },
            None => {
                if amount > 0 {
                    Err(LedgerError::InsufficientFunds)
                } else {
                    Ok(())
                }
            },
        }
    }

    /// Returns the next expected nonce of `address` and advances it by
    /// exactly one, creating the account (with balance 0) if absent.
    pub fn get_and_increment_nonce(&mut self, address: &Address) -> (r: u64)
        requires
            old(self).wf(),
            old(self).spec_nonce(address@) < u64::MAX,
        ensures
            final(self).wf(),
            r == old(self).spec_nonce(address@),
            final(self).spec_nonce(address@) == r + 1,
            final(self).spec_balance(address@) == old(self).spec_balance(address@),
            forall|a: Seq<char>|
                a != address@ ==> #[trigger] find_account(final(self).snap(), a) == find_account(
                    old(self).snap(),
                    a,
                ),
    {
        let ghost s0 = self.snap();
        match self.find_index(address) {
            Some(i) => {
                let nonce = self.accounts[i].next_nonce;
                let mut acc = self.accounts.remove(i);
                acc.next_nonce = nonce + 1;
                self.accounts.insert(i, acc);
                proof {
                    assert(self.accounts@ =~= s0.update(i as int, acc));
                    lemma_after_update(s0, i as int, acc, address@);
                }
                nonce
            },
            None => {
                let acc = Account { address: address.clone(), balance: 0, next_nonce: 1 };
                self.accounts.push(acc);
                proof {
                    lemma_after_push(s0, acc, address@);
                }
                0
            },
        }
    }
}

proof fn lemma_find_first(s: Seq<Account>, addr: Seq<char>, i: int)
    requires
        0 <= i < s.len(),
        s[i].address@ == addr,
        forall|j: int| 0 <= j < i ==> s[j].address@ != addr,
    ensures
        find_account(s, addr) == Some(s[i]),
    decreases i,
{
    if i > 0 {
        assert(s.drop_first()[i - 1] == s[i]);
        assert(forall|j: int| 0 <= j < i - 1 ==> s.drop_first()[j] == s[j + 1]);
        lemma_find_first(s.drop_first(), addr, i - 1);
    }
}

proof fn lemma_find_none(s: Seq<Account>, addr: Seq<char>)
    requires
        forall|j: int| 0 <= j < s.len() ==> s[j].address@ != addr,
    ensures
        find_account(s, addr) is None,
    decreases s.len(),
{
    if s.len() > 0 {
        assert(forall|j: int| 0 <= j < s.drop_first().len() ==> s.drop_first()[j] == s[j + 1]);
        lemma_find_none(s.drop_first(), addr);
    }
}

proof fn lemma_unique_drop_first(s: Seq<Account>)
    requires
        unique_addrs(s),
        s.len() > 0,
    ensures
        unique_addrs(s.drop_first()),
{
    assert forall|i: int, j: int|
        0 <= i < j < s.drop_first().len() implies s.drop_first()[i].address@
        != s.drop_first()[j].address@ by {
        assert(s.drop_first()[i] == s[i + 1]);
        assert(s.drop_first()[j] == s[j + 1]);
    }
}

proof fn lemma_find_update(s: Seq<Account>, i: int, x: Account, a: Seq<char>)
    requires
        unique_addrs(s),
        0 <= i < s.len(),
        x.address@ == s[i].address@,
    ensures
        find_account(s.update(i, x), a) == if a == x.address@ {
            Some(x)
        } else {
            find_account(s, a)
        },
    decreases s.len(),
{
    let t = s.update(i, x);
    if i == 0 {
        assert(t[0] == x);
        assert(t.drop_first() =~= s.drop_first());
    } else {
        assert(t[0] == s[0]);
        assert(t.drop_first() =~= s.drop_first().update(i - 1, x));
        assert(s.drop_first()[i - 1] == s[i]);
        lemma_unique_drop_first(s);
        lemma_find_update(s.drop_first(), i - 1, x, a);
        // the head cannot carry the updated address
        assert(s[0].address@ != s[i].address@);
    }
}

proof fn lemma_find_push(s: Seq<Account>, x: Account, a: Seq<char>)
    ensures
        find_account(s.push(x), a) == match find_account(s, a) {
            Some(b) => Some(b),
            None => if a == x.address@ {
                Some(x)
            } else {
                None
            },
        },
    decreases s.len(),
{
    if s.len() == 0 {
        assert(s.push(x)[0] == x);
        assert(s.push(x).drop_first() =~= Seq::<Account>::empty());
    } else {
        assert(s.push(x)[0] == s[0]);
        assert(s.push(x).drop_first() =~= s.drop_first().push(x));
        lemma_find_push(s.drop_first(), x, a);
    }
}

/// After replacing the record at `i` by one with the same address, lookups
/// at that address see the new record and every other lookup is unchanged;
/// uniqueness is preserved.
proof fn lemma_after_update(s: Seq<Account>, i: int, x: Account, addr: Seq<char>)
    requires
        unique_addrs(s),
        0 <= i < s.len(),
        x.address@ == s[i].address@,
        s[i].address@ == addr,
    ensures
        unique_addrs(s.update(i, x)),
        find_account(s.update(i, x), addr) == Some(x),
        forall|a: Seq<char>|
            a != addr ==> #[trigger] find_account(s.update(i, x), a) == find_account(s, a),
{
    let t = s.update(i, x);
    assert forall|p: int, q: int| 0 <= p < q < t.len() implies t[p].address@ != t[q].address@ by {
        assert(t[p].address@ == s[p].address@);
        assert(t[q].address@ == s[q].address@);
    }
    lemma_find_update(s, i, x, addr);
    assert forall|a: Seq<char>| a != addr implies #[trigger] find_account(t, a) == find_account(
        s,
        a,
    ) by {
        lemma_find_update(s, i, x, a);
    }
}

/// After appending a record whose address is not yet present, a lookup at
/// that address sees the new record and every other lookup is unchanged;
/// uniqueness is preserved.
proof fn lemma_after_push(s: Seq<Account>, x: Account, addr: Seq<char>)
    requires
        unique_addrs(s),
        x.address@ == addr,
        find_account(s, addr) is None,
    ensures
        unique_addrs(s.push(x)),
        find_account(s.push(x), addr) == Some(x),
        forall|a: Seq<char>|
            a != addr ==> #[trigger] find_account(s.push(x), a) == find_account(s, a),
{
    lemma_no_match_of_none(s, addr);
    let t = s.push(x);
    assert forall|p: int, q: int| 0 <= p < q < t.len() implies t[p].address@ != t[q].address@ by {
        if q < s.len() {
            assert(t[p] == s[p]);
            assert(t[q] == s[q]);
        } else {
            assert(t[p] == s[p]);
            assert(t[q] == x);
        }
    }
    lemma_find_push(s, x, addr);
    assert forall|a: Seq<char>| a != addr implies #[trigger] find_account(t, a) == find_account(
        s,
        a,
    ) by {
        lemma_find_push(s, x, a);
    }
}

proof fn lemma_no_match_of_none(s: Seq<Account>, addr: Seq<char>)
    requires
        find_account(s, addr) is None,
    ensures
        forall|j: int| 0 <= j < s.len() ==> s[j].address@ != addr,
    decreases s.len(),
{
    if s.len() > 0 {
        lemma_no_match_of_none(s.drop_first(), addr);
        assert(forall|j: int| 0 <= j < s.drop_first().len() ==> s.drop_first()[j] == s[j + 1]);
        assert forall|j: int| 0 <= j < s.len() implies s[j].address@ != addr by {
            if j > 0 {
                assert(s.drop_first()[j - 1] == s[j]);
            }
        }
    }
}

} // verus!
