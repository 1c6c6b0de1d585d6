//! The bridge-facing side of the ledger: onboarding and offboarding
//! funds against an external settlement layer.
//!
//! Both operations go through the same atomic ledger mutation path as
//! transaction delivery — never a direct bypass — so the solvency
//! invariant holds across deposits and withdrawals too.

use vstd::prelude::*;
use crate::identity::Address;
use crate::ledger::{find_account, Ledger, LedgerError};

verus! {

/// Manages interactions with the external settlement layer.
#[derive(Debug)]
pub struct SettlementManager;

impl SettlementManager {
    /// Creates the settlement manager.
    pub fn new() -> (r: SettlementManager)
    {
        SettlementManager
    }

    /// Credits a deposit observed on the settlement layer to the user's
    /// ledger account. Fails, changing nothing, only if the balance
    /// would exceed the representable maximum.
    pub fn onboard_funds(
        &self,
        ledger: &mut Ledger,
        user_address: &Address,
        amount: u64,
    ) -> (r: Result<(), LedgerError>)
        requires
            old(ledger).wf(),
        ensures
            final(ledger).wf(),
            r is Ok <==> old(ledger).spec_balance(user_address@) + amount <= u64::MAX,
            r is Err ==> r == Err::<(), LedgerError>(LedgerError::BalanceOverflow),
            r is Err ==> final(ledger).snap() == old(ledger).snap(),
            r is Ok ==> final(ledger).spec_balance(user_address@) == old(ledger).spec_balance(
                user_address@,
            ) + amount,
            final(ledger).spec_nonce(user_address@) == old(ledger).spec_nonce(user_address@),
            forall|a: Seq<char>|
                a != user_address@ ==> #[trigger] find_account(final(ledger).snap(), a)
                    == find_account(old(ledger).snap(), a),
    {
        ledger.credit(user_address, amount)
    }

    /// Debits a withdrawal destined for the settlement layer from the
    /// user's ledger account. Fails with `InsufficientFunds`, changing
    /// nothing, exactly when the balance is below `amount`.
    pub fn offboard_funds(
        &self,
        ledger: &mut Ledger,
        user_address: &Address,
        amount: u64,
    ) -> (r: Result<(), LedgerError>)
        requires
            old(ledger).wf(),
        ensures
            final(ledger).wf(),
            r is Ok <==> amount <= old(ledger).spec_balance(user_address@),
            r is Err ==> r == Err::<(), LedgerError>(LedgerError::InsufficientFunds),
            r is Err ==> final(ledger).snap() == old(ledger).snap(),
            r is Ok ==> final(ledger).spec_balance(user_address@) == old(ledger).spec_balance(
                user_address@,
            ) - amount,
            final(ledger).spec_nonce(user_address@) == old(ledger).spec_nonce(user_address@),
            forall|a: Seq<char>|
                a != user_address@ ==> #[trigger] find_account(final(ledger).snap(), a)
                    == find_account(old(ledger).snap(), a),
    {
        ledger.debit(user_address, amount)
    }
}

} // verus!
