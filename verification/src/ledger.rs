//! What the library asks of the ledger that moves value, and what it hears
//! back. The library never moves value itself: an operation first names the
//! transfers it depends on, and is carried out once their outcome is known.

use vstd::prelude::*;
use crate::state::UserKey;

verus! {

/// One side of a transfer.
#[derive(Clone, Copy, Debug, PartialEq, Eq)]
pub enum Account {
    /// The pooled funds of the window.
    Treasury,
    /// The balance of a bettor.
    User(UserKey),
}

/// A movement of `amount` from one account to another.
#[derive(Clone, Copy, Debug, PartialEq, Eq)]
pub struct Transfer {
    pub from: Account,
    pub to: Account,
    pub amount: u64,
}

impl Transfer {
    /// The transfer that brings a stake into the treasury.
    pub open spec fn spec_deposit(user: UserKey, amount: u64) -> Transfer {
        Transfer { from: Account::User(user), to: Account::Treasury, amount }
    }

    /// The transfer that brings a stake into the treasury.
    #[verifier::when_used_as_spec(spec_deposit)]
    pub fn deposit(user: UserKey, amount: u64) -> (transfer: Transfer)
        ensures
            transfer == Transfer::spec_deposit(user, amount),
    {
        Transfer { from: Account::User(user), to: Account::Treasury, amount }
    }

    /// The transfer that pays a bettor out of the treasury.
    pub open spec fn spec_payout(user: UserKey, amount: u64) -> Transfer {
        Transfer { from: Account::Treasury, to: Account::User(user), amount }
    }

    /// The transfer that pays a bettor out of the treasury.
    #[verifier::when_used_as_spec(spec_payout)]
    pub fn payout(user: UserKey, amount: u64) -> (transfer: Transfer)
        ensures
            transfer == Transfer::spec_payout(user, amount),
    {
        Transfer { from: Account::Treasury, to: Account::User(user), amount }
    }
}

/// What became of the transfers that an operation asked for.
#[derive(Clone, Copy, Debug, PartialEq, Eq, Structural)]
pub enum TransferOutcome {
    /// Every transfer was carried out.
    Completed,
    /// At least one transfer was not carried out, and none has taken effect.
    Failed,
}

} // verus!
