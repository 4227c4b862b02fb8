//! The ways in which an operation on a betting window can be refused.

use vstd::prelude::*;

verus! {

/// Why an operation was refused. Every refusal leaves the window as it was.
#[derive(Clone, Copy, Debug, PartialEq, Eq, Structural)]
pub enum ErrorCode {
    /// A bet arrived after the window's last slot.
    BettingClosed,
    /// The prediction is outside the domain that the window's payout rule accepts.
    InvalidPrediction,
    /// Resolution was attempted before the window's last slot.
    BettingNotClosed,
    /// Resolution was attempted on a window that already has an outcome.
    AlreadyResolved,
    /// Resolution was attempted on a window without bets.
    NoBets,
    /// A claim or a reset was attempted before the window was resolved.
    NotResolved,
    /// A claim was made on a window whose pool is zero.
    NoBet,
    /// The claimant has no unpaid bet on the recorded outcome.
    YouLost,
    /// The ledger did not carry out the transfer that the operation depends on.
    TransferFailed,
    /// A slot, a pool or a payout would leave the range of `u64`.
    ArithmeticOverflow,
    /// The window already holds as many bets as its record has room for.
    WindowFull,
}

impl ErrorCode {
    /// The text shown to a user for each kind of refusal.
    pub open spec fn spec_message(self) -> Seq<char> {
        match self {
            ErrorCode::BettingClosed => "Betting window is closed."@,
            ErrorCode::InvalidPrediction => "Invalid prediction."@,
            ErrorCode::BettingNotClosed => "Betting window is not closed yet."@,
            ErrorCode::AlreadyResolved => "Betting window is already resolved."@,
            ErrorCode::NoBets => "No bets to resolve."@,
            ErrorCode::NotResolved => "Betting window is not resolved yet."@,
            ErrorCode::NoBet => "There is no winning bet."@,
            ErrorCode::YouLost => "You lost."@,
            ErrorCode::TransferFailed => "The transfer did not complete."@,
            ErrorCode::ArithmeticOverflow => "Amount out of range."@,
            ErrorCode::WindowFull => "Betting window is full."@,
        }
    }

    /// The text shown to a user for this kind of refusal.
    pub fn message(&self) -> (text: &'static str)
        ensures
            text@ == self.spec_message(),
    {
        match self {
            ErrorCode::BettingClosed => "Betting window is closed.",
            ErrorCode::InvalidPrediction => "Invalid prediction.",
            ErrorCode::BettingNotClosed => "Betting window is not closed yet.",
            ErrorCode::AlreadyResolved => "Betting window is already resolved.",
            ErrorCode::NoBets => "No bets to resolve.",
            ErrorCode::NotResolved => "Betting window is not resolved yet.",
            ErrorCode::NoBet => "There is no winning bet.",
            ErrorCode::YouLost => "You lost.",
            ErrorCode::TransferFailed => "The transfer did not complete.",
            ErrorCode::ArithmeticOverflow => "Amount out of range.",
            ErrorCode::WindowFull => "Betting window is full.",
        }
    }
}

} // verus!
