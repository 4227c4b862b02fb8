//! A pari-mutuel prediction-market ledger: the life of a betting window, the
//! accounting of its pools and the computation of what winners are paid.

pub mod accounting;
pub mod error;
pub mod instructions;
pub mod laws;
pub mod ledger;
pub mod lifecycle;
pub mod payout;
pub mod state;
