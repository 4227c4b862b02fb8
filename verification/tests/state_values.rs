use bets::error::ErrorCode;
use bets::ledger::{Account, Transfer};
use bets::state::{
    BettingWindow, PayoutRule, Policy, RoundLength, UserKey, LONG_ROUND_SLOTS, MAX_BETS,
    SHORT_ROUND_SLOTS,
};

#[test]
fn keys_with_equal_bytes_are_the_same_key() {
    let a = UserKey::new([7u8; 32]);
    let b = UserKey::new([7u8; 32]);
    let mut other = [7u8; 32];
    other[31] = 8;
    let c = UserKey::new(other);
    assert!(a.same_as(&b));
    assert!(!a.same_as(&c));
    assert!(!c.same_as(&a));
    assert_eq!(a, b);
    assert_ne!(a, c);
}

#[test]
fn keys_that_differ_in_the_first_byte_differ() {
    let mut bytes = [0u8; 32];
    let a = UserKey::new(bytes);
    bytes[0] = 1;
    let b = UserKey::new(bytes);
    assert!(!a.same_as(&b));
    assert_eq!(b.bytes[0], 1);
}

#[test]
fn round_lengths_are_ten_and_twentyfive_thousand_slots() {
    assert_eq!(RoundLength::Short.slots(), 10);
    assert_eq!(RoundLength::Long.slots(), 25_000);
    assert_eq!(SHORT_ROUND_SLOTS, 10);
    assert_eq!(LONG_ROUND_SLOTS, 25_000);
}

#[test]
fn fixed_odds_accept_predictions_above_zero_only() {
    let rule = PayoutRule::FixedOdds;
    assert!(rule.accepts(1));
    assert!(rule.accepts(127));
    assert!(!rule.accepts(0));
    assert!(!rule.accepts(-1));
    assert!(!rule.accepts(-128));
}

#[test]
fn pari_mutuel_accepts_zero_and_one_only() {
    let rule = PayoutRule::PariMutuel;
    assert!(rule.accepts(0));
    assert!(rule.accepts(1));
    assert!(!rule.accepts(2));
    assert!(!rule.accepts(-1));
    assert!(!rule.accepts(127));
}

#[test]
fn default_policy_is_short_rounds_at_fixed_odds() {
    let policy = Policy::default();
    assert_eq!(policy.payout, PayoutRule::FixedOdds);
    assert_eq!(policy.round, RoundLength::Short);
}

#[test]
fn new_window_is_unused_and_empty() {
    let policy = Policy { payout: PayoutRule::PariMutuel, round: RoundLength::Long };
    let window = BettingWindow::new(policy);
    assert_eq!(window.policy, policy);
    assert_eq!(window.start_slot, 0);
    assert_eq!(window.end_slot, 0);
    assert!(window.bets.is_empty());
    assert!(!window.resolved);
    assert_eq!(window.weather_result, 0);
    assert_eq!(window.pool, 0);
    assert_eq!(window.outcome_pools, [0, 0]);
}

#[test]
fn default_window_is_new_window_under_default_policy() {
    assert_eq!(BettingWindow::default(), BettingWindow::new(Policy::default()));
}

#[test]
fn a_window_holds_twentythree_bets() {
    assert_eq!(MAX_BETS, 23);
    assert!(54 + 42 * MAX_BETS <= 1053);
    assert!(54 + 42 * (MAX_BETS + 1) > 1053);
}

#[test]
fn deposit_goes_from_user_to_treasury() {
    let user = UserKey::new([3u8; 32]);
    let t = Transfer::deposit(user, 77);
    assert_eq!(t, Transfer { from: Account::User(user), to: Account::Treasury, amount: 77 });
}

#[test]
fn payout_goes_from_treasury_to_user() {
    let user = UserKey::new([4u8; 32]);
    let t = Transfer::payout(user, 5);
    assert_eq!(t, Transfer { from: Account::Treasury, to: Account::User(user), amount: 5 });
}

#[test]
fn every_error_has_its_own_message() {
    let all = [
        ErrorCode::BettingClosed,
        ErrorCode::InvalidPrediction,
        ErrorCode::BettingNotClosed,
        ErrorCode::AlreadyResolved,
        ErrorCode::NoBets,
        ErrorCode::NotResolved,
        ErrorCode::NoBet,
        ErrorCode::YouLost,
        ErrorCode::TransferFailed,
        ErrorCode::ArithmeticOverflow,
        ErrorCode::WindowFull,
    ];
    for (i, a) in all.iter().enumerate() {
        for (j, b) in all.iter().enumerate() {
            assert_eq!(i == j, a == b);
            assert_eq!(i == j, a.message() == b.message());
        }
    }
}

#[test]
fn error_messages_are_fixed_texts() {
    assert_eq!(ErrorCode::BettingClosed.message(), "Betting window is closed.");
    assert_eq!(ErrorCode::InvalidPrediction.message(), "Invalid prediction.");
    assert_eq!(ErrorCode::BettingNotClosed.message(), "Betting window is not closed yet.");
    assert_eq!(ErrorCode::AlreadyResolved.message(), "Betting window is already resolved.");
    assert_eq!(ErrorCode::NoBets.message(), "No bets to resolve.");
    assert_eq!(ErrorCode::NotResolved.message(), "Betting window is not resolved yet.");
    assert_eq!(ErrorCode::NoBet.message(), "There is no winning bet.");
    assert_eq!(ErrorCode::YouLost.message(), "You lost.");
    assert_eq!(ErrorCode::TransferFailed.message(), "The transfer did not complete.");
    assert_eq!(ErrorCode::ArithmeticOverflow.message(), "Amount out of range.");
    assert_eq!(ErrorCode::WindowFull.message(), "Betting window is full.");
}
