use bets::error::ErrorCode;
use bets::instructions::{claim_payout, place_bet, reset_bet, resolve_bet};
use bets::ledger::TransferOutcome;
use bets::state::{Bet, BettingWindow, PayoutRule, Policy, RoundLength, UserKey};

fn key(n: u8) -> UserKey {
    UserKey::new([n; 32])
}

fn policy() -> Policy {
    Policy { payout: PayoutRule::PariMutuel, round: RoundLength::Long }
}

#[test]
fn reset_clears_a_resolved_window() {
    let mut w = BettingWindow::new(policy());
    assert_eq!(place_bet(&mut w, key(1), 1, 100, 5, TransferOutcome::Completed), Ok(()));
    assert_eq!(place_bet(&mut w, key(2), 0, 40, 6, TransferOutcome::Completed), Ok(()));
    assert_eq!(resolve_bet(&mut w, 1, 25_005, TransferOutcome::Completed), Ok(()));
    assert_eq!(reset_bet(&mut w), Ok(()));
    assert_eq!(w, BettingWindow::new(policy()));
    assert_eq!(w.start_slot, 0);
    assert_eq!(w.end_slot, 0);
    assert!(w.bets.is_empty());
    assert_eq!(w.pool, 0);
    assert_eq!(w.outcome_pools, [0, 0]);
    assert!(!w.resolved);
    assert_eq!(w.weather_result, 0);
}

#[test]
fn reset_of_an_open_round_is_refused() {
    let mut w = BettingWindow::new(policy());
    assert_eq!(place_bet(&mut w, key(1), 1, 100, 5, TransferOutcome::Completed), Ok(()));
    let before = w.clone();
    assert_eq!(reset_bet(&mut w), Err(ErrorCode::NotResolved));
    assert_eq!(w, before);
}

#[test]
fn reset_of_an_unused_record_is_refused() {
    let mut w = BettingWindow::new(policy());
    assert_eq!(reset_bet(&mut w), Err(ErrorCode::NotResolved));
    assert_eq!(w, BettingWindow::new(policy()));
}

#[test]
fn bet_after_reset_starts_a_round_in_its_own_slot() {
    let mut w = BettingWindow::new(policy());
    assert_eq!(place_bet(&mut w, key(1), 1, 100, 5, TransferOutcome::Completed), Ok(()));
    assert_eq!(resolve_bet(&mut w, 0, 30_000, TransferOutcome::Completed), Ok(()));
    assert_eq!(reset_bet(&mut w), Ok(()));
    assert_eq!(place_bet(&mut w, key(2), 0, 9, 40_000, TransferOutcome::Completed), Ok(()));
    assert_eq!(w.start_slot, 40_000);
    assert_eq!(w.end_slot, 65_000);
    assert_eq!(w.pool, 9);
    assert_eq!(w.outcome_pools, [9, 0]);
    assert_eq!(w.bets, vec![Bet { user: key(2), amount: 9, prediction: 0, claimed: false }]);
    assert!(!w.resolved);
    assert_eq!(w.weather_result, 0);
}

#[test]
fn whole_life_of_a_window_at_fixed_odds() {
    let mut w = BettingWindow::default();
    assert_eq!(place_bet(&mut w, key(1), 22, 10, 100, TransferOutcome::Completed), Ok(()));
    assert_eq!(place_bet(&mut w, key(2), 23, 20, 110, TransferOutcome::Completed), Ok(()));
    assert_eq!(
        place_bet(&mut w, key(3), 23, 20, 111, TransferOutcome::Completed),
        Err(ErrorCode::BettingClosed)
    );
    assert_eq!(
        resolve_bet(&mut w, 23, 109, TransferOutcome::Completed),
        Err(ErrorCode::BettingNotClosed)
    );
    assert_eq!(resolve_bet(&mut w, 23, 110, TransferOutcome::Completed), Ok(()));
    assert_eq!(claim_payout(&mut w, key(1), TransferOutcome::Completed), Err(ErrorCode::YouLost));
    assert_eq!(claim_payout(&mut w, key(2), TransferOutcome::Completed), Ok(()));
    assert_eq!(claim_payout(&mut w, key(2), TransferOutcome::Completed), Err(ErrorCode::YouLost));
    assert_eq!(reset_bet(&mut w), Ok(()));
    assert_eq!(w, BettingWindow::default());
    assert_eq!(place_bet(&mut w, key(3), 1, 5, 500, TransferOutcome::Completed), Ok(()));
    assert_eq!(w.start_slot, 500);
    assert_eq!(w.end_slot, 510);
}
