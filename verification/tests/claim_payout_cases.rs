use bets::error::ErrorCode;
use bets::instructions::{claim_payout, claim_transfer, place_bet, resolve_bet};
use bets::ledger::{Account, Transfer, TransferOutcome};
use bets::state::{Bet, BettingWindow, PayoutRule, Policy, RoundLength, UserKey};

fn key(n: u8) -> UserKey {
    UserKey::new([n; 32])
}

fn fixed_odds() -> BettingWindow {
    BettingWindow::new(Policy { payout: PayoutRule::FixedOdds, round: RoundLength::Short })
}

fn pay(user: UserKey, amount: u64) -> Transfer {
    Transfer { from: Account::Treasury, to: Account::User(user), amount }
}

/// Bets of users 1, 2, 1, 3 on 21, 19, 21, 21, resolved with 21.
fn resolved_round() -> BettingWindow {
    let mut w = fixed_odds();
    assert_eq!(place_bet(&mut w, key(1), 21, 100, 5, TransferOutcome::Completed), Ok(()));
    assert_eq!(place_bet(&mut w, key(2), 19, 50, 6, TransferOutcome::Completed), Ok(()));
    assert_eq!(place_bet(&mut w, key(1), 21, 7, 7, TransferOutcome::Completed), Ok(()));
    assert_eq!(place_bet(&mut w, key(3), 21, 30, 8, TransferOutcome::Completed), Ok(()));
    assert_eq!(resolve_bet(&mut w, 21, 15, TransferOutcome::Completed), Ok(()));
    w
}

#[test]
fn claim_before_resolution_is_refused() {
    let mut w = fixed_odds();
    assert_eq!(place_bet(&mut w, key(1), 21, 100, 5, TransferOutcome::Completed), Ok(()));
    let before = w.clone();
    assert_eq!(claim_transfer(&w, key(1)), Err(ErrorCode::NotResolved));
    assert_eq!(
        claim_payout(&mut w, key(1), TransferOutcome::Completed),
        Err(ErrorCode::NotResolved)
    );
    assert_eq!(w, before);
}

#[test]
fn claim_on_an_empty_pool_is_refused() {
    let mut w = fixed_odds();
    assert_eq!(place_bet(&mut w, key(1), 21, 0, 5, TransferOutcome::Completed), Ok(()));
    assert_eq!(resolve_bet(&mut w, 21, 15, TransferOutcome::Completed), Ok(()));
    let before = w.clone();
    assert_eq!(claim_payout(&mut w, key(1), TransferOutcome::Completed), Err(ErrorCode::NoBet));
    assert_eq!(w, before);
}

#[test]
fn winner_is_paid_twice_the_bet() {
    let mut w = resolved_round();
    assert_eq!(claim_transfer(&w, key(3)), Ok(pay(key(3), 60)));
    assert_eq!(claim_payout(&mut w, key(3), TransferOutcome::Completed), Ok(()));
    assert!(w.bets[3].claimed);
    assert!(!w.bets[0].claimed);
    assert!(!w.bets[1].claimed);
    assert!(!w.bets[2].claimed);
    assert_eq!(w.pool, 187);
    assert_eq!(w.bets[3], Bet { user: key(3), amount: 30, prediction: 21, claimed: true });
}

#[test]
fn loser_is_told_so() {
    let mut w = resolved_round();
    let before = w.clone();
    assert_eq!(claim_transfer(&w, key(2)), Err(ErrorCode::YouLost));
    assert_eq!(claim_payout(&mut w, key(2), TransferOutcome::Completed), Err(ErrorCode::YouLost));
    assert_eq!(w, before);
}

#[test]
fn stranger_is_told_so() {
    let mut w = resolved_round();
    let before = w.clone();
    assert_eq!(claim_payout(&mut w, key(77), TransferOutcome::Completed), Err(ErrorCode::YouLost));
    assert_eq!(w, before);
}

#[test]
fn second_claim_for_the_same_bet_is_refused() {
    let mut w = resolved_round();
    assert_eq!(claim_payout(&mut w, key(3), TransferOutcome::Completed), Ok(()));
    let before = w.clone();
    assert_eq!(claim_transfer(&w, key(3)), Err(ErrorCode::YouLost));
    assert_eq!(claim_payout(&mut w, key(3), TransferOutcome::Completed), Err(ErrorCode::YouLost));
    assert_eq!(claim_payout(&mut w, key(3), TransferOutcome::Failed), Err(ErrorCode::YouLost));
    assert_eq!(w, before);
}

#[test]
fn each_winning_bet_of_a_user_is_paid_once_in_order() {
    let mut w = resolved_round();
    assert_eq!(claim_transfer(&w, key(1)), Ok(pay(key(1), 200)));
    assert_eq!(claim_payout(&mut w, key(1), TransferOutcome::Completed), Ok(()));
    assert!(w.bets[0].claimed);
    assert!(!w.bets[2].claimed);
    assert_eq!(claim_transfer(&w, key(1)), Ok(pay(key(1), 14)));
    assert_eq!(claim_payout(&mut w, key(1), TransferOutcome::Completed), Ok(()));
    assert!(w.bets[2].claimed);
    assert_eq!(claim_transfer(&w, key(1)), Err(ErrorCode::YouLost));
    assert_eq!(claim_payout(&mut w, key(1), TransferOutcome::Completed), Err(ErrorCode::YouLost));
}

#[test]
fn failed_payout_leaves_the_bet_unpaid() {
    let mut w = resolved_round();
    let before = w.clone();
    assert_eq!(
        claim_payout(&mut w, key(3), TransferOutcome::Failed),
        Err(ErrorCode::TransferFailed)
    );
    assert_eq!(w, before);
    assert_eq!(claim_payout(&mut w, key(3), TransferOutcome::Completed), Ok(()));
    assert!(w.bets[3].claimed);
}

#[test]
fn payout_beyond_the_range_is_refused() {
    let mut w = fixed_odds();
    let big = u64::MAX / 2 + 1;
    assert_eq!(place_bet(&mut w, key(1), 21, big, 5, TransferOutcome::Completed), Ok(()));
    assert_eq!(resolve_bet(&mut w, 21, 15, TransferOutcome::Completed), Ok(()));
    let before = w.clone();
    assert_eq!(claim_transfer(&w, key(1)), Err(ErrorCode::ArithmeticOverflow));
    assert_eq!(
        claim_payout(&mut w, key(1), TransferOutcome::Completed),
        Err(ErrorCode::ArithmeticOverflow)
    );
    assert_eq!(w, before);
}

#[test]
fn largest_payout_that_fits_is_made() {
    let mut w = fixed_odds();
    let big = u64::MAX / 2;
    assert_eq!(place_bet(&mut w, key(1), 21, big, 5, TransferOutcome::Completed), Ok(()));
    assert_eq!(resolve_bet(&mut w, 21, 15, TransferOutcome::Completed), Ok(()));
    assert_eq!(claim_transfer(&w, key(1)), Ok(pay(key(1), u64::MAX - 1)));
}

#[test]
fn winners_paid_at_resolution_have_nothing_left_to_claim() {
    let mut w =
        BettingWindow::new(Policy { payout: PayoutRule::PariMutuel, round: RoundLength::Short });
    assert_eq!(place_bet(&mut w, key(1), 1, 100, 5, TransferOutcome::Completed), Ok(()));
    assert_eq!(place_bet(&mut w, key(2), 0, 200, 5, TransferOutcome::Completed), Ok(()));
    assert_eq!(resolve_bet(&mut w, 1, 15, TransferOutcome::Completed), Ok(()));
    let before = w.clone();
    assert_eq!(claim_payout(&mut w, key(1), TransferOutcome::Completed), Err(ErrorCode::YouLost));
    assert_eq!(claim_payout(&mut w, key(2), TransferOutcome::Completed), Err(ErrorCode::YouLost));
    assert_eq!(w, before);
}

#[test]
fn claims_do_not_change_the_pools() {
    let mut w = resolved_round();
    let pool = w.pool;
    for user in [1u8, 3, 1, 2, 1] {
        let _ = claim_payout(&mut w, key(user), TransferOutcome::Completed);
        assert_eq!(w.pool, pool);
        let sum: u64 = w.bets.iter().map(|b| b.amount).sum();
        assert_eq!(sum, pool);
    }
    assert_eq!(w.bets.iter().filter(|b| b.claimed).count(), 3);
}
