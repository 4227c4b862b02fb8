//! What holds of every betting window that the operations can produce, and of
//! the operations in sequence.

use vstd::prelude::*;
use crate::accounting::lemma_binary_pools_make_total;
use crate::error::ErrorCode;
use crate::instructions::{
    payable,
    lemma_first_payable_is,
    lemma_first_payable_none,
    lemma_bet_keeps_balance,
    lemma_resolution_keeps_balance,
    lemma_claim_keeps_balance,
};
use crate::ledger::{Transfer, TransferOutcome};
use crate::payout::{total_moved, lemma_payouts_within_pool};
use crate::state::{Bet, PayoutRule, Policy, UserKey, WindowView, MAX_BETS, total_staked, staked_on};

verus! {

/// One call of an operation, with the outcome of the transfers it named.
pub enum Operation {
    PlaceBet { user: UserKey, prediction: i8, amount: u64, now: u64, deposit: TransferOutcome },
    ResolveBet { result: i8, now: u64, payouts: TransferOutcome },
    ClaimPayout { user: UserKey, payout: TransferOutcome },
    ResetBet,
}

impl WindowView {
    /// What the operation returns on this window.
    pub open spec fn result_of(self, op: Operation) -> Result<(), ErrorCode> {
        match op {
            Operation::PlaceBet { user, prediction, amount, now, deposit } => self.bet_result(
                prediction,
                amount,
                now,
                deposit,
            ),
            Operation::ResolveBet { result, now, payouts } => self.resolution_result(
                result,
                now,
                payouts,
            ),
            Operation::ClaimPayout { user, payout } => self.claim_result(user, payout),
            Operation::ResetBet => self.reset_result(),
        }
    }

    /// The window that the operation leaves: this one where it is refused.
    pub open spec fn after(self, op: Operation) -> WindowView {
        if self.result_of(op) is Err {
            self
        } else {
            match op {
                Operation::PlaceBet { user, prediction, amount, now, deposit } => self.after_bet(
                    user,
                    prediction,
                    amount,
                    now,
                ),
                Operation::ResolveBet { result, now, payouts } => self.after_resolution(result),
                Operation::ClaimPayout { user, payout } => self.after_claim(user),
                Operation::ResetBet => self.cleared(),
            }
        }
    }

    /// The window that a sequence of operations leaves.
    pub open spec fn after_all(self, ops: Seq<Operation>) -> WindowView
        decreases ops.len(),
    {
        if ops.len() == 0 {
            self
        } else {
            self.after_all(ops.drop_last()).after(ops.last())
        }
    }
}

/// No operation, accepted or refused, unbalances the books.
pub proof fn lemma_operation_keeps_balance(w: WindowView, op: Operation)
    requires
        w.wf(),
    ensures
        w.after(op).wf(),
{
    if w.result_of(op) is Ok {
        match op {
            Operation::PlaceBet { user, prediction, amount, now, deposit } => {
                lemma_bet_keeps_balance(w, user, prediction, amount, now);
            },
            Operation::ResolveBet { result, now, payouts } => {
                lemma_resolution_keeps_balance(w, result);
            },
            Operation::ClaimPayout { user, payout } => {
                lemma_claim_keeps_balance(w, user);
            },
            Operation::ResetBet => {
                assert(w.cleared().bets =~= Seq::<Bet>::empty());
            },
        }
    }
}

/// In every window that operations produce from an unused record, the pool
/// is the sum of the amounts of the bets, under the pari-mutuel rule the pools
/// of the two outcomes add up to it, and a round that has a first slot ends
/// after it.
pub proof fn lemma_reachable_windows_balance(policy: Policy, ops: Seq<Operation>)
    ensures
        ({
            let w = WindowView::unused(policy).after_all(ops);
            &&& w.wf()
            &&& w.pool == total_staked(w.bets)
            &&& policy.payout == PayoutRule::PariMutuel ==> w.pool_for_outcome(0)
                + w.pool_for_outcome(1) == w.pool
            &&& w.start_slot != 0 ==> w.end_slot > w.start_slot
        }),
    decreases ops.len(),
{
    let start = WindowView::unused(policy);
    if ops.len() == 0 {
        assert(start.bets =~= Seq::<Bet>::empty());
        assert(start.wf());
    } else {
        lemma_reachable_windows_balance(policy, ops.drop_last());
        lemma_operation_keeps_balance(start.after_all(ops.drop_last()), ops.last());
    }
    let w = start.after_all(ops);
    lemma_policy_is_kept(start, ops);
    if policy.payout == PayoutRule::PariMutuel {
        lemma_binary_pools_make_total(w.bets);
    }
}

/// No operation changes the rules of a window.
pub proof fn lemma_policy_is_kept(w: WindowView, ops: Seq<Operation>)
    ensures
        w.after_all(ops).policy == w.policy,
    decreases ops.len(),
{
    if ops.len() > 0 {
        lemma_policy_is_kept(w, ops.drop_last());
    }
}

/// A bet is paid on a claim once: after a claim that was paid, no sequence of
/// further claims, by whomever, is paid for the same bet again.
pub proof fn lemma_claim_pays_once(w: WindowView, user: UserKey, later: Seq<Operation>)
    requires
        w.claim_result(user, TransferOutcome::Completed) is Ok,
        forall|k: int| 0 <= k < later.len() ==> #[trigger] later[k] is ClaimPayout,
    ensures
        ({
            let paid = w.claimed_bet(user);
            let then = w.after_claim(user).after_all(later);
            &&& 0 <= paid < w.bets.len()
            &&& payable(w.bets[paid], user, w.weather_result)
            &&& then.bets.len() == w.bets.len()
            &&& then.bets[paid].claimed
            &&& forall|other: UserKey| then.claim_refusal(other) is None ==> then.claimed_bet(other) != paid
        }),
    decreases later.len(),
{
    let paid = w.claimed_bet(user);
    lemma_first_payable_is(w.bets, user, w.weather_result, paid);
    let then = w.after_claim(user).after_all(later);
    if later.len() > 0 {
        let earlier = later.drop_last();
        assert forall|k: int| 0 <= k < earlier.len() implies #[trigger] earlier[k] is ClaimPayout by {
            assert(earlier[k] == later[k]);
        }
        lemma_claim_pays_once(w, user, earlier);
        let before = w.after_claim(user).after_all(earlier);
        let op = later.last();
        assert(later[later.len() - 1] is ClaimPayout);
        if before.result_of(op) is Ok {
            let claimant = op->ClaimPayout_user;
            assert(before.claim_refusal(claimant) is None);
            let i = before.claimed_bet(claimant);
            lemma_first_payable_is(before.bets, claimant, before.weather_result, i);
        }
    }
    assert forall|other: UserKey| then.claim_refusal(other) is None implies then.claimed_bet(other)
        != paid by {
        let i = then.claimed_bet(other);
        lemma_first_payable_is(then.bets, other, then.weather_result, i);
    }
}

/// A claimant with one winning bet is paid once: the claim that follows a paid
/// claim is refused with `YouLost`.
pub proof fn lemma_second_claim_is_refused(w: WindowView, user: UserKey, payout: TransferOutcome)
    requires
        w.claim_result(user, TransferOutcome::Completed) is Ok,
        forall|j: int|
            0 <= j < w.bets.len() && j != w.claimed_bet(user) ==> !payable(
                #[trigger] w.bets[j],
                user,
                w.weather_result,
            ),
    ensures
        w.after_claim(user).claim_result(user, payout) == Err::<(), ErrorCode>(ErrorCode::YouLost),
{
    let paid = w.claimed_bet(user);
    lemma_first_payable_is(w.bets, user, w.weather_result, paid);
    let then = w.after_claim(user);
    assert forall|j: int| 0 <= j < then.bets.len() implies !payable(
        #[trigger] then.bets[j],
        user,
        then.weather_result,
    ) by {
        if j != paid {
            assert(then.bets[j] == w.bets[j]);
        }
    }
    lemma_first_payable_none(then.bets, user, then.weather_result);
}

/// A running round takes a bet in its last slot and refuses it with
/// `BettingClosed` in the slot after.
pub proof fn lemma_window_gating(
    w: WindowView,
    prediction: i8,
    amount: u64,
    deposit: TransferOutcome,
)
    requires
        w.wf(),
        !w.needs_opening(),
        w.policy.payout.spec_accepts(prediction),
    ensures
        w.bets.len() < MAX_BETS && w.pool + amount <= u64::MAX ==> w.bet_result(
            prediction,
            amount,
            w.end_slot,
            TransferOutcome::Completed,
        ) is Ok,
        w.bet_refusal(prediction, amount, w.end_slot) != Some(ErrorCode::BettingClosed),
        w.end_slot < u64::MAX ==> w.bet_result(
            prediction,
            amount,
            (w.end_slot + 1) as u64,
            deposit,
        ) == Err::<(), ErrorCode>(ErrorCode::BettingClosed),
{
    if w.policy.payout == PayoutRule::PariMutuel {
        lemma_binary_pools_make_total(w.bets);
    }
}

/// A round is not resolved before its last slot, and not without bets.
pub proof fn lemma_resolution_gating(
    w: WindowView,
    result: i8,
    now: u64,
    payouts: TransferOutcome,
)
    ensures
        now < w.end_slot ==> w.resolution_result(result, now, payouts) == Err::<(), ErrorCode>(
            ErrorCode::BettingNotClosed,
        ),
        now >= w.end_slot && !w.resolved && w.bets.len() == 0 ==> w.resolution_result(
            result,
            now,
            payouts,
        ) == Err::<(), ErrorCode>(ErrorCode::NoBets),
{
}

/// Where the books balance, a resolution is never refused for the range of
/// its payouts, and it pays out no more than the pool.
pub proof fn lemma_resolution_pays_within_pool(w: WindowView, result: i8, now: u64)
    requires
        w.wf(),
    ensures
        w.resolution_refusal(result, now) != Some(ErrorCode::ArithmeticOverflow),
        total_moved(w.resolution_payouts(result)) <= w.pool,
{
    if w.pays_at_resolution(result) {
        assert(result == 0 || result == 1);
        lemma_payouts_within_pool(w.bets, result, w.pool, w.pool_for_outcome(result));
    } else {
        assert(w.resolution_payouts(result) =~= Seq::<Transfer>::empty());
    }
}

/// Nothing is staked on an outcome that no bet predicts.
pub proof fn lemma_nothing_staked_on_unpredicted(bets: Seq<Bet>, outcome: i8)
    requires
        forall|i: int| 0 <= i < bets.len() ==> (#[trigger] bets[i]).prediction != outcome,
    ensures
        staked_on(bets, outcome) == 0,
    decreases bets.len(),
{
    if bets.len() > 0 {
        let rest = bets.drop_last();
        assert forall|i: int| 0 <= i < rest.len() implies (#[trigger] rest[i]).prediction
            != outcome by {
            assert(rest[i] == bets[i]);
        }
        lemma_nothing_staked_on_unpredicted(rest, outcome);
        assert(bets[bets.len() - 1].prediction != outcome);
    }
}

/// Where no bet predicts the outcome, a closed round with bets is resolved
/// without any payout, whatever the rule.
pub proof fn lemma_no_winner_no_payout(
    w: WindowView,
    result: i8,
    now: u64,
    payouts: TransferOutcome,
)
    requires
        w.wf(),
        now >= w.end_slot,
        !w.resolved,
        w.bets.len() > 0,
        forall|i: int| 0 <= i < w.bets.len() ==> (#[trigger] w.bets[i]).prediction != result,
    ensures
        w.resolution_payouts(result) == Seq::<Transfer>::empty(),
        w.resolution_result(result, now, payouts) is Ok,
        w.after_resolution(result).resolved,
        w.after_resolution(result).weather_result == result,
        w.after_resolution(result).bets == w.bets,
{
    lemma_nothing_staked_on_unpredicted(w.bets, result);
    assert(w.pool_for_outcome(result) == 0);
    assert(w.after_resolution(result).bets =~= w.bets);
}

/// After a reset, the next bet starts a round in its own slot and is the only
/// bet of that round.
pub proof fn lemma_reset_then_reopen(
    w: WindowView,
    user: UserKey,
    prediction: i8,
    amount: u64,
    now: u64,
)
    requires
        w.reset_result() is Ok,
        w.policy.payout.spec_accepts(prediction),
        w.cleared().can_open_at(now),
    ensures
        ({
            let bet = Operation::PlaceBet {
                user,
                prediction,
                amount,
                now,
                deposit: TransferOutcome::Completed,
            };
            let then = w.after(Operation::ResetBet).after(bet);
            &&& w.after(Operation::ResetBet).result_of(bet) is Ok
            &&& then.start_slot == now
            &&& then.end_slot == now + w.policy.round.spec_slots()
            &&& then.bets == seq![Bet { user, amount, prediction, claimed: false }]
            &&& then.pool == amount
            &&& !then.resolved
        }),
{
    let cleared = w.cleared();
    assert(cleared.open_or_continue(now).bets.len() == 0);
    assert(cleared.after_bet(user, prediction, amount, now).bets =~= seq![
        Bet { user, amount, prediction, claimed: false },
    ]);
}

/// A bet that would take the pool beyond `u64` is refused with
/// `ArithmeticOverflow` in a round that would otherwise take it, and the window
/// with all earlier bets stays as it was.
pub proof fn lemma_overflowing_bet_is_refused(
    w: WindowView,
    user: UserKey,
    prediction: i8,
    amount: u64,
    now: u64,
    deposit: TransferOutcome,
)
    requires
        !w.needs_opening(),
        w.policy.payout.spec_accepts(prediction),
        now <= w.end_slot,
        w.bets.len() < MAX_BETS,
        w.pool + amount > u64::MAX,
    ensures
        ({
            let bet = Operation::PlaceBet { user, prediction, amount, now, deposit };
            &&& w.result_of(bet) == Err::<(), ErrorCode>(ErrorCode::ArithmeticOverflow)
            &&& w.after(bet) == w
        }),
{
}

} // verus!
