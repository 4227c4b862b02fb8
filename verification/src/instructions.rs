//! The four operations on a betting window: placing a bet, resolving the
//! round, claiming a payout and resetting the record.
//!
//! An operation that depends on a transfer comes in two parts. The first
//! inspects the window and names the transfer; the second takes the outcome of
//! that transfer and changes the window. The second part repeats every test of
//! the first, so it is safe whatever the caller did in between, and a refused
//! operation always leaves the window as it was.

use vstd::prelude::*;
use crate::accounting::{
    lemma_total_after_push,
    lemma_staked_on_after_push,
    lemma_sums_ignore_claims,
};
use crate::error::ErrorCode;
use crate::ledger::{Transfer, TransferOutcome};
use crate::lifecycle::open_or_continue;
use crate::payout::{shares_fit, winner_payouts, payouts_for_winners, doubled, fixed_odds_payout};
use crate::state::{Bet, BettingWindow, PayoutRule, UserKey, WindowView, MAX_BETS};

verus! {

impl WindowView {
    /// The per-outcome pools after `amount` was staked on `prediction`.
    pub open spec fn credited_pools(self, prediction: i8, amount: u64) -> Seq<u64> {
        match self.policy.payout {
            PayoutRule::FixedOdds => self.outcome_pools,
            PayoutRule::PariMutuel => self.outcome_pools.update(
                prediction as int,
                (self.pool_for_outcome(prediction) + amount) as u64,
            ),
        }
    }

    /// Why a bet is refused before any transfer is attempted, if it is.
    ///
    /// The tests come in this order: the prediction, the start of a new
    /// round where one is due, the last slot, the room in the record, the
    /// range of the pools.
    pub open spec fn bet_refusal(self, prediction: i8, amount: u64, now: u64) -> Option<
        ErrorCode,
    > {
        let round = self.open_or_continue(now);
        if !self.policy.payout.spec_accepts(prediction) {
            Some(ErrorCode::InvalidPrediction)
        } else if self.needs_opening() && !self.can_open_at(now) {
            Some(ErrorCode::ArithmeticOverflow)
        } else if !round.accepts_bets_at(now) {
            Some(ErrorCode::BettingClosed)
        } else if round.bets.len() >= MAX_BETS {
            Some(ErrorCode::WindowFull)
        } else if round.pool + amount > u64::MAX {
            Some(ErrorCode::ArithmeticOverflow)
        } else if self.policy.payout == PayoutRule::PariMutuel && round.pool_for_outcome(
            prediction,
        ) + amount > u64::MAX {
            Some(ErrorCode::ArithmeticOverflow)
        } else {
            None
        }
    }

    /// How placing a bet ends, given what became of the deposit.
    pub open spec fn bet_result(
        self,
        prediction: i8,
        amount: u64,
        now: u64,
        deposit: TransferOutcome,
    ) -> Result<(), ErrorCode> {
        match self.bet_refusal(prediction, amount, now) {
            Some(e) => Err(e),
            None => match deposit {
                TransferOutcome::Failed => Err(ErrorCode::TransferFailed),
                TransferOutcome::Completed => Ok(()),
            },
        }
    }

    /// The window after an accepted bet: the bet is the last of the round
    /// that slot `now` belongs to, and the pools have grown by its amount.
    pub open spec fn after_bet(
        self,
        user: UserKey,
        prediction: i8,
        amount: u64,
        now: u64,
    ) -> WindowView {
        let round = self.open_or_continue(now);
        WindowView {
            bets: round.bets.push(Bet { user, amount, prediction, claimed: false }),
            pool: (round.pool + amount) as u64,
            outcome_pools: round.credited_pools(prediction, amount),
            ..round
        }
    }
}

/// An accepted bet keeps the books balanced.
pub proof fn lemma_bet_keeps_balance(
    w: WindowView,
    user: UserKey,
    prediction: i8,
    amount: u64,
    now: u64,
)
    requires
        w.wf(),
        w.bet_refusal(prediction, amount, now) is None,
    ensures
        w.after_bet(user, prediction, amount, now).wf(),
{
    let round = w.open_or_continue(now);
    let bet = Bet { user, amount, prediction, claimed: false };
    let after = w.after_bet(user, prediction, amount, now);
    if w.needs_opening() {
        assert(round.bets =~= Seq::<Bet>::empty());
    }
    assert(round.wf());
    lemma_total_after_push(round.bets, bet);
    lemma_staked_on_after_push(round.bets, bet, 0);
    lemma_staked_on_after_push(round.bets, bet, 1);
    assert forall|i: int| 0 <= i < after.bets.len() implies w.policy.payout.spec_accepts(
        #[trigger] after.bets[i].prediction,
    ) && !after.bets[i].claimed by {
        if i < round.bets.len() {
            assert(after.bets[i] == round.bets[i]);
        }
    }
}

/// The transfer that a bet depends on: `amount` from the bettor to the
/// treasury. Nothing is changed; the bet is refused here already where the
/// window would not take it.
pub fn bet_deposit(
    window: &BettingWindow,
    user: UserKey,
    prediction: i8,
    amount: u64,
    now: u64,
) -> (r: Result<Transfer, ErrorCode>)
    ensures
        r == (match window@.bet_refusal(prediction, amount, now) {
            Some(e) => Err::<Transfer, ErrorCode>(e),
            None => Ok(Transfer::spec_deposit(user, amount)),
        }),
{
    if !window.policy.payout.accepts(prediction) {
        return Err(ErrorCode::InvalidPrediction);
    }
    let reopens = window.start_slot == 0 || window.resolved;
    let mut end: u64 = window.end_slot;
    let mut count: usize = window.bets.len();
    let mut pool: u64 = window.pool;
    let mut side: u64 = 0;
    if window.policy.payout == PayoutRule::PariMutuel {
        side = window.outcome_pools[prediction as usize];
    }
    if reopens {
        match now.checked_add(window.policy.round.slots()) {
            None => {
                return Err(ErrorCode::ArithmeticOverflow);
            },
            Some(last) => {
                end = last;
            },
        }
        count = 0;
        pool = 0;
        side = 0;
    }
    if now > end {
        return Err(ErrorCode::BettingClosed);
    }
    if count >= MAX_BETS {
        return Err(ErrorCode::WindowFull);
    }
    if pool.checked_add(amount).is_none() {
        return Err(ErrorCode::ArithmeticOverflow);
    }
    if side.checked_add(amount).is_none() {
        return Err(ErrorCode::ArithmeticOverflow);
    }
    Ok(Transfer::deposit(user, amount))
}

/// Places a bet of `amount` on `prediction` for `user` in slot `now`, given
/// what became of the deposit that `bet_deposit` named.
///
/// The bet opens a new round where the record is unused or its round is
/// resolved. It is refused where `bet_deposit` refuses it, and with
/// `TransferFailed` where the deposit was not made; the window then stays as it
/// was. Otherwise the bet is recorded and the pools grow by `amount`.
pub fn place_bet(
    window: &mut BettingWindow,
    user: UserKey,
    prediction: i8,
    amount: u64,
    now: u64,
    deposit: TransferOutcome,
) -> (r: Result<(), ErrorCode>)
    ensures
        r == old(window)@.bet_result(prediction, amount, now, deposit),
        r is Ok ==> final(window)@ == old(window)@.after_bet(user, prediction, amount, now),
        r is Err ==> *final(window) == *old(window),
        old(window)@.wf() ==> final(window)@.wf(),
{
    match bet_deposit(window, user, prediction, amount, now) {
        Err(e) => Err(e),
        Ok(_) => match deposit {
            TransferOutcome::Failed => Err(ErrorCode::TransferFailed),
            TransferOutcome::Completed => {
                proof {
                    if old(window)@.wf() {
                        lemma_bet_keeps_balance(old(window)@, user, prediction, amount, now);
                    }
                }
                let opened = open_or_continue(window, now);
                assert(opened is Ok);
                window.bets.push(Bet { user, amount, prediction, claimed: false });
                window.pool = window.pool + amount;
                if window.policy.payout == PayoutRule::PariMutuel {
                    let k: usize = prediction as usize;
                    window.outcome_pools[k] = window.outcome_pools[k] + amount;
                }
                assert(window@.outcome_pools =~= old(window)@.open_or_continue(
                    now,
                ).credited_pools(prediction, amount));
                Ok(())
            },
        },
    }
}

/// The bets as they stand once every bet on `outcome` has been paid.
pub open spec fn settled(bets: Seq<Bet>, outcome: i8) -> Seq<Bet> {
    Seq::new(
        bets.len(),
        |i: int|
            if bets[i].prediction == outcome {
                bets[i].paid()
            } else {
                bets[i]
            },
    )
}

impl WindowView {
    /// Whether resolving with `outcome` pays anyone: only under the
    /// pari-mutuel rule, and only where something was staked on the outcome.
    pub open spec fn pays_at_resolution(self, outcome: i8) -> bool {
        self.policy.payout == PayoutRule::PariMutuel && self.pool_for_outcome(outcome) > 0
    }

    /// The payouts that resolving with `outcome` depends on: under the
    /// pari-mutuel rule one for each bet on the outcome, in the order of the
    /// bets; none at fixed odds, and none where nothing was staked on the
    /// outcome.
    pub open spec fn resolution_payouts(self, outcome: i8) -> Seq<Transfer> {
        if self.pays_at_resolution(outcome) {
            winner_payouts(self.bets, outcome, self.pool, self.pool_for_outcome(outcome))
        } else {
            Seq::empty()
        }
    }

    /// Why a resolution is refused before any transfer is attempted, if it
    /// is.
    ///
    /// The tests come in this order: the last slot, an earlier resolution,
    /// the presence of bets, the range of the payouts.
    pub open spec fn resolution_refusal(self, outcome: i8, now: u64) -> Option<ErrorCode> {
        if !self.closed_at(now) {
            Some(ErrorCode::BettingNotClosed)
        } else if self.resolved {
            Some(ErrorCode::AlreadyResolved)
        } else if self.bets.len() == 0 {
            Some(ErrorCode::NoBets)
        } else if self.pays_at_resolution(outcome) && !shares_fit(
            self.bets,
            outcome,
            self.pool,
            self.pool_for_outcome(outcome),
        ) {
            Some(ErrorCode::ArithmeticOverflow)
        } else {
            None
        }
    }

    /// How a resolution ends, given what became of its payouts. Where there
    /// is nothing to pay, nothing can fail.
    pub open spec fn resolution_result(
        self,
        outcome: i8,
        now: u64,
        payouts: TransferOutcome,
    ) -> Result<(), ErrorCode> {
        match self.resolution_refusal(outcome, now) {
            Some(e) => Err(e),
            None => if self.resolution_payouts(outcome).len() > 0 && payouts
                == TransferOutcome::Failed {
                Err(ErrorCode::TransferFailed)
            } else {
                Ok(())
            },
        }
    }

    /// The window after its resolution: the outcome is recorded, and under
    /// the pari-mutuel rule every bet on it counts as paid.
    pub open spec fn after_resolution(self, outcome: i8) -> WindowView {
        WindowView {
            resolved: true,
            weather_result: outcome,
            bets: match self.policy.payout {
                PayoutRule::FixedOdds => self.bets,
                PayoutRule::PariMutuel => settled(self.bets, outcome),
            },
            ..self
        }
    }
}

/// A resolution keeps the books balanced.
pub proof fn lemma_resolution_keeps_balance(w: WindowView, outcome: i8)
    requires
        w.wf(),
    ensures
        w.after_resolution(outcome).wf(),
{
    let after = w.after_resolution(outcome);
    lemma_sums_ignore_claims(w.bets, after.bets, 0);
    lemma_sums_ignore_claims(w.bets, after.bets, 1);
    assert forall|i: int| 0 <= i < after.bets.len() implies w.policy.payout.spec_accepts(
        #[trigger] after.bets[i].prediction,
    ) by {
        assert(after.bets[i].prediction == w.bets[i].prediction);
    }
}

/// The payouts that resolving the window with `result` in slot `now` depends
/// on, in the order in which the bets were placed. Nothing is changed; the
/// resolution is refused here already where the window would not take it.
pub fn resolution_payouts(window: &BettingWindow, result: i8, now: u64) -> (r: Result<
    Vec<Transfer>,
    ErrorCode,
>)
    ensures
        match r {
            Ok(transfers) => window@.resolution_refusal(result, now) is None && transfers@
                == window@.resolution_payouts(result),
            Err(e) => window@.resolution_refusal(result, now) == Some(e),
        },
{
    if now < window.end_slot {
        return Err(ErrorCode::BettingNotClosed);
    }
    if window.resolved {
        return Err(ErrorCode::AlreadyResolved);
    }
    if window.bets.len() == 0 {
        return Err(ErrorCode::NoBets);
    }
    let winning_pool = window.pool_for_outcome(result);
    if window.policy.payout == PayoutRule::PariMutuel && winning_pool > 0 {
        match payouts_for_winners(&window.bets, result, window.pool, winning_pool) {
            None => Err(ErrorCode::ArithmeticOverflow),
            Some(transfers) => Ok(transfers),
        }
    } else {
        Ok(Vec::new())
    }
}

/// Marks every bet on `outcome` as paid.
fn settle(bets: &mut Vec<Bet>, outcome: i8)
    ensures
        final(bets)@ == settled(old(bets)@, outcome),
{
    let mut i: usize = 0;
    while i < bets.len()
        invariant
            i <= bets.len(),
            bets.len() == old(bets).len(),
            forall|j: int| 0 <= j < i ==> #[trigger] bets@[j] == settled(old(bets)@, outcome)[j],
            forall|j: int| i <= j < bets.len() ==> #[trigger] bets@[j] == old(bets)@[j],
        decreases bets.len() - i,
    {
        let bet = bets[i];
        if bet.prediction == outcome {
            bets[i] = Bet { claimed: true, ..bet };
        }
        i += 1;
    }
    assert(bets@ =~= settled(old(bets)@, outcome));
}

/// Resolves the window with `result` in slot `now`, given what became of the
/// payouts that `resolution_payouts` named.
///
/// The resolution is refused where `resolution_payouts` refuses it, and with
/// `TransferFailed` where there were payouts and they were not made; the window
/// then stays as it was, unresolved. Otherwise the outcome is recorded, and
/// under the pari-mutuel rule every bet on it counts as paid.
pub fn resolve_bet(window: &mut BettingWindow, result: i8, now: u64, payouts: TransferOutcome) -> (r:
    Result<(), ErrorCode>)
    ensures
        r == old(window)@.resolution_result(result, now, payouts),
        r is Ok ==> final(window)@ == old(window)@.after_resolution(result),
        r is Err ==> *final(window) == *old(window),
        old(window)@.wf() ==> final(window)@.wf(),
{
    match resolution_payouts(window, result, now) {
        Err(e) => Err(e),
        Ok(transfers) => {
            if transfers.len() > 0 && payouts == TransferOutcome::Failed {
                return Err(ErrorCode::TransferFailed);
            }
            proof {
                if old(window)@.wf() {
                    lemma_resolution_keeps_balance(old(window)@, result);
                }
            }
            window.resolved = true;
            window.weather_result = result;
            if window.policy.payout == PayoutRule::PariMutuel {
                settle(&mut window.bets, result);
            }
            Ok(())
        },
    }
}

/// Whether `bet` is one that `user` can be paid for, once `outcome` is
/// recorded: a bet of that user on that outcome, not paid yet.
pub open spec fn payable(bet: Bet, user: UserKey, outcome: i8) -> bool {
    bet.user == user && bet.prediction == outcome && !bet.claimed
}

/// Whether the bet at index `i` is the first that `user` can be paid for.
pub open spec fn is_first_payable(bets: Seq<Bet>, user: UserKey, outcome: i8, i: int) -> bool {
    &&& 0 <= i < bets.len()
    &&& payable(bets[i], user, outcome)
    &&& forall|j: int| 0 <= j < i ==> !payable(#[trigger] bets[j], user, outcome)
}

/// The index of the first bet that `user` can be paid for, if there is one.
pub open spec fn first_payable(bets: Seq<Bet>, user: UserKey, outcome: i8) -> Option<int> {
    if exists|i: int| is_first_payable(bets, user, outcome, i) {
        Some(choose|i: int| is_first_payable(bets, user, outcome, i))
    } else {
        None
    }
}

/// There is one first payable bet at most: `first_payable` is the index `i`
/// exactly when the bet at `i` is the first payable one.
pub proof fn lemma_first_payable_is(bets: Seq<Bet>, user: UserKey, outcome: i8, i: int)
    ensures
        first_payable(bets, user, outcome) == Some(i) <==> is_first_payable(
            bets,
            user,
            outcome,
            i,
        ),
{
    if is_first_payable(bets, user, outcome, i) {
        let k = choose|k: int| is_first_payable(bets, user, outcome, k);
        assert(is_first_payable(bets, user, outcome, k));
        if k < i {
            assert(!payable(bets[k], user, outcome));
        }
        if i < k {
            assert(!payable(bets[i], user, outcome));
        }
    }
}

/// There is no first payable bet exactly when no bet is payable.
pub proof fn lemma_first_payable_none(bets: Seq<Bet>, user: UserKey, outcome: i8)
    ensures
        first_payable(bets, user, outcome) is None <==> forall|j: int|
            0 <= j < bets.len() ==> !payable(#[trigger] bets[j], user, outcome),
{
    if exists|j: int| 0 <= j < bets.len() && payable(#[trigger] bets[j], user, outcome) {
        let j = choose|j: int| 0 <= j < bets.len() && payable(#[trigger] bets[j], user, outcome);
        lemma_some_first_payable(bets, user, outcome, j);
    }
}

/// Below a payable bet, or at it, stands the first payable one.
proof fn lemma_some_first_payable(bets: Seq<Bet>, user: UserKey, outcome: i8, j: int)
    requires
        0 <= j < bets.len(),
        payable(bets[j], user, outcome),
    ensures
        exists|i: int| is_first_payable(bets, user, outcome, i),
    decreases j,
{
    if exists|k: int| 0 <= k < j && payable(#[trigger] bets[k], user, outcome) {
        let k = choose|k: int| 0 <= k < j && payable(#[trigger] bets[k], user, outcome);
        lemma_some_first_payable(bets, user, outcome, k);
    } else {
        assert(is_first_payable(bets, user, outcome, j));
    }
}

impl WindowView {
    /// Why a claim is refused before any transfer is attempted, if it is.
    ///
    /// The tests come in this order: the resolution, the pool, a bet of the
    /// claimant on the outcome that is not paid yet, the range of the payout.
    pub open spec fn claim_refusal(self, user: UserKey) -> Option<ErrorCode> {
        if !self.resolved {
            Some(ErrorCode::NotResolved)
        } else if self.pool == 0 {
            Some(ErrorCode::NoBet)
        } else {
            match first_payable(self.bets, user, self.weather_result) {
                None => Some(ErrorCode::YouLost),
                Some(i) => if doubled(self.bets[i].amount) > u64::MAX {
                    Some(ErrorCode::ArithmeticOverflow)
                } else {
                    None
                },
            }
        }
    }

    /// The index of the bet that a claim of `user` pays.
    pub open spec fn claimed_bet(self, user: UserKey) -> int {
        first_payable(self.bets, user, self.weather_result).unwrap()
    }

    /// The payout that a claim of `user` depends on: twice the first bet of
    /// that user on the recorded outcome that is not paid yet.
    pub open spec fn claim_transfer(self, user: UserKey) -> Transfer {
        Transfer::spec_payout(user, doubled(self.bets[self.claimed_bet(user)].amount) as u64)
    }

    /// How a claim ends, given what became of the payout.
    pub open spec fn claim_result(self, user: UserKey, payout: TransferOutcome) -> Result<
        (),
        ErrorCode,
    > {
        match self.claim_refusal(user) {
            Some(e) => Err(e),
            None => match payout {
                TransferOutcome::Failed => Err(ErrorCode::TransferFailed),
                TransferOutcome::Completed => Ok(()),
            },
        }
    }

    /// The window after a claim of `user`: the bet that was paid is marked.
    pub open spec fn after_claim(self, user: UserKey) -> WindowView {
        let i = self.claimed_bet(user);
        WindowView { bets: self.bets.update(i, self.bets[i].paid()), ..self }
    }
}

/// A claim keeps the books balanced.
pub proof fn lemma_claim_keeps_balance(w: WindowView, user: UserKey)
    requires
        w.wf(),
        w.claim_refusal(user) is None,
    ensures
        w.after_claim(user).wf(),
{
    let after = w.after_claim(user);
    let i = w.claimed_bet(user);
    lemma_first_payable_is(w.bets, user, w.weather_result, i);
    lemma_sums_ignore_claims(w.bets, after.bets, 0);
    lemma_sums_ignore_claims(w.bets, after.bets, 1);
    assert forall|j: int| 0 <= j < after.bets.len() implies w.policy.payout.spec_accepts(
        #[trigger] after.bets[j].prediction,
    ) by {
        assert(after.bets[j].prediction == w.bets[j].prediction);
    }
}

/// The index of the first bet in `bets` that `user` can be paid for.
fn find_payable(bets: &Vec<Bet>, user: &UserKey, outcome: i8) -> (r: Option<usize>)
    ensures
        r == (match first_payable(bets@, *user, outcome) {
            Some(i) => Some(i as usize),
            None => None,
        }),
        r matches Some(i) ==> first_payable(bets@, *user, outcome) == Some(i as int),
{
    let mut i: usize = 0;
    while i < bets.len()
        invariant
            i <= bets.len(),
            forall|j: int| 0 <= j < i ==> !payable(#[trigger] bets@[j], *user, outcome),
        decreases bets.len() - i,
    {
        let bet = bets[i];
        let same = bet.user.same_as(user);
        if same && bet.prediction == outcome && !bet.claimed {
            proof {
                lemma_first_payable_is(bets@, *user, outcome, i as int);
            }
            return Some(i);
        }
        i += 1;
    }
    proof {
        lemma_first_payable_none(bets@, *user, outcome);
    }
    None
}

/// The payout that a claim of `user` depends on. Nothing is changed; the
/// claim is refused here already where the window would not take it.
pub fn claim_transfer(window: &BettingWindow, user: UserKey) -> (r: Result<Transfer, ErrorCode>)
    ensures
        r == (match window@.claim_refusal(user) {
            Some(e) => Err::<Transfer, ErrorCode>(e),
            None => Ok(window@.claim_transfer(user)),
        }),
{
    if !window.resolved {
        return Err(ErrorCode::NotResolved);
    }
    if window.pool == 0 {
        return Err(ErrorCode::NoBet);
    }
    match find_payable(&window.bets, &user, window.weather_result) {
        None => Err(ErrorCode::YouLost),
        Some(i) => match fixed_odds_payout(window.bets[i].amount) {
            None => Err(ErrorCode::ArithmeticOverflow),
            Some(amount) => Ok(Transfer::payout(user, amount)),
        },
    }
}

/// Pays `user` for the first bet on the recorded outcome that is not paid
/// yet, given what became of the payout that `claim_transfer` named.
///
/// The claim is refused where `claim_transfer` refuses it, and with
/// `TransferFailed` where the payout was not made; the window then stays as it
/// was. Otherwise the bet is marked as paid, so that no later claim is paid
/// for it.
pub fn claim_payout(window: &mut BettingWindow, user: UserKey, payout: TransferOutcome) -> (r:
    Result<(), ErrorCode>)
    ensures
        r == old(window)@.claim_result(user, payout),
        r is Ok ==> final(window)@ == old(window)@.after_claim(user),
        r is Err ==> *final(window) == *old(window),
        old(window)@.wf() ==> final(window)@.wf(),
{
    match claim_transfer(window, user) {
        Err(e) => Err(e),
        Ok(_) => match payout {
            TransferOutcome::Failed => Err(ErrorCode::TransferFailed),
            TransferOutcome::Completed => {
                proof {
                    if old(window)@.wf() {
                        lemma_claim_keeps_balance(old(window)@, user);
                    }
                }
                match find_payable(&window.bets, &user, window.weather_result) {
                    None => {},
                    Some(i) => {
                        let bet = window.bets[i];
                        window.bets[i] = Bet { claimed: true, ..bet };
                    },
                }
                Ok(())
            },
        },
    }
}

impl WindowView {
    /// How a reset ends: only a resolved window is reset.
    pub open spec fn reset_result(self) -> Result<(), ErrorCode> {
        if self.resolved {
            Ok(())
        } else {
            Err(ErrorCode::NotResolved)
        }
    }
}

/// Clears a resolved window for reuse: no bets, empty pools, no outcome, no
/// slots. A window that is not resolved is refused with `NotResolved` and
/// stays as it was, so that no reset discards bets that are still open.
pub fn reset_bet(window: &mut BettingWindow) -> (r: Result<(), ErrorCode>)
    ensures
        r == old(window)@.reset_result(),
        r is Ok ==> final(window)@ == old(window)@.cleared(),
        r is Err ==> *final(window) == *old(window),
        old(window)@.wf() ==> final(window)@.wf(),
{
    if !window.resolved {
        return Err(ErrorCode::NotResolved);
    }
    window.start_slot = 0;
    window.end_slot = 0;
    window.bets = Vec::new();
    window.resolved = false;
    window.weather_result = 0;
    window.pool = 0;
    window.outcome_pools = [0, 0];
    assert(window.outcome_pools@ =~= seq![0u64, 0u64]);
    assert(window.bets@ =~= Seq::<Bet>::empty());
    Ok(())
}

} // verus!
