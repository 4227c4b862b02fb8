//! What winners are paid: a share of the whole pool in proportion to the bet
//! under the pari-mutuel rule, twice the bet at fixed odds.

use vstd::prelude::*;
use crate::accounting::lemma_bet_within_staked_on;
use crate::ledger::Transfer;
use crate::state::{Bet, staked_on};

verus! {

/// The pari-mutuel share of a winning bet: the whole pool times the bet's part
/// of the winning pool, rounded down. Nothing where nothing was staked on the
/// outcome.
pub open spec fn share(amount: u64, pool: u64, winning_pool: u64) -> nat {
    if winning_pool == 0 {
        0
    } else {
        (amount as nat * pool as nat) / winning_pool as nat
    }
}

/// The payout at fixed odds: twice the bet.
pub open spec fn doubled(amount: u64) -> nat {
    2 * amount as nat
}

/// Whether every bet on `outcome` has a share that is an amount of money.
pub open spec fn shares_fit(bets: Seq<Bet>, outcome: i8, pool: u64, winning_pool: u64) -> bool {
    forall|i: int|
        0 <= i < bets.len() && (#[trigger] bets[i]).prediction == outcome ==> share(
            bets[i].amount,
            pool,
            winning_pool,
        ) <= u64::MAX
}

/// One payout for each bet on `outcome`, in the order of the bets.
pub open spec fn winner_payouts(
    bets: Seq<Bet>,
    outcome: i8,
    pool: u64,
    winning_pool: u64,
) -> Seq<Transfer>
    decreases bets.len(),
{
    if bets.len() == 0 {
        Seq::empty()
    } else {
        let earlier = winner_payouts(bets.drop_last(), outcome, pool, winning_pool);
        let bet = bets.last();
        if bet.prediction == outcome {
            earlier.push(
                Transfer::spec_payout(bet.user, share(bet.amount, pool, winning_pool) as u64),
            )
        } else {
            earlier
        }
    }
}

/// The sum of the amounts of `transfers`.
pub open spec fn total_moved(transfers: Seq<Transfer>) -> nat
    decreases transfers.len(),
{
    if transfers.len() == 0 {
        0
    } else {
        total_moved(transfers.drop_last()) + transfers.last().amount as nat
    }
}

/// A bet that is part of the winning pool is paid no more than the whole pool.
pub proof fn lemma_share_within_pool(amount: u64, pool: u64, winning_pool: u64)
    requires
        amount <= winning_pool,
    ensures
        share(amount, pool, winning_pool) <= pool,
{
    if winning_pool > 0 {
        let a = amount as int;
        let p = pool as int;
        let w = winning_pool as int;
        assert((a * p) / w <= p) by (nonlinear_arith)
            requires
                0 <= a <= w,
                0 < w,
                0 <= p,
        ;
    }
}

/// The winning pool times what the winners are paid is at most the whole pool
/// times what they staked.
proof fn lemma_payouts_in_proportion(bets: Seq<Bet>, outcome: i8, pool: u64, winning_pool: u64)
    requires
        winning_pool > 0,
        shares_fit(bets, outcome, pool, winning_pool),
    ensures
        winning_pool * total_moved(winner_payouts(bets, outcome, pool, winning_pool)) <= pool
            * staked_on(bets, outcome),
    decreases bets.len(),
{
    let w = winning_pool as int;
    let p = pool as int;
    if bets.len() == 0 {
        assert(w * 0 <= p * 0) by (nonlinear_arith);
    } else {
        let rest = bets.drop_last();
        let bet = bets.last();
        assert forall|i: int| 0 <= i < rest.len() && (#[trigger] rest[i]).prediction
            == outcome implies share(rest[i].amount, pool, winning_pool) <= u64::MAX by {
            assert(rest[i] == bets[i]);
        }
        lemma_payouts_in_proportion(rest, outcome, pool, winning_pool);
        let earlier = winner_payouts(rest, outcome, pool, winning_pool);
        let m = total_moved(earlier) as int;
        let so = staked_on(rest, outcome) as int;
        assert(w * m <= p * so);
        if bet.prediction == outcome {
            let s = share(bet.amount, pool, winning_pool);
            assert(bets[bets.len() - 1] == bet);
            assert(s <= u64::MAX);
            let t = Transfer::spec_payout(bet.user, s as u64);
            assert(earlier.push(t).drop_last() =~= earlier);
            assert(total_moved(earlier.push(t)) == m + s);
            let a = bet.amount as int;
            assert(s == (a * p) / w);
            assert(w * ((a * p) / w) <= a * p) by (nonlinear_arith)
                requires
                    0 < w,
                    0 <= a,
                    0 <= p,
            ;
            assert(w * (m + (a * p) / w) <= p * (so + a)) by (nonlinear_arith)
                requires
                    w * m <= p * so,
                    w * ((a * p) / w) <= a * p,
            ;
            assert(staked_on(bets, outcome) == so + a);
        }
    }
}

/// Under the pari-mutuel rule the treasury pays out no more than the pool:
/// where the winning pool is what was staked on the outcome and the whole pool
/// holds it, every share is an amount of money and the shares together do
/// not exceed the pool. What rounding leaves stays in the treasury.
pub proof fn lemma_payouts_within_pool(bets: Seq<Bet>, outcome: i8, pool: u64, winning_pool: u64)
    requires
        winning_pool == staked_on(bets, outcome),
        winning_pool > 0,
    ensures
        shares_fit(bets, outcome, pool, winning_pool),
        total_moved(winner_payouts(bets, outcome, pool, winning_pool)) <= pool,
{
    assert forall|i: int| 0 <= i < bets.len() && (#[trigger] bets[i]).prediction
        == outcome implies share(bets[i].amount, pool, winning_pool) <= u64::MAX by {
        lemma_bet_within_staked_on(bets, i);
        lemma_share_within_pool(bets[i].amount, pool, winning_pool);
    }
    lemma_payouts_in_proportion(bets, outcome, pool, winning_pool);
    let w = winning_pool as int;
    let p = pool as int;
    let m = total_moved(winner_payouts(bets, outcome, pool, winning_pool)) as int;
    assert(m <= p) by (nonlinear_arith)
        requires
            w * m <= p * w,
            0 < w,
    ;
}

/// The pari-mutuel share of a bet of `amount`, or `None` where it is more
/// than `u64` holds. The product is formed in 128 bits, so it is exact.
pub fn pari_mutuel_share(amount: u64, pool: u64, winning_pool: u64) -> (r: Option<u64>)
    ensures
        r == (if share(amount, pool, winning_pool) <= u64::MAX {
            Some(share(amount, pool, winning_pool) as u64)
        } else {
            None
        }),
{
    if winning_pool == 0 {
        return Some(0);
    }
    assert(amount as u128 * pool as u128 <= u128::MAX) by (nonlinear_arith)
        requires
            amount <= 0xffff_ffff_ffff_ffff,
            pool <= 0xffff_ffff_ffff_ffff,
    ;
    let product: u128 = (amount as u128) * (pool as u128);
    let quotient: u128 = product / (winning_pool as u128);
    assert(quotient == share(amount, pool, winning_pool));
    if quotient > u64::MAX as u128 {
        None
    } else {
        Some(quotient as u64)
    }
}

/// The payout at fixed odds for a bet of `amount`, or `None` where it is more
/// than `u64` holds.
pub fn fixed_odds_payout(amount: u64) -> (r: Option<u64>)
    ensures
        r == (if doubled(amount) <= u64::MAX {
            Some(doubled(amount) as u64)
        } else {
            None
        }),
{
    amount.checked_mul(2)
}

/// The payouts for every bet on `outcome`, in the order of the bets, or
/// `None` where one of them is more than `u64` holds.
pub fn payouts_for_winners(bets: &Vec<Bet>, outcome: i8, pool: u64, winning_pool: u64) -> (r:
    Option<Vec<Transfer>>)
    ensures
        r is Some <==> shares_fit(bets@, outcome, pool, winning_pool),
        r matches Some(transfers) ==> transfers@ == winner_payouts(
            bets@,
            outcome,
            pool,
            winning_pool,
        ),
{
    let mut transfers: Vec<Transfer> = Vec::new();
    let mut i: usize = 0;
    while i < bets.len()
        invariant
            i <= bets.len(),
            shares_fit(bets@.take(i as int), outcome, pool, winning_pool),
            transfers@ == winner_payouts(bets@.take(i as int), outcome, pool, winning_pool),
        decreases bets.len() - i,
    {
        let bet = bets[i];
        proof {
            assert(bets@.take(i + 1).drop_last() =~= bets@.take(i as int));
            assert(bets@.take(i + 1).last() == bet);
        }
        if bet.prediction == outcome {
            match pari_mutuel_share(bet.amount, pool, winning_pool) {
                None => {
                    assert(bets@[i as int] == bet);
                    return None;
                },
                Some(amount) => {
                    transfers.push(Transfer::payout(bet.user, amount));
                },
            }
        }
        proof {
            let before = bets@.take(i as int);
            let after = bets@.take(i + 1);
            assert forall|j: int| 0 <= j < after.len() && (#[trigger] after[j]).prediction
                == outcome implies share(after[j].amount, pool, winning_pool) <= u64::MAX by {
                if j < i {
                    assert(before[j] == after[j]);
                }
            }
        }
        i += 1;
    }
    assert(bets@.take(i as int) =~= bets@);
    Some(transfers)
}

} // verus!
