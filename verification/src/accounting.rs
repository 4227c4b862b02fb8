//! How the sums over the bets of a window behave when a bet is added or paid.

use vstd::prelude::*;
use crate::state::{Bet, PayoutRule, total_staked, staked_on};

verus! {

/// A new bet raises the total by its amount.
pub proof fn lemma_total_after_push(bets: Seq<Bet>, bet: Bet)
    ensures
        total_staked(bets.push(bet)) == total_staked(bets) + bet.amount,
{
    assert(bets.push(bet).drop_last() =~= bets);
}

/// A new bet raises the sum staked on its own prediction by its amount, and
/// no other.
pub proof fn lemma_staked_on_after_push(bets: Seq<Bet>, bet: Bet, outcome: i8)
    ensures
        staked_on(bets.push(bet), outcome) == staked_on(bets, outcome) + (if bet.prediction
            == outcome {
            bet.amount as nat
        } else {
            0
        }),
{
    assert(bets.push(bet).drop_last() =~= bets);
}

/// A bet on an outcome is part of what is staked on that outcome.
pub proof fn lemma_bet_within_staked_on(bets: Seq<Bet>, i: int)
    requires
        0 <= i < bets.len(),
    ensures
        bets[i].amount <= staked_on(bets, bets[i].prediction),
    decreases bets.len(),
{
    if i < bets.len() - 1 {
        lemma_bet_within_staked_on(bets.drop_last(), i);
    }
}

/// Where every bet predicts 0 or 1, the sums staked on 0 and on 1 make up the
/// total.
pub proof fn lemma_binary_pools_make_total(bets: Seq<Bet>)
    requires
        forall|i: int|
            0 <= i < bets.len() ==> PayoutRule::PariMutuel.spec_accepts(
                #[trigger] bets[i].prediction,
            ),
    ensures
        staked_on(bets, 0) + staked_on(bets, 1) == total_staked(bets),
    decreases bets.len(),
{
    if bets.len() > 0 {
        let rest = bets.drop_last();
        assert forall|i: int| 0 <= i < rest.len() implies PayoutRule::PariMutuel.spec_accepts(
            #[trigger] rest[i].prediction,
        ) by {
            assert(rest[i] == bets[i]);
        }
        lemma_binary_pools_make_total(rest);
        assert(PayoutRule::PariMutuel.spec_accepts(bets[bets.len() - 1].prediction));
    }
}

/// Two lists of bets that agree in amounts and predictions have the same sums.
pub proof fn lemma_sums_ignore_claims(a: Seq<Bet>, b: Seq<Bet>, outcome: i8)
    requires
        a.len() == b.len(),
        forall|i: int|
            0 <= i < a.len() ==> (#[trigger] a[i]).amount == b[i].amount && a[i].prediction
                == b[i].prediction,
    ensures
        total_staked(a) == total_staked(b),
        staked_on(a, outcome) == staked_on(b, outcome),
    decreases a.len(),
{
    if a.len() > 0 {
        let ra = a.drop_last();
        let rb = b.drop_last();
        assert forall|i: int| 0 <= i < ra.len() implies (#[trigger] ra[i]).amount == rb[i].amount
            && ra[i].prediction == rb[i].prediction by {
            assert(ra[i] == a[i]);
            assert(rb[i] == b[i]);
        }
        lemma_sums_ignore_claims(ra, rb, outcome);
        assert(a[a.len() - 1].amount == b[a.len() - 1].amount);
    }
}

} // verus!
