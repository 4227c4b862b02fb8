//! The record of one betting round and the values it is made of.

use vstd::prelude::*;

verus! {

/// The largest number of bets that one window holds.
///
/// A stored window takes 54 bytes for its own fields and 42 for each bet, and
/// the record that backs it has 1053 bytes: room for 23 bets.
pub const MAX_BETS: usize = 23;

/// Slots for which a short round accepts bets after it opened.
pub const SHORT_ROUND_SLOTS: u64 = 10;

/// Slots for which a long round accepts bets after it opened.
pub const LONG_ROUND_SLOTS: u64 = 25_000;

/// The identity of a bettor: 32 bytes that the library only compares.
#[derive(Clone, Copy, Debug, PartialEq, Eq)]
pub struct UserKey {
    pub bytes: [u8; 32],
}

impl View for UserKey {
    type V = Seq<u8>;

    open spec fn view(&self) -> Seq<u8> {
        self.bytes@
    }
}

impl UserKey {
    pub fn new(bytes: [u8; 32]) -> (key: UserKey)
        ensures
            key.bytes == bytes,
    {
        UserKey { bytes }
    }

    /// Two keys are the same key exactly when they hold the same bytes.
    pub proof fn lemma_equal_by_bytes(self, other: UserKey)
        ensures
            (self == other) <==> (self@ == other@),
    {
        if self@ == other@ {
            assert(self.bytes =~= other.bytes);
        }
    }

    /// Whether `other` is this key.
    pub fn same_as(&self, other: &UserKey) -> (same: bool)
        ensures
            same == (self@ == other@),
            same == (*self == *other),
    {
        let mut i: usize = 0;
        while i < 32
            invariant
                i <= 32,
                forall|j: int| 0 <= j < i ==> self.bytes@[j] == other.bytes@[j],
            decreases 32 - i,
        {
            if self.bytes[i] != other.bytes[i] {
                return false;
            }
            i += 1;
        }
        proof {
            assert(self@ =~= other@);
            self.lemma_equal_by_bytes(*other);
        }
        true
    }
}

/// How long a round accepts bets.
#[derive(Clone, Copy, Debug, PartialEq, Eq, Structural)]
pub enum RoundLength {
    Short,
    Long,
}

impl RoundLength {
    pub open spec fn spec_slots(self) -> u64 {
        match self {
            RoundLength::Short => SHORT_ROUND_SLOTS,
            RoundLength::Long => LONG_ROUND_SLOTS,
        }
    }

    /// The number of slots between a round's first and last slot.
    #[verifier::when_used_as_spec(spec_slots)]
    pub fn slots(self) -> (n: u64)
        ensures
            n == self.spec_slots(),
            n > 0,
    {
        match self {
            RoundLength::Short => SHORT_ROUND_SLOTS,
            RoundLength::Long => LONG_ROUND_SLOTS,
        }
    }
}

/// How winners are paid, and with it which predictions a window accepts.
#[derive(Clone, Copy, Debug, PartialEq, Eq, Structural)]
pub enum PayoutRule {
    /// Any prediction above zero is accepted, the window keeps one pool, and a
    /// winner claims twice the amount of the bet after resolution.
    FixedOdds,
    /// The prediction is 0 or 1, the window keeps a pool for each of the two,
    /// and resolution pays every winner a share of the whole pool in
    /// proportion to the bet.
    PariMutuel,
}

impl PayoutRule {
    pub open spec fn spec_accepts(self, prediction: i8) -> bool {
        match self {
            PayoutRule::FixedOdds => prediction > 0,
            PayoutRule::PariMutuel => prediction == 0 || prediction == 1,
        }
    }

    /// Whether a bet may carry this prediction.
    #[verifier::when_used_as_spec(spec_accepts)]
    pub fn accepts(self, prediction: i8) -> (ok: bool)
        ensures
            ok == self.spec_accepts(prediction),
    {
        match self {
            PayoutRule::FixedOdds => prediction > 0,
            PayoutRule::PariMutuel => prediction == 0 || prediction == 1,
        }
    }
}

/// What a deployment fixes for all its rounds.
#[derive(Clone, Copy, Debug, PartialEq, Eq, Structural)]
pub struct Policy {
    pub payout: PayoutRule,
    pub round: RoundLength,
}

impl Default for Policy {
    /// Short rounds at fixed odds.
    fn default() -> (policy: Policy)
        ensures
            policy == (Policy { payout: PayoutRule::FixedOdds, round: RoundLength::Short }),
    {
        Policy { payout: PayoutRule::FixedOdds, round: RoundLength::Short }
    }
}

/// One bet. Only `claimed` changes after the bet was placed.
#[derive(Clone, Copy, Debug, PartialEq, Eq)]
pub struct Bet {
    /// Who placed the bet.
    pub user: UserKey,
    /// The amount staked, in the smallest unit of the currency.
    pub amount: u64,
    /// The outcome that the bettor expects.
    pub prediction: i8,
    /// Whether the payout for this bet has been made.
    pub claimed: bool,
}

impl Bet {
    /// The bet as it stands once its payout has been made.
    pub open spec fn paid(self) -> Bet {
        Bet { claimed: true, ..self }
    }
}

/// The record of one betting round.
#[derive(Clone, Debug, PartialEq, Eq)]
pub struct BettingWindow {
    /// The rules of the deployment; no operation changes them.
    pub policy: Policy,
    /// The slot in which the round opened; 0 while the record is unused.
    pub start_slot: u64,
    /// The last slot in which the round accepts bets.
    pub end_slot: u64,
    /// The bets of the round, in the order in which they were placed.
    pub bets: Vec<Bet>,
    /// Whether an outcome has been recorded.
    pub resolved: bool,
    /// The recorded outcome; 0 until the round is resolved.
    pub weather_result: i8,
    /// The sum of all amounts staked in the round.
    pub pool: u64,
    /// Under the pari-mutuel rule, the sums staked on outcome 0 and on
    /// outcome 1; zero under fixed odds.
    pub outcome_pools: [u64; 2],
}

/// A betting window as a mathematical value.
pub struct WindowView {
    pub policy: Policy,
    pub start_slot: u64,
    pub end_slot: u64,
    pub bets: Seq<Bet>,
    pub resolved: bool,
    pub weather_result: i8,
    pub pool: u64,
    pub outcome_pools: Seq<u64>,
}

impl View for BettingWindow {
    type V = WindowView;

    open spec fn view(&self) -> WindowView {
        WindowView {
            policy: self.policy,
            start_slot: self.start_slot,
            end_slot: self.end_slot,
            bets: self.bets@,
            resolved: self.resolved,
            weather_result: self.weather_result,
            pool: self.pool,
            outcome_pools: self.outcome_pools@,
        }
    }
}

/// The sum of the amounts of `bets`.
pub open spec fn total_staked(bets: Seq<Bet>) -> nat
    decreases bets.len(),
{
    if bets.len() == 0 {
        0
    } else {
        total_staked(bets.drop_last()) + bets.last().amount as nat
    }
}

/// The sum of the amounts of those of `bets` that predict `outcome`.
pub open spec fn staked_on(bets: Seq<Bet>, outcome: i8) -> nat
    decreases bets.len(),
{
    if bets.len() == 0 {
        0
    } else if bets.last().prediction == outcome {
        staked_on(bets.drop_last(), outcome) + bets.last().amount as nat
    } else {
        staked_on(bets.drop_last(), outcome)
    }
}

impl WindowView {
    /// The unused record of a deployment with the given rules.
    pub open spec fn unused(policy: Policy) -> WindowView {
        WindowView {
            policy,
            start_slot: 0,
            end_slot: 0,
            bets: Seq::empty(),
            resolved: false,
            weather_result: 0,
            pool: 0,
            outcome_pools: seq![0u64, 0u64],
        }
    }

    /// The running total kept for `outcome`: zero for an outcome that no bet
    /// can predict.
    pub open spec fn pool_for_outcome(self, outcome: i8) -> u64 {
        if 0 <= outcome < 2 && self.outcome_pools.len() == 2 {
            self.outcome_pools[outcome as int]
        } else {
            0
        }
    }

    /// The books balance: the pools are the sums of the bets they stand for,
    /// every bet is one that the rules accept, and the record is within its
    /// bounds.
    pub open spec fn wf(self) -> bool {
        &&& self.bets.len() <= MAX_BETS
        &&& self.outcome_pools.len() == 2
        &&& self.pool == total_staked(self.bets)
        &&& forall|i: int|
            0 <= i < self.bets.len() ==> self.policy.payout.spec_accepts(
                #[trigger] self.bets[i].prediction,
            )
        &&& match self.policy.payout {
            PayoutRule::FixedOdds => self.outcome_pools[0] == 0 && self.outcome_pools[1] == 0,
            PayoutRule::PariMutuel => self.outcome_pools[0] == staked_on(self.bets, 0)
                && self.outcome_pools[1] == staked_on(self.bets, 1),
        }
        &&& (self.start_slot == 0 && self.end_slot == 0) || self.end_slot == self.start_slot
            + self.policy.round.spec_slots()
        &&& !self.resolved ==> self.weather_result == 0 && forall|i: int|
            0 <= i < self.bets.len() ==> !(#[trigger] self.bets[i]).claimed
    }
}

impl BettingWindow {
    /// An unused record for a deployment with the given rules.
    pub fn new(policy: Policy) -> (window: BettingWindow)
        ensures
            window@ == WindowView::unused(policy),
            window@.wf(),
    {
        let window = BettingWindow {
            policy,
            start_slot: 0,
            end_slot: 0,
            bets: Vec::new(),
            resolved: false,
            weather_result: 0,
            pool: 0,
            outcome_pools: [0, 0],
        };
        assert(window.outcome_pools@ =~= seq![0u64, 0u64]);
        assert(window.bets@ =~= Seq::<Bet>::empty());
        window
    }

    /// The running total kept for `outcome`: zero for an outcome that no bet
    /// can predict.
    pub fn pool_for_outcome(&self, outcome: i8) -> (pool: u64)
        ensures
            pool == self@.pool_for_outcome(outcome),
    {
        if outcome == 0 || outcome == 1 {
            self.outcome_pools[outcome as usize]
        } else {
            0
        }
    }
}

impl Default for BettingWindow {
    /// An unused record under the default rules.
    fn default() -> (window: BettingWindow)
        ensures
            window@ == WindowView::unused(
                Policy { payout: PayoutRule::FixedOdds, round: RoundLength::Short },
            ),
    {
        BettingWindow::new(Policy { payout: PayoutRule::FixedOdds, round: RoundLength::Short })
    }
}

} // verus!
