//! The life of a window: unused, open, closed, resolved, and unused again.

use vstd::prelude::*;
use crate::error::ErrorCode;
use crate::state::{BettingWindow, WindowView, Bet};

verus! {

impl WindowView {
    /// Whether the next bet starts a new round: the record is unused, or its
    /// round is over.
    pub open spec fn needs_opening(self) -> bool {
        self.start_slot == 0 || self.resolved
    }

    /// Whether a round can start in slot `now`: its last slot must be a slot.
    pub open spec fn can_open_at(self, now: u64) -> bool {
        now + self.policy.round.spec_slots() <= u64::MAX
    }

    /// The empty round that starts in slot `now`.
    pub open spec fn opened_at(self, now: u64) -> WindowView {
        WindowView {
            policy: self.policy,
            start_slot: now,
            end_slot: (now + self.policy.round.spec_slots()) as u64,
            bets: Seq::empty(),
            resolved: false,
            weather_result: 0,
            pool: 0,
            outcome_pools: seq![0u64, 0u64],
        }
    }

    /// The window in which a bet of slot `now` is placed: a new round where
    /// one is due, else the running one.
    pub open spec fn open_or_continue(self, now: u64) -> WindowView {
        if self.needs_opening() {
            self.opened_at(now)
        } else {
            self
        }
    }

    /// Whether the window takes bets in slot `now`.
    pub open spec fn accepts_bets_at(self, now: u64) -> bool {
        now <= self.end_slot
    }

    /// Whether the time for bets is over in slot `now`.
    pub open spec fn closed_at(self, now: u64) -> bool {
        now >= self.end_slot
    }

    /// The record after it has been cleared for reuse.
    pub open spec fn cleared(self) -> WindowView {
        WindowView::unused(self.policy)
    }
}

/// Starts a new round in slot `now` where the record is unused or its round is
/// resolved, and leaves a running round untouched.
///
/// A round cannot start so late that its last slot is beyond `u64`: that is
/// refused with `ArithmeticOverflow`, and the record stays as it was.
pub fn open_or_continue(window: &mut BettingWindow, now: u64) -> (r: Result<(), ErrorCode>)
    ensures
        r is Err <==> old(window)@.needs_opening() && !old(window)@.can_open_at(now),
        r is Err ==> r == Err::<(), ErrorCode>(ErrorCode::ArithmeticOverflow) && *final(window)
            == *old(window),
        r is Ok ==> final(window)@ == old(window)@.open_or_continue(now),
        r is Ok && old(window)@.wf() ==> final(window)@.wf(),
{
    if window.start_slot == 0 || window.resolved {
        match now.checked_add(window.policy.round.slots()) {
            None => Err(ErrorCode::ArithmeticOverflow),
            Some(end) => {
                window.start_slot = now;
                window.end_slot = end;
                window.bets = Vec::new();
                window.resolved = false;
                window.weather_result = 0;
                window.pool = 0;
                window.outcome_pools = [0, 0];
                assert(window.outcome_pools@ =~= seq![0u64, 0u64]);
                assert(window.bets@ =~= Seq::<Bet>::empty());
                Ok(())
            },
        }
    } else {
        Ok(())
    }
}

} // verus!
