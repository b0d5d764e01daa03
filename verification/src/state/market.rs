//! A market, its outcomes and its lifecycle.

use crate::constants::{MAX_NAME_LEN, MAX_OUTCOMES, MIN_OUTCOMES};
use crate::pubkey::Pubkey;
use vstd::prelude::*;
use vstd::utf8::encode_utf8;

verus! {

/// Length in bytes of the UTF-8 encoding of `text`, as `str::len` reports it.
pub open spec fn byte_len(text: Seq<char>) -> usize {
    encode_utf8(text).len() as usize
}

/// Where a market stands in its lifecycle.
#[derive(Clone, Copy, Debug, PartialEq, Eq, Structural)]
pub enum MarketStatus {
    /// Bets and liquidity changes are accepted.
    Active,
    /// No more bets; the market awaits settlement.
    Closed,
    /// The oracle has declared the winning outcome.
    Settled,
    /// The declared outcome is disputed.
    Disputed,
    /// The market was cancelled.
    Cancelled,
}

/// One of the mutually exclusive results a market can have.
#[derive(Clone, Debug, PartialEq, Eq)]
pub struct Outcome {
    /// Name of the outcome, at most 64 bytes.
    pub name: String,
    /// Shares issued against this outcome so far.
    pub total_shares: u64,
    /// Last price computed for this outcome, out of 1,000,000.
    pub price: u64,
    /// Number of bets placed on this outcome.
    pub bet_count: u64,
}

/// Mathematical model of an [`Outcome`].
pub struct OutcomeView {
    pub name: Seq<char>,
    pub total_shares: nat,
    pub price: nat,
    pub bet_count: nat,
}

impl View for Outcome {
    type V = OutcomeView;

    open spec fn view(&self) -> OutcomeView {
        OutcomeView {
            name: self.name@,
            total_shares: self.total_shares as nat,
            price: self.price as nat,
            bet_count: self.bet_count as nat,
        }
    }
}

/// A prediction market.
#[derive(Clone, Debug, PartialEq, Eq)]
pub struct Market {
    /// Identifier of the case, at most 64 bytes.
    pub case_id: String,
    /// Who created the market.
    pub creator: Pubkey,
    /// The only identity allowed to settle the market.
    pub oracle: Pubkey,
    /// The outcomes, addressed by index; their number is fixed at creation.
    pub outcomes: Vec<Outcome>,
    /// Sum of all value ever deposited into the pool.
    pub total_liquidity: u64,
    /// Number of bets placed.
    pub total_bets: u64,
    /// Where the market stands in its lifecycle.
    pub status: MarketStatus,
    /// Deadline: no bet is accepted at or after it, no settlement before it.
    pub settlement_time: i64,
    /// Index of the winning outcome, set once, on settlement.
    pub winning_outcome: Option<u8>,
    /// Fee taken from winnings, in basis points.
    pub fee_bps: u16,
    /// When the market was created.
    pub created_at: i64,
    /// When the market was settled.
    pub settled_at: Option<i64>,
}

/// Mathematical model of a [`Market`].
pub struct MarketView {
    pub case_id: Seq<char>,
    pub creator: Seq<u8>,
    pub oracle: Seq<u8>,
    pub outcomes: Seq<OutcomeView>,
    pub total_liquidity: nat,
    pub total_bets: nat,
    pub status: MarketStatus,
    pub settlement_time: int,
    pub winning_outcome: Option<nat>,
    pub fee_bps: nat,
    pub created_at: int,
    pub settled_at: Option<int>,
}

impl MarketView {
    /// The bounds every market keeps: a short identifier, two to ten outcomes with short
    /// names, and a winner, in range, exactly when the market is settled.
    pub open spec fn wf(self) -> bool {
        &&& byte_len(self.case_id) <= MAX_NAME_LEN
        &&& MIN_OUTCOMES <= self.outcomes.len() <= MAX_OUTCOMES
        &&& forall|i: int|
            0 <= i < self.outcomes.len() ==> byte_len((#[trigger] self.outcomes[i]).name)
                <= MAX_NAME_LEN
        &&& (self.winning_outcome is Some <==> self.status == MarketStatus::Settled)
        &&& (self.settled_at is Some <==> self.status == MarketStatus::Settled)
        &&& (self.winning_outcome matches Some(w) ==> w < self.outcomes.len())
    }

    /// Whether shares have been issued against every outcome, so that any of them can win
    /// and be paid out pro rata.
    pub open spec fn seeded(self) -> bool {
        forall|i: int|
            0 <= i < self.outcomes.len() ==> (#[trigger] self.outcomes[i]).total_shares > 0
    }

    /// Whether the market can be settled at `current_time`.
    pub open spec fn can_settle(self, current_time: int) -> bool {
        self.status == MarketStatus::Active && current_time >= self.settlement_time
    }
}

impl View for Market {
    type V = MarketView;

    open spec fn view(&self) -> MarketView {
        MarketView {
            case_id: self.case_id@,
            creator: self.creator@,
            oracle: self.oracle@,
            outcomes: Seq::new(self.outcomes@.len(), |i: int| self.outcomes@[i]@),
            total_liquidity: self.total_liquidity as nat,
            total_bets: self.total_bets as nat,
            status: self.status,
            settlement_time: self.settlement_time as int,
            winning_outcome: match self.winning_outcome {
                Some(w) => Some(w as nat),
                None => None,
            },
            fee_bps: self.fee_bps as nat,
            created_at: self.created_at as int,
            settled_at: match self.settled_at {
                Some(t) => Some(t as int),
                None => None,
            },
        }
    }
}

impl Market {
    /// See [`MarketView::wf`].
    pub open spec fn wf(&self) -> bool {
        self@.wf()
    }

    /// Whether bets and liquidity changes are accepted.
    pub fn is_active(&self) -> (active: bool)
        ensures
            active == (self.status == MarketStatus::Active),
    {
        matches!(self.status, MarketStatus::Active)
    }

    /// Whether the oracle has declared the winner.
    pub fn is_settled(&self) -> (settled: bool)
        ensures
            settled == (self.status == MarketStatus::Settled),
    {
        matches!(self.status, MarketStatus::Settled)
    }

    /// Whether the market can be settled at `current_time`: it is active and the deadline
    /// has come.
    pub fn can_settle(&self, current_time: i64) -> (ready: bool)
        ensures
            ready == self@.can_settle(current_time as int),
    {
        self.is_active() && current_time >= self.settlement_time
    }

    /// Tests the bounds every market keeps.
    pub fn is_well_formed(&self) -> (ok: bool)
        ensures
            ok == self.wf(),
    {
        if self.case_id.as_str().len() > MAX_NAME_LEN {
            return false;
        }
        let count: usize = self.outcomes.len();
        if count < MIN_OUTCOMES || count > MAX_OUTCOMES {
            return false;
        }
        let mut i: usize = 0;
        while i < count
            invariant
                i <= count,
                count == self.outcomes@.len(),
                forall|j: int|
                    0 <= j < i ==> byte_len((#[trigger] self@.outcomes[j]).name) <= MAX_NAME_LEN,
            decreases count - i,
        {
            if self.outcomes[i].name.as_str().len() > MAX_NAME_LEN {
                assert(byte_len(self@.outcomes[i as int].name) > MAX_NAME_LEN);
                return false;
            }
            i += 1;
        }
        let settled: bool = self.is_settled();
        let winner_in_range: bool = match self.winning_outcome {
            Some(w) => (w as usize) < count,
            None => true,
        };
        self.winning_outcome.is_some() == settled && self.settled_at.is_some() == settled
            && winner_in_range
    }
}

} // verus!
