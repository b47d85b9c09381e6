use crate::address::{same_address, Address};
use vstd::prelude::*;

verus! {

/// Where an auction stands: bidding, decided, or its username handed out.
#[derive(Clone, Copy, Debug, PartialEq, Eq, Structural)]
pub enum AuctionStatus {
    Open,
    Closed,
    Claimed,
}

/// Why an auction entry point refused a request.
#[derive(Clone, Copy, Debug, PartialEq, Eq, Structural)]
pub enum AuctionError {
    /// The claimer is not the highest bidder (or nobody bid).
    NotWinner,
    /// The username was claimed already.
    AlreadyClaimed,
    /// The auction has not been closed yet.
    NotClosed,
    /// No factory contract is configured to deploy the username.
    NoFactoryContract,
    /// Only an open auction can be closed.
    AuctionNotOpen,
    /// The auction's end time has not been reached.
    AuctionNotClosed,
}

impl AuctionError {
    /// The contract error number under which the error is reported.
    pub fn code(&self) -> (c: u32)
        ensures
            c == self.code_spec(),
    {
        match self {
            AuctionError::NotWinner => 1,
            AuctionError::AlreadyClaimed => 2,
            AuctionError::NotClosed => 3,
            AuctionError::NoFactoryContract => 4,
            AuctionError::AuctionNotOpen => 8,
            AuctionError::AuctionNotClosed => 9,
        }
    }

    pub open spec fn code_spec(self) -> u32 {
        match self {
            AuctionError::NotWinner => 1,
            AuctionError::AlreadyClaimed => 2,
            AuctionError::NotClosed => 3,
            AuctionError::NoFactoryContract => 4,
            AuctionError::AuctionNotOpen => 8,
            AuctionError::AuctionNotClosed => 9,
        }
    }
}

/// The events the auction contract publishes, each under its own topic.
#[derive(Clone, Copy, Debug, PartialEq, Eq, Structural)]
pub enum AuctionEvent {
    AuctionCreated,
    BidPlaced,
    AuctionClosed,
    UsernameClaimed,
    BidRefunded,
}

/// Every event topic of the auction contract, in the order the contract
/// declares them.
pub fn _touch_event_symbols() -> (r: [AuctionEvent; 5])
    ensures
        r@ == seq![
            AuctionEvent::AuctionCreated,
            AuctionEvent::BidPlaced,
            AuctionEvent::AuctionClosed,
            AuctionEvent::UsernameClaimed,
            AuctionEvent::BidRefunded,
        ],
{
    let r = [
        AuctionEvent::AuctionCreated,
        AuctionEvent::BidPlaced,
        AuctionEvent::AuctionClosed,
        AuctionEvent::UsernameClaimed,
        AuctionEvent::BidRefunded,
    ];
    assert(r@ =~= seq![
        AuctionEvent::AuctionCreated,
        AuctionEvent::BidPlaced,
        AuctionEvent::AuctionClosed,
        AuctionEvent::UsernameClaimed,
        AuctionEvent::BidRefunded,
    ]);
    r
}

/// The event published when an auction closes: the username's hash, the
/// winner (none when nobody bid) and the winning bid.
#[derive(Clone, Copy, Debug)]
pub struct AuctionClosed {
    pub username_hash: [u8; 32],
    pub winner: Option<Address>,
    pub winning_bid: i128,
}

/// What a successful claim asks of the caller: have `factory` deploy the
/// username with hash `username_hash` for `claimer`, then publish the claim.
#[derive(Clone, Copy, Debug)]
pub struct UsernameClaim {
    pub factory: Address,
    pub username_hash: [u8; 32],
    pub claimer: Address,
}

/// The stored state of the username auction contract.
#[derive(Clone, Copy, Debug)]
pub struct AuctionContract {
    pub status: AuctionStatus,
    /// Ledger time (seconds) from which the auction may be closed.
    pub end_time: u64,
    pub highest_bidder: Option<Address>,
    pub highest_bid: i128,
    /// The contract that deploys a claimed username.
    pub factory_contract: Option<Address>,
}

/// Whether `claimer` is the recorded highest bidder.
pub open spec fn is_winner(highest_bidder: Option<Address>, claimer: Address) -> bool {
    match highest_bidder {
        Some(h) => same_address(h, claimer),
        None => false,
    }
}

impl AuctionContract {
    /// The state before anything was stored: open, ending at time 0, with no
    /// bid and no factory.
    pub fn new() -> (s: AuctionContract)
        ensures
            s.status == AuctionStatus::Open,
            s.end_time == 0,
            s.highest_bidder is None,
            s.highest_bid == 0,
            s.factory_contract is None,
    {
        AuctionContract {
            status: AuctionStatus::Open,
            end_time: 0,
            highest_bidder: None,
            highest_bid: 0,
            factory_contract: None,
        }
    }

    /// Outcome of closing the auction at ledger time `now`: the new state and
    /// the event, or the error (the state then stays as it was).
    pub open spec fn close_auction_spec(self, username_hash: [u8; 32], now: u64) -> Result<
        (AuctionContract, AuctionClosed),
        AuctionError,
    > {
        if self.status != AuctionStatus::Open {
            Err(AuctionError::AuctionNotOpen)
        } else if now < self.end_time {
            Err(AuctionError::AuctionNotClosed)
        } else {
            Ok(
                (
                    AuctionContract { status: AuctionStatus::Closed, ..self },
                    AuctionClosed {
                        username_hash,
                        winner: self.highest_bidder,
                        winning_bid: self.highest_bid,
                    },
                ),
            )
        }
    }

    /// Outcome of `claimer` (who has authorized the call) claiming the
    /// username: the new state and the deployment to make, or the error.
    pub open spec fn claim_username_spec(self, username_hash: [u8; 32], claimer: Address) -> Result<
        (AuctionContract, UsernameClaim),
        AuctionError,
    > {
        if self.status == AuctionStatus::Claimed {
            Err(AuctionError::AlreadyClaimed)
        } else if self.status != AuctionStatus::Closed {
            Err(AuctionError::NotClosed)
        } else if !is_winner(self.highest_bidder, claimer) {
            Err(AuctionError::NotWinner)
        } else {
            match self.factory_contract {
                None => Err(AuctionError::NoFactoryContract),
                Some(factory) => Ok(
                    (
                        AuctionContract { status: AuctionStatus::Claimed, ..self },
                        UsernameClaim { factory, username_hash, claimer },
                    ),
                ),
            }
        }
    }

    /// Closes an open auction once its end time has passed.
    ///
    /// Fails with `AuctionNotOpen` unless the status is `Open`, then with
    /// `AuctionNotClosed` while `now` is before the end time. On success the
    /// status becomes `Closed` and nothing else changes; the returned event
    /// names the highest bidder and bid.
    pub fn close_auction(&mut self, username_hash: [u8; 32], now: u64) -> (r: Result<
        AuctionClosed,
        AuctionError,
    >)
        ensures
            match old(self).close_auction_spec(username_hash, now) {
                Ok((s, ev)) => *final(self) == s && r == Ok::<AuctionClosed, AuctionError>(ev),
                Err(e) => *final(self) == *old(self) && r == Err::<AuctionClosed, AuctionError>(e),
            },
    {
        if self.status != AuctionStatus::Open {
            return Err(AuctionError::AuctionNotOpen);
        }
        if now < self.end_time {
            return Err(AuctionError::AuctionNotClosed);
        }
        self.status = AuctionStatus::Closed;
        Ok(
            AuctionClosed {
                username_hash,
                winner: self.highest_bidder,
                winning_bid: self.highest_bid,
            },
        )
    }

    /// Hands the username of a closed auction to its winner.
    ///
    /// The caller must have checked `claimer`'s authorization first. Fails
    /// with `AlreadyClaimed` once claimed, `NotClosed` unless closed,
    /// `NotWinner` unless `claimer` is the highest bidder, and
    /// `NoFactoryContract` when no factory is set. On success the status
    /// becomes `Claimed` and the returned claim names the factory to call.
    /// A refused claim changes nothing, as the ledger discards every write of
    /// a call that fails.
    pub fn claim_username(&mut self, username_hash: [u8; 32], claimer: Address) -> (r: Result<
        UsernameClaim,
        AuctionError,
    >)
        ensures
            match old(self).claim_username_spec(username_hash, claimer) {
                Ok((s, c)) => *final(self) == s && r == Ok::<UsernameClaim, AuctionError>(c),
                Err(e) => *final(self) == *old(self) && r == Err::<UsernameClaim, AuctionError>(e),
            },
    {
        if self.status == AuctionStatus::Claimed {
            return Err(AuctionError::AlreadyClaimed);
        }
        if self.status != AuctionStatus::Closed {
            return Err(AuctionError::NotClosed);
        }
        let winner = match &self.highest_bidder {
            Some(h) => h.same_as(&claimer),
            None => false,
        };
        if !winner {
            return Err(AuctionError::NotWinner);
        }
        match self.factory_contract {
            None => Err(AuctionError::NoFactoryContract),
            Some(factory) => {
                self.status = AuctionStatus::Claimed;
                Ok(UsernameClaim { factory, username_hash, claimer })
            },
        }
    }
}

/// The order of an auction's stages: open, then closed, then claimed.
pub open spec fn stage(s: AuctionStatus) -> int {
    match s {
        AuctionStatus::Open => 0,
        AuctionStatus::Closed => 1,
        AuctionStatus::Claimed => 2,
    }
}

/// An auction only moves forward, one stage per successful call: closing
/// takes it from open to closed, claiming from closed to claimed, and a
/// refused call leaves it where it was.
pub proof fn lemma_status_only_advances(
    s: AuctionContract,
    username_hash: [u8; 32],
    now: u64,
    claimer: Address,
)
    ensures
        s.close_auction_spec(username_hash, now) matches Ok((t, _)) ==> s.status
            == AuctionStatus::Open && t.status == AuctionStatus::Closed && stage(t.status)
            == stage(s.status) + 1,
        s.claim_username_spec(username_hash, claimer) matches Ok((t, _)) ==> s.status
            == AuctionStatus::Closed && t.status == AuctionStatus::Claimed && stage(t.status)
            == stage(s.status) + 1,
{
}

/// Closing changes nothing but the status: the end time, the highest bid and
/// bidder and the factory stay, and the event reports that bid and bidder.
pub proof fn lemma_close_keeps_the_bids(s: AuctionContract, username_hash: [u8; 32], now: u64)
    ensures
        s.close_auction_spec(username_hash, now) matches Ok((t, ev)) ==> {
            &&& t.end_time == s.end_time
            &&& t.highest_bidder == s.highest_bidder
            &&& t.highest_bid == s.highest_bid
            &&& t.factory_contract == s.factory_contract
            &&& ev.winner == s.highest_bidder
            &&& ev.winning_bid == s.highest_bid
            &&& ev.username_hash == username_hash
        },
{
}

/// An auction closes at most once: after a successful close, every further
/// close is refused with `AuctionNotOpen`, whatever the time.
pub proof fn lemma_close_at_most_once(
    s: AuctionContract,
    h1: [u8; 32],
    t1: u64,
    h2: [u8; 32],
    t2: u64,
)
    requires
        s.close_auction_spec(h1, t1) is Ok,
    ensures
        s.close_auction_spec(h1, t1)->Ok_0.0.close_auction_spec(h2, t2) == Err::<
            (AuctionContract, AuctionClosed),
            AuctionError,
        >(AuctionError::AuctionNotOpen),
{
}

/// A username is claimed at most once: after a successful claim, every
/// further claim, by anyone, is refused with `AlreadyClaimed`, and the auction
/// cannot be closed again.
pub proof fn lemma_claim_at_most_once(
    s: AuctionContract,
    h1: [u8; 32],
    c1: Address,
    h2: [u8; 32],
    c2: Address,
    now: u64,
)
    requires
        s.claim_username_spec(h1, c1) is Ok,
    ensures
        s.claim_username_spec(h1, c1)->Ok_0.0.claim_username_spec(h2, c2) == Err::<
            (AuctionContract, UsernameClaim),
            AuctionError,
        >(AuctionError::AlreadyClaimed),
        s.claim_username_spec(h1, c1)->Ok_0.0.close_auction_spec(h2, now) == Err::<
            (AuctionContract, AuctionClosed),
            AuctionError,
        >(AuctionError::AuctionNotOpen),
{
}

/// Only the highest bidder can claim, only once the auction is closed and a
/// factory is set; the claim asks that factory to deploy for the claimer.
pub proof fn lemma_only_the_winner_claims(s: AuctionContract, username_hash: [u8; 32], claimer: Address)
    ensures
        s.claim_username_spec(username_hash, claimer) is Ok <==> {
            &&& s.status == AuctionStatus::Closed
            &&& is_winner(s.highest_bidder, claimer)
            &&& s.factory_contract is Some
        },
        s.claim_username_spec(username_hash, claimer) matches Ok((_, c)) ==> {
            &&& c.claimer == claimer
            &&& Some(c.factory) == s.factory_contract
            &&& c.username_hash == username_hash
        },
{
}

/// An open auction whose end time has passed can always be closed, with or
/// without a bid.
pub proof fn lemma_close_succeeds_after_end(s: AuctionContract, username_hash: [u8; 32], now: u64)
    ensures
        s.close_auction_spec(username_hash, now) is Ok <==> (s.status == AuctionStatus::Open && s.end_time <= now),
{
}

/// Which error a refused call reports. Closing: `AuctionNotOpen` unless the
/// auction is open, else `AuctionNotClosed` before the end time. Claiming:
/// `AlreadyClaimed` once claimed, `NotClosed` while open, `NotWinner` when
/// the claimer is not the highest bidder, else `NoFactoryContract` without a
/// factory.
pub proof fn lemma_auction_errors(
    s: AuctionContract,
    username_hash: [u8; 32],
    now: u64,
    claimer: Address,
)
    ensures
        s.status != AuctionStatus::Open ==> s.close_auction_spec(username_hash, now) == Err::<
            (AuctionContract, AuctionClosed),
            AuctionError,
        >(AuctionError::AuctionNotOpen),
        s.status == AuctionStatus::Open && now < s.end_time ==> s.close_auction_spec(
            username_hash,
            now,
        ) == Err::<(AuctionContract, AuctionClosed), AuctionError>(AuctionError::AuctionNotClosed),
        s.status == AuctionStatus::Claimed ==> s.claim_username_spec(username_hash, claimer)
            == Err::<(AuctionContract, UsernameClaim), AuctionError>(AuctionError::AlreadyClaimed),
        s.status == AuctionStatus::Open ==> s.claim_username_spec(username_hash, claimer) == Err::<
            (AuctionContract, UsernameClaim),
            AuctionError,
        >(AuctionError::NotClosed),
        s.status == AuctionStatus::Closed && !is_winner(s.highest_bidder, claimer)
            ==> s.claim_username_spec(username_hash, claimer) == Err::<
            (AuctionContract, UsernameClaim),
            AuctionError,
        >(AuctionError::NotWinner),
        s.status == AuctionStatus::Closed && is_winner(s.highest_bidder, claimer)
            && s.factory_contract is None ==> s.claim_username_spec(username_hash, claimer)
            == Err::<(AuctionContract, UsernameClaim), AuctionError>(
            AuctionError::NoFactoryContract,
        ),
{
}

} // verus!
