use gateway_contract::address::{Address, AddressKind};
use gateway_contract::auction::{
    _touch_event_symbols, AuctionContract, AuctionError, AuctionEvent, AuctionStatus,
};

fn account(seed: u8) -> Address {
    Address { kind: AddressKind::Account, key: [seed; 32] }
}

fn contract_address(seed: u8) -> Address {
    Address { kind: AddressKind::Contract, key: [seed; 32] }
}

fn closed_with(bidder: Option<Address>, factory: Option<Address>) -> AuctionContract {
    let mut s = AuctionContract::new();
    s.factory_contract = factory;
    s.highest_bidder = bidder;
    s.status = AuctionStatus::Closed;
    s
}

#[test]
fn test_claim_username_success() {
    let factory_id = contract_address(9);
    let claimer = account(1);
    let username_hash = [0u8; 32];
    let mut s = closed_with(Some(claimer), Some(factory_id));

    let claim = s.claim_username(username_hash, claimer).unwrap();

    assert_eq!(s.status, AuctionStatus::Claimed);
    assert!(claim.factory.same_as(&factory_id));
    assert!(claim.claimer.same_as(&claimer));
    assert_eq!(claim.username_hash, username_hash);
}

#[test]
fn test_not_winner() {
    let winner = account(1);
    let not_winner = account(2);
    let mut s = closed_with(Some(winner), Some(contract_address(9)));
    let r = s.claim_username([0u8; 32], not_winner);
    assert_eq!(r.unwrap_err(), AuctionError::NotWinner);
    assert_eq!(AuctionError::NotWinner.code(), 1);
    assert_eq!(s.status, AuctionStatus::Closed);
}

#[test]
fn test_already_claimed() {
    let claimer = account(1);
    let mut s = closed_with(Some(claimer), Some(contract_address(9)));
    s.status = AuctionStatus::Claimed;
    let r = s.claim_username([0u8; 32], claimer);
    assert_eq!(r.unwrap_err(), AuctionError::AlreadyClaimed);
    assert_eq!(AuctionError::AlreadyClaimed.code(), 2);
}

#[test]
fn test_not_closed() {
    let claimer = account(1);
    let mut s = closed_with(Some(claimer), Some(contract_address(9)));
    s.status = AuctionStatus::Open;
    let r = s.claim_username([0u8; 32], claimer);
    assert_eq!(r.unwrap_err(), AuctionError::NotClosed);
    assert_eq!(AuctionError::NotClosed.code(), 3);
}

#[test]
fn test_no_factory_contract() {
    let claimer = account(1);
    let mut s = closed_with(Some(claimer), None);
    let r = s.claim_username([0u8; 32], claimer);
    assert_eq!(r.unwrap_err(), AuctionError::NoFactoryContract);
    assert_eq!(AuctionError::NoFactoryContract.code(), 4);
    // A refused claim leaves the auction as it was.
    assert_eq!(s.status, AuctionStatus::Closed);
}

#[test]
fn test_close_auction_success() {
    let username_hash = [1u8; 32];
    let bidder = account(3);
    let mut s = AuctionContract::new();
    s.status = AuctionStatus::Open;
    s.end_time = 1000;
    s.highest_bidder = Some(bidder);
    s.highest_bid = 100;

    s.close_auction(username_hash, 2000).unwrap();

    assert_eq!(s.status, AuctionStatus::Closed);
}

#[test]
fn test_close_auction_zero_bid() {
    let username_hash = [2u8; 32];
    let mut s = AuctionContract::new();
    s.status = AuctionStatus::Open;
    s.end_time = 1000;
    s.highest_bid = 0;

    let ev = s.close_auction(username_hash, 2000).unwrap();

    assert_eq!(s.status, AuctionStatus::Closed);
    assert!(ev.winner.is_none());
    assert_eq!(ev.winning_bid, 0);
}

#[test]
fn test_close_auction_not_expired() {
    let mut s = AuctionContract::new();
    s.status = AuctionStatus::Open;
    s.end_time = 5000;
    s.highest_bidder = Some(account(3));
    s.highest_bid = 100;
    let r = s.close_auction([3u8; 32], 2000);
    assert_eq!(r.unwrap_err(), AuctionError::AuctionNotClosed);
    assert_eq!(AuctionError::AuctionNotClosed.code(), 9);
    assert_eq!(s.status, AuctionStatus::Open);
}

#[test]
fn test_close_auction_not_open() {
    let mut s = AuctionContract::new();
    s.status = AuctionStatus::Closed;
    s.end_time = 1000;
    let r = s.close_auction([4u8; 32], 2000);
    assert_eq!(r.unwrap_err(), AuctionError::AuctionNotOpen);
    assert_eq!(AuctionError::AuctionNotOpen.code(), 8);
}

#[test]
fn test_close_auction_emits_event() {
    let username_hash = [5u8; 32];
    let bidder = account(3);
    let mut s = AuctionContract::new();
    s.status = AuctionStatus::Open;
    s.end_time = 1000;
    s.highest_bidder = Some(bidder);
    s.highest_bid = 500;

    let ev = s.close_auction(username_hash, 2000).unwrap();

    assert_eq!(ev.username_hash, username_hash);
    assert!(ev.winner.unwrap().same_as(&bidder));
    assert_eq!(ev.winning_bid, 500);
}

#[test]
fn close_at_exactly_the_end_time() {
    let mut s = AuctionContract::new();
    s.end_time = 1000;
    assert!(s.close_auction([0u8; 32], 999).is_err());
    assert!(s.close_auction([0u8; 32], 1000).is_ok());
}

#[test]
fn close_happens_once() {
    let mut s = AuctionContract::new();
    s.end_time = 10;
    s.close_auction([0u8; 32], 10).unwrap();
    assert_eq!(s.close_auction([0u8; 32], 99).unwrap_err(), AuctionError::AuctionNotOpen);
}

#[test]
fn claim_happens_once_and_blocks_closing() {
    let claimer = account(1);
    let mut s = closed_with(Some(claimer), Some(contract_address(9)));
    s.claim_username([7u8; 32], claimer).unwrap();
    assert_eq!(s.claim_username([7u8; 32], claimer).unwrap_err(), AuctionError::AlreadyClaimed);
    assert_eq!(s.claim_username([7u8; 32], account(2)).unwrap_err(), AuctionError::AlreadyClaimed);
    assert_eq!(s.close_auction([7u8; 32], 99).unwrap_err(), AuctionError::AuctionNotOpen);
}

#[test]
fn claim_without_any_bid_is_refused() {
    let mut s = closed_with(None, Some(contract_address(9)));
    assert_eq!(s.claim_username([0u8; 32], account(1)).unwrap_err(), AuctionError::NotWinner);
}

#[test]
fn same_key_of_other_kind_is_another_address() {
    let claimer = account(1);
    let impostor = contract_address(1);
    assert!(!claimer.same_as(&impostor));
    let mut s = closed_with(Some(claimer), Some(contract_address(9)));
    assert_eq!(s.claim_username([0u8; 32], impostor).unwrap_err(), AuctionError::NotWinner);
}

#[test]
fn event_topics_in_declared_order() {
    assert_eq!(
        _touch_event_symbols(),
        [
            AuctionEvent::AuctionCreated,
            AuctionEvent::BidPlaced,
            AuctionEvent::AuctionClosed,
            AuctionEvent::UsernameClaimed,
            AuctionEvent::BidRefunded,
        ]
    );
}
