use gateway_contract::address::{Address, AddressKind};
use gateway_contract::escrow::EscrowContract;
use gateway_contract::escrow_types::{EscrowError, Vault};

fn account(seed: u8) -> Address {
    Address { kind: AddressKind::Account, key: [seed; 32] }
}

fn token() -> Address {
    Address { kind: AddressKind::Contract, key: [200; 32] }
}

const FROM: [u8; 32] = [1; 32];
const TO: [u8; 32] = [2; 32];

fn escrow_with_vaults(balance: i128) -> EscrowContract {
    let mut e = EscrowContract::new();
    e.write_vault(FROM, Vault { owner: account(11), token: token(), balance });
    e.write_vault(TO, Vault { owner: account(22), token: token(), balance: 0 });
    e
}

#[test]
fn schedule_reserves_funds_and_numbers_from_one() {
    let mut e = escrow_with_vaults(1000);
    let id = e.schedule_payment(FROM, TO, 300, 500, 100).unwrap();
    assert_eq!(id, 1);
    assert_eq!(e.read_vault(&FROM).unwrap().balance, 700);
    let p = e.read_scheduled_payment(1).unwrap();
    assert_eq!(p.amount, 300);
    assert_eq!(p.release_at, 500);
    assert!(!p.executed);
    assert_eq!(p.from, FROM);
    assert_eq!(p.to, TO);
    assert!(p.token.same_as(&token()));
    let id2 = e.schedule_payment(FROM, TO, 100, 500, 100).unwrap();
    assert_eq!(id2, 2);
    assert_eq!(e.read_vault(&FROM).unwrap().balance, 600);
}

#[test]
fn schedule_errors_in_order() {
    let mut e = escrow_with_vaults(50);
    assert_eq!(e.schedule_payment(FROM, TO, 0, 500, 100), Err(EscrowError::InvalidAmount));
    assert_eq!(e.schedule_payment(FROM, TO, -5, 500, 100), Err(EscrowError::InvalidAmount));
    assert_eq!(e.schedule_payment(FROM, TO, 10, 100, 100), Err(EscrowError::PastReleaseTime));
    assert_eq!(e.schedule_payment([9; 32], TO, 10, 500, 100), Err(EscrowError::VaultNotFound));
    assert_eq!(e.schedule_payment(FROM, TO, 51, 500, 100), Err(EscrowError::InsufficientBalance));
    // Nothing changed.
    assert_eq!(e.read_vault(&FROM).unwrap().balance, 50);
    assert!(e.read_scheduled_payment(1).is_none());
    // The whole balance can be reserved.
    assert_eq!(e.schedule_payment(FROM, TO, 50, 500, 100), Ok(1));
    assert_eq!(e.read_vault(&FROM).unwrap().balance, 0);
}

#[test]
fn schedule_authorizer_names_the_owner() {
    let e = escrow_with_vaults(50);
    assert!(e.schedule_payment_authorizer(&FROM, 10, 500, 100).unwrap().same_as(&account(11)));
    assert_eq!(
        e.schedule_payment_authorizer(&FROM, 0, 500, 100).unwrap_err(),
        EscrowError::InvalidAmount
    );
    assert_eq!(
        e.schedule_payment_authorizer(&[7; 32], 10, 500, 100).unwrap_err(),
        EscrowError::VaultNotFound
    );
}

#[test]
fn execute_pays_the_destination_owner_once() {
    let mut e = escrow_with_vaults(1000);
    let id = e.schedule_payment(FROM, TO, 300, 500, 100).unwrap();
    assert_eq!(e.execute_scheduled(id, 499).unwrap_err(), EscrowError::PaymentNotYetDue);
    let pay = e.execute_scheduled(id, 500).unwrap();
    assert_eq!(pay.amount, 300);
    assert!(pay.recipient.same_as(&account(22)));
    assert!(pay.token.same_as(&token()));
    assert_eq!(pay.from, FROM);
    assert_eq!(pay.to, TO);
    assert!(e.read_scheduled_payment(id).unwrap().executed);
    // The funds had been reserved: no balance moves on execution.
    assert_eq!(e.read_vault(&FROM).unwrap().balance, 700);
    assert_eq!(e.read_vault(&TO).unwrap().balance, 0);
    assert_eq!(e.execute_scheduled(id, 600).unwrap_err(), EscrowError::PaymentAlreadyExecuted);
}

#[test]
fn execute_unknown_payment() {
    let mut e = escrow_with_vaults(1000);
    assert_eq!(e.execute_scheduled(0, 10).unwrap_err(), EscrowError::PaymentNotFound);
    assert_eq!(e.execute_scheduled(1, 10).unwrap_err(), EscrowError::PaymentNotFound);
}

#[test]
fn execute_to_missing_vault() {
    let mut e = escrow_with_vaults(1000);
    let id = e.schedule_payment(FROM, [5; 32], 300, 500, 100).unwrap();
    assert_eq!(e.execute_scheduled(id, 500).unwrap_err(), EscrowError::VaultNotFound);
    assert!(!e.read_scheduled_payment(id).unwrap().executed);
}

#[test]
fn setup_auto_pay_records_a_rule() {
    let mut e = escrow_with_vaults(1000);
    assert_eq!(e.setup_auto_pay(FROM, TO, 0, 60), Err(EscrowError::InvalidAmount));
    assert_eq!(e.setup_auto_pay(FROM, TO, 10, 0), Err(EscrowError::InvalidInterval));
    assert_eq!(e.setup_auto_pay([8; 32], TO, 10, 60), Err(EscrowError::VaultNotFound));
    let id = e.setup_auto_pay(FROM, TO, 10, 60).unwrap();
    assert_eq!(id, 1);
    let rule = e.read_auto_pay(id).unwrap();
    assert_eq!(rule.amount, 10);
    assert_eq!(rule.interval, 60);
    assert_eq!(rule.last_paid, 0);
    assert!(rule.token.same_as(&token()));
    assert_eq!(e.read_vault(&FROM).unwrap().balance, 1000);
    assert!(e.setup_auto_pay_authorizer(&FROM, 10, 60).unwrap().same_as(&account(11)));
    assert_eq!(e.setup_auto_pay_authorizer(&FROM, 10, 0).unwrap_err(), EscrowError::InvalidInterval);
}

#[test]
fn trigger_auto_pay_respects_the_interval() {
    let mut e = escrow_with_vaults(25);
    let id = e.setup_auto_pay(FROM, TO, 10, 60).unwrap();
    assert_eq!(e.trigger_auto_pay(id, 59).unwrap_err(), EscrowError::IntervalNotElapsed);
    let pay = e.trigger_auto_pay(id, 100).unwrap();
    assert_eq!(pay.amount, 10);
    assert!(pay.recipient.same_as(&account(22)));
    assert_eq!(e.read_vault(&FROM).unwrap().balance, 15);
    assert_eq!(e.read_auto_pay(id).unwrap().last_paid, 100);
    assert_eq!(e.trigger_auto_pay(id, 159).unwrap_err(), EscrowError::IntervalNotElapsed);
    e.trigger_auto_pay(id, 160).unwrap();
    assert_eq!(e.read_vault(&FROM).unwrap().balance, 5);
    assert_eq!(e.trigger_auto_pay(id, 220).unwrap_err(), EscrowError::InsufficientBalance);
    assert_eq!(e.read_auto_pay(id).unwrap().last_paid, 160);
}

#[test]
fn trigger_unknown_rule_or_missing_vaults() {
    let mut e = escrow_with_vaults(100);
    assert_eq!(e.trigger_auto_pay(1, 100).unwrap_err(), EscrowError::AutoPayNotFound);
    let id = e.setup_auto_pay(FROM, [6; 32], 10, 60).unwrap();
    assert_eq!(e.trigger_auto_pay(id, 100).unwrap_err(), EscrowError::VaultNotFound);
    assert_eq!(e.read_vault(&FROM).unwrap().balance, 100);
}

#[test]
fn write_vault_replaces_and_resolve_finds_owner() {
    let mut e = escrow_with_vaults(5);
    e.write_vault(FROM, Vault { owner: account(33), token: token(), balance: 9 });
    assert_eq!(e.read_vault(&FROM).unwrap().balance, 9);
    assert!(e.resolve(&FROM).unwrap().same_as(&account(33)));
    assert_eq!(e.resolve(&[4; 32]).unwrap_err(), EscrowError::VaultNotFound);
}

#[test]
fn parts_round_trip() {
    let mut e = escrow_with_vaults(1000);
    e.schedule_payment(FROM, TO, 300, 500, 100).unwrap();
    e.setup_auto_pay(FROM, TO, 10, 60).unwrap();
    let (v, p, a) = e.into_parts();
    assert_eq!(v.len(), 2);
    assert_eq!(p.len(), 1);
    assert_eq!(a.len(), 1);
    let back = EscrowContract::from_parts(v, p, a).unwrap();
    assert_eq!(back.read_vault(&FROM).unwrap().balance, 700);
    assert_eq!(back.read_scheduled_payment(1).unwrap().amount, 300);
    assert_eq!(back.read_auto_pay(1).unwrap().interval, 60);
}

#[test]
fn parts_with_duplicate_vault_refused() {
    let vault = Vault { owner: account(1), token: token(), balance: 1 };
    assert!(EscrowContract::from_parts(vec![(FROM, vault), (TO, vault), (FROM, vault)], vec![], vec![]).is_none());
    assert!(EscrowContract::from_parts(vec![(FROM, vault), (TO, vault)], vec![], vec![]).is_some());
}

#[test]
fn parts_with_bad_rule_refused() {
    let mut e = escrow_with_vaults(1000);
    e.setup_auto_pay(FROM, TO, 10, 60).unwrap();
    let (v, p, mut a) = e.into_parts();
    a[0].interval = 0;
    assert!(EscrowContract::from_parts(v, p, a).is_none());
}

#[test]
fn due_time_beyond_u64_is_never_reached() {
    let mut e = escrow_with_vaults(1000);
    e.setup_auto_pay(FROM, TO, 10, 60).unwrap();
    let (v, p, mut a) = e.into_parts();
    a[0].last_paid = u64::MAX - 5;
    let mut e = EscrowContract::from_parts(v, p, a).unwrap();
    assert_eq!(e.trigger_auto_pay(1, u64::MAX).unwrap_err(), EscrowError::IntervalNotElapsed);
    assert_eq!(e.read_vault(&FROM).unwrap().balance, 1000);
    assert_eq!(e.read_auto_pay(1).unwrap().last_paid, u64::MAX - 5);
}

#[test]
fn paid_once_even_after_other_calls() {
    let mut e = escrow_with_vaults(1000);
    let id = e.schedule_payment(FROM, TO, 300, 500, 100).unwrap();
    e.execute_scheduled(id, 500).unwrap();
    let id2 = e.schedule_payment(FROM, TO, 100, 600, 100).unwrap();
    assert_ne!(id, id2);
    e.setup_auto_pay(FROM, TO, 10, 60).unwrap();
    e.trigger_auto_pay(1, 700).unwrap();
    assert_eq!(e.execute_scheduled(id, 900).unwrap_err(), EscrowError::PaymentAlreadyExecuted);
    assert_eq!(e.read_scheduled_payment(id).unwrap().amount, 300);
    // 1000 - 300 - 100 scheduled, - 10 paid by the rule; execution takes nothing.
    assert_eq!(e.read_vault(&FROM).unwrap().balance, 590);
}
