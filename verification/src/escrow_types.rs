use crate::address::Address;
use vstd::prelude::*;

verus! {

/// A vault: who owns it, the token it holds, and how much of it is free.
#[derive(Clone, Copy, Debug)]
pub struct Vault {
    pub owner: Address,
    pub token: Address,
    pub balance: i128,
}

/// A one-off payment from vault `from` to vault `to`, reserved when it was
/// scheduled and payable from `release_at` on.
#[derive(Clone, Copy, Debug)]
pub struct ScheduledPayment {
    pub from: [u8; 32],
    pub to: [u8; 32],
    pub token: Address,
    pub amount: i128,
    pub release_at: u64,
    pub executed: bool,
}

/// A recurring payment of `amount` from vault `from` to vault `to`, due every
/// `interval` seconds after `last_paid`.
#[derive(Clone, Copy, Debug)]
pub struct AutoPay {
    pub from: [u8; 32],
    pub to: [u8; 32],
    pub token: Address,
    pub amount: i128,
    pub interval: u64,
    pub last_paid: u64,
}

/// A transfer the escrow asks for: `amount` of `token` from the escrow to
/// `recipient`, the owner of vault `to`, paying on behalf of vault `from`.
#[derive(Clone, Copy, Debug)]
pub struct Payout {
    pub token: Address,
    pub recipient: Address,
    pub amount: i128,
    pub from: [u8; 32],
    pub to: [u8; 32],
}

/// Why an escrow entry point refused a request.
#[derive(Clone, Copy, Debug, PartialEq, Eq, Structural)]
pub enum EscrowError {
    VaultNotFound,
    InvalidAmount,
    InsufficientBalance,
    PastReleaseTime,
    PaymentCounterOverflow,
    PaymentNotFound,
    PaymentAlreadyExecuted,
    PaymentNotYetDue,
    InvalidInterval,
    AutoPayCounterOverflow,
    AutoPayNotFound,
    IntervalNotElapsed,
}

} // verus!
