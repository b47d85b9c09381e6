# gateway_contract

The verified core of two Soroban contracts of the gateway:

- `auction`: closing a username auction and handing the username to its
  winner (`AuctionContract::close_auction`, `AuctionContract::claim_username`).
- `escrow`: vaults, payments scheduled between them and recurring payments
  (`EscrowContract::schedule_payment`, `execute_scheduled`, `setup_auto_pay`,
  `trigger_auto_pay`, `resolve`), with `escrow_laws` stating what the entry
  points promise together and `escrow_runs` what holds across any
  sequence of calls.

Each entry point takes the contract's stored state, the request and the ledger
time, and returns the effect to carry out (an event, a token payout, a factory
call) with the state updated, or an error with the state unchanged.

`app/` holds the Soroban side: the `#[contract]` types, storage, ledger time,
authorization, token transfers, cross-contract calls and events, and the
conversion of Soroban addresses to the library's `Address` (kind and 32-byte
payload).
