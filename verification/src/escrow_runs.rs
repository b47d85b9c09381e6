//! What holds across any sequence of escrow entry points, whatever else is
//! called in between: records keep their terms, a paid payment stays paid,
//! numbers are never reused, a rule's payouts are an interval apart, and a
//! vault's balance drops only by what scheduling reserves and recurring
//! payments pay.
use crate::escrow::EscrowState;
use crate::escrow_laws::{
    lemma_execute_pays_the_reservation, lemma_schedule_reserves_funds, lemma_setup_moves_no_funds,
    lemma_trigger_debits_the_source,
};
use crate::escrow_types::{AutoPay, EscrowError, Payout, ScheduledPayment};
use vstd::prelude::*;

verus! {

/// A call of one of the escrow's entry points, with its arguments and the
/// ledger time it is made at.
pub enum EscrowCall {
    SchedulePayment { from: [u8; 32], to: [u8; 32], amount: i128, release_at: u64, now: u64 },
    ExecuteScheduled { id: u32, now: u64 },
    SetupAutoPay { from: [u8; 32], to: [u8; 32], amount: i128, interval: u64 },
    TriggerAutoPay { id: u32, now: u64 },
}

/// The state after `call`: its outcome when it succeeds, the same state when
/// it is refused.
pub open spec fn step(s: EscrowState, call: EscrowCall) -> EscrowState {
    match call {
        EscrowCall::SchedulePayment { from, to, amount, release_at, now } => match s.schedule_payment_spec(
            from,
            to,
            amount,
            release_at,
            now,
        ) {
            Ok((t, _)) => t,
            Err(_) => s,
        },
        EscrowCall::ExecuteScheduled { id, now } => match s.execute_scheduled_spec(id, now) {
            Ok((t, _)) => t,
            Err(_) => s,
        },
        EscrowCall::SetupAutoPay { from, to, amount, interval } => match s.setup_auto_pay_spec(
            from,
            to,
            amount,
            interval,
        ) {
            Ok((t, _)) => t,
            Err(_) => s,
        },
        EscrowCall::TriggerAutoPay { id, now } => match s.trigger_auto_pay_spec(id, now) {
            Ok((t, _)) => t,
            Err(_) => s,
        },
    }
}

/// The state after the calls of `calls`, in order.
pub open spec fn run(s: EscrowState, calls: Seq<EscrowCall>) -> EscrowState
    decreases calls.len(),
{
    if calls.len() == 0 {
        s
    } else {
        step(run(s, calls.drop_last()), calls.last())
    }
}

/// What `call` takes from the balance of vault `f`: the amount of a payment
/// scheduled from it, or of a recurring payment paid from it.
pub open spec fn debit(s: EscrowState, call: EscrowCall, f: Seq<u8>) -> int {
    match call {
        EscrowCall::SchedulePayment { from, to, amount, release_at, now } => if s.schedule_payment_spec(
            from,
            to,
            amount,
            release_at,
            now,
        ) is Ok && from@ == f {
            amount as int
        } else {
            0
        },
        EscrowCall::TriggerAutoPay { id, now } => match s.trigger_auto_pay_spec(id, now) {
            Ok((_, pay)) => if pay.from@ == f {
                pay.amount as int
            } else {
                0
            },
            Err(_) => 0,
        },
        _ => 0,
    }
}

/// What the calls of `calls` take, in all, from the balance of vault `f`.
pub open spec fn total_debit(s: EscrowState, calls: Seq<EscrowCall>, f: Seq<u8>) -> int
    decreases calls.len(),
{
    if calls.len() == 0 {
        0
    } else {
        total_debit(s, calls.drop_last(), f) + debit(run(s, calls.drop_last()), calls.last(), f)
    }
}

/// Two records of one payment agree on everything but whether it was paid.
pub open spec fn same_payment_terms(p: ScheduledPayment, q: ScheduledPayment) -> bool {
    &&& p.from == q.from
    &&& p.to == q.to
    &&& p.token == q.token
    &&& p.amount == q.amount
    &&& p.release_at == q.release_at
}

/// Two records of one rule agree on everything but when it was last paid.
pub open spec fn same_rule_terms(a: AutoPay, b: AutoPay) -> bool {
    &&& a.from == b.from
    &&& a.to == b.to
    &&& a.token == b.token
    &&& a.amount == b.amount
    &&& a.interval == b.interval
}

proof fn lemma_step_valid(s: EscrowState, call: EscrowCall)
    requires
        s.valid(),
    ensures
        step(s, call).valid(),
        step(s, call).payments.len() >= s.payments.len(),
        step(s, call).auto_pays.len() >= s.auto_pays.len(),
{
    match call {
        EscrowCall::SchedulePayment { from, to, amount, release_at, now } => {
            lemma_schedule_reserves_funds(s, from, to, amount, release_at, now);
        },
        EscrowCall::ExecuteScheduled { id, now } => {
            lemma_execute_pays_the_reservation(s, id, now);
        },
        EscrowCall::SetupAutoPay { from, to, amount, interval } => {
            lemma_setup_moves_no_funds(s, from, to, amount, interval);
        },
        EscrowCall::TriggerAutoPay { id, now } => {
            lemma_trigger_debits_the_source(s, id, now);
        },
    }
}

proof fn lemma_step_payment(s: EscrowState, call: EscrowCall, j: u32)
    requires
        s.valid(),
        s.payment(j) is Some,
    ensures
        step(s, call).payment(j) is Some,
        same_payment_terms(s.payment(j)->Some_0, step(s, call).payment(j)->Some_0),
        s.payment(j)->Some_0.executed ==> step(s, call).payment(j)->Some_0.executed,
{
    match call {
        EscrowCall::SchedulePayment { from, to, amount, release_at, now } => {
            lemma_schedule_reserves_funds(s, from, to, amount, release_at, now);
        },
        EscrowCall::ExecuteScheduled { id, now } => {
            lemma_execute_pays_the_reservation(s, id, now);
        },
        EscrowCall::SetupAutoPay { from, to, amount, interval } => {
            lemma_setup_moves_no_funds(s, from, to, amount, interval);
        },
        EscrowCall::TriggerAutoPay { id, now } => {
            lemma_trigger_debits_the_source(s, id, now);
        },
    }
}

proof fn lemma_step_rule(s: EscrowState, call: EscrowCall, j: u32)
    requires
        s.valid(),
        s.auto_pay(j) is Some,
    ensures
        step(s, call).auto_pay(j) is Some,
        same_rule_terms(s.auto_pay(j)->Some_0, step(s, call).auto_pay(j)->Some_0),
        step(s, call).auto_pay(j)->Some_0.last_paid >= s.auto_pay(j)->Some_0.last_paid,
{
    match call {
        EscrowCall::SchedulePayment { from, to, amount, release_at, now } => {
            lemma_schedule_reserves_funds(s, from, to, amount, release_at, now);
        },
        EscrowCall::ExecuteScheduled { id, now } => {
            lemma_execute_pays_the_reservation(s, id, now);
        },
        EscrowCall::SetupAutoPay { from, to, amount, interval } => {
            lemma_setup_moves_no_funds(s, from, to, amount, interval);
        },
        EscrowCall::TriggerAutoPay { id, now } => {
            lemma_trigger_debits_the_source(s, id, now);
        },
    }
}

proof fn lemma_step_vault(s: EscrowState, call: EscrowCall, f: Seq<u8>)
    requires
        s.valid(),
    ensures
        step(s, call).vaults.contains_key(f) == s.vaults.contains_key(f),
        s.vaults.contains_key(f) ==> {
            &&& step(s, call).vaults[f].owner == s.vaults[f].owner
            &&& step(s, call).vaults[f].token == s.vaults[f].token
            &&& step(s, call).vaults[f].balance == s.vaults[f].balance - debit(s, call, f)
        },
{
    match call {
        EscrowCall::SchedulePayment { from, to, amount, release_at, now } => {
            lemma_schedule_reserves_funds(s, from, to, amount, release_at, now);
            if f != from@ {
                let t = step(s, call);
                assert(t.vault(f) == s.vault(f));
            }
        },
        EscrowCall::ExecuteScheduled { id, now } => {
            lemma_execute_pays_the_reservation(s, id, now);
        },
        EscrowCall::SetupAutoPay { from, to, amount, interval } => {
            lemma_setup_moves_no_funds(s, from, to, amount, interval);
        },
        EscrowCall::TriggerAutoPay { id, now } => {
            lemma_trigger_debits_the_source(s, id, now);
            if let Ok((t, pay)) = s.trigger_auto_pay_spec(id, now) {
                if f != pay.from@ {
                    assert(t.vault(f) == s.vault(f));
                }
            }
        },
    }
}

/// Any sequence of calls keeps the state valid, and never shrinks the lists
/// of payments and rules.
pub proof fn lemma_run_valid(s: EscrowState, calls: Seq<EscrowCall>)
    requires
        s.valid(),
    ensures
        run(s, calls).valid(),
        run(s, calls).payments.len() >= s.payments.len(),
        run(s, calls).auto_pays.len() >= s.auto_pays.len(),
    decreases calls.len(),
{
    if calls.len() > 0 {
        lemma_run_valid(s, calls.drop_last());
        lemma_step_valid(run(s, calls.drop_last()), calls.last());
    }
}

/// A scheduled payment keeps its terms through any sequence of calls, and
/// once paid it stays paid.
pub proof fn lemma_run_keeps_payment(s: EscrowState, calls: Seq<EscrowCall>, j: u32)
    requires
        s.valid(),
        s.payment(j) is Some,
    ensures
        run(s, calls).payment(j) is Some,
        same_payment_terms(s.payment(j)->Some_0, run(s, calls).payment(j)->Some_0),
        s.payment(j)->Some_0.executed ==> run(s, calls).payment(j)->Some_0.executed,
    decreases calls.len(),
{
    if calls.len() > 0 {
        lemma_run_keeps_payment(s, calls.drop_last(), j);
        lemma_run_valid(s, calls.drop_last());
        lemma_step_payment(run(s, calls.drop_last()), calls.last(), j);
    }
}

/// A recurring rule keeps its terms through any sequence of calls, and its
/// last payment time never goes back.
pub proof fn lemma_run_keeps_rule(s: EscrowState, calls: Seq<EscrowCall>, j: u32)
    requires
        s.valid(),
        s.auto_pay(j) is Some,
    ensures
        run(s, calls).auto_pay(j) is Some,
        same_rule_terms(s.auto_pay(j)->Some_0, run(s, calls).auto_pay(j)->Some_0),
        run(s, calls).auto_pay(j)->Some_0.last_paid >= s.auto_pay(j)->Some_0.last_paid,
    decreases calls.len(),
{
    if calls.len() > 0 {
        lemma_run_keeps_rule(s, calls.drop_last(), j);
        lemma_run_valid(s, calls.drop_last());
        lemma_step_rule(run(s, calls.drop_last()), calls.last(), j);
    }
}

/// Over any sequence of calls, no vault appears or disappears, owners and
/// tokens stay, and each vault's balance drops by exactly what the calls
/// scheduled from it and paid from it as recurring payments; executing a
/// scheduled payment takes nothing more.
pub proof fn lemma_run_debits(s: EscrowState, calls: Seq<EscrowCall>, f: Seq<u8>)
    requires
        s.valid(),
    ensures
        run(s, calls).vaults.contains_key(f) == s.vaults.contains_key(f),
        s.vaults.contains_key(f) ==> {
            &&& run(s, calls).vaults[f].owner == s.vaults[f].owner
            &&& run(s, calls).vaults[f].token == s.vaults[f].token
            &&& run(s, calls).vaults[f].balance == s.vaults[f].balance - total_debit(s, calls, f)
        },
    decreases calls.len(),
{
    if calls.len() > 0 {
        lemma_run_debits(s, calls.drop_last(), f);
        lemma_run_valid(s, calls.drop_last());
        lemma_step_vault(run(s, calls.drop_last()), calls.last(), f);
    }
}

/// A payment number is never given twice: a payment scheduled under `id1`
/// keeps its terms through any later calls, and a later scheduling gets
/// another number.
pub proof fn lemma_payment_numbers_never_reused(
    s: EscrowState,
    from: [u8; 32],
    to: [u8; 32],
    amount: i128,
    release_at: u64,
    now: u64,
    calls: Seq<EscrowCall>,
    from2: [u8; 32],
    to2: [u8; 32],
    amount2: i128,
    release_at2: u64,
    now2: u64,
)
    requires
        s.valid(),
        s.schedule_payment_spec(from, to, amount, release_at, now) is Ok,
    ensures
        ({
            let (t, id1) = s.schedule_payment_spec(from, to, amount, release_at, now)->Ok_0;
            let u = run(t, calls);
            &&& u.payment(id1) is Some
            &&& same_payment_terms(t.payment(id1)->Some_0, u.payment(id1)->Some_0)
            &&& u.schedule_payment_spec(from2, to2, amount2, release_at2, now2) matches Ok((_, id2))
                ==> id2 != id1
        }),
{
    let (t, id1) = s.schedule_payment_spec(from, to, amount, release_at, now)->Ok_0;
    lemma_schedule_reserves_funds(s, from, to, amount, release_at, now);
    lemma_run_keeps_payment(t, calls, id1);
    lemma_run_valid(t, calls);
}

/// A rule number is never given twice: a rule set up under `id1` keeps its
/// terms through any later calls, and a later setup gets another number.
pub proof fn lemma_rule_numbers_never_reused(
    s: EscrowState,
    from: [u8; 32],
    to: [u8; 32],
    amount: i128,
    interval: u64,
    calls: Seq<EscrowCall>,
    from2: [u8; 32],
    to2: [u8; 32],
    amount2: i128,
    interval2: u64,
)
    requires
        s.valid(),
        s.setup_auto_pay_spec(from, to, amount, interval) is Ok,
    ensures
        ({
            let (t, id1) = s.setup_auto_pay_spec(from, to, amount, interval)->Ok_0;
            let u = run(t, calls);
            &&& u.auto_pay(id1) is Some
            &&& same_rule_terms(t.auto_pay(id1)->Some_0, u.auto_pay(id1)->Some_0)
            &&& u.setup_auto_pay_spec(from2, to2, amount2, interval2) matches Ok((_, id2)) ==> id2
                != id1
        }),
{
    let (t, id1) = s.setup_auto_pay_spec(from, to, amount, interval)->Ok_0;
    lemma_setup_moves_no_funds(s, from, to, amount, interval);
    lemma_run_keeps_rule(t, calls, id1);
    lemma_run_valid(t, calls);
}

/// A scheduled payment is paid at most once, whatever is called in between:
/// after it is executed, every later attempt is refused with
/// `PaymentAlreadyExecuted`.
pub proof fn lemma_paid_at_most_once(
    s: EscrowState,
    id: u32,
    now: u64,
    calls: Seq<EscrowCall>,
    later: u64,
)
    requires
        s.valid(),
        s.execute_scheduled_spec(id, now) is Ok,
    ensures
        run(s.execute_scheduled_spec(id, now)->Ok_0.0, calls).execute_scheduled_spec(id, later)
            == Err::<(EscrowState, Payout), EscrowError>(EscrowError::PaymentAlreadyExecuted),
{
    let t = s.execute_scheduled_spec(id, now)->Ok_0.0;
    lemma_execute_pays_the_reservation(s, id, now);
    lemma_run_keeps_payment(t, calls, id);
}

/// Two payouts of one rule are at least its interval apart, whatever is
/// called in between: after the rule is paid at `now`, it is paid again
/// only at a time no earlier than `now + interval`.
pub proof fn lemma_payouts_an_interval_apart(
    s: EscrowState,
    id: u32,
    now: u64,
    calls: Seq<EscrowCall>,
    later: u64,
)
    requires
        s.valid(),
        s.trigger_auto_pay_spec(id, now) is Ok,
        run(s.trigger_auto_pay_spec(id, now)->Ok_0.0, calls).trigger_auto_pay_spec(id, later) is Ok,
    ensures
        later >= now + s.auto_pay(id)->Some_0.interval,
{
    let t = s.trigger_auto_pay_spec(id, now)->Ok_0.0;
    lemma_trigger_debits_the_source(s, id, now);
    lemma_run_keeps_rule(t, calls, id);
}

/// Scheduling debits the source vault once and executing does not debit it
/// again: after a payment of `amount` is scheduled from `from` and any
/// calls follow, the vault's balance is its balance before scheduling, less
/// `amount`, less what those calls took from it; and when the payment is
/// then executed, the payout is `amount` of the vault's token, to the owner
/// of the destination vault, with no balance changing.
pub proof fn lemma_debited_once_paid_once(
    s: EscrowState,
    from: [u8; 32],
    to: [u8; 32],
    amount: i128,
    release_at: u64,
    now: u64,
    calls: Seq<EscrowCall>,
    later: u64,
)
    requires
        s.valid(),
        s.schedule_payment_spec(from, to, amount, release_at, now) is Ok,
    ensures
        ({
            let (t, id) = s.schedule_payment_spec(from, to, amount, release_at, now)->Ok_0;
            let u = run(t, calls);
            &&& u.vaults.contains_key(from@)
            &&& u.vaults[from@].balance == s.vaults[from@].balance - amount - total_debit(
                t,
                calls,
                from@,
            )
            &&& u.execute_scheduled_spec(id, later) matches Ok((w, pay)) ==> {
                &&& pay.amount == amount
                &&& pay.token == s.vaults[from@].token
                &&& pay.recipient == u.vaults[to@].owner
                &&& later >= release_at
                &&& w.vaults == u.vaults
            }
        }),
{
    let (t, id) = s.schedule_payment_spec(from, to, amount, release_at, now)->Ok_0;
    lemma_schedule_reserves_funds(s, from, to, amount, release_at, now);
    lemma_run_debits(t, calls, from@);
    lemma_run_keeps_payment(t, calls, id);
    lemma_run_valid(t, calls);
    lemma_execute_pays_the_reservation(run(t, calls), id, later);
}

} // verus!
