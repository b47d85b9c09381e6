//! What the escrow's entry points promise together, stated over the
//! outcomes their contracts are written in.
use crate::escrow::EscrowState;
use crate::escrow_types::{AutoPay, EscrowError, Payout, ScheduledPayment, Vault};
use vstd::prelude::*;

verus! {

/// Scheduling reserves the funds at once: the source vault's balance drops
/// by exactly the amount and stays non-negative, no other vault changes, and
/// the payment is recorded, unexecuted and in the vault's token, under a
/// number that was free, leaving every other payment and rule as it was.
pub proof fn lemma_schedule_reserves_funds(
    s: EscrowState,
    from: [u8; 32],
    to: [u8; 32],
    amount: i128,
    release_at: u64,
    now: u64,
)
    requires
        s.valid(),
    ensures
        s.schedule_payment_spec(from, to, amount, release_at, now) matches Ok((t, id)) ==> {
            let v = s.vaults[from@];
            &&& s.vaults.contains_key(from@)
            &&& t.vaults.contains_key(from@)
            &&& t.vaults[from@].balance + amount == v.balance
            &&& t.vaults[from@].balance >= 0
            &&& t.vaults[from@].owner == v.owner
            &&& t.vaults[from@].token == v.token
            &&& forall|k: Seq<u8>| k != from@ ==> #[trigger] t.vault(k) == s.vault(k)
            &&& s.payment(id) is None
            &&& t.payment(id) == Some(
                ScheduledPayment { from, to, token: v.token, amount, release_at, executed: false },
            )
            &&& forall|j: u32| j != id ==> #[trigger] t.payment(j) == s.payment(j)
            &&& t.auto_pays == s.auto_pays
            &&& t.valid()
        },
{
    if let Ok((t, id)) = s.schedule_payment_spec(from, to, amount, release_at, now) {
        assert forall|j: u32| j != id implies #[trigger] t.payment(j) == s.payment(j) by {
            if 1 <= j && j <= s.payments.len() {
                assert(t.payments[j - 1] == s.payments[j - 1]);
            }
        }
        assert forall|i: int| 0 <= i < t.payments.len() implies #[trigger] t.payments[i].amount
            > 0 by {
            if i < s.payments.len() {
                assert(t.payments[i] == s.payments[i]);
            }
        }
    }
}

/// Payment numbers are handed out in order: the `n`-th payment scheduled
/// gets number `n`, so a number is never reused.
pub proof fn lemma_payment_numbers_in_order(
    s: EscrowState,
    from: [u8; 32],
    to: [u8; 32],
    amount: i128,
    release_at: u64,
    now: u64,
)
    ensures
        s.schedule_payment_spec(from, to, amount, release_at, now) matches Ok((t, id)) ==> id
            == s.payments.len() + 1 && t.payments.len() == s.payments.len() + 1,
{
}

/// Scheduling needs the source vault owner's authorization: whenever the
/// request gets as far as the balance check, the authorizer named is that
/// owner, and a request refused before it is refused for the same reason.
pub proof fn lemma_schedule_authorized_by_owner(
    s: EscrowState,
    from: [u8; 32],
    to: [u8; 32],
    amount: i128,
    release_at: u64,
    now: u64,
)
    ensures
        s.schedule_payment_authorizer_spec(from, amount, release_at, now) matches Err(e) ==> s.schedule_payment_spec(
            from,
            to,
            amount,
            release_at,
            now,
        ) == Err::<(EscrowState, u32), EscrowError>(e),
        s.schedule_payment_authorizer_spec(from, amount, release_at, now) matches Ok(owner) ==> {
            &&& s.vaults.contains_key(from@)
            &&& owner == s.vaults[from@].owner
        },
        s.schedule_payment_spec(from, to, amount, release_at, now) is Ok ==> s.schedule_payment_authorizer_spec(
            from,
            amount,
            release_at,
            now,
        ) is Ok,
{
}

/// Setting up a recurring payment needs the source vault owner's
/// authorization, in the same way as scheduling one.
pub proof fn lemma_setup_authorized_by_owner(
    s: EscrowState,
    from: [u8; 32],
    to: [u8; 32],
    amount: i128,
    interval: u64,
)
    ensures
        s.setup_auto_pay_authorizer_spec(from, amount, interval) matches Err(e) ==> s.setup_auto_pay_spec(
            from,
            to,
            amount,
            interval,
        ) == Err::<(EscrowState, u32), EscrowError>(e),
        s.setup_auto_pay_authorizer_spec(from, amount, interval) matches Ok(owner) ==> {
            &&& s.vaults.contains_key(from@)
            &&& owner == s.vaults[from@].owner
        },
        s.setup_auto_pay_spec(from, to, amount, interval) is Ok ==> s.setup_auto_pay_authorizer_spec(
            from,
            amount,
            interval,
        ) is Ok,
{
}

/// Executing pays out only what was reserved: no vault balance and no rule
/// changes, the payout is the payment's amount and token, sent to the owner
/// of the destination vault, no earlier than the release time, and the only
/// change is that payment being marked executed.
pub proof fn lemma_execute_pays_the_reservation(s: EscrowState, id: u32, now: u64)
    requires
        s.valid(),
    ensures
        s.execute_scheduled_spec(id, now) matches Ok((t, pay)) ==> {
            let p = s.payment(id)->Some_0;
            &&& s.payment(id) is Some
            &&& !p.executed
            &&& p.release_at <= now
            &&& s.vaults.contains_key(p.to@)
            &&& pay == Payout {
                token: p.token,
                recipient: s.vaults[p.to@].owner,
                amount: p.amount,
                from: p.from,
                to: p.to,
            }
            &&& pay.amount > 0
            &&& t.vaults == s.vaults
            &&& t.auto_pays == s.auto_pays
            &&& t.payment(id) == Some(ScheduledPayment { executed: true, ..p })
            &&& forall|j: u32| j != id ==> #[trigger] t.payment(j) == s.payment(j)
            &&& t.valid()
        },
{
    if let Ok((t, pay)) = s.execute_scheduled_spec(id, now) {
        assert(s.payments[id - 1].amount > 0);
        assert forall|j: u32| j != id implies #[trigger] t.payment(j) == s.payment(j) by {
            if 1 <= j && j <= s.payments.len() {
                assert(t.payments[j - 1] == s.payments[j - 1]);
            }
        }
        assert forall|i: int| 0 <= i < t.payments.len() implies #[trigger] t.payments[i].amount
            > 0 by {
            assert(s.payments[i].amount > 0);
        }
    }
}

/// A scheduled payment is paid at most once: after it is executed, every
/// further attempt is refused with `PaymentAlreadyExecuted`.
pub proof fn lemma_execute_at_most_once(s: EscrowState, id: u32, now: u64, later: u64)
    requires
        s.execute_scheduled_spec(id, now) is Ok,
    ensures
        s.execute_scheduled_spec(id, now)->Ok_0.0.execute_scheduled_spec(id, later) == Err::<
            (EscrowState, Payout),
            EscrowError,
        >(EscrowError::PaymentAlreadyExecuted),
{
}

/// Setting up a recurring payment moves no funds: the vaults and scheduled
/// payments stay, and the rule is recorded, never paid, under the next
/// number, which was free.
pub proof fn lemma_setup_moves_no_funds(
    s: EscrowState,
    from: [u8; 32],
    to: [u8; 32],
    amount: i128,
    interval: u64,
)
    requires
        s.valid(),
    ensures
        s.setup_auto_pay_spec(from, to, amount, interval) matches Ok((t, id)) ==> {
            &&& t.vaults == s.vaults
            &&& t.payments == s.payments
            &&& s.auto_pay(id) is None
            &&& id == s.auto_pays.len() + 1
            &&& t.auto_pay(id) == Some(
                AutoPay {
                    from,
                    to,
                    token: s.vaults[from@].token,
                    amount,
                    interval,
                    last_paid: 0,
                },
            )
            &&& forall|j: u32| j != id ==> #[trigger] t.auto_pay(j) == s.auto_pay(j)
            &&& t.valid()
        },
{
    if let Ok((t, id)) = s.setup_auto_pay_spec(from, to, amount, interval) {
        assert forall|j: u32| j != id implies #[trigger] t.auto_pay(j) == s.auto_pay(j) by {
            if 1 <= j && j <= s.auto_pays.len() {
                assert(t.auto_pays[j - 1] == s.auto_pays[j - 1]);
            }
        }
        assert forall|i: int| 0 <= i < t.auto_pays.len() implies #[trigger] t.auto_pays[i].amount
            > 0 && t.auto_pays[i].interval > 0 by {
            if i < s.auto_pays.len() {
                assert(t.auto_pays[i] == s.auto_pays[i]);
            }
        }
    }
}

/// A recurring payment debits its source vault by exactly its amount,
/// without overdrawing it, records the time as its last payment, and sends
/// the amount to the destination vault's owner; no other vault, rule or
/// scheduled payment changes.
pub proof fn lemma_trigger_debits_the_source(s: EscrowState, id: u32, now: u64)
    requires
        s.valid(),
    ensures
        s.trigger_auto_pay_spec(id, now) matches Ok((t, pay)) ==> {
            let a = s.auto_pay(id)->Some_0;
            &&& s.auto_pay(id) is Some
            &&& a.last_paid + a.interval <= now
            &&& s.vaults.contains_key(a.from@)
            &&& s.vaults.contains_key(a.to@)
            &&& t.vaults.contains_key(a.from@)
            &&& t.vaults[a.from@].balance + a.amount == s.vaults[a.from@].balance
            &&& t.vaults[a.from@].balance >= 0
            &&& forall|k: Seq<u8>| k != a.from@ ==> #[trigger] t.vault(k) == s.vault(k)
            &&& pay == Payout {
                token: a.token,
                recipient: s.vaults[a.to@].owner,
                amount: a.amount,
                from: a.from,
                to: a.to,
            }
            &&& t.auto_pay(id) == Some(AutoPay { last_paid: now, ..a })
            &&& forall|j: u32| j != id ==> #[trigger] t.auto_pay(j) == s.auto_pay(j)
            &&& t.payments == s.payments
            &&& t.valid()
        },
{
    if let Ok((t, pay)) = s.trigger_auto_pay_spec(id, now) {
        assert(s.auto_pays[id - 1].amount > 0);
        assert forall|j: u32| j != id implies #[trigger] t.auto_pay(j) == s.auto_pay(j) by {
            if 1 <= j && j <= s.auto_pays.len() {
                assert(t.auto_pays[j - 1] == s.auto_pays[j - 1]);
            }
        }
        assert forall|i: int| 0 <= i < t.auto_pays.len() implies #[trigger] t.auto_pays[i].amount
            > 0 && t.auto_pays[i].interval > 0 by {
            assert(s.auto_pays[i].amount > 0 && s.auto_pays[i].interval > 0);
        }
    }
}

/// A recurring payment fires at most once per interval: after it is paid at
/// `now`, triggering it again before `now + interval` is refused with
/// `IntervalNotElapsed`.
pub proof fn lemma_trigger_at_most_once_per_interval(s: EscrowState, id: u32, now: u64, later: u64)
    requires
        s.trigger_auto_pay_spec(id, now) is Ok,
        later < now + s.auto_pay(id)->Some_0.interval,
    ensures
        s.trigger_auto_pay_spec(id, now)->Ok_0.0.trigger_auto_pay_spec(id, later) == Err::<
            (EscrowState, Payout),
            EscrowError,
        >(EscrowError::IntervalNotElapsed),
{
}

/// Every entry point keeps the state valid, and a refused request changes
/// nothing (the exec contracts say the latter; this says the former).
pub proof fn lemma_entry_points_keep_validity(
    s: EscrowState,
    from: [u8; 32],
    to: [u8; 32],
    amount: i128,
    release_at: u64,
    interval: u64,
    id: u32,
    now: u64,
)
    requires
        s.valid(),
    ensures
        s.schedule_payment_spec(from, to, amount, release_at, now) matches Ok((t, _)) ==> t.valid(),
        s.execute_scheduled_spec(id, now) matches Ok((t, _)) ==> t.valid(),
        s.setup_auto_pay_spec(from, to, amount, interval) matches Ok((t, _)) ==> t.valid(),
        s.trigger_auto_pay_spec(id, now) matches Ok((t, _)) ==> t.valid(),
{
    lemma_schedule_reserves_funds(s, from, to, amount, release_at, now);
    lemma_execute_pays_the_reservation(s, id, now);
    lemma_setup_moves_no_funds(s, from, to, amount, interval);
    lemma_trigger_debits_the_source(s, id, now);
}

/// A read gives back what a write wrote: after storing `vault` under
/// `commitment`, reading that commitment yields `vault`, reading any other
/// yields what it did before, and no payment or rule changes.
pub proof fn lemma_read_after_write(
    s: EscrowState,
    commitment: [u8; 32],
    vault: Vault,
    other: Seq<u8>,
)
    ensures
        (EscrowState { vaults: s.vaults.insert(commitment@, vault), ..s }).vault(commitment@)
            == Some(vault),
        other != commitment@ ==> (EscrowState {
            vaults: s.vaults.insert(commitment@, vault),
            ..s
        }).vault(other) == s.vault(other),
        (EscrowState { vaults: s.vaults.insert(commitment@, vault), ..s }).payments == s.payments,
        (EscrowState { vaults: s.vaults.insert(commitment@, vault), ..s }).auto_pays
            == s.auto_pays,
{
}

/// What the unexecuted payments in `ps` hold reserved for vault `from`.
pub open spec fn reserved_for(ps: Seq<ScheduledPayment>, from: Seq<u8>) -> int
    decreases ps.len(),
{
    if ps.len() == 0 {
        0
    } else {
        reserved_for(ps.drop_last(), from) + reservation(ps.last(), from)
    }
}

/// What payment `p` holds reserved for vault `from`.
pub open spec fn reservation(p: ScheduledPayment, from: Seq<u8>) -> int {
    if p.from@ == from && !p.executed {
        p.amount as int
    } else {
        0
    }
}

/// The funds committed to vault `from`: its free balance and what its
/// unexecuted scheduled payments hold reserved.
pub open spec fn committed(s: EscrowState, from: Seq<u8>) -> int {
    (match s.vault(from) {
        Some(v) => v.balance as int,
        None => 0,
    }) + reserved_for(s.payments, from)
}

proof fn lemma_reserved_push(ps: Seq<ScheduledPayment>, p: ScheduledPayment, from: Seq<u8>)
    ensures
        reserved_for(ps.push(p), from) == reserved_for(ps, from) + reservation(p, from),
{
    assert(ps.push(p).drop_last() =~= ps);
}

proof fn lemma_reserved_update(
    ps: Seq<ScheduledPayment>,
    i: int,
    p: ScheduledPayment,
    from: Seq<u8>,
)
    requires
        0 <= i < ps.len(),
    ensures
        reserved_for(ps.update(i, p), from) == reserved_for(ps, from) - reservation(ps[i], from)
            + reservation(p, from),
    decreases ps.len(),
{
    let qs = ps.update(i, p);
    if i == ps.len() - 1 {
        assert(qs.drop_last() =~= ps.drop_last());
    } else {
        lemma_reserved_update(ps.drop_last(), i, p, from);
        assert(qs.drop_last() =~= ps.drop_last().update(i, p));
    }
}

/// Funds leave a vault only as payouts: scheduling moves the amount from the
/// vault's balance into a reservation, so what is committed to every vault
/// stays; executing pays the reservation out, so the source vault's
/// commitment drops by exactly the payout; a recurring payment drops its
/// source's commitment by exactly its payout; setting up a rule moves
/// nothing. Every other vault's commitment is untouched.
pub proof fn lemma_funds_leave_only_as_payouts(
    s: EscrowState,
    from: [u8; 32],
    to: [u8; 32],
    amount: i128,
    release_at: u64,
    interval: u64,
    id: u32,
    now: u64,
    f: Seq<u8>,
)
    requires
        s.valid(),
    ensures
        s.schedule_payment_spec(from, to, amount, release_at, now) matches Ok((t, _)) ==> committed(
            t,
            f,
        ) == committed(s, f),
        s.setup_auto_pay_spec(from, to, amount, interval) matches Ok((t, _)) ==> committed(t, f)
            == committed(s, f),
        s.execute_scheduled_spec(id, now) matches Ok((t, pay)) ==> committed(t, f) == committed(
            s,
            f,
        ) - (if f == pay.from@ {
            pay.amount as int
        } else {
            0
        }),
        s.trigger_auto_pay_spec(id, now) matches Ok((t, pay)) ==> committed(t, f) == committed(
            s,
            f,
        ) - (if f == pay.from@ {
            pay.amount as int
        } else {
            0
        }),
{
    if let Ok((t, _)) = s.schedule_payment_spec(from, to, amount, release_at, now) {
        let p = ScheduledPayment {
            from,
            to,
            token: s.vaults[from@].token,
            amount,
            release_at,
            executed: false,
        };
        lemma_reserved_push(s.payments, p, f);
    }
    if let Ok((t, pay)) = s.execute_scheduled_spec(id, now) {
        let p = s.payments[id - 1];
        lemma_reserved_update(s.payments, id - 1, ScheduledPayment { executed: true, ..p }, f);
    }
    if let Ok((t, pay)) = s.trigger_auto_pay_spec(id, now) {
        assert(s.auto_pays[id - 1].amount > 0);
    }
}

/// When scheduling succeeds: exactly when the amount is positive, the
/// release time lies after `now`, the source vault exists and holds at least
/// the amount, and a payment number is still free. Nothing else counts: not
/// the destination, not the payments scheduled before, not their release
/// times.
pub proof fn lemma_schedule_succeeds_exactly_when(
    s: EscrowState,
    from: [u8; 32],
    to: [u8; 32],
    amount: i128,
    release_at: u64,
    now: u64,
)
    requires
        s.valid(),
    ensures
        s.schedule_payment_spec(from, to, amount, release_at, now) is Ok <==> {
            &&& amount > 0
            &&& release_at > now
            &&& s.vaults.contains_key(from@)
            &&& s.vaults[from@].balance >= amount
            &&& s.payments.len() < u32::MAX
        },
{
}

/// When executing succeeds: exactly when the payment exists, has not been
/// paid, its release time has come and its destination vault exists. The
/// source vault's balance plays no part, since the amount was reserved when
/// the payment was scheduled.
pub proof fn lemma_execute_succeeds_exactly_when(s: EscrowState, id: u32, now: u64)
    requires
        s.valid(),
    ensures
        s.execute_scheduled_spec(id, now) is Ok <==> {
            &&& 1 <= id <= s.payments.len()
            &&& !s.payments[id - 1].executed
            &&& s.payments[id - 1].release_at <= now
            &&& s.vaults.contains_key(s.payments[id - 1].to@)
        },
{
}

/// When setting up a recurring payment succeeds: exactly when the amount and
/// the interval are positive, the source vault exists and a rule number is
/// still free. The vault's balance and the rules it already has play no
/// part.
pub proof fn lemma_setup_succeeds_exactly_when(
    s: EscrowState,
    from: [u8; 32],
    to: [u8; 32],
    amount: i128,
    interval: u64,
)
    requires
        s.valid(),
    ensures
        s.setup_auto_pay_spec(from, to, amount, interval) is Ok <==> {
            &&& amount > 0
            &&& interval > 0
            &&& s.vaults.contains_key(from@)
            &&& s.auto_pays.len() < u32::MAX
        },
{
}

/// When triggering a recurring payment succeeds: exactly when the rule
/// exists, at least its interval has passed since its last payment (however
/// much more), its source vault exists and holds at least the amount, and
/// its destination vault exists.
pub proof fn lemma_trigger_succeeds_exactly_when(s: EscrowState, id: u32, now: u64)
    requires
        s.valid(),
    ensures
        s.trigger_auto_pay_spec(id, now) is Ok <==> {
            &&& 1 <= id <= s.auto_pays.len()
            &&& s.auto_pays[id - 1].last_paid + s.auto_pays[id - 1].interval <= now
            &&& s.vaults.contains_key(s.auto_pays[id - 1].from@)
            &&& s.vaults[s.auto_pays[id - 1].from@].balance >= s.auto_pays[id - 1].amount
            &&& s.vaults.contains_key(s.auto_pays[id - 1].to@)
        },
{
}

/// Which error a refused scheduling reports: the first of a non-positive
/// amount, a release time not after `now`, a missing source vault, a balance
/// below the amount, and no payment number left.
pub proof fn lemma_schedule_errors(
    s: EscrowState,
    from: [u8; 32],
    to: [u8; 32],
    amount: i128,
    release_at: u64,
    now: u64,
)
    ensures
        ({
            let r = s.schedule_payment_spec(from, to, amount, release_at, now);
            &&& amount <= 0 ==> r == Err::<(EscrowState, u32), EscrowError>(
                EscrowError::InvalidAmount,
            )
            &&& amount > 0 && release_at <= now ==> r == Err::<(EscrowState, u32), EscrowError>(
                EscrowError::PastReleaseTime,
            )
            &&& amount > 0 && release_at > now && !s.vaults.contains_key(from@) ==> r == Err::<
                (EscrowState, u32),
                EscrowError,
            >(EscrowError::VaultNotFound)
            &&& amount > 0 && release_at > now && s.vaults.contains_key(from@)
                && s.vaults[from@].balance < amount ==> r == Err::<(EscrowState, u32), EscrowError>(
                EscrowError::InsufficientBalance,
            )
            &&& amount > 0 && release_at > now && s.vaults.contains_key(from@)
                && s.vaults[from@].balance >= amount && s.payments.len() >= u32::MAX ==> r == Err::<
                (EscrowState, u32),
                EscrowError,
            >(EscrowError::PaymentCounterOverflow)
        }),
{
}

/// Which error a refused execution reports: the first of an unknown number,
/// a payment already paid, a release time still ahead, and a missing
/// destination vault.
pub proof fn lemma_execute_errors(s: EscrowState, id: u32, now: u64)
    ensures
        ({
            let r = s.execute_scheduled_spec(id, now);
            &&& !(1 <= id <= s.payments.len()) ==> r == Err::<(EscrowState, Payout), EscrowError>(
                EscrowError::PaymentNotFound,
            )
            &&& 1 <= id <= s.payments.len() && s.payments[id - 1].executed ==> r == Err::<
                (EscrowState, Payout),
                EscrowError,
            >(EscrowError::PaymentAlreadyExecuted)
            &&& 1 <= id <= s.payments.len() && !s.payments[id - 1].executed && now
                < s.payments[id - 1].release_at ==> r == Err::<(EscrowState, Payout), EscrowError>(
                EscrowError::PaymentNotYetDue,
            )
            &&& 1 <= id <= s.payments.len() && !s.payments[id - 1].executed
                && s.payments[id - 1].release_at <= now && !s.vaults.contains_key(
                s.payments[id - 1].to@,
            ) ==> r == Err::<(EscrowState, Payout), EscrowError>(EscrowError::VaultNotFound)
        }),
{
}

/// Which error a refused setup reports: the first of a non-positive amount,
/// a zero interval, a missing source vault, and no rule number left.
pub proof fn lemma_setup_errors(
    s: EscrowState,
    from: [u8; 32],
    to: [u8; 32],
    amount: i128,
    interval: u64,
)
    ensures
        ({
            let r = s.setup_auto_pay_spec(from, to, amount, interval);
            &&& amount <= 0 ==> r == Err::<(EscrowState, u32), EscrowError>(
                EscrowError::InvalidAmount,
            )
            &&& amount > 0 && interval == 0 ==> r == Err::<(EscrowState, u32), EscrowError>(
                EscrowError::InvalidInterval,
            )
            &&& amount > 0 && interval > 0 && !s.vaults.contains_key(from@) ==> r == Err::<
                (EscrowState, u32),
                EscrowError,
            >(EscrowError::VaultNotFound)
            &&& amount > 0 && interval > 0 && s.vaults.contains_key(from@) && s.auto_pays.len()
                >= u32::MAX ==> r == Err::<(EscrowState, u32), EscrowError>(
                EscrowError::AutoPayCounterOverflow,
            )
        }),
{
}

/// Which error a refused trigger reports: the first of an unknown number, an
/// interval not yet elapsed since the last payment, a missing source vault,
/// a source balance below the amount, and a missing destination vault.
pub proof fn lemma_trigger_errors(s: EscrowState, id: u32, now: u64)
    ensures
        ({
            let r = s.trigger_auto_pay_spec(id, now);
            let a = s.auto_pays[id - 1];
            &&& !(1 <= id <= s.auto_pays.len()) ==> r == Err::<(EscrowState, Payout), EscrowError>(
                EscrowError::AutoPayNotFound,
            )
            &&& 1 <= id <= s.auto_pays.len() && now < a.last_paid + a.interval ==> r == Err::<
                (EscrowState, Payout),
                EscrowError,
            >(EscrowError::IntervalNotElapsed)
            &&& 1 <= id <= s.auto_pays.len() && a.last_paid + a.interval <= now
                && !s.vaults.contains_key(a.from@) ==> r == Err::<(EscrowState, Payout), EscrowError>(
                EscrowError::VaultNotFound,
            )
            &&& 1 <= id <= s.auto_pays.len() && a.last_paid + a.interval <= now
                && s.vaults.contains_key(a.from@) && s.vaults[a.from@].balance < a.amount ==> r
                == Err::<(EscrowState, Payout), EscrowError>(EscrowError::InsufficientBalance)
            &&& 1 <= id <= s.auto_pays.len() && a.last_paid + a.interval <= now
                && s.vaults.contains_key(a.from@) && s.vaults[a.from@].balance >= a.amount
                && !s.vaults.contains_key(a.to@) ==> r == Err::<(EscrowState, Payout), EscrowError>(
                EscrowError::VaultNotFound,
            )
        }),
{
}

} // verus!
