use crate::address::Address;
use crate::escrow_types::{AutoPay, EscrowError, Payout, ScheduledPayment, Vault};
use crate::vault_table::{
    find_vault, keys_distinct, lemma_absent, lemma_lookup, lemma_push, lemma_update, vault_map,
};
use vstd::prelude::*;

verus! {

/// What the escrow holds, as its entry points see it: the vaults by
/// commitment, the scheduled payments (payment `n` is the `n`-th one
/// scheduled, counting from 1) and the recurring payments (numbered the
/// same way).
pub struct EscrowState {
    pub vaults: Map<Seq<u8>, Vault>,
    pub payments: Seq<ScheduledPayment>,
    pub auto_pays: Seq<AutoPay>,
}

impl EscrowState {
    pub open spec fn vault(self, commitment: Seq<u8>) -> Option<Vault> {
        if self.vaults.contains_key(commitment) {
            Some(self.vaults[commitment])
        } else {
            None
        }
    }

    pub open spec fn payment(self, id: u32) -> Option<ScheduledPayment> {
        if 1 <= id && id <= self.payments.len() {
            Some(self.payments[id - 1])
        } else {
            None
        }
    }

    pub open spec fn auto_pay(self, id: u32) -> Option<AutoPay> {
        if 1 <= id && id <= self.auto_pays.len() {
            Some(self.auto_pays[id - 1])
        } else {
            None
        }
    }

    /// What every state reached through the entry points satisfies: the
    /// numbers fit the counters, and every payment and rule moves a positive
    /// amount (a rule at a positive interval).
    pub open spec fn valid(self) -> bool {
        &&& self.payments.len() <= u32::MAX
        &&& self.auto_pays.len() <= u32::MAX
        &&& forall|i: int| 0 <= i < self.payments.len() ==> #[trigger] self.payments[i].amount > 0
        &&& forall|i: int|
            0 <= i < self.auto_pays.len() ==> #[trigger] self.auto_pays[i].amount > 0
                && self.auto_pays[i].interval > 0
    }

    /// The owner whose authorization scheduling a payment needs, once the
    /// request itself is well formed and the source vault exists.
    pub open spec fn schedule_payment_authorizer_spec(
        self,
        from: [u8; 32],
        amount: i128,
        release_at: u64,
        now: u64,
    ) -> Result<Address, EscrowError> {
        if amount <= 0 {
            Err(EscrowError::InvalidAmount)
        } else if release_at <= now {
            Err(EscrowError::PastReleaseTime)
        } else {
            match self.vault(from@) {
                None => Err(EscrowError::VaultNotFound),
                Some(v) => Ok(v.owner),
            }
        }
    }

    /// Outcome of scheduling `amount` from vault `from` to vault `to`, due at
    /// `release_at`, at ledger time `now`, the owner having authorized it.
    pub open spec fn schedule_payment_spec(
        self,
        from: [u8; 32],
        to: [u8; 32],
        amount: i128,
        release_at: u64,
        now: u64,
    ) -> Result<(EscrowState, u32), EscrowError> {
        match self.schedule_payment_authorizer_spec(from, amount, release_at, now) {
            Err(e) => Err(e),
            Ok(_) => {
                let v = self.vaults[from@];
                if v.balance < amount {
                    Err(EscrowError::InsufficientBalance)
                } else if self.payments.len() >= u32::MAX {
                    Err(EscrowError::PaymentCounterOverflow)
                } else {
                    Ok(
                        (
                            EscrowState {
                                vaults: self.vaults.insert(
                                    from@,
                                    Vault { balance: (v.balance - amount) as i128, ..v },
                                ),
                                payments: self.payments.push(
                                    ScheduledPayment {
                                        from,
                                        to,
                                        token: v.token,
                                        amount,
                                        release_at,
                                        executed: false,
                                    },
                                ),
                                ..self
                            },
                            (self.payments.len() + 1) as u32,
                        ),
                    )
                }
            },
        }
    }

    /// Outcome of executing payment `id` at ledger time `now`.
    pub open spec fn execute_scheduled_spec(self, id: u32, now: u64) -> Result<
        (EscrowState, Payout),
        EscrowError,
    > {
        match self.payment(id) {
            None => Err(EscrowError::PaymentNotFound),
            Some(p) => if p.executed {
                Err(EscrowError::PaymentAlreadyExecuted)
            } else if now < p.release_at {
                Err(EscrowError::PaymentNotYetDue)
            } else {
                match self.vault(p.to@) {
                    None => Err(EscrowError::VaultNotFound),
                    Some(dest) => Ok(
                        (
                            EscrowState {
                                payments: self.payments.update(
                                    id - 1,
                                    ScheduledPayment { executed: true, ..p },
                                ),
                                ..self
                            },
                            Payout {
                                token: p.token,
                                recipient: dest.owner,
                                amount: p.amount,
                                from: p.from,
                                to: p.to,
                            },
                        ),
                    ),
                }
            },
        }
    }

    /// The owner whose authorization setting up a recurring payment needs.
    pub open spec fn setup_auto_pay_authorizer_spec(
        self,
        from: [u8; 32],
        amount: i128,
        interval: u64,
    ) -> Result<Address, EscrowError> {
        if amount <= 0 {
            Err(EscrowError::InvalidAmount)
        } else if interval == 0 {
            Err(EscrowError::InvalidInterval)
        } else {
            match self.vault(from@) {
                None => Err(EscrowError::VaultNotFound),
                Some(v) => Ok(v.owner),
            }
        }
    }

    /// Outcome of registering a recurring payment of `amount` every
    /// `interval` seconds from vault `from` to vault `to`.
    pub open spec fn setup_auto_pay_spec(
        self,
        from: [u8; 32],
        to: [u8; 32],
        amount: i128,
        interval: u64,
    ) -> Result<(EscrowState, u32), EscrowError> {
        match self.setup_auto_pay_authorizer_spec(from, amount, interval) {
            Err(e) => Err(e),
            Ok(_) => if self.auto_pays.len() >= u32::MAX {
                Err(EscrowError::AutoPayCounterOverflow)
            } else {
                Ok(
                    (
                        EscrowState {
                            auto_pays: self.auto_pays.push(
                                AutoPay {
                                    from,
                                    to,
                                    token: self.vaults[from@].token,
                                    amount,
                                    interval,
                                    last_paid: 0,
                                },
                            ),
                            ..self
                        },
                        (self.auto_pays.len() + 1) as u32,
                    ),
                )
            },
        }
    }

    /// Outcome of triggering recurring payment `id` at ledger time `now`.
    pub open spec fn trigger_auto_pay_spec(self, id: u32, now: u64) -> Result<
        (EscrowState, Payout),
        EscrowError,
    > {
        match self.auto_pay(id) {
            None => Err(EscrowError::AutoPayNotFound),
            Some(a) => if now < a.last_paid + a.interval {
                Err(EscrowError::IntervalNotElapsed)
            } else {
                match self.vault(a.from@) {
                    None => Err(EscrowError::VaultNotFound),
                    Some(v) => if v.balance < a.amount {
                        Err(EscrowError::InsufficientBalance)
                    } else {
                        match self.vault(a.to@) {
                            None => Err(EscrowError::VaultNotFound),
                            Some(dest) => Ok(
                                (
                                    EscrowState {
                                        vaults: self.vaults.insert(
                                            a.from@,
                                            Vault { balance: (v.balance - a.amount) as i128, ..v },
                                        ),
                                        auto_pays: self.auto_pays.update(
                                            id - 1,
                                            AutoPay { last_paid: now, ..a },
                                        ),
                                        ..self
                                    },
                                    Payout {
                                        token: a.token,
                                        recipient: dest.owner,
                                        amount: a.amount,
                                        from: a.from,
                                        to: a.to,
                                    },
                                ),
                            ),
                        }
                    },
                }
            },
        }
    }

}

/// The stored state of the escrow contract.
pub struct EscrowContract {
    vaults: Vec<([u8; 32], Vault)>,
    payments: Vec<ScheduledPayment>,
    auto_pays: Vec<AutoPay>,
}

impl View for EscrowContract {
    type V = EscrowState;

    closed spec fn view(&self) -> EscrowState {
        EscrowState {
            vaults: vault_map(self.vaults@),
            payments: self.payments@,
            auto_pays: self.auto_pays@,
        }
    }
}

impl EscrowContract {
    /// The internal invariant: one entry per commitment, and a valid view.
    pub closed spec fn wf(&self) -> bool {
        &&& keys_distinct(self.vaults@)
        &&& self@.valid()
    }

    /// An escrow with no vaults and no payments.
    pub fn new() -> (e: EscrowContract)
        ensures
            e.wf(),
            e@.vaults == Map::<Seq<u8>, Vault>::empty(),
            e@.payments == Seq::<ScheduledPayment>::empty(),
            e@.auto_pays == Seq::<AutoPay>::empty(),
    {
        let e = EscrowContract { vaults: Vec::new(), payments: Vec::new(), auto_pays: Vec::new() };
        assert(e@.vaults =~= Map::<Seq<u8>, Vault>::empty());
        e
    }

    /// Rebuilds the escrow from its stored parts: the vault entries, the
    /// scheduled payments in number order and the rules in number order.
    /// Returns `None` when the parts could not have been stored by the
    /// escrow: two entries for one commitment, more than `u32::MAX` payments
    /// or rules, or a payment or rule with a non-positive amount or a rule
    /// with a zero interval.
    pub fn from_parts(
        vaults: Vec<([u8; 32], Vault)>,
        payments: Vec<ScheduledPayment>,
        auto_pays: Vec<AutoPay>,
    ) -> (r: Option<EscrowContract>)
        ensures
            r is Some <==> keys_distinct(vaults@) && (EscrowState {
                vaults: vault_map(vaults@),
                payments: payments@,
                auto_pays: auto_pays@,
            }).valid(),
            r matches Some(e) ==> e.wf() && e@ == (EscrowState {
                vaults: vault_map(vaults@),
                payments: payments@,
                auto_pays: auto_pays@,
            }),
    {
        if payments.len() > u32::MAX as usize || auto_pays.len() > u32::MAX as usize {
            return None;
        }
        let mut i: usize = 0;
        while i < payments.len()
            invariant
                0 <= i <= payments.len(),
                forall|j: int| 0 <= j < i ==> #[trigger] payments@[j].amount > 0,
            decreases payments.len() - i,
        {
            if payments[i].amount <= 0 {
                return None;
            }
            assert(payments@[i as int].amount > 0);
            i = i + 1;
        }
        let mut i: usize = 0;
        while i < auto_pays.len()
            invariant
                0 <= i <= auto_pays.len(),
                forall|j: int|
                    0 <= j < i ==> #[trigger] auto_pays@[j].amount > 0 && auto_pays@[j].interval
                        > 0,
            decreases auto_pays.len() - i,
        {
            if auto_pays[i].amount <= 0 || auto_pays[i].interval == 0 {
                return None;
            }
            assert(auto_pays@[i as int].amount > 0 && auto_pays@[i as int].interval > 0);
            i = i + 1;
        }
        let mut i: usize = 0;
        while i < vaults.len()
            invariant
                0 <= i <= vaults.len(),
                forall|a: int, b: int|
                    #![trigger vaults@[a], vaults@[b]]
                    0 <= a < b < vaults.len() && a < i ==> vaults@[a].0@ != vaults@[b].0@,
            decreases vaults.len() - i,
        {
            let mut j: usize = i + 1;
            while j < vaults.len()
                invariant
                    i < vaults.len(),
                    i + 1 <= j <= vaults.len(),
                    forall|a: int, b: int|
                        #![trigger vaults@[a], vaults@[b]]
                        0 <= a < b < vaults.len() && a < i ==> vaults@[a].0@ != vaults@[b].0@,
                    forall|b: int| i < b < j ==> vaults@[i as int].0@ != #[trigger] vaults@[b].0@,
                decreases vaults.len() - j,
            {
                if crate::address::bytes32_eq(&vaults[i].0, &vaults[j].0) {
                    return None;
                }
                j = j + 1;
            }
            i = i + 1;
        }
        Some(EscrowContract { vaults, payments, auto_pays })
    }

    /// The escrow's parts, as `from_parts` takes them back.
    pub fn into_parts(self) -> (r: (Vec<([u8; 32], Vault)>, Vec<ScheduledPayment>, Vec<AutoPay>))
        requires
            self.wf(),
        ensures
            keys_distinct(r.0@),
            vault_map(r.0@) == self@.vaults,
            r.1@ == self@.payments,
            r.2@ == self@.auto_pays,
    {
        (self.vaults, self.payments, self.auto_pays)
    }

    /// A well-formed escrow has a valid view.
    pub proof fn lemma_wf_valid(&self)
        requires
            self.wf(),
        ensures
            self@.valid(),
    {
    }

    /// The vault stored under `commitment`, if any.
    pub fn read_vault(&self, commitment: &[u8; 32]) -> (r: Option<Vault>)
        requires
            self.wf(),
        ensures
            r == self@.vault(commitment@),
    {
        match find_vault(&self.vaults, commitment) {
            Some(i) => {
                proof {
                    lemma_lookup(self.vaults@, i as int);
                }
                Some(self.vaults[i].1)
            },
            None => {
                proof {
                    lemma_absent(self.vaults@, commitment@);
                }
                None
            },
        }
    }

    /// Stores `vault` under `commitment`, replacing what was there.
    pub fn write_vault(&mut self, commitment: [u8; 32], vault: Vault)
        requires
            old(self).wf(),
        ensures
            final(self).wf(),
            final(self)@ == (EscrowState {
                vaults: old(self)@.vaults.insert(commitment@, vault),
                ..old(self)@
            }),
    {
        match find_vault(&self.vaults, &commitment) {
            Some(i) => {
                proof {
                    lemma_update(self.vaults@, i as int, vault);
                }
                let key = self.vaults[i].0;
                self.vaults.set(i, (key, vault));
            },
            None => {
                proof {
                    lemma_push(self.vaults@, commitment, vault);
                }
                self.vaults.push((commitment, vault));
            },
        }
    }

    /// The payment numbered `id`, if one was scheduled under that number.
    pub fn read_scheduled_payment(&self, id: u32) -> (r: Option<ScheduledPayment>)
        requires
            self.wf(),
        ensures
            r == self@.payment(id),
    {
        if 1 <= id && (id as usize) <= self.payments.len() {
            Some(self.payments[(id - 1) as usize])
        } else {
            None
        }
    }

    /// The recurring payment numbered `id`, if one was set up under it.
    pub fn read_auto_pay(&self, id: u32) -> (r: Option<AutoPay>)
        requires
            self.wf(),
        ensures
            r == self@.auto_pay(id),
    {
        if 1 <= id && (id as usize) <= self.auto_pays.len() {
            Some(self.auto_pays[(id - 1) as usize])
        } else {
            None
        }
    }
    /// The owner of vault `commitment`: the address its payments go to.
    /// Fails with `VaultNotFound` when no such vault is stored.
    pub fn resolve(&self, commitment: &[u8; 32]) -> (r: Result<Address, EscrowError>)
        requires
            self.wf(),
        ensures
            r == match self@.vault(commitment@) {
                Some(v) => Ok::<Address, EscrowError>(v.owner),
                None => Err::<Address, EscrowError>(EscrowError::VaultNotFound),
            },
    {
        match self.read_vault(commitment) {
            Some(v) => Ok(v.owner),
            None => Err(EscrowError::VaultNotFound),
        }
    }

    /// Checks a request to schedule a payment as far as it can be checked
    /// before the source vault's owner authorizes it, and names that owner.
    pub fn schedule_payment_authorizer(
        &self,
        from: &[u8; 32],
        amount: i128,
        release_at: u64,
        now: u64,
    ) -> (r: Result<Address, EscrowError>)
        requires
            self.wf(),
        ensures
            r == self@.schedule_payment_authorizer_spec(*from, amount, release_at, now),
    {
        if amount <= 0 {
            return Err(EscrowError::InvalidAmount);
        }
        if release_at <= now {
            return Err(EscrowError::PastReleaseTime);
        }
        self.resolve(from)
    }

    /// Schedules a payment of `amount` from vault `from` to vault `to`,
    /// payable from `release_at`, at ledger time `now`; the caller has had
    /// the owner of `from` authorize it.
    ///
    /// Fails with `InvalidAmount` unless `amount > 0`, `PastReleaseTime`
    /// unless `release_at > now`, `VaultNotFound` without a vault `from`,
    /// `InsufficientBalance` when that vault holds less than `amount`, and
    /// `PaymentCounterOverflow` when every payment number is taken. On
    /// success the amount leaves the vault's balance at once, and the new
    /// payment, unexecuted, gets the next number, which is returned.
    pub fn schedule_payment(
        &mut self,
        from: [u8; 32],
        to: [u8; 32],
        amount: i128,
        release_at: u64,
        now: u64,
    ) -> (r: Result<u32, EscrowError>)
        requires
            old(self).wf(),
        ensures
            final(self).wf(),
            match old(self)@.schedule_payment_spec(from, to, amount, release_at, now) {
                Ok((s, id)) => final(self)@ == s && r == Ok::<u32, EscrowError>(id),
                Err(e) => final(self)@ == old(self)@ && r == Err::<u32, EscrowError>(e),
            },
    {
        if amount <= 0 {
            return Err(EscrowError::InvalidAmount);
        }
        if release_at <= now {
            return Err(EscrowError::PastReleaseTime);
        }
        let idx = match find_vault(&self.vaults, &from) {
            None => {
                proof {
                    lemma_absent(self.vaults@, from@);
                }
                return Err(EscrowError::VaultNotFound);
            },
            Some(i) => i,
        };
        proof {
            lemma_lookup(self.vaults@, idx as int);
        }
        let v = self.vaults[idx].1;
        if v.balance < amount {
            return Err(EscrowError::InsufficientBalance);
        }
        if self.payments.len() >= u32::MAX as usize {
            return Err(EscrowError::PaymentCounterOverflow);
        }
        let reserved = Vault { balance: v.balance - amount, ..v };
        proof {
            lemma_update(self.vaults@, idx as int, reserved);
        }
        let key = self.vaults[idx].0;
        self.vaults.set(idx, (key, reserved));
        self.payments.push(
            ScheduledPayment { from, to, token: v.token, amount, release_at, executed: false },
        );
        let id = self.payments.len() as u32;
        Ok(id)
    }

    /// Pays out scheduled payment `id` at ledger time `now`.
    ///
    /// Fails with `PaymentNotFound` when no payment has that number,
    /// `PaymentAlreadyExecuted` when it was paid, `PaymentNotYetDue` before
    /// its release time, and `VaultNotFound` when the destination vault is
    /// gone. On success the payment is marked executed, no vault balance
    /// changes (the amount was reserved when it was scheduled), and the
    /// returned payout sends the amount to the destination vault's owner.
    pub fn execute_scheduled(&mut self, id: u32, now: u64) -> (r: Result<Payout, EscrowError>)
        requires
            old(self).wf(),
        ensures
            final(self).wf(),
            match old(self)@.execute_scheduled_spec(id, now) {
                Ok((s, pay)) => final(self)@ == s && r == Ok::<Payout, EscrowError>(pay),
                Err(e) => final(self)@ == old(self)@ && r == Err::<Payout, EscrowError>(e),
            },
    {
        if id == 0 || id as usize > self.payments.len() {
            return Err(EscrowError::PaymentNotFound);
        }
        let idx = (id - 1) as usize;
        let p = self.payments[idx];
        if p.executed {
            return Err(EscrowError::PaymentAlreadyExecuted);
        }
        if now < p.release_at {
            return Err(EscrowError::PaymentNotYetDue);
        }
        let recipient = match self.resolve(&p.to) {
            Ok(owner) => owner,
            Err(e) => {
                return Err(e);
            },
        };
        self.payments.set(idx, ScheduledPayment { executed: true, ..p });
        Ok(Payout { token: p.token, recipient, amount: p.amount, from: p.from, to: p.to })
    }

    /// Checks a request to set up a recurring payment as far as it can be
    /// checked before the source vault's owner authorizes it, and names that
    /// owner.
    pub fn setup_auto_pay_authorizer(&self, from: &[u8; 32], amount: i128, interval: u64) -> (r:
        Result<Address, EscrowError>)
        requires
            self.wf(),
        ensures
            r == self@.setup_auto_pay_authorizer_spec(*from, amount, interval),
    {
        if amount <= 0 {
            return Err(EscrowError::InvalidAmount);
        }
        if interval == 0 {
            return Err(EscrowError::InvalidInterval);
        }
        self.resolve(from)
    }

    /// Registers a recurring payment of `amount` every `interval` seconds
    /// from vault `from` to vault `to`; the caller has had the owner of
    /// `from` authorize it.
    ///
    /// Fails with `InvalidAmount` unless `amount > 0`, `InvalidInterval` when
    /// `interval` is 0, `VaultNotFound` without a vault `from`, and
    /// `AutoPayCounterOverflow` when every rule number is taken. On success
    /// the rule, in the vault's token and never paid yet, gets the next
    /// number, which is returned; no balance changes.
    pub fn setup_auto_pay(&mut self, from: [u8; 32], to: [u8; 32], amount: i128, interval: u64) -> (r:
        Result<u32, EscrowError>)
        requires
            old(self).wf(),
        ensures
            final(self).wf(),
            match old(self)@.setup_auto_pay_spec(from, to, amount, interval) {
                Ok((s, id)) => final(self)@ == s && r == Ok::<u32, EscrowError>(id),
                Err(e) => final(self)@ == old(self)@ && r == Err::<u32, EscrowError>(e),
            },
    {
        if amount <= 0 {
            return Err(EscrowError::InvalidAmount);
        }
        if interval == 0 {
            return Err(EscrowError::InvalidInterval);
        }
        let v = match self.read_vault(&from) {
            Some(v) => v,
            None => {
                return Err(EscrowError::VaultNotFound);
            },
        };
        if self.auto_pays.len() >= u32::MAX as usize {
            return Err(EscrowError::AutoPayCounterOverflow);
        }
        self.auto_pays.push(AutoPay { from, to, token: v.token, amount, interval, last_paid: 0 });
        let id = self.auto_pays.len() as u32;
        Ok(id)
    }

    /// Pays one cycle of recurring payment `id` at ledger time `now`.
    ///
    /// Fails with `AutoPayNotFound` when no rule has that number, and with
    /// `IntervalNotElapsed` before `last_paid + interval` (a due time beyond
    /// the range of `u64` is never reached),
    /// `VaultNotFound` when the source or the destination vault is gone, and
    /// `InsufficientBalance` when the source holds less than the amount. On
    /// success the amount leaves the source vault's balance, the rule records
    /// `now` as its last payment, and the returned payout sends the amount to
    /// the destination vault's owner.
    pub fn trigger_auto_pay(&mut self, id: u32, now: u64) -> (r: Result<Payout, EscrowError>)
        requires
            old(self).wf(),
        ensures
            final(self).wf(),
            match old(self)@.trigger_auto_pay_spec(id, now) {
                Ok((s, pay)) => final(self)@ == s && r == Ok::<Payout, EscrowError>(pay),
                Err(e) => final(self)@ == old(self)@ && r == Err::<Payout, EscrowError>(e),
            },
    {
        if id == 0 || id as usize > self.auto_pays.len() {
            return Err(EscrowError::AutoPayNotFound);
        }
        let idx = (id - 1) as usize;
        let a = self.auto_pays[idx];
        match a.last_paid.checked_add(a.interval) {
            None => {
                return Err(EscrowError::IntervalNotElapsed);
            },
            Some(next_payment_time) => {
                if now < next_payment_time {
                    return Err(EscrowError::IntervalNotElapsed);
                }
            },
        }
        let fi = match find_vault(&self.vaults, &a.from) {
            None => {
                proof {
                    lemma_absent(self.vaults@, a.from@);
                }
                return Err(EscrowError::VaultNotFound);
            },
            Some(i) => i,
        };
        proof {
            lemma_lookup(self.vaults@, fi as int);
        }
        let v = self.vaults[fi].1;
        if v.balance < a.amount {
            return Err(EscrowError::InsufficientBalance);
        }
        let recipient = match self.resolve(&a.to) {
            Ok(owner) => owner,
            Err(e) => {
                return Err(e);
            },
        };
        assert(self.auto_pays@[idx as int].amount > 0);
        let debited = Vault { balance: v.balance - a.amount, ..v };
        proof {
            lemma_update(self.vaults@, fi as int, debited);
        }
        let key = self.vaults[fi].0;
        self.vaults.set(fi, (key, debited));
        self.auto_pays.set(idx, AutoPay { last_paid: now, ..a });
        Ok(Payout { token: a.token, recipient, amount: a.amount, from: a.from, to: a.to })
    }
}

} // verus!
