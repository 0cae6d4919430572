//! The executable ledger engine, verified against the model in
//! [`crate::model`].
//!
//! [`Ledger`] owns the three tables of one run: client accounts, durable
//! transaction records, and the set of disputed transaction ids.
//! [`Ledger::apply_transaction`] performs exactly one step of
//! [`event_step`], and [`process_transactions`] folds the step over a
//! whole event sequence.

use std::collections::HashMap;
use std::collections::HashSet;
use vstd::prelude::*;

use crate::laws::lemma_ensure_client_preserves_wf;
use crate::laws::lemma_event_step_preserves_wf;
use crate::laws::lemma_init_model_wf;
use crate::laws::lemma_run_events_wf;
use crate::model::chargeback_effect;
use crate::model::chargeback_outcome;
use crate::model::deposit_effect;
use crate::model::deposit_outcome;
use crate::model::dispute_effect;
use crate::model::dispute_outcome;
use crate::model::ensure_client;
use crate::model::event_outcome;
use crate::model::event_step;
use crate::model::held_sum;
use crate::model::init_model;
use crate::model::model_wf;
use crate::model::resolve_effect;
use crate::model::resolve_outcome;
use crate::model::run_events;
use crate::model::withdrawal_effect;
use crate::model::withdrawal_outcome;
use crate::model::LedgerModel;
use crate::sums::lemma_held_sum_member_bound;
use crate::types::Client;
use crate::types::EventOutcome;
use crate::types::SkipReason;
use crate::types::Transaction;
use crate::types::TransactionRecord;
use crate::types::TransactionType;

verus! {

/// The state of one engine run: the three tables, owned exclusively for
/// the duration of the run.
pub struct Ledger {
    clients: HashMap<u16, Client>,
    transaction_records: HashMap<u32, TransactionRecord>,
    disputed_transactions: HashSet<u32>,
}

impl View for Ledger {
    type V = LedgerModel;

    closed spec fn view(&self) -> LedgerModel {
        LedgerModel {
            clients: self.clients@,
            transaction_records: self.transaction_records@,
            disputed_transactions: self.disputed_transactions@,
        }
    }
}

impl Ledger {
    /// The ledger's tables satisfy the balance invariants of the model.
    pub open spec fn wf(self) -> bool {
        model_wf(self@)
    }

    /// An empty ledger: no clients, no records, no disputes.
    pub fn new() -> (r: Ledger)
        ensures
            r@ == init_model(),
            r.wf(),
    {
        let r = Ledger {
            clients: HashMap::new(),
            transaction_records: HashMap::new(),
            disputed_transactions: HashSet::new(),
        };
        proof {
            assert(r@ =~= init_model());
            lemma_init_model_wf();
        }
        r
    }

    /// One deposit, decided and applied as [`deposit_outcome`] and
    /// [`deposit_effect`] specify, on an existing unlocked account.
    fn apply_deposit(&mut self, t: &Transaction) -> (r: EventOutcome)
        requires
            old(self).wf(),
            old(self)@.clients.dom().contains(t.client_id),
            !old(self)@.clients[t.client_id].locked,
        ensures
            r == deposit_outcome(old(self)@, *t),
            final(self)@ == if r is Applied {
                deposit_effect(old(self)@, *t)
            } else {
                old(self)@
            },
    {
        if self.transaction_records.contains_key(&t.id) {
            return EventOutcome::Skipped(SkipReason::DuplicateTransaction);
        }
        let amount: u64 = match t.amount {
            Some(a) => a,
            None => {
                return EventOutcome::Skipped(SkipReason::MissingAmount);
            },
        };
        let acct = *self.clients.get(&t.client_id).unwrap();
        if (acct.available_funds as i128) + (amount as i128) > (i64::MAX as i128) || (
        acct.total_funds as i128) + (amount as i128) > (i64::MAX as i128) {
            return EventOutcome::Skipped(SkipReason::BalanceOutOfRange);
        }
        let updated = Client {
            available_funds: ((acct.available_funds as i128) + (amount as i128)) as i64,
            total_funds: ((acct.total_funds as i128) + (amount as i128)) as i64,
            ..acct
        };
        self.clients.insert(t.client_id, updated);
        self.transaction_records.insert(
            t.id,
            TransactionRecord {
                client_id: t.client_id,
                amount,
                transaction_type: TransactionType::Deposit,
            },
        );
        proof {
            assert(self@ =~= deposit_effect(old(self)@, *t));
        }
        EventOutcome::Applied
    }

    /// One withdrawal, decided and applied as [`withdrawal_outcome`] and
    /// [`withdrawal_effect`] specify, on an existing unlocked account.
    fn apply_withdrawal(&mut self, t: &Transaction) -> (r: EventOutcome)
        requires
            old(self).wf(),
            old(self)@.clients.dom().contains(t.client_id),
            !old(self)@.clients[t.client_id].locked,
        ensures
            r == withdrawal_outcome(old(self)@, *t),
            final(self)@ == if r is Applied {
                withdrawal_effect(old(self)@, *t)
            } else {
                old(self)@
            },
    {
        if self.transaction_records.contains_key(&t.id) {
            return EventOutcome::Skipped(SkipReason::DuplicateTransaction);
        }
        let amount: u64 = match t.amount {
            Some(a) => a,
            None => {
                return EventOutcome::Skipped(SkipReason::MissingAmount);
            },
        };
        let acct = *self.clients.get(&t.client_id).unwrap();
        if (acct.available_funds as i128) < (amount as i128) {
            return EventOutcome::Skipped(SkipReason::InsufficientFunds);
        }
        let updated = Client {
            available_funds: ((acct.available_funds as i128) - (amount as i128)) as i64,
            total_funds: ((acct.total_funds as i128) - (amount as i128)) as i64,
            ..acct
        };
        self.clients.insert(t.client_id, updated);
        self.transaction_records.insert(
            t.id,
            TransactionRecord {
                client_id: t.client_id,
                amount,
                transaction_type: TransactionType::Withdrawal,
            },
        );
        proof {
            assert(self@ =~= withdrawal_effect(old(self)@, *t));
        }
        EventOutcome::Applied
    }

    /// One dispute, decided and applied as [`dispute_outcome`] and
    /// [`dispute_effect`] specify, on an existing unlocked account.
    fn apply_dispute(&mut self, t: &Transaction) -> (r: EventOutcome)
        requires
            old(self).wf(),
            old(self)@.clients.dom().contains(t.client_id),
            !old(self)@.clients[t.client_id].locked,
        ensures
            r == dispute_outcome(old(self)@, *t),
            final(self)@ == if r is Applied {
                dispute_effect(old(self)@, *t)
            } else {
                old(self)@
            },
    {
        if self.disputed_transactions.contains(&t.id) {
            return EventOutcome::Skipped(SkipReason::AlreadyDisputed);
        }
        let record = match self.transaction_records.get(&t.id) {
            Some(r) => *r,
            None => {
                return EventOutcome::Skipped(SkipReason::UnknownTransaction);
            },
        };
        if record.client_id != t.client_id {
            return EventOutcome::Skipped(SkipReason::ClientMismatch);
        }
        if !matches!(record.transaction_type, TransactionType::Deposit) {
            return EventOutcome::Skipped(SkipReason::NotADeposit);
        }
        let acct = *self.clients.get(&t.client_id).unwrap();
        if (acct.available_funds as i128) < (record.amount as i128) {
            return EventOutcome::Skipped(SkipReason::InsufficientFunds);
        }
        let updated = Client {
            available_funds: ((acct.available_funds as i128) - (record.amount as i128)) as i64,
            held_funds: ((acct.held_funds as i128) + (record.amount as i128)) as i64,
            ..acct
        };
        self.clients.insert(t.client_id, updated);
        self.disputed_transactions.insert(t.id);
        proof {
            assert(self@ =~= dispute_effect(old(self)@, *t));
        }
        EventOutcome::Applied
    }

    /// One resolve, decided and applied as [`resolve_outcome`] and
    /// [`resolve_effect`] specify, on an existing unlocked account.
    fn apply_resolve(&mut self, t: &Transaction) -> (r: EventOutcome)
        requires
            old(self).wf(),
            old(self)@.clients.dom().contains(t.client_id),
            !old(self)@.clients[t.client_id].locked,
        ensures
            r == resolve_outcome(old(self)@, *t),
            final(self)@ == if r is Applied {
                resolve_effect(old(self)@, *t)
            } else {
                old(self)@
            },
    {
        if !self.disputed_transactions.contains(&t.id) {
            return EventOutcome::Skipped(SkipReason::NotDisputed);
        }
        let record = match self.transaction_records.get(&t.id) {
            Some(r) => *r,
            None => {
                return EventOutcome::Skipped(SkipReason::UnknownTransaction);
            },
        };
        if record.client_id != t.client_id {
            return EventOutcome::Skipped(SkipReason::ClientMismatch);
        }
        let acct = *self.clients.get(&t.client_id).unwrap();
        proof {
            lemma_held_sum_member_bound(
                self@.disputed_transactions,
                self@.transaction_records,
                t.client_id,
                t.id,
            );
            assert(acct.held_funds >= held_sum(
                self@.disputed_transactions,
                self@.transaction_records,
                t.client_id,
            ));
        }
        let updated = Client {
            available_funds: ((acct.available_funds as i128) + (record.amount as i128)) as i64,
            held_funds: ((acct.held_funds as i128) - (record.amount as i128)) as i64,
            ..acct
        };
        self.clients.insert(t.client_id, updated);
        self.disputed_transactions.remove(&t.id);
        proof {
            assert(self@ =~= resolve_effect(old(self)@, *t));
        }
        EventOutcome::Applied
    }

    /// One chargeback, decided and applied as [`chargeback_outcome`] and
    /// [`chargeback_effect`] specify, on an existing unlocked account.
    fn apply_chargeback(&mut self, t: &Transaction) -> (r: EventOutcome)
        requires
            old(self).wf(),
            old(self)@.clients.dom().contains(t.client_id),
            !old(self)@.clients[t.client_id].locked,
        ensures
            r == chargeback_outcome(old(self)@, *t),
            final(self)@ == if r is Applied {
                chargeback_effect(old(self)@, *t)
            } else {
                old(self)@
            },
    {
        if !self.disputed_transactions.contains(&t.id) {
            return EventOutcome::Skipped(SkipReason::NotDisputed);
        }
        let record = match self.transaction_records.get(&t.id) {
            Some(r) => *r,
            None => {
                return EventOutcome::Skipped(SkipReason::UnknownTransaction);
            },
        };
        let acct = *self.clients.get(&t.client_id).unwrap();
        if (acct.held_funds as i128) - (record.amount as i128) < (i64::MIN as i128) || (
        acct.total_funds as i128) - (record.amount as i128) < (i64::MIN as i128) {
            return EventOutcome::Skipped(SkipReason::BalanceOutOfRange);
        }
        let updated = Client {
            held_funds: ((acct.held_funds as i128) - (record.amount as i128)) as i64,
            total_funds: ((acct.total_funds as i128) - (record.amount as i128)) as i64,
            locked: true,
            ..acct
        };
        self.clients.insert(t.client_id, updated);
        self.disputed_transactions.remove(&t.id);
        proof {
            assert(self@ =~= chargeback_effect(old(self)@, *t));
        }
        EventOutcome::Applied
    }

    /// Process one event: create the account of the client it names if
    /// absent, skip the event outright if that account is locked, and
    /// otherwise decide it by the per-kind rules.  The state moves to
    /// exactly [`event_step`] of the old state, and the returned outcome
    /// is exactly [`event_outcome`].
    pub fn apply_transaction(&mut self, t: &Transaction) -> (r: EventOutcome)
        requires
            old(self).wf(),
        ensures
            final(self)@ == event_step(old(self)@, *t),
            r == event_outcome(old(self)@, *t),
            final(self).wf(),
    {
        if !self.clients.contains_key(&t.client_id) {
            self.clients.insert(t.client_id, Client::default());
        }
        proof {
            assert(self@ =~= ensure_client(old(self)@, t.client_id));
            lemma_ensure_client_preserves_wf(old(self)@, t.client_id);
            lemma_event_step_preserves_wf(old(self)@, *t);
        }
        let acct = *self.clients.get(&t.client_id).unwrap();
        if acct.locked {
            return EventOutcome::Skipped(SkipReason::AccountLocked);
        }
        match t.kind {
            TransactionType::Deposit => self.apply_deposit(t),
            TransactionType::Withdrawal => self.apply_withdrawal(t),
            TransactionType::Dispute => self.apply_dispute(t),
            TransactionType::Resolve => self.apply_resolve(t),
            TransactionType::Chargeback => self.apply_chargeback(t),
        }
    }

    /// The current state of one client's account, if the client has
    /// appeared in an event of this run.
    pub fn client_account(&self, client_id: u16) -> (r: Option<Client>)
        ensures
            r == if self@.clients.dom().contains(client_id) {
                Some(self@.clients[client_id])
            } else {
                None::<Client>
            },
    {
        match self.clients.get(&client_id) {
            Some(c) => Some(*c),
            None => None,
        }
    }

    /// Consume the ledger and hand out the final table of accounts.
    pub fn into_clients(self) -> (r: HashMap<u16, Client>)
        ensures
            r@ == self@.clients,
    {
        self.clients
    }
}

/// Process a whole event sequence in order, starting from the empty
/// state, and return the final account of every client that appeared in
/// at least one event.  The result is exactly the clients table of
/// [`run_events`], and the final state satisfies all the balance
/// invariants of [`model_wf`].
pub fn process_transactions(records: &Vec<Transaction>) -> (r: HashMap<u16, Client>)
    ensures
        r@ == run_events(records@).clients,
        model_wf(run_events(records@)),
{
    let mut ledger = Ledger::new();
    proof {
        assert(records@.take(0) =~= Seq::<Transaction>::empty());
    }
    let n: usize = records.len();
    let mut i: usize = 0;
    while i < n
        invariant
            n == records.len(),
            i <= n,
            ledger.wf(),
            ledger@ == run_events(records@.take(i as int)),
        decreases n - i,
    {
        let t = records[i];
        ledger.apply_transaction(&t);
        proof {
            let s = records@.take((i + 1) as int);
            assert(s.drop_last() =~= records@.take(i as int));
            assert(s.last() == records@[i as int]);
        }
        i = i + 1;
    }
    proof {
        assert(records@.take(n as int) =~= records@);
        lemma_run_events_wf(records@);
    }
    ledger.into_clients()
}

} // verus!
