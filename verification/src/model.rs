//! The mathematical model of the ledger engine.
//!
//! [`LedgerModel`] is the abstract state: the client accounts, the durable
//! transaction records, and the set of transaction ids under dispute.
//! [`event_step`] gives, for every event, the next state, and
//! [`event_outcome`] says whether the event is applied or why it is
//! skipped.  [`run_events`] folds the step over an event sequence from the
//! empty state; the executable engine is proved to compute exactly that
//! fold.

use vstd::prelude::*;

use crate::types::Client;
use crate::types::EventOutcome;
use crate::types::SkipReason;
use crate::types::Transaction;
use crate::types::TransactionRecord;
use crate::types::TransactionType;

verus! {

/// The abstract state of the ledger engine.
#[verifier::ext_equal]
pub ghost struct LedgerModel {
    /// Every client that has appeared in at least one event, with its
    /// current account state.
    pub clients: Map<u16, Client>,
    /// The record created by every applied deposit or withdrawal, keyed by
    /// transaction id.  Records are never removed within a run.
    pub transaction_records: Map<u32, TransactionRecord>,
    /// The transaction ids currently under dispute.
    pub disputed_transactions: Set<u32>,
}

/// The state before any event: no clients, no records, no disputes.
pub open spec fn init_model() -> LedgerModel {
    LedgerModel {
        clients: Map::empty(),
        transaction_records: Map::empty(),
        disputed_transactions: Set::empty(),
    }
}

/// A fresh account: all balances zero, not locked.
pub open spec fn fresh_client() -> Client {
    Client { available_funds: 0, held_funds: 0, total_funds: 0, locked: false }
}

/// The account a client holds in `clients`, or a fresh account if the
/// client has not appeared yet.
pub open spec fn account_of(clients: Map<u16, Client>, client_id: u16) -> Client {
    if clients.dom().contains(client_id) {
        clients[client_id]
    } else {
        fresh_client()
    }
}

/// The state after creating an account for `client_id` if none exists.
/// Every event creates the account of the client it names, even when the
/// event itself is skipped.
pub open spec fn ensure_client(m: LedgerModel, client_id: u16) -> LedgerModel {
    LedgerModel {
        clients: m.clients.insert(client_id, account_of(m.clients, client_id)),
        transaction_records: m.transaction_records,
        disputed_transactions: m.disputed_transactions,
    }
}

/// How much one transaction id contributes to the held balance of client
/// `client_id`: the recorded amount if the record exists, belongs to that
/// client, and is a deposit; zero otherwise.
pub open spec fn held_contribution(
    records: Map<u32, TransactionRecord>,
    client_id: u16,
    tx: u32,
) -> int {
    if records.dom().contains(tx) && records[tx].client_id == client_id
        && records[tx].transaction_type is Deposit {
        records[tx].amount as int
    } else {
        0
    }
}

/// The fold step used by [`held_sum`], fixed so that every use names the
/// same function value.
pub open spec fn held_sum_step(
    records: Map<u32, TransactionRecord>,
    client_id: u16,
) -> spec_fn(int, u32) -> int {
    |acc: int, tx: u32| acc + held_contribution(records, client_id, tx)
}

/// The sum of the recorded amounts of every disputed deposit owned by
/// client `client_id`.  The well-formedness invariant bounds each
/// account's held balance from below by this sum.
pub open spec fn held_sum(
    disputed: Set<u32>,
    records: Map<u32, TransactionRecord>,
    client_id: u16,
) -> int {
    disputed.fold(0, held_sum_step(records, client_id))
}

/// The decision the engine takes for a deposit, once the account exists
/// and is not locked: skipped if the transaction id already has a record,
/// if the amount is absent, or if either the available or the total
/// balance would leave the representable range; applied otherwise.
pub open spec fn deposit_outcome(m: LedgerModel, t: Transaction) -> EventOutcome {
    let acct = m.clients[t.client_id];
    if m.transaction_records.dom().contains(t.id) {
        EventOutcome::Skipped(SkipReason::DuplicateTransaction)
    } else if t.amount is None {
        EventOutcome::Skipped(SkipReason::MissingAmount)
    } else if acct.available_funds + t.amount->Some_0 > i64::MAX
        || acct.total_funds + t.amount->Some_0 > i64::MAX {
        EventOutcome::Skipped(SkipReason::BalanceOutOfRange)
    } else {
        EventOutcome::Applied
    }
}

/// The state after an applied deposit: the amount is added to the
/// available and total balances, and a deposit record is created.
pub open spec fn deposit_effect(m: LedgerModel, t: Transaction) -> LedgerModel {
    let acct = m.clients[t.client_id];
    let amount = t.amount->Some_0;
    let updated = Client {
        available_funds: (acct.available_funds + amount) as i64,
        total_funds: (acct.total_funds + amount) as i64,
        ..acct
    };
    let record = TransactionRecord {
        client_id: t.client_id,
        amount,
        transaction_type: TransactionType::Deposit,
    };
    LedgerModel {
        clients: m.clients.insert(t.client_id, updated),
        transaction_records: m.transaction_records.insert(t.id, record),
        disputed_transactions: m.disputed_transactions,
    }
}

/// The decision for a withdrawal: skipped if the transaction id already
/// has a record, if the amount is absent, or if the amount exceeds the
/// available balance; applied otherwise.
pub open spec fn withdrawal_outcome(m: LedgerModel, t: Transaction) -> EventOutcome {
    let acct = m.clients[t.client_id];
    if m.transaction_records.dom().contains(t.id) {
        EventOutcome::Skipped(SkipReason::DuplicateTransaction)
    } else if t.amount is None {
        EventOutcome::Skipped(SkipReason::MissingAmount)
    } else if acct.available_funds < t.amount->Some_0 {
        EventOutcome::Skipped(SkipReason::InsufficientFunds)
    } else {
        EventOutcome::Applied
    }
}

/// The state after an applied withdrawal: the amount is taken from the
/// available and total balances, and a withdrawal record is created so
/// the transaction id cannot be reused.
pub open spec fn withdrawal_effect(m: LedgerModel, t: Transaction) -> LedgerModel {
    let acct = m.clients[t.client_id];
    let amount = t.amount->Some_0;
    let updated = Client {
        available_funds: (acct.available_funds - amount) as i64,
        total_funds: (acct.total_funds - amount) as i64,
        ..acct
    };
    let record = TransactionRecord {
        client_id: t.client_id,
        amount,
        transaction_type: TransactionType::Withdrawal,
    };
    LedgerModel {
        clients: m.clients.insert(t.client_id, updated),
        transaction_records: m.transaction_records.insert(t.id, record),
        disputed_transactions: m.disputed_transactions,
    }
}

/// The decision for a dispute: skipped if the transaction is already under
/// dispute, has no record, belongs to another client, is not a deposit, or
/// if its recorded amount exceeds the available balance; applied
/// otherwise.
pub open spec fn dispute_outcome(m: LedgerModel, t: Transaction) -> EventOutcome {
    let acct = m.clients[t.client_id];
    if m.disputed_transactions.contains(t.id) {
        EventOutcome::Skipped(SkipReason::AlreadyDisputed)
    } else if !m.transaction_records.dom().contains(t.id) {
        EventOutcome::Skipped(SkipReason::UnknownTransaction)
    } else if m.transaction_records[t.id].client_id != t.client_id {
        EventOutcome::Skipped(SkipReason::ClientMismatch)
    } else if !(m.transaction_records[t.id].transaction_type is Deposit) {
        EventOutcome::Skipped(SkipReason::NotADeposit)
    } else if acct.available_funds < m.transaction_records[t.id].amount {
        EventOutcome::Skipped(SkipReason::InsufficientFunds)
    } else {
        EventOutcome::Applied
    }
}

/// The state after an applied dispute: the recorded amount moves from the
/// available to the held balance, the total is unchanged, and the
/// transaction id enters the disputed set.
pub open spec fn dispute_effect(m: LedgerModel, t: Transaction) -> LedgerModel {
    let acct = m.clients[t.client_id];
    let amount = m.transaction_records[t.id].amount;
    let updated = Client {
        available_funds: (acct.available_funds - amount) as i64,
        held_funds: (acct.held_funds + amount) as i64,
        ..acct
    };
    LedgerModel {
        clients: m.clients.insert(t.client_id, updated),
        transaction_records: m.transaction_records,
        disputed_transactions: m.disputed_transactions.insert(t.id),
    }
}

/// The decision for a resolve: skipped if the transaction is not under
/// dispute, has no record, or belongs to another client; applied
/// otherwise.
pub open spec fn resolve_outcome(m: LedgerModel, t: Transaction) -> EventOutcome {
    if !m.disputed_transactions.contains(t.id) {
        EventOutcome::Skipped(SkipReason::NotDisputed)
    } else if !m.transaction_records.dom().contains(t.id) {
        EventOutcome::Skipped(SkipReason::UnknownTransaction)
    } else if m.transaction_records[t.id].client_id != t.client_id {
        EventOutcome::Skipped(SkipReason::ClientMismatch)
    } else {
        EventOutcome::Applied
    }
}

/// The state after an applied resolve: the recorded amount moves back from
/// the held to the available balance, the total is unchanged, and the
/// transaction id leaves the disputed set.
pub open spec fn resolve_effect(m: LedgerModel, t: Transaction) -> LedgerModel {
    let acct = m.clients[t.client_id];
    let amount = m.transaction_records[t.id].amount;
    let updated = Client {
        available_funds: (acct.available_funds + amount) as i64,
        held_funds: (acct.held_funds - amount) as i64,
        ..acct
    };
    LedgerModel {
        clients: m.clients.insert(t.client_id, updated),
        transaction_records: m.transaction_records,
        disputed_transactions: m.disputed_transactions.remove(t.id),
    }
}

/// The decision for a chargeback: skipped if the transaction is not under
/// dispute, has no record, or if the held or total balance would leave the
/// representable range; applied otherwise.  No client cross-check is made
/// here, mirroring the rule that dispute verified ownership when the id
/// entered the disputed set.
pub open spec fn chargeback_outcome(m: LedgerModel, t: Transaction) -> EventOutcome {
    let acct = m.clients[t.client_id];
    if !m.disputed_transactions.contains(t.id) {
        EventOutcome::Skipped(SkipReason::NotDisputed)
    } else if !m.transaction_records.dom().contains(t.id) {
        EventOutcome::Skipped(SkipReason::UnknownTransaction)
    } else if acct.held_funds - m.transaction_records[t.id].amount < i64::MIN
        || acct.total_funds - m.transaction_records[t.id].amount < i64::MIN {
        EventOutcome::Skipped(SkipReason::BalanceOutOfRange)
    } else {
        EventOutcome::Applied
    }
}

/// The state after an applied chargeback: the recorded amount is removed
/// from the held and total balances, the account is locked permanently,
/// and the transaction id leaves the disputed set.
pub open spec fn chargeback_effect(m: LedgerModel, t: Transaction) -> LedgerModel {
    let acct = m.clients[t.client_id];
    let amount = m.transaction_records[t.id].amount;
    let updated = Client {
        held_funds: (acct.held_funds - amount) as i64,
        total_funds: (acct.total_funds - amount) as i64,
        locked: true,
        ..acct
    };
    LedgerModel {
        clients: m.clients.insert(t.client_id, updated),
        transaction_records: m.transaction_records,
        disputed_transactions: m.disputed_transactions.remove(t.id),
    }
}

/// What the engine does with one event, once the account of the client it
/// names exists: skipped outright if that account is locked, otherwise
/// decided by the per-kind rules above.
pub open spec fn event_outcome(m: LedgerModel, t: Transaction) -> EventOutcome {
    let m1 = ensure_client(m, t.client_id);
    if m1.clients[t.client_id].locked {
        EventOutcome::Skipped(SkipReason::AccountLocked)
    } else {
        match t.kind {
            TransactionType::Deposit => deposit_outcome(m1, t),
            TransactionType::Withdrawal => withdrawal_outcome(m1, t),
            TransactionType::Dispute => dispute_outcome(m1, t),
            TransactionType::Resolve => resolve_outcome(m1, t),
            TransactionType::Chargeback => chargeback_outcome(m1, t),
        }
    }
}

/// The state after one event: the account of the named client is created
/// if absent; then, if the event is applied, its per-kind effect takes
/// place, and otherwise nothing else changes.
pub open spec fn event_step(m: LedgerModel, t: Transaction) -> LedgerModel {
    let m1 = ensure_client(m, t.client_id);
    if event_outcome(m, t) is Applied {
        match t.kind {
            TransactionType::Deposit => deposit_effect(m1, t),
            TransactionType::Withdrawal => withdrawal_effect(m1, t),
            TransactionType::Dispute => dispute_effect(m1, t),
            TransactionType::Resolve => resolve_effect(m1, t),
            TransactionType::Chargeback => chargeback_effect(m1, t),
        }
    } else {
        m1
    }
}

/// The state after processing a whole event sequence in order, starting
/// from the empty state.
pub open spec fn run_events(events: Seq<Transaction>) -> LedgerModel
    decreases events.len(),
{
    if events.len() == 0 {
        init_model()
    } else {
        event_step(run_events(events.drop_last()), events.last())
    }
}

/// Well-formedness of the abstract state, maintained by every event:
/// the disputed set is finite; every account's total is the sum of its
/// available and held balances and its available balance is non-negative;
/// every disputed transaction has a deposit record whose owner has an
/// account; and the held balance of every unlocked account is at least
/// the sum of its disputed deposits.
pub open spec fn model_wf(m: LedgerModel) -> bool {
    &&& m.disputed_transactions.finite()
    &&& forall|c: u16| #[trigger] m.clients.dom().contains(c) ==> m.clients[c].wf()
    &&& forall|tx: u32| #[trigger] m.disputed_transactions.contains(tx) ==> {
        &&& m.transaction_records.dom().contains(tx)
        &&& m.transaction_records[tx].transaction_type is Deposit
        &&& m.clients.dom().contains(m.transaction_records[tx].client_id)
    }
    &&& forall|c: u16|
        m.clients.dom().contains(c) && !m.clients[c].locked ==> m.clients[c].held_funds
            >= #[trigger] held_sum(m.disputed_transactions, m.transaction_records, c)
}

} // verus!
