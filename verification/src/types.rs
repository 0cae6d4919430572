//! Data carried by the ledger engine: events, per-client accounts, and the
//! durable record kept for each transaction id.
//!
//! All monetary values are counts of ten-thousandths of a currency unit
//! (four decimal places, exact).  Event amounts are unsigned; balances are
//! signed 64-bit counts.

use vstd::prelude::*;

verus! {

/// The kind tag of a ledger event.
#[derive(Clone, Copy, Debug, PartialEq, Eq, Structural)]
pub enum TransactionType {
    Deposit,
    Withdrawal,
    Dispute,
    Resolve,
    Chargeback,
}

/// One already-validated ledger event.
///
/// `amount` is required for deposits and withdrawals and ignored for the
/// dispute lifecycle events; it counts ten-thousandths of a currency unit.
#[derive(Clone, Copy, Debug, PartialEq, Eq, Structural)]
pub struct Transaction {
    pub kind: TransactionType,
    pub client_id: u16,
    pub id: u32,
    pub amount: Option<u64>,
}

/// The state of one client account.
///
/// Balances count ten-thousandths of a currency unit.  A well-formed
/// account satisfies [`Client::wf`]: the total is exactly the available
/// balance plus the held balance, and the available balance is never
/// negative.
#[derive(Clone, Copy, Debug, PartialEq, Eq, Structural)]
pub struct Client {
    pub available_funds: i64,
    pub held_funds: i64,
    pub total_funds: i64,
    pub locked: bool,
}

impl Client {
    /// Well-formedness of a single account: the total is the sum of the
    /// available and held balances, and the available balance is
    /// non-negative.
    pub open spec fn wf(self) -> bool {
        &&& self.total_funds == self.available_funds + self.held_funds
        &&& self.available_funds >= 0
    }
}

impl Default for Client {
    /// A fresh account: all balances zero, not locked.
    fn default() -> (r: Client)
        ensures
            r == (Client { available_funds: 0, held_funds: 0, total_funds: 0, locked: false }),
    {
        Client { available_funds: 0, held_funds: 0, total_funds: 0, locked: false }
    }
}

/// The durable record kept for every applied deposit or withdrawal,
/// keyed by transaction id.  Only records whose `transaction_type` is
/// `Deposit` can be disputed.
#[derive(Clone, Copy, Debug, PartialEq, Eq, Structural)]
pub struct TransactionRecord {
    pub client_id: u16,
    pub amount: u64,
    pub transaction_type: TransactionType,
}

/// What the engine did with one event: applied it, or skipped it for the
/// given reason.  The engine never fails a run; a skipped event is a
/// silent no-op on the ledger state.
#[derive(Clone, Copy, Debug, PartialEq, Eq, Structural)]
pub enum EventOutcome {
    Applied,
    Skipped(SkipReason),
}

/// Why an event was skipped.
#[derive(Clone, Copy, Debug, PartialEq, Eq, Structural)]
pub enum SkipReason {
    /// The account named by the event is locked; every event for a locked
    /// account is ignored, regardless of kind.
    AccountLocked,
    /// A deposit or withdrawal reused a transaction id that already has a
    /// record; the first writer wins.
    DuplicateTransaction,
    /// A deposit or withdrawal arrived without an amount.
    MissingAmount,
    /// Applying the event would push a balance outside the representable
    /// signed 64-bit range of ten-thousandths.
    BalanceOutOfRange,
    /// A withdrawal asked for more than the available balance, or a
    /// dispute referred to a deposit whose funds are no longer available.
    InsufficientFunds,
    /// A dispute named a transaction that is already under dispute.
    AlreadyDisputed,
    /// A dispute, resolve or chargeback named a transaction id with no
    /// record.
    UnknownTransaction,
    /// A dispute or resolve named a transaction owned by another client.
    ClientMismatch,
    /// A dispute named a withdrawal record; only deposits can be disputed.
    NotADeposit,
    /// A resolve or chargeback named a transaction that is not under
    /// dispute.
    NotDisputed,
}

} // verus!
