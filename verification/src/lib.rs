//! A verified ledger engine.
//!
//! The engine consumes an ordered sequence of financial events (deposits,
//! withdrawals, disputes, resolves, chargebacks) for many independent client
//! accounts and produces, for each client, the final available/held/total
//! balance and a locked flag.  Every amount is an exact count of
//! ten-thousandths of a currency unit, so all arithmetic is exact
//! fixed-precision decimal arithmetic with four decimal places.
//!
//! The decision procedure applied to each event is specified by
//! [`model::event_step`]; [`engine::process_transactions`] is proved to
//! compute exactly the fold of that procedure over the event sequence.
//! The laws of the state machine (balance invariants, permanence of the
//! locked flag, idempotence of replayed transaction ids, and the
//! dispute/resolve round trip) are stated and proved in [`laws`].

pub mod engine;
pub mod laws;
pub mod model;
pub mod sums;
pub mod types;

pub use engine::process_transactions;
pub use engine::Ledger;
pub use types::Client;
pub use types::EventOutcome;
pub use types::SkipReason;
pub use types::Transaction;
pub use types::TransactionRecord;
pub use types::TransactionType;
