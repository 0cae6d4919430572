//! The laws of the ledger state machine.
//!
//! The central result is that [`model_wf`] — the balance invariants of the
//! ledger — holds of the initial state and is preserved by every event,
//! and therefore holds after any run.  On top of that, this module proves
//! the permanence of the locked flag, the idempotence of replayed
//! transaction ids, the non-negativity of held balances, and the
//! dispute/resolve round trip.

use vstd::prelude::*;

use crate::model::account_of;
use crate::model::chargeback_effect;
use crate::model::chargeback_outcome;
use crate::model::deposit_effect;
use crate::model::deposit_outcome;
use crate::model::dispute_effect;
use crate::model::dispute_outcome;
use crate::model::ensure_client;
use crate::model::event_outcome;
use crate::model::event_step;
use crate::model::held_contribution;
use crate::model::held_sum;
use crate::model::init_model;
use crate::model::model_wf;
use crate::model::resolve_effect;
use crate::model::resolve_outcome;
use crate::model::run_events;
use crate::model::withdrawal_effect;
use crate::model::withdrawal_outcome;
use crate::model::LedgerModel;
use crate::sums::lemma_held_sum_agree;
use crate::sums::lemma_held_sum_insert;
use crate::sums::lemma_held_sum_member_bound;
use crate::sums::lemma_held_sum_nonneg;
use crate::sums::lemma_held_sum_remove;
use crate::sums::lemma_held_sum_zero;
use crate::types::Transaction;
use crate::types::TransactionType;

verus! {

/// The empty ledger is well-formed.
pub proof fn lemma_init_model_wf()
    ensures
        model_wf(init_model()),
{
}

/// Creating a missing account preserves well-formedness: a fresh account
/// owns no disputed deposit, so its held balance of zero meets the bound.
pub proof fn lemma_ensure_client_preserves_wf(m: LedgerModel, client_id: u16)
    requires
        model_wf(m),
    ensures
        model_wf(ensure_client(m, client_id)),
{
    let m1 = ensure_client(m, client_id);
    if !m.clients.dom().contains(client_id) {
        assert forall|tx: u32| m.disputed_transactions.contains(tx) implies #[trigger]
            held_contribution(m.transaction_records, client_id, tx) == 0 by {
            assert(m.clients.dom().contains(m.transaction_records[tx].client_id));
        };
        lemma_held_sum_zero(m.disputed_transactions, m.transaction_records, client_id);
    }
    assert forall|c: u16|
        m1.clients.dom().contains(c) && !m1.clients[c].locked implies m1.clients[c].held_funds
            >= #[trigger] held_sum(m1.disputed_transactions, m1.transaction_records, c) by {
        if c != client_id {
            assert(m.clients.dom().contains(c));
        }
    };
}

/// An applied deposit preserves well-formedness: the held balance and the
/// disputed set are untouched, and the new record's id was never disputed.
pub proof fn lemma_deposit_preserves_wf(m: LedgerModel, t: Transaction)
    requires
        model_wf(m),
        m.clients.dom().contains(t.client_id),
        !m.clients[t.client_id].locked,
        deposit_outcome(m, t) is Applied,
    ensures
        model_wf(deposit_effect(m, t)),
{
    let m2 = deposit_effect(m, t);
    assert forall|c: u16|
        m2.clients.dom().contains(c) && !m2.clients[c].locked implies m2.clients[c].held_funds
            >= #[trigger] held_sum(m2.disputed_transactions, m2.transaction_records, c) by {
        assert(m.clients.dom().contains(c) || c == t.client_id);
        assert forall|tx: u32| m2.disputed_transactions.contains(tx) implies #[trigger]
            held_contribution(m2.transaction_records, c, tx) == held_contribution(
            m.transaction_records,
            c,
            tx,
        ) by {
            assert(m.transaction_records.dom().contains(tx));
        };
        lemma_held_sum_agree(
            m.disputed_transactions,
            m2.transaction_records,
            m.transaction_records,
            c,
        );
        assert(held_sum(m.disputed_transactions, m.transaction_records, c) == held_sum(
            m2.disputed_transactions,
            m2.transaction_records,
            c,
        ));
    };
}

/// An applied withdrawal preserves well-formedness, for the same reasons
/// as a deposit.
pub proof fn lemma_withdrawal_preserves_wf(m: LedgerModel, t: Transaction)
    requires
        model_wf(m),
        m.clients.dom().contains(t.client_id),
        !m.clients[t.client_id].locked,
        withdrawal_outcome(m, t) is Applied,
    ensures
        model_wf(withdrawal_effect(m, t)),
{
    let m2 = withdrawal_effect(m, t);
    assert forall|c: u16|
        m2.clients.dom().contains(c) && !m2.clients[c].locked implies m2.clients[c].held_funds
            >= #[trigger] held_sum(m2.disputed_transactions, m2.transaction_records, c) by {
        assert(m.clients.dom().contains(c) || c == t.client_id);
        assert forall|tx: u32| m2.disputed_transactions.contains(tx) implies #[trigger]
            held_contribution(m2.transaction_records, c, tx) == held_contribution(
            m.transaction_records,
            c,
            tx,
        ) by {
            assert(m.transaction_records.dom().contains(tx));
        };
        lemma_held_sum_agree(
            m.disputed_transactions,
            m2.transaction_records,
            m.transaction_records,
            c,
        );
        assert(held_sum(m.disputed_transactions, m.transaction_records, c) == held_sum(
            m2.disputed_transactions,
            m2.transaction_records,
            c,
        ));
    };
}

/// An applied dispute preserves well-formedness: the amount moved to the
/// held balance equals the contribution the newly disputed deposit adds to
/// the owner's held sum.
pub proof fn lemma_dispute_preserves_wf(m: LedgerModel, t: Transaction)
    requires
        model_wf(m),
        m.clients.dom().contains(t.client_id),
        !m.clients[t.client_id].locked,
        dispute_outcome(m, t) is Applied,
    ensures
        model_wf(dispute_effect(m, t)),
{
    let m2 = dispute_effect(m, t);
    assert forall|c: u16|
        m2.clients.dom().contains(c) && !m2.clients[c].locked implies m2.clients[c].held_funds
            >= #[trigger] held_sum(m2.disputed_transactions, m2.transaction_records, c) by {
        assert(m.clients.dom().contains(c));
        lemma_held_sum_insert(m.disputed_transactions, m.transaction_records, c, t.id);
    };
}

/// An applied resolve preserves well-formedness: the amount returned to
/// the available balance equals the contribution the transaction stops
/// making to the owner's held sum.
pub proof fn lemma_resolve_preserves_wf(m: LedgerModel, t: Transaction)
    requires
        model_wf(m),
        m.clients.dom().contains(t.client_id),
        !m.clients[t.client_id].locked,
        resolve_outcome(m, t) is Applied,
    ensures
        model_wf(resolve_effect(m, t)),
{
    let m2 = resolve_effect(m, t);
    lemma_held_sum_member_bound(m.disputed_transactions, m.transaction_records, t.client_id, t.id);
    assert forall|c: u16|
        m2.clients.dom().contains(c) && !m2.clients[c].locked implies m2.clients[c].held_funds
            >= #[trigger] held_sum(m2.disputed_transactions, m2.transaction_records, c) by {
        assert(m.clients.dom().contains(c));
        lemma_held_sum_remove(m.disputed_transactions, m.transaction_records, c, t.id);
    };
}

/// An applied chargeback preserves well-formedness: the charged account
/// becomes locked, so the held bound no longer constrains it, and every
/// other account's held sum can only shrink.
pub proof fn lemma_chargeback_preserves_wf(m: LedgerModel, t: Transaction)
    requires
        model_wf(m),
        m.clients.dom().contains(t.client_id),
        !m.clients[t.client_id].locked,
        chargeback_outcome(m, t) is Applied,
    ensures
        model_wf(chargeback_effect(m, t)),
{
    let m2 = chargeback_effect(m, t);
    assert forall|c: u16|
        m2.clients.dom().contains(c) && !m2.clients[c].locked implies m2.clients[c].held_funds
            >= #[trigger] held_sum(m2.disputed_transactions, m2.transaction_records, c) by {
        assert(m.clients.dom().contains(c));
        assert(c != t.client_id);
        lemma_held_sum_remove(m.disputed_transactions, m.transaction_records, c, t.id);
    };
}

/// Well-formedness is preserved by every event, applied or skipped.
pub proof fn lemma_event_step_preserves_wf(m: LedgerModel, t: Transaction)
    requires
        model_wf(m),
    ensures
        model_wf(event_step(m, t)),
{
    lemma_ensure_client_preserves_wf(m, t.client_id);
    let m1 = ensure_client(m, t.client_id);
    if event_outcome(m, t) is Applied {
        match t.kind {
            TransactionType::Deposit => lemma_deposit_preserves_wf(m1, t),
            TransactionType::Withdrawal => lemma_withdrawal_preserves_wf(m1, t),
            TransactionType::Dispute => lemma_dispute_preserves_wf(m1, t),
            TransactionType::Resolve => lemma_resolve_preserves_wf(m1, t),
            TransactionType::Chargeback => lemma_chargeback_preserves_wf(m1, t),
        }
    }
}

/// The state reached by any event sequence is well-formed.  In
/// particular, after every event of a run: each account's total is
/// exactly its available plus its held balance, its available balance is
/// non-negative, and every disputed transaction id has a deposit record.
pub proof fn lemma_run_events_wf(events: Seq<Transaction>)
    ensures
        model_wf(run_events(events)),
    decreases events.len(),
{
    if events.len() == 0 {
        lemma_init_model_wf();
    } else {
        lemma_run_events_wf(events.drop_last());
        lemma_event_step_preserves_wf(run_events(events.drop_last()), events.last());
    }
}

/// In a well-formed state, every account's total is exactly its available
/// balance plus its held balance, and its available balance is
/// non-negative.
pub proof fn lemma_account_balance_equation(m: LedgerModel, c: u16)
    requires
        model_wf(m),
        m.clients.dom().contains(c),
    ensures
        m.clients[c].total_funds == m.clients[c].available_funds + m.clients[c].held_funds,
        m.clients[c].available_funds >= 0,
{
}

/// In a well-formed state, a transaction id can be under dispute only if
/// a deposit record exists for it.
pub proof fn lemma_disputed_has_deposit_record(m: LedgerModel, tx: u32)
    requires
        model_wf(m),
        m.disputed_transactions.contains(tx),
    ensures
        m.transaction_records.dom().contains(tx),
        m.transaction_records[tx].transaction_type is Deposit,
{
}

/// In a well-formed state, the held balance of every unlocked account is
/// non-negative.
pub proof fn lemma_unlocked_held_nonneg(m: LedgerModel, c: u16)
    requires
        model_wf(m),
        m.clients.dom().contains(c),
        !m.clients[c].locked,
    ensures
        m.clients[c].held_funds >= 0,
{
    lemma_held_sum_nonneg(m.disputed_transactions, m.transaction_records, c);
    assert(m.clients[c].held_funds >= held_sum(
        m.disputed_transactions,
        m.transaction_records,
        c,
    ));
}

/// Once an account is locked, no later event changes its balances or its
/// locked flag: events naming the locked client are skipped by the global
/// gate, and events naming any other client never touch this account.
pub proof fn lemma_locked_account_frozen(m: LedgerModel, t: Transaction, c: u16)
    requires
        m.clients.dom().contains(c),
        m.clients[c].locked,
    ensures
        event_step(m, t).clients.dom().contains(c),
        event_step(m, t).clients[c] == m.clients[c],
{
}

/// Replaying a deposit or a withdrawal whose transaction id already has a
/// record changes nothing: the duplicate is skipped, and the client
/// already has an account, so even the lazy account creation is a no-op.
pub proof fn lemma_duplicate_id_replay_noop(m: LedgerModel, t: Transaction)
    requires
        t.kind is Deposit || t.kind is Withdrawal,
        m.transaction_records.dom().contains(t.id),
        m.clients.dom().contains(t.client_id),
    ensures
        event_step(m, t) == m,
{
    assert(m.clients.insert(t.client_id, account_of(m.clients, t.client_id)) =~= m.clients);
    assert(event_step(m, t) =~= m);
}

/// A chargeback issued by a client other than the owner of the disputed
/// deposit.  This is the one event shape that can drive a held balance
/// negative: the debit lands on the issuer's account while the disputed
/// funds are held on the owner's.  Dispute verifies ownership, so such an
/// event never arises from a client disputing its own deposits.
pub open spec fn cross_client_chargeback(m: LedgerModel, t: Transaction) -> bool {
    &&& t.kind is Chargeback
    &&& event_outcome(m, t) is Applied
    &&& m.transaction_records[t.id].client_id != t.client_id
}

/// If every held balance is non-negative and the event is not a
/// cross-client chargeback, every held balance stays non-negative.
/// Together with [`lemma_unlocked_held_nonneg`] this shows that held
/// balances can only go negative on the account a cross-client chargeback
/// locks.
pub proof fn lemma_step_preserves_held_nonneg(m: LedgerModel, t: Transaction)
    requires
        model_wf(m),
        forall|c: u16| #[trigger] m.clients.dom().contains(c) ==> m.clients[c].held_funds >= 0,
        !cross_client_chargeback(m, t),
    ensures
        forall|c: u16| #[trigger]
            event_step(m, t).clients.dom().contains(c) ==> event_step(m, t).clients[c].held_funds
                >= 0,
{
    let m1 = ensure_client(m, t.client_id);
    let m2 = event_step(m, t);
    if event_outcome(m, t) is Applied {
        match t.kind {
            TransactionType::Resolve => {
                lemma_held_sum_member_bound(
                    m1.disputed_transactions,
                    m1.transaction_records,
                    t.client_id,
                    t.id,
                );
                assert(m1.clients[t.client_id].held_funds >= held_sum(
                    m1.disputed_transactions,
                    m1.transaction_records,
                    t.client_id,
                ));
            },
            TransactionType::Chargeback => {
                assert(m1.transaction_records[t.id].client_id == t.client_id);
                lemma_held_sum_member_bound(
                    m1.disputed_transactions,
                    m1.transaction_records,
                    t.client_id,
                    t.id,
                );
                assert(m1.clients[t.client_id].held_funds >= held_sum(
                    m1.disputed_transactions,
                    m1.transaction_records,
                    t.client_id,
                ));
            },
            _ => {},
        }
    }
    assert forall|c: u16| #[trigger] m2.clients.dom().contains(c) implies m2.clients[c].held_funds
        >= 0 by {
        assert(m.clients.dom().contains(c) || c == t.client_id);
    };
}

/// An event sequence none of whose events is a cross-client chargeback
/// at the state where it arrives.  Every sequence in which disputes,
/// resolves and chargebacks come from the clients that own the deposits
/// satisfies this.
pub open spec fn no_cross_client_chargebacks(events: Seq<Transaction>) -> bool {
    forall|i: int|
        0 <= i < events.len() ==> !cross_client_chargeback(
            #[trigger] run_events(events.take(i)),
            events[i],
        )
}

/// After any run free of cross-client chargebacks, every held balance is
/// non-negative.
pub proof fn lemma_run_held_nonneg(events: Seq<Transaction>)
    requires
        no_cross_client_chargebacks(events),
    ensures
        forall|c: u16| #[trigger] run_events(events).clients.dom().contains(c) ==> run_events(
            events,
        ).clients[c].held_funds >= 0,
    decreases events.len(),
{
    if events.len() > 0 {
        let prefix = events.drop_last();
        let n = events.len() as int;
        assert(no_cross_client_chargebacks(prefix)) by {
            assert forall|i: int| 0 <= i < prefix.len() implies !cross_client_chargeback(
                #[trigger] run_events(prefix.take(i)),
                prefix[i],
            ) by {
                assert(prefix.take(i) =~= events.take(i));
                assert(!cross_client_chargeback(run_events(events.take(i)), events[i]));
            };
        };
        lemma_run_held_nonneg(prefix);
        lemma_run_events_wf(prefix);
        assert(prefix =~= events.take(n - 1));
        assert(!cross_client_chargeback(run_events(events.take(n - 1)), events[n - 1]));
        lemma_step_preserves_held_nonneg(run_events(prefix), events.last());
    }
}

/// Resolving a dispute undoes it exactly: immediately after an applied
/// dispute, a resolve for the same client and transaction id is applied,
/// and it restores the whole ledger state — balances, records, and the
/// disputed set — to what it was before the dispute, while the total
/// balance is unchanged throughout the cycle.
pub proof fn lemma_dispute_resolve_round_trip(m: LedgerModel, client_id: u16, tx: u32)
    requires
        model_wf(m),
        m.clients.dom().contains(client_id),
        event_outcome(
            m,
            Transaction {
                kind: TransactionType::Dispute,
                client_id,
                id: tx,
                amount: Option::None,
            },
        ) is Applied,
    ensures
        ({
            let d = Transaction {
                kind: TransactionType::Dispute,
                client_id,
                id: tx,
                amount: Option::None,
            };
            let r = Transaction {
                kind: TransactionType::Resolve,
                client_id,
                id: tx,
                amount: Option::None,
            };
            &&& event_outcome(event_step(m, d), r) is Applied
            &&& event_step(event_step(m, d), r) == m
            &&& event_step(m, d).clients[client_id].total_funds
                == m.clients[client_id].total_funds
        }),
{
    let d = Transaction {
        kind: TransactionType::Dispute,
        client_id,
        id: tx,
        amount: Option::None,
    };
    let r = Transaction {
        kind: TransactionType::Resolve,
        client_id,
        id: tx,
        amount: Option::None,
    };
    let m1 = ensure_client(m, client_id);
    assert(m1 =~= m);
    let md = event_step(m, d);
    lemma_unlocked_held_nonneg(m, client_id);
    let md1 = ensure_client(md, client_id);
    assert(md1 =~= md);
    let mr = event_step(md, r);
    assert(mr.disputed_transactions =~= m.disputed_transactions);
    assert(mr.clients[client_id] == m.clients[client_id]);
    assert(mr.clients =~= m.clients);
    assert(mr =~= m);
}

} // verus!
