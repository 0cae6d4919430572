//! Lemmas about [`held_sum`], the sum of the recorded amounts of the
//! disputed deposits owned by one client.  The well-formedness invariant
//! of the ledger bounds each unlocked account's held balance from below by
//! this sum, and these lemmas are what every step of the engine uses to
//! maintain that bound.

use vstd::prelude::*;
use vstd::set::fold::lemma_finite_set_induct;
use vstd::set::fold::lemma_fold_empty;
use vstd::set::fold::lemma_fold_insert;

use crate::model::held_contribution;
use crate::model::held_sum;
use crate::model::held_sum_step;
use crate::types::TransactionRecord;

verus! {

/// The fold step of [`held_sum`] is commutative, as `Set::fold` requires.
pub proof fn lemma_held_sum_step_commutative(
    records: Map<u32, TransactionRecord>,
    client_id: u16,
)
    ensures
        vstd::set::fold::is_fun_commutative(held_sum_step(records, client_id)),
{
}

/// No disputed transactions: the held sum is zero.
pub proof fn lemma_held_sum_empty(records: Map<u32, TransactionRecord>, client_id: u16)
    ensures
        held_sum(Set::empty(), records, client_id) == 0,
{
    lemma_fold_empty(0int, held_sum_step(records, client_id));
}

/// Disputing one more transaction adds its contribution to the held sum.
pub proof fn lemma_held_sum_insert(
    disputed: Set<u32>,
    records: Map<u32, TransactionRecord>,
    client_id: u16,
    tx: u32,
)
    requires
        disputed.finite(),
        !disputed.contains(tx),
    ensures
        held_sum(disputed.insert(tx), records, client_id) == held_sum(disputed, records, client_id)
            + held_contribution(records, client_id, tx),
{
    lemma_held_sum_step_commutative(records, client_id);
    lemma_fold_insert(disputed, 0int, held_sum_step(records, client_id), tx);
}

/// Removing one disputed transaction takes its contribution out of the
/// held sum.
pub proof fn lemma_held_sum_remove(
    disputed: Set<u32>,
    records: Map<u32, TransactionRecord>,
    client_id: u16,
    tx: u32,
)
    requires
        disputed.finite(),
        disputed.contains(tx),
    ensures
        held_sum(disputed, records, client_id) == held_sum(disputed.remove(tx), records, client_id)
            + held_contribution(records, client_id, tx),
{
    assert(disputed.remove(tx).insert(tx) =~= disputed);
    lemma_held_sum_insert(disputed.remove(tx), records, client_id, tx);
}

/// Every contribution is non-negative, so the held sum is non-negative.
pub proof fn lemma_held_sum_nonneg(
    disputed: Set<u32>,
    records: Map<u32, TransactionRecord>,
    client_id: u16,
)
    requires
        disputed.finite(),
    ensures
        held_sum(disputed, records, client_id) >= 0,
{
    let f = held_sum_step(records, client_id);
    let pred = |s: Set<u32>| s.fold(0int, f) >= 0;
    lemma_fold_empty(0int, f);
    assert forall|s: Set<u32>, tx: u32|
        pred(s) && s.finite() && !s.contains(tx) implies #[trigger] pred(s.insert(tx)) by {
        lemma_held_sum_insert(s, records, client_id, tx);
    };
    lemma_finite_set_induct(disputed, pred);
}

/// The held sum covers each single disputed transaction's contribution.
pub proof fn lemma_held_sum_member_bound(
    disputed: Set<u32>,
    records: Map<u32, TransactionRecord>,
    client_id: u16,
    tx: u32,
)
    requires
        disputed.finite(),
        disputed.contains(tx),
    ensures
        held_sum(disputed, records, client_id) >= held_contribution(records, client_id, tx),
{
    lemma_held_sum_remove(disputed, records, client_id, tx);
    lemma_held_sum_nonneg(disputed.remove(tx), records, client_id);
}

/// Two record tables that agree on every disputed transaction give the
/// same held sum.  Creating a record for an undisputed transaction id
/// therefore leaves every held sum unchanged.
pub proof fn lemma_held_sum_agree(
    disputed: Set<u32>,
    records1: Map<u32, TransactionRecord>,
    records2: Map<u32, TransactionRecord>,
    client_id: u16,
)
    requires
        disputed.finite(),
        forall|tx: u32| disputed.contains(tx) ==> #[trigger] held_contribution(
            records1,
            client_id,
            tx,
        ) == held_contribution(records2, client_id, tx),
    ensures
        held_sum(disputed, records1, client_id) == held_sum(disputed, records2, client_id),
{
    let f1 = held_sum_step(records1, client_id);
    let f2 = held_sum_step(records2, client_id);
    let pred = |s: Set<u32>|
        (forall|tx: u32| s.contains(tx) ==> #[trigger] held_contribution(records1, client_id, tx)
            == held_contribution(records2, client_id, tx)) ==> s.fold(0int, f1) == s.fold(0int, f2);
    lemma_fold_empty(0int, f1);
    lemma_fold_empty(0int, f2);
    assert forall|s: Set<u32>, tx: u32|
        pred(s) && s.finite() && !s.contains(tx) implies #[trigger] pred(s.insert(tx)) by {
        if forall|x: u32| s.insert(tx).contains(x) ==> #[trigger] held_contribution(
            records1,
            client_id,
            x,
        ) == held_contribution(records2, client_id, x) {
            assert(forall|x: u32| s.contains(x) ==> #[trigger] held_contribution(
                records1,
                client_id,
                x,
            ) == held_contribution(records2, client_id, x)) by {
                assert(forall|x: u32| s.contains(x) ==> s.insert(tx).contains(x));
            };
            lemma_held_sum_insert(s, records1, client_id, tx);
            lemma_held_sum_insert(s, records2, client_id, tx);
            assert(s.insert(tx).contains(tx));
        }
    };
    lemma_finite_set_induct(disputed, pred);
}

/// A client none of whose disputed transactions contribute anything has a
/// held sum of zero.  In particular, a client that owns no disputed
/// deposit record has held sum zero.
pub proof fn lemma_held_sum_zero(
    disputed: Set<u32>,
    records: Map<u32, TransactionRecord>,
    client_id: u16,
)
    requires
        disputed.finite(),
        forall|tx: u32| disputed.contains(tx) ==> #[trigger] held_contribution(
            records,
            client_id,
            tx,
        ) == 0,
    ensures
        held_sum(disputed, records, client_id) == 0,
{
    let f = held_sum_step(records, client_id);
    let pred = |s: Set<u32>|
        (forall|tx: u32| s.contains(tx) ==> #[trigger] held_contribution(records, client_id, tx)
            == 0) ==> s.fold(0int, f) == 0;
    lemma_fold_empty(0int, f);
    assert forall|s: Set<u32>, tx: u32|
        pred(s) && s.finite() && !s.contains(tx) implies #[trigger] pred(s.insert(tx)) by {
        if forall|x: u32| s.insert(tx).contains(x) ==> #[trigger] held_contribution(
            records,
            client_id,
            x,
        ) == 0 {
            assert(forall|x: u32| s.contains(x) ==> s.insert(tx).contains(x));
            lemma_held_sum_insert(s, records, client_id, tx);
            assert(s.insert(tx).contains(tx));
        }
    };
    lemma_finite_set_induct(disputed, pred);
}

} // verus!
