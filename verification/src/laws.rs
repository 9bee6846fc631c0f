//! The library's stated laws, proved over the same spec functions that the
//! executable operations are verified against.

use vstd::prelude::*;

use crate::accrual::{accrued, earned_nanos, lemma_div_superadditive, SECONDS_PER_DAY};
use crate::money::NANOS_PER_CENT;
use crate::purchase::{bumped, purchase_allowed, with_added};
use crate::timestamp::rfc2822_of;
use crate::types::{ItemV, QueueV};

verus! {

/// Accrual is linear in elapsed time: accruing over `e1` seconds and then
/// over `e2` more, from the same starting balance, differs from accruing
/// once over `e1 + e2` by at most one nano-unit of flooring — far inside
/// the two-digit display precision.
pub proof fn lemma_accrual_linearity(amount: int, interval_days: int, balance: int, e1: int, e2: int)
    requires
        interval_days >= 1,
    ensures
        ({
            let split = balance + earned_nanos(amount, interval_days, e1) + earned_nanos(
                amount,
                interval_days,
                e2,
            );
            let joint = balance + earned_nanos(amount, interval_days, e1 + e2);
            split <= joint <= split + 1
        }),
{
    let d = interval_days * (SECONDS_PER_DAY as int);
    assert(interval_days * (SECONDS_PER_DAY as int) >= 86_400) by (nonlinear_arith)
        requires
            interval_days >= 1,
    ;
    assert(amount * (e1 + e2) == amount * e1 + amount * e2) by (nonlinear_arith);
    lemma_div_superadditive(amount * e1, amount * e2, d);
}

/// Pausing is idempotent under status evaluation: however often a paused
/// queue is recalculated, its balance never moves, it stays paused, and
/// its `last_calculation` always advances to the time of the latest
/// evaluation.
pub proof fn lemma_pause_idempotent(q: QueueV, t1: int, t2: int)
    requires
        q.paused,
    ensures
        ({
            let q1 = accrued(q, t1);
            let q2 = accrued(q1, t2);
            &&& q1.current_balance == q.current_balance
            &&& q2.current_balance == q.current_balance
            &&& q1.paused && q2.paused
            &&& q1.last_calculation == rfc2822_of(t1)
            &&& q2.last_calculation == rfc2822_of(t2)
        }),
{
}

/// The purchase boundary: without force, an item costing exactly the
/// balance is rejected, and one costing a cent less is allowed.
pub proof fn lemma_purchase_boundary(balance: int)
    ensures
        !purchase_allowed(balance, balance, false),
        purchase_allowed(balance, balance - NANOS_PER_CENT, false),
{
}

/// The bump invariant: for a pending list of two or more items, bumping
/// the head keeps the length and the multiset of items, and moves the item
/// that was second into the head position — the old head never stays at
/// the front. Nothing else of the queue changes. With fewer than two
/// items, the command leaves the queue unchanged.
pub proof fn lemma_bump_invariant(q: QueueV, pos: int)
    requires
        q.future_purchases.len() >= 2,
        1 <= pos <= q.future_purchases.len() - 1,
    ensures
        ({
            let qb = bumped(q, pos);
            &&& qb.future_purchases.len() == q.future_purchases.len()
            &&& qb.future_purchases[0] == q.future_purchases[1]
            &&& qb.future_purchases.to_multiset() == q.future_purchases.to_multiset()
            &&& qb.past_purchases == q.past_purchases
            &&& qb.current_balance == q.current_balance
            &&& qb.income == q.income
            &&& qb.paused == q.paused
            &&& qb.last_calculation == q.last_calculation
        }),
{
    broadcast use vstd::seq_lib::to_multiset_insert;

    let head = q.future_purchases[0];
    let tail = q.future_purchases.drop_first();
    let newf = bumped(q, pos).future_purchases;
    assert(q.future_purchases =~= tail.insert(0, head));
    assert(newf.to_multiset() == tail.to_multiset().insert(head));
    assert(tail.insert(0, head).to_multiset() == tail.to_multiset().insert(head));
}

/// The clock always advances: whatever the queue's pause state and
/// whatever its balance does, a recalculation's write-back sets
/// `last_calculation` to the evaluation time and leaves the pause flag as
/// it was.
pub proof fn lemma_clock_always_advances(q: QueueV, now: int)
    ensures
        accrued(q, now).last_calculation == rfc2822_of(now),
        accrued(q, now).paused == q.paused,
{
}

/// Accrual is strictly monotone in elapsed time as far as the nano-unit
/// precision can express it: an income of at least one nano-unit per
/// second strictly earns over any positive span, and any positive income
/// strictly debits over a negative span (a clock that moved backward), so
/// the recalculated balance then falls strictly below the current one.
pub proof fn lemma_accrual_strict(amount: int, interval_days: int, elapsed: int)
    requires
        interval_days >= 1,
    ensures
        amount >= interval_days * (SECONDS_PER_DAY as int) && elapsed >= 1 ==> earned_nanos(
            amount,
            interval_days,
            elapsed,
        ) >= 1,
        amount >= 1 && elapsed <= -1 ==> earned_nanos(amount, interval_days, elapsed) <= -1,
{
    let d = interval_days * (SECONDS_PER_DAY as int);
    assert(interval_days * (SECONDS_PER_DAY as int) >= 86_400) by (nonlinear_arith)
        requires
            interval_days >= 1,
    ;
    if amount >= d && elapsed >= 1 {
        assert(amount * elapsed >= d) by (nonlinear_arith)
            requires
                amount >= d,
                d >= 1,
                elapsed >= 1,
        ;
        vstd::arithmetic::div_mod::lemma_div_is_ordered(d, amount * elapsed, d);
        vstd::arithmetic::div_mod::lemma_div_by_self(d);
    }
    if amount >= 1 && elapsed <= -1 {
        assert(amount * elapsed <= -1) by (nonlinear_arith)
            requires
                amount >= 1,
                elapsed <= -1,
        ;
        vstd::arithmetic::div_mod::lemma_div_is_ordered(amount * elapsed, -1, d);
        crate::accrual::lemma_neg_div(1, d);
        if d > 1 {
            vstd::arithmetic::div_mod::lemma_small_mod(1, d as nat);
            vstd::arithmetic::div_mod::lemma_basic_div(1, d);
        }
    }
}

/// Between purchases an unpaused queue's balance never decreases: with a
/// non-negative income and time moving forward, recalculation only adds.
pub proof fn lemma_accrual_non_decreasing(amount: int, interval_days: int, elapsed: int)
    requires
        amount >= 0,
        interval_days >= 1,
        elapsed >= 0,
    ensures
        earned_nanos(amount, interval_days, elapsed) >= 0,
{
    assert(amount * elapsed >= 0) by (nonlinear_arith)
        requires
            amount >= 0,
            elapsed >= 0,
    ;
    assert(interval_days * (SECONDS_PER_DAY as int) >= 86_400) by (nonlinear_arith)
        requires
            interval_days >= 1,
    ;
    vstd::arithmetic::div_mod::lemma_div_pos_is_pos(
        amount * elapsed,
        interval_days * (SECONDS_PER_DAY as int),
    );
}

/// Only a forced purchase can push the balance negative: a purchase that
/// is allowed without force leaves a strictly positive balance.
pub proof fn lemma_unforced_purchase_stays_positive(balance: int, cost: int)
    requires
        purchase_allowed(balance, cost, false),
    ensures
        balance - cost > 0,
{
}

/// Adding with `prepend` places the item at index 0; without it, at the
/// tail. Either way every earlier item keeps its order and nothing else
/// of the queue changes.
pub proof fn lemma_add_prepend(q: QueueV, item: ItemV)
    ensures
        with_added(q, item, true).future_purchases[0] == item,
        with_added(q, item, true).future_purchases.len() == q.future_purchases.len() + 1,
        with_added(q, item, true).future_purchases.drop_first() =~= q.future_purchases,
        with_added(q, item, false).future_purchases.last() == item,
        with_added(q, item, false).future_purchases.len() == q.future_purchases.len() + 1,
        with_added(q, item, false).future_purchases.drop_last() =~= q.future_purchases,
        with_added(q, item, true).past_purchases == q.past_purchases,
        with_added(q, item, false).past_purchases == q.past_purchases,
        with_added(q, item, true).current_balance == q.current_balance,
        with_added(q, item, false).current_balance == q.current_balance,
{
}

} // verus!
