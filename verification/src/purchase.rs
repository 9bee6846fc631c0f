//! The purchase-queue state machine: add, delete, bump and buy on a single
//! queue's pending and past lists.

use vstd::prelude::*;

use crate::money::{Money, NANOS_PER_UNIT};
use crate::timestamp::{format_rfc2822, rfc2822_of, rfc2822_parse, TIMESTAMP_MAX};
use crate::types::{Income, Item, ItemV, Queue, QueueV, SqError};

verus! {

/// `q` after adding `item` at the head (`prepend`) or the tail.
pub open spec fn with_added(q: QueueV, item: ItemV, prepend: bool) -> QueueV {
    QueueV {
        future_purchases: if prepend {
            q.future_purchases.insert(0, item)
        } else {
            q.future_purchases.push(item)
        },
        ..q
    }
}

/// `q` after unconditionally discarding the head of its pending list.
pub open spec fn with_head_deleted(q: QueueV) -> QueueV
    recommends
        q.future_purchases.len() >= 1,
{
    QueueV { future_purchases: q.future_purchases.drop_first(), ..q }
}

/// `q` after its head was bumped back to position `pos`: the head is
/// removed and reinserted at index `pos` of the remaining list.
pub open spec fn bumped(q: QueueV, pos: int) -> QueueV
    recommends
        q.future_purchases.len() >= 2,
        1 <= pos <= q.future_purchases.len() - 1,
{
    QueueV {
        future_purchases: q.future_purchases.drop_first().insert(pos, q.future_purchases[0]),
        ..q
    }
}

/// `q` after buying its head item for `cost` at time `now`: the balance is
/// debited by `cost`, and the head moves to the tail of the past list with
/// its amount overwritten by what was actually paid and its purchase time
/// set.
pub open spec fn purchased(q: QueueV, cost: int, now: int) -> QueueV
    recommends
        q.future_purchases.len() >= 1,
{
    QueueV {
        current_balance: q.current_balance - cost,
        future_purchases: q.future_purchases.drop_first(),
        past_purchases: q.past_purchases.push(
            ItemV {
                amount: cost,
                time_purchased: Some(rfc2822_of(now)),
                ..q.future_purchases[0]
            },
        ),
        ..q
    }
}

/// The affordability gate: a purchase is permitted when the cost is
/// strictly below the balance, or when forced. An item costing exactly the
/// balance is rejected without force; this boundary is deliberate.
pub open spec fn purchase_allowed(balance: int, cost: int, force: bool) -> bool {
    cost < balance || force
}

/// How a buy request ends when the state itself is sound.
#[derive(Clone, Copy, Debug, PartialEq, Eq, Structural)]
pub enum BuyOutcome {
    /// The head item was bought for the carried price.
    Bought(Money),
    /// Not enough money accrued and the purchase was not forced; nothing
    /// changed.
    NotAffordable,
    /// There was no item to buy; nothing changed.
    EmptyQueue,
}

/// Relies on rand's `Rng::gen_range` over an inclusive range: it panics
/// only on an empty range and returns a uniformly drawn value within the
/// bounds.
#[verifier::external_body]
fn random_index_between(lo: usize, hi: usize) -> (r: usize)
    requires
        lo <= hi,
    ensures
        lo <= r <= hi,
{
    rand::Rng::gen_range(&mut rand::thread_rng(), lo..=hi)
}

impl Queue {
    /// A fresh queue with the default income of one unit per day, an empty
    /// balance and no purchases, last calculated at `now`.
    pub fn new_default(name: String, now: i64) -> (r: Queue)
        requires
            0 <= now <= TIMESTAMP_MAX,
        ensures
            r@ == (QueueV {
                income: crate::types::IncomeV { amount: NANOS_PER_UNIT as int, interval_in_days: 1 },
                name: name@,
                last_calculation: rfc2822_of(now as int),
                current_balance: 0,
                future_purchases: Seq::empty(),
                past_purchases: Seq::empty(),
                paused: false,
            }),
            rfc2822_parse(rfc2822_of(now as int)) == Some(now as int),
    {
        let r = Queue {
            income: Income { amount: Money::from_nanos(NANOS_PER_UNIT), interval_in_days: 1 },
            name,
            last_calculation: format_rfc2822(now),
            current_balance: Money::zero(),
            future_purchases: std::collections::VecDeque::new(),
            past_purchases: std::collections::VecDeque::new(),
            paused: false,
        };
        proof {
            assert(r.future_purchases.deep_view() =~= Seq::<ItemV>::empty());
            assert(r.past_purchases.deep_view() =~= Seq::<ItemV>::empty());
            assert(r@ =~= (QueueV {
                income: crate::types::IncomeV { amount: NANOS_PER_UNIT as int, interval_in_days: 1 },
                name: r.name@,
                last_calculation: rfc2822_of(now as int),
                current_balance: 0,
                future_purchases: Seq::empty(),
                past_purchases: Seq::empty(),
                paused: false,
            }));
        }
        r
    }

    /// Add `item` to the pending list: at the head if `prepend`, else at
    /// the tail. Item amounts must be non-negative.
    pub fn add_item(&mut self, item: Item, prepend: bool)
        requires
            item@.amount >= 0,
        ensures
            final(self)@ == with_added(old(self)@, item@, prepend),
    {
        let ghost item_v = item@;
        if prepend {
            self.future_purchases.push_front(item);
            proof {
                assert(self.future_purchases.deep_view() =~= old(
                    self,
                ).future_purchases.deep_view().insert(0, item_v));
                assert(self@ =~= with_added(old(self)@, item_v, prepend));
            }
        } else {
            self.future_purchases.push_back(item);
            proof {
                assert(self.future_purchases.deep_view() =~= old(
                    self,
                ).future_purchases.deep_view().push(item_v));
                assert(self@ =~= with_added(old(self)@, item_v, prepend));
            }
        }
    }

    /// Unconditionally remove and discard the head of the pending list;
    /// with an empty list this is a no-op and returns `None`.
    pub fn delete_head(&mut self) -> (r: Option<Item>)
        ensures
            old(self)@.future_purchases.len() == 0 ==> r is None && final(self)@ == old(self)@,
            old(self)@.future_purchases.len() > 0 ==> (r matches Some(it) && it@ == old(
                self,
            )@.future_purchases[0] && final(self)@ == with_head_deleted(old(self)@)),
    {
        let r = self.future_purchases.pop_front();
        proof {
            if old(self)@.future_purchases.len() > 0 {
                assert(self.future_purchases.deep_view() =~= old(
                    self,
                ).future_purchases.deep_view().drop_first());
                assert(self@ =~= with_head_deleted(old(self)@));
            } else {
                assert(self@ =~= old(self)@);
            }
        }
        r
    }

    /// Move the head of the queue back to position `pos`, keeping every
    /// other item in order. The head position itself is excluded by the
    /// lower bound on `pos`, so the next candidate is guaranteed to change.
    pub fn bump_head(&mut self, pos: usize)
        requires
            old(self)@.future_purchases.len() >= 2,
            1 <= pos <= old(self)@.future_purchases.len() - 1,
        ensures
            final(self)@ == bumped(old(self)@, pos as int),
    {
        let head = self.future_purchases.pop_front().unwrap();
        let ghost head_v = head@;
        self.future_purchases.insert(pos, head);
        proof {
            assert(self.future_purchases.deep_view() =~= old(
                self,
            ).future_purchases.deep_view().drop_first().insert(pos as int, head_v));
            assert(self@ =~= bumped(old(self)@, pos as int));
        }
    }

    /// Bump the head back to a position drawn uniformly at random from the
    /// valid range (a "not right now" button). Returns the chosen position.
    /// With exactly two pending items the only non-head position is 1 and
    /// the head always goes there; with more, the position is drawn from
    /// the inclusive range up to the second-to-last index. Callers treat
    /// shorter queues as a reported no-op.
    pub fn bump_head_random(&mut self) -> (pos: usize)
        requires
            old(self)@.future_purchases.len() >= 2,
        ensures
            1 <= pos,
            old(self)@.future_purchases.len() == 2 ==> pos == 1,
            old(self)@.future_purchases.len() >= 3 ==> pos <= old(
                self,
            )@.future_purchases.len() - 2,
            final(self)@ == bumped(old(self)@, pos as int),
    {
        let n = self.future_purchases.len();
        let upper = if n == 2 {
            1
        } else {
            n - 2
        };
        let pos = random_index_between(1, upper);
        self.bump_head(pos);
        pos
    }

    /// Record the purchase of the head item for `cost` at time `now`:
    /// debit the balance and move the item, with its paid price and
    /// purchase time, to the end of the history. The affordability gate is
    /// the caller's business: an operator-corrected price is recorded even
    /// when it exceeds the balance.
    pub fn purchase_head(&mut self, cost: Money, now: i64)
        requires
            old(self)@.future_purchases.len() >= 1,
            0 <= now <= TIMESTAMP_MAX,
            i64::MIN <= old(self)@.current_balance - cost@ <= i64::MAX,
        ensures
            final(self)@ == purchased(old(self)@, cost@, now as int),
    {
        let mut item = self.future_purchases.pop_front().unwrap();
        item.time_purchased = Some(format_rfc2822(now));
        item.amount = cost;
        let ghost item_v = item@;
        self.current_balance = self.current_balance.checked_sub(cost).unwrap();
        self.past_purchases.push_back(item);
        proof {
            assert(self.future_purchases.deep_view() =~= old(
                self,
            ).future_purchases.deep_view().drop_first());
            assert(self.past_purchases.deep_view() =~= old(
                self,
            ).past_purchases.deep_view().push(item_v));
            assert(item_v =~= (ItemV {
                amount: cost@,
                time_purchased: Some(rfc2822_of(now as int)),
                ..old(self)@.future_purchases[0]
            }));
            assert(self@ =~= purchased(old(self)@, cost@, now as int));
        }
    }

    /// Decide and, when permitted, perform a buy of the head item: the
    /// cost is the operator-supplied override price if given, else the
    /// item's listed price; the purchase goes through when the cost is
    /// strictly below the balance or when forced. On rejection or an empty
    /// queue nothing changes and the outcome reports it.
    pub fn buy_head(&mut self, price_override: Option<Money>, force: bool, now: i64) -> (r: Result<
        BuyOutcome,
        SqError,
    >)
        requires
            0 <= now <= TIMESTAMP_MAX,
        ensures
            ({
                let q0 = old(self)@;
                let cost = match price_override {
                    Some(c) => c@,
                    None => if q0.future_purchases.len() > 0 {
                        q0.future_purchases[0].amount
                    } else {
                        0
                    },
                };
                &&& (q0.future_purchases.len() == 0 ==> r == Ok::<BuyOutcome, SqError>(
                    BuyOutcome::EmptyQueue,
                ) && final(self)@ == q0)
                &&& (q0.future_purchases.len() > 0 && !purchase_allowed(
                    q0.current_balance,
                    cost,
                    force,
                ) ==> r == Ok::<BuyOutcome, SqError>(BuyOutcome::NotAffordable) && final(self)@
                    == q0)
                &&& (q0.future_purchases.len() > 0 && purchase_allowed(
                    q0.current_balance,
                    cost,
                    force,
                ) && !(i64::MIN <= q0.current_balance - cost <= i64::MAX) ==> r == Err::<
                    BuyOutcome,
                    SqError,
                >(SqError::BalanceOutOfRange) && final(self)@ == q0)
                &&& (q0.future_purchases.len() > 0 && purchase_allowed(
                    q0.current_balance,
                    cost,
                    force,
                ) && i64::MIN <= q0.current_balance - cost <= i64::MAX ==> (r matches Ok(o)
                    && o matches BuyOutcome::Bought(paid) && paid@ == cost && final(self)@
                    == purchased(q0, cost, now as int)))
            }),
    {
        if self.future_purchases.len() == 0 {
            return Ok(BuyOutcome::EmptyQueue);
        }
        let cost = match price_override {
            Some(c) => c,
            None => self.future_purchases[0].amount,
        };
        if cost.lt(self.current_balance) || force {
            match self.current_balance.checked_sub(cost) {
                Some(_) => {
                    self.purchase_head(cost, now);
                    Ok(BuyOutcome::Bought(cost))
                },
                None => Err(SqError::BalanceOutOfRange),
            }
        } else {
            Ok(BuyOutcome::NotAffordable)
        }
    }

    /// The affordability gate, decided on this queue's balance: true when
    /// `cost` is strictly below the balance or the purchase is forced.
    pub fn can_buy(&self, cost: Money, force: bool) -> (r: bool)
        ensures
            r == purchase_allowed(self@.current_balance, cost@, force),
    {
        cost.lt(self.current_balance) || force
    }

    /// Pause or resume accrual for this queue alone.
    pub fn set_paused(&mut self, paused: bool)
        ensures
            final(self)@ == (QueueV { paused, ..old(self)@ }),
    {
        self.paused = paused;
    }

    /// Replace this queue's income rate.
    pub fn set_income(&mut self, income: Income)
        ensures
            final(self)@ == (QueueV { income: income@, ..old(self)@ }),
    {
        self.income = income;
    }
}

} // verus!
