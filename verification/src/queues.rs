//! The multi-queue directory: the persisted `State` holds every queue,
//! keyed by unique name, plus the currently selected name and the
//! directory-wide pause flag. Any single-queue mutation follows the
//! replace-by-name discipline: every queue with the mutated queue's name is
//! removed and the mutated queue appended, before the whole state is
//! written back.

use vstd::prelude::*;

use crate::accrual::{accrued, new_balance_of};
use crate::money::Money;
use crate::purchase::{bumped, purchase_allowed, purchased, with_added, with_head_deleted, BuyOutcome};
use crate::timestamp::{rfc2822_of, rfc2822_parse, TIMESTAMP_MAX};
use crate::types::{Income, IncomeV, Item, Queue, QueueV, SqError, State, StateV};

verus! {

/// The first index whose queue carries `name`, if any: selection always
/// resolves to the first match.
pub open spec fn first_index_named(qs: Seq<QueueV>, name: Seq<char>) -> Option<int>
    decreases qs.len(),
{
    if qs.len() == 0 {
        Option::None
    } else if qs[0].name == name {
        Option::Some(0)
    } else {
        match first_index_named(qs.drop_first(), name) {
            Option::None => Option::None,
            Option::Some(i) => Option::Some(i + 1),
        }
    }
}

/// What `first_index_named` finds: the first match by name.
pub proof fn lemma_first_index_named(qs: Seq<QueueV>, name: Seq<char>)
    ensures
        match first_index_named(qs, name) {
            Option::None => forall|k: int| 0 <= k < qs.len() ==> qs[k].name != name,
            Option::Some(i) => 0 <= i < qs.len() && qs[i].name == name && (forall|k: int|
                0 <= k < i ==> qs[k].name != name),
        },
    decreases qs.len(),
{
    if qs.len() > 0 && qs[0].name != name {
        lemma_first_index_named(qs.drop_first(), name);
        match first_index_named(qs.drop_first(), name) {
            Option::None => {
                assert forall|k: int| 0 <= k < qs.len() implies qs[k].name != name by {
                    if k > 0 {
                        assert(qs.drop_first()[k - 1] == qs[k]);
                    }
                }
            },
            Option::Some(i) => {
                assert(qs.drop_first()[i] == qs[i + 1]);
                assert forall|k: int| 0 <= k < i + 1 implies qs[k].name != name by {
                    if k > 0 {
                        assert(qs.drop_first()[k - 1] == qs[k]);
                    }
                }
            },
        }
    }
}

/// The converse: a first match determines `first_index_named`.
pub proof fn lemma_first_index_named_is(qs: Seq<QueueV>, name: Seq<char>, i: int)
    requires
        0 <= i < qs.len(),
        qs[i].name == name,
        forall|k: int| 0 <= k < i ==> qs[k].name != name,
    ensures
        first_index_named(qs, name) == Some(i),
    decreases qs.len(),
{
    if i > 0 {
        lemma_first_index_named_is(qs.drop_first(), name, i - 1);
    }
}

/// The queues that survive a replace-by-name of `name`: those named
/// anything else, in their original order.
pub open spec fn others(qs: Seq<QueueV>, name: Seq<char>) -> Seq<QueueV> {
    qs.filter(|qv: QueueV| qv.name != name)
}

/// A whole state after the replace-by-name discipline was applied for
/// `mutated`: every queue carrying its name is removed and `mutated` is
/// appended.
pub open spec fn with_replaced(s: StateV, mutated: QueueV) -> StateV {
    StateV {
        queues: others(s.queues, mutated.name).push(mutated),
        currently_selected: s.currently_selected,
        globally_paused: s.globally_paused,
    }
}

/// Whether a status evaluation owes a report: the directory is not
/// globally paused, the selection resolves, and the selected queue's
/// recalculation neither hits a fatal error nor (unless paused, when the
/// value is discarded) leaves the representable money range.
pub open spec fn status_sound(s: StateV, now: int) -> bool {
    !s.globally_paused && match first_index_named(s.queues, s.currently_selected) {
        Option::None => false,
        Option::Some(i) => {
            let q0 = s.queues[i];
            match new_balance_of(q0, now) {
                Option::None => false,
                Option::Some(b) => q0.paused || (i64::MIN <= b <= i64::MAX),
            }
        },
    }
}

/// Queue names are unique within a directory: no two positions carry the
/// same name.
pub open spec fn names_unique(qs: Seq<QueueV>) -> bool {
    forall|i: int, j: int|
        0 <= i < j < qs.len() ==> qs[i].name != qs[j].name
}

/// What survives a replace-by-name keeps names pairwise distinct.
proof fn lemma_others_unique(qs: Seq<QueueV>, name: Seq<char>)
    requires
        names_unique(qs),
    ensures
        names_unique(others(qs, name)),
        forall|k: int|
            0 <= k < others(qs, name).len() ==> qs.contains(#[trigger] others(qs, name)[k]),
    decreases qs.len(),
{
    broadcast use Seq::lemma_filter_push;
    broadcast use Seq::lemma_filter_contains_rev;

    if qs.len() > 0 {
        let last = qs.last();
        let shorter = qs.drop_last();
        lemma_others_unique(shorter, name);
        assert(qs =~= shorter.push(last));
        assert(others(qs, name) == others(shorter.push(last), name));
        let kept = others(shorter, name);
        assert forall|k: int| 0 <= k < kept.len() implies shorter.contains(#[trigger] kept[k])
            && qs.contains(kept[k]) by {
            assert(kept.contains(kept[k]));
        }
        if last.name != name {
            assert forall|i: int, j: int|
                0 <= i < j < others(qs, name).len() implies others(qs, name)[i].name != others(
                qs,
                name,
            )[j].name by {
                if j == kept.len() {
                    let e = kept[i];
                    assert(shorter.contains(e));
                    let w = choose|w: int| 0 <= w < shorter.len() && shorter[w] == e;
                    assert(qs[w].name != qs[qs.len() - 1].name);
                }
            }
            assert(qs.contains(last));
        }
    }
}

/// The two structural invariants of the directory survive the
/// replace-by-name discipline: queue names stay pairwise unique, and the
/// reinserted queue is findable by its name — in particular, replacing the
/// selected queue leaves the selection resolvable.
pub proof fn lemma_replace_by_name_invariants(s: StateV, q: QueueV)
    ensures
        names_unique(s.queues) ==> names_unique(with_replaced(s, q).queues),
        first_index_named(with_replaced(s, q).queues, q.name) is Some,
{
    broadcast use Seq::lemma_filter_pred;

    let kept = others(s.queues, q.name);
    let newqs = with_replaced(s, q).queues;
    assert forall|k: int| 0 <= k < kept.len() implies kept[k].name != q.name by {
        assert(kept[k].name != q.name);
    }
    if names_unique(s.queues) {
        lemma_others_unique(s.queues, q.name);
        assert forall|i: int, j: int| 0 <= i < j < newqs.len() implies newqs[i].name
            != newqs[j].name by {
            if j < kept.len() {
                assert(others(s.queues, q.name)[i].name != others(s.queues, q.name)[j].name);
            }
        }
    }
    assert(newqs[kept.len() as int].name == q.name);
    lemma_first_index_named_is(newqs, q.name, kept.len() as int);
}

/// Removing one queue that carries `name` does not change what survives a
/// replace-by-name of `name`.
pub proof fn lemma_others_remove(qs: Seq<QueueV>, name: Seq<char>, i: int)
    requires
        0 <= i < qs.len(),
        qs[i].name == name,
    ensures
        others(qs.remove(i), name) == others(qs, name),
    decreases qs.len(),
{
    broadcast use Seq::lemma_filter_push;

    if i == qs.len() - 1 {
        assert(qs =~= qs.drop_last().push(qs[i]));
        assert(qs.remove(i) =~= qs.drop_last());
        assert(others(qs, name) == others(qs.drop_last().push(qs[i]), name));
    } else {
        let last = qs.last();
        let shorter = qs.drop_last();
        assert(qs =~= shorter.push(last));
        assert(qs.remove(i) =~= shorter.remove(i).push(last));
        lemma_others_remove(shorter, name, i);
        assert(others(qs, name) == others(shorter.push(last), name));
        assert(others(qs.remove(i), name) == others(shorter.remove(i).push(last), name));
    }
}

impl State {
    /// The index of the currently selected queue: the first queue carrying
    /// the selected name. `None` means the stored document is inconsistent
    /// and must be fixed by hand.
    pub fn selected_index(&self) -> (r: Option<usize>)
        ensures
            match r {
                Some(i) => first_index_named(self@.queues, self@.currently_selected) == Some(
                    i as int,
                ),
                None => first_index_named(self@.queues, self@.currently_selected) is None,
            },
    {
        let n = self.queues.len();
        let mut i: usize = 0;
        while i < n
            invariant
                0 <= i <= n,
                n == self.queues.len(),
                forall|k: int|
                    0 <= k < i ==> self@.queues[k].name != self@.currently_selected,
            decreases n - i,
        {
            if self.queues[i].name == self.currently_selected {
                proof {
                    assert(self@.queues[i as int].name == self@.currently_selected);
                    lemma_first_index_named_is(
                        self@.queues,
                        self@.currently_selected,
                        i as int,
                    );
                }
                return Some(i);
            }
            i += 1;
        }
        proof {
            lemma_first_index_named(self@.queues, self@.currently_selected);
            match first_index_named(self@.queues, self@.currently_selected) {
                Some(j) => {
                    assert(self@.queues[j].name == self@.currently_selected);
                },
                None => {},
            }
        }
        None
    }

    /// Apply the replace-by-name discipline: remove every queue whose name
    /// equals `q`'s and append `q`. This is how a mutated queue re-enters
    /// the directory; it also keeps queue names unique among survivors.
    pub fn replace_by_name(&mut self, q: Queue)
        ensures
            final(self)@ == with_replaced(old(self)@, q@),
    {
        let ghost orig = old(self)@.queues;
        let ghost name_v = q@.name;
        let mut kept: Vec<Queue> = Vec::new();
        let ghost j: int = 0;
        proof {
            assert(orig.take(0) =~= Seq::<QueueV>::empty());
            assert(kept.deep_view() =~= others(orig.take(0), name_v));
            assert(orig.skip(0) =~= orig);
        }
        while self.queues.len() > 0
            invariant
                0 <= j <= orig.len(),
                self.queues.deep_view() =~= orig.skip(j),
                kept.deep_view() == others(orig.take(j), name_v),
                q@.name == name_v,
                self@.currently_selected == old(self)@.currently_selected,
                self@.globally_paused == old(self)@.globally_paused,
            decreases self.queues.len(),
        {
            let ghost pre = self.queues.deep_view();
            let ghost prevq = self.queues@;
            let cur = self.queues.remove(0);
            let ghost cur_v = cur@;
            proof {
                assert(pre =~= orig.skip(j));
                assert(orig.skip(j).len() == orig.len() - j);
                assert(j < orig.len());
                assert(pre[0] == cur_v);
                assert(orig.skip(j)[0] == orig[j]);
                assert(cur_v == orig[j]);
            }
            if !(cur.name == q.name) {
                kept.push(cur);
                proof {
                    assert(kept.deep_view() =~= others(orig.take(j), name_v).push(cur_v));
                }
            }
            proof {
                broadcast use Seq::lemma_filter_push;

                let t1 = orig.take(j + 1);
                assert(t1 =~= orig.take(j).push(orig[j]));
                assert(others(t1, name_v) == others(orig.take(j).push(orig[j]), name_v));
                assert(self.queues@ =~= prevq.subrange(1, prevq.len() as int));
                assert forall|k: int| 0 <= k < self.queues.deep_view().len() implies
                    self.queues.deep_view()[k] == orig.skip(j + 1)[k] by {
                    assert(self.queues.deep_view()[k] == self.queues@[k].deep_view());
                    assert(self.queues@[k] == prevq[k + 1]);
                    assert(pre[k + 1] == prevq[k + 1].deep_view());
                    assert(pre[k + 1] == orig.skip(j)[k + 1]);
                    assert(orig.skip(j)[k + 1] == orig[j + k + 1]);
                    assert(orig.skip(j + 1)[k] == orig[j + 1 + k]);
                }
                assert(self.queues.deep_view() =~= orig.skip(j + 1));
                j = j + 1;
            }
        }
        proof {
            assert(orig.take(j) =~= orig);
        }
        kept.push(q);
        self.queues = kept;
        proof {
            assert(self.queues.deep_view() =~= others(orig, name_v).push(q@));
            assert(self@ =~= with_replaced(old(self)@, q@));
        }
    }
}

impl State {
    /// Resolve the selection and take the selected queue out of the
    /// directory, for a command to mutate and hand back through
    /// `replace_by_name`.
    fn take_selected(&mut self) -> (r: Result<(usize, Queue), SqError>)
        ensures
            (r is Err <==> first_index_named(old(self)@.queues, old(self)@.currently_selected)
                is None),
            r matches Err(e) ==> e == SqError::NoSelectedQueue && final(self)@ == old(self)@,
            r matches Ok(p) ==> ({
                &&& first_index_named(old(self)@.queues, old(self)@.currently_selected) == Some(
                    p.0 as int,
                )
                &&& 0 <= p.0 < old(self)@.queues.len()
                &&& p.1@ == old(self)@.queues[p.0 as int]
                &&& p.1@.name == old(self)@.currently_selected
                &&& final(self)@.queues == old(self)@.queues.remove(p.0 as int)
                &&& final(self)@.currently_selected == old(self)@.currently_selected
                &&& final(self)@.globally_paused == old(self)@.globally_paused
                &&& others(final(self)@.queues, p.1@.name) == others(
                    old(self)@.queues,
                    p.1@.name,
                )
            }),
    {
        let i = match self.selected_index() {
            Some(i) => i,
            None => {
                return Err(SqError::NoSelectedQueue);
            },
        };
        proof {
            lemma_first_index_named(self@.queues, self@.currently_selected);
        }
        let ghost pre = self.queues.deep_view();
        let q = self.queues.remove(i);
        proof {
            assert(pre[i as int] == q@);
            assert forall|k: int| 0 <= k < self.queues.deep_view().len() implies
                self.queues.deep_view()[k] == pre.remove(i as int)[k] by {
                assert(self.queues.deep_view()[k] == self.queues@[k].deep_view());
                if k < i {
                    assert(self.queues@[k] == old(self).queues@[k]);
                } else {
                    assert(self.queues@[k] == old(self).queues@[k + 1]);
                }
            }
            assert(self.queues.deep_view() =~= pre.remove(i as int));
            lemma_others_remove(pre, q@.name, i as int);
        }
        Ok((i, q))
    }

    /// Pause or unpause accrual for the currently selected queue and
    /// reinsert it by the replace-by-name discipline.
    pub fn pause_selected(&mut self, paused: bool) -> (r: Result<(), SqError>)
        ensures
            (r is Ok <==> first_index_named(
                old(self)@.queues,
                old(self)@.currently_selected,
            ) is Some),
            (r == Err::<(), SqError>(SqError::NoSelectedQueue) <==> first_index_named(
                old(self)@.queues,
                old(self)@.currently_selected,
            ) is None),
            r is Err ==> final(self)@ == old(self)@,
            r is Ok ==> final(self)@ == with_replaced(
                old(self)@,
                QueueV {
                    paused,
                    ..old(self)@.queues[first_index_named(
                        old(self)@.queues,
                        old(self)@.currently_selected,
                    ).unwrap()]
                },
            ),
    {
        let (_i, mut q) = match self.take_selected() {
            Ok(p) => p,
            Err(e) => {
                return Err(e);
            },
        };
        q.set_paused(paused);
        self.replace_by_name(q);
        proof {
            assert(final(self)@ =~= with_replaced(
                old(self)@,
                QueueV {
                    paused,
                    ..old(self)@.queues[first_index_named(
                        old(self)@.queues,
                        old(self)@.currently_selected,
                    ).unwrap()]
                },
            ));
        }
        Ok(())
    }

    /// Add an item to the currently selected queue, at the head if
    /// `prepend`, else at the tail, and reinsert the queue by the
    /// replace-by-name discipline.
    pub fn add_to_selected(&mut self, item: Item, prepend: bool) -> (r: Result<(), SqError>)
        requires
            item@.amount >= 0,
        ensures
            (r is Ok <==> first_index_named(
                old(self)@.queues,
                old(self)@.currently_selected,
            ) is Some),
            (r == Err::<(), SqError>(SqError::NoSelectedQueue) <==> first_index_named(
                old(self)@.queues,
                old(self)@.currently_selected,
            ) is None),
            r is Err ==> final(self)@ == old(self)@,
            r is Ok ==> final(self)@ == with_replaced(
                old(self)@,
                with_added(
                    old(self)@.queues[first_index_named(
                        old(self)@.queues,
                        old(self)@.currently_selected,
                    ).unwrap()],
                    item@,
                    prepend,
                ),
            ),
    {
        let ghost item_v = item@;
        let (_i, mut q) = match self.take_selected() {
            Ok(p) => p,
            Err(e) => {
                return Err(e);
            },
        };
        q.add_item(item, prepend);
        self.replace_by_name(q);
        proof {
            assert(self@ =~= with_replaced(
                old(self)@,
                with_added(
                    old(self)@.queues[first_index_named(
                        old(self)@.queues,
                        old(self)@.currently_selected,
                    ).unwrap()],
                    item_v,
                    prepend,
                ),
            ));
        }
        Ok(())
    }

    /// Replace the income rate of the currently selected queue and
    /// reinsert it by the replace-by-name discipline.
    pub fn set_selected_budget(&mut self, income: Income) -> (r: Result<(), SqError>)
        ensures
            (r is Ok <==> first_index_named(
                old(self)@.queues,
                old(self)@.currently_selected,
            ) is Some),
            (r == Err::<(), SqError>(SqError::NoSelectedQueue) <==> first_index_named(
                old(self)@.queues,
                old(self)@.currently_selected,
            ) is None),
            r is Err ==> final(self)@ == old(self)@,
            r is Ok ==> final(self)@ == with_replaced(
                old(self)@,
                QueueV {
                    income: income@,
                    ..old(self)@.queues[first_index_named(
                        old(self)@.queues,
                        old(self)@.currently_selected,
                    ).unwrap()]
                },
            ),
    {
        let (_i, mut q) = match self.take_selected() {
            Ok(p) => p,
            Err(e) => {
                return Err(e);
            },
        };
        q.set_income(income);
        self.replace_by_name(q);
        proof {
            assert(self@ =~= with_replaced(
                old(self)@,
                QueueV {
                    income: income@,
                    ..old(self)@.queues[first_index_named(
                        old(self)@.queues,
                        old(self)@.currently_selected,
                    ).unwrap()]
                },
            ));
        }
        Ok(())
    }

    /// Remove and return the head of the currently selected queue's
    /// pending list; the removed item is discarded, not recorded. With an
    /// empty pending list this is a reported no-op and nothing is written.
    pub fn delete_selected_head(&mut self) -> (r: Result<Option<Item>, SqError>)
        ensures
            (r is Ok <==> first_index_named(
                old(self)@.queues,
                old(self)@.currently_selected,
            ) is Some),
            (r == Err::<Option<Item>, SqError>(SqError::NoSelectedQueue) <==> first_index_named(
                old(self)@.queues,
                old(self)@.currently_selected,
            ) is None),
            r is Err ==> final(self)@ == old(self)@,
            r matches Ok(removed) ==> ({
                let i = first_index_named(
                    old(self)@.queues,
                    old(self)@.currently_selected,
                ).unwrap();
                let q0 = old(self)@.queues[i];
                &&& (q0.future_purchases.len() == 0 ==> removed is None && final(self)@ == old(
                    self,
                )@)
                &&& (q0.future_purchases.len() > 0 ==> (removed matches Some(it) && it@
                    == q0.future_purchases[0] && final(self)@ == with_replaced(
                    old(self)@,
                    with_head_deleted(q0),
                )))
            }),
    {
        let (i, mut q) = match self.take_selected() {
            Ok(p) => p,
            Err(e) => {
                return Err(e);
            },
        };
        if q.future_purchases.len() == 0 {
            let ghost pre = self.queues.deep_view();
            proof {
                assert(self.queues.deep_view().len() == self.queues@.len());
                assert(self.queues.deep_view().len() == old(self)@.queues.len() - 1);
            }
            self.queues.insert(i, q);
            proof {
                assert(self.queues.deep_view() =~= pre.insert(i as int, q@));
                assert(self.queues.deep_view() =~= old(self)@.queues);
                assert(self@ =~= old(self)@);
            }
            return Ok(None);
        }
        let removed = q.delete_head();
        self.replace_by_name(q);
        proof {
            let i0 = first_index_named(
                old(self)@.queues,
                old(self)@.currently_selected,
            ).unwrap();
            assert(self@ =~= with_replaced(old(self)@, with_head_deleted(old(self)@.queues[i0])));
        }
        Ok(removed)
    }

    /// Buy (or fail to buy) the head of the currently selected queue, as
    /// `Queue::buy_head` decides, and write the queue back by the
    /// replace-by-name discipline — also on a rejection or an empty queue,
    /// as a purchase command always ends with a write-back. Only an
    /// out-of-range balance leaves the state untouched.
    pub fn buy_from_selected(&mut self, price_override: Option<Money>, force: bool, now: i64) -> (r:
        Result<BuyOutcome, SqError>)
        requires
            0 <= now <= TIMESTAMP_MAX,
        ensures
            (r == Err::<BuyOutcome, SqError>(SqError::NoSelectedQueue) <==> first_index_named(
                old(self)@.queues,
                old(self)@.currently_selected,
            ) is None),
            r is Err ==> final(self)@ == old(self)@,
            first_index_named(old(self)@.queues, old(self)@.currently_selected) matches Some(i)
                ==> ({
                let q0 = old(self)@.queues[i];
                let cost = match price_override {
                    Some(c) => c@,
                    None => if q0.future_purchases.len() > 0 {
                        q0.future_purchases[0].amount
                    } else {
                        0
                    },
                };
                &&& (q0.future_purchases.len() == 0 ==> r == Ok::<BuyOutcome, SqError>(
                    BuyOutcome::EmptyQueue,
                ) && final(self)@ == with_replaced(old(self)@, q0))
                &&& (q0.future_purchases.len() > 0 && !purchase_allowed(
                    q0.current_balance,
                    cost,
                    force,
                ) ==> r == Ok::<BuyOutcome, SqError>(BuyOutcome::NotAffordable) && final(self)@
                    == with_replaced(old(self)@, q0))
                &&& (q0.future_purchases.len() > 0 && purchase_allowed(
                    q0.current_balance,
                    cost,
                    force,
                ) && !(i64::MIN <= q0.current_balance - cost <= i64::MAX) ==> r == Err::<
                    BuyOutcome,
                    SqError,
                >(SqError::BalanceOutOfRange) && final(self)@ == old(self)@)
                &&& (q0.future_purchases.len() > 0 && purchase_allowed(
                    q0.current_balance,
                    cost,
                    force,
                ) && i64::MIN <= q0.current_balance - cost <= i64::MAX ==> (r matches Ok(o)
                    && o matches BuyOutcome::Bought(paid) && paid@ == cost && final(self)@
                    == with_replaced(old(self)@, purchased(q0, cost, now as int))))
            }),
    {
        let (i, mut q) = match self.take_selected() {
            Ok(p) => p,
            Err(e) => {
                return Err(e);
            },
        };
        match q.buy_head(price_override, force, now) {
            Ok(outcome) => {
                self.replace_by_name(q);
                proof {
                    let i0 = first_index_named(
                        old(self)@.queues,
                        old(self)@.currently_selected,
                    ).unwrap();
                    let q0 = old(self)@.queues[i0];
                    assert(self@ =~= with_replaced(old(self)@, q@));
                }
                Ok(outcome)
            },
            Err(e) => {
                let ghost pre = self.queues.deep_view();
                proof {
                    assert(self.queues.deep_view().len() == self.queues@.len());
                    assert(self.queues.deep_view().len() == old(self)@.queues.len() - 1);
                }
                self.queues.insert(i, q);
                proof {
                    assert(self.queues.deep_view() =~= pre.insert(i as int, q@));
                    assert(self.queues.deep_view() =~= old(self)@.queues);
                    assert(self@ =~= old(self)@);
                }
                Err(e)
            },
        }
    }

    /// Bump the head of the currently selected queue back to a random
    /// position (a "not right now" button). Queues of zero or one pending
    /// item are a reported no-op and nothing is written; with exactly two
    /// pending items the head always goes to position 1, the only non-head
    /// position.
    pub fn bump_selected(&mut self) -> (r: Result<BumpOutcome, SqError>)
        ensures
            (r == Err::<BumpOutcome, SqError>(SqError::NoSelectedQueue) <==> first_index_named(
                old(self)@.queues,
                old(self)@.currently_selected,
            ) is None),
            r is Err ==> final(self)@ == old(self)@,
            first_index_named(old(self)@.queues, old(self)@.currently_selected) matches Some(i)
                ==> ({
                let q0 = old(self)@.queues[i];
                &&& (q0.future_purchases.len() == 0 ==> r == Ok::<BumpOutcome, SqError>(
                    BumpOutcome::Empty,
                ) && final(self)@ == old(self)@)
                &&& (q0.future_purchases.len() == 1 ==> r == Ok::<BumpOutcome, SqError>(
                    BumpOutcome::Single,
                ) && final(self)@ == old(self)@)
                &&& (q0.future_purchases.len() >= 2 ==> (r matches Ok(o) && o matches
                    BumpOutcome::Bumped(pos) && 1 <= pos && (q0.future_purchases.len() == 2
                    ==> pos == 1) && (q0.future_purchases.len() >= 3 ==> pos
                    <= q0.future_purchases.len() - 2) && final(self)@ == with_replaced(
                    old(self)@,
                    bumped(q0, pos as int),
                )))
            }),
    {
        let (i, mut q) = match self.take_selected() {
            Ok(p) => p,
            Err(e) => {
                return Err(e);
            },
        };
        let n = q.future_purchases.len();
        if n == 0 || n == 1 {
            let ghost pre = self.queues.deep_view();
            proof {
                assert(self.queues.deep_view().len() == self.queues@.len());
                assert(self.queues.deep_view().len() == old(self)@.queues.len() - 1);
            }
            self.queues.insert(i, q);
            proof {
                assert(self.queues.deep_view() =~= pre.insert(i as int, q@));
                assert(self.queues.deep_view() =~= old(self)@.queues);
                assert(self@ =~= old(self)@);
            }
            return Ok(if n == 0 {
                BumpOutcome::Empty
            } else {
                BumpOutcome::Single
            });
        }
        let pos = q.bump_head_random();
        self.replace_by_name(q);
        proof {
            let i0 = first_index_named(
                old(self)@.queues,
                old(self)@.currently_selected,
            ).unwrap();
            assert(self@ =~= with_replaced(old(self)@, bumped(old(self)@.queues[i0], pos as int)));
        }
        Ok(BumpOutcome::Bumped(pos))
    }

    /// Report the current status: with the directory globally paused,
    /// short-circuit without touching anything; otherwise recalculate the
    /// selected queue, apply the write-back policy in place, and describe
    /// the balance and the head item. A head is marked purchasable when
    /// the balance is at least its price — deliberately not the strict
    /// inequality that the buy gate uses.
    pub fn status(&mut self, now: i64) -> (r: Result<StatusReport, SqError>)
        requires
            0 <= now <= TIMESTAMP_MAX,
        ensures
            old(self)@.globally_paused ==> (r matches Ok(rep) && rep is GloballyPaused
                && final(self)@ == old(self)@),
            !old(self)@.globally_paused ==> ((r is Ok) == status_sound(old(self)@, now as int)),
            !old(self)@.globally_paused ==> ((r == Err::<StatusReport, SqError>(
                SqError::NoSelectedQueue,
            ) <==> first_index_named(old(self)@.queues, old(self)@.currently_selected) is None)),
            !old(self)@.globally_paused ==> (first_index_named(
                old(self)@.queues,
                old(self)@.currently_selected,
            ) matches Some(i) ==> ({
                let q0 = old(self)@.queues[i];
                let parse = rfc2822_parse(q0.last_calculation);
                &&& (r == Err::<StatusReport, SqError>(SqError::CorruptTimestamp) <==> parse
                    is None)
                &&& (r == Err::<StatusReport, SqError>(SqError::ZeroInterval) <==> (parse is Some
                    && q0.income.interval_in_days < 1))
                &&& (r == Err::<StatusReport, SqError>(SqError::BalanceOutOfRange) <==> (
                new_balance_of(q0, now as int) matches Some(b) && !q0.paused && !(i64::MIN <= b
                    <= i64::MAX)))
                &&& (r is Err ==> final(self)@ == old(self)@)
                &&& (r is Ok ==> rfc2822_parse(rfc2822_of(now as int)) == Some(now as int))
                &&& (r is Ok ==> ({
                    let qa = accrued(q0, now as int);
                    &&& final(self)@.queues == old(self)@.queues.update(i, qa)
                    &&& final(self)@.currently_selected == old(self)@.currently_selected
                    &&& final(self)@.globally_paused == old(self)@.globally_paused
                    &&& (r matches Ok(rep) && rep matches StatusReport::Active {
                        balance,
                        head,
                    } && balance@ == qa.current_balance && (head is Some <==> q0.future_purchases.len()
                        > 0) && (head matches Some(h) ==> h@ == (HeadInfoV {
                        name: q0.future_purchases[0].name,
                        amount: q0.future_purchases[0].amount,
                        has_link: q0.future_purchases[0].purchase_link is Some,
                        purchasable: qa.current_balance >= q0.future_purchases[0].amount,
                    })))
                }))
            })),
    {
        if self.globally_paused {
            return Ok(StatusReport::GloballyPaused);
        }
        let (i, mut q) = match self.take_selected() {
            Ok(p) => p,
            Err(e) => {
                return Err(e);
            },
        };
        let ghost pre = self.queues.deep_view();
        proof {
            assert(self.queues.deep_view().len() == self.queues@.len());
            assert(self.queues.deep_view().len() == old(self)@.queues.len() - 1);
        }
        match q.update_accumulation(now) {
            Err(e) => {
                self.queues.insert(i, q);
                proof {
                    assert(self.queues.deep_view() =~= pre.insert(i as int, q@));
                    assert(self.queues.deep_view() =~= old(self)@.queues);
                    assert(self@ =~= old(self)@);
                }
                Err(e)
            },
            Ok(()) => {
                let head = if q.future_purchases.len() > 0 {
                    let it = &q.future_purchases[0];
                    Some(
                        HeadInfo {
                            name: it.name.clone(),
                            amount: it.amount,
                            has_link: it.purchase_link.is_some(),
                            purchasable: q.current_balance.ge(it.amount),
                        },
                    )
                } else {
                    None
                };
                let balance = q.current_balance;
                self.queues.insert(i, q);
                proof {
                    let i0 = first_index_named(
                        old(self)@.queues,
                        old(self)@.currently_selected,
                    ).unwrap();
                    let qa = accrued(old(self)@.queues[i0], now as int);
                    assert(self.queues.deep_view() =~= pre.insert(i as int, qa));
                    assert(self.queues.deep_view() =~= old(self)@.queues.update(i as int, qa));
                }
                Ok(StatusReport::Active { balance, head })
            },
        }
    }

    /// Append a fresh queue with the given name and default settings; a
    /// name already in use is rejected, keeping queue names unique.
    pub fn create_queue(&mut self, name: String, now: i64) -> (r: Result<(), SqError>)
        requires
            0 <= now <= TIMESTAMP_MAX,
        ensures
            (r is Ok <==> !(exists|k: int|
                0 <= k < old(self)@.queues.len() && old(self)@.queues[k].name == name@)),
            ((exists|k: int|
                0 <= k < old(self)@.queues.len() && old(self)@.queues[k].name == name@) <==> r
                == Err::<(), SqError>(SqError::DuplicateQueueName)),
            r is Err ==> final(self)@ == old(self)@,
            r is Ok ==> final(self)@ == (StateV {
                queues: old(self)@.queues.push(default_queue(name@, now as int)),
                ..old(self)@
            }),
            r is Ok ==> rfc2822_parse(rfc2822_of(now as int)) == Some(now as int),
    {
        let ghost name_v = name@;
        let n = self.queues.len();
        let mut i: usize = 0;
        while i < n
            invariant
                0 <= i <= n,
                n == self.queues.len(),
                name@ == name_v,
                forall|k: int| 0 <= k < i ==> self@.queues[k].name != name_v,
            decreases n - i,
        {
            if self.queues[i].name == name {
                proof {
                    assert(self@.queues[i as int].name == name_v);
                }
                return Err(SqError::DuplicateQueueName);
            }
            i += 1;
        }
        let q = Queue::new_default(name, now);
        self.queues.push(q);
        proof {
            assert(self.queues.deep_view() =~= old(self)@.queues.push(
                default_queue(name_v, now as int),
            ));
            assert(self@ =~= (StateV {
                queues: old(self)@.queues.push(default_queue(name_v, now as int)),
                ..old(self)@
            }));
        }
        Ok(())
    }

    /// The state of a first run: a single queue named "default", selected,
    /// with the default settings.
    pub fn initial(now: i64) -> (r: State)
        requires
            0 <= now <= TIMESTAMP_MAX,
        ensures
            r@.queues =~= seq![default_queue("default"@, now as int)],
            r@.currently_selected == "default"@,
            !r@.globally_paused,
            rfc2822_parse(rfc2822_of(now as int)) == Some(now as int),
    {
        let q = Queue::new_default("default".to_owned(), now);
        let mut queues: Vec<Queue> = Vec::new();
        queues.push(q);
        let r = State { queues, currently_selected: "default".to_owned(), globally_paused: false };
        proof {
            assert(r.queues.deep_view() =~= seq![default_queue("default"@, now as int)]);
        }
        r
    }
}

/// A fresh queue's view: income of one unit per day, nothing accrued,
/// nothing pending, last calculated at `now`.
pub open spec fn default_queue(name: Seq<char>, now: int) -> QueueV {
    QueueV {
        income: IncomeV { amount: crate::money::NANOS_PER_UNIT as int, interval_in_days: 1 },
        name,
        last_calculation: rfc2822_of(now),
        current_balance: 0,
        future_purchases: Seq::empty(),
        past_purchases: Seq::empty(),
        paused: false,
    }
}

/// How a bump request on the selected queue ends when the selection
/// resolves.
#[derive(Clone, Copy, Debug, PartialEq, Eq, Structural)]
pub enum BumpOutcome {
    /// No pending items; nothing to bump.
    Empty,
    /// One pending item; nothing to bump it behind.
    Single,
    /// The head moved back to the carried position.
    Bumped(usize),
}

/// What a status report says about the head of the queue.
#[derive(Debug)]
pub struct HeadInfo {
    pub name: String,
    pub amount: Money,
    pub has_link: bool,
    pub purchasable: bool,
}

/// View of a `HeadInfo`.
#[verifier::ext_equal]
pub struct HeadInfoV {
    pub name: Seq<char>,
    pub amount: int,
    pub has_link: bool,
    pub purchasable: bool,
}

impl View for HeadInfo {
    type V = HeadInfoV;

    open spec fn view(&self) -> HeadInfoV {
        HeadInfoV {
            name: self.name@,
            amount: self.amount@,
            has_link: self.has_link,
            purchasable: self.purchasable,
        }
    }
}

/// What the status command reports.
#[derive(Debug)]
pub enum StatusReport {
    /// The whole directory is paused: no accrual, no write-back.
    GloballyPaused,
    /// The recalculated balance and, if anything is pending, the head item.
    Active { balance: Money, head: Option<HeadInfo> },
}

/// Selecting a queue is present in the command surface but intentionally
/// has no effect: the request is accepted and nothing happens.
#[allow(unused_variables)]
pub fn cmd_queue_select(name: String) -> (r: Result<(), SqError>)
    ensures
        r == Ok::<(), SqError>(()),
{
    Ok(())
}

} // verus!
