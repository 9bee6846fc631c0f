use sq::money::Money;
use sq::purchase::BuyOutcome;
use sq::queues::{cmd_queue_select, BumpOutcome, StatusReport};
use sq::types::State;
use sq::types::{Income, Item, SqError};

fn pending_item(name: &str, units: i64) -> Item {
    Item {
        name: name.to_string(),
        amount: Money::from_units(units).unwrap(),
        purchase_link: None,
        time_purchased: None,
    }
}

fn state_with_items(balance_units: i64, items: &[(&str, i64)]) -> State {
    let mut st = State::initial(0);
    for (name, units) in items {
        st.add_to_selected(pending_item(name, *units), false).unwrap();
    }
    st.queues[0].current_balance = Money::from_units(balance_units).unwrap();
    st
}

fn pending_names(st: &State) -> Vec<String> {
    st.queues[0].future_purchases.iter().map(|i| i.name.clone()).collect()
}

#[test]
fn add_appends_at_tail() {
    let st = state_with_items(0, &[("a", 1), ("b", 2), ("c", 3)]);
    assert_eq!(pending_names(&st), vec!["a", "b", "c"]);
}

#[test]
fn add_prepend_puts_item_at_head() {
    let mut st = state_with_items(0, &[("a", 1), ("b", 2)]);
    st.add_to_selected(pending_item("front", 3), true).unwrap();
    assert_eq!(pending_names(&st), vec!["front", "a", "b"]);
}

#[test]
fn accrual_credits_one_day_of_income() {
    // income 100/day, starting balance 0, last calculation 24h ago
    let mut st = State::initial(0);
    st.set_selected_budget(Income {
        amount: Money::from_units(100).unwrap(),
        interval_in_days: 1,
    })
    .unwrap();
    match st.status(86_400).unwrap() {
        StatusReport::Active { balance, head } => {
            assert_eq!(balance.nanos, 100_000_000_000);
            assert!(head.is_none());
        }
        StatusReport::GloballyPaused => panic!("not paused"),
    }
    assert_eq!(st.queues[0].current_balance.nanos, 100_000_000_000);
    assert_eq!(st.queues[0].last_calculation, "Fri, 2 Jan 1970 00:00:00 +0000");
}

#[test]
fn accrual_is_linear_across_a_split() {
    let income = Income { amount: Money::from_units(7).unwrap(), interval_in_days: 3 };
    let mut split = State::initial(0);
    split.set_selected_budget(income).unwrap();
    split.status(40_000).unwrap();
    split.status(100_000).unwrap();
    let mut joint = State::initial(0);
    joint.set_selected_budget(income).unwrap();
    joint.status(100_000).unwrap();
    let s = split.queues[0].current_balance.nanos;
    let j = joint.queues[0].current_balance.nanos;
    assert!(s <= j && j <= s + 1, "split={} joint={}", s, j);
    // 7 units over a three-day interval, for 100,000 seconds, floored to
    // the nano-unit
    assert_eq!(j, 2_700_617_283);
}

#[test]
fn clock_moving_backward_debits_balance() {
    // elapsed time may be negative if the system clock moved backward; a
    // positive income then strictly debits the balance
    let mut st = State::initial(86_400);
    st.set_selected_budget(Income {
        amount: Money::from_units(100).unwrap(),
        interval_in_days: 1,
    })
    .unwrap();
    st.queues[0].current_balance = Money::from_units(30).unwrap();
    st.status(0).unwrap();
    assert_eq!(st.queues[0].current_balance.nanos, -70_000_000_000);
    assert_eq!(st.queues[0].last_calculation, "Thu, 1 Jan 1970 00:00:00 +0000");
}

#[test]
fn paused_queue_survives_an_accrual_that_would_overflow() {
    // the recalculated balance is discarded while paused, so a value that
    // would not fit is harmless; the clock still advances
    let mut st = State::initial(0);
    st.queues[0].current_balance = Money::from_nanos(i64::MAX);
    st.set_selected_budget(Income {
        amount: Money::from_nanos(i64::MAX),
        interval_in_days: 1,
    })
    .unwrap();
    st.pause_selected(true).unwrap();
    st.status(86_400).unwrap();
    assert_eq!(st.queues[0].current_balance.nanos, i64::MAX);
    assert_eq!(st.queues[0].last_calculation, "Fri, 2 Jan 1970 00:00:00 +0000");
}

#[test]
fn buy_debits_balance_and_records_purchase() {
    // balance 60, head {a, 50}: buy succeeds, balance 10, item moves to past
    let mut st = state_with_items(60, &[("a", 50), ("b", 20)]);
    let r = st.buy_from_selected(None, false, 86_400).unwrap();
    assert_eq!(r, BuyOutcome::Bought(Money::from_units(50).unwrap()));
    let q = &st.queues[0];
    assert_eq!(q.current_balance.nanos, 10_000_000_000);
    assert_eq!(q.past_purchases.len(), 1);
    assert_eq!(q.past_purchases[0].name, "a");
    assert_eq!(q.past_purchases[0].amount.nanos, 50_000_000_000);
    let when = chrono::DateTime::<chrono::Utc>::from_timestamp(86_400, 0).unwrap().to_rfc2822();
    assert_eq!(q.past_purchases[0].time_purchased.as_deref(), Some(when.as_str()));
    assert_eq!(pending_names(&st), vec!["b"]);
}

#[test]
fn buy_is_rejected_without_enough_balance() {
    // balance 40, head {a, 50}, no force: rejected, nothing changes
    let mut st = state_with_items(40, &[("a", 50)]);
    let r = st.buy_from_selected(None, false, 86_400).unwrap();
    assert_eq!(r, BuyOutcome::NotAffordable);
    let q = &st.queues[0];
    assert_eq!(q.current_balance.nanos, 40_000_000_000);
    assert_eq!(q.past_purchases.len(), 0);
    assert_eq!(pending_names(&st), vec!["a"]);
}

#[test]
fn buy_boundary_exact_balance_rejected_one_cent_less_succeeds() {
    let mut st = state_with_items(50, &[("a", 50)]);
    let r = st.buy_from_selected(None, false, 0).unwrap();
    assert_eq!(r, BuyOutcome::NotAffordable);

    let mut st = state_with_items(50, &[("a", 50)]);
    let one_cent_less = Money::from_nanos(50_000_000_000 - 10_000_000);
    let r = st.buy_from_selected(Some(one_cent_less), false, 0).unwrap();
    assert_eq!(r, BuyOutcome::Bought(one_cent_less));
    assert_eq!(st.queues[0].current_balance.nanos, 10_000_000);
}

#[test]
fn forced_buy_pushes_balance_negative() {
    let mut st = state_with_items(10, &[("a", 50)]);
    let r = st.buy_from_selected(None, true, 0).unwrap();
    assert_eq!(r, BuyOutcome::Bought(Money::from_units(50).unwrap()));
    assert_eq!(st.queues[0].current_balance.nanos, -40_000_000_000);
}

#[test]
fn buy_on_empty_queue_is_a_noop() {
    let mut st = state_with_items(10, &[]);
    let r = st.buy_from_selected(None, false, 0).unwrap();
    assert_eq!(r, BuyOutcome::EmptyQueue);
    assert_eq!(st.queues[0].past_purchases.len(), 0);
}

#[test]
fn buy_with_unrepresentable_price_is_an_error() {
    let mut st = state_with_items(0, &[("a", 1)]);
    let r = st.buy_from_selected(Some(Money::from_nanos(i64::MIN)), false, 0);
    assert_eq!(r, Err(SqError::BalanceOutOfRange));
    assert_eq!(st.queues[0].current_balance.nanos, 0);
    assert_eq!(pending_names(&st), vec!["a"]);
}

#[test]
fn delete_removes_head_only() {
    let mut st = state_with_items(0, &[("a", 1), ("b", 2)]);
    let removed = st.delete_selected_head().unwrap().unwrap();
    assert_eq!(removed.name, "a");
    assert_eq!(pending_names(&st), vec!["b"]);
}

#[test]
fn delete_on_empty_queue_is_a_noop() {
    let mut st = state_with_items(0, &[]);
    assert!(st.delete_selected_head().unwrap().is_none());
}

#[test]
fn bump_moves_head_back() {
    let mut st = state_with_items(0, &[("a", 1), ("b", 2), ("c", 3)]);
    match st.bump_selected().unwrap() {
        BumpOutcome::Bumped(pos) => assert_eq!(pos, 1),
        other => panic!("expected a bump, got {:?}", other),
    }
    // with three items the only valid position is 1: [b, a, c]
    assert_eq!(pending_names(&st), vec!["b", "a", "c"]);
}

#[test]
fn bump_keeps_length_and_items() {
    let mut st = state_with_items(0, &[("a", 1), ("b", 2), ("c", 3), ("d", 4), ("e", 5)]);
    match st.bump_selected().unwrap() {
        BumpOutcome::Bumped(pos) => assert!((1..=3).contains(&pos)),
        other => panic!("expected a bump, got {:?}", other),
    }
    let mut names = pending_names(&st);
    assert_eq!(names[0], "b");
    assert_ne!(names[0], "a");
    assert_eq!(names.len(), 5);
    names.sort();
    assert_eq!(names, vec!["a", "b", "c", "d", "e"]);
}

#[test]
fn bump_swaps_a_two_item_queue() {
    // with exactly two pending items the only non-head position is 1
    let mut st = state_with_items(0, &[("a", 1), ("b", 2)]);
    match st.bump_selected().unwrap() {
        BumpOutcome::Bumped(pos) => assert_eq!(pos, 1),
        other => panic!("expected a bump, got {:?}", other),
    }
    assert_eq!(pending_names(&st), vec!["b", "a"]);
}

#[test]
fn bump_on_empty_and_single_is_a_noop() {
    let mut st = state_with_items(0, &[]);
    assert_eq!(st.bump_selected().unwrap(), BumpOutcome::Empty);
    let mut st = state_with_items(0, &[("a", 1)]);
    assert_eq!(st.bump_selected().unwrap(), BumpOutcome::Single);
    assert_eq!(pending_names(&st), vec!["a"]);
}

#[test]
fn paused_queue_keeps_balance_but_advances_clock() {
    let mut st = State::initial(0);
    st.queues[0].current_balance = Money::from_units(5).unwrap();
    st.pause_selected(true).unwrap();
    st.status(86_400).unwrap();
    st.status(2 * 86_400).unwrap();
    let q = &st.queues[0];
    assert!(q.paused);
    assert_eq!(q.current_balance.nanos, 5_000_000_000);
    assert_eq!(q.last_calculation, "Sat, 3 Jan 1970 00:00:00 +0000");
    // unpausing does not credit the paused time retroactively
    let mut st2 = st;
    st2.pause_selected(false).unwrap();
    st2.status(2 * 86_400).unwrap();
    assert_eq!(st2.queues[0].current_balance.nanos, 5_000_000_000);
}

#[test]
fn globally_paused_status_short_circuits() {
    let mut st = State::initial(0);
    st.globally_paused = true;
    let before = st.queues[0].last_calculation.clone();
    match st.status(86_400).unwrap() {
        StatusReport::GloballyPaused => {}
        StatusReport::Active { .. } => panic!("should short-circuit"),
    }
    // no accrual, no write-back
    assert_eq!(st.queues[0].last_calculation, before);
    assert_eq!(st.queues[0].current_balance.nanos, 0);
}

#[test]
fn status_marks_head_purchasable_at_exact_balance() {
    // the report uses >= while the buy gate uses <: an item costing exactly
    // the balance shows as purchasable yet is rejected by buy
    let mut st = state_with_items(50, &[("a", 50)]);
    st.queues[0].paused = true; // keep the balance at exactly 50
    match st.status(10).unwrap() {
        StatusReport::Active { balance, head } => {
            assert_eq!(balance.nanos, 50_000_000_000);
            let head = head.unwrap();
            assert_eq!(head.name, "a");
            assert_eq!(head.amount.nanos, 50_000_000_000);
            assert!(head.purchasable);
            assert!(!head.has_link);
        }
        StatusReport::GloballyPaused => panic!("not globally paused"),
    }
    let r = st.buy_from_selected(None, false, 10).unwrap();
    assert_eq!(r, BuyOutcome::NotAffordable);
}

#[test]
fn corrupt_timestamp_is_fatal() {
    let mut st = State::initial(0);
    st.queues[0].last_calculation = "not a date".to_string();
    assert_eq!(st.status(10).err(), Some(SqError::CorruptTimestamp));
}

#[test]
fn zero_interval_is_fatal() {
    let mut st = State::initial(0);
    st.queues[0].income.interval_in_days = 0;
    assert_eq!(st.status(10).err(), Some(SqError::ZeroInterval));
}

#[test]
fn unresolvable_selection_is_fatal() {
    let mut st = State::initial(0);
    st.currently_selected = "missing".to_string();
    assert_eq!(st.status(10).err(), Some(SqError::NoSelectedQueue));
    assert_eq!(st.pause_selected(true), Err(SqError::NoSelectedQueue));
}

#[test]
fn overflowing_accrual_is_fatal() {
    let mut st = State::initial(0);
    st.queues[0].current_balance = Money::from_nanos(i64::MAX);
    st.set_selected_budget(Income {
        amount: Money::from_nanos(i64::MAX),
        interval_in_days: 1,
    })
    .unwrap();
    assert_eq!(st.status(86_400).err(), Some(SqError::BalanceOutOfRange));
}

#[test]
fn error_messages_name_the_failure() {
    assert!(SqError::CorruptTimestamp.message().contains("statefile"));
    assert!(SqError::NoSelectedQueue.message().contains("manually"));
}

#[test]
fn replace_by_name_moves_mutated_queue_to_the_end() {
    let mut st = State::initial(0);
    st.create_queue("books".to_string(), 0).unwrap();
    let names: Vec<String> = st.queues.iter().map(|q| q.name.clone()).collect();
    assert_eq!(names, vec!["default", "books"]);
    st.pause_selected(true).unwrap(); // mutates "default"
    let names: Vec<String> = st.queues.iter().map(|q| q.name.clone()).collect();
    assert_eq!(names, vec!["books", "default"]);
    assert!(st.queues[1].paused);
}

#[test]
fn creating_a_duplicate_queue_is_rejected() {
    let mut st = State::initial(0);
    assert_eq!(st.create_queue("default".to_string(), 0), Err(SqError::DuplicateQueueName));
    assert_eq!(st.queues.len(), 1);
    st.create_queue("books".to_string(), 0).unwrap();
    assert_eq!(st.queues.len(), 2);
    assert_eq!(st.queues[1].name, "books");
}

#[test]
fn queue_select_is_an_accepted_noop() {
    assert_eq!(cmd_queue_select("anything".to_string()), Ok(()));
}
