use sq::money::{Money, NANOS_PER_CENT, NANOS_PER_UNIT};
use sq::types::State;

#[test]
fn money_from_units_exact() {
    let m = Money::from_units(100).unwrap();
    assert_eq!(m.nanos, 100 * NANOS_PER_UNIT);
    let neg = Money::from_units(-3).unwrap();
    assert_eq!(neg.nanos, -3 * NANOS_PER_UNIT);
}

#[test]
fn money_from_units_overflow() {
    assert!(Money::from_units(i64::MAX).is_none());
    assert!(Money::from_units(9_223_372_036).is_some());
    assert!(Money::from_units(9_223_372_037).is_none());
}

#[test]
fn money_checked_add_and_sub() {
    let a = Money::from_units(2).unwrap();
    let b = Money::from_nanos(500_000_000);
    assert_eq!(a.checked_add(b).unwrap().nanos, 2_500_000_000);
    assert_eq!(a.checked_sub(b).unwrap().nanos, 1_500_000_000);
    assert!(Money::from_nanos(i64::MAX).checked_add(Money::from_nanos(1)).is_none());
    assert!(Money::from_nanos(i64::MIN).checked_sub(Money::from_nanos(1)).is_none());
}

#[test]
fn money_ordering() {
    let a = Money::from_nanos(10);
    let b = Money::from_nanos(20);
    assert!(a.lt(b));
    assert!(a.le(b));
    assert!(b.ge(a));
    assert!(!b.lt(a));
    assert!(a.le(a));
    assert!(a.ge(a));
}

#[test]
fn money_display_parts_truncates_to_cents() {
    let m = Money::from_nanos(1_234_567_890);
    assert_eq!(m.display_parts(), (false, 1, 23));
    let neg = Money::from_nanos(-1_234_567_890);
    assert_eq!(neg.display_parts(), (true, 1, 23));
    let zero = Money::from_nanos(0);
    assert_eq!(zero.display_parts(), (false, 0, 0));
    let cent = Money::from_nanos(NANOS_PER_CENT);
    assert_eq!(cent.display_parts(), (false, 0, 1));
}

#[test]
fn initial_state_renders_epoch_timestamp() {
    let st = State::initial(0);
    assert_eq!(st.queues.len(), 1);
    assert_eq!(st.queues[0].name, "default");
    assert_eq!(st.currently_selected, "default");
    assert!(!st.globally_paused);
    assert!(!st.queues[0].paused);
    assert_eq!(st.queues[0].current_balance.nanos, 0);
    assert_eq!(st.queues[0].income.amount.nanos, NANOS_PER_UNIT);
    assert_eq!(st.queues[0].income.interval_in_days, 1);
    // the stored timestamp is the RFC 2822 rendering of the Unix epoch
    assert_eq!(st.queues[0].last_calculation, "Thu, 1 Jan 1970 00:00:00 +0000");
}

#[test]
fn stored_timestamp_matches_chrono_rendering() {
    let st = State::initial(86_400 + 3_600);
    let expected = chrono::DateTime::<chrono::Utc>::from_timestamp(86_400 + 3_600, 0)
        .unwrap()
        .to_rfc2822();
    assert_eq!(st.queues[0].last_calculation, expected);
}
