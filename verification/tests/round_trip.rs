//! A state survives serialization to JSON and back field-for-field. The
//! wire shape stores money as its exact nano-unit count and timestamps as
//! the RFC 2822 strings the library already keeps.

use serde_json::{Number, Value};
use sq::money::Money;
use sq::types::{Income, Item, Queue, State};

fn item_value(i: &Item) -> Value {
    let mut m = serde_json::Map::new();
    m.insert("name".to_string(), Value::String(i.name.clone()));
    m.insert("amount".to_string(), Value::Number(Number::from(i.amount.nanos)));
    m.insert(
        "purchase_link".to_string(),
        i.purchase_link.clone().map_or(Value::Null, Value::String),
    );
    m.insert(
        "time_purchased".to_string(),
        i.time_purchased.clone().map_or(Value::Null, Value::String),
    );
    Value::Object(m)
}

fn state_value(s: &State) -> Value {
    let mut root = serde_json::Map::new();
    let queues: Vec<Value> = s
        .queues
        .iter()
        .map(|q| {
            let mut m = serde_json::Map::new();
            let mut income = serde_json::Map::new();
            income.insert(
                "amount".to_string(),
                Value::Number(Number::from(q.income.amount.nanos)),
            );
            income.insert(
                "interval_in_days".to_string(),
                Value::Number(Number::from(q.income.interval_in_days)),
            );
            m.insert("income".to_string(), Value::Object(income));
            m.insert("name".to_string(), Value::String(q.name.clone()));
            m.insert(
                "last_calculation".to_string(),
                Value::String(q.last_calculation.clone()),
            );
            m.insert(
                "current_balance".to_string(),
                Value::Number(Number::from(q.current_balance.nanos)),
            );
            m.insert(
                "future_purchases".to_string(),
                Value::Array(q.future_purchases.iter().map(item_value).collect()),
            );
            m.insert(
                "past_purchases".to_string(),
                Value::Array(q.past_purchases.iter().map(item_value).collect()),
            );
            m.insert("paused".to_string(), Value::Bool(q.paused));
            Value::Object(m)
        })
        .collect();
    root.insert("queues".to_string(), Value::Array(queues));
    root.insert(
        "currently_selected".to_string(),
        Value::String(s.currently_selected.clone()),
    );
    root.insert("globally_paused".to_string(), Value::Bool(s.globally_paused));
    Value::Object(root)
}

fn item_of_value(v: &Value) -> Item {
    Item {
        name: v["name"].as_str().unwrap().to_string(),
        amount: Money::from_nanos(v["amount"].as_i64().unwrap()),
        purchase_link: v["purchase_link"].as_str().map(str::to_string),
        time_purchased: v["time_purchased"].as_str().map(str::to_string),
    }
}

fn state_of_value(v: &Value) -> State {
    State {
        queues: v["queues"]
            .as_array()
            .unwrap()
            .iter()
            .map(|q| Queue {
                income: Income {
                    amount: Money::from_nanos(q["income"]["amount"].as_i64().unwrap()),
                    interval_in_days: q["income"]["interval_in_days"].as_u64().unwrap(),
                },
                name: q["name"].as_str().unwrap().to_string(),
                last_calculation: q["last_calculation"].as_str().unwrap().to_string(),
                current_balance: Money::from_nanos(q["current_balance"].as_i64().unwrap()),
                future_purchases: q["future_purchases"]
                    .as_array()
                    .unwrap()
                    .iter()
                    .map(item_of_value)
                    .collect(),
                past_purchases: q["past_purchases"]
                    .as_array()
                    .unwrap()
                    .iter()
                    .map(item_of_value)
                    .collect(),
                paused: q["paused"].as_bool().unwrap(),
            })
            .collect(),
        currently_selected: v["currently_selected"].as_str().unwrap().to_string(),
        globally_paused: v["globally_paused"].as_bool().unwrap(),
    }
}

fn assert_states_equal(a: &State, b: &State) {
    assert_eq!(a.currently_selected, b.currently_selected);
    assert_eq!(a.globally_paused, b.globally_paused);
    assert_eq!(a.queues.len(), b.queues.len());
    for (qa, qb) in a.queues.iter().zip(b.queues.iter()) {
        assert_eq!(qa.income.amount, qb.income.amount);
        assert_eq!(qa.income.interval_in_days, qb.income.interval_in_days);
        assert_eq!(qa.name, qb.name);
        assert_eq!(qa.last_calculation, qb.last_calculation);
        assert_eq!(qa.current_balance, qb.current_balance);
        assert_eq!(qa.paused, qb.paused);
        assert_eq!(qa.future_purchases.len(), qb.future_purchases.len());
        assert_eq!(qa.past_purchases.len(), qb.past_purchases.len());
        for (ia, ib) in qa.future_purchases.iter().zip(qb.future_purchases.iter()) {
            assert_eq!(ia.name, ib.name);
            assert_eq!(ia.amount, ib.amount);
            assert_eq!(ia.purchase_link, ib.purchase_link);
            assert_eq!(ia.time_purchased, ib.time_purchased);
        }
        for (ia, ib) in qa.past_purchases.iter().zip(qb.past_purchases.iter()) {
            assert_eq!(ia.name, ib.name);
            assert_eq!(ia.amount, ib.amount);
            assert_eq!(ia.purchase_link, ib.purchase_link);
            assert_eq!(ia.time_purchased, ib.time_purchased);
        }
    }
}

#[test]
fn state_round_trips_through_json() {
    let mut st = State::initial(0);
    st.create_queue("books".to_string(), 86_400).unwrap();
    st.add_to_selected(
        Item {
            name: "a thing".to_string(),
            amount: Money::from_nanos(1_234_567_891),
            purchase_link: Some("https://example.org/thing".to_string()),
            time_purchased: None,
        },
        false,
    )
    .unwrap();
    st.queues[1].current_balance = Money::from_nanos(-42);
    st.buy_from_selected(None, true, 86_400).unwrap();
    st.add_to_selected(
        Item {
            name: "another".to_string(),
            amount: Money::from_nanos(0),
            purchase_link: None,
            time_purchased: None,
        },
        true,
    )
    .unwrap();

    let rendered = serde_json::to_string_pretty(&state_value(&st)).unwrap();
    let reparsed: Value = serde_json::from_str(&rendered).unwrap();
    let back = state_of_value(&reparsed);
    assert_states_equal(&st, &back);
}
