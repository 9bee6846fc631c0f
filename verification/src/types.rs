//! The data model: items, income, queues and the whole persisted state,
//! together with their mathematical views and the error taxonomy.

use vstd::prelude::*;

use crate::money::Money;

verus! {

/// An accrual rate: `amount` of money per `interval_in_days` days.
#[derive(Debug, Clone, Copy)]
pub struct Income {
    pub amount: Money,
    pub interval_in_days: u64,
}

/// View of an `Income`.
#[verifier::ext_equal]
pub struct IncomeV {
    pub amount: int,
    pub interval_in_days: int,
}

impl View for Income {
    type V = IncomeV;

    open spec fn view(&self) -> IncomeV {
        IncomeV { amount: self.amount@, interval_in_days: self.interval_in_days as int }
    }
}

impl DeepView for Income {
    type V = IncomeV;

    open spec fn deep_view(&self) -> IncomeV {
        self.view()
    }
}

/// A desired (or bought) purchase. A present `time_purchased` is what marks
/// an item as bought; by construction an item sits in exactly one of a
/// queue's two lists.
#[derive(Debug)]
pub struct Item {
    pub name: String,
    pub amount: Money,
    pub purchase_link: Option<String>,
    pub time_purchased: Option<String>,
}

/// View of an `Item`.
#[verifier::ext_equal]
pub struct ItemV {
    pub name: Seq<char>,
    pub amount: int,
    pub purchase_link: Option<Seq<char>>,
    pub time_purchased: Option<Seq<char>>,
}

impl View for Item {
    type V = ItemV;

    open spec fn view(&self) -> ItemV {
        ItemV {
            name: self.name@,
            amount: self.amount@,
            purchase_link: self.purchase_link.deep_view(),
            time_purchased: self.time_purchased.deep_view(),
        }
    }
}

impl DeepView for Item {
    type V = ItemV;

    open spec fn deep_view(&self) -> ItemV {
        self.view()
    }
}

/// One named spending queue: its accrual configuration, running balance,
/// pending purchases (head first) and purchase history (chronological).
#[derive(Debug)]
pub struct Queue {
    pub income: Income,
    pub name: String,
    /// RFC 2822 date of the last accrual calculation.
    pub last_calculation: String,
    pub current_balance: Money,
    pub future_purchases: std::collections::VecDeque<Item>,
    pub past_purchases: std::collections::VecDeque<Item>,
    pub paused: bool,
}

/// View of a `Queue`.
#[verifier::ext_equal]
pub struct QueueV {
    pub income: IncomeV,
    pub name: Seq<char>,
    pub last_calculation: Seq<char>,
    pub current_balance: int,
    pub future_purchases: Seq<ItemV>,
    pub past_purchases: Seq<ItemV>,
    pub paused: bool,
}

impl View for Queue {
    type V = QueueV;

    open spec fn view(&self) -> QueueV {
        QueueV {
            income: self.income@,
            name: self.name@,
            last_calculation: self.last_calculation@,
            current_balance: self.current_balance@,
            future_purchases: self.future_purchases.deep_view(),
            past_purchases: self.past_purchases.deep_view(),
            paused: self.paused,
        }
    }
}

impl DeepView for Queue {
    type V = QueueV;

    open spec fn deep_view(&self) -> QueueV {
        self.view()
    }
}

/// The whole persisted state: every queue, the name of the currently
/// selected one, and the directory-wide pause flag.
#[derive(Debug)]
pub struct State {
    pub queues: Vec<Queue>,
    /// Queues are identified by name.
    pub currently_selected: String,
    pub globally_paused: bool,
}

/// View of a `State`.
#[verifier::ext_equal]
pub struct StateV {
    pub queues: Seq<QueueV>,
    pub currently_selected: Seq<char>,
    pub globally_paused: bool,
}

impl View for State {
    type V = StateV;

    open spec fn view(&self) -> StateV {
        StateV {
            queues: self.queues.deep_view(),
            currently_selected: self.currently_selected@,
            globally_paused: self.globally_paused,
        }
    }
}

impl DeepView for State {
    type V = StateV;

    open spec fn deep_view(&self) -> StateV {
        self.view()
    }
}

/// The unrecoverable failures: all of them mean that the persisted state
/// must be fixed by hand (or, for a balance out of range, that the stored
/// numbers are beyond what this program can account).
#[derive(Clone, Copy, Debug, PartialEq, Eq, Structural)]
pub enum SqError {
    /// `last_calculation` does not parse as an RFC 2822 date: the persisted
    /// state is corrupted.
    CorruptTimestamp,
    /// The income interval is zero days, so no accrual rate is defined.
    ZeroInterval,
    /// A balance left the representable money range.
    BalanceOutOfRange,
    /// `currently_selected` names no existing queue.
    NoSelectedQueue,
    /// A queue with the requested name already exists.
    DuplicateQueueName,
}

impl SqError {
    /// A diagnostic line for this failure.
    pub fn message(&self) -> (r: &'static str)
        ensures
            *self is CorruptTimestamp ==> r@ ==
                "Can't parse date from last calculation, check the statefile"@,
            *self is ZeroInterval ==> r@ ==
                "Income interval is zero days, check the statefile"@,
            *self is BalanceOutOfRange ==> r@ ==
                "Balance is out of the representable money range"@,
            *self is NoSelectedQueue ==> r@ ==
                "Currently selected queue does not match any of the actual queues, present, you will need to fix this manually."@,
            *self is DuplicateQueueName ==> r@ ==
                "A queue with that name already exists"@,
    {
        match self {
            SqError::CorruptTimestamp => "Can't parse date from last calculation, check the statefile",
            SqError::ZeroInterval => "Income interval is zero days, check the statefile",
            SqError::BalanceOutOfRange => "Balance is out of the representable money range",
            SqError::NoSelectedQueue => "Currently selected queue does not match any of the actual queues, present, you will need to fix this manually.",
            SqError::DuplicateQueueName => "A queue with that name already exists",
        }
    }
}

} // verus!
