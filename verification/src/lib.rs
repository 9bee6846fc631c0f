//! A tiny spending-queue library: a budget accrues continuously over time,
//! and purchases are gated against the accrued balance. Users keep one or
//! more named queues, each with its own income rate, running balance, an
//! ordered list of desired purchases, and a purchase history.

pub mod money;
pub mod timestamp;
pub mod types;
pub mod accrual;
pub mod purchase;
pub mod queues;
pub mod laws;
