//! Decision core of a marketplace trading agent: paging over a listing feed,
//! supply aggregation, floor-price buy classification, a rotating floor-price
//! schedule, the tick scheduler state and idempotent account-pool persistence.

pub mod accounts;
pub mod listing;
pub mod paging;
pub mod pass;
pub mod schedule;
pub mod scheduler;
