//! Day-by-day stock simulation: batches are withdrawn first-in-first-out,
//! replenished up to a capacity ceiling and culled when they expire, driven by
//! historical average movements indexed by week of year and day of week.

pub mod control;
pub mod coordinator;
pub mod dates;
pub mod error;
pub mod movement;
pub mod parameter;
pub mod per_day;
pub mod positions;
pub mod product_batch;
pub mod quantity;
pub mod summary;
