//! Admission verification of transactions and blocks: the rules that classify a
//! transaction, the caches that memoize answers and track blocks in flight, and the
//! routing and aggregation that turn worker answers into one decision per block.

pub mod types;
pub mod rules;
pub mod block;
pub mod cache;
pub mod handler;
pub mod executed;
