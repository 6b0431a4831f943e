//! Requests about tasks.
pub mod query_latest_per_node;
