//! Scheduled work.
pub mod task;
