//! Requests of the remote interface.
pub mod agent;
pub mod flow;
pub mod task;
