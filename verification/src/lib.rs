//! The decision logic of a node-monitoring server: live-push bookkeeping, multi-agent
//! queries, scheduled task dispatch and visitor statistics.
#![allow(unused_imports)]

pub mod access;
pub mod agent_id;
pub mod clock;
pub mod crontab;
pub mod error;
pub mod json;
pub mod monitoring_push;
pub mod rpc;
pub mod text;
pub mod visitor_stats;
pub mod ws_counter;
