//! Requests about agents.
use vstd::prelude::*;

pub mod live;
pub mod multi_query;
pub mod query_dynamic_summary_buckets_multi;
pub mod query_dynamic_summary_history_multi;
pub mod subscription;

verus! {

/// The requests about agents.
pub struct AgentRpcImpl;

/// How many error numbers there are.
pub open spec fn error_id_count() -> int {
    0x1_0000_0000_0000_0000
}

/// The error number that is drawn after `n` others, where the first is `start`.
pub open spec fn error_id(start: u64, n: nat) -> int {
    (start + n) % error_id_count()
}

/// Draws the next error number, by which a failed average can be traced. After the greatest number
/// they start over.
pub fn generate_avg_error_id(counter: &mut u64) -> (id: u64)
    ensures
        id == *old(counter),
        *final(counter) == error_id(*old(counter), 1),
{
    let id: u64 = *counter;
    *counter = id.wrapping_add(1);
    id
}

/// Numbers are drawn one up from each other, and no number is drawn twice before all have been.
pub proof fn law_error_ids_differ(start: u64, m: nat, n: nat)
    ensures
        error_id(start, 0) == start,
        error_id(error_id(start, m) as u64, 1) == error_id(start, m + 1),
        m < n < m + error_id_count() ==> error_id(start, m) != error_id(start, n),
{
}

/// The number after a number is the next greater one, and after the greatest comes zero.
pub proof fn law_error_ids_count_up(id: u64)
    ensures
        id < u64::MAX ==> error_id(id, 1) == id + 1,
        id == u64::MAX ==> error_id(id, 1) == 0,
{
}

} // verus!
