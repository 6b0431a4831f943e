//! What a request asks to be allowed, and the database behind it.
use vstd::prelude::*;

verus! {

/// Where a permission is asked for.
#[derive(Clone, Copy, Debug, PartialEq, Eq, Structural)]
pub enum Scope {
    Global,
    AgentUuid(u128),
}

/// What is asked for.
#[derive(Debug)]
pub enum Permission {
    /// To read the dynamic monitoring summaries.
    DynamicMonitoringSummaryRead,
    /// To read the tasks of one type.
    TaskRead(String),
}

/// A permission with its task type as a sequence of characters.
pub enum PermissionView {
    DynamicMonitoringSummaryRead,
    TaskRead(Seq<char>),
}

impl View for Permission {
    type V = PermissionView;

    open spec fn view(&self) -> PermissionView {
        match self {
            Permission::DynamicMonitoringSummaryRead => PermissionView::DynamicMonitoringSummaryRead,
            Permission::TaskRead(task_type) => PermissionView::TaskRead(task_type@),
        }
    }
}

/// The kind of database that is connected.
#[derive(Clone, Copy, Debug, PartialEq, Eq, Structural)]
pub enum DatabaseBackend {
    MySql,
    Postgres,
    Sqlite,
}

/// The scopes of a request for the given agents, one for each, in order.
pub open spec fn agent_scopes_of(agents: Seq<u128>) -> Seq<Scope> {
    agents.map_values(|agent: u128| Scope::AgentUuid(agent))
}

/// The scopes of a request for the given agents, one for each, in order.
pub fn agent_scopes(agents: &Vec<u128>) -> (scopes: Vec<Scope>)
    ensures
        scopes@ == agent_scopes_of(agents@),
{
    let mut scopes: Vec<Scope> = Vec::with_capacity(agents.len());
    for i in 0..agents.len()
        invariant
            scopes@ == agent_scopes_of(agents@.take(i as int)),
    {
        scopes.push(Scope::AgentUuid(agents[i]));
        assert(agents@.take(i + 1) =~= agents@.take(i as int).push(agents@[i as int]));
    }
    assert(agents@.take(agents@.len() as int) =~= agents@);
    scopes
}

/// Every agent is a scope of its own, in its place.
pub proof fn law_every_agent_is_a_scope(agents: Seq<u128>, i: int)
    ensures
        agent_scopes_of(agents).len() == agents.len(),
        0 <= i < agents.len() ==> agent_scopes_of(agents)[i] == Scope::AgentUuid(agents[i]),
{
}

/// A permission for the tasks of a type is one for that very type.
pub proof fn law_permission_names_its_type(permission: Permission)
    ensures
        permission matches Permission::TaskRead(task_type) ==> permission@
            == PermissionView::TaskRead(task_type@),
        permission@ is DynamicMonitoringSummaryRead <==> permission is DynamicMonitoringSummaryRead,
{
}

} // verus!
