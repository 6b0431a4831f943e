//! A query for the summaries of many agents, from the request to the answer.
use crate::access::{
    agent_scopes, agent_scopes_of, DatabaseBackend, Permission, PermissionView, Scope,
};
use crate::agent_id::{id_text, uuid_text};
use crate::error::{labelled, NodegetError, NodegetErrorView};
use crate::json::{is_written, json_written, write_text};
use crate::rpc::agent::query_dynamic_summary_buckets_multi::{
    buckets_sql, buckets_statement, columns_view, ensure_postgres, law_statement_of_a_query,
    plan_statement, postgres_only, SqlValue, SummaryColumn, SummaryColumnView,
};
use crate::rpc::agent::query_dynamic_summary_history_multi::{
    history_select, law_named_fields_are_selected, law_selection_of_a_query, plan_select,
    DynamicSummaryQueryField, SpanEnd, SummarySelection,
};
use crate::rpc::flow::{
    answer_written, token_failure, written_answer, QueryAction, QueryActionView, QueryEvent,
    QueryEventView,
};
use crate::text::{int_text, joined};
use vstd::prelude::*;
use vstd::string::*;

verus! {

/// How many agents a query names at most.
pub const MAX_UUIDS: usize = 500;

/// What is asked about the agents.
pub enum MultiQueryKind {
    /// Sums in equal buckets of time.
    Buckets { buckets: u64, columns: Vec<SummaryColumn> },
    /// The single records.
    History { fields: Vec<DynamicSummaryQueryField> },
}

pub enum MultiQueryKindView {
    Buckets { buckets: u64, columns: Seq<SummaryColumnView> },
    History { fields: Seq<DynamicSummaryQueryField> },
}

impl View for MultiQueryKind {
    type V = MultiQueryKindView;

    open spec fn view(&self) -> MultiQueryKindView {
        match self {
            MultiQueryKind::Buckets { buckets, columns } => MultiQueryKindView::Buckets {
                buckets: *buckets,
                columns: columns_view(columns@),
            },
            MultiQueryKind::History { fields } => MultiQueryKindView::History { fields: fields@ },
        }
    }
}

/// What a query waits for.
#[derive(Clone, Copy, Debug, PartialEq, Eq, Structural)]
pub enum MultiQueryPhase {
    Token,
    Permission,
    Database,
    Agents,
    Row,
    Closed,
}

/// A query for many agents.
pub struct MultiQuery {
    kind: MultiQueryKind,
    uuids: Vec<u128>,
    from: i64,
    to: i64,
    phase: MultiQueryPhase,
    ids: Vec<i16>,
}

pub struct MultiQueryView {
    pub kind: MultiQueryKindView,
    pub uuids: Seq<u128>,
    pub from: i64,
    pub to: i64,
    pub phase: MultiQueryPhase,
    /// The numbers of the agents at the front.
    pub ids: Seq<i16>,
}

impl View for MultiQuery {
    type V = MultiQueryView;

    closed spec fn view(&self) -> MultiQueryView {
        MultiQueryView {
            kind: self.kind@,
            uuids: self.uuids@,
            from: self.from,
            to: self.to,
            phase: self.phase,
            ids: self.ids@,
        }
    }
}

/// What a request is refused with, if it is refused: too many agents, no buckets, or a span of time
/// that is empty, in this order.
pub open spec fn request_failure(
    kind: MultiQueryKindView,
    uuids: Seq<u128>,
    from: i64,
    to: i64,
) -> Option<NodegetErrorView> {
    if uuids.len() > MAX_UUIDS {
        Some(NodegetErrorView::InvalidInput("uuids count exceeds maximum (500)"@))
    } else if kind matches MultiQueryKindView::Buckets { buckets, .. } && buckets == 0 {
        Some(NodegetErrorView::InvalidInput("buckets must be >= 1"@))
    } else if from >= to {
        Some(NodegetErrorView::InvalidInput("from must be less than to"@))
    } else {
        None
    }
}

/// What an agent without a number is answered.
pub open spec fn unknown_agent(uuid: u128) -> NodegetErrorView {
    NodegetErrorView::NotFound(
        "Agent UUID "@ + uuid_text(uuid) + " not found in monitoring registry"@,
    )
}

/// What a token without the permission is answered.
pub open spec fn summary_read_denied() -> NodegetErrorView {
    NodegetErrorView::PermissionDenied(
        "Permission Denied: Missing DynamicMonitoringSummary Read permission"@,
    )
}

/// What the row of a statement is answered: the row's value, or an empty array without a row.
pub open spec fn row_answer(row: Option<serde_json::Value>) -> QueryActionView {
    match row {
        Some(value) => written_answer(json_written(value)),
        None => QueryActionView::Answer("[]"@),
    }
}

impl MultiQueryView {
    /// The query with another phase.
    pub open spec fn at(self, phase: MultiQueryPhase) -> MultiQueryView {
        MultiQueryView { phase, ..self }
    }

    /// The query closed with a failure.
    pub open spec fn failed(self, error: NodegetErrorView) -> (MultiQueryView, QueryActionView) {
        (self.at(MultiQueryPhase::Closed), QueryActionView::Fail(error))
    }

    /// The query at its start, and its first action.
    pub open spec fn begun(
        kind: MultiQueryKindView,
        uuids: Seq<u128>,
        from: i64,
        to: i64,
    ) -> (MultiQueryView, QueryActionView) {
        let query = MultiQueryView {
            kind,
            uuids,
            from,
            to,
            phase: MultiQueryPhase::Token,
            ids: Seq::empty(),
        };
        if uuids.len() == 0 {
            (query.at(MultiQueryPhase::Closed), QueryActionView::Answer("[]"@))
        } else {
            match request_failure(kind, uuids, from, to) {
                Some(error) => query.failed(error),
                None => (query, QueryActionView::ParseToken),
            }
        }
    }

    /// The query with all agents looked up: what is handed to the database.
    pub open spec fn looked_up(self) -> (MultiQueryView, QueryActionView) {
        match self.kind {
            MultiQueryKindView::Buckets { buckets, columns } => match buckets_statement(
                columns,
                self.from,
                self.to,
                buckets,
                self.ids,
            ) {
                Ok(statement) => (
                    self.at(MultiQueryPhase::Row),
                    QueryActionView::RunBuckets(statement),
                ),
                Err(error) => self.failed(error),
            },
            MultiQueryKindView::History { fields } => (
                self.at(MultiQueryPhase::Closed),
                QueryActionView::RunHistory(history_select(fields, self.ids, self.from, self.to)),
            ),
        }
    }

    /// The query after an event, and the action that follows. An event that the phase does not wait
    /// for changes nothing.
    pub open spec fn after(self, event: QueryEventView) -> (MultiQueryView, QueryActionView) {
        match (self.phase, event) {
            (MultiQueryPhase::Token, QueryEventView::TokenRefused(reason)) => self.failed(
                token_failure(reason),
            ),
            (MultiQueryPhase::Token, QueryEventView::TokenParsed) => (
                self.at(MultiQueryPhase::Permission),
                QueryActionView::CheckPermission {
                    scopes: agent_scopes_of(self.uuids),
                    permission: PermissionView::DynamicMonitoringSummaryRead,
                },
            ),
            (MultiQueryPhase::Permission, QueryEventView::PermissionChecked(allowed)) => if allowed {
                (self.at(MultiQueryPhase::Database), QueryActionView::OpenDatabase)
            } else {
                self.failed(summary_read_denied())
            },
            (MultiQueryPhase::Permission, QueryEventView::Unavailable) => (
                self.at(MultiQueryPhase::Closed),
                QueryActionView::PassOn,
            ),
            (MultiQueryPhase::Database, QueryEventView::Unavailable) => (
                self.at(MultiQueryPhase::Closed),
                QueryActionView::PassOn,
            ),
            (MultiQueryPhase::Database, QueryEventView::DatabaseOpened(backend)) => if self.kind is Buckets
                && backend != DatabaseBackend::Postgres {
                self.failed(postgres_only())
            } else {
                (self.at(MultiQueryPhase::Agents), QueryActionView::LookUpAgent(self.uuids[0]))
            },
            (MultiQueryPhase::Agents, QueryEventView::AgentLookedUp(None)) => self.failed(
                unknown_agent(self.uuids[self.ids.len() as int]),
            ),
            (MultiQueryPhase::Agents, QueryEventView::AgentLookedUp(Some(id))) => {
                let next = MultiQueryView { ids: self.ids.push(id), ..self };
                if next.ids.len() < next.uuids.len() {
                    (next, QueryActionView::LookUpAgent(next.uuids[next.ids.len() as int]))
                } else {
                    next.looked_up()
                }
            },
            (MultiQueryPhase::Row, QueryEventView::DatabaseFailed(reason)) => self.failed(
                NodegetErrorView::DatabaseError("Database error: "@ + reason),
            ),
            (MultiQueryPhase::Row, QueryEventView::RowRead(row)) => (
                self.at(MultiQueryPhase::Closed),
                row_answer(row),
            ),
            _ => (self, QueryActionView::Ignore),
        }
    }

    /// A query that is not closed was not refused, and the agents are looked up in order.
    pub open spec fn wf(self) -> bool {
        self.phase != MultiQueryPhase::Closed ==> {
            &&& 0 < self.uuids.len()
            &&& request_failure(self.kind, self.uuids, self.from, self.to) is None
            &&& match self.phase {
                MultiQueryPhase::Agents => self.ids.len() < self.uuids.len(),
                MultiQueryPhase::Row => self.ids.len() == self.uuids.len(),
                _ => self.ids.len() == 0,
            }
        }
    }
}

/// Answers with the value of a row, as it is written, or with an empty array without a row.
pub fn answer_row(row: Option<serde_json::Value>) -> (action: QueryAction)
    ensures
        action@ == row_answer(row),
        row is Some && json_written(row->0) is Ok ==> action@ == QueryActionView::Answer(
            json_written(row->0)->Ok_0,
        ),
        row is None ==> action@ == QueryActionView::Answer("[]"@),
{
    match row {
        Some(value) => {
            assert(json_written(value) is Ok ==> is_written(json_written(value)->Ok_0)) by {
                if json_written(value) is Ok {
                    assert(json_written(value) == Ok::<Seq<char>, Seq<char>>(
                        json_written(value)->Ok_0,
                    ));
                }
            }
            answer_written(write_text(&value))
        },
        None => QueryAction::Answer("[]".to_owned()),
    }
}

impl MultiQuery {
    /// Whether the query is in a state that `begin` and `step` can bring about.
    pub closed spec fn wf(&self) -> bool {
        self@.wf()
    }

    /// Takes a request, and refuses it or starts the query.
    pub fn begin(kind: MultiQueryKind, uuids: Vec<u128>, from: i64, to: i64) -> (r: (
        MultiQuery,
        QueryAction,
    ))
        ensures
            r.0.wf(),
            r.0@.wf(),
            (r.0@, r.1@) == MultiQueryView::begun(kind@, uuids@, from, to),
    {
        let without_buckets = match &kind {
            MultiQueryKind::Buckets { buckets, .. } => *buckets == 0,
            MultiQueryKind::History { .. } => false,
        };
        let mut query = MultiQuery {
            kind,
            uuids,
            from,
            to,
            phase: MultiQueryPhase::Closed,
            ids: Vec::new(),
        };
        if query.uuids.len() == 0 {
            (query, QueryAction::Answer("[]".to_owned()))
        } else if query.uuids.len() > MAX_UUIDS {
            let error = NodegetError::InvalidInput("uuids count exceeds maximum (500)".to_owned());
            (query, QueryAction::Fail(error))
        } else if without_buckets {
            let error = NodegetError::InvalidInput("buckets must be >= 1".to_owned());
            (query, QueryAction::Fail(error))
        } else if from >= to {
            let error = NodegetError::InvalidInput("from must be less than to".to_owned());
            (query, QueryAction::Fail(error))
        } else {
            query.phase = MultiQueryPhase::Token;
            (query, QueryAction::ParseToken)
        }
    }

    /// Hands the query to the database.
    fn run(self) -> (r: (MultiQuery, QueryAction))
        requires
            self@.ids.len() == self@.uuids.len() <= MAX_UUIDS,
            0 < self@.uuids.len(),
            request_failure(self@.kind, self@.uuids, self@.from, self@.to) is None,
        ensures
            r.0.wf(),
            (r.0@, r.1@) == self@.looked_up(),
    {
        let MultiQuery { kind, uuids, from, to, phase: _, ids } = self;
        match kind {
            MultiQueryKind::Buckets { buckets, columns } => {
                let (phase, action) = match plan_statement(&columns, from, to, buckets, &ids) {
                    Ok(statement) => (MultiQueryPhase::Row, QueryAction::RunBuckets(statement)),
                    Err(error) => (MultiQueryPhase::Closed, QueryAction::Fail(error)),
                };
                let kind = MultiQueryKind::Buckets { buckets, columns };
                (MultiQuery { kind, uuids, from, to, phase, ids }, action)
            },
            MultiQueryKind::History { fields } => {
                let select = plan_select(&fields, ids.clone(), from, to);
                let kind = MultiQueryKind::History { fields };
                let phase = MultiQueryPhase::Closed;
                (
                    MultiQuery { kind, uuids, from, to, phase, ids },
                    QueryAction::RunHistory(select),
                )
            },
        }
    }

    /// Takes an event and says what is to be done next. A row that can be written is answered as it
    /// is written.
    pub fn step(self, event: QueryEvent) -> (r: (MultiQuery, QueryAction))
        requires
            self.wf(),
        ensures
            r.0.wf(),
            r.0@.wf(),
            (r.0@, r.1@) == self@.after(event@),
            self@.phase == MultiQueryPhase::Row ==> match event@ {
                QueryEventView::RowRead(Some(row)) => json_written(row) is Ok ==> r.1@
                    == QueryActionView::Answer(json_written(row)->Ok_0),
                _ => true,
            },
    {
        let mut query = self;
        match (query.phase, event) {
            (MultiQueryPhase::Token, QueryEvent::TokenRefused(reason)) => {
                query.phase = MultiQueryPhase::Closed;
                let error = NodegetError::ParseError(
                    labelled("Failed to parse token: ", reason.as_str()),
                );
                (query, QueryAction::Fail(error))
            },
            (MultiQueryPhase::Token, QueryEvent::TokenParsed) => {
                query.phase = MultiQueryPhase::Permission;
                let scopes = agent_scopes(&query.uuids);
                let permission = Permission::DynamicMonitoringSummaryRead;
                (query, QueryAction::CheckPermission { scopes, permission })
            },
            (MultiQueryPhase::Permission, QueryEvent::PermissionChecked(allowed)) => {
                if allowed {
                    query.phase = MultiQueryPhase::Database;
                    (query, QueryAction::OpenDatabase)
                } else {
                    query.phase = MultiQueryPhase::Closed;
                    let error = NodegetError::PermissionDenied(
                        "Permission Denied: Missing DynamicMonitoringSummary Read permission".to_owned(),
                    );
                    (query, QueryAction::Fail(error))
                }
            },
            (MultiQueryPhase::Permission, QueryEvent::Unavailable) => {
                query.phase = MultiQueryPhase::Closed;
                (query, QueryAction::PassOn)
            },
            (MultiQueryPhase::Database, QueryEvent::Unavailable) => {
                query.phase = MultiQueryPhase::Closed;
                (query, QueryAction::PassOn)
            },
            (MultiQueryPhase::Database, QueryEvent::DatabaseOpened(backend)) => {
                let refused = match &query.kind {
                    MultiQueryKind::Buckets { .. } => ensure_postgres(backend),
                    MultiQueryKind::History { .. } => Ok(()),
                };
                match refused {
                    Err(error) => {
                        query.phase = MultiQueryPhase::Closed;
                        (query, QueryAction::Fail(error))
                    },
                    Ok(()) => {
                        query.phase = MultiQueryPhase::Agents;
                        let uuid: u128 = query.uuids[0];
                        (query, QueryAction::LookUpAgent(uuid))
                    },
                }
            },
            (MultiQueryPhase::Agents, QueryEvent::AgentLookedUp(None)) => {
                let uuid: u128 = query.uuids[query.ids.len()];
                query.phase = MultiQueryPhase::Closed;
                let message = labelled("Agent UUID ", id_text(uuid).as_str()).concat(
                    " not found in monitoring registry",
                );
                (query, QueryAction::Fail(NodegetError::NotFound(message)))
            },
            (MultiQueryPhase::Agents, QueryEvent::AgentLookedUp(Some(id))) => {
                query.ids.push(id);
                if query.ids.len() < query.uuids.len() {
                    let uuid: u128 = query.uuids[query.ids.len()];
                    (query, QueryAction::LookUpAgent(uuid))
                } else {
                    query.run()
                }
            },
            (MultiQueryPhase::Row, QueryEvent::DatabaseFailed(reason)) => {
                query.phase = MultiQueryPhase::Closed;
                let error = NodegetError::DatabaseError(
                    labelled("Database error: ", reason.as_str()),
                );
                (query, QueryAction::Fail(error))
            },
            (MultiQueryPhase::Row, QueryEvent::RowRead(row)) => {
                query.phase = MultiQueryPhase::Closed;
                (query, answer_row(row))
            },
            _ => (query, QueryAction::Ignore),
        }
    }
}

impl MultiQueryView {
    /// The query after the events, one after the other.
    pub open spec fn ran(self, events: Seq<QueryEventView>) -> MultiQueryView
        decreases events.len(),
    {
        if events.len() == 0 {
            self
        } else {
            self.ran(events.drop_last()).after(events.last()).0
        }
    }
}

/// The events of agents that were found, one after the other.
pub open spec fn found_events(ids: Seq<i16>) -> Seq<QueryEventView> {
    ids.map_values(|id: i16| QueryEventView::AgentLookedUp(Some(id)))
}

proof fn lemma_agents_so_far(query: MultiQueryView, ids: Seq<i16>)
    requires
        query.wf(),
        query.phase == MultiQueryPhase::Agents,
        query.ids.len() == 0,
        ids.len() < query.uuids.len(),
    ensures
        query.ran(found_events(ids)) == (MultiQueryView { ids, ..query }),
    decreases ids.len(),
{
    if ids.len() == 0 {
        assert(ids =~= query.ids);
    } else {
        lemma_agents_so_far(query, ids.drop_last());
        assert(found_events(ids).drop_last() =~= found_events(ids.drop_last()));
        assert(ids.drop_last().push(ids.last()) =~= ids);
    }
}

/// Every agent is looked up once, in the order of the request, and the database is asked about
/// exactly the numbers that were found, in that order.
pub proof fn law_agents_are_looked_up_in_order(
    query: MultiQueryView,
    backend: DatabaseBackend,
    ids: Seq<i16>,
)
    requires
        query.wf(),
        query.phase == MultiQueryPhase::Database,
        query.kind is Buckets ==> backend == DatabaseBackend::Postgres,
        ids.len() == query.uuids.len(),
    ensures
        ({
            let (opened, first) = query.after(QueryEventView::DatabaseOpened(backend));
            &&& first == QueryActionView::LookUpAgent(query.uuids[0])
            &&& forall|k: int|
                #![trigger query.uuids[k]]
                0 < k < ids.len() ==> opened.ran(found_events(ids.take(k - 1))).after(
                    QueryEventView::AgentLookedUp(Some(ids[k - 1])),
                ).1 == QueryActionView::LookUpAgent(query.uuids[k])
            &&& opened.ran(found_events(ids.drop_last())).after(
                QueryEventView::AgentLookedUp(Some(ids.last())),
            ) == (MultiQueryView { ids, ..opened }).looked_up()
        }),
{
    let opened = query.after(QueryEventView::DatabaseOpened(backend)).0;
    assert forall|k: int|
        #![trigger query.uuids[k]]
        0 < k < ids.len() implies opened.ran(found_events(ids.take(k - 1))).after(
        QueryEventView::AgentLookedUp(Some(ids[k - 1])),
    ).1 == QueryActionView::LookUpAgent(query.uuids[k]) by {
        lemma_agents_so_far(opened, ids.take(k - 1));
    }
    lemma_agents_so_far(opened, ids.drop_last());
    assert(ids.drop_last().push(ids.last()) =~= ids);
}

/// The first agent without a number ends the query, and the failure names that agent.
pub proof fn law_first_unknown_agent_is_named(
    query: MultiQueryView,
    backend: DatabaseBackend,
    ids: Seq<i16>,
)
    requires
        query.wf(),
        query.phase == MultiQueryPhase::Database,
        query.kind is Buckets ==> backend == DatabaseBackend::Postgres,
        ids.len() < query.uuids.len(),
    ensures
        query.after(QueryEventView::DatabaseOpened(backend)).0.ran(found_events(ids)).after(
            QueryEventView::AgentLookedUp(None),
        ).1 == QueryActionView::Fail(unknown_agent(query.uuids[ids.len() as int])),
{
    lemma_agents_so_far(query.after(QueryEventView::DatabaseOpened(backend)).0, ids);
}

proof fn lemma_permitted_before_database(start: MultiQueryView, events: Seq<QueryEventView>)
    requires
        start.phase == MultiQueryPhase::Token || start.phase == MultiQueryPhase::Closed,
    ensures
        ({
            let phase = start.ran(events).phase;
            phase == MultiQueryPhase::Database || phase == MultiQueryPhase::Agents || phase
                == MultiQueryPhase::Row ==> events.contains(
                QueryEventView::PermissionChecked(true),
            )
        }),
    decreases events.len(),
{
    if events.len() > 0 {
        let earlier = events.drop_last();
        lemma_permitted_before_database(start, earlier);
        let checked = QueryEventView::PermissionChecked(true);
        if earlier.contains(checked) {
            let i = earlier.index_of(checked);
            assert(events[i] == checked);
        }
        if events.last() == checked {
            assert(events[events.len() - 1] == checked);
        }
    }
}

/// The database is not touched, and no agent is looked up, before the permission for all agents
/// was checked and granted.
pub proof fn law_no_summaries_without_permission(
    kind: MultiQueryKindView,
    uuids: Seq<u128>,
    from: i64,
    to: i64,
    events: Seq<QueryEventView>,
    event: QueryEventView,
)
    requires
        ({
            let start = MultiQueryView::begun(kind, uuids, from, to).0;
            let action = start.ran(events).after(event).1;
            action is OpenDatabase || action is LookUpAgent || action.reads_database()
        }),
    ensures
        events.push(event).contains(QueryEventView::PermissionChecked(true)),
{
    let checked = QueryEventView::PermissionChecked(true);
    lemma_permitted_before_database(MultiQueryView::begun(kind, uuids, from, to).0, events);
    if events.contains(checked) {
        let i = events.index_of(checked);
        assert(events.push(event)[i] == checked);
    } else {
        assert(events.push(event)[events.len() as int] == checked);
    }
}

/// A query is answered once: after an answer, a failure or the final selection every event is
/// ignored.
pub proof fn law_answered_once(query: MultiQueryView, event: QueryEventView, later: QueryEventView)
    requires
        query.after(event).1.ends(),
    ensures
        query.after(event).0.after(later) == (query.after(event).0, QueryActionView::Ignore),
{
}

/// A request is refused, or answered at once, exactly if it names no agent, more agents than a query
/// may name, no buckets, or a span of time that is empty; and then every event is ignored.
pub proof fn law_refused_requests(
    kind: MultiQueryKindView,
    uuids: Seq<u128>,
    from: i64,
    to: i64,
    later: QueryEventView,
)
    ensures
        ({
            let (query, action) = MultiQueryView::begun(kind, uuids, from, to);
            let no_buckets = kind matches MultiQueryKindView::Buckets { buckets, .. } && buckets == 0;
            let refused = uuids.len() == 0 || uuids.len() > MAX_UUIDS || no_buckets || from >= to;
            &&& action.ends() == refused
            &&& !refused ==> action is ParseToken
            &&& refused ==> query.after(later) == (query, QueryActionView::Ignore)
        }),
{
}

/// What a request is told at once: without an agent an empty array, with too many agents, no buckets or
/// an empty span of time what is wrong with it, in this order, and otherwise its token is parsed.
pub proof fn law_first_answer_to_a_request(
    kind: MultiQueryKindView,
    uuids: Seq<u128>,
    from: i64,
    to: i64,
)
    ensures
        ({
            let (query, action) = MultiQueryView::begun(kind, uuids, from, to);
            let no_buckets = kind matches MultiQueryKindView::Buckets { buckets, .. } && buckets == 0;
            &&& query.kind == kind
            &&& query.uuids == uuids
            &&& query.from == from
            &&& query.to == to
            &&& query.ids.len() == 0
            &&& if uuids.len() == 0 {
                query.phase == MultiQueryPhase::Closed && action == QueryActionView::Answer("[]"@)
            } else if uuids.len() > 500 {
                query.phase == MultiQueryPhase::Closed && action == QueryActionView::Fail(
                    NodegetErrorView::InvalidInput("uuids count exceeds maximum (500)"@),
                )
            } else if no_buckets {
                query.phase == MultiQueryPhase::Closed && action == QueryActionView::Fail(
                    NodegetErrorView::InvalidInput("buckets must be >= 1"@),
                )
            } else if from >= to {
                query.phase == MultiQueryPhase::Closed && action == QueryActionView::Fail(
                    NodegetErrorView::InvalidInput("from must be less than to"@),
                )
            } else {
                query.phase == MultiQueryPhase::Token && action == QueryActionView::ParseToken
            }
        }),
{
}

/// A token that was parsed needs the permission to read the summaries of every agent of the request,
/// and no other; without it, or with a token that was refused, the query fails and says why.
pub proof fn law_permission_for_every_agent(query: MultiQueryView, reason: Seq<char>, i: int)
    ensures
        query.phase == MultiQueryPhase::Token ==> {
            let (next, action) = query.after(QueryEventView::TokenParsed);
            &&& next == MultiQueryView { phase: MultiQueryPhase::Permission, ..query }
            &&& action matches QueryActionView::CheckPermission { scopes, permission }
            &&& permission == PermissionView::DynamicMonitoringSummaryRead
            &&& scopes.len() == query.uuids.len()
            &&& 0 <= i < scopes.len() ==> scopes[i] == Scope::AgentUuid(query.uuids[i])
        },
        query.phase == MultiQueryPhase::Token ==> query.after(QueryEventView::TokenRefused(reason))
            == (
            MultiQueryView { phase: MultiQueryPhase::Closed, ..query },
            QueryActionView::Fail(
                NodegetErrorView::ParseError("Failed to parse token: "@ + reason),
            ),
        ),
        query.phase == MultiQueryPhase::Permission ==> query.after(
            QueryEventView::PermissionChecked(true),
        ) == (
            MultiQueryView { phase: MultiQueryPhase::Database, ..query },
            QueryActionView::OpenDatabase,
        ),
        query.phase == MultiQueryPhase::Permission ==> query.after(
            QueryEventView::PermissionChecked(false),
        ) == (
            MultiQueryView { phase: MultiQueryPhase::Closed, ..query },
            QueryActionView::Fail(
                NodegetErrorView::PermissionDenied(
                    "Permission Denied: Missing DynamicMonitoringSummary Read permission"@,
                ),
            ),
        ),
        query.phase == MultiQueryPhase::Permission || query.phase == MultiQueryPhase::Database
            ==> query.after(QueryEventView::Unavailable) == (
            MultiQueryView { phase: MultiQueryPhase::Closed, ..query },
            QueryActionView::PassOn,
        ),
{
}

/// In a database that is open the agents are looked up, from the first one on; only PostgreSQL can sum
/// in buckets. An agent without a number ends the query and is named.
pub proof fn law_agents_are_looked_up(query: MultiQueryView, backend: DatabaseBackend, id: i16)
    requires
        query.wf(),
    ensures
        query.phase == MultiQueryPhase::Database ==> query.after(
            QueryEventView::DatabaseOpened(backend),
        ) == if query.kind is History || backend == DatabaseBackend::Postgres {
            (
                MultiQueryView { phase: MultiQueryPhase::Agents, ..query },
                QueryActionView::LookUpAgent(query.uuids[0]),
            )
        } else {
            (
                MultiQueryView { phase: MultiQueryPhase::Closed, ..query },
                QueryActionView::Fail(
                    NodegetErrorView::InvalidInput(
                        "agent_query_dynamic_summary_buckets_multi only supports PostgreSQL"@,
                    ),
                ),
            )
        },
        query.phase == MultiQueryPhase::Agents ==> query.after(QueryEventView::AgentLookedUp(None))
            == (
            MultiQueryView { phase: MultiQueryPhase::Closed, ..query },
            QueryActionView::Fail(
                NodegetErrorView::NotFound(
                    "Agent UUID "@ + uuid_text(query.uuids[query.ids.len() as int])
                        + " not found in monitoring registry"@,
                ),
            ),
        ),
        query.phase == MultiQueryPhase::Agents && query.ids.len() + 1 < query.uuids.len()
            ==> query.after(QueryEventView::AgentLookedUp(Some(id))) == (
            MultiQueryView { ids: query.ids.push(id), ..query },
            QueryActionView::LookUpAgent(query.uuids[(query.ids.len() + 1) as int]),
        ),
{
}

/// A row is answered as it is written, no row as an empty array, and a database that failed with its
/// reason.
pub proof fn law_row_is_the_answer(
    query: MultiQueryView,
    row: serde_json::Value,
    reason: Seq<char>,
)
    requires
        query.phase == MultiQueryPhase::Row,
    ensures
        query.after(QueryEventView::RowRead(None)) == (
            MultiQueryView { phase: MultiQueryPhase::Closed, ..query },
            QueryActionView::Answer("[]"@),
        ),
        query.after(QueryEventView::RowRead(Some(row))) == (
            MultiQueryView { phase: MultiQueryPhase::Closed, ..query },
            written_answer(json_written(row)),
        ),
        query.after(QueryEventView::DatabaseFailed(reason)) == (
            MultiQueryView { phase: MultiQueryPhase::Closed, ..query },
            QueryActionView::Fail(NodegetErrorView::DatabaseError("Database error: "@ + reason)),
        ),
{
}

/// An event that the query does not wait for changes nothing.
pub proof fn law_other_events_are_ignored(query: MultiQueryView, event: QueryEventView)
    requires
        match query.phase {
            MultiQueryPhase::Token => !(event is TokenParsed) && !(event is TokenRefused),
            MultiQueryPhase::Permission => !(event is PermissionChecked) && !(event is Unavailable),
            MultiQueryPhase::Database => !(event is DatabaseOpened) && !(event is Unavailable),
            MultiQueryPhase::Agents => !(event is AgentLookedUp),
            MultiQueryPhase::Row => !(event is RowRead) && !(event is DatabaseFailed),
            MultiQueryPhase::Closed => true,
        },
    ensures
        query.after(event) == (query, QueryActionView::Ignore),
{
}

proof fn lemma_request_is_kept(
    kind: MultiQueryKindView,
    uuids: Seq<u128>,
    from: i64,
    to: i64,
    events: Seq<QueryEventView>,
)
    ensures
        ({
            let query = MultiQueryView::begun(kind, uuids, from, to).0.ran(events);
            &&& query.wf()
            &&& query.kind == kind
            &&& query.uuids == uuids
            &&& query.from == from
            &&& query.to == to
        }),
    decreases events.len(),
{
    if events.len() > 0 {
        lemma_request_is_kept(kind, uuids, from, to, events.drop_last());
    }
}

/// Whatever happened before, the database is asked what was requested: about the span of time, the
/// columns and the number of buckets of the request, with one number for every agent of it, in order.
pub proof fn law_database_is_asked_what_was_requested(
    kind: MultiQueryKindView,
    uuids: Seq<u128>,
    from: i64,
    to: i64,
    events: Seq<QueryEventView>,
    id: i16,
)
    requires
        ({
            let query = MultiQueryView::begun(kind, uuids, from, to).0.ran(events);
            query.phase == MultiQueryPhase::Agents && query.ids.len() + 1 == uuids.len()
        }),
    ensures
        ({
            let query = MultiQueryView::begun(kind, uuids, from, to).0.ran(events);
            let (next, action) = query.after(QueryEventView::AgentLookedUp(Some(id)));
            let ids = query.ids.push(id);
            &&& next.kind == kind && next.uuids == uuids && next.from == from && next.to == to
                && next.ids == ids
            &&& match kind {
                MultiQueryKindView::Buckets { buckets, columns } => if buckets > i64::MAX {
                    next.phase == MultiQueryPhase::Closed && action == QueryActionView::Fail(
                        NodegetErrorView::InvalidInput("buckets value too large"@),
                    )
                } else {
                    &&& next.phase == MultiQueryPhase::Row
                    &&& action matches QueryActionView::RunBuckets(statement)
                    &&& statement.sql == buckets_sql(
                        columns,
                        joined(Seq::new(uuids.len(), |i: int| "$"@ + int_text(i + 4)), ", "@),
                    )
                    &&& statement.values == seq![
                        SqlValue::BigInt(from),
                        SqlValue::BigInt(to),
                        SqlValue::BigInt(buckets as i64),
                    ] + ids.map_values(|id: i16| SqlValue::SmallInt(id))
                },
                MultiQueryKindView::History { fields } => {
                    &&& next.phase == MultiQueryPhase::Closed
                    &&& action matches QueryActionView::RunHistory(select)
                    &&& select.uuid_ids == ids
                    &&& select.span.from == SpanEnd::Included(from)
                    &&& select.span.to == SpanEnd::Included(to)
                    &&& select.columns[0] == SummarySelection::UuidId
                    &&& select.columns[1] == SummarySelection::Timestamp
                    &&& fields.len() > 0 ==> select.columns.len() == 2 + fields.len()
                    &&& forall|i: int|
                        0 <= i < fields.len() ==> select.columns[2 + i] == SummarySelection::Field(
                            #[trigger] fields[i],
                        )
                    &&& fields.len() == 0 ==> select.columns.len() == 25
                    &&& select.limit == if uuids.len() <= 50 {
                        1_000 * uuids.len()
                    } else {
                        50_000
                    }
                },
            }
        }),
{
    lemma_request_is_kept(kind, uuids, from, to, events);
    let query = MultiQueryView::begun(kind, uuids, from, to).0.ran(events);
    let ids = query.ids.push(id);
    match kind {
        MultiQueryKindView::Buckets { buckets, columns } => {
            law_statement_of_a_query(columns, from, to, buckets, ids);
            if buckets <= i64::MAX {
                let statement = buckets_statement(columns, from, to, buckets, ids)->Ok_0;
                assert(statement.values =~= seq![
                    SqlValue::BigInt(from),
                    SqlValue::BigInt(to),
                    SqlValue::BigInt(buckets as i64),
                ] + ids.map_values(|id: i16| SqlValue::SmallInt(id)));
            }
        },
        MultiQueryKindView::History { fields } => {
            law_selection_of_a_query(fields, ids, from, to);
            assert forall|i: int| 0 <= i < fields.len() implies history_select(
                fields,
                ids,
                from,
                to,
            ).columns[2 + i] == SummarySelection::Field(#[trigger] fields[i]) by {
                law_named_fields_are_selected(fields, i);
            }
            law_named_fields_are_selected(fields, 0);
        },
    }
}

/// A request is taken as it was made: its number of buckets, its columns and its fields.
pub proof fn law_requests_are_taken_as_made(kind: MultiQueryKind)
    ensures
        kind matches MultiQueryKind::Buckets { buckets, columns } ==> kind@
            == (MultiQueryKindView::Buckets { buckets, columns: columns_view(columns@) }),
        kind matches MultiQueryKind::History { fields } ==> kind@ == (MultiQueryKindView::History {
            fields: fields@,
        }),
{
}

} // verus!
