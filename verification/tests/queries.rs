use nodeget_server::access::{DatabaseBackend, Permission, Scope};
use nodeget_server::error::{error_data, NodegetError};
use nodeget_server::rpc::agent::multi_query::{answer_row, MultiQuery, MultiQueryKind};
use nodeget_server::rpc::agent::query_dynamic_summary_buckets_multi::{
    build_sql, ensure_postgres, plan_statement, uuid_placeholders, SqlValue, SummaryColumn,
};
use nodeget_server::rpc::agent::query_dynamic_summary_history_multi::{
    add_all_columns, plan_select, ColumnSpan, DynamicSummaryQueryField, RowOrder, SortDirection,
    SpanEnd, SummarySelection,
};
use nodeget_server::rpc::flow::{answer_document, answer_written, QueryAction, QueryEvent};
use nodeget_server::rpc::task::query_latest_per_node::{
    escape_like_pattern, row_edits, type_condition, LatestQuery, RowEdit, RowPick, TaskColumn,
    TypeCondition,
};
use serde_json::Value;

fn json(text: &str) -> Value {
    serde_json::from_str(text).unwrap()
}

fn cpu() -> SummaryColumn {
    SummaryColumn {
        column_name: "cpu_usage".to_string(),
        json_key: "cpu".to_string(),
        is_scaled: true,
    }
}

fn memory() -> SummaryColumn {
    SummaryColumn {
        column_name: "used_memory".to_string(),
        json_key: "memory".to_string(),
        is_scaled: false,
    }
}

fn buckets(n: u64) -> MultiQueryKind {
    MultiQueryKind::Buckets { buckets: n, columns: vec![cpu(), memory()] }
}

fn history() -> MultiQueryKind {
    MultiQueryKind::History { fields: vec![DynamicSummaryQueryField::Uptime] }
}

fn failure(action: QueryAction) -> NodegetError {
    match action {
        QueryAction::Fail(error) => error,
        _ => panic!("no failure"),
    }
}

fn invalid_input(action: QueryAction) -> String {
    match failure(action) {
        NodegetError::InvalidInput(message) => message,
        _ => panic!("another failure"),
    }
}

fn permitted(kind: MultiQueryKind, uuids: Vec<u128>) -> MultiQuery {
    let (query, action) = MultiQuery::begin(kind, uuids.clone(), 10, 20);
    assert!(matches!(action, QueryAction::ParseToken));
    let (query, action) = query.step(QueryEvent::TokenParsed);
    match action {
        QueryAction::CheckPermission { scopes, permission } => {
            let expected: Vec<Scope> = uuids.iter().map(|u| Scope::AgentUuid(*u)).collect();
            assert_eq!(scopes, expected);
            assert!(matches!(permission, Permission::DynamicMonitoringSummaryRead));
        }
        _ => panic!("no permission is asked for"),
    }
    let (query, action) = query.step(QueryEvent::PermissionChecked(true));
    assert!(matches!(action, QueryAction::OpenDatabase));
    query
}

#[test]
fn a_query_for_no_agents_is_answered_at_once() {
    for kind in vec![buckets(0), history()] {
        let (query, action) = MultiQuery::begin(kind, vec![], 5, 5);
        match action {
            QueryAction::Answer(text) => assert_eq!(text, "[]"),
            _ => panic!("not answered"),
        }
        assert!(matches!(query.step(QueryEvent::TokenParsed).1, QueryAction::Ignore));
    }
}

#[test]
fn a_query_for_too_many_agents_is_refused() {
    let (_, action) = MultiQuery::begin(history(), vec![1; 501], 0, 1);
    assert_eq!(invalid_input(action), "uuids count exceeds maximum (500)");
    let (_, action) = MultiQuery::begin(buckets(0), vec![1; 501], 0, 1);
    assert_eq!(invalid_input(action), "uuids count exceeds maximum (500)");
    let (_, action) = MultiQuery::begin(history(), vec![1; 500], 0, 1);
    assert!(matches!(action, QueryAction::ParseToken));
}

#[test]
fn a_query_without_buckets_is_refused() {
    let (_, action) = MultiQuery::begin(buckets(0), vec![1], 1, 0);
    assert_eq!(invalid_input(action), "buckets must be >= 1");
}

#[test]
fn a_query_for_an_empty_span_is_refused() {
    for kind in vec![buckets(1), history()] {
        let (query, action) = MultiQuery::begin(kind, vec![1], 7, 7);
        assert_eq!(invalid_input(action), "from must be less than to");
        assert!(matches!(query.step(QueryEvent::TokenParsed).1, QueryAction::Ignore));
    }
}

#[test]
fn a_query_with_a_bad_token_fails() {
    let (query, _) = MultiQuery::begin(history(), vec![1], 0, 1);
    let (_, action) = query.step(QueryEvent::TokenRefused("bad".to_string()));
    match failure(action) {
        NodegetError::ParseError(message) => assert_eq!(message, "Failed to parse token: bad"),
        _ => panic!("another failure"),
    }
}

#[test]
fn a_query_without_permission_fails() {
    let (query, _) = MultiQuery::begin(history(), vec![1], 0, 1);
    let (query, _) = query.step(QueryEvent::TokenParsed);
    let (query, action) = query.step(QueryEvent::PermissionChecked(false));
    match failure(action) {
        NodegetError::PermissionDenied(message) => assert_eq!(
            message,
            "Permission Denied: Missing DynamicMonitoringSummary Read permission"
        ),
        _ => panic!("another failure"),
    }
    let (_, action) = query.step(QueryEvent::DatabaseOpened(DatabaseBackend::Postgres));
    assert!(matches!(action, QueryAction::Ignore));
}

#[test]
fn what_is_unavailable_is_passed_on() {
    let (query, _) = MultiQuery::begin(history(), vec![1], 0, 1);
    let (query, _) = query.step(QueryEvent::TokenParsed);
    assert!(matches!(query.step(QueryEvent::Unavailable).1, QueryAction::PassOn));
    let query = permitted(history(), vec![1]);
    assert!(matches!(query.step(QueryEvent::Unavailable).1, QueryAction::PassOn));
}

#[test]
fn buckets_need_postgres() {
    for backend in vec![DatabaseBackend::Sqlite, DatabaseBackend::MySql] {
        let query = permitted(buckets(3), vec![1]);
        let (_, action) = query.step(QueryEvent::DatabaseOpened(backend));
        assert_eq!(
            invalid_input(action),
            "agent_query_dynamic_summary_buckets_multi only supports PostgreSQL"
        );
        assert!(ensure_postgres(backend).is_err());
        let query = permitted(history(), vec![1]);
        let (_, action) = query.step(QueryEvent::DatabaseOpened(backend));
        assert!(matches!(action, QueryAction::LookUpAgent(1)));
    }
    assert!(ensure_postgres(DatabaseBackend::Postgres).is_ok());
}

#[test]
fn the_first_unknown_agent_is_named() {
    let query = permitted(history(), vec![1, 2, 3]);
    let (query, action) = query.step(QueryEvent::DatabaseOpened(DatabaseBackend::Sqlite));
    assert!(matches!(action, QueryAction::LookUpAgent(1)));
    let (query, action) = query.step(QueryEvent::AgentLookedUp(Some(11)));
    assert!(matches!(action, QueryAction::LookUpAgent(2)));
    let (query, action) = query.step(QueryEvent::AgentLookedUp(None));
    match failure(action) {
        NodegetError::NotFound(message) => assert_eq!(
            message,
            "Agent UUID 00000000-0000-0000-0000-000000000002 not found in monitoring registry"
        ),
        _ => panic!("another failure"),
    }
    assert!(matches!(query.step(QueryEvent::AgentLookedUp(None)).1, QueryAction::Ignore));
}

#[test]
fn history_asks_for_the_agents_in_order() {
    let query = permitted(history(), vec![5, 4]);
    let (query, _) = query.step(QueryEvent::DatabaseOpened(DatabaseBackend::Sqlite));
    let (query, _) = query.step(QueryEvent::AgentLookedUp(Some(50)));
    let (query, action) = query.step(QueryEvent::AgentLookedUp(Some(40)));
    match action {
        QueryAction::RunHistory(select) => {
            assert_eq!(select.uuid_ids, vec![50, 40]);
            assert_eq!(
                select.span,
                ColumnSpan {
                    column: SummarySelection::Timestamp,
                    from: SpanEnd::Included(10),
                    to: SpanEnd::Included(20),
                }
            );
            assert_eq!(
                select.order,
                RowOrder {
                    column: SummarySelection::Timestamp,
                    direction: SortDirection::Ascending,
                }
            );
            assert_eq!(select.limit, 2_000);
            assert_eq!(
                select.columns,
                vec![
                    SummarySelection::UuidId,
                    SummarySelection::Timestamp,
                    SummarySelection::Field(DynamicSummaryQueryField::Uptime),
                ]
            );
        }
        _ => panic!("not run"),
    }
    assert!(matches!(query.step(QueryEvent::RowRead(None)).1, QueryAction::Ignore));
}

#[test]
fn buckets_are_answered_with_the_row() {
    let query = permitted(buckets(3), vec![5, 4]);
    let (query, _) = query.step(QueryEvent::DatabaseOpened(DatabaseBackend::Postgres));
    let (query, _) = query.step(QueryEvent::AgentLookedUp(Some(50)));
    let (query, action) = query.step(QueryEvent::AgentLookedUp(Some(40)));
    match action {
        QueryAction::RunBuckets(statement) => {
            assert_eq!(statement.sql, build_sql(&vec![cpu(), memory()], "$4, $5"));
            assert_eq!(
                statement.values,
                vec![
                    SqlValue::BigInt(10),
                    SqlValue::BigInt(20),
                    SqlValue::BigInt(3),
                    SqlValue::SmallInt(50),
                    SqlValue::SmallInt(40),
                ]
            );
        }
        _ => panic!("not run"),
    }
    let (_, action) = query.step(QueryEvent::RowRead(Some(json("[ {\"t\" : 1} ]"))));
    match action {
        QueryAction::Answer(text) => assert_eq!(text, "[{\"t\":1}]"),
        _ => panic!("not answered"),
    }
}

#[test]
fn buckets_that_the_database_fails_on_fail() {
    let query = permitted(buckets(3), vec![5]);
    let (query, _) = query.step(QueryEvent::DatabaseOpened(DatabaseBackend::Postgres));
    let (query, _) = query.step(QueryEvent::AgentLookedUp(Some(50)));
    let (_, action) = query.step(QueryEvent::DatabaseFailed("gone".to_string()));
    match failure(action) {
        NodegetError::DatabaseError(message) => assert_eq!(message, "Database error: gone"),
        _ => panic!("another failure"),
    }
}

#[test]
fn more_buckets_than_the_database_can_count_are_refused() {
    let too_many = i64::MAX as u64 + 1;
    let query = permitted(buckets(too_many), vec![5]);
    let (query, _) = query.step(QueryEvent::DatabaseOpened(DatabaseBackend::Postgres));
    let (_, action) = query.step(QueryEvent::AgentLookedUp(Some(50)));
    assert_eq!(invalid_input(action), "buckets value too large");
    assert!(plan_statement(&vec![], 0, 1, too_many, &vec![1]).is_err());
    assert!(plan_statement(&vec![], 0, 1, i64::MAX as u64, &vec![1]).is_ok());
}

#[test]
fn no_row_is_answered_with_an_empty_array() {
    match answer_row(None) {
        QueryAction::Answer(text) => assert_eq!(text, "[]"),
        _ => panic!("not answered"),
    }
    match answer_row(Some(json("{\"b\": \"x\"}"))) {
        QueryAction::Answer(text) => assert_eq!(text, "{\"b\":\"x\"}"),
        _ => panic!("not answered"),
    }
}

#[test]
fn placeholders_start_at_the_fourth() {
    assert_eq!(uuid_placeholders(0), "");
    assert_eq!(uuid_placeholders(1), "$4");
    assert_eq!(uuid_placeholders(3), "$4, $5, $6");
    assert!(uuid_placeholders(500).ends_with(", $502, $503"));
}

#[test]
fn the_statement_names_every_field_three_times() {
    let expected = r"
WITH buckets AS (
    SELECT generate_series(0, $3::bigint - 1) AS b
),
raw AS (
    SELECT
        GREATEST(0, LEAST($3::bigint - 1,
            FLOOR(
                (timestamp::float8 - $1::float8) * $3::float8
                / ($2::float8 - $1::float8)
            )::bigint
        )) AS b,
        COUNT(*) AS record_count,
        SUM(cpu_usage)::double precision / 10.0 AS cpu_usage,
        SUM(used_memory)::double precision AS used_memory
    FROM dynamic_monitoring_summary
    WHERE uuid_id IN ($4)
      AND timestamp >= $1
      AND timestamp <= $2
    GROUP BY 1
),
merged AS (
    SELECT
        bkt.b,
        ($1::float8 + (bkt.b::float8 + 0.5) * ($2::float8 - $1::float8) / $3::float8)::bigint AS t,
        COALESCE(raw.record_count, 0) AS count,
        raw.cpu_usage,
        raw.used_memory
    FROM buckets bkt
    LEFT JOIN raw ON bkt.b = raw.b
)
SELECT COALESCE(
    jsonb_agg(
        jsonb_build_object('t', t, 'count', count, 'cpu', cpu_usage, 'memory', used_memory)
        ORDER BY b
    ),
    '[]'::jsonb
) AS data
FROM merged
";
    assert_eq!(build_sql(&vec![cpu(), memory()], "$4"), expected);
}

#[test]
fn the_statement_works_without_fields() {
    let sql = build_sql(&vec![], "$4, $5");
    assert!(sql.contains("COUNT(*) AS record_count\n    FROM dynamic_monitoring_summary"));
    assert!(sql.contains("WHERE uuid_id IN ($4, $5)\n"));
    assert!(sql.contains("jsonb_build_object('t', t, 'count', count)\n"));
}

#[test]
fn no_fields_means_every_field() {
    let select = plan_select(&vec![], vec![1], 0, 1);
    assert_eq!(select.columns.len(), 25);
    assert_eq!(
        select.columns[24],
        SummarySelection::Field(DynamicSummaryQueryField::ReceiveSpeed)
    );
    let base = vec![SummarySelection::UuidId, SummarySelection::Timestamp];
    assert_eq!(select.columns, add_all_columns(base));
}

#[test]
fn the_rows_of_a_history_are_capped() {
    let limits: Vec<(usize, u64)> = vec![(1, 1_000), (49, 49_000), (50, 50_000), (51, 50_000), (500, 50_000)];
    for (agents, limit) in limits {
        assert_eq!(plan_select(&vec![], vec![1; agents], 0, 1).limit, limit);
    }
}

#[test]
fn wildcards_are_escaped() {
    assert_eq!(escape_like_pattern(""), "");
    assert_eq!(escape_like_pattern("ping"), "ping");
    assert_eq!(escape_like_pattern("tcp_ping%"), "tcp\\_ping\\%");
    assert_eq!(escape_like_pattern("a\\b"), "a\\b");
    for text in vec!["%%__", "é_%", "_", "no"] {
        assert_eq!(escape_like_pattern(text), text.replace('%', r"\%").replace('_', r"\_"));
    }
}

#[test]
fn the_type_is_looked_for_as_a_key() {
    match type_condition(DatabaseBackend::Postgres, "tcp_ping") {
        TypeCondition::HasKey(key) => assert_eq!(key, "tcp_ping"),
        _ => panic!("another condition"),
    }
    for backend in vec![DatabaseBackend::Sqlite, DatabaseBackend::MySql] {
        match type_condition(backend, "tcp_ping") {
            TypeCondition::IsLike { pattern, escape } => {
                assert_eq!(pattern, "%\"tcp\\_ping\":%");
                assert_eq!(escape, '\\');
            }
            _ => panic!("another condition"),
        }
    }
}

#[test]
fn rows_are_edited_before_they_are_answered() {
    let edits = row_edits();
    assert_eq!(edits.len(), 3);
    assert!(matches!(edits[0], RowEdit::Rename { from: "id", to: "task_id" }));
    assert!(matches!(edits[1], RowEdit::ParseJson { member: "task_event_type" }));
    assert!(matches!(edits[2], RowEdit::ParseJson { member: "task_event_result" }));
}

fn streaming() -> LatestQuery {
    let (query, action) = LatestQuery::begin("ping".to_string());
    assert!(matches!(action, QueryAction::ParseToken));
    let (query, action) = query.step(QueryEvent::TokenParsed);
    match action {
        QueryAction::CheckPermission { scopes, permission } => {
            assert_eq!(scopes, vec![Scope::Global]);
            match permission {
                Permission::TaskRead(task_type) => assert_eq!(task_type, "ping"),
                _ => panic!("another permission"),
            }
        }
        _ => panic!("no permission is asked for"),
    }
    let (query, action) = query.step(QueryEvent::PermissionChecked(true));
    assert!(matches!(action, QueryAction::OpenDatabase));
    let (query, action) = query.step(QueryEvent::DatabaseOpened(DatabaseBackend::Sqlite));
    match action {
        QueryAction::RunLatest(select) => {
            assert_eq!(select.group_by, vec![TaskColumn::Uuid, TaskColumn::CronSource]);
            assert_eq!(
                select.columns,
                vec![
                    TaskColumn::Id,
                    TaskColumn::Uuid,
                    TaskColumn::CronSource,
                    TaskColumn::Timestamp,
                    TaskColumn::Success,
                    TaskColumn::ErrorMessage,
                    TaskColumn::TaskEventType,
                    TaskColumn::TaskEventResult,
                ]
            );
            assert!(matches!(select.condition, TypeCondition::IsLike { .. }));
            assert_eq!(select.pick, RowPick::Greatest(TaskColumn::Id));
            assert_eq!(select.edits.len(), row_edits().len());
        }
        _ => panic!("not run"),
    }
    query
}

#[test]
fn rows_are_answered_in_order() {
    let (query, action) = streaming().step(QueryEvent::StreamOpened);
    assert!(matches!(action, QueryAction::NextRow));
    let (query, action) = query.step(QueryEvent::RowRead(Some(json("{ \"a\": 1 }"))));
    assert!(matches!(action, QueryAction::NextRow));
    let (query, _) = query.step(QueryEvent::RowRead(Some(json("\"é,\""))));
    let (query, _) = query.step(QueryEvent::RowRead(Some(json("null"))));
    let (query, action) = query.step(QueryEvent::RowRead(None));
    match action {
        QueryAction::Answer(text) => assert_eq!(text, "[{\"a\":1},\"é,\",null]"),
        _ => panic!("not answered"),
    }
    assert!(matches!(query.step(QueryEvent::RowRead(None)).1, QueryAction::Ignore));
}

#[test]
fn no_rows_are_an_empty_array() {
    let (query, _) = streaming().step(QueryEvent::StreamOpened);
    match query.step(QueryEvent::RowRead(None)).1 {
        QueryAction::Answer(text) => assert_eq!(text, "[]"),
        _ => panic!("not answered"),
    }
}

#[test]
fn tasks_that_the_database_fails_on_fail() {
    match failure(streaming().step(QueryEvent::DatabaseFailed("x".to_string())).1) {
        NodegetError::DatabaseError(message) => assert_eq!(message, "Database query error: x"),
        _ => panic!("another failure"),
    }
    let (query, _) = streaming().step(QueryEvent::StreamOpened);
    let (query, _) = query.step(QueryEvent::RowRead(Some(json("1"))));
    match failure(query.step(QueryEvent::DatabaseFailed("y".to_string())).1) {
        NodegetError::DatabaseError(message) => assert_eq!(message, "Stream read error: y"),
        _ => panic!("another failure"),
    }
}

#[test]
fn tasks_need_a_token_and_the_permission() {
    let (query, _) = LatestQuery::begin("ping".to_string());
    match failure(query.step(QueryEvent::TokenRefused("bad".to_string())).1) {
        NodegetError::ParseError(message) => assert_eq!(message, "Failed to parse token: bad"),
        _ => panic!("another failure"),
    }
    let (query, _) = LatestQuery::begin("ping".to_string());
    let (query, _) = query.step(QueryEvent::TokenParsed);
    match failure(query.step(QueryEvent::PermissionChecked(false)).1) {
        NodegetError::PermissionDenied(message) => assert_eq!(
            message,
            "Permission Denied: Insufficient permissions to read task data"
        ),
        _ => panic!("another failure"),
    }
    let (query, _) = LatestQuery::begin("ping".to_string());
    let (query, _) = query.step(QueryEvent::TokenParsed);
    assert!(matches!(query.step(QueryEvent::Unavailable).1, QueryAction::PassOn));
}

#[test]
fn a_document_is_answered_or_fails() {
    match answer_written(Ok("{\"a\": 1}".to_string())) {
        QueryAction::Answer(text) => assert_eq!(text, "{\"a\": 1}"),
        _ => panic!("not answered"),
    }
    match failure(answer_written(Ok("{".to_string()))) {
        NodegetError::SerializationError(message) => {
            assert!(message.starts_with("RawValue error: EOF"));
        }
        _ => panic!("another failure"),
    }
    match failure(answer_written(Err("no".to_string()))) {
        NodegetError::SerializationError(message) => {
            assert_eq!(message, "Serialization failed: no");
        }
        _ => panic!("another failure"),
    }
    match failure(answer_document(Err("no".to_string()))) {
        NodegetError::SerializationError(message) => assert_eq!(message, "RawValue error: no"),
        _ => panic!("another failure"),
    }
}

#[test]
fn a_failure_that_cannot_be_rendered_has_fixed_data() {
    assert_eq!(error_data(Some("{}".to_string())), "{}");
    let fixed = error_data(None);
    assert_eq!(fixed, "{\"error_id\":999,\"error_message\":\"Internal error\"}");
    assert_eq!(json(&fixed)["error_id"], Value::from(999));
}
