use nodeget_server::access::DatabaseBackend;
use nodeget_server::clock::{today_utc_start_ts, ts_to_date_str};
use nodeget_server::visitor_stats::aggregation::{
    aggregation_backend, group_sql, readable_days, Aggregation, AggregationAction,
    AggregationBackend, AggregationEvent, AggregationStep, GroupRow,
};
use nodeget_server::visitor_stats::handler::{
    count_or_zero, database_opened, inserted, CountOutcome, CountQuery, VisitAction, VisitEvent,
    VisitHandler, VisitorStatsResponse,
};
use nodeget_server::visitor_stats::{
    build_error, build_json, build_preflight, extract_ip, HttpResponse, VisitRequest,
};

const TODAY: i64 = 1_778_716_800;

fn request(real_ip: Option<&[u8]>, forwarded_for: Option<&[u8]>, peer: Option<&str>) -> VisitRequest {
    VisitRequest {
        method: "GET".to_string(),
        real_ip: real_ip.map(|b| b.to_vec()),
        forwarded_for: forwarded_for.map(|b| b.to_vec()),
        peer: peer.map(|p| p.to_string()),
    }
}

fn response(action: VisitAction) -> HttpResponse {
    match action {
        VisitAction::Respond(response) => response,
        _ => panic!("not answered"),
    }
}

fn question(action: VisitAction) -> String {
    match action {
        VisitAction::Count(query) => query.sql(),
        _ => panic!("nothing is asked"),
    }
}

fn counted(count: i64) -> VisitEvent {
    VisitEvent::Counted(CountOutcome::Row(Some(count)))
}

fn assert_failure(action: VisitAction, message: &str) {
    let response = response(action);
    assert_eq!(response.status, 500);
    assert_eq!(response.body, message);
    assert_eq!(
        response.headers,
        vec![
            ("content-type", "text/plain; charset=utf-8"),
            ("access-control-allow-origin", "*"),
        ]
    );
}

fn recorded() -> (VisitHandler, VisitAction) {
    let (handler, action) = VisitHandler::begin(&request(None, None, Some("1.2.3.4")));
    assert!(matches!(action, VisitAction::OpenDatabase));
    let (handler, action) = handler.step(VisitEvent::DatabaseOpened { now: TODAY + 5 });
    match action {
        VisitAction::Insert(visit) => {
            assert_eq!(visit.ip, "1.2.3.4");
            assert_eq!(visit.visited_at, TODAY + 5);
        }
        _ => panic!("not recorded"),
    }
    handler.step(VisitEvent::Inserted { today_start: TODAY })
}

#[test]
fn the_real_address_comes_first() {
    let all = request(Some(b" 9.9.9.9\t"), Some(b"8.8.8.8, 7.7.7.7"), Some("6.6.6.6"));
    assert_eq!(extract_ip(&all), "9.9.9.9");
}

#[test]
fn the_first_forwarded_address_comes_second() {
    let forwarded = request(None, Some(b" 8.8.8.8 , 7.7.7.7"), Some("6.6.6.6"));
    assert_eq!(extract_ip(&forwarded), "8.8.8.8");
    let blank = request(Some(b"  "), Some(b"8.8.8.8"), None);
    assert_eq!(extract_ip(&blank), "8.8.8.8");
}

#[test]
fn the_connection_comes_third() {
    let peer = request(None, None, Some("::1"));
    assert_eq!(extract_ip(&peer), "::1");
    let empty = request(Some(b""), Some(b" ,7.7.7.7"), Some("::1"));
    assert_eq!(extract_ip(&empty), "::1");
}

#[test]
fn without_any_address_it_is_this_machine() {
    assert_eq!(extract_ip(&request(None, None, None)), "127.0.0.1");
}

#[test]
fn headers_that_are_not_visible_do_not_count() {
    let bytes: Vec<&[u8]> = vec![b"\xc3\xa9", b"1\n2", b"\x7f", b"\0", b"1.1.1.1\xff"];
    for header in bytes {
        assert_eq!(extract_ip(&request(Some(header), None, None)), "127.0.0.1");
        assert_eq!(extract_ip(&request(None, Some(header), Some("p"))), "p");
    }
    assert_eq!(extract_ip(&request(Some(b"a\tb ~"), None, None)), "a\tb ~");
}

#[test]
fn every_visible_byte_counts() {
    for b in 0..=255u8 {
        let ip = extract_ip(&request(Some(&[b'x', b, b'y']), None, None));
        if (32..127).contains(&b) || b == 9 {
            assert_eq!(ip.as_bytes(), [b'x', b, b'y']);
        } else {
            assert_eq!(ip, "127.0.0.1");
        }
    }
}

#[test]
fn a_preflight_is_no_visit() {
    let mut options = request(None, None, None);
    options.method = "OPTIONS".to_string();
    let (handler, action) = VisitHandler::begin(&options);
    let response = response(action);
    assert_eq!(response.status, 204);
    assert_eq!(response.body, "");
    assert_eq!(
        response.headers,
        vec![
            ("access-control-allow-origin", "*"),
            ("access-control-allow-methods", "GET, OPTIONS"),
            ("access-control-allow-headers", "*"),
        ]
    );
    let (_, action) = handler.step(VisitEvent::DatabaseOpened { now: 0 });
    assert!(matches!(action, VisitAction::Ignore));
}

#[test]
fn a_visit_without_a_database_fails() {
    let (handler, _) = VisitHandler::begin(&request(None, None, None));
    assert_failure(handler.step(VisitEvent::DatabaseMissing).1, "数据库未初始化");
}

#[test]
fn a_visit_that_cannot_be_recorded_fails() {
    let (handler, _) = VisitHandler::begin(&request(None, None, None));
    let (handler, _) = handler.step(VisitEvent::DatabaseOpened { now: 0 });
    let (handler, action) = handler.step(VisitEvent::InsertFailed);
    assert_failure(action, "记录访问失败");
    assert!(matches!(handler.step(counted(1)).1, VisitAction::Ignore));
}

#[test]
fn a_visitor_is_told_the_statistics() {
    let (handler, action) = recorded();
    assert_eq!(
        question(action),
        "SELECT COUNT(*) FROM visit_log WHERE visited_at >= 1778716800"
    );
    let (handler, action) = handler.step(counted(4));
    assert_eq!(question(action), "SELECT CAST(COALESCE(SUM(total_count), 0) AS BIGINT) FROM visit_daily_stats");
    let (handler, action) = handler.step(counted(100));
    assert_eq!(question(action), "SELECT COUNT(*) FROM visit_log");
    let (handler, action) = handler.step(counted(20));
    assert_eq!(
        question(action),
        "SELECT CAST(COALESCE(SUM(total_count), 0) AS BIGINT) FROM visit_daily_stats WHERE date = '2026-05-13'"
    );
    let (handler, action) = handler.step(counted(7));
    match action {
        VisitAction::WriteStats(stats) => assert_eq!(
            stats,
            VisitorStatsResponse {
                today_rank: 4,
                today_total: 4,
                all_time_total: 120,
                yesterday_total: 7,
            }
        ),
        _ => panic!("nothing is told"),
    }
    let (handler, action) = handler.step(VisitEvent::Written("{}".to_string()));
    let response = response(action);
    assert_eq!(response.status, 200);
    assert_eq!(response.body, "{}");
    assert_eq!(
        response.headers,
        vec![
            ("content-type", "application/json; charset=utf-8"),
            ("access-control-allow-origin", "*"),
        ]
    );
    assert!(matches!(handler.step(VisitEvent::NotWritten).1, VisitAction::Ignore));
}

#[test]
fn yesterday_is_counted_in_the_log_without_a_daily_total() {
    for nothing in vec![counted(0), counted(-3), VisitEvent::Counted(CountOutcome::NoRow)] {
        let (handler, _) = recorded();
        let (handler, _) = handler.step(counted(4));
        let (handler, _) = handler.step(counted(0));
        let (handler, _) = handler.step(counted(20));
        let (handler, action) = handler.step(nothing);
        assert_eq!(
            question(action),
            "SELECT COUNT(*) FROM visit_log WHERE visited_at >= 1778630400 AND visited_at < 1778716800"
        );
        let (_, action) = handler.step(counted(16));
        match action {
            VisitAction::WriteStats(stats) => {
                assert_eq!(stats.yesterday_total, 16);
                assert_eq!(stats.all_time_total, 20);
            }
            _ => panic!("nothing is told"),
        }
    }
}

#[test]
fn statistics_that_cannot_be_written_fail() {
    let (handler, _) = recorded();
    let (handler, _) = handler.step(counted(1));
    let (handler, _) = handler.step(counted(1));
    let (handler, _) = handler.step(counted(1));
    let (handler, _) = handler.step(counted(1));
    assert_failure(handler.step(VisitEvent::NotWritten).1, "序列化失败");
}

#[test]
fn a_count_that_did_not_come_is_zero() {
    assert_eq!(count_or_zero(CountOutcome::Row(Some(-5))), -5);
    assert_eq!(count_or_zero(CountOutcome::Row(None)), 0);
    assert_eq!(count_or_zero(CountOutcome::NoRow), 0);
    assert_eq!(count_or_zero(CountOutcome::Failed), 0);
}

#[test]
fn numbers_out_of_range_are_told_beforehand() {
    let (handler, _) = recorded();
    let (handler, _) = handler.step(counted(0));
    let (handler, _) = handler.step(counted(i64::MAX));
    assert!(handler.takes(&counted(0)));
    assert!(!handler.takes(&counted(1)));
    let (waiting, _) = VisitHandler::begin(&request(None, None, None));
    let (waiting, _) = waiting.step(VisitEvent::DatabaseOpened { now: 0 });
    assert!(!waiting.takes(&VisitEvent::Inserted { today_start: i64::MIN }));
    assert!(waiting.takes(&VisitEvent::Inserted { today_start: i64::MIN + 86_400 }));
}

#[test]
fn events_carry_the_present_moment() {
    let seconds = std::time::SystemTime::now()
        .duration_since(std::time::UNIX_EPOCH)
        .unwrap()
        .as_secs() as i64;
    match database_opened() {
        VisitEvent::DatabaseOpened { now } => assert!(seconds <= now && now <= seconds + 60),
        _ => panic!("another event"),
    }
    match inserted() {
        VisitEvent::Inserted { today_start } => {
            assert_eq!(today_start % 86_400, 0);
            assert!(today_start <= seconds + 60 && seconds < today_start + 86_400);
        }
        _ => panic!("another event"),
    }
}

#[test]
fn questions_are_written_in_sql() {
    assert_eq!(
        CountQuery::VisitsBetween { from: -5, to: 0 }.sql(),
        "SELECT COUNT(*) FROM visit_log WHERE visited_at >= -5 AND visited_at < 0"
    );
    assert_eq!(
        CountQuery::VisitsSince(i64::MIN).sql(),
        "SELECT COUNT(*) FROM visit_log WHERE visited_at >= -9223372036854775808"
    );
}

#[test]
fn answers_have_their_headers() {
    assert_eq!(build_preflight().status, 204);
    assert_eq!(build_error(404, "none").status, 404);
    assert_eq!(build_error(404, "none").body, "none");
    assert_eq!(build_json("[]".to_string()).body, "[]");
}

#[test]
fn past_days_are_grouped_in_the_words_of_the_database() {
    assert_eq!(aggregation_backend(DatabaseBackend::MySql), None);
    assert_eq!(
        aggregation_backend(DatabaseBackend::Sqlite),
        Some(AggregationBackend::Sqlite)
    );
    assert_eq!(
        aggregation_backend(DatabaseBackend::Postgres),
        Some(AggregationBackend::Postgres)
    );
    assert_eq!(
        group_sql(AggregationBackend::Sqlite, TODAY),
        "SELECT strftime('%Y-%m-%d', datetime(visited_at, 'unixepoch')) as date, COUNT(*) as cnt \
         FROM visit_log WHERE visited_at < 1778716800 GROUP BY date"
    );
    assert_eq!(
        group_sql(AggregationBackend::Postgres, TODAY),
        "SELECT TO_CHAR(TO_TIMESTAMP(visited_at) AT TIME ZONE 'UTC', 'YYYY-MM-DD') as date, COUNT(*) as cnt \
         FROM visit_log WHERE visited_at < 1778716800 GROUP BY date"
    );
}

fn row(date: &str, count: i64) -> GroupRow {
    GroupRow { date: Some(date.to_string()), count: Some(count) }
}

/// Runs the work on the rows; the outcomes are those of the statements, and the rest succeed.
fn statements(rows: Vec<GroupRow>, outcomes: &[bool]) -> Vec<String> {
    let (work, action) = Aggregation::begin(DatabaseBackend::Sqlite, TODAY);
    match action {
        AggregationAction::QueryGroups(sql) => {
            assert_eq!(sql, group_sql(AggregationBackend::Sqlite, TODAY));
        }
        _ => panic!("nothing is asked"),
    }
    let mut statements: Vec<String> = Vec::new();
    let (mut work, mut action) = work.step(AggregationEvent::Groups(rows));
    while let AggregationAction::Execute { step, sql } = action {
        assert_eq!(sql, step.sql(AggregationBackend::Sqlite));
        let succeeded = outcomes.get(statements.len()).copied().unwrap_or(true);
        statements.push(sql);
        (work, action) = work.step(AggregationEvent::Executed { succeeded });
    }
    assert!(matches!(action, AggregationAction::Finish));
    let (_, action) = work.step(AggregationEvent::Executed { succeeded: true });
    assert!(matches!(action, AggregationAction::Ignore));
    statements
}

fn added(date: &str, count: i64) -> String {
    AggregationStep::AddToDay { date: date.to_string(), count }.sql(AggregationBackend::Sqlite)
}

fn deleted(date: &str) -> String {
    let step = AggregationStep::DeleteDay { date: date.to_string(), before: TODAY };
    step.sql(AggregationBackend::Sqlite)
}

#[test]
fn changes_are_written_in_the_words_of_the_database() {
    let add = AggregationStep::AddToDay { date: "2026-05-12".to_string(), count: 3 };
    let delete = AggregationStep::DeleteDay { date: "2026-05-12".to_string(), before: TODAY };
    assert_eq!(
        add.sql(AggregationBackend::Sqlite),
        "INSERT INTO visit_daily_stats (date, total_count) VALUES ('2026-05-12', 3) \
         ON CONFLICT(date) DO UPDATE SET total_count = total_count + excluded.total_count"
    );
    assert_eq!(
        add.sql(AggregationBackend::Postgres),
        "INSERT INTO visit_daily_stats (date, total_count) VALUES ('2026-05-12', 3) \
         ON CONFLICT (date) DO UPDATE SET total_count = visit_daily_stats.total_count + EXCLUDED.total_count"
    );
    assert_eq!(
        delete.sql(AggregationBackend::Sqlite),
        "DELETE FROM visit_log WHERE visited_at < 1778716800 \
         AND strftime('%Y-%m-%d', datetime(visited_at, 'unixepoch')) = '2026-05-12'"
    );
    assert_eq!(
        delete.sql(AggregationBackend::Postgres),
        "DELETE FROM visit_log WHERE visited_at < 1778716800 \
         AND TO_CHAR(TO_TIMESTAMP(visited_at) AT TIME ZONE 'UTC', 'YYYY-MM-DD') = '2026-05-12'"
    );
}

#[test]
fn past_days_become_daily_totals() {
    let rows = vec![row("2026-05-12", 3), row("2026-05-13", 5)];
    assert_eq!(
        statements(rows, &[]),
        vec![
            added("2026-05-12", 3),
            deleted("2026-05-12"),
            added("2026-05-13", 5),
            deleted("2026-05-13"),
        ]
    );
}

#[test]
fn a_day_that_was_not_added_is_not_deleted() {
    let rows = vec![row("2026-05-12", 3), row("2026-05-13", 5)];
    assert_eq!(
        statements(rows, &[false]),
        vec![added("2026-05-12", 3), added("2026-05-13", 5), deleted("2026-05-13")]
    );
    let rows = vec![row("2026-05-12", 3), row("2026-05-13", 5)];
    assert_eq!(
        statements(rows, &[true, true, false]),
        vec![added("2026-05-12", 3), deleted("2026-05-12"), added("2026-05-13", 5)]
    );
}

#[test]
fn a_deletion_that_failed_does_not_stop_the_next_day() {
    let rows = vec![row("2026-05-12", 3), row("2026-05-13", 5)];
    assert_eq!(
        statements(rows, &[true, false]),
        vec![
            added("2026-05-12", 3),
            deleted("2026-05-12"),
            added("2026-05-13", 5),
            deleted("2026-05-13"),
        ]
    );
}

#[test]
fn a_day_that_cannot_be_read_stays_in_the_log() {
    let rows = vec![
        GroupRow { date: None, count: Some(4) },
        GroupRow { date: Some("2026-05-11".to_string()), count: None },
        GroupRow { date: None, count: None },
    ];
    assert!(statements(rows, &[]).is_empty());
    let rows = vec![GroupRow { date: None, count: Some(4) }, row("2026-05-13", 5)];
    let days = readable_days(rows);
    assert_eq!(days.len(), 1);
    assert_eq!(days[0].date, "2026-05-13");
    assert_eq!(days[0].count, 5);
}

#[test]
fn without_an_answer_nothing_is_changed() {
    assert!(statements(vec![], &[]).is_empty());
    let (work, _) = Aggregation::begin(DatabaseBackend::Sqlite, TODAY);
    let (_, action) = work.step(AggregationEvent::GroupsFailed);
    assert!(matches!(action, AggregationAction::Finish));
}

#[test]
fn another_database_keeps_its_log() {
    let (work, action) = Aggregation::begin(DatabaseBackend::MySql, TODAY);
    assert!(matches!(action, AggregationAction::Finish));
    let (_, action) = work.step(AggregationEvent::Groups(vec![row("2026-05-12", 3)]));
    assert!(matches!(action, AggregationAction::Ignore));
}

#[test]
fn the_work_of_today_leaves_today_alone() {
    let start = today_utc_start_ts();
    let (_, action) = Aggregation::begin_today(DatabaseBackend::Postgres);
    match action {
        AggregationAction::QueryGroups(sql) => {
            let day_later = group_sql(AggregationBackend::Postgres, start + 86_400);
            assert!(sql == group_sql(AggregationBackend::Postgres, start) || sql == day_later);
        }
        _ => panic!("nothing is asked"),
    }
}

/// What is left of a log and of daily totals after the work, where the statements have these
/// outcomes.
fn worked(log: &[i64], daily: &[(&str, i64)], outcomes: &[bool]) -> (Vec<i64>, Vec<(String, i64)>) {
    let mut log = log.to_vec();
    let mut daily: Vec<(String, i64)> = daily.iter().map(|d| (d.0.to_string(), d.1)).collect();
    let mut groups: Vec<(String, i64)> = Vec::new();
    for at in log.iter().filter(|at| **at < TODAY) {
        let date = ts_to_date_str(*at);
        match groups.iter_mut().find(|g| g.0 == date) {
            Some(group) => group.1 += 1,
            None => groups.push((date, 1)),
        }
    }
    let rows = groups.iter().map(|g| row(&g.0, g.1)).collect();
    let (work, _) = Aggregation::begin(DatabaseBackend::Sqlite, TODAY);
    let (mut work, mut action) = work.step(AggregationEvent::Groups(rows));
    let mut n = 0;
    while let AggregationAction::Execute { step, sql: _ } = action {
        let succeeded = outcomes.get(n).copied().unwrap_or(true);
        n += 1;
        if succeeded {
            match step {
                AggregationStep::AddToDay { date, count } => {
                    match daily.iter_mut().find(|d| d.0 == date) {
                        Some(day) => day.1 += count,
                        None => daily.push((date, count)),
                    }
                }
                AggregationStep::DeleteDay { date, before } => {
                    log.retain(|at| *at >= before || ts_to_date_str(*at) != date)
                }
            }
        }
        (work, action) = work.step(AggregationEvent::Executed { succeeded });
    }
    (log, daily)
}

fn all_visits(log: &[i64], daily: &[(String, i64)]) -> i64 {
    log.len() as i64 + daily.iter().map(|d| d.1).sum::<i64>()
}

#[test]
fn becoming_totals_keeps_every_visit() {
    let log: Vec<i64> = vec![TODAY - 200_000, TODAY - 86_400, TODAY - 1, TODAY, TODAY + 5];
    let (kept, daily) = worked(&log, &[("2026-05-12", 10)], &[]);
    assert_eq!(kept, vec![TODAY, TODAY + 5]);
    assert_eq!(all_visits(&kept, &daily), 15);
    assert_eq!(daily.iter().find(|d| d.0 == "2026-05-13").map(|d| d.1), Some(2));
}

#[test]
fn a_failed_addition_loses_no_visit() {
    let log: Vec<i64> = vec![TODAY - 200_000, TODAY - 86_400, TODAY - 1, TODAY];
    let (kept, daily) = worked(&log, &[("2026-05-12", 10)], &[false]);
    assert_eq!(kept, vec![TODAY - 200_000, TODAY]);
    assert_eq!(all_visits(&kept, &daily), 14);
    let (kept, daily) = worked(&log, &[("2026-05-12", 10)], &[true, true, false]);
    assert_eq!(kept, vec![TODAY - 86_400, TODAY - 1, TODAY]);
    assert_eq!(all_visits(&kept, &daily), 14);
    let (again, daily_again) = worked(&kept, &[], &[]);
    assert_eq!(again, vec![TODAY]);
    assert_eq!(daily_again, vec![("2026-05-13".to_string(), 2)]);
}

#[test]
fn where_all_succeeds_only_today_stays_in_the_log() {
    let log: Vec<i64> = vec![TODAY + 1, TODAY - 1, TODAY - 90_000, TODAY, TODAY - 2];
    let (kept, daily) = worked(&log, &[("2026-05-13", 10)], &[]);
    assert_eq!(kept, vec![TODAY + 1, TODAY]);
    assert_eq!(
        daily,
        vec![("2026-05-13".to_string(), 12), ("2026-05-12".to_string(), 1)]
    );
    let before: Vec<(&str, i64)> = daily.iter().map(|d| (d.0.as_str(), d.1)).collect();
    assert_eq!(worked(&kept, &before, &[]), (kept.clone(), daily.clone()));
}
