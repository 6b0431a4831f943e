//! One request for the visitor statistics: it is recorded, counted and answered.
//!
//! The request is driven from outside: every action names what is to be done next, and what came of
//! it is handed back as an event.
use crate::clock::{
    date_string, in_calendar, now_seconds, today_utc_start_ts, ts_to_date_str, DAY_SECONDS,
};
use crate::error::labelled;
use crate::text::{i64_text, int_text};
use crate::visitor_stats::{
    build_error, build_json, build_preflight, error_response, extract_ip, json_response,
    preflight_response, visitor_address, HttpResponse, HttpResponseView, VisitRequest,
    VisitRequestView,
};
use vstd::prelude::*;
use vstd::string::*;

verus! {

/// A question to the database that has a number for an answer.
pub enum CountQuery {
    /// How many visits of the log are not older than the moment.
    VisitsSince(i64),
    /// How many visits the daily totals add up to.
    DailySum,
    /// How many visits the log holds.
    LogTotal,
    /// What the daily totals say of a date.
    DailyOn(String),
    /// How many visits of the log are not older than one moment and older than the other.
    VisitsBetween { from: i64, to: i64 },
}

pub enum CountQueryView {
    VisitsSince(i64),
    DailySum,
    LogTotal,
    DailyOn(Seq<char>),
    VisitsBetween { from: i64, to: i64 },
}

impl View for CountQuery {
    type V = CountQueryView;

    open spec fn view(&self) -> CountQueryView {
        match self {
            CountQuery::VisitsSince(from) => CountQueryView::VisitsSince(*from),
            CountQuery::DailySum => CountQueryView::DailySum,
            CountQuery::LogTotal => CountQueryView::LogTotal,
            CountQuery::DailyOn(date) => CountQueryView::DailyOn(date@),
            CountQuery::VisitsBetween { from, to } => CountQueryView::VisitsBetween {
                from: *from,
                to: *to,
            },
        }
    }
}

impl CountQueryView {
    /// The question in SQL.
    pub open spec fn sql_text(self) -> Seq<char> {
        match self {
            CountQueryView::VisitsSince(from) =>
                "SELECT COUNT(*) FROM visit_log WHERE visited_at >= "@ + int_text(from as int),
            CountQueryView::DailySum =>
                "SELECT CAST(COALESCE(SUM(total_count), 0) AS BIGINT) FROM visit_daily_stats"@,
            CountQueryView::LogTotal => "SELECT COUNT(*) FROM visit_log"@,
            CountQueryView::DailyOn(date) =>
                "SELECT CAST(COALESCE(SUM(total_count), 0) AS BIGINT) FROM visit_daily_stats WHERE date = '"@ + date
                    + "'"@,
            CountQueryView::VisitsBetween { from, to } =>
                "SELECT COUNT(*) FROM visit_log WHERE visited_at >= "@ + int_text(from as int)
                    + " AND visited_at < "@ + int_text(to as int),
        }
    }
}

impl CountQuery {
    /// The question in SQL.
    pub fn sql(&self) -> (text: String)
        ensures
            text@ == self@.sql_text(),
    {
        match self {
            CountQuery::VisitsSince(from) => labelled(
                "SELECT COUNT(*) FROM visit_log WHERE visited_at >= ",
                i64_text(*from).as_str(),
            ),
            CountQuery::DailySum => "SELECT CAST(COALESCE(SUM(total_count), 0) AS BIGINT) FROM visit_daily_stats".to_owned(),
            CountQuery::LogTotal => "SELECT COUNT(*) FROM visit_log".to_owned(),
            CountQuery::DailyOn(date) => labelled(
                "SELECT CAST(COALESCE(SUM(total_count), 0) AS BIGINT) FROM visit_daily_stats WHERE date = '",
                date.as_str(),
            ).concat("'"),
            CountQuery::VisitsBetween { from, to } => labelled(
                "SELECT COUNT(*) FROM visit_log WHERE visited_at >= ",
                i64_text(*from).as_str(),
            ).concat(" AND visited_at < ").concat(i64_text(*to).as_str()),
        }
    }
}

/// What came of a question to the database.
#[derive(Clone, Copy, Debug, PartialEq, Eq, Structural)]
pub enum CountOutcome {
    /// A row came, with its number if it could be read.
    Row(Option<i64>),
    NoRow,
    Failed,
}

/// The number that came, or zero.
pub open spec fn count_of(outcome: CountOutcome) -> i64 {
    match outcome {
        CountOutcome::Row(Some(count)) => count,
        _ => 0,
    }
}

/// The number that came, or zero.
pub fn count_or_zero(outcome: CountOutcome) -> (count: i64)
    ensures
        count == count_of(outcome),
{
    match outcome {
        CountOutcome::Row(Some(count)) => count,
        _ => 0,
    }
}

/// What a visitor is told.
#[derive(Clone, Copy, Debug, PartialEq, Eq, Structural)]
pub struct VisitorStatsResponse {
    /// Which visit of today this is: the last one.
    pub today_rank: i64,
    pub today_total: i64,
    pub all_time_total: i64,
    pub yesterday_total: i64,
}

/// A visit as it is recorded.
pub struct NewVisit {
    pub ip: String,
    /// The moment in seconds.
    pub visited_at: i64,
}

/// What is to be done next.
pub enum VisitAction {
    /// Get hold of the database.
    OpenDatabase,
    /// Record a visit.
    Insert(NewVisit),
    /// Ask the database.
    Count(CountQuery),
    /// Write the statistics as JSON.
    WriteStats(VisitorStatsResponse),
    /// Answer; the request is over.
    Respond(HttpResponse),
    /// The event does not belong here; nothing is to be done.
    Ignore,
}

/// What came of an action.
pub enum VisitEvent {
    /// The database is there, at this moment in seconds.
    DatabaseOpened { now: i64 },
    DatabaseMissing,
    /// The visit was recorded, on the day with this first second.
    Inserted { today_start: i64 },
    InsertFailed,
    Counted(CountOutcome),
    Written(String),
    NotWritten,
}

/// What a request waits for.
pub enum VisitHandler {
    Database { ip: String },
    Insert,
    TodayTotal { today_start: i64 },
    DailySum { today_start: i64, today_total: i64 },
    LogTotal { today_start: i64, today_total: i64, daily_sum: i64 },
    YesterdayDaily { today_start: i64, today_total: i64, all_time_total: i64 },
    YesterdayLog { today_total: i64, all_time_total: i64 },
    Write,
    Closed,
}

pub enum VisitActionView {
    OpenDatabase,
    Insert { ip: Seq<char>, visited_at: i64 },
    Count(CountQueryView),
    WriteStats(VisitorStatsResponse),
    Respond(HttpResponseView),
    Ignore,
}

pub enum VisitEventView {
    DatabaseOpened { now: i64 },
    DatabaseMissing,
    Inserted { today_start: i64 },
    InsertFailed,
    Counted(CountOutcome),
    Written(Seq<char>),
    NotWritten,
}

pub enum VisitHandlerView {
    Database { ip: Seq<char> },
    Insert,
    TodayTotal { today_start: i64 },
    DailySum { today_start: i64, today_total: i64 },
    LogTotal { today_start: i64, today_total: i64, daily_sum: i64 },
    YesterdayDaily { today_start: i64, today_total: i64, all_time_total: i64 },
    YesterdayLog { today_total: i64, all_time_total: i64 },
    Write,
    Closed,
}

impl View for VisitAction {
    type V = VisitActionView;

    open spec fn view(&self) -> VisitActionView {
        match self {
            VisitAction::OpenDatabase => VisitActionView::OpenDatabase,
            VisitAction::Insert(visit) => VisitActionView::Insert {
                ip: visit.ip@,
                visited_at: visit.visited_at,
            },
            VisitAction::Count(query) => VisitActionView::Count(query@),
            VisitAction::WriteStats(stats) => VisitActionView::WriteStats(*stats),
            VisitAction::Respond(response) => VisitActionView::Respond(response@),
            VisitAction::Ignore => VisitActionView::Ignore,
        }
    }
}

impl View for VisitEvent {
    type V = VisitEventView;

    open spec fn view(&self) -> VisitEventView {
        match self {
            VisitEvent::DatabaseOpened { now } => VisitEventView::DatabaseOpened { now: *now },
            VisitEvent::DatabaseMissing => VisitEventView::DatabaseMissing,
            VisitEvent::Inserted { today_start } => VisitEventView::Inserted {
                today_start: *today_start,
            },
            VisitEvent::InsertFailed => VisitEventView::InsertFailed,
            VisitEvent::Counted(outcome) => VisitEventView::Counted(*outcome),
            VisitEvent::Written(text) => VisitEventView::Written(text@),
            VisitEvent::NotWritten => VisitEventView::NotWritten,
        }
    }
}

impl View for VisitHandler {
    type V = VisitHandlerView;

    open spec fn view(&self) -> VisitHandlerView {
        match self {
            VisitHandler::Database { ip } => VisitHandlerView::Database { ip: ip@ },
            VisitHandler::Insert => VisitHandlerView::Insert,
            VisitHandler::TodayTotal { today_start } => VisitHandlerView::TodayTotal {
                today_start: *today_start,
            },
            VisitHandler::DailySum { today_start, today_total } => VisitHandlerView::DailySum {
                today_start: *today_start,
                today_total: *today_total,
            },
            VisitHandler::LogTotal { today_start, today_total, daily_sum } => VisitHandlerView::LogTotal {
                today_start: *today_start,
                today_total: *today_total,
                daily_sum: *daily_sum,
            },
            VisitHandler::YesterdayDaily { today_start, today_total, all_time_total } => VisitHandlerView::YesterdayDaily {
                today_start: *today_start,
                today_total: *today_total,
                all_time_total: *all_time_total,
            },
            VisitHandler::YesterdayLog { today_total, all_time_total } => VisitHandlerView::YesterdayLog {
                today_total: *today_total,
                all_time_total: *all_time_total,
            },
            VisitHandler::Write => VisitHandlerView::Write,
            VisitHandler::Closed => VisitHandlerView::Closed,
        }
    }
}

/// The statistics of the three numbers.
pub open spec fn stats_of(
    today_total: i64,
    all_time_total: i64,
    yesterday_total: i64,
) -> VisitorStatsResponse {
    VisitorStatsResponse { today_rank: today_total, today_total, all_time_total, yesterday_total }
}

impl VisitHandlerView {
    /// The request closed with a failure of the server.
    pub open spec fn failed(message: Seq<char>) -> (VisitHandlerView, VisitActionView) {
        (VisitHandlerView::Closed, VisitActionView::Respond(error_response(500, message)))
    }

    /// The request at its start, and its first action.
    pub open spec fn begun(request: VisitRequestView) -> (VisitHandlerView, VisitActionView) {
        if request.method == "OPTIONS"@ {
            (VisitHandlerView::Closed, VisitActionView::Respond(preflight_response()))
        } else {
            (
                VisitHandlerView::Database { ip: visitor_address(request) },
                VisitActionView::OpenDatabase,
            )
        }
    }

    /// The request after an event, and the action that follows. An event that it does not wait for
    /// changes nothing.
    pub open spec fn after(self, event: VisitEventView) -> (VisitHandlerView, VisitActionView) {
        match (self, event) {
            (VisitHandlerView::Database { ip }, VisitEventView::DatabaseMissing) =>
                VisitHandlerView::failed("数据库未初始化"@),
            (VisitHandlerView::Database { ip }, VisitEventView::DatabaseOpened { now }) => (
                VisitHandlerView::Insert,
                VisitActionView::Insert { ip, visited_at: now },
            ),
            (VisitHandlerView::Insert, VisitEventView::InsertFailed) => VisitHandlerView::failed(
                "记录访问失败"@,
            ),
            (VisitHandlerView::Insert, VisitEventView::Inserted { today_start }) => (
                VisitHandlerView::TodayTotal { today_start },
                VisitActionView::Count(CountQueryView::VisitsSince(today_start)),
            ),
            (VisitHandlerView::TodayTotal { today_start }, VisitEventView::Counted(outcome)) => (
                VisitHandlerView::DailySum { today_start, today_total: count_of(outcome) },
                VisitActionView::Count(CountQueryView::DailySum),
            ),
            (
                VisitHandlerView::DailySum { today_start, today_total },
                VisitEventView::Counted(outcome),
            ) => (
                VisitHandlerView::LogTotal {
                    today_start,
                    today_total,
                    daily_sum: count_of(outcome),
                },
                VisitActionView::Count(CountQueryView::LogTotal),
            ),
            (
                VisitHandlerView::LogTotal { today_start, today_total, daily_sum },
                VisitEventView::Counted(outcome),
            ) => (
                VisitHandlerView::YesterdayDaily {
                    today_start,
                    today_total,
                    all_time_total: (daily_sum + count_of(outcome)) as i64,
                },
                VisitActionView::Count(
                    CountQueryView::DailyOn(date_string(today_start - DAY_SECONDS)),
                ),
            ),
            (
                VisitHandlerView::YesterdayDaily { today_start, today_total, all_time_total },
                VisitEventView::Counted(outcome),
            ) => if count_of(outcome) > 0 {
                (
                    VisitHandlerView::Write,
                    VisitActionView::WriteStats(
                        stats_of(today_total, all_time_total, count_of(outcome)),
                    ),
                )
            } else {
                (
                    VisitHandlerView::YesterdayLog { today_total, all_time_total },
                    VisitActionView::Count(
                        CountQueryView::VisitsBetween {
                            from: (today_start - DAY_SECONDS) as i64,
                            to: today_start,
                        },
                    ),
                )
            },
            (
                VisitHandlerView::YesterdayLog { today_total, all_time_total },
                VisitEventView::Counted(outcome),
            ) => (
                VisitHandlerView::Write,
                VisitActionView::WriteStats(
                    stats_of(today_total, all_time_total, count_of(outcome)),
                ),
            ),
            (VisitHandlerView::Write, VisitEventView::Written(text)) => (
                VisitHandlerView::Closed,
                VisitActionView::Respond(json_response(text)),
            ),
            (VisitHandlerView::Write, VisitEventView::NotWritten) => VisitHandlerView::failed(
                "序列化失败"@,
            ),
            _ => (self, VisitActionView::Ignore),
        }
    }

    /// Whether an event keeps the numbers in their range: the day before today can be named, and the
    /// daily totals and the log add up to a number that there is.
    pub open spec fn can_take(self, event: VisitEventView) -> bool {
        match (self, event) {
            (VisitHandlerView::Insert, VisitEventView::Inserted { today_start }) => i64::MIN
                <= today_start - DAY_SECONDS,
            (
                VisitHandlerView::LogTotal { daily_sum, .. },
                VisitEventView::Counted(outcome),
            ) => i64::MIN <= daily_sum + count_of(outcome) <= i64::MAX,
            _ => true,
        }
    }

    /// While today matters, the day before it can be named.
    pub open spec fn wf(self) -> bool {
        match self {
            VisitHandlerView::TodayTotal { today_start }
            | VisitHandlerView::DailySum { today_start, .. }
            | VisitHandlerView::LogTotal { today_start, .. }
            | VisitHandlerView::YesterdayDaily { today_start, .. } => i64::MIN <= today_start
                - DAY_SECONDS,
            _ => true,
        }
    }
}

/// Answers with a failure of the server.
fn fail(message: &str) -> (r: (VisitHandler, VisitAction))
    ensures
        (r.0@, r.1@) == VisitHandlerView::failed(message@),
{
    (VisitHandler::Closed, VisitAction::Respond(build_error(500, message)))
}

impl VisitHandler {
    /// Takes a request.
    pub fn begin(request: &VisitRequest) -> (r: (VisitHandler, VisitAction))
        ensures
            r.0@.wf(),
            (r.0@, r.1@) == VisitHandlerView::begun(request@),
    {
        let options: String = "OPTIONS".to_owned();
        if request.method == options {
            (VisitHandler::Closed, VisitAction::Respond(build_preflight()))
        } else {
            (VisitHandler::Database { ip: extract_ip(request) }, VisitAction::OpenDatabase)
        }
    }

    /// Whether an event keeps the numbers in their range.
    pub fn takes(&self, event: &VisitEvent) -> (r: bool)
        ensures
            r == self@.can_take(event@),
    {
        match (self, event) {
            (VisitHandler::Insert, VisitEvent::Inserted { today_start }) => *today_start >= i64::MIN
                + DAY_SECONDS,
            (
                VisitHandler::LogTotal { today_start: _, today_total: _, daily_sum },
                VisitEvent::Counted(outcome),
            ) => daily_sum.checked_add(count_or_zero(*outcome)).is_some(),
            _ => true,
        }
    }

    /// Takes an event and says what is to be done next.
    pub fn step(self, event: VisitEvent) -> (r: (VisitHandler, VisitAction))
        requires
            self@.wf(),
            self@.can_take(event@),
        ensures
            r.0@.wf(),
            (r.0@, r.1@) == self@.after(event@),
    {
        match (self, event) {
            (VisitHandler::Database { ip: _ }, VisitEvent::DatabaseMissing) => fail(
                "数据库未初始化",
            ),
            (VisitHandler::Database { ip }, VisitEvent::DatabaseOpened { now }) => (
                VisitHandler::Insert,
                VisitAction::Insert(NewVisit { ip, visited_at: now }),
            ),
            (VisitHandler::Insert, VisitEvent::InsertFailed) => fail("记录访问失败"),
            (VisitHandler::Insert, VisitEvent::Inserted { today_start }) => (
                VisitHandler::TodayTotal { today_start },
                VisitAction::Count(CountQuery::VisitsSince(today_start)),
            ),
            (VisitHandler::TodayTotal { today_start }, VisitEvent::Counted(outcome)) => (
                VisitHandler::DailySum { today_start, today_total: count_or_zero(outcome) },
                VisitAction::Count(CountQuery::DailySum),
            ),
            (
                VisitHandler::DailySum { today_start, today_total },
                VisitEvent::Counted(outcome),
            ) => (
                VisitHandler::LogTotal {
                    today_start,
                    today_total,
                    daily_sum: count_or_zero(outcome),
                },
                VisitAction::Count(CountQuery::LogTotal),
            ),
            (
                VisitHandler::LogTotal { today_start, today_total, daily_sum },
                VisitEvent::Counted(outcome),
            ) => {
                let all_time_total: i64 = daily_sum + count_or_zero(outcome);
                let yesterday = ts_to_date_str(today_start - DAY_SECONDS);
                (
                    VisitHandler::YesterdayDaily { today_start, today_total, all_time_total },
                    VisitAction::Count(CountQuery::DailyOn(yesterday)),
                )
            },
            (
                VisitHandler::YesterdayDaily { today_start, today_total, all_time_total },
                VisitEvent::Counted(outcome),
            ) => {
                let yesterday_total: i64 = count_or_zero(outcome);
                if yesterday_total > 0 {
                    let stats = VisitorStatsResponse {
                        today_rank: today_total,
                        today_total,
                        all_time_total,
                        yesterday_total,
                    };
                    (VisitHandler::Write, VisitAction::WriteStats(stats))
                } else {
                    let query = CountQuery::VisitsBetween {
                        from: today_start - DAY_SECONDS,
                        to: today_start,
                    };
                    (
                        VisitHandler::YesterdayLog { today_total, all_time_total },
                        VisitAction::Count(query),
                    )
                }
            },
            (
                VisitHandler::YesterdayLog { today_total, all_time_total },
                VisitEvent::Counted(outcome),
            ) => {
                let stats = VisitorStatsResponse {
                    today_rank: today_total,
                    today_total,
                    all_time_total,
                    yesterday_total: count_or_zero(outcome),
                };
                (VisitHandler::Write, VisitAction::WriteStats(stats))
            },
            (VisitHandler::Write, VisitEvent::Written(text)) => (
                VisitHandler::Closed,
                VisitAction::Respond(build_json(text)),
            ),
            (VisitHandler::Write, VisitEvent::NotWritten) => fail("序列化失败"),
            (handler, _) => (handler, VisitAction::Ignore),
        }
    }
}

/// The event of a database that is there, at the present moment.
pub fn database_opened() -> (event: VisitEvent)
    ensures
        event matches VisitEvent::DatabaseOpened { now } && 0 <= now && in_calendar(now as int),
{
    VisitEvent::DatabaseOpened { now: now_seconds() }
}

/// The event of a visit that was recorded, on the present day.
pub fn inserted() -> (event: VisitEvent)
    ensures
        event matches VisitEvent::Inserted { today_start } && 0 <= today_start && in_calendar(
            today_start as int,
        ) && today_start as int % 86_400 == 0,
        VisitHandlerView::Insert.can_take(event@),
{
    VisitEvent::Inserted { today_start: today_utc_start_ts() }
}

impl VisitHandlerView {
    /// The request after the events, one after the other.
    pub open spec fn ran(self, events: Seq<VisitEventView>) -> VisitHandlerView
        decreases events.len(),
    {
        if events.len() == 0 {
            self
        } else {
            self.ran(events.drop_last()).after(events.last()).0
        }
    }
}

/// A browser that only asks what it may do is no visitor: nothing is recorded or counted for it.
pub proof fn law_preflight_is_no_visit(request: VisitRequestView, event: VisitEventView)
    requires
        request.method == "OPTIONS"@,
    ensures
        ({
            let (handler, action) = VisitHandlerView::begun(request);
            &&& action == VisitActionView::Respond(preflight_response())
            &&& handler.after(event) == (handler, VisitActionView::Ignore)
        }),
{
}

proof fn lemma_recorded(request: VisitRequestView, events: Seq<VisitEventView>)
    ensures
        ({
            let handler = VisitHandlerView::begun(request).0.ran(events);
            handler is Database || handler is Insert || handler is Closed || exists|i: int|
                0 <= i < events.len() && (#[trigger] events[i]) is Inserted
        }),
    decreases events.len(),
{
    if events.len() > 0 {
        let earlier = events.drop_last();
        lemma_recorded(request, earlier);
        if exists|i: int| 0 <= i < earlier.len() && (#[trigger] earlier[i]) is Inserted {
            let i = choose|i: int| 0 <= i < earlier.len() && (#[trigger] earlier[i]) is Inserted;
            assert(events[i] is Inserted);
        }
        assert(events[events.len() - 1] == events.last());
    }
}

/// A visit is recorded before anything is counted, so a visitor's own visit counts.
pub proof fn law_recorded_before_counted(
    request: VisitRequestView,
    events: Seq<VisitEventView>,
    event: VisitEventView,
)
    requires
        ({
            let action = VisitHandlerView::begun(request).0.ran(events).after(event).1;
            action is Count || action is WriteStats
        }),
    ensures
        exists|i: int|
            0 <= i < events.push(event).len() && (#[trigger] events.push(event)[i]) is Inserted,
{
    lemma_recorded(request, events);
    if exists|i: int| 0 <= i < events.len() && (#[trigger] events[i]) is Inserted {
        let i = choose|i: int| 0 <= i < events.len() && (#[trigger] events[i]) is Inserted;
        assert(events.push(event)[i] is Inserted);
    } else {
        assert(events.push(event)[events.len() as int] is Inserted);
    }
}

/// A request is answered once: after the answer every event is ignored.
pub proof fn law_answered_once(
    handler: VisitHandlerView,
    event: VisitEventView,
    later: VisitEventView,
)
    requires
        handler.after(event).1 is Respond,
    ensures
        handler.after(event).0.after(later) == (handler.after(event).0, VisitActionView::Ignore),
{
}

/// A question that brought no number counts as zero.
pub proof fn law_missing_numbers_are_zero(n: i64)
    ensures
        count_of(CountOutcome::Row(Some(n))) == n,
        count_of(CountOutcome::Row(None)) == 0,
        count_of(CountOutcome::NoRow) == 0,
        count_of(CountOutcome::Failed) == 0,
{
}

/// The statistics are the numbers that were counted, each in its place: today's visits are both the
/// rank and the total of today, the daily totals and the log together are the total of all time, and
/// yesterday is what its daily total says, or what the log says if that is not positive.
pub proof fn law_statistics_are_what_was_counted(
    today_start: i64,
    today: CountOutcome,
    daily: CountOutcome,
    log: CountOutcome,
    yesterday: CountOutcome,
    yesterday_log: CountOutcome,
)
    requires
        i64::MIN <= today_start - 86_400,
        i64::MIN <= count_of(daily) + count_of(log) <= i64::MAX,
    ensures
        ({
            let recorded = VisitHandlerView::Insert.after(VisitEventView::Inserted { today_start });
            let first = recorded.0.after(VisitEventView::Counted(today));
            let second = first.0.after(VisitEventView::Counted(daily));
            let third = second.0.after(VisitEventView::Counted(log));
            let fourth = third.0.after(VisitEventView::Counted(yesterday));
            let fifth = fourth.0.after(VisitEventView::Counted(yesterday_log));
            let last = if count_of(yesterday) > 0 {
                fourth
            } else {
                fifth
            };
            &&& recorded.1 == VisitActionView::Count(CountQueryView::VisitsSince(today_start))
            &&& first.1 == VisitActionView::Count(CountQueryView::DailySum)
            &&& second.1 == VisitActionView::Count(CountQueryView::LogTotal)
            &&& third.1 == VisitActionView::Count(
                CountQueryView::DailyOn(date_string(today_start - 86_400)),
            )
            &&& count_of(yesterday) <= 0 ==> fourth.1 == VisitActionView::Count(
                CountQueryView::VisitsBetween {
                    from: (today_start - 86_400) as i64,
                    to: today_start,
                },
            )
            &&& last.0 == VisitHandlerView::Write
            &&& last.1 matches VisitActionView::WriteStats(stats)
            &&& stats.today_rank == count_of(today)
            &&& stats.today_total == count_of(today)
            &&& stats.all_time_total == count_of(daily) + count_of(log)
            &&& stats.yesterday_total == if count_of(yesterday) > 0 {
                count_of(yesterday)
            } else {
                count_of(yesterday_log)
            }
        }),
{
}

/// Whatever was counted, the visit that is answered is the last one of today: its rank is today's
/// total.
pub proof fn law_rank_is_todays_total(handler: VisitHandlerView, event: VisitEventView)
    ensures
        handler.after(event).1 matches VisitActionView::WriteStats(stats) ==> {
            &&& stats.today_rank == stats.today_total
            &&& event matches VisitEventView::Counted(outcome)
            &&& stats.yesterday_total == count_of(outcome)
            &&& match handler {
                VisitHandlerView::YesterdayDaily { today_total, all_time_total, .. } => {
                    stats.today_total == today_total && stats.all_time_total == all_time_total
                },
                VisitHandlerView::YesterdayLog { today_total, all_time_total } => {
                    stats.today_total == today_total && stats.all_time_total == all_time_total
                },
                _ => false,
            }
        },
{
}

/// Every question is put to the table that can answer it.
pub proof fn law_questions_in_words(from: i64, to: i64, date: Seq<char>)
    ensures
        CountQueryView::VisitsSince(from).sql_text()
            == "SELECT COUNT(*) FROM visit_log WHERE visited_at >= "@ + int_text(from as int),
        CountQueryView::DailySum.sql_text()
            == "SELECT CAST(COALESCE(SUM(total_count), 0) AS BIGINT) FROM visit_daily_stats"@,
        CountQueryView::LogTotal.sql_text() == "SELECT COUNT(*) FROM visit_log"@,
        CountQueryView::DailyOn(date).sql_text()
            == "SELECT CAST(COALESCE(SUM(total_count), 0) AS BIGINT) FROM visit_daily_stats WHERE date = '"@
            + date + "'"@,
        (CountQueryView::VisitsBetween { from, to }).sql_text()
            == "SELECT COUNT(*) FROM visit_log WHERE visited_at >= "@ + int_text(from as int)
            + " AND visited_at < "@ + int_text(to as int),
{
}

/// A visit is recorded under the visitor's address at the moment the database was there; the written
/// statistics are the body of the answer, and what fails is answered with its message.
pub proof fn law_visit_is_recorded_and_answered(
    request: VisitRequestView,
    now: i64,
    text: Seq<char>,
)
    requires
        request.method != "OPTIONS"@,
    ensures
        ({
            let begun = VisitHandlerView::begun(request);
            &&& begun.1 == VisitActionView::OpenDatabase
            &&& begun.0.after(VisitEventView::DatabaseOpened { now }) == (
                VisitHandlerView::Insert,
                VisitActionView::Insert { ip: visitor_address(request), visited_at: now },
            )
            &&& begun.0.after(VisitEventView::DatabaseMissing) == (
                VisitHandlerView::Closed,
                VisitActionView::Respond(error_response(500, "数据库未初始化"@)),
            )
        }),
        VisitHandlerView::Insert.after(VisitEventView::InsertFailed) == (
            VisitHandlerView::Closed,
            VisitActionView::Respond(error_response(500, "记录访问失败"@)),
        ),
        VisitHandlerView::Write.after(VisitEventView::NotWritten) == (
            VisitHandlerView::Closed,
            VisitActionView::Respond(error_response(500, "序列化失败"@)),
        ),
        VisitHandlerView::Write.after(VisitEventView::Written(text)) == (
            VisitHandlerView::Closed,
            VisitActionView::Respond(json_response(text)),
        ),
{
}

/// An event that the request does not wait for changes nothing.
pub proof fn law_other_events_are_ignored(handler: VisitHandlerView, event: VisitEventView)
    requires
        match handler {
            VisitHandlerView::Database { .. } => !(event is DatabaseOpened) && !(
            event is DatabaseMissing),
            VisitHandlerView::Insert => !(event is Inserted) && !(event is InsertFailed),
            VisitHandlerView::Write => !(event is Written) && !(event is NotWritten),
            VisitHandlerView::Closed => true,
            _ => !(event is Counted),
        },
    ensures
        handler.after(event) == (handler, VisitActionView::Ignore),
{
}

/// An event can be taken unless a number would leave its range: the start of the day before today, or
/// the total of all time.
pub proof fn law_events_that_can_be_taken(handler: VisitHandlerView, event: VisitEventView)
    ensures
        handler.can_take(event) <==> {
            &&& handler is Insert && event is Inserted ==> event->today_start >= i64::MIN + 86_400
            &&& handler is LogTotal && event is Counted ==> {
                let total = handler->daily_sum + count_of(event->Counted_0);
                i64::MIN <= total <= i64::MAX
            }
        },
{
}

/// What came of an action is taken as it was reported.
pub proof fn law_events_are_taken_as_reported(event: VisitEvent)
    ensures
        event matches VisitEvent::DatabaseOpened { now } ==> event@
            == (VisitEventView::DatabaseOpened { now }),
        event matches VisitEvent::Inserted { today_start } ==> event@ == (VisitEventView::Inserted {
            today_start,
        }),
        event matches VisitEvent::Counted(outcome) ==> event@ == VisitEventView::Counted(outcome),
        event matches VisitEvent::Written(text) ==> event@ == VisitEventView::Written(text@),
{
}

/// What is to be done is said in full.
pub proof fn law_actions_are_said_in_full(action: VisitAction, query: CountQuery)
    ensures
        action matches VisitAction::Insert(visit) ==> action@ == (VisitActionView::Insert {
            ip: visit.ip@,
            visited_at: visit.visited_at,
        }),
        action matches VisitAction::Count(query) ==> action@ == VisitActionView::Count(query@),
        action matches VisitAction::WriteStats(stats) ==> action@ == VisitActionView::WriteStats(
            stats,
        ),
        action matches VisitAction::Respond(response) ==> action@ == VisitActionView::Respond(
            response@,
        ),
        query matches CountQuery::VisitsSince(from) ==> query@ == CountQueryView::VisitsSince(from),
        query matches CountQuery::DailyOn(date) ==> query@ == CountQueryView::DailyOn(date@),
        query matches CountQuery::VisitsBetween { from, to } ==> query@
            == (CountQueryView::VisitsBetween { from, to }),
{
}

} // verus!
