//! How the visits of past days become daily totals.
use crate::access::DatabaseBackend;
use crate::clock::{in_calendar, today_utc_start_ts};
use crate::error::labelled;
use crate::text::{i64_text, int_text};
use vstd::prelude::*;
use vstd::string::*;

verus! {

/// A database in which visits can become daily totals.
#[derive(Clone, Copy, Debug, PartialEq, Eq, Structural)]
pub enum AggregationBackend {
    Postgres,
    Sqlite,
}

/// The database, if visits can become daily totals in it.
pub open spec fn aggregation_backend_of(backend: DatabaseBackend) -> Option<AggregationBackend> {
    match backend {
        DatabaseBackend::Postgres => Some(AggregationBackend::Postgres),
        DatabaseBackend::Sqlite => Some(AggregationBackend::Sqlite),
        DatabaseBackend::MySql => None,
    }
}

/// The database, if visits can become daily totals in it.
pub fn aggregation_backend(backend: DatabaseBackend) -> (r: Option<AggregationBackend>)
    ensures
        r == aggregation_backend_of(backend),
{
    match backend {
        DatabaseBackend::Postgres => Some(AggregationBackend::Postgres),
        DatabaseBackend::Sqlite => Some(AggregationBackend::Sqlite),
        DatabaseBackend::MySql => None,
    }
}

/// The date of a visit, in the words of SQLite.
pub const SQLITE_DATE: &'static str = "strftime('%Y-%m-%d', datetime(visited_at, 'unixepoch'))";

/// The date of a visit, in the words of PostgreSQL.
pub const POSTGRES_DATE: &'static str =
    "TO_CHAR(TO_TIMESTAMP(visited_at) AT TIME ZONE 'UTC', 'YYYY-MM-DD')";

/// The date of a visit, in SQL.
pub open spec fn date_sql_text(backend: AggregationBackend) -> Seq<char> {
    match backend {
        AggregationBackend::Sqlite => SQLITE_DATE@,
        AggregationBackend::Postgres => POSTGRES_DATE@,
    }
}

/// The date of a visit, in SQL.
fn date_sql(backend: AggregationBackend) -> (text: &'static str)
    ensures
        text@ == date_sql_text(backend),
{
    match backend {
        AggregationBackend::Sqlite => SQLITE_DATE,
        AggregationBackend::Postgres => POSTGRES_DATE,
    }
}

/// The question, in SQL, how many visits there were on each day before today.
pub open spec fn group_sql_text(backend: AggregationBackend, today_start: i64) -> Seq<char> {
    "SELECT "@ + date_sql_text(backend)
        + " as date, COUNT(*) as cnt FROM visit_log WHERE visited_at < "@ + int_text(
        today_start as int,
    ) + " GROUP BY date"@
}

/// The question, in SQL, how many visits there were on each day before today.
pub fn group_sql(backend: AggregationBackend, today_start: i64) -> (text: String)
    ensures
        text@ == group_sql_text(backend, today_start),
{
    labelled("SELECT ", date_sql(backend)).concat(
        " as date, COUNT(*) as cnt FROM visit_log WHERE visited_at < ",
    ).concat(i64_text(today_start).as_str()).concat(" GROUP BY date")
}

/// A day and its visits, as far as they could be read.
pub struct GroupRow {
    pub date: Option<String>,
    pub count: Option<i64>,
}

pub struct GroupRowView {
    pub date: Option<Seq<char>>,
    pub count: Option<i64>,
}

impl View for GroupRow {
    type V = GroupRowView;

    open spec fn view(&self) -> GroupRowView {
        GroupRowView {
            date: match self.date {
                Some(date) => Some(date@),
                None => None,
            },
            count: self.count,
        }
    }
}

/// A change to the database.
pub enum AggregationStep {
    /// Add visits to the total of a day.
    AddToDay { date: String, count: i64 },
    /// Delete the visits of a day from the log, as far as they are older than the moment.
    DeleteDay { date: String, before: i64 },
}

pub enum AggregationStepView {
    AddToDay { date: Seq<char>, count: i64 },
    DeleteDay { date: Seq<char>, before: i64 },
}

impl View for AggregationStep {
    type V = AggregationStepView;

    open spec fn view(&self) -> AggregationStepView {
        match self {
            AggregationStep::AddToDay { date, count } => AggregationStepView::AddToDay {
                date: date@,
                count: *count,
            },
            AggregationStep::DeleteDay { date, before } => AggregationStepView::DeleteDay {
                date: date@,
                before: *before,
            },
        }
    }
}

impl AggregationStepView {
    /// The change in SQL.
    pub open spec fn sql_text(self, backend: AggregationBackend) -> Seq<char> {
        match self {
            AggregationStepView::AddToDay { date, count } =>
                "INSERT INTO visit_daily_stats (date, total_count) VALUES ('"@ + date + "', "@
                    + int_text(count as int) + (match backend {
                    AggregationBackend::Sqlite =>
                        ") ON CONFLICT(date) DO UPDATE SET total_count = total_count + excluded.total_count"@,
                    AggregationBackend::Postgres =>
                        ") ON CONFLICT (date) DO UPDATE SET total_count = visit_daily_stats.total_count + EXCLUDED.total_count"@,
                }),
            AggregationStepView::DeleteDay { date, before } =>
                "DELETE FROM visit_log WHERE visited_at < "@ + int_text(before as int) + " AND "@
                    + date_sql_text(backend) + " = '"@ + date + "'"@,
        }
    }
}

impl AggregationStep {
    /// The change in SQL.
    pub fn sql(&self, backend: AggregationBackend) -> (text: String)
        ensures
            text@ == self@.sql_text(backend),
    {
        match self {
            AggregationStep::AddToDay { date, count } => {
                let conflict = match backend {
                    AggregationBackend::Sqlite =>
                        ") ON CONFLICT(date) DO UPDATE SET total_count = total_count + excluded.total_count",
                    AggregationBackend::Postgres =>
                        ") ON CONFLICT (date) DO UPDATE SET total_count = visit_daily_stats.total_count + EXCLUDED.total_count",
                };
                labelled(
                    "INSERT INTO visit_daily_stats (date, total_count) VALUES ('",
                    date.as_str(),
                ).concat("', ").concat(i64_text(*count).as_str()).concat(conflict)
            },
            AggregationStep::DeleteDay { date, before } => labelled(
                "DELETE FROM visit_log WHERE visited_at < ",
                i64_text(*before).as_str(),
            ).concat(" AND ").concat(date_sql(backend)).concat(" = '").concat(
                date.as_str(),
            ).concat("'"),
        }
    }
}

/// The views of the rows, in order.
pub open spec fn rows_view(rows: Seq<GroupRow>) -> Seq<GroupRowView> {
    rows.map_values(|row: GroupRow| row@)
}

/// A past day and its visits.
pub struct DayCount {
    pub date: String,
    pub count: i64,
}

pub struct DayCountView {
    pub date: Seq<char>,
    pub count: i64,
}

impl View for DayCount {
    type V = DayCountView;

    open spec fn view(&self) -> DayCountView {
        DayCountView { date: self.date@, count: self.count }
    }
}

/// The views of the days, in order.
pub open spec fn days_view(days: Seq<DayCount>) -> Seq<DayCountView> {
    days.map_values(|day: DayCount| day@)
}

/// The days of the rows that could be read, in order.
pub open spec fn readable(rows: Seq<GroupRowView>) -> Seq<DayCountView>
    decreases rows.len(),
{
    if rows.len() == 0 {
        Seq::empty()
    } else {
        match (rows.last().date, rows.last().count) {
            (Some(date), Some(count)) => readable(rows.drop_last()).push(
                DayCountView { date, count },
            ),
            _ => readable(rows.drop_last()),
        }
    }
}

/// The days of the rows that could be read, in order. A row that could not be read is passed over,
/// and its visits stay where they are.
pub fn readable_days(rows: Vec<GroupRow>) -> (days: Vec<DayCount>)
    ensures
        days_view(days@) == readable(rows_view(rows@)),
{
    let mut days: Vec<DayCount> = Vec::new();
    let ghost views = rows_view(rows@);
    assert(days_view(days@) =~= readable(views.take(0)));
    for i in 0..rows.len()
        invariant
            views == rows_view(rows@),
            days_view(days@) == readable(views.take(i as int)),
    {
        let ghost earlier = days@;
        assert(views.take(i + 1).drop_last() =~= views.take(i as int));
        assert(views.take(i + 1).last() == rows@[i as int]@);
        if let (Some(date), Some(count)) = (&rows[i].date, rows[i].count) {
            days.push(DayCount { date: date.clone(), count });
            assert(days_view(days@) =~= days_view(earlier).push(days@.last()@));
        }
    }
    assert(views.take(views.len() as int) =~= views);
    days
}

/// What is to be done next.
pub enum AggregationAction {
    /// Ask for the visits of each past day, in these words.
    QueryGroups(String),
    /// Make a change, in these words.
    Execute { step: AggregationStep, sql: String },
    /// Nothing is left to do.
    Finish,
    /// The event does not belong here; nothing is to be done.
    Ignore,
}

/// What came of an action.
pub enum AggregationEvent {
    Groups(Vec<GroupRow>),
    GroupsFailed,
    /// A change was made, or failed.
    Executed { succeeded: bool },
}

pub enum AggregationActionView {
    QueryGroups(Seq<char>),
    Execute { step: AggregationStepView, sql: Seq<char> },
    Finish,
    Ignore,
}

pub enum AggregationEventView {
    Groups(Seq<GroupRowView>),
    GroupsFailed,
    Executed { succeeded: bool },
}

/// The past days that are to become daily totals, and the one whose turn it is.
pub struct PastDays {
    pub backend: AggregationBackend,
    pub today_start: i64,
    pub days: Vec<DayCount>,
    pub current: usize,
}

pub struct PastDaysView {
    pub backend: AggregationBackend,
    pub today_start: i64,
    pub days: Seq<DayCountView>,
    pub current: int,
}

impl View for PastDays {
    type V = PastDaysView;

    open spec fn view(&self) -> PastDaysView {
        PastDaysView {
            backend: self.backend,
            today_start: self.today_start,
            days: days_view(self.days@),
            current: self.current as int,
        }
    }
}

/// How past days become daily totals, from the first question to the last change. The days are taken
/// one after the other: the visits of a day are added to its total, and only if that succeeded they
/// are deleted from the log.
pub enum Aggregation {
    /// Waits for the visits of each past day.
    Groups { backend: AggregationBackend, today_start: i64 },
    /// Waits for the addition of the current day.
    Adding(PastDays),
    /// Waits for the deletion of the current day.
    Deleting(PastDays),
    Closed,
}

pub enum AggregationView {
    Groups { backend: AggregationBackend, today_start: i64 },
    Adding(PastDaysView),
    Deleting(PastDaysView),
    Closed,
}

impl View for AggregationAction {
    type V = AggregationActionView;

    open spec fn view(&self) -> AggregationActionView {
        match self {
            AggregationAction::QueryGroups(sql) => AggregationActionView::QueryGroups(sql@),
            AggregationAction::Execute { step, sql } => AggregationActionView::Execute {
                step: step@,
                sql: sql@,
            },
            AggregationAction::Finish => AggregationActionView::Finish,
            AggregationAction::Ignore => AggregationActionView::Ignore,
        }
    }
}

impl View for AggregationEvent {
    type V = AggregationEventView;

    open spec fn view(&self) -> AggregationEventView {
        match self {
            AggregationEvent::Groups(rows) => AggregationEventView::Groups(rows_view(rows@)),
            AggregationEvent::GroupsFailed => AggregationEventView::GroupsFailed,
            AggregationEvent::Executed { succeeded } => AggregationEventView::Executed {
                succeeded: *succeeded,
            },
        }
    }
}

impl View for Aggregation {
    type V = AggregationView;

    open spec fn view(&self) -> AggregationView {
        match self {
            Aggregation::Groups { backend, today_start } => AggregationView::Groups {
                backend: *backend,
                today_start: *today_start,
            },
            Aggregation::Adding(past) => AggregationView::Adding(past@),
            Aggregation::Deleting(past) => AggregationView::Deleting(past@),
            Aggregation::Closed => AggregationView::Closed,
        }
    }
}

impl PastDaysView {
    /// The days with the turn of another one.
    pub open spec fn at(self, current: int) -> PastDaysView {
        PastDaysView { current, ..self }
    }

    /// The addition of the current day.
    pub open spec fn addition(self) -> AggregationStepView {
        AggregationStepView::AddToDay {
            date: self.days[self.current].date,
            count: self.days[self.current].count,
        }
    }

    /// The deletion of the current day.
    pub open spec fn deletion(self) -> AggregationStepView {
        AggregationStepView::DeleteDay {
            date: self.days[self.current].date,
            before: self.today_start,
        }
    }

    /// A change in the words of the database.
    pub open spec fn worded(self, step: AggregationStepView) -> AggregationActionView {
        AggregationActionView::Execute { step, sql: step.sql_text(self.backend) }
    }

    /// The work on the current day: its addition, or the end if there is no such day.
    pub open spec fn begun(self) -> (AggregationView, AggregationActionView) {
        if self.current < self.days.len() {
            (AggregationView::Adding(self), self.worded(self.addition()))
        } else {
            (AggregationView::Closed, AggregationActionView::Finish)
        }
    }

    /// There is a current day.
    pub open spec fn wf(self) -> bool {
        0 <= self.current < self.days.len()
    }
}

impl AggregationView {
    /// The work at its start, and its first action. In another database there is nothing to do.
    pub open spec fn begun(backend: DatabaseBackend, today_start: i64) -> (
        AggregationView,
        AggregationActionView,
    ) {
        match aggregation_backend_of(backend) {
            Some(backend) => (
                AggregationView::Groups { backend, today_start },
                AggregationActionView::QueryGroups(group_sql_text(backend, today_start)),
            ),
            None => (AggregationView::Closed, AggregationActionView::Finish),
        }
    }

    /// The work after an event, and the action that follows. An event that it does not wait for
    /// changes nothing.
    pub open spec fn after(self, event: AggregationEventView) -> (
        AggregationView,
        AggregationActionView,
    ) {
        match (self, event) {
            (
                AggregationView::Groups { backend, today_start },
                AggregationEventView::Groups(rows),
            ) => (PastDaysView { backend, today_start, days: readable(rows), current: 0 }).begun(),
            (AggregationView::Groups { .. }, AggregationEventView::GroupsFailed) => (
                AggregationView::Closed,
                AggregationActionView::Finish,
            ),
            (
                AggregationView::Adding(past),
                AggregationEventView::Executed { succeeded },
            ) => if succeeded {
                (AggregationView::Deleting(past), past.worded(past.deletion()))
            } else {
                past.at(past.current + 1).begun()
            },
            (AggregationView::Deleting(past), AggregationEventView::Executed { .. }) => past.at(
                past.current + 1,
            ).begun(),
            _ => (self, AggregationActionView::Ignore),
        }
    }

    /// While days are worked on, one of them has its turn.
    pub open spec fn wf(self) -> bool {
        match self {
            AggregationView::Adding(past) => past.wf(),
            AggregationView::Deleting(past) => past.wf(),
            _ => true,
        }
    }
}

impl PastDays {
    /// Asks for the addition of the current day, or ends the work.
    fn begin(self) -> (r: (Aggregation, AggregationAction))
        ensures
            r.0@.wf(),
            (r.0@, r.1@) == self@.begun(),
    {
        if self.current < self.days.len() {
            let day = &self.days[self.current];
            let step = AggregationStep::AddToDay { date: day.date.clone(), count: day.count };
            let sql = step.sql(self.backend);
            (Aggregation::Adding(self), AggregationAction::Execute { step, sql })
        } else {
            (Aggregation::Closed, AggregationAction::Finish)
        }
    }

    /// Goes on to the next day.
    fn go_on(self) -> (r: (Aggregation, AggregationAction))
        requires
            self@.wf(),
        ensures
            r.0@.wf(),
            (r.0@, r.1@) == self@.at(self@.current + 1).begun(),
    {
        let PastDays { backend, today_start, days, current } = self;
        assert(current < days.len());
        PastDays { backend, today_start, days, current: current + 1 }.begin()
    }
}

impl Aggregation {
    /// Starts the work on a day with the given first second.
    pub fn begin(backend: DatabaseBackend, today_start: i64) -> (r: (
        Aggregation,
        AggregationAction,
    ))
        ensures
            r.0@.wf(),
            (r.0@, r.1@) == AggregationView::begun(backend, today_start),
    {
        match aggregation_backend(backend) {
            Some(backend) => (
                Aggregation::Groups { backend, today_start },
                AggregationAction::QueryGroups(group_sql(backend, today_start)),
            ),
            None => (Aggregation::Closed, AggregationAction::Finish),
        }
    }

    /// Starts the work on the present day.
    pub fn begin_today(backend: DatabaseBackend) -> (r: (Aggregation, AggregationAction))
        ensures
            r.0@.wf(),
            exists|today_start: i64|
                0 <= today_start && in_calendar(today_start as int) && today_start as int % 86_400
                    == 0 && (r.0@, r.1@) == #[trigger] AggregationView::begun(backend, today_start),
    {
        Aggregation::begin(backend, today_utc_start_ts())
    }

    /// Takes an event and says what is to be done next.
    pub fn step(self, event: AggregationEvent) -> (r: (Aggregation, AggregationAction))
        requires
            self@.wf(),
        ensures
            r.0@.wf(),
            (r.0@, r.1@) == self@.after(event@),
    {
        match (self, event) {
            (Aggregation::Groups { backend, today_start }, AggregationEvent::Groups(rows)) => {
                let days = readable_days(rows);
                PastDays { backend, today_start, days, current: 0 }.begin()
            },
            (Aggregation::Groups { backend: _, today_start: _ }, AggregationEvent::GroupsFailed) => (
                Aggregation::Closed,
                AggregationAction::Finish,
            ),
            (Aggregation::Adding(past), AggregationEvent::Executed { succeeded }) => {
                if succeeded {
                    let date = past.days[past.current].date.clone();
                    let step = AggregationStep::DeleteDay { date, before: past.today_start };
                    let sql = step.sql(past.backend);
                    (Aggregation::Deleting(past), AggregationAction::Execute { step, sql })
                } else {
                    past.go_on()
                }
            },
            (
                Aggregation::Deleting(past),
                AggregationEvent::Executed { succeeded: _ },
            ) => past.go_on(),
            (work, _) => (work, AggregationAction::Ignore),
        }
    }
}

/// A day is deleted from the log exactly after it was added to the totals: its deletion follows its
/// own addition, and only if that succeeded.
pub proof fn law_only_added_days_are_deleted(
    work: AggregationView,
    event: AggregationEventView,
    date: Seq<char>,
    before: i64,
    sql: Seq<char>,
)
    ensures
        work.after(event).1 == (AggregationActionView::Execute {
            step: AggregationStepView::DeleteDay { date, before },
            sql,
        }) <==> {
            &&& event == AggregationEventView::Executed { succeeded: true }
            &&& work matches AggregationView::Adding(past)
            &&& past.days[past.current].date == date
            &&& past.today_start == before
            &&& sql == (AggregationStepView::DeleteDay { date, before }).sql_text(past.backend)
        },
{
}

/// Every day that could be read is worked on once, in order, whatever became of the days before it:
/// its addition is attempted, then its deletion if the addition succeeded, and then the next day
/// follows; after the last one the work is over.
pub proof fn law_every_day_has_its_turn(past: PastDaysView, deleted: bool)
    requires
        past.wf(),
    ensures
        past.begun() == (AggregationView::Adding(past), past.worded(past.addition())),
        past.begun().0.after(AggregationEventView::Executed { succeeded: false }) == past.at(
            past.current + 1,
        ).begun(),
        past.begun().0.after(AggregationEventView::Executed { succeeded: true }).1 == past.worded(
            past.deletion(),
        ),
        past.begun().0.after(AggregationEventView::Executed { succeeded: true }).0.after(
            AggregationEventView::Executed { succeeded: deleted },
        ) == past.at(past.current + 1).begun(),
        past.at(past.days.len() as int).begun() == (
            AggregationView::Closed,
            AggregationActionView::Finish,
        ),
{
}

/// Every change is worded for the database that the work is on: an addition to a day that has a total
/// names the table in PostgreSQL and does not in SQLite, and each finds a visit's date in its own way.
/// The work stays on its database and its day.
pub proof fn law_changes_are_worded_for_the_database(
    work: AggregationView,
    event: AggregationEventView,
    backend: AggregationBackend,
    start: i64,
)
    requires
        ({
            ||| work == (AggregationView::Groups { backend, today_start: start })
            ||| work matches AggregationView::Adding(past) && past.backend == backend
                && past.today_start == start
            ||| work matches AggregationView::Deleting(past) && past.backend == backend
                && past.today_start == start
        }),
    ensures
        match work.after(event).0 {
            AggregationView::Groups { backend: next, today_start } => next == backend && today_start
                == start,
            AggregationView::Adding(past) => past.backend == backend && past.today_start == start,
            AggregationView::Deleting(past) => past.backend == backend && past.today_start == start,
            AggregationView::Closed => true,
        },
        match work.after(event).1 {
            AggregationActionView::Execute {
                step: AggregationStepView::AddToDay { date, count },
                sql,
            } => sql == "INSERT INTO visit_daily_stats (date, total_count) VALUES ('"@ + date
                + "', "@ + int_text(count as int) + if backend == AggregationBackend::Postgres {
                ") ON CONFLICT (date) DO UPDATE SET total_count = visit_daily_stats.total_count + EXCLUDED.total_count"@
            } else {
                ") ON CONFLICT(date) DO UPDATE SET total_count = total_count + excluded.total_count"@
            },
            AggregationActionView::Execute {
                step: AggregationStepView::DeleteDay { date, before },
                sql,
            } => before == start && sql == "DELETE FROM visit_log WHERE visited_at < "@ + int_text(
                start as int,
            ) + " AND "@ + (if backend == AggregationBackend::Postgres {
                "TO_CHAR(TO_TIMESTAMP(visited_at) AT TIME ZONE 'UTC', 'YYYY-MM-DD')"@
            } else {
                "strftime('%Y-%m-%d', datetime(visited_at, 'unixepoch'))"@
            }) + " = '"@ + date + "'"@,
            AggregationActionView::QueryGroups(_) => false,
            _ => true,
        },
{
}

/// The work starts with the question for the past days, in the words of the database; in MySQL there is
/// nothing to do.
pub proof fn law_work_starts_with_the_past_days(start: i64)
    ensures
        group_sql_text(AggregationBackend::Postgres, start)
            == "SELECT "@ + "TO_CHAR(TO_TIMESTAMP(visited_at) AT TIME ZONE 'UTC', 'YYYY-MM-DD')"@
            + " as date, COUNT(*) as cnt FROM visit_log WHERE visited_at < "@ + int_text(
            start as int,
        ) + " GROUP BY date"@,
        group_sql_text(AggregationBackend::Sqlite, start)
            == "SELECT "@ + "strftime('%Y-%m-%d', datetime(visited_at, 'unixepoch'))"@
            + " as date, COUNT(*) as cnt FROM visit_log WHERE visited_at < "@ + int_text(
            start as int,
        ) + " GROUP BY date"@,
        AggregationView::begun(DatabaseBackend::Postgres, start) == (
            AggregationView::Groups {
                backend: AggregationBackend::Postgres,
                today_start: start,
            },
            AggregationActionView::QueryGroups(
                group_sql_text(AggregationBackend::Postgres, start),
            ),
        ),
        AggregationView::begun(DatabaseBackend::Sqlite, start) == (
            AggregationView::Groups { backend: AggregationBackend::Sqlite, today_start: start },
            AggregationActionView::QueryGroups(group_sql_text(AggregationBackend::Sqlite, start)),
        ),
        AggregationView::begun(DatabaseBackend::MySql, start) == (
            AggregationView::Closed,
            AggregationActionView::Finish,
        ),
{
}

/// The rows that could be read become days one for one, in their order; a row without a date or a
/// number is passed over.
pub proof fn law_readable_rows_become_days(rows: Seq<GroupRowView>, row: GroupRowView)
    ensures
        readable(Seq::empty()) == Seq::<DayCountView>::empty(),
        row.date is Some && row.count is Some ==> readable(rows.push(row)) == readable(rows).push(
            DayCountView { date: row.date->Some_0, count: row.count->Some_0 },
        ),
        row.date is None || row.count is None ==> readable(rows.push(row)) == readable(rows),
{
    assert(rows.push(row).drop_last() =~= rows);
}

/// What follows on the rows of the past days: the addition of the first day that could be read.
pub proof fn law_first_day_is_added_first(
    backend: AggregationBackend,
    today_start: i64,
    rows: Seq<GroupRowView>,
)
    ensures
        ({
            let days = readable(rows);
            let (next, action) = (AggregationView::Groups { backend, today_start }).after(
                AggregationEventView::Groups(rows),
            );
            if days.len() == 0 {
                next == AggregationView::Closed && action == AggregationActionView::Finish
            } else {
                &&& next == AggregationView::Adding(
                    PastDaysView { backend, today_start, days, current: 0 },
                )
                &&& action matches AggregationActionView::Execute { step, .. }
                &&& step == AggregationStepView::AddToDay {
                    date: days[0].date,
                    count: days[0].count,
                }
            }
        }),
        (AggregationView::Groups { backend, today_start }).after(
            AggregationEventView::GroupsFailed,
        ) == (AggregationView::Closed, AggregationActionView::Finish),
{
}

/// What follows on a change: on an addition that succeeded the deletion of the same day, and on any
/// other change the addition of the next day, or the end behind the last one.
pub proof fn law_days_are_taken_in_order(past: PastDaysView, deleted: bool)
    requires
        past.wf(),
    ensures
        ({
            let (next, action) = AggregationView::Adding(past).after(
                AggregationEventView::Executed { succeeded: true },
            );
            &&& next == AggregationView::Deleting(past)
            &&& action matches AggregationActionView::Execute { step, .. }
            &&& step == AggregationStepView::DeleteDay {
                date: past.days[past.current].date,
                before: past.today_start,
            }
        }),
        AggregationView::Adding(past).after(AggregationEventView::Executed { succeeded: false })
            == AggregationView::Deleting(past).after(
            AggregationEventView::Executed { succeeded: deleted },
        ),
        ({
            let (next, action) = AggregationView::Deleting(past).after(
                AggregationEventView::Executed { succeeded: deleted },
            );
            if past.current + 1 < past.days.len() {
                &&& next == AggregationView::Adding(
                    PastDaysView { current: past.current + 1, ..past },
                )
                &&& action matches AggregationActionView::Execute { step, .. }
                &&& step == AggregationStepView::AddToDay {
                    date: past.days[past.current + 1].date,
                    count: past.days[past.current + 1].count,
                }
            } else {
                next == AggregationView::Closed && action == AggregationActionView::Finish
            }
        }),
{
}

/// An event that the work does not wait for changes nothing.
pub proof fn law_other_events_are_ignored(work: AggregationView, event: AggregationEventView)
    requires
        match work {
            AggregationView::Groups { .. } => event is Executed,
            AggregationView::Adding(_) => !(event is Executed),
            AggregationView::Deleting(_) => !(event is Executed),
            AggregationView::Closed => true,
        },
    ensures
        work.after(event) == (work, AggregationActionView::Ignore),
{
}

/// Rows are taken one for one and in order, each with its date and its number as far as they are there.
pub proof fn law_rows_are_taken_as_they_are(rows: Seq<GroupRow>, i: int)
    ensures
        rows_view(rows).len() == rows.len(),
        0 <= i < rows.len() ==> {
            &&& rows_view(rows)[i].count == rows[i].count
            &&& rows_view(rows)[i].date is Some <==> rows[i].date is Some
            &&& rows[i].date matches Some(date) ==> rows_view(rows)[i].date == Some(date@)
        },
{
}

/// What came of an action is taken as it was reported, and what is to be done is said in full.
pub proof fn law_events_and_actions_in_full(event: AggregationEvent, action: AggregationAction)
    ensures
        event matches AggregationEvent::Groups(rows) ==> event@ == AggregationEventView::Groups(
            rows_view(rows@),
        ),
        event matches AggregationEvent::Executed { succeeded } ==> event@
            == (AggregationEventView::Executed { succeeded }),
        action matches AggregationAction::QueryGroups(sql) ==> action@
            == AggregationActionView::QueryGroups(sql@),
        action matches AggregationAction::Execute { step, sql } ==> {
            &&& action@ == (AggregationActionView::Execute { step: step@, sql: sql@ })
            &&& step matches AggregationStep::AddToDay { date, count } ==> step@
                == (AggregationStepView::AddToDay { date: date@, count })
            &&& step matches AggregationStep::DeleteDay { date, before } ==> step@
                == (AggregationStepView::DeleteDay { date: date@, before })
        },
{
}

} // verus!
