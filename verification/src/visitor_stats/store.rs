//! What the database holds of the visits, and what stays true of it.
use crate::clock::{
    date_string, day_of, day_start, in_calendar, is_date_text_of, law_dates_tell_days_apart,
    law_every_day_has_a_date, DAY_SECONDS,
};
use crate::text::int_text;
use crate::visitor_stats::aggregation::{
    law_changes_are_worded_for_the_database, readable, AggregationActionView, AggregationBackend,
    AggregationEventView, AggregationStepView, AggregationView, DayCountView, GroupRowView,
    PastDaysView,
};
use crate::visitor_stats::handler::{
    stats_of, CountOutcome, CountQueryView, VisitActionView, VisitEventView,
    VisitHandlerView,
};
use vstd::prelude::*;

verus! {

/// A visit of the log: its moment, in seconds, and the date of that moment.
pub struct Visit {
    pub at: int,
    pub date: Seq<char>,
}

/// The visits of one day, as a number.
pub struct DayTotal {
    pub date: Seq<char>,
    pub total: int,
}

/// The log of single visits and the daily totals.
pub struct VisitStore {
    pub log: Seq<Visit>,
    pub daily: Seq<DayTotal>,
}

/// How many visits of the log are not older than one moment and older than the other.
pub open spec fn visits_between(log: Seq<Visit>, from: int, to: int) -> int
    decreases log.len(),
{
    if log.len() == 0 {
        0
    } else {
        visits_between(log.drop_last(), from, to) + if from <= log.last().at < to {
            1int
        } else {
            0
        }
    }
}

/// How many visits of the log are not older than the moment.
pub open spec fn visits_since(log: Seq<Visit>, from: int) -> int
    decreases log.len(),
{
    if log.len() == 0 {
        0
    } else {
        visits_since(log.drop_last(), from) + if from <= log.last().at {
            1int
        } else {
            0
        }
    }
}

/// How many visits of the log are older than the moment and have the date.
pub open spec fn visits_on(log: Seq<Visit>, before: int, date: Seq<char>) -> int
    decreases log.len(),
{
    if log.len() == 0 {
        0
    } else {
        visits_on(log.drop_last(), before, date) + if log.last().at < before && log.last().date
            == date {
            1int
        } else {
            0
        }
    }
}

/// What the totals add up to.
pub open spec fn sum_of(daily: Seq<DayTotal>) -> int
    decreases daily.len(),
{
    if daily.len() == 0 {
        0
    } else {
        sum_of(daily.drop_last()) + daily.last().total
    }
}

/// What the totals of a date add up to.
pub open spec fn total_on(daily: Seq<DayTotal>, date: Seq<char>) -> int
    decreases daily.len(),
{
    if daily.len() == 0 {
        0
    } else {
        total_on(daily.drop_last(), date) + if daily.last().date == date {
            daily.last().total
        } else {
            0
        }
    }
}

/// The totals with visits added to a date: to its total if it has one, else as a new total.
pub open spec fn added(daily: Seq<DayTotal>, date: Seq<char>, count: int) -> Seq<DayTotal>
    decreases daily.len(),
{
    if daily.len() == 0 {
        seq![DayTotal { date, total: count }]
    } else if daily.last().date == date {
        daily.drop_last().push(DayTotal { date, total: daily.last().total + count })
    } else {
        added(daily.drop_last(), date, count).push(daily.last())
    }
}

/// The log without the visits of the dates, as far as they are older than the moment.
pub open spec fn without_days(
    log: Seq<Visit>,
    before: int,
    dates: Set<Seq<char>>,
) -> Seq<Visit>
    decreases log.len(),
{
    if log.len() == 0 {
        Seq::empty()
    } else if log.last().at < before && dates.contains(log.last().date) {
        without_days(log.drop_last(), before, dates)
    } else {
        without_days(log.drop_last(), before, dates).push(log.last())
    }
}

/// The visits of the log that are not older than the moment.
pub open spec fn log_since(log: Seq<Visit>, from: int) -> Seq<Visit>
    decreases log.len(),
{
    if log.len() == 0 {
        Seq::empty()
    } else if from <= log.last().at {
        log_since(log.drop_last(), from).push(log.last())
    } else {
        log_since(log.drop_last(), from)
    }
}

impl VisitStore {
    /// Every visit has its date.
    pub open spec fn wf(self) -> bool {
        forall|i: int|
            0 <= i < self.log.len() ==> is_date_text_of(
                (#[trigger] self.log[i]).date,
                day_of(self.log[i].at),
            )
    }

    /// What the database answers to a question.
    pub open spec fn answer(self, query: CountQueryView) -> int {
        match query {
            CountQueryView::VisitsSince(from) => visits_since(self.log, from as int),
            CountQueryView::DailySum => sum_of(self.daily),
            CountQueryView::LogTotal => self.log.len() as int,
            CountQueryView::DailyOn(date) => total_on(self.daily, date),
            CountQueryView::VisitsBetween { from, to } => visits_between(
                self.log,
                from as int,
                to as int,
            ),
        }
    }

    /// All visits that there ever were.
    pub open spec fn all_time_total(self) -> int {
        sum_of(self.daily) + self.log.len()
    }

    /// The visits of the day before today: its daily total, or without one what the log holds.
    pub open spec fn yesterday_total(self, today_start: int) -> int {
        let total = total_on(self.daily, date_string(today_start - DAY_SECONDS));
        if total > 0 {
            total
        } else {
            visits_between(self.log, today_start - DAY_SECONDS, today_start)
        }
    }

    /// The store after a change.
    pub open spec fn changed(self, step: AggregationStepView) -> VisitStore {
        match step {
            AggregationStepView::AddToDay { date, count } => VisitStore {
                daily: added(self.daily, date, count as int),
                ..self
            },
            AggregationStepView::DeleteDay { date, before } => VisitStore {
                log: without_days(self.log, before as int, Set::empty().insert(date)),
                ..self
            },
        }
    }
}

/// Whether the totals are those of the visits that are older than the moment: one for every date
/// that such a visit has, in any order.
pub open spec fn is_grouping(groups: Seq<DayTotal>, log: Seq<Visit>, before: int) -> bool {
    &&& forall|i: int, j: int|
        0 <= i < j < groups.len() ==> (#[trigger] groups[i]).date != (#[trigger] groups[j]).date
    &&& forall|i: int| 0 <= i < groups.len() ==> (#[trigger] groups[i]).total > 0
    &&& forall|date: Seq<char>| #[trigger]
        total_on(groups, date) == visits_on(log, before, date)
}

/// Whether the rows are the totals, in the same order, as far as they could be read.
pub open spec fn tell(rows: Seq<GroupRowView>, groups: Seq<DayTotal>) -> bool {
    &&& rows.len() == groups.len()
    &&& forall|i: int|
        0 <= i < rows.len() ==> {
            &&& (#[trigger] rows[i]).date matches Some(date) ==> date == groups[i].date
            &&& rows[i].count matches Some(count) ==> count == groups[i].total
        }
}

/// Past days that become daily totals, together with what the database makes of the changes.
pub struct AggregationRun {
    pub work: AggregationView,
    pub action: AggregationActionView,
    pub store: VisitStore,
    /// The dates whose addition succeeded.
    pub added: Set<Seq<char>>,
    /// The dates whose deletion succeeded.
    pub deleted: Set<Seq<char>>,
}

impl AggregationRun {
    /// The run when the rows of the past days have come.
    pub open spec fn started(
        backend: AggregationBackend,
        today_start: i64,
        rows: Seq<GroupRowView>,
        store: VisitStore,
    ) -> AggregationRun {
        let (work, action) = (AggregationView::Groups { backend, today_start }).after(
            AggregationEventView::Groups(rows),
        );
        AggregationRun { work, action, store, added: Set::empty(), deleted: Set::empty() }
    }

    /// The run after the change that is asked for was made, or failed and changed nothing.
    pub open spec fn turn(self, succeeded: bool) -> AggregationRun {
        match self.action {
            AggregationActionView::Execute { step, .. } => {
                let (work, action) = self.work.after(AggregationEventView::Executed { succeeded });
                if succeeded {
                    AggregationRun {
                        work,
                        action,
                        store: self.store.changed(step),
                        added: match step {
                            AggregationStepView::AddToDay { date, .. } => self.added.insert(date),
                            AggregationStepView::DeleteDay { .. } => self.added,
                        },
                        deleted: match step {
                            AggregationStepView::AddToDay { .. } => self.deleted,
                            AggregationStepView::DeleteDay { date, .. } => self.deleted.insert(date),
                        },
                    }
                } else {
                    AggregationRun { work, action, ..self }
                }
            },
            _ => self,
        }
    }

    /// The run after changes with these outcomes, one after the other.
    pub open spec fn ran(self, outcomes: Seq<bool>) -> AggregationRun
        decreases outcomes.len(),
    {
        if outcomes.len() == 0 {
            self
        } else {
            self.ran(outcomes.drop_last()).turn(outcomes.last())
        }
    }

    /// Whether a deletion is asked for.
    pub open spec fn deletes(self) -> bool {
        self.action matches AggregationActionView::Execute { step, .. } && step is DeleteDay
    }

    /// Whether every deletion succeeds.
    pub open spec fn deletions_succeed(self, outcomes: Seq<bool>) -> bool
        decreases outcomes.len(),
    {
        outcomes.len() > 0 ==> {
            &&& self.deletions_succeed(outcomes.drop_last())
            &&& self.ran(outcomes.drop_last()).deletes() ==> outcomes.last()
        }
    }
}

proof fn lemma_added(daily: Seq<DayTotal>, date: Seq<char>, count: int, other: Seq<char>)
    ensures
        sum_of(added(daily, date, count)) == sum_of(daily) + count,
        total_on(added(daily, date, count), other) == total_on(daily, other) + if other == date {
            count
        } else {
            0
        },
    decreases daily.len(),
{
    if daily.len() == 0 {
        let one = seq![DayTotal { date, total: count }];
        assert(one.drop_last() =~= Seq::empty());
        reveal_with_fuel(sum_of, 2);
        reveal_with_fuel(total_on, 2);
    } else if daily.last().date == date {
        let last = DayTotal { date, total: daily.last().total + count };
        assert(daily.drop_last().push(last).drop_last() =~= daily.drop_last());
    } else {
        lemma_added(daily.drop_last(), date, count, other);
        let front = added(daily.drop_last(), date, count);
        assert(front.push(daily.last()).drop_last() =~= front);
    }
}

proof fn lemma_without_days(
    log: Seq<Visit>,
    before: int,
    dates: Set<Seq<char>>,
    date: Seq<char>,
    from: int,
)
    ensures
        visits_on(without_days(log, before, dates), before, date) == if dates.contains(date) {
            0
        } else {
            visits_on(log, before, date)
        },
        without_days(log, before, Set::empty().insert(date)).len() == log.len() - visits_on(
            log,
            before,
            date,
        ),
        from >= before ==> visits_since(without_days(log, before, dates), from) == visits_since(
            log,
            from,
        ),
        without_days(without_days(log, before, dates), before, Set::empty().insert(date))
            == without_days(log, before, dates.insert(date)),
        without_days(log, before, Set::empty()) == log,
    decreases log.len(),
{
    if log.len() > 0 {
        lemma_without_days(log.drop_last(), before, dates, date, from);
        let rest = without_days(log.drop_last(), before, dates);
        let one = without_days(log.drop_last(), before, Set::empty().insert(date));
        assert(rest.push(log.last()).drop_last() =~= rest);
        assert(one.push(log.last()).drop_last() =~= one);
        assert(log.drop_last().push(log.last()) =~= log);
    }
}

proof fn lemma_other_visits_stay(
    log: Seq<Visit>,
    before: int,
    dates: Set<Seq<char>>,
    visit: Visit,
)
    requires
        log.contains(visit),
        visit.at >= before || !dates.contains(visit.date),
    ensures
        without_days(log, before, dates).contains(visit),
    decreases log.len(),
{
    let front = without_days(log.drop_last(), before, dates);
    let rest = without_days(log, before, dates);
    let i = log.index_of(visit);
    if i == log.len() - 1 {
        assert(rest[front.len() as int] == visit);
    } else {
        assert(log.drop_last()[i] == visit);
        lemma_other_visits_stay(log.drop_last(), before, dates, visit);
        let k = front.index_of(visit);
        assert(rest[k] == visit);
    }
}

proof fn lemma_total_of_absent(daily: Seq<DayTotal>, date: Seq<char>)
    requires
        forall|i: int| 0 <= i < daily.len() ==> (#[trigger] daily[i]).date != date,
    ensures
        total_on(daily, date) == 0,
    decreases daily.len(),
{
    if daily.len() > 0 {
        let front = daily.drop_last();
        assert forall|i: int| 0 <= i < front.len() implies (#[trigger] front[i]).date != date by {
            assert(front[i] == daily[i]);
        }
        lemma_total_of_absent(front, date);
        assert(daily[daily.len() - 1].date != date);
    }
}

/// Where no date occurs twice, what the totals of a date add up to is the total of that date.
proof fn lemma_total_of_present(daily: Seq<DayTotal>, k: int)
    requires
        0 <= k < daily.len(),
        forall|i: int, j: int|
            0 <= i < j < daily.len() ==> (#[trigger] daily[i]).date != (#[trigger] daily[j]).date,
    ensures
        total_on(daily, daily[k].date) == daily[k].total,
    decreases daily.len(),
{
    let front = daily.drop_last();
    assert(forall|i: int| 0 <= i < front.len() ==> #[trigger] front[i] == daily[i]);
    if k == daily.len() - 1 {
        lemma_total_of_absent(front, daily[k].date);
    } else {
        lemma_total_of_present(front, k);
        assert(daily[k].date != daily[daily.len() - 1].date);
    }
}

/// Whether the days are different, and each has its visits that are older than the moment.
spec fn are_days(days: Seq<DayCountView>, log: Seq<Visit>, before: int) -> bool {
    &&& forall|i: int, j: int|
        0 <= i < j < days.len() ==> (#[trigger] days[i]).date != (#[trigger] days[j]).date
    &&& forall|i: int|
        0 <= i < days.len() ==> (#[trigger] days[i]).count == visits_on(log, before, days[i].date)
}

/// Whether the day is one of the totals.
spec fn is_told(day: DayCountView, groups: Seq<DayTotal>) -> bool {
    exists|i: int|
        0 <= i < groups.len() && day.date == (#[trigger] groups[i]).date && day.count
            == groups[i].total
}

proof fn lemma_readable(rows: Seq<GroupRowView>, groups: Seq<DayTotal>)
    requires
        tell(rows, groups),
        forall|i: int, j: int|
            0 <= i < j < groups.len() ==> (#[trigger] groups[i]).date != (#[trigger] groups[j]).date,
    ensures
        forall|i: int|
            0 <= i < readable(rows).len() ==> is_told(#[trigger] readable(rows)[i], groups),
        forall|i: int, j: int|
            0 <= i < j < readable(rows).len() ==> (#[trigger] readable(rows)[i]).date != (
            #[trigger] readable(rows)[j]).date,
    decreases rows.len(),
{
    if rows.len() > 0 {
        let front = groups.drop_last();
        let earlier = rows.drop_last();
        assert(forall|i: int| 0 <= i < front.len() ==> #[trigger] front[i] == groups[i]);
        assert(tell(earlier, front)) by {
            assert(forall|i: int| 0 <= i < earlier.len() ==> #[trigger] earlier[i] == rows[i]);
        }
        lemma_readable(earlier, front);
        let days = readable(earlier);
        assert forall|i: int| 0 <= i < days.len() implies is_told(#[trigger] days[i], groups)
            && days[i].date != groups.last().date by {
            let k = choose|k: int|
                0 <= k < front.len() && days[i].date == (#[trigger] front[k]).date && days[i].count
                    == front[k].total;
            assert(groups[k] == front[k]);
            assert(groups[k].date != groups[groups.len() - 1].date);
        }
        let last = rows[rows.len() - 1];
        if last.date is Some && last.count is Some {
            let day = DayCountView { date: last.date->0, count: last.count->0 };
            assert(is_told(day, groups)) by {
                assert(day.date == groups[groups.len() - 1].date);
            }
        }
    }
}

proof fn lemma_are_days(
    rows: Seq<GroupRowView>,
    groups: Seq<DayTotal>,
    log: Seq<Visit>,
    before: int,
)
    requires
        tell(rows, groups),
        is_grouping(groups, log, before),
    ensures
        are_days(readable(rows), log, before),
{
    lemma_readable(rows, groups);
    let days = readable(rows);
    assert forall|i: int| 0 <= i < days.len() implies (#[trigger] days[i]).count == visits_on(
        log,
        before,
        days[i].date,
    ) by {
        assert(is_told(days[i], groups));
        let k = choose|k: int|
            0 <= k < groups.len() && days[i].date == (#[trigger] groups[k]).date && days[i].count
                == groups[k].total;
        lemma_total_of_present(groups, k);
        assert(total_on(groups, groups[k].date) == visits_on(log, before, groups[k].date));
    }
}

/// Whether the date belongs to one of the first `n` days.
spec fn among(date: Seq<char>, days: Seq<DayCountView>, n: int) -> bool {
    exists|i: int| 0 <= i < n && (#[trigger] days[i]).date == date
}

/// What holds all along a run: which days were worked on, what left the log, and what came to the
/// totals; and, as long as every deletion succeeded, that no visit got lost or is counted twice but
/// those whose deletion is asked for.
spec fn stays_true(
    run: AggregationRun,
    store: VisitStore,
    today_start: i64,
    days: Seq<DayCountView>,
    all_deleted: bool,
) -> bool {
    &&& match run.work {
        AggregationView::Adding(past) => {
            &&& past.wf() && past.days == days && past.today_start == today_start
            &&& run.action == past.worded(past.addition())
            &&& forall|date: Seq<char>| #[trigger]
                run.added.contains(date) ==> among(date, days, past.current)
            &&& all_deleted ==> run.deleted == run.added && run.store.all_time_total()
                == store.all_time_total()
        },
        AggregationView::Deleting(past) => {
            let date = days[past.current].date;
            &&& past.wf() && past.days == days && past.today_start == today_start
            &&& run.action == past.worded(past.deletion())
            &&& run.added.contains(date) && !run.deleted.contains(date)
            &&& forall|other: Seq<char>| #[trigger]
                run.added.contains(other) ==> among(other, days, past.current + 1)
            &&& all_deleted ==> run.deleted.insert(date) == run.added && run.store.all_time_total()
                == store.all_time_total() + days[past.current].count
        },
        AggregationView::Closed => {
            &&& run.action is Finish
            &&& all_deleted ==> run.deleted == run.added && run.store.all_time_total()
                == store.all_time_total()
        },
        AggregationView::Groups { .. } => false,
    }
    &&& run.deleted.subset_of(run.added)
    &&& run.store.log == without_days(store.log, today_start as int, run.deleted)
    &&& forall|date: Seq<char>| #[trigger]
        total_on(run.store.daily, date) == total_on(store.daily, date) + if run.added.contains(
            date,
        ) {
            visits_on(store.log, today_start as int, date)
        } else {
            0
        }
}

proof fn lemma_turn(
    run: AggregationRun,
    store: VisitStore,
    today_start: i64,
    days: Seq<DayCountView>,
    all_deleted: bool,
    succeeded: bool,
)
    requires
        are_days(days, store.log, today_start as int),
        stays_true(run, store, today_start, days, all_deleted),
    ensures
        stays_true(
            run.turn(succeeded),
            store,
            today_start,
            days,
            all_deleted && (run.deletes() ==> succeeded),
        ),
{
    let before = today_start as int;
    let next = run.turn(succeeded);
    match run.work {
        AggregationView::Adding(past) => {
            let date = days[past.current].date;
            let count = days[past.current].count as int;
            assert(!run.added.contains(date)) by {
                if run.added.contains(date) {
                    assert(among(date, days, past.current));
                    let i = choose|i: int| 0 <= i < past.current && (#[trigger] days[i]).date == date;
                    assert(days[i].date != days[past.current].date);
                }
            }
            assert forall|other: Seq<char>| among(other, days, past.current) implies among(
                other,
                days,
                past.current + 1,
            ) by {
                let i = choose|i: int| 0 <= i < past.current && (#[trigger] days[i]).date == other;
                assert(days[i].date == other);
            }
            if succeeded {
                assert(among(date, days, past.current + 1)) by {
                    assert(days[past.current].date == date);
                }
                lemma_added(run.store.daily, date, count, date);
                assert forall|other: Seq<char>| #[trigger]
                    total_on(next.store.daily, other) == total_on(store.daily, other)
                        + if next.added.contains(other) {
                        visits_on(store.log, before, other)
                    } else {
                        0
                    } by {
                    lemma_added(run.store.daily, date, count, other);
                    assert(total_on(run.store.daily, other) == total_on(store.daily, other)
                        + if run.added.contains(other) {
                        visits_on(store.log, before, other)
                    } else {
                        0
                    });
                }
                if all_deleted {
                    assert(run.deleted.insert(date) =~= next.added);
                }
            }
        },
        AggregationView::Deleting(past) => {
            let date = days[past.current].date;
            if succeeded {
                lemma_without_days(store.log, before, run.deleted, date, 0);
                lemma_without_days(run.store.log, before, run.deleted, date, 0);
            }
        },
        _ => {},
    }
}

proof fn lemma_run(
    start: AggregationRun,
    store: VisitStore,
    today_start: i64,
    days: Seq<DayCountView>,
    outcomes: Seq<bool>,
)
    requires
        are_days(days, store.log, today_start as int),
        stays_true(start, store, today_start, days, true),
    ensures
        stays_true(
            start.ran(outcomes),
            store,
            today_start,
            days,
            start.deletions_succeed(outcomes),
        ),
    decreases outcomes.len(),
{
    if outcomes.len() > 0 {
        let earlier = outcomes.drop_last();
        lemma_run(start, store, today_start, days, earlier);
        lemma_turn(
            start.ran(earlier),
            store,
            today_start,
            days,
            start.deletions_succeed(earlier),
            outcomes.last(),
        );
    }
}

proof fn lemma_runs_stay_true(
    backend: AggregationBackend,
    today_start: i64,
    rows: Seq<GroupRowView>,
    groups: Seq<DayTotal>,
    store: VisitStore,
    outcomes: Seq<bool>,
)
    requires
        tell(rows, groups),
        is_grouping(groups, store.log, today_start as int),
    ensures
        ({
            let start = AggregationRun::started(backend, today_start, rows, store);
            stays_true(
                start.ran(outcomes),
                store,
                today_start,
                readable(rows),
                start.deletions_succeed(outcomes),
            )
        }),
{
    let start = AggregationRun::started(backend, today_start, rows, store);
    lemma_are_days(rows, groups, store.log, today_start as int);
    lemma_without_days(store.log, today_start as int, Set::empty(), Seq::empty(), 0);
    lemma_run(start, store, today_start, readable(rows), outcomes);
}

/// What becomes of the past days, whichever rows can be read and whichever changes succeed: the
/// visits of exactly the added days come to the totals, each day's visits to its own total, and the
/// visits of exactly the deleted days leave the log. Only added days are deleted, and where every
/// deletion succeeds, each added day is, once its deletion is no longer to be made.
pub proof fn law_added_days_move_to_the_totals(
    backend: AggregationBackend,
    today_start: i64,
    rows: Seq<GroupRowView>,
    groups: Seq<DayTotal>,
    store: VisitStore,
    outcomes: Seq<bool>,
    date: Seq<char>,
)
    requires
        tell(rows, groups),
        is_grouping(groups, store.log, today_start as int),
    ensures
        ({
            let start = AggregationRun::started(backend, today_start, rows, store);
            let end = start.ran(outcomes);
            &&& end.store.log == without_days(store.log, today_start as int, end.deleted)
            &&& total_on(end.store.daily, date) == total_on(store.daily, date)
                + if end.added.contains(date) {
                visits_on(store.log, today_start as int, date)
            } else {
                0
            }
            &&& end.deleted.subset_of(end.added)
            &&& start.deletions_succeed(outcomes) && !end.deletes() ==> end.deleted == end.added
        }),
{
    lemma_runs_stay_true(backend, today_start, rows, groups, store, outcomes);
}

/// No visit gets lost and none is counted twice when past days become daily totals, whichever rows
/// can be read and whichever additions succeed, where the deletions succeed: whenever no deletion is
/// to be made, there are as many visits of all time as before.
pub proof fn law_aggregation_keeps_all_visits(
    backend: AggregationBackend,
    today_start: i64,
    rows: Seq<GroupRowView>,
    groups: Seq<DayTotal>,
    store: VisitStore,
    outcomes: Seq<bool>,
)
    requires
        tell(rows, groups),
        is_grouping(groups, store.log, today_start as int),
        AggregationRun::started(backend, today_start, rows, store).deletions_succeed(outcomes),
        !AggregationRun::started(backend, today_start, rows, store).ran(outcomes).deletes(),
    ensures
        AggregationRun::started(backend, today_start, rows, store).ran(
            outcomes,
        ).store.all_time_total() == store.all_time_total(),
{
    lemma_runs_stay_true(backend, today_start, rows, groups, store, outcomes);
}

/// Whatever succeeds or fails, a visit of a day that was not added is still in the log, and so is a
/// visit of today.
pub proof fn law_visits_that_were_not_added_stay(
    backend: AggregationBackend,
    today_start: i64,
    rows: Seq<GroupRowView>,
    groups: Seq<DayTotal>,
    store: VisitStore,
    outcomes: Seq<bool>,
    visit: Visit,
)
    requires
        tell(rows, groups),
        is_grouping(groups, store.log, today_start as int),
        store.log.contains(visit),
        visit.at >= today_start || !AggregationRun::started(backend, today_start, rows, store).ran(
            outcomes,
        ).added.contains(visit.date),
    ensures
        AggregationRun::started(backend, today_start, rows, store).ran(
            outcomes,
        ).store.log.contains(visit),
{
    lemma_runs_stay_true(backend, today_start, rows, groups, store, outcomes);
    let end = AggregationRun::started(backend, today_start, rows, store).ran(outcomes);
    lemma_other_visits_stay(store.log, today_start as int, end.deleted, visit);
}

/// Whatever succeeds or fails, today's visits are as many as before.
pub proof fn law_aggregation_keeps_today(
    backend: AggregationBackend,
    today_start: i64,
    rows: Seq<GroupRowView>,
    groups: Seq<DayTotal>,
    store: VisitStore,
    outcomes: Seq<bool>,
)
    requires
        tell(rows, groups),
        is_grouping(groups, store.log, today_start as int),
    ensures
        visits_since(
            AggregationRun::started(backend, today_start, rows, store).ran(outcomes).store.log,
            today_start as int,
        ) == visits_since(store.log, today_start as int),
{
    lemma_runs_stay_true(backend, today_start, rows, groups, store, outcomes);
    let end = AggregationRun::started(backend, today_start, rows, store).ran(outcomes);
    lemma_without_days(
        store.log,
        today_start as int,
        end.deleted,
        Seq::empty(),
        today_start as int,
    );
}

/// A day that was deleted from the log is not added again: it is none of the days that are found the
/// next time.
pub proof fn law_no_day_is_added_twice(
    backend: AggregationBackend,
    today_start: i64,
    rows: Seq<GroupRowView>,
    groups: Seq<DayTotal>,
    store: VisitStore,
    outcomes: Seq<bool>,
    groups_after: Seq<DayTotal>,
    i: int,
)
    requires
        tell(rows, groups),
        is_grouping(groups, store.log, today_start as int),
        is_grouping(
            groups_after,
            AggregationRun::started(backend, today_start, rows, store).ran(outcomes).store.log,
            today_start as int,
        ),
        0 <= i < groups_after.len(),
    ensures
        !AggregationRun::started(backend, today_start, rows, store).ran(outcomes).deleted.contains(
            groups_after[i].date,
        ),
{
    lemma_runs_stay_true(backend, today_start, rows, groups, store, outcomes);
    let end = AggregationRun::started(backend, today_start, rows, store).ran(outcomes);
    let date = groups_after[i].date;
    lemma_total_of_present(groups_after, i);
    assert(total_on(groups_after, date) == visits_on(end.store.log, today_start as int, date));
    lemma_without_days(store.log, today_start as int, end.deleted, date, 0);
}

/// Whether every row could be read.
pub open spec fn all_readable(rows: Seq<GroupRowView>) -> bool {
    forall|i: int|
        0 <= i < rows.len() ==> (#[trigger] rows[i]).date is Some && rows[i].count is Some
}

/// Whether every change succeeds.
pub open spec fn all_succeed(outcomes: Seq<bool>) -> bool {
    forall|i: int| 0 <= i < outcomes.len() ==> #[trigger] outcomes[i]
}

proof fn lemma_all_readable(rows: Seq<GroupRowView>, groups: Seq<DayTotal>)
    requires
        tell(rows, groups),
        all_readable(rows),
    ensures
        readable(rows).len() == rows.len(),
        forall|i: int|
            0 <= i < rows.len() ==> (#[trigger] readable(rows)[i]).date == groups[i].date,
    decreases rows.len(),
{
    if rows.len() > 0 {
        let earlier = rows.drop_last();
        let front = groups.drop_last();
        assert(forall|i: int| 0 <= i < earlier.len() ==> #[trigger] earlier[i] == rows[i]);
        assert(forall|i: int| 0 <= i < front.len() ==> #[trigger] front[i] == groups[i]);
        lemma_all_readable(earlier, front);
        assert(rows[rows.len() - 1].date is Some);
        let days = readable(rows);
        assert forall|i: int| 0 <= i < rows.len() implies (#[trigger] days[i]).date
            == groups[i].date by {
            if i < earlier.len() {
                assert(days[i] == readable(earlier)[i]);
                assert(readable(earlier)[i].date == front[i].date);
            }
        }
    }
}

/// Where every change succeeds, two changes are made for each day, one day after the other.
proof fn lemma_all_succeed(
    past: PastDaysView,
    start: AggregationRun,
    outcomes: Seq<bool>,
)
    requires
        past.current == 0,
        (start.work, start.action) == past.begun(),
        start.added == Set::<Seq<char>>::empty(),
        all_succeed(outcomes),
    ensures
        start.deletions_succeed(outcomes),
        ({
            let run = start.ran(outcomes);
            let k = outcomes.len() as int / 2;
            if outcomes.len() >= 2 * past.days.len() {
                &&& run.work == AggregationView::Closed
                &&& run.action is Finish
                &&& forall|date: Seq<char>|
                    run.added.contains(date) == #[trigger] among(
                        date,
                        past.days,
                        past.days.len() as int,
                    )
            } else if outcomes.len() as int % 2 == 0 {
                &&& (run.work, run.action) == past.at(k).begun()
                &&& forall|date: Seq<char>|
                    run.added.contains(date) == #[trigger] among(date, past.days, k)
            } else {
                &&& run.work == AggregationView::Deleting(past.at(k))
                &&& run.action == past.at(k).worded(past.at(k).deletion())
                &&& forall|date: Seq<char>|
                    run.added.contains(date) == #[trigger] among(date, past.days, k + 1)
            }
        }),
    decreases outcomes.len(),
{
    if outcomes.len() > 0 {
        let earlier = outcomes.drop_last();
        assert(forall|i: int| 0 <= i < earlier.len() ==> #[trigger] earlier[i] == outcomes[i]);
        lemma_all_succeed(past, start, earlier);
        assert(outcomes[outcomes.len() - 1]);
        let before = start.ran(earlier);
        let k = earlier.len() as int / 2;
        if earlier.len() < 2 * past.days.len() && earlier.len() as int % 2 == 0 {
            let date = past.days[k].date;
            let run = start.ran(outcomes);
            assert forall|other: Seq<char>|
                run.added.contains(other) == #[trigger] among(other, past.days, k + 1) by {
                assert(before.added.contains(other) == among(other, past.days, k));
                if among(other, past.days, k) {
                    let i = choose|i: int| 0 <= i < k && (#[trigger] past.days[i]).date == other;
                    assert(past.days[i].date == other);
                }
                if among(other, past.days, k + 1) && other != date {
                    let i = choose|i: int|
                        0 <= i < k + 1 && (#[trigger] past.days[i]).date == other;
                    assert(past.days[i].date == other);
                }
                if other == date {
                    assert(past.days[k].date == other);
                }
            }
        }
    }
}

proof fn lemma_old_visit_has_its_date(log: Seq<Visit>, before: int, i: int)
    requires
        0 <= i < log.len(),
        log[i].at < before,
    ensures
        visits_on(log, before, log[i].date) > 0,
    decreases log.len(),
{
    let date = log[i].date;
    if i < log.len() - 1 {
        assert(log.drop_last()[i] == log[i]);
        lemma_old_visit_has_its_date(log.drop_last(), before, i);
    } else {
        lemma_visits_on_bounds(log.drop_last(), before, date);
    }
}

proof fn lemma_visits_on_bounds(log: Seq<Visit>, before: int, date: Seq<char>)
    ensures
        0 <= visits_on(log, before, date),
    decreases log.len(),
{
    if log.len() > 0 {
        lemma_visits_on_bounds(log.drop_last(), before, date);
    }
}

proof fn lemma_without_all_days(
    log: Seq<Visit>,
    before: int,
    dates: Set<Seq<char>>,
    date: Seq<char>,
)
    requires
        forall|i: int|
            0 <= i < log.len() && (#[trigger] log[i]).at < before ==> dates.contains(log[i].date),
    ensures
        without_days(log, before, dates) == log_since(log, before),
        visits_on(log_since(log, before), before, date) == 0,
    decreases log.len(),
{
    if log.len() > 0 {
        let front = log.drop_last();
        assert(forall|i: int| 0 <= i < front.len() ==> #[trigger] front[i] == log[i]);
        lemma_without_all_days(front, before, dates, date);
        assert(log[log.len() - 1] == log.last());
        let rest = log_since(front, before);
        assert(rest.push(log.last()).drop_last() =~= rest);
    }
}

/// Where every row can be read and every change succeeds, all past days become daily totals: the
/// work comes to its end, the log keeps exactly the visits of today, the total of every date grows by
/// its past visits, and a second run on the same day finds no row and has nothing to do.
pub proof fn law_all_past_days_become_totals(
    backend: AggregationBackend,
    today_start: i64,
    rows: Seq<GroupRowView>,
    groups: Seq<DayTotal>,
    store: VisitStore,
    outcomes: Seq<bool>,
    date: Seq<char>,
    rows_after: Seq<GroupRowView>,
    groups_after: Seq<DayTotal>,
)
    requires
        tell(rows, groups),
        is_grouping(groups, store.log, today_start as int),
        all_readable(rows),
        all_succeed(outcomes),
        outcomes.len() >= 2 * rows.len(),
        tell(rows_after, groups_after),
        is_grouping(
            groups_after,
            AggregationRun::started(backend, today_start, rows, store).ran(outcomes).store.log,
            today_start as int,
        ),
    ensures
        ({
            let end = AggregationRun::started(backend, today_start, rows, store).ran(outcomes);
            &&& end.action is Finish
            &&& end.store.log == log_since(store.log, today_start as int)
            &&& total_on(end.store.daily, date) == total_on(store.daily, date) + visits_on(
                store.log,
                today_start as int,
                date,
            )
            &&& rows_after.len() == 0
            &&& AggregationRun::started(
                backend,
                today_start,
                rows_after,
                end.store,
            ).action is Finish
        }),
{
    let before = today_start as int;
    let start = AggregationRun::started(backend, today_start, rows, store);
    let end = start.ran(outcomes);
    let days = readable(rows);
    lemma_all_readable(rows, groups);
    lemma_all_succeed(
        PastDaysView { backend, today_start, days, current: 0 },
        start,
        outcomes,
    );
    law_added_days_move_to_the_totals(backend, today_start, rows, groups, store, outcomes, date);
    assert forall|other: Seq<char>| visits_on(store.log, before, other) != 0 implies
        end.added.contains(other) by {
        assert(total_on(groups, other) == visits_on(store.log, before, other));
        if !among(other, days, days.len() as int) {
            assert forall|i: int| 0 <= i < groups.len() implies (#[trigger] groups[i]).date
                != other by {
                assert(days[i].date == groups[i].date);
            }
            lemma_total_of_absent(groups, other);
        }
        assert(end.added.contains(other) == among(other, days, days.len() as int));
    }
    assert forall|i: int|
        0 <= i < store.log.len() && (#[trigger] store.log[i]).at
            < before implies end.deleted.contains(store.log[i].date) by {
        lemma_old_visit_has_its_date(store.log, before, i);
    }
    lemma_without_all_days(store.log, before, end.deleted, date);
    if groups_after.len() > 0 {
        let other = groups_after[0].date;
        lemma_total_of_present(groups_after, 0);
        assert(total_on(groups_after, other) == visits_on(end.store.log, before, other));
        lemma_without_all_days(store.log, before, end.deleted, other);
    }
}

/// A visit has yesterday's date exactly if it lies between yesterday's first second and today's.
proof fn lemma_date_of_yesterday(visit: Visit, today_start: int)
    requires
        is_date_text_of(visit.date, day_of(visit.at)),
        today_start % 86_400 == 0,
        in_calendar(today_start - DAY_SECONDS),
    ensures
        visit.date == date_string(today_start - DAY_SECONDS) <==> today_start - DAY_SECONDS
            <= visit.at < today_start,
{
    let yesterday = today_start - DAY_SECONDS;
    law_every_day_has_a_date(day_of(yesterday));
    assert(is_date_text_of(date_string(yesterday), day_of(yesterday)));
    law_dates_tell_days_apart(
        visit.date,
        day_of(visit.at),
        date_string(yesterday),
        day_of(yesterday),
    );
}

/// The visits with yesterday's date are the visits from yesterday's first second to today's, and
/// they leave the log with that date.
proof fn lemma_yesterday_by_date(log: Seq<Visit>, today_start: int, dates: Set<Seq<char>>)
    requires
        (VisitStore { log, daily: Seq::empty() }).wf(),
        today_start % 86_400 == 0,
        in_calendar(today_start - DAY_SECONDS),
    ensures
        ({
            let yesterday = today_start - DAY_SECONDS;
            let window = visits_between(log, yesterday, today_start);
            &&& visits_on(log, today_start, date_string(yesterday)) == window
            &&& visits_between(without_days(log, today_start, dates), yesterday, today_start)
                == if dates.contains(date_string(yesterday)) {
                0
            } else {
                window
            }
        }),
    decreases log.len(),
{
    if log.len() > 0 {
        let front = log.drop_last();
        let store = VisitStore { log, daily: Seq::<DayTotal>::empty() };
        assert((VisitStore { log: front, daily: Seq::<DayTotal>::empty() }).wf()) by {
            assert forall|i: int| 0 <= i < front.len() implies is_date_text_of(
                (#[trigger] front[i]).date,
                day_of(front[i].at),
            ) by {
                assert(front[i] == store.log[i]);
            }
        }
        lemma_yesterday_by_date(front, today_start, dates);
        let last = store.log[log.len() - 1];
        lemma_date_of_yesterday(last, today_start);
        let rest = without_days(front, today_start, dates);
        assert(rest.push(last).drop_last() =~= rest);
    }
}

/// Yesterday's visits are as many as before when past days become daily totals, whichever rows can
/// be read and whichever additions succeed, where the deletions succeed: if yesterday had no total
/// yet or has no visit left in the log.
pub proof fn law_aggregation_keeps_yesterday(
    backend: AggregationBackend,
    today_start: i64,
    rows: Seq<GroupRowView>,
    groups: Seq<DayTotal>,
    store: VisitStore,
    outcomes: Seq<bool>,
)
    requires
        store.wf(),
        tell(rows, groups),
        is_grouping(groups, store.log, today_start as int),
        AggregationRun::started(backend, today_start, rows, store).deletions_succeed(outcomes),
        !AggregationRun::started(backend, today_start, rows, store).ran(outcomes).deletes(),
        today_start as int % 86_400 == 0,
        in_calendar(today_start - DAY_SECONDS),
        total_on(store.daily, date_string(today_start - DAY_SECONDS)) == 0 || visits_between(
            store.log,
            today_start - DAY_SECONDS,
            today_start as int,
        ) == 0,
    ensures
        AggregationRun::started(backend, today_start, rows, store).ran(
            outcomes,
        ).store.yesterday_total(today_start as int) == store.yesterday_total(today_start as int),
{
    let yesterday = today_start - DAY_SECONDS;
    let end = AggregationRun::started(backend, today_start, rows, store).ran(outcomes);
    law_added_days_move_to_the_totals(
        backend,
        today_start,
        rows,
        groups,
        store,
        outcomes,
        date_string(yesterday),
    );
    lemma_yesterday_by_date(store.log, today_start as int, end.deleted);
    lemma_between_bounds(store.log, yesterday, today_start as int);
}

proof fn lemma_between_bounds(log: Seq<Visit>, from: int, to: int)
    ensures
        0 <= visits_between(log, from, to),
    decreases log.len(),
{
    if log.len() > 0 {
        lemma_between_bounds(log.drop_last(), from, to);
    }
}

/// A visit counts once: it is one more of all time, one more of today, and none more of yesterday,
/// if it is recorded and counted on one day.
pub proof fn law_a_visit_counts_once(store: VisitStore, visit: Visit, today_start: int)
    requires
        day_start(visit.at) == today_start,
    ensures
        ({
            let after = VisitStore { log: store.log.push(visit), ..store };
            &&& after.all_time_total() == store.all_time_total() + 1
            &&& visits_since(after.log, today_start) == visits_since(store.log, today_start) + 1
            &&& after.yesterday_total(today_start) == store.yesterday_total(today_start)
        }),
{
    assert(store.log.push(visit).drop_last() =~= store.log);
}

/// The event of a question that the database answers.
pub open spec fn answered(store: VisitStore, query: CountQueryView) -> VisitEventView {
    VisitEventView::Counted(CountOutcome::Row(Some(store.answer(query) as i64)))
}

/// The request after the database answered the question that it asked, if it asked one.
pub open spec fn asked(
    store: VisitStore,
    state: (VisitHandlerView, VisitActionView),
) -> (VisitHandlerView, VisitActionView) {
    match state.1 {
        VisitActionView::Count(query) => state.0.after(answered(store, query)),
        _ => state,
    }
}

proof fn lemma_visits_are_counted_up(log: Seq<Visit>, from: int, to: int)
    ensures
        0 <= visits_between(log, from, to) <= log.len(),
    decreases log.len(),
{
    if log.len() > 0 {
        lemma_visits_are_counted_up(log.drop_last(), from, to);
    }
}

/// A visitor is told what the database holds: today's visits as the rank and the total, all visits
/// of all time, and yesterday's visits.
pub proof fn law_answer_tells_the_store(store: VisitStore, today_start: i64)
    requires
        i64::MIN <= today_start - DAY_SECONDS,
        i64::MIN <= visits_since(store.log, today_start as int) <= i64::MAX,
        i64::MIN <= sum_of(store.daily) <= i64::MAX,
        store.log.len() <= i64::MAX,
        i64::MIN <= store.all_time_total() <= i64::MAX,
        i64::MIN <= total_on(
            store.daily,
            date_string(today_start - DAY_SECONDS),
        ) <= i64::MAX,
    ensures
        ({
            let start = VisitHandlerView::Insert.after(VisitEventView::Inserted { today_start });
            asked(store, asked(store, asked(store, asked(store, asked(store, start))))) == (
                VisitHandlerView::Write,
                VisitActionView::WriteStats(
                    stats_of(
                        visits_since(store.log, today_start as int) as i64,
                        store.all_time_total() as i64,
                        store.yesterday_total(today_start as int) as i64,
                    ),
                ),
            )
        }),
        ({
            let start = VisitHandlerView::Insert.after(VisitEventView::Inserted { today_start });
            let told = asked(store, asked(store, asked(store, asked(store, asked(store, start)))));
            let daily = total_on(store.daily, date_string(today_start - 86_400));
            &&& told.1 matches VisitActionView::WriteStats(stats)
            &&& stats.today_rank == visits_since(store.log, today_start as int)
            &&& stats.today_total == visits_since(store.log, today_start as int)
            &&& stats.all_time_total == sum_of(store.daily) + store.log.len()
            &&& daily > 0 ==> stats.yesterday_total == daily
            &&& daily <= 0 ==> stats.yesterday_total == visits_between(
                store.log,
                today_start - 86_400,
                today_start as int,
            )
        }),
{
    lemma_visits_are_counted_up(store.log, today_start - 86_400, today_start as int);
}

/// Whatever the changes come to, every change that a run asks for is in the words of the database that
/// the run is on: in PostgreSQL an addition names the table of the total that it adds to, and in SQLite
/// it does not; a deletion is up to the start of the day that the run was started on.
pub proof fn law_run_speaks_to_its_database(
    backend: AggregationBackend,
    today_start: i64,
    rows: Seq<GroupRowView>,
    store: VisitStore,
    outcomes: Seq<bool>,
)
    ensures
        match AggregationRun::started(backend, today_start, rows, store).ran(outcomes).work {
            AggregationView::Adding(past) => past.backend == backend && past.today_start
                == today_start && past.wf(),
            AggregationView::Deleting(past) => past.backend == backend && past.today_start
                == today_start && past.wf(),
            AggregationView::Groups { .. } => false,
            AggregationView::Closed => true,
        },
        match AggregationRun::started(backend, today_start, rows, store).ran(outcomes).action {
            AggregationActionView::Execute {
                step: AggregationStepView::AddToDay { date, count },
                sql,
            } => sql == "INSERT INTO visit_daily_stats (date, total_count) VALUES ('"@ + date
                + "', "@ + int_text(count as int) + if backend == AggregationBackend::Postgres {
                ") ON CONFLICT (date) DO UPDATE SET total_count = visit_daily_stats.total_count + EXCLUDED.total_count"@
            } else {
                ") ON CONFLICT(date) DO UPDATE SET total_count = total_count + excluded.total_count"@
            },
            AggregationActionView::Execute {
                step: AggregationStepView::DeleteDay { date, before },
                sql,
            } => before == today_start && sql == "DELETE FROM visit_log WHERE visited_at < "@
                + int_text(today_start as int) + " AND "@ + (if backend
                == AggregationBackend::Postgres {
                "TO_CHAR(TO_TIMESTAMP(visited_at) AT TIME ZONE 'UTC', 'YYYY-MM-DD')"@
            } else {
                "strftime('%Y-%m-%d', datetime(visited_at, 'unixepoch'))"@
            }) + " = '"@ + date + "'"@,
            AggregationActionView::QueryGroups(_) => false,
            AggregationActionView::Finish => true,
            AggregationActionView::Ignore => false,
        },
    decreases outcomes.len(),
{
    let start = AggregationRun::started(backend, today_start, rows, store);
    if outcomes.len() == 0 {
        law_changes_are_worded_for_the_database(
            AggregationView::Groups { backend, today_start },
            AggregationEventView::Groups(rows),
            backend,
            today_start,
        );
    } else {
        law_run_speaks_to_its_database(backend, today_start, rows, store, outcomes.drop_last());
        let before = start.ran(outcomes.drop_last());
        let event = AggregationEventView::Executed { succeeded: outcomes.last() };
        if before.work is Adding || before.work is Deleting {
            law_changes_are_worded_for_the_database(before.work, event, backend, today_start);
        }
    }
}

} // verus!
