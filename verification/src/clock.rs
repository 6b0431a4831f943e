//! Days, dates and the present moment, in UTC.
use crate::text::{digit_char, lemma_numbers_differ, nat_text};
use chrono::TimeZone;
use vstd::arithmetic::div_mod::{lemma_fundamental_div_mod, lemma_fundamental_div_mod_converse};
use vstd::prelude::*;
use vstd::string::*;

verus! {

/// The seconds of a day.
pub const DAY_SECONDS: i64 = 86_400;

/// The moments, in seconds since 1970, that the calendar of `chrono` reaches: the years from
/// -262143 to 262142.
pub open spec fn in_calendar(ts: int) -> bool {
    -8_334_601_228_800 <= ts <= 8_210_266_876_799
}

/// The days from the first day of 1970 to the day of `ts`.
pub open spec fn day_of(ts: int) -> int {
    ts / 86_400
}

/// The first second of the day of `ts`.
pub open spec fn day_start(ts: int) -> int {
    ts - ts % 86_400
}

/// Whether there is such a time of day.
pub open spec fn is_time_of_day(hour: u32, minute: u32, second: u32) -> bool {
    &&& hour < 24
    &&& minute < 60
    &&& second < 60
}

/// Whether `y` has a 29th of February.
pub open spec fn is_leap_year(y: int) -> bool {
    y % 4 == 0 && (y % 100 != 0 || y % 400 == 0)
}

/// The days of a month.
pub open spec fn days_in_month(y: int, m: int) -> int {
    if m == 2 {
        if is_leap_year(y) {
            29
        } else {
            28
        }
    } else if m == 4 || m == 6 || m == 9 || m == 11 {
        30
    } else {
        31
    }
}

/// The days of the year `y` before its month `m`.
pub open spec fn days_before_month(y: int, m: int) -> int
    decreases m,
{
    if m <= 1 {
        0
    } else {
        days_before_month(y, m - 1) + days_in_month(y, m - 1)
    }
}

/// The days from the first day of the year 1 to the first day of the year `y`.
pub open spec fn days_before_year(y: int) -> int {
    365 * (y - 1) + (y - 1) / 4 - (y - 1) / 100 + (y - 1) / 400
}

/// Whether there is such a date.
pub open spec fn is_date(y: int, m: int, d: int) -> bool {
    1 <= m <= 12 && 1 <= d <= days_in_month(y, m)
}

/// The days from the first day of 1970 to the date.
pub open spec fn day_number(y: int, m: int, d: int) -> int {
    days_before_year(y) + days_before_month(y, m) + d - 1 - 719_162
}

/// Two digits.
pub open spec fn two_digits(n: int) -> Seq<char> {
    seq![digit_char(n / 10), digit_char(n % 10)]
}

/// Four digits.
pub open spec fn four_digits(n: int) -> Seq<char> {
    two_digits(n / 100) + two_digits(n % 100)
}

/// A year: four digits, and a sign and as many digits as it takes outside of 0 to 9999.
pub open spec fn year_text(y: int) -> Seq<char> {
    if y < -9_999 {
        seq!['-'] + nat_text((-y) as nat)
    } else if y < 0 {
        seq!['-'] + four_digits(-y)
    } else if y <= 9_999 {
        four_digits(y)
    } else {
        seq!['+'] + nat_text(y as nat)
    }
}

/// A date, written year-month-day.
pub open spec fn date_text(y: int, m: int, d: int) -> Seq<char> {
    year_text(y) + seq!['-'] + two_digits(m) + seq!['-'] + two_digits(d)
}

/// Whether `s` is the written date of the day with the number `day`.
pub open spec fn is_date_text_of(s: Seq<char>, day: int) -> bool {
    exists|y: int, m: int, d: int|
        #[trigger] is_date(y, m, d) && day_number(y, m, d) == day && s == date_text(y, m, d)
}

/// The written date of the day of `ts`; that of the first day of 1970 for a moment that the calendar
/// does not reach.
pub open spec fn date_string(ts: int) -> Seq<char> {
    if in_calendar(ts) {
        choose|s: Seq<char>| is_date_text_of(s, day_of(ts))
    } else {
        "1970-01-01"@
    }
}

/// `chrono::Utc::now` and `DateTime::timestamp`: the present moment in whole seconds since 1970.
/// Which moment comes back is open; it lies in the calendar, and not before 1970.
#[verifier::external_body]
pub(crate) fn now_seconds() -> (ts: i64)
    ensures
        0 <= ts,
        in_calendar(ts as int),
{
    chrono::Utc::now().timestamp()
}

/// `chrono::Utc::now` and `DateTime::timestamp_millis`: the present moment in milliseconds since
/// 1970. Which moment comes back is open; it lies in the calendar, and not before 1970.
#[verifier::external_body]
pub(crate) fn now_milliseconds() -> (ms: i64)
    ensures
        0 <= ms,
        in_calendar(ms as int / 1000),
{
    chrono::Utc::now().timestamp_millis()
}

/// `NaiveDate::and_hms_opt` of `chrono` on the date of the moment `ts`: the moment of that date at
/// the given time of day, if `ts` lies in the calendar and there is such a time of day.
#[verifier::external_body]
pub(crate) fn at_time_of_day(ts: i64, hour: u32, minute: u32, second: u32) -> (r: Option<i64>)
    ensures
        r is Some == (in_calendar(ts as int) && is_time_of_day(hour, minute, second)),
        r is Some ==> r->0 == day_start(ts as int) + hour * 3600 + minute * 60 + second,
{
    chrono::DateTime::from_timestamp(ts, 0).and_then(
        |moment| moment.date_naive().and_hms_opt(hour, minute, second),
    ).map(|moment| moment.and_utc().timestamp())
}

/// `TimeZone::timestamp_opt` of `chrono::Utc` and `DateTime::format` with the pattern of a date:
/// the written date of the day of `ts`, if `ts` lies in the calendar.
#[verifier::external_body]
pub(crate) fn format_date(ts: i64, pattern: &str) -> (r: Option<String>)
    requires
        pattern@ == "%Y-%m-%d"@,
    ensures
        r is Some <==> in_calendar(ts as int),
        r matches Some(s) ==> is_date_text_of(s@, day_of(ts as int)),
{
    chrono::Utc.timestamp_opt(ts, 0).single().map(|moment| moment.format(pattern).to_string())
}

/// The first second of the UTC day of `ts`.
pub fn utc_day_start(ts: i64) -> (start: i64)
    requires
        in_calendar(ts as int),
    ensures
        start == day_start(ts as int),
{
    match at_time_of_day(ts, 0, 0, 0) {
        Some(start) => start,
        None => ts,
    }
}

/// The first second of the present UTC day.
pub fn today_utc_start_ts() -> (start: i64)
    ensures
        0 <= start,
        in_calendar(start as int),
        start as int % 86_400 == 0,
{
    utc_day_start(now_seconds())
}

/// The date of the UTC day of `ts`, written year-month-day; the first day of 1970 for a moment
/// that the calendar does not reach.
pub fn ts_to_date_str(ts: i64) -> (date: String)
    ensures
        date@ == date_string(ts as int),
        in_calendar(ts as int) ==> is_date_text_of(date@, day_of(ts as int)),
{
    match format_date(ts, "%Y-%m-%d") {
        Some(date) => {
            proof {
                law_dates_tell_days_apart(
                    date@,
                    day_of(ts as int),
                    date_string(ts as int),
                    day_of(ts as int),
                );
            }
            date
        },
        None => "1970-01-01".to_owned(),
    }
}

/// A quotient steps up exactly at the multiples of the divisor.
proof fn lemma_quotient_steps(n: int, d: int)
    requires
        d > 1,
    ensures
        n / d == (n - 1) / d + if n % d == 0 {
            1int
        } else {
            0
        },
{
    lemma_fundamental_div_mod(n, d);
    let q = n / d;
    if n % d == 0 {
        assert(n - 1 == (q - 1) * d + (d - 1)) by (nonlinear_arith)
            requires
                n == d * q,
        ;
        lemma_fundamental_div_mod_converse(n - 1, d, q - 1, d - 1);
    } else {
        assert(n - 1 == q * d + (n % d - 1)) by (nonlinear_arith)
            requires
                n == d * q + n % d,
        ;
        lemma_fundamental_div_mod_converse(n - 1, d, q, n % d - 1);
    }
}

proof fn lemma_year_steps(y: int)
    ensures
        days_before_year(y + 1) == days_before_year(y) + 365 + if is_leap_year(y) {
            1int
        } else {
            0
        },
{
    lemma_quotient_steps(y, 4);
    lemma_quotient_steps(y, 100);
    lemma_quotient_steps(y, 400);
}

proof fn lemma_years_grow(y1: int, y2: int)
    requires
        y1 <= y2,
    ensures
        days_before_year(y1) <= days_before_year(y2),
    decreases y2 - y1,
{
    if y1 < y2 {
        lemma_years_grow(y1, y2 - 1);
        lemma_year_steps(y2 - 1);
    }
}

proof fn lemma_month_bounds(y: int, m: int, d: int)
    requires
        is_date(y, m, d),
    ensures
        1 <= days_before_month(y, m) + d <= 365 + if is_leap_year(y) {
            1int
        } else {
            0
        },
{
    reveal_with_fuel(days_before_month, 13);
}

proof fn lemma_months_grow(y: int, m1: int, m2: int)
    requires
        1 <= m1 < m2 <= 12,
    ensures
        days_before_month(y, m1) + days_in_month(y, m1) <= days_before_month(y, m2),
{
    reveal_with_fuel(days_before_month, 13);
}

/// No two dates have the same day number.
pub proof fn law_day_numbers_are_unique(y1: int, m1: int, d1: int, y2: int, m2: int, d2: int)
    requires
        is_date(y1, m1, d1),
        is_date(y2, m2, d2),
        day_number(y1, m1, d1) == day_number(y2, m2, d2),
    ensures
        y1 == y2,
        m1 == m2,
        d1 == d2,
{
    lemma_month_bounds(y1, m1, d1);
    lemma_month_bounds(y2, m2, d2);
    lemma_year_steps(y1);
    lemma_year_steps(y2);
    if y1 < y2 {
        lemma_years_grow(y1 + 1, y2);
    } else if y2 < y1 {
        lemma_years_grow(y2 + 1, y1);
    } else if m1 < m2 {
        lemma_months_grow(y1, m1, m2);
    } else if m2 < m1 {
        lemma_months_grow(y1, m2, m1);
    }
}

/// Two days have the same written date exactly if they are the same day.
pub proof fn law_dates_tell_days_apart(s1: Seq<char>, day1: int, s2: Seq<char>, day2: int)
    requires
        is_date_text_of(s1, day1),
        is_date_text_of(s2, day2),
    ensures
        s1 == s2 <==> day1 == day2,
{
    let (y1, m1, d1) = choose|y: int, m: int, d: int|
        #[trigger] is_date(y, m, d) && day_number(y, m, d) == day1 && s1 == date_text(y, m, d);
    let (y2, m2, d2) = choose|y: int, m: int, d: int|
        #[trigger] is_date(y, m, d) && day_number(y, m, d) == day2 && s2 == date_text(y, m, d);
    if day1 == day2 {
        law_day_numbers_are_unique(y1, m1, d1, y2, m2, d2);
    }
    if s1 == s2 {
        lemma_date_text_parts(y1, m1, d1);
        lemma_date_text_parts(y2, m2, d2);
        lemma_years_differ(y1, y2);
    }
}

/// The year stands before the last six characters of a date, and these tell the month and the day.
proof fn lemma_date_text_parts(y: int, m: int, d: int)
    requires
        is_date(y, m, d),
    ensures
        ({
            let s = date_text(y, m, d);
            let n = s.len() - 6;
            &&& 0 <= n
            &&& s.take(n) == year_text(y)
            &&& s[n + 1] as int == 48 + m / 10
            &&& s[n + 2] as int == 48 + m % 10
            &&& s[n + 4] as int == 48 + d / 10
            &&& s[n + 5] as int == 48 + d % 10
        }),
{
    let s = date_text(y, m, d);
    assert(s.take(s.len() - 6) =~= year_text(y));
}

/// Different years are written differently.
proof fn lemma_years_differ(y1: int, y2: int)
    requires
        year_text(y1) == year_text(y2),
    ensures
        y1 == y2,
{
    lemma_year_text(y1);
    lemma_year_text(y2);
    let t1 = year_text(y1);
    let t2 = year_text(y2);
    if -9_999 <= y1 <= 9_999 && -9_999 <= y2 <= 9_999 {
        let n = t1.len();
        assert(t1[n - 4] == t2[n - 4] && t1[n - 3] == t2[n - 3] && t1[n - 2] == t2[n - 2] && t1[n
            - 1] == t2[n - 1]);
    } else if (y1 > 9_999 && y2 > 9_999) || (y1 < -9_999 && y2 < -9_999) {
        assert(t1.drop_first() == t2.drop_first());
        if y1 > 0 {
            lemma_numbers_differ(y1 as nat, y2 as nat);
        } else {
            lemma_numbers_differ((-y1) as nat, (-y2) as nat);
        }
    }
}

/// How a year is written: its first character, its digits and how many characters there are.
proof fn lemma_year_text(y: int)
    ensures
        year_text(y).len() >= 4,
        y > 9_999 ==> year_text(y)[0] == '+' && year_text(y).len() >= 6 && year_text(
            y,
        ).drop_first() == nat_text(y as nat),
        y < -9_999 ==> year_text(y)[0] == '-' && year_text(y).len() >= 6 && year_text(
            y,
        ).drop_first() == nat_text((-y) as nat),
        -9_999 <= y < 0 ==> year_text(y)[0] == '-' && year_text(y).len() == 5,
        0 <= y <= 9_999 ==> year_text(y).len() == 4,
        -9_999 <= y <= 9_999 ==> {
            let n = year_text(y).len();
            let a = if y < 0 {
                -y
            } else {
                y
            };
            &&& year_text(y)[n - 4] as int == 48 + a / 100 / 10
            &&& year_text(y)[n - 3] as int == 48 + a / 100 % 10
            &&& year_text(y)[n - 2] as int == 48 + a % 100 / 10
            &&& year_text(y)[n - 1] as int == 48 + a % 100 % 10
        },
{
    if y > 9_999 {
        lemma_five_digits(y as nat);
        assert(year_text(y).drop_first() =~= nat_text(y as nat));
    } else if y < -9_999 {
        lemma_five_digits((-y) as nat);
        assert(year_text(y).drop_first() =~= nat_text((-y) as nat));
    }
}

proof fn lemma_five_digits(n: nat)
    requires
        n >= 10_000,
    ensures
        nat_text(n).len() >= 5,
{
    reveal_with_fuel(nat_text, 6);
}

/// The year of the day that comes `n` days after the first day of the year 1, looked for from the
/// year `y` on.
proof fn lemma_year_of(n: int, y: int) -> (r: int)
    ensures
        days_before_year(r) <= n < days_before_year(r + 1),
    decreases
            if n < days_before_year(y) {
                days_before_year(y) - n
            } else {
                n - days_before_year(y)
            },
{
    lemma_year_steps(y);
    lemma_year_steps(y - 1);
    if n < days_before_year(y) {
        if days_before_year(y - 1) <= n {
            y - 1
        } else {
            lemma_year_of(n, y - 1)
        }
    } else if n < days_before_year(y + 1) {
        y
    } else {
        lemma_year_of(n, y + 1)
    }
}

/// The month of the day that comes `k` days after the first day of the year `y`, looked for from
/// the month `m` on.
proof fn lemma_month_of(y: int, k: int, m: int) -> (r: int)
    requires
        1 <= m <= 12,
        days_before_month(y, m) <= k < 365 + if is_leap_year(y) {
            1int
        } else {
            0
        },
    ensures
        1 <= r <= 12,
        days_before_month(y, r) <= k < days_before_month(y, r) + days_in_month(y, r),
    decreases 12 - m,
{
    if k < days_before_month(y, m) + days_in_month(y, m) {
        m
    } else {
        reveal_with_fuel(days_before_month, 13);
        lemma_month_of(y, k, m + 1)
    }
}

/// Every day has a written date.
pub proof fn law_every_day_has_a_date(day: int)
    ensures
        exists|s: Seq<char>| #[trigger] is_date_text_of(s, day),
{
    let n = day + 719_162;
    let y = lemma_year_of(n, 1970);
    lemma_year_steps(y);
    let k = n - days_before_year(y);
    let m = lemma_month_of(y, k, 1);
    let d = k - days_before_month(y, m) + 1;
    assert(is_date(y, m, d) && day_number(y, m, d) == day);
    assert(is_date_text_of(date_text(y, m, d), day));
}

/// The first second of a day is the last moment, up to the given one, that is a whole number of days
/// after the first second of 1970.
pub proof fn law_day_starts_at_a_whole_day(ts: int)
    ensures
        day_start(ts) <= ts < day_start(ts) + 86_400,
        day_start(ts) % 86_400 == 0,
        day_start(ts) == day_of(ts) * 86_400,
        day_of(day_start(ts)) == day_of(ts),
{
}

/// Days are numbered one after the other from the first day of 1970 on: the next day of the same month,
/// the first day of the next month, or the first day of the next year.
pub proof fn law_days_follow_each_other(y: int, m: int, d: int)
    requires
        is_date(y, m, d),
    ensures
        day_number(1970, 1, 1) == 0,
        d < days_in_month(y, m) ==> day_number(y, m, d + 1) == day_number(y, m, d) + 1,
        d == days_in_month(y, m) && m < 12 ==> day_number(y, m + 1, 1) == day_number(y, m, d) + 1,
        d == days_in_month(y, m) && m == 12 ==> day_number(y + 1, 1, 1) == day_number(y, m, d) + 1,
{
    lemma_year_steps(y);
    reveal_with_fuel(days_before_month, 13);
}

/// The date of a moment is the written date of its day, and that of the first day of 1970 for a moment
/// that the calendar does not reach.
pub proof fn law_date_of_a_moment(ts: int, written: Seq<char>)
    ensures
        in_calendar(ts) ==> is_date_text_of(date_string(ts), ts / 86_400),
        in_calendar(ts) && is_date_text_of(written, ts / 86_400) ==> date_string(ts) == written,
        !in_calendar(ts) ==> date_string(ts) == "1970-01-01"@,
{
    law_every_day_has_a_date(day_of(ts));
    if in_calendar(ts) && is_date_text_of(written, ts / 86_400) {
        law_dates_tell_days_apart(written, day_of(ts), date_string(ts), day_of(ts));
    }
}

} // verus!
