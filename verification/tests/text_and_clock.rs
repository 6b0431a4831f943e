use nodeget_server::clock::{today_utc_start_ts, ts_to_date_str, utc_day_start, DAY_SECONDS};
use nodeget_server::text::{first_part, i64_text, trim, u64_text, white_space};

#[test]
fn numbers_are_written_in_decimal() {
    let signed: Vec<i64> = vec![0, 7, 10, -1, -10, 1234567890123, i64::MAX, i64::MIN];
    for n in signed {
        assert_eq!(i64_text(n), n.to_string());
    }
    let unsigned: Vec<u64> = vec![0, 9, 10, 100, u64::MAX];
    for n in unsigned {
        assert_eq!(u64_text(n), n.to_string());
    }
}

#[test]
fn white_space_is_that_of_unicode() {
    for c in '\0'..=char::MAX {
        assert_eq!(white_space(c), c.is_whitespace(), "{:?}", c);
    }
}

#[test]
fn white_space_is_trimmed_at_both_ends() {
    let texts = vec!["", " ", "a", " a", "a ", "\t a b \u{3000}\n", "\u{a0}é\u{2028}", "   "];
    for text in texts {
        assert_eq!(trim(text), text.trim());
    }
}

#[test]
fn first_part_ends_before_the_separator() {
    assert_eq!(first_part("a,b,c", ','), "a");
    assert_eq!(first_part("abc", ','), "abc");
    assert_eq!(first_part(",b", ','), "");
    assert_eq!(first_part("", ','), "");
    assert_eq!(first_part("é,é", ','), "é");
}

#[test]
fn dates_are_written_year_month_day() {
    assert_eq!(ts_to_date_str(0), "1970-01-01");
    assert_eq!(ts_to_date_str(86_399), "1970-01-01");
    assert_eq!(ts_to_date_str(86_400), "1970-01-02");
    assert_eq!(ts_to_date_str(-1), "1969-12-31");
    assert_eq!(ts_to_date_str(951_782_400), "2000-02-29");
    assert_eq!(ts_to_date_str(1_778_716_800), "2026-05-14");
    assert_eq!(ts_to_date_str(253_402_300_799), "9999-12-31");
    assert_eq!(ts_to_date_str(253_402_300_800), "+10000-01-01");
    assert_eq!(ts_to_date_str(-62_167_219_200), "0000-01-01");
    assert_eq!(ts_to_date_str(-62_167_219_201), "-0001-12-31");
}

#[test]
fn moments_outside_the_calendar_have_the_first_date() {
    assert_eq!(ts_to_date_str(i64::MAX), "1970-01-01");
    assert_eq!(ts_to_date_str(i64::MIN), "1970-01-01");
    assert_eq!(ts_to_date_str(8_210_266_876_799), "+262142-12-31");
    assert_eq!(ts_to_date_str(8_210_266_876_800), "1970-01-01");
    assert_eq!(ts_to_date_str(-8_334_601_228_800), "-262143-01-01");
    assert_eq!(ts_to_date_str(-8_334_601_228_801), "1970-01-01");
}

#[test]
fn a_day_starts_at_midnight() {
    assert_eq!(utc_day_start(0), 0);
    assert_eq!(utc_day_start(86_399), 0);
    assert_eq!(utc_day_start(86_400), 86_400);
    assert_eq!(utc_day_start(-1), -86_400);
    assert_eq!(utc_day_start(1_778_720_461), 1_778_716_800);
    assert_eq!(utc_day_start(-8_334_601_228_800), -8_334_601_228_800);
    assert_eq!(utc_day_start(8_210_266_876_799), 8_210_266_876_799 - 86_399);
}

#[test]
fn today_starts_at_a_midnight_of_this_era() {
    let start = today_utc_start_ts();
    assert_eq!(start % DAY_SECONDS, 0);
    assert!(start > 1_700_000_000);
}

#[test]
fn different_days_have_different_dates() {
    let mut earlier = ts_to_date_str(-DAY_SECONDS);
    for day in 0..3000 {
        let date = ts_to_date_str(day * DAY_SECONDS);
        assert!(earlier < date);
        assert_eq!(date, ts_to_date_str(day * DAY_SECONDS + DAY_SECONDS - 1));
        earlier = date;
    }
}
