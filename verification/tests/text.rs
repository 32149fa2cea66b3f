use kimai_timer::calendar::{Date, LocalNow};
use kimai_timer::clock::{TIME_MAX_TS, TIME_MIN_TS};
use kimai_timer::cmd::CommandAdd;
use kimai_timer::text::{parse_u32_range, split_hm, str_eq, str_lt};
use kimai_timer::wrappers::{
    chrono_timestamp_valid, timestamp_in_range, CHRONO_MAX_TS, CHRONO_MIN_TS,
};

#[test]
fn split_hm_reads_like_str_parse() {
    assert_eq!(split_hm("9:05"), Some((9, 5)));
    assert_eq!(split_hm("+9:+5"), Some((9, 5)));
    assert_eq!(split_hm("1:2:3"), Some((1, 2)));
    assert_eq!(split_hm("9"), None);
    assert_eq!(split_hm("9:"), None);
    assert_eq!(split_hm(":5"), None);
    assert_eq!(split_hm("a:b"), None);
    assert_eq!(split_hm("-1:5"), None);
    assert_eq!(split_hm("4294967295:0"), Some((4_294_967_295, 0)));
    assert_eq!(split_hm("4294967296:0"), None);
}

#[test]
fn parse_u32_range_matches_std() {
    for s in ["0", "+7", "007", "+", "", "12a", "4294967295", "4294967296", "99999999999", "-0"] {
        let expected = s.parse::<u32>().ok();
        assert_eq!(parse_u32_range(s, 0, s.chars().count()), expected, "input {s:?}");
    }
    assert_eq!(parse_u32_range("ab123cd", 2, 5), Some(123));
}

#[test]
fn string_order_matches_std() {
    let words = ["", "a", "ab", "b", "B", "Alpha-2", "alpha", "é"];
    for x in words {
        for y in words {
            assert_eq!(str_lt(x, y), x < y, "{x:?} < {y:?}");
            assert_eq!(str_eq(x, y), x == y);
        }
    }
}

#[test]
fn supported_range_matches_time_crate() {
    assert!(timestamp_in_range(TIME_MIN_TS));
    assert!(timestamp_in_range(TIME_MAX_TS));
    assert!(!timestamp_in_range(TIME_MIN_TS - 1));
    assert!(!timestamp_in_range(TIME_MAX_TS + 1));
    let min = time::OffsetDateTime::from_unix_timestamp(TIME_MIN_TS).unwrap();
    assert_eq!((min.year(), u8::from(min.month()), min.day()), (-9999, 1, 1));
}

#[test]
fn chrono_range_matches_chrono() {
    assert!(chrono_timestamp_valid(CHRONO_MIN_TS));
    assert!(chrono_timestamp_valid(CHRONO_MAX_TS));
    assert!(!chrono_timestamp_valid(CHRONO_MIN_TS - 1));
    assert!(!chrono_timestamp_valid(CHRONO_MAX_TS + 1));
    assert_eq!(chrono::DateTime::<chrono::Utc>::MIN_UTC.timestamp(), CHRONO_MIN_TS);
}


#[test]
fn normalised_times_read_back() {
    let date = Date { year: 2026, month: 1, day: 1 };
    let now = LocalNow { date, hour: 23, minute: 59 };
    for input in ["0:0", "7:5", "9:30", "23:59", "12:07"] {
        let text = CommandAdd::parse_time_flag(input, "--start-time", date, now, false).unwrap();
        let (h, m) = split_hm(&text).unwrap();
        assert_eq!(format!("{h:02}:{m:02}"), text);
    }
    for option in CommandAdd::build_time_options(1437) {
        let (h, m) = split_hm(&option).unwrap();
        assert_eq!(h * 60 + m <= 1437, true);
    }
}

#[test]
fn layouts_are_passed_to_the_outside_crates() {
    assert_eq!(
        kimai_timer::wrappers::format_time(0, 3_600, "[year]-[month]-[day] [hour]:[minute]:[second]"),
        Some("1970-01-01 01:00:00".to_string())
    );
    assert_eq!(kimai_timer::wrappers::format_time(0, 0, "[hour]h"), Some("00h".to_string()));
    assert_eq!(kimai_timer::wrappers::format_time(0, 0, "[bogus]"), None);
    assert_eq!(kimai_timer::wrappers::parse_date_with("01/02/2026", "%d/%m/%Y"), Some((2026, 2, 1)));
    assert_eq!(kimai_timer::wrappers::parse_date_with("2026-02-01", "%d/%m/%Y"), None);
    assert_eq!(kimai_timer::wrappers::parse_time_with("7h05", "%Hh%M"), Some((7, 5)));
    assert_eq!(
        kimai_timer::error::KtError::TimeFormat.message(),
        "failed to format a time for the log"
    );
}
