//! Tests of date shortcut resolution, driven by chrono reference instants.

use chrono::{DateTime, Datelike, FixedOffset, NaiveDate, NaiveTime, TimeZone};
use vikunja_rust_mcp::dates::{
    looks_like_date, parse_time_of_day, resolve, DateConfig, ReferenceDay, Resolution, TimeOfDay,
    TodayAt,
};
use vikunja_rust_mcp::error::Error;

fn config() -> DateConfig {
    DateConfig::default()
}

/// Wednesday 2026-06-10 12:00 at UTC-4.
fn reference() -> DateTime<FixedOffset> {
    DateTime::parse_from_rfc3339("2026-06-10T12:00:00-04:00").unwrap()
}

fn naive_time(t: TimeOfDay) -> NaiveTime {
    NaiveTime::from_hms_opt(t.hour, t.minute, 0).unwrap()
}

/// How today's `time` stands to the reference instant.
fn today_at(reference: &DateTime<FixedOffset>, time: TimeOfDay) -> TodayAt {
    let naive = reference.date_naive().and_time(naive_time(time));
    match reference.timezone().from_local_datetime(&naive).earliest() {
        Some(candidate) if candidate > *reference => TodayAt::Ahead,
        Some(_) => TodayAt::Passed,
        None => TodayAt::Gap(naive.to_string()),
    }
}

fn reference_day(reference: &DateTime<FixedOffset>, config: &DateConfig) -> ReferenceDay {
    ReferenceDay {
        today: reference.date_naive().num_days_from_ce(),
        default_time: today_at(reference, config.default_time),
        end_of_day_time: today_at(reference, config.end_of_day_time),
    }
}

fn resolve_with(
    expression: &str,
    reference: &DateTime<FixedOffset>,
    config: &DateConfig,
) -> Result<Resolution, Error> {
    resolve(expression, &reference_day(reference, config), config)
}

fn timestamp_text(reference: &DateTime<FixedOffset>, day: i32, time: TimeOfDay) -> String {
    let date = NaiveDate::from_num_days_from_ce_opt(day).unwrap();
    reference
        .timezone()
        .from_local_datetime(&date.and_time(naive_time(time)))
        .earliest()
        .unwrap()
        .to_rfc3339()
}

fn resolve_ok(expression: &str, reference: &DateTime<FixedOffset>) -> String {
    match resolve_with(expression, reference, &config()).unwrap() {
        Resolution::Timestamp { day, time_of_day } => timestamp_text(reference, day, time_of_day),
        Resolution::Clear => panic!("expected a timestamp for {expression}"),
    }
}

#[test]
fn fixed_day_shortcuts() {
    let reference = reference();
    assert_eq!(resolve_ok("today", &reference), "2026-06-10T09:00:00-04:00");
    assert_eq!(resolve_ok("tomorrow", &reference), "2026-06-11T09:00:00-04:00");
    assert_eq!(resolve_ok("yesterday", &reference), "2026-06-09T09:00:00-04:00");
}

#[test]
fn relative_shortcuts() {
    let reference = reference();
    assert_eq!(resolve_ok("in 3 days", &reference), "2026-06-13T09:00:00-04:00");
    assert_eq!(resolve_ok("in 1 day", &reference), "2026-06-11T09:00:00-04:00");
    assert_eq!(resolve_ok("in 2 weeks", &reference), "2026-06-24T09:00:00-04:00");
    assert_eq!(resolve_ok("in 1 month", &reference), "2026-07-10T09:00:00-04:00");
}

#[test]
fn months_clamp_to_month_end() {
    let end_of_january = DateTime::parse_from_rfc3339("2026-01-31T08:00:00Z").unwrap();
    assert_eq!(resolve_ok("in 1 month", &end_of_january), "2026-02-28T09:00:00+00:00");
}

#[test]
fn next_weekday_is_strictly_after_today() {
    let reference = reference();
    assert_eq!(resolve_ok("next friday", &reference), "2026-06-12T09:00:00-04:00");
    assert_eq!(resolve_ok("next wednesday", &reference), "2026-06-17T09:00:00-04:00");
    assert_eq!(resolve_ok("next monday", &reference), "2026-06-15T09:00:00-04:00");
}

#[test]
fn bare_weekday_includes_today_only_while_still_ahead() {
    assert_eq!(resolve_ok("wednesday", &reference()), "2026-06-17T09:00:00-04:00");
    let early = DateTime::parse_from_rfc3339("2026-06-10T08:00:00-04:00").unwrap();
    assert_eq!(resolve_ok("wednesday", &early), "2026-06-10T09:00:00-04:00");
    assert_eq!(resolve_ok("friday", &reference()), "2026-06-12T09:00:00-04:00");
    assert_eq!(resolve_ok("sunday", &reference()), "2026-06-14T09:00:00-04:00");
    assert_eq!(resolve_ok("tuesday", &reference()), "2026-06-16T09:00:00-04:00");
}

#[test]
fn end_of_week_is_upcoming_sunday_at_end_of_day() {
    assert_eq!(resolve_ok("end of week", &reference()), "2026-06-14T23:59:00-04:00");
    let sunday_morning = DateTime::parse_from_rfc3339("2026-06-14T10:00:00-04:00").unwrap();
    assert_eq!(resolve_ok("end of week", &sunday_morning), "2026-06-14T23:59:00-04:00");
    let sunday_night = DateTime::parse_from_rfc3339("2026-06-14T23:59:30-04:00").unwrap();
    assert_eq!(resolve_ok("end of week", &sunday_night), "2026-06-21T23:59:00-04:00");
}

#[test]
fn explicit_date_uses_default_time_and_reference_offset() {
    assert_eq!(resolve_ok("2026-07-01", &reference()), "2026-07-01T09:00:00-04:00");
}

#[test]
fn clear_words_resolve_to_clear() {
    for expression in ["clear", "none", "no due date", "unset", "  Clear  ", "NONE"] {
        assert!(
            matches!(resolve_with(expression, &reference(), &config()), Ok(Resolution::Clear)),
            "{expression}"
        );
    }
}

#[test]
fn expressions_are_case_and_whitespace_insensitive() {
    let reference = reference();
    assert_eq!(resolve_ok("  Next   Friday ", &reference), "2026-06-12T09:00:00-04:00");
    assert_eq!(resolve_ok("TODAY", &reference), "2026-06-10T09:00:00-04:00");
    assert_eq!(resolve_ok("In 3 DAYS", &reference), "2026-06-13T09:00:00-04:00");
}

#[test]
fn reports_which_time_of_day_was_used() {
    let custom = DateConfig {
        default_time: TimeOfDay { hour: 8, minute: 30 },
        end_of_day_time: TimeOfDay { hour: 22, minute: 0 },
    };
    match resolve_with("tomorrow", &reference(), &custom).unwrap() {
        Resolution::Timestamp { day, time_of_day } => {
            assert_eq!(timestamp_text(&reference(), day, time_of_day), "2026-06-11T08:30:00-04:00");
            assert_eq!(time_of_day, custom.default_time);
        }
        Resolution::Clear => panic!("expected timestamp"),
    }
    match resolve_with("end of week", &reference(), &custom).unwrap() {
        Resolution::Timestamp { time_of_day, .. } => {
            assert_eq!(time_of_day, custom.end_of_day_time);
        }
        Resolution::Clear => panic!("expected timestamp"),
    }
}

#[test]
fn unsupported_expressions_are_rejected_with_guidance() {
    for expression in [
        "someday",
        "next week",
        "in two days",
        "in 0 days",
        "in -2 days",
        "in 3 hours",
        "next",
        "",
        "07/01/2026",
    ] {
        let err = resolve_with(expression, &reference(), &config()).unwrap_err();
        assert!(matches!(err, Error::InvalidArgument(_)), "{expression}: {err:?}");
    }
    let err = resolve_with("2026-13-40", &reference(), &config()).unwrap_err();
    assert!(err.message().contains("YYYY-MM-DD"), "{}", err.message());
}

#[test]
fn time_of_day_parsing() {
    assert_eq!(parse_time_of_day("09:00").unwrap(), TimeOfDay { hour: 9, minute: 0 });
    assert_eq!(parse_time_of_day(" 23:59 ").unwrap(), TimeOfDay { hour: 23, minute: 59 });
    for raw in ["9am", "25:00", "12:60", "", "12:00:30"] {
        assert!(parse_time_of_day(raw).is_err(), "{raw}");
    }
}

#[test]
fn default_config_times() {
    let config = DateConfig::default();
    assert_eq!(config.default_time, TimeOfDay { hour: 9, minute: 0 });
    assert_eq!(config.end_of_day_time, TimeOfDay { hour: 23, minute: 59 });
}

#[test]
fn unsupported_and_out_of_range_messages() {
    let err = resolve_with("someday", &reference(), &config()).unwrap_err();
    assert_eq!(
        err.message(),
        "invalid argument: unsupported date shortcut `someday`: use today, tomorrow, yesterday, in N days/weeks/months, [next] monday..sunday, end of week, YYYY-MM-DD, or clear/none/unset/no due date"
    );
    let err = resolve_with("in 0 days", &reference(), &config()).unwrap_err();
    assert_eq!(
        err.message(),
        "invalid argument: `in 0 days`: N must be a positive integer, e.g. `in 3 days`"
    );
    let far = ReferenceDay {
        today: NaiveDate::MAX.num_days_from_ce(),
        default_time: TodayAt::Passed,
        end_of_day_time: TodayAt::Passed,
    };
    let err = resolve("tomorrow", &far, &config()).unwrap_err();
    assert_eq!(err.message(), "invalid argument: `the shortcut` resolves to a date out of range");
    let err = resolve("in 2 days", &far, &config()).unwrap_err();
    assert_eq!(err.message(), "invalid argument: `in 2 days` resolves to a date out of range");
}

#[test]
fn daylight_saving_gap_today_is_reported() {
    let reference = ReferenceDay {
        today: NaiveDate::from_ymd_opt(2026, 3, 8).unwrap().num_days_from_ce(),
        default_time: TodayAt::Gap("2026-03-08 02:30:00".to_string()),
        end_of_day_time: TodayAt::Passed,
    };
    // 2026-03-08 is a Sunday.
    let err = resolve("sunday", &reference, &config()).unwrap_err();
    assert!(err.message().contains("2026-03-08 02:30:00"), "{}", err.message());
    assert!(err.message().contains("daylight saving gap"), "{}", err.message());
}

#[test]
fn date_like_words_need_eight_digit_or_dash_characters() {
    assert!(looks_like_date("2026-07-01"));
    assert!(looks_like_date("20260701"));
    assert!(!looks_like_date("2026-7-"));
    assert!(!looks_like_date("07/01/2026"));
    assert!(!looks_like_date("tomorrow"));
}

#[test]
fn expressions_with_one_normal_form_resolve_alike() {
    let reference = reference();
    let config = config();
    assert_eq!(
        resolve_with("  TOMORROW ", &reference, &config).unwrap(),
        resolve_with("tomorrow", &reference, &config).unwrap()
    );
    assert_eq!(
        resolve_with("Next   Friday", &reference, &config).unwrap(),
        resolve_with("next friday", &reference, &config).unwrap()
    );
    assert_eq!(resolve_with(" No  Due\tDate ", &reference, &config).unwrap(), Resolution::Clear);
    assert!(resolve_with("someday", &reference, &config).is_err());
    assert!(resolve_with("  SOMEDAY ", &reference, &config).is_err());
}
