use folketinget_mirror::digits::{parse_u32, u64_dec};
use folketinget_mirror::localtime::{from_local_to_utc, from_utc_to_local, parse_from_local_to_utc};
use folketinget_mirror::timestamp::{
    add_seconds, format_timestamp, format_timestamp_z, month_days, parse_timestamp,
    parse_timestamp_z, Timestamp,
};

fn ts(
    year: u16,
    month: u8,
    day: u8,
    hour: u8,
    minute: u8,
    second: u8,
    milli: u16,
) -> Timestamp {
    Timestamp { year, month, day, hour, minute, second, milli }
}

#[test]
fn test_time_conversion() {
    assert_eq!(
        parse_from_local_to_utc("2021-11-19T16:45:35.537Z").unwrap(),
        ts(2021, 11, 19, 15, 45, 35, 537)
    );
}

#[test]
fn parse_valid_timestamp() {
    assert_eq!(
        parse_timestamp("2021-11-19T16:45:35.537"),
        Some(ts(2021, 11, 19, 16, 45, 35, 537))
    );
}

#[test]
fn parse_rejects_malformed_timestamps() {
    assert_eq!(parse_timestamp(""), None);
    assert_eq!(parse_timestamp("2021-11-19T16:45:35"), None);
    assert_eq!(parse_timestamp("2021-11-19 16:45:35.537"), None);
    assert_eq!(parse_timestamp("2021-13-19T16:45:35.537"), None);
    assert_eq!(parse_timestamp("2021-00-19T16:45:35.537"), None);
    assert_eq!(parse_timestamp("2021-11-31T16:45:35.537"), None);
    assert_eq!(parse_timestamp("2021-11-19T24:45:35.537"), None);
    assert_eq!(parse_timestamp("2021-11-19T16:60:35.537"), None);
    assert_eq!(parse_timestamp("2021-11-19T16:45:60.537"), None);
    assert_eq!(parse_timestamp("2021-11-19T16:45:3x.537"), None);
    assert_eq!(parse_timestamp("2021-11-19T16:45:35.537Z"), None);
}

#[test]
fn parse_z_requires_the_zone_marker() {
    assert_eq!(
        parse_timestamp_z("2021-11-19T16:45:35.537Z"),
        Some(ts(2021, 11, 19, 16, 45, 35, 537))
    );
    assert_eq!(parse_timestamp_z("2021-11-19T16:45:35.537"), None);
    assert_eq!(parse_timestamp_z("2021-11-19T16:45:35.537X"), None);
}

#[test]
fn leap_days_parse_only_in_leap_years() {
    assert_eq!(
        parse_timestamp("2020-02-29T00:00:00.000"),
        Some(ts(2020, 2, 29, 0, 0, 0, 0))
    );
    assert_eq!(parse_timestamp("2021-02-29T00:00:00.000"), None);
    assert_eq!(parse_timestamp("1900-02-29T00:00:00.000"), None);
    assert_eq!(
        parse_timestamp("2000-02-29T00:00:00.000"),
        Some(ts(2000, 2, 29, 0, 0, 0, 0))
    );
    assert_eq!(month_days(2020, 2), 29);
    assert_eq!(month_days(2021, 2), 28);
    assert_eq!(month_days(2021, 4), 30);
    assert_eq!(month_days(2021, 12), 31);
}

#[test]
fn format_round_trips() {
    let t = ts(2021, 11, 19, 16, 45, 35, 537);
    assert_eq!(format_timestamp(&t), "2021-11-19T16:45:35.537");
    assert_eq!(format_timestamp_z(&t), "2021-11-19T16:45:35.537Z");
    assert_eq!(parse_timestamp(&format_timestamp(&t)), Some(t));
    let early = ts(3, 1, 2, 4, 5, 6, 7);
    assert_eq!(format_timestamp(&early), "0003-01-02T04:05:06.007");
    assert_eq!(parse_timestamp(&format_timestamp(&early)), Some(early));
}

#[test]
fn epoch_is_the_zero_cursor() {
    assert_eq!(Timestamp::epoch(), ts(1970, 1, 1, 0, 0, 0, 0));
    assert_eq!(format_timestamp(&Timestamp::epoch()), "1970-01-01T00:00:00.000");
}

#[test]
fn shifts_cross_calendar_boundaries() {
    assert_eq!(
        add_seconds(&ts(2021, 1, 1, 0, 0, 0, 500), -3600),
        Some(ts(2020, 12, 31, 23, 0, 0, 500))
    );
    assert_eq!(
        add_seconds(&ts(2020, 12, 31, 23, 30, 0, 0), 3600),
        Some(ts(2021, 1, 1, 0, 30, 0, 0))
    );
    assert_eq!(
        add_seconds(&ts(2020, 3, 1, 0, 0, 0, 0), -1),
        Some(ts(2020, 2, 29, 23, 59, 59, 0))
    );
    assert_eq!(
        add_seconds(&ts(2021, 6, 15, 12, 0, 0, 1), 86400),
        Some(ts(2021, 6, 16, 12, 0, 0, 1))
    );
    assert_eq!(add_seconds(&ts(0, 1, 1, 0, 0, 0, 0), -1), None);
    assert_eq!(add_seconds(&ts(9999, 12, 31, 23, 59, 59, 999), 1), None);
}

#[test]
fn winter_conversion_moves_back_one_hour() {
    assert_eq!(
        from_local_to_utc(&ts(2021, 11, 19, 16, 45, 35, 537)),
        Some(ts(2021, 11, 19, 15, 45, 35, 537))
    );
}

#[test]
fn summer_conversion_moves_back_two_hours() {
    assert_eq!(
        from_local_to_utc(&ts(2021, 7, 1, 14, 0, 0, 0)),
        Some(ts(2021, 7, 1, 12, 0, 0, 0))
    );
}

#[test]
fn ambiguous_and_skipped_local_readings_resolve_to_nothing() {
    // the repeated hour when summer time ends
    assert_eq!(from_local_to_utc(&ts(2021, 10, 31, 2, 30, 0, 0)), None);
    // the skipped hour when summer time begins
    assert_eq!(from_local_to_utc(&ts(2021, 3, 28, 2, 30, 0, 0)), None);
}

#[test]
fn utc_to_local_applies_the_zone_offset() {
    assert_eq!(
        from_utc_to_local(&ts(2021, 11, 19, 15, 45, 35, 537)),
        Some(ts(2021, 11, 19, 16, 45, 35, 537))
    );
    assert_eq!(
        from_utc_to_local(&ts(2021, 7, 1, 12, 0, 0, 0)),
        Some(ts(2021, 7, 1, 14, 0, 0, 0))
    );
}

#[test]
fn parse_from_local_rejects_unparseable_text() {
    assert_eq!(parse_from_local_to_utc("not a timestamp"), None);
    assert_eq!(parse_from_local_to_utc("2021-11-19T16:45:35.537"), None);
}

#[test]
fn numerals_render_exactly() {
    assert_eq!(u64_dec(0), "0");
    assert_eq!(u64_dec(7), "7");
    assert_eq!(u64_dec(1234567890), "1234567890");
}

#[test]
fn numerals_parse_exactly() {
    assert_eq!(parse_u32("0"), Some(0));
    assert_eq!(parse_u32("37"), Some(37));
    assert_eq!(parse_u32("0007"), Some(7));
    assert_eq!(parse_u32("4294967295"), Some(u32::MAX));
    assert_eq!(parse_u32("4294967296"), None);
    assert_eq!(parse_u32(""), None);
    assert_eq!(parse_u32("12a"), None);
    assert_eq!(parse_u32("-1"), None);
}
