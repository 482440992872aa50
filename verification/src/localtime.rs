use vstd::prelude::*;
use crate::timestamp::{add_seconds, max_ts, parse_ts_z, parse_timestamp_z, Timestamp};

verus! {

/// The offset from UTC, in seconds, that the Europe/Copenhagen time zone
/// assigns to the local wall-clock reading with the given fields; nothing
/// where the fields spell no date, or where the reading is skipped or
/// repeated around a zone transition.
pub uninterp spec fn copenhagen_offset_of(
    year: int,
    month: int,
    day: int,
    hour: int,
    minute: int,
    second: int,
) -> Option<int>;

/// The offset from UTC, in seconds, that Europe/Copenhagen observes at
/// the UTC instant with the given fields; nothing where the fields spell
/// no date.
pub uninterp spec fn copenhagen_offset_at(
    year: int,
    month: int,
    day: int,
    hour: int,
    minute: int,
    second: int,
) -> Option<int>;

/// Relies on chrono-tz's zone table for Europe/Copenhagen, reached
/// through chrono's `TimeZone::from_local_datetime` on the date built by
/// `NaiveDate::from_ymd_opt` and `NaiveTime::from_hms_opt`: the zone's
/// offset for a local wall-clock reading, which depends on the fields
/// alone. None for an invalid date or an ambiguous or skipped reading.
#[verifier::external_body]
fn offset_for_local(year: u16, month: u8, day: u8, hour: u8, minute: u8, second: u8) -> (r: Option<
    i32,
>)
    ensures
        match r {
            Some(o) => copenhagen_offset_of(
                year as int,
                month as int,
                day as int,
                hour as int,
                minute as int,
                second as int,
            ) == Some(o as int),
            None => copenhagen_offset_of(
                year as int,
                month as int,
                day as int,
                hour as int,
                minute as int,
                second as int,
            ) is None,
        },
{
    let date = match chrono::NaiveDate::from_ymd_opt(year as i32, month as u32, day as u32) {
        Some(d) => d,
        None => return None,
    };
    let time = match chrono::NaiveTime::from_hms_opt(hour as u32, minute as u32, second as u32) {
        Some(t) => t,
        None => return None,
    };
    match chrono::TimeZone::from_local_datetime(&chrono_tz::Europe::Copenhagen, &date.and_time(time))
    {
        chrono::LocalResult::Single(dt) => {
            Some(chrono::Offset::fix(chrono::DateTime::offset(&dt)).local_minus_utc())
        },
        _ => None,
    }
}

/// Relies on chrono-tz's zone table for Europe/Copenhagen, reached
/// through chrono's `TimeZone::from_utc_datetime` on the date built by
/// `NaiveDate::from_ymd_opt` and `NaiveTime::from_hms_opt`: the zone's
/// offset at a UTC instant, which depends on the fields alone. None only
/// for an invalid date.
#[verifier::external_body]
fn offset_at_utc(year: u16, month: u8, day: u8, hour: u8, minute: u8, second: u8) -> (r: Option<
    i32,
>)
    ensures
        match r {
            Some(o) => copenhagen_offset_at(
                year as int,
                month as int,
                day as int,
                hour as int,
                minute as int,
                second as int,
            ) == Some(o as int),
            None => copenhagen_offset_at(
                year as int,
                month as int,
                day as int,
                hour as int,
                minute as int,
                second as int,
            ) is None,
        },
{
    let date = match chrono::NaiveDate::from_ymd_opt(year as i32, month as u32, day as u32) {
        Some(d) => d,
        None => return None,
    };
    let time = match chrono::NaiveTime::from_hms_opt(hour as u32, minute as u32, second as u32) {
        Some(t) => t,
        None => return None,
    };
    let dt = chrono::TimeZone::from_utc_datetime(
        &chrono_tz::Europe::Copenhagen,
        &date.and_time(time),
    );
    Some(chrono::Offset::fix(chrono::DateTime::offset(&dt)).local_minus_utc())
}

/// What converting the local wall-clock instant `t` to UTC yields: the
/// instant shifted back by the zone's offset, where the zone resolves the
/// reading and the result stays representable.
pub open spec fn local_to_utc_spec(t: Timestamp, r: Option<Timestamp>) -> bool {
    match copenhagen_offset_of(
        t.year as int,
        t.month as int,
        t.day as int,
        t.hour as int,
        t.minute as int,
        t.second as int,
    ) {
        Some(o) => if -86400 <= o <= 86400 && 0 <= t.millis() - o * 1000 <= max_ts().millis() {
            match r {
                Some(u) => u.wf() && u.millis() == t.millis() - o * 1000 && u.milli == t.milli,
                None => false,
            }
        } else {
            r is None
        },
        None => r is None,
    }
}

/// Converts a local Europe/Copenhagen wall-clock instant to UTC.
pub fn from_local_to_utc(t: &Timestamp) -> (r: Option<Timestamp>)
    requires
        t.wf(),
    ensures
        local_to_utc_spec(*t, r),
{
    let off = match offset_for_local(t.year, t.month, t.day, t.hour, t.minute, t.second) {
        Some(o) => o,
        None => return None,
    };
    if off < -86400 || off > 86400 {
        return None;
    }
    let res = add_seconds(t, -off);
    proof {
        match res {
            Some(u) => crate::timestamp::lemma_millis_range(u),
            None => (),
        }
    }
    res
}

/// What converting the UTC instant `t` to local wall-clock time yields:
/// the instant shifted forward by the zone's offset at `t`, where the
/// result stays representable.
pub open spec fn utc_to_local_spec(t: Timestamp, r: Option<Timestamp>) -> bool {
    match copenhagen_offset_at(
        t.year as int,
        t.month as int,
        t.day as int,
        t.hour as int,
        t.minute as int,
        t.second as int,
    ) {
        Some(o) => if -86400 <= o <= 86400 && 0 <= t.millis() + o * 1000 <= max_ts().millis() {
            match r {
                Some(u) => u.wf() && u.millis() == t.millis() + o * 1000 && u.milli == t.milli,
                None => false,
            }
        } else {
            r is None
        },
        None => r is None,
    }
}

/// Converts a UTC instant to the Europe/Copenhagen wall clock.
pub fn from_utc_to_local(t: &Timestamp) -> (r: Option<Timestamp>)
    requires
        t.wf(),
    ensures
        utc_to_local_spec(*t, r),
{
    let off = match offset_at_utc(t.year, t.month, t.day, t.hour, t.minute, t.second) {
        Some(o) => o,
        None => return None,
    };
    if off < -86400 || off > 86400 {
        return None;
    }
    let res = add_seconds(t, off);
    proof {
        match res {
            Some(u) => crate::timestamp::lemma_millis_range(u),
            None => (),
        }
    }
    res
}

/// Parses text in the store's zone-marked timestamp shape as a local
/// Europe/Copenhagen reading and converts it to UTC.
pub fn parse_from_local_to_utc(datetime: &str) -> (r: Option<Timestamp>)
    ensures
        match parse_ts_z(datetime@) {
            Some(t) => local_to_utc_spec(t, r),
            None => r is None,
        },
{
    let t = match parse_timestamp_z(datetime) {
        Some(t) => t,
        None => return None,
    };
    from_local_to_utc(&t)
}

} // verus!
