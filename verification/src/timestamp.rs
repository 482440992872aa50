use vstd::prelude::*;
use vstd::string::StringSliceAdditionalSpecFns;
use crate::digits::{digit_char, digit_val, is_digit, pad2, pad2_str, pad3, pad3_str, pad4, pad4_str};

verus! {

/// One instant of the update-timestamp column, at millisecond precision,
/// in the proleptic Gregorian calendar.
#[derive(Clone, Copy, Debug, PartialEq, Eq, Structural)]
pub struct Timestamp {
    pub year: u16,
    pub month: u8,
    pub day: u8,
    pub hour: u8,
    pub minute: u8,
    pub second: u8,
    pub milli: u16,
}

/// Whether `y` is a leap year of the proleptic Gregorian calendar.
pub open spec fn is_leap_year(y: int) -> bool {
    (y % 4 == 0 && y % 100 != 0) || y % 400 == 0
}

/// The number of days of month `m` of year `y`, meaningful for
/// `1 <= m <= 12`.
pub open spec fn days_in_month(y: int, m: int) -> int {
    if m == 2 {
        if is_leap_year(y) {
            29
        } else {
            28
        }
    } else if m == 4 || m == 6 || m == 9 || m == 11 {
        30
    } else {
        31
    }
}

/// Whether `y` is a leap year.
pub fn leap_year(y: u16) -> (r: bool)
    ensures
        r == is_leap_year(y as int),
{
    (y % 4 == 0 && y % 100 != 0) || y % 400 == 0
}

/// The number of days of month `m` of year `y`.
pub fn month_days(y: u16, m: u8) -> (r: u8)
    requires
        1 <= m <= 12,
    ensures
        r as int == days_in_month(y as int, m as int),
{
    if m == 2 {
        if leap_year(y) {
            29
        } else {
            28
        }
    } else if m == 4 || m == 6 || m == 9 || m == 11 {
        30
    } else {
        31
    }
}

impl Timestamp {
    /// A calendar-valid instant with a four-digit year.
    pub open spec fn wf(&self) -> bool {
        &&& self.year <= 9999
        &&& 1 <= self.month <= 12
        &&& 1 <= self.day <= days_in_month(self.year as int, self.month as int)
        &&& self.hour < 24
        &&& self.minute < 60
        &&& self.second < 60
        &&& self.milli < 1000
    }

    /// The start of 1970: the cursor an entity resumes from while its
    /// table is still empty.
    pub fn epoch() -> (t: Timestamp)
        ensures
            t == epoch_ts(),
            t.wf(),
    {
        Timestamp { year: 1970, month: 1, day: 1, hour: 0, minute: 0, second: 0, milli: 0 }
    }
}

/// Days of year `y` before the first of month `m`, meaningful for
/// `1 <= m <= 13`.
pub open spec fn days_before_month(y: int, m: int) -> int
    decreases m,
{
    if m <= 1 {
        0
    } else {
        days_before_month(y, m - 1) + days_in_month(y, m - 1)
    }
}

/// Days of all years before year `y`, counted from year zero.
pub open spec fn days_before_year(y: int) -> int
    decreases y,
{
    if y <= 0 {
        0
    } else {
        days_before_year(y - 1) + 365 + (if is_leap_year(y - 1) {
            1int
        } else {
            0int
        })
    }
}

/// The day number of a date, counted from the first day of year zero.
pub open spec fn epoch_days(y: int, m: int, d: int) -> int {
    days_before_year(y) + days_before_month(y, m) + (d - 1)
}

impl Timestamp {
    /// The day number of the instant's date.
    pub open spec fn day_number(&self) -> int {
        epoch_days(self.year as int, self.month as int, self.day as int)
    }

    /// The instant as milliseconds from the first representable instant.
    /// This is the order of instants: later means strictly greater.
    pub open spec fn millis(&self) -> int {
        self.day_number() * 86400000 + self.hour as int * 3600000 + self.minute as int * 60000
            + self.second as int * 1000 + self.milli as int
    }
}

/// The first instant of 1970, the fetch protocol's zero cursor.
pub open spec fn epoch_ts() -> Timestamp {
    Timestamp { year: 1970, month: 1, day: 1, hour: 0, minute: 0, second: 0, milli: 0 }
}

/// The last representable instant.
pub open spec fn max_ts() -> Timestamp {
    Timestamp { year: 9999, month: 12, day: 31, hour: 23, minute: 59, second: 59, milli: 999 }
}

/// A year holds 365 days, and one more in a leap year.
proof fn lemma_year_days(y: int)
    ensures
        days_before_month(y, 13) == 365 + (if is_leap_year(y) {
            1int
        } else {
            0int
        }),
{
    reveal_with_fuel(days_before_month, 14);
}

/// Days before a month never decrease as the month advances.
proof fn lemma_dbm_mono(y: int, a: int, b: int)
    requires
        a <= b,
    ensures
        days_before_month(y, a) <= days_before_month(y, b),
    decreases b - a,
{
    if a < b {
        lemma_dbm_mono(y, a, b - 1);
    }
}

/// Days before the second or a later month amount to January at least.
proof fn lemma_dbm_ge_31(y: int, m: int)
    requires
        m >= 2,
    ensures
        days_before_month(y, m) >= 31,
{
    reveal_with_fuel(days_before_month, 3);
    assert(days_before_month(y, 2) == 31);
    lemma_dbm_mono(y, 2, m);
}

/// Days before a year never decrease as the year advances, and any year
/// after the zeroth lies at least a year of days in.
proof fn lemma_dby_mono(a: int, b: int)
    requires
        a <= b,
    ensures
        days_before_year(a) <= days_before_year(b),
        a >= 1 ==> days_before_year(a) >= 365,
    decreases b - a + (if a >= 0 {
        a
    } else {
        0
    }),
{
    if a < b {
        lemma_dby_mono(a, b - 1);
        lemma_dby_mono(a, a);
    } else if a >= 1 {
        lemma_dby_mono(a - 1, a - 1);
    }
}

/// The day number of a well-formed date lies between the first and the
/// last representable day, reaching the ends only at those dates.
proof fn lemma_day_number_bounds(t: Timestamp)
    requires
        t.wf(),
    ensures
        0 <= t.day_number(),
        t.day_number() == 0 <==> (t.year == 0 && t.month == 1 && t.day == 1),
        t.day_number() <= max_ts().day_number(),
        t.day_number() == max_ts().day_number() <==> (t.year == 9999 && t.month == 12 && t.day
            == 31),
{
    let y = t.year as int;
    let m = t.month as int;
    let d = t.day as int;
    lemma_dby_mono(0, y);
    lemma_dbm_mono(y, 1, m);
    if y >= 1 {
        lemma_dby_mono(1, y);
    }
    if m >= 2 {
        lemma_dbm_ge_31(y, m);
    }
    // upper bound: step to the first of the next month, then to the next year
    assert(days_before_month(y, m + 1) == days_before_month(y, m) + days_in_month(y, m));
    lemma_dbm_mono(y, m + 1, 13);
    lemma_year_days(y);
    assert(days_before_year(y + 1) == days_before_year(y) + 365 + (if is_leap_year(y) {
        1int
    } else {
        0int
    }));
    lemma_dby_mono(y + 1, 10000);
    lemma_year_days(9999);
    assert(days_before_month(9999, 13) == 365);
    assert(days_before_month(9999, 13) == days_before_month(9999, 12) + 31);
    assert(days_before_year(10000) == days_before_year(9999) + 365);
    if y == 9999 {
        lemma_dbm_mono(y, m, 12);
        if m == 12 {
        } else {
            lemma_dbm_mono(y, m + 1, 12);
        }
    } else {
        lemma_dby_mono(y + 1, 9999);
    }
}

/// The millisecond value of a well-formed instant lies between zero and
/// the last representable instant's value.
pub proof fn lemma_millis_range(t: Timestamp)
    requires
        t.wf(),
    ensures
        0 <= t.millis() <= max_ts().millis(),
{
    lemma_day_number_bounds(t);
}

/// Moves an instant by `delta` seconds, at most a day in either
/// direction. Returns the shifted instant exactly when it stays within
/// the representable range.
pub fn add_seconds(t: &Timestamp, delta: i32) -> (r: Option<Timestamp>)
    requires
        t.wf(),
        -86400 <= delta <= 86400,
    ensures
        match r {
            Some(u) => {
                &&& u.wf()
                &&& u.millis() == t.millis() + delta * 1000
                &&& u.milli == t.milli
            },
            None => t.millis() + delta * 1000 < 0 || t.millis() + delta * 1000
                > max_ts().millis(),
        },
{
    proof {
        lemma_day_number_bounds(*t);
    }
    let day_secs: i32 = t.hour as i32 * 3600 + t.minute as i32 * 60 + t.second as i32;
    let total: i32 = day_secs + delta;
    let (date, tot2): ((u16, u8, u8), i32) = if total < 0 {
        let prev: (u16, u8, u8) = if t.day > 1 {
            (t.year, t.month, t.day - 1)
        } else if t.month > 1 {
            (t.year, t.month - 1, month_days(t.year, t.month - 1))
        } else if t.year > 0 {
            (t.year - 1, 12, 31)
        } else {
            proof {
                assert(t.day_number() == 0);
            }
            return None;
        };
        proof {
            let y = t.year as int;
            let m = t.month as int;
            if t.day == 1 && t.month > 1 {
                assert(days_before_month(y, m) == days_before_month(y, m - 1) + days_in_month(
                    y,
                    m - 1,
                ));
            }
            if t.day == 1 && t.month == 1 && t.year > 0 {
                lemma_year_days(y - 1);
                assert(days_before_month(y - 1, 13) == days_before_month(y - 1, 12) + 31);
                assert(days_before_year(y) == days_before_year(y - 1) + 365 + (
                if is_leap_year(y - 1) {
                    1int
                } else {
                    0int
                }));
            }
            assert(epoch_days(prev.0 as int, prev.1 as int, prev.2 as int) == t.day_number() - 1);
        }
        (prev, total + 86400)
    } else if total >= 86400 {
        let next: (u16, u8, u8) = if t.day < month_days(t.year, t.month) {
            (t.year, t.month, t.day + 1)
        } else if t.month < 12 {
            (t.year, t.month + 1, 1)
        } else if t.year < 9999 {
            (t.year + 1, 1, 1)
        } else {
            proof {
                assert(t.day_number() == max_ts().day_number());
                lemma_millis_range(max_ts());
            }
            return None;
        };
        proof {
            let y = t.year as int;
            let m = t.month as int;
            if t.day as int >= days_in_month(t.year as int, t.month as int) && t.month < 12 {
                assert(days_before_month(y, m + 1) == days_before_month(y, m) + days_in_month(
                    y,
                    m,
                ));
            }
            if t.day as int >= days_in_month(t.year as int, t.month as int) && t.month == 12 {
                lemma_year_days(y);
                assert(days_before_month(y, 13) == days_before_month(y, 12) + 31);
                assert(days_before_year(y + 1) == days_before_year(y) + 365 + (if is_leap_year(y) {
                    1int
                } else {
                    0int
                }));
            }
            assert(epoch_days(next.0 as int, next.1 as int, next.2 as int) == t.day_number() + 1);
        }
        (next, total - 86400)
    } else {
        ((t.year, t.month, t.day), total)
    };
    proof {
        vstd::arithmetic::div_mod::lemma_fundamental_div_mod(tot2 as int, 3600);
        vstd::arithmetic::div_mod::lemma_fundamental_div_mod(tot2 as int % 3600, 60);
    }
    let hour: u8 = (tot2 / 3600) as u8;
    let rem: i32 = tot2 % 3600;
    let minute: u8 = (rem / 60) as u8;
    let second: u8 = (rem % 60) as u8;
    let u = Timestamp {
        year: date.0,
        month: date.1,
        day: date.2,
        hour,
        minute,
        second,
        milli: t.milli,
    };
    proof {
        assert(u.hour as int * 3600 + u.minute as int * 60 + u.second as int == tot2 as int);
        assert(u.millis() == t.millis() + delta * 1000);
    }
    Some(u)
}

/// The text of `t` in the store's timestamp shape,
/// `YYYY-MM-DDTHH:MM:SS.mmm`.
pub open spec fn ts_text(t: Timestamp) -> Seq<char> {
    pad4(t.year as int) + seq!['-'] + pad2(t.month as int) + seq!['-'] + pad2(t.day as int)
        + seq!['T'] + pad2(t.hour as int) + seq![':'] + pad2(t.minute as int) + seq![':'] + pad2(
        t.second as int,
    ) + seq!['.'] + pad3(t.milli as int)
}

/// The text of `t` with the store's trailing zone marker,
/// `YYYY-MM-DDTHH:MM:SS.mmmZ`.
pub open spec fn ts_text_z(t: Timestamp) -> Seq<char> {
    ts_text(t) + seq!['Z']
}

/// Renders `t` in the store's timestamp shape.
pub fn format_timestamp(t: &Timestamp) -> (r: String)
    requires
        t.wf(),
    ensures
        r@ == ts_text(*t),
{
    let mut s = pad4_str(t.year);
    s.append("-");
    s.append(pad2_str(t.month).as_str());
    s.append("-");
    s.append(pad2_str(t.day).as_str());
    s.append("T");
    s.append(pad2_str(t.hour).as_str());
    s.append(":");
    s.append(pad2_str(t.minute).as_str());
    s.append(":");
    s.append(pad2_str(t.second).as_str());
    s.append(".");
    s.append(pad3_str(t.milli).as_str());
    proof {
        reveal_strlit("-");
        reveal_strlit("T");
        reveal_strlit(":");
        reveal_strlit(".");
        assert("-"@ =~= seq!['-']);
        assert("T"@ =~= seq!['T']);
        assert(":"@ =~= seq![':']);
        assert("."@ =~= seq!['.']);
        assert(s@ =~= ts_text(*t));
    }
    s
}

/// Renders `t` with the trailing zone marker.
pub fn format_timestamp_z(t: &Timestamp) -> (r: String)
    requires
        t.wf(),
    ensures
        r@ == ts_text_z(*t),
{
    let mut s = format_timestamp(t);
    s.append("Z");
    proof {
        reveal_strlit("Z");
        assert("Z"@ =~= seq!['Z']);
        assert(s@ =~= ts_text_z(*t));
    }
    s
}

/// The value of the two digits at `i`, meaningful under
/// `date_time_shape`.
pub open spec fn two_val(s: Seq<char>, i: int) -> int {
    digit_val(s[i]) * 10 + digit_val(s[i + 1])
}

/// Whether the first 23 characters of `s` have the store's timestamp
/// shape: digits and separators in their fixed places.
pub open spec fn date_time_shape(s: Seq<char>) -> bool {
    &&& is_digit(s[0])
    &&& is_digit(s[1])
    &&& is_digit(s[2])
    &&& is_digit(s[3])
    &&& s[4] == '-'
    &&& is_digit(s[5])
    &&& is_digit(s[6])
    &&& s[7] == '-'
    &&& is_digit(s[8])
    &&& is_digit(s[9])
    &&& s[10] == 'T'
    &&& is_digit(s[11])
    &&& is_digit(s[12])
    &&& s[13] == ':'
    &&& is_digit(s[14])
    &&& is_digit(s[15])
    &&& s[16] == ':'
    &&& is_digit(s[17])
    &&& is_digit(s[18])
    &&& s[19] == '.'
    &&& is_digit(s[20])
    &&& is_digit(s[21])
    &&& is_digit(s[22])
}

/// The timestamp the first 23 characters of `s` spell, meaningful under
/// `date_time_shape`.
pub open spec fn fields_of(s: Seq<char>) -> Timestamp {
    Timestamp {
        year: (digit_val(s[0]) * 1000 + digit_val(s[1]) * 100 + digit_val(s[2]) * 10 + digit_val(
            s[3],
        )) as u16,
        month: two_val(s, 5) as u8,
        day: two_val(s, 8) as u8,
        hour: two_val(s, 11) as u8,
        minute: two_val(s, 14) as u8,
        second: two_val(s, 17) as u8,
        milli: (digit_val(s[20]) * 100 + digit_val(s[21]) * 10 + digit_val(s[22])) as u16,
    }
}

/// The timestamp `s` spells in the store's shape without a zone marker,
/// or nothing where `s` does not spell a calendar-valid instant.
pub open spec fn parse_ts(s: Seq<char>) -> Option<Timestamp> {
    if s.len() == 23 && date_time_shape(s) && fields_of(s).wf() {
        Some(fields_of(s))
    } else {
        None
    }
}

/// The timestamp `s` spells with the trailing zone marker, or nothing.
pub open spec fn parse_ts_z(s: Seq<char>) -> Option<Timestamp> {
    if s.len() == 24 && date_time_shape(s) && s[23] == 'Z' && fields_of(s).wf() {
        Some(fields_of(s))
    } else {
        None
    }
}

/// Formatting a well-formed instant and parsing the text gives the
/// instant back, with and without the zone marker.
pub proof fn lemma_parse_round_trip(t: Timestamp)
    requires
        t.wf(),
    ensures
        parse_ts(ts_text(t)) == Some(t),
        parse_ts_z(ts_text_z(t)) == Some(t),
{
    let s = ts_text(t);
    let y = t.year as int;
    let mo = t.month as int;
    let d = t.day as int;
    let h = t.hour as int;
    let mi = t.minute as int;
    let sec = t.second as int;
    let ms = t.milli as int;
    crate::digits::lemma_digits4(y);
    crate::digits::lemma_digits2(mo);
    crate::digits::lemma_digits2(d);
    crate::digits::lemma_digits2(h);
    crate::digits::lemma_digits2(mi);
    crate::digits::lemma_digits2(sec);
    crate::digits::lemma_digits3(ms);
    crate::digits::lemma_digit_char(y / 1000);
    crate::digits::lemma_digit_char((y / 100) % 10);
    crate::digits::lemma_digit_char((y / 10) % 10);
    crate::digits::lemma_digit_char(y % 10);
    crate::digits::lemma_digit_char(mo / 10);
    crate::digits::lemma_digit_char(mo % 10);
    crate::digits::lemma_digit_char(d / 10);
    crate::digits::lemma_digit_char(d % 10);
    crate::digits::lemma_digit_char(h / 10);
    crate::digits::lemma_digit_char(h % 10);
    crate::digits::lemma_digit_char(mi / 10);
    crate::digits::lemma_digit_char(mi % 10);
    crate::digits::lemma_digit_char(sec / 10);
    crate::digits::lemma_digit_char(sec % 10);
    crate::digits::lemma_digit_char(ms / 100);
    crate::digits::lemma_digit_char((ms / 10) % 10);
    crate::digits::lemma_digit_char(ms % 10);
    assert(s.len() == 23);
    assert(s[0] == digit_char(y / 1000));
    assert(s[1] == digit_char((y / 100) % 10));
    assert(s[2] == digit_char((y / 10) % 10));
    assert(s[3] == digit_char(y % 10));
    assert(s[4] == '-');
    assert(s[5] == digit_char(mo / 10));
    assert(s[6] == digit_char(mo % 10));
    assert(s[7] == '-');
    assert(s[8] == digit_char(d / 10));
    assert(s[9] == digit_char(d % 10));
    assert(s[10] == 'T');
    assert(s[11] == digit_char(h / 10));
    assert(s[12] == digit_char(h % 10));
    assert(s[13] == ':');
    assert(s[14] == digit_char(mi / 10));
    assert(s[15] == digit_char(mi % 10));
    assert(s[16] == ':');
    assert(s[17] == digit_char(sec / 10));
    assert(s[18] == digit_char(sec % 10));
    assert(s[19] == '.');
    assert(s[20] == digit_char(ms / 100));
    assert(s[21] == digit_char((ms / 10) % 10));
    assert(s[22] == digit_char(ms % 10));
    assert(date_time_shape(s));
    assert(fields_of(s) == t);
    let z = ts_text_z(t);
    assert(z.len() == 24);
    assert(forall|k: int| 0 <= k < 23 ==> z[k] == s[k]);
    assert(date_time_shape(z));
    assert(z[23] == 'Z');
    assert(fields_of(z) == t);
}

/// A sequence with a character beyond ASCII spells no timestamp.
proof fn lemma_non_ascii_unparseable(s: Seq<char>)
    requires
        !vstd::utf8::is_ascii_chars(s),
    ensures
        parse_ts(s) is None,
        parse_ts_z(s) is None,
{
    let j = choose|j: int| 0 <= j < s.len() && !('\0' <= #[trigger] s[j] <= '\u{7f}');
    if s.len() == 23 || s.len() == 24 {
        if date_time_shape(s) && (s.len() == 23 || s[23] == 'Z') {
            assert('\0' <= s[j] <= '\u{7f}');
        }
    }
}

/// Reads the 23 leading bytes as a timestamp. `chars` carries the
/// characters the bytes spell.
fn parse_core(bytes: &[u8], chars: Ghost<Seq<char>>) -> (r: Option<Timestamp>)
    requires
        bytes@.len() == 23,
        chars@.len() == 23,
        forall|k: int|
            0 <= k < 23 ==> ('\0' <= #[trigger] chars@[k] <= '\u{7f}' && bytes@[k] as int
                == chars@[k] as int),
    ensures
        r == parse_ts(chars@),
{
    let b0 = bytes[0];
    let b1 = bytes[1];
    let b2 = bytes[2];
    let b3 = bytes[3];
    let b5 = bytes[5];
    let b6 = bytes[6];
    let b8 = bytes[8];
    let b9 = bytes[9];
    let b11 = bytes[11];
    let b12 = bytes[12];
    let b14 = bytes[14];
    let b15 = bytes[15];
    let b17 = bytes[17];
    let b18 = bytes[18];
    let b20 = bytes[20];
    let b21 = bytes[21];
    let b22 = bytes[22];
    let shape = 48 <= b0 && b0 <= 57 && 48 <= b1 && b1 <= 57 && 48 <= b2 && b2 <= 57 && 48 <= b3
        && b3 <= 57 && bytes[4] == 45 && 48 <= b5 && b5 <= 57 && 48 <= b6 && b6 <= 57 && bytes[7]
        == 45 && 48 <= b8 && b8 <= 57 && 48 <= b9 && b9 <= 57 && bytes[10] == 84 && 48 <= b11
        && b11 <= 57 && 48 <= b12 && b12 <= 57 && bytes[13] == 58 && 48 <= b14 && b14 <= 57 && 48
        <= b15 && b15 <= 57 && bytes[16] == 58 && 48 <= b17 && b17 <= 57 && 48 <= b18 && b18 <= 57
        && bytes[19] == 46 && 48 <= b20 && b20 <= 57 && 48 <= b21 && b21 <= 57 && 48 <= b22 && b22
        <= 57;
    proof {
        assert(shape == date_time_shape(chars@));
    }
    if !shape {
        return None;
    }
    let year: u16 = (b0 - 48) as u16 * 1000 + (b1 - 48) as u16 * 100 + (b2 - 48) as u16 * 10 + (b3
        - 48) as u16;
    let month: u8 = (b5 - 48) * 10 + (b6 - 48);
    let day: u8 = (b8 - 48) * 10 + (b9 - 48);
    let hour: u8 = (b11 - 48) * 10 + (b12 - 48);
    let minute: u8 = (b14 - 48) * 10 + (b15 - 48);
    let second: u8 = (b17 - 48) * 10 + (b18 - 48);
    let milli: u16 = (b20 - 48) as u16 * 100 + (b21 - 48) as u16 * 10 + (b22 - 48) as u16;
    let t = Timestamp { year, month, day, hour, minute, second, milli };
    proof {
        assert(t == fields_of(chars@));
    }
    if month < 1 || month > 12 {
        return None;
    }
    if day < 1 || day > month_days(year, month) {
        return None;
    }
    if hour > 23 || minute > 59 || second > 59 {
        return None;
    }
    Some(t)
}

/// Parses text in the store's timestamp shape without a zone marker.
/// Returns the spelled instant exactly when `s` is such a text and the
/// instant is calendar-valid.
pub fn parse_timestamp(s: &str) -> (r: Option<Timestamp>)
    ensures
        r == parse_ts(s@),
{
    proof {
        broadcast use vstd::string::is_ascii_spec_bytes;

    }
    if !s.is_ascii() {
        proof {
            lemma_non_ascii_unparseable(s@);
        }
        return None;
    }
    let bytes = s.as_bytes();
    if bytes.len() != 23 {
        return None;
    }
    parse_core(bytes, Ghost(s@))
}

/// Parses text in the store's timestamp shape with the trailing zone
/// marker. Returns the spelled instant exactly when `s` is such a text
/// and the instant is calendar-valid.
pub fn parse_timestamp_z(s: &str) -> (r: Option<Timestamp>)
    ensures
        r == parse_ts_z(s@),
{
    proof {
        broadcast use vstd::string::is_ascii_spec_bytes;

    }
    if !s.is_ascii() {
        proof {
            lemma_non_ascii_unparseable(s@);
        }
        return None;
    }
    let bytes = s.as_bytes();
    if bytes.len() != 24 {
        return None;
    }
    if bytes[23] != 90 {
        return None;
    }
    let prefix = vstd::slice::slice_subrange(bytes, 0, 23);
    let r = parse_core(prefix, Ghost(s@.take(23)));
    proof {
        assert(date_time_shape(s@.take(23)) == date_time_shape(s@));
        if date_time_shape(s@) {
            assert(fields_of(s@.take(23)) == fields_of(s@));
        }
    }
    r
}

} // verus!
