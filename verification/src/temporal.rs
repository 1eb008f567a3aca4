//! Dates and datetimes with fixed offsets: parsing, calendar fields,
//! flooring to a unit, and rendering with the `date_format` token subset.
//! Parsing and calendar arithmetic are chrono's; the values are plain
//! calendar fields.
use vstd::prelude::*;

use chrono::{Datelike, Timelike};

use crate::readers::{trim_spec, trimmed};
use crate::text::{chars_of, decimal, push_char, push_decimal, push_repeated, push_str, repeated, str_eq,
    string_from_chars};

verus! {

/// Calendar units accepted by `date_floor`.
#[derive(Clone, Copy, Debug, Eq, PartialEq, Structural)]
pub enum TemporalUnit {
    Day,
    Week,
    Month,
    Year,
}

pub open spec fn temporal_unit_spec(text: Seq<char>) -> Option<TemporalUnit> {
    if text == "day"@ {
        Some(TemporalUnit::Day)
    } else if text == "week"@ {
        Some(TemporalUnit::Week)
    } else if text == "month"@ {
        Some(TemporalUnit::Month)
    } else if text == "year"@ {
        Some(TemporalUnit::Year)
    } else {
        None
    }
}

pub fn parse_temporal_unit(text: &str) -> (r: Option<TemporalUnit>)
    ensures
        r == temporal_unit_spec(text@),
{
    if str_eq(text, "day") {
        Some(TemporalUnit::Day)
    } else if str_eq(text, "week") {
        Some(TemporalUnit::Week)
    } else if str_eq(text, "month") {
        Some(TemporalUnit::Month)
    } else if str_eq(text, "year") {
        Some(TemporalUnit::Year)
    } else {
        None
    }
}


// ---------------------------------------------------------------------------
// The calendar
// ---------------------------------------------------------------------------

/// Years chrono's dates reach: from 262144 BCE (year -262143) to 262142 CE.
pub open spec fn year_in_range(y: int) -> bool {
    -262143 <= y <= 262142
}

pub open spec fn is_leap_year(y: int) -> bool {
    y % 4 == 0 && (y % 100 != 0 || y % 400 == 0)
}

pub open spec fn days_in_month(y: int, m: int) -> int {
    if m == 2 {
        if is_leap_year(y) {
            29
        } else {
            28
        }
    } else if m == 4 || m == 6 || m == 9 || m == 11 {
        30
    } else {
        31
    }
}

/// A proleptic Gregorian date that chrono can represent.
pub open spec fn valid_date(y: int, m: int, d: int) -> bool {
    &&& year_in_range(y)
    &&& 1 <= m <= 12
    &&& 1 <= d <= days_in_month(y, m)
}

/// A calendar date.
#[derive(Clone, Copy, Debug, PartialEq, Eq)]
pub struct CalendarDate {
    year: i32,
    month: u32,
    day: u32,
}

impl CalendarDate {
    #[verifier::type_invariant]
    spec fn well_formed(self) -> bool {
        valid_date(self.year as int, self.month as int, self.day as int)
    }

    pub closed spec fn ymd(self) -> (int, int, int) {
        (self.year as int, self.month as int, self.day as int)
    }

    fn from_valid(year: i32, month: u32, day: u32) -> (r: Self)
        requires
            valid_date(year as int, month as int, day as int),
        ensures
            r.ymd() == (year as int, month as int, day as int),
    {
        CalendarDate { year, month, day }
    }

    pub fn year(&self) -> (r: i32)
        ensures
            r as int == self.ymd().0,
    {
        self.year
    }

    pub fn month(&self) -> (r: u32)
        ensures
            r as int == self.ymd().1,
    {
        self.month
    }

    pub fn day(&self) -> (r: u32)
        ensures
            r as int == self.ymd().2,
    {
        self.day
    }
}

pub type DateTimeParts = (int, int, int, int, int, int, int, int);

/// A local date and time of day with the fixed offset it was written in.
#[derive(Clone, Copy, Debug, PartialEq, Eq)]
pub struct ZonedDateTime {
    date: CalendarDate,
    hour: u32,
    minute: u32,
    second: u32,
    nanosecond: u32,
    offset_seconds: i32,
}

impl ZonedDateTime {
    #[verifier::type_invariant]
    spec fn well_formed(self) -> bool {
        &&& self.hour < 24
        &&& self.minute < 60
        &&& self.second < 60
        &&& -86400 < self.offset_seconds < 86400
    }

    /// Year, month, day, hour, minute, second, nanosecond and offset in
    /// seconds east of UTC.
    pub closed spec fn parts(self) -> DateTimeParts {
        (
            self.date.ymd().0,
            self.date.ymd().1,
            self.date.ymd().2,
            self.hour as int,
            self.minute as int,
            self.second as int,
            self.nanosecond as int,
            self.offset_seconds as int,
        )
    }

    pub closed spec fn local_date(self) -> CalendarDate {
        self.date
    }

}

/// A parsed temporal value: a calendar date, or a datetime with its fixed
/// offset.
#[derive(Clone, Copy, Debug, PartialEq, Eq)]
pub enum TemporalValue {
    Date(CalendarDate),
    DateTime(ZonedDateTime),
}

/// The calendar date a value was written as.
pub open spec fn value_date(v: TemporalValue) -> (int, int, int) {
    match v {
        TemporalValue::Date(d) => d.ymd(),
        TemporalValue::DateTime(t) => (t.parts().0, t.parts().1, t.parts().2),
    }
}

// ---------------------------------------------------------------------------
// chrono
// ---------------------------------------------------------------------------

/// The date chrono's `NaiveDate::parse_from_str(text, "%Y-%m-%d")` reads.
pub uninterp spec fn parsed_date_of(text: Seq<char>) -> Option<(int, int, int)>;

/// The local date, time, nanosecond and offset that chrono's
/// `DateTime::parse_from_rfc3339` reads.
pub uninterp spec fn parsed_datetime_of(text: Seq<char>) -> Option<DateTimeParts>;

/// Days from 0001-01-01 to the first of January of year `y` in the
/// proleptic Gregorian calendar (negative before year 1).
pub open spec fn days_before_year(y: int) -> int {
    let p = y - 1;
    365 * p + p / 4 - p / 100 + p / 400
}

/// Days in the months of year `y` before month `m`.
pub open spec fn days_before_month(y: int, m: int) -> int
    decreases m,
{
    if m <= 1 {
        0
    } else {
        days_before_month(y, m - 1) + days_in_month(y, m - 1)
    }
}

/// The day number of a date: days since 0001-01-01, which was a Monday.
pub open spec fn day_number(y: int, m: int, d: int) -> int {
    days_before_year(y) + days_before_month(y, m) + d - 1
}

/// The day of the week counted from Monday: 0 for Monday to 6 for Sunday.
pub open spec fn weekday_from_monday(y: int, m: int, d: int) -> int {
    day_number(y, m, d) % 7
}

/// The day of the year, from 1.
pub open spec fn day_of_year(y: int, m: int, d: int) -> int {
    days_before_month(y, m) + d
}

/// The day number of the Thursday of a date's ISO week (Monday to Sunday).
pub open spec fn iso_thursday(y: int, m: int, d: int) -> int {
    day_number(y, m, d) - weekday_from_monday(y, m, d) + 3
}

/// Whether day number `t` falls in year `y`.
pub open spec fn in_year(t: int, y: int) -> bool {
    days_before_year(y) <= t < days_before_year(y + 1)
}

/// The ISO week-year of a date: the year of its week's Thursday.
pub open spec fn iso_week_year(y: int, m: int, d: int) -> int {
    choose|wy: int| in_year(iso_thursday(y, m, d), wy)
}

/// The ISO week of a date within its week-year, from 1.
pub open spec fn iso_week_number(y: int, m: int, d: int) -> int {
    (iso_thursday(y, m, d) - days_before_year(iso_week_year(y, m, d))) / 7 + 1
}

/// The valid date `n` days before a date, where there is one.
pub open spec fn days_earlier(ymd: (int, int, int), n: int) -> Option<(int, int, int)> {
    if exists|e: (int, int, int)| valid_date(e.0, e.1, e.2) && day_number(e.0, e.1, e.2) == day_number(ymd.0, ymd.1, ymd.2) - n {
        Some(choose|e: (int, int, int)| valid_date(e.0, e.1, e.2) && day_number(e.0, e.1, e.2) == day_number(ymd.0, ymd.1, ymd.2) - n)
    } else {
        None
    }
}

#[verifier::spinoff_prover]
proof fn lemma_year_length(y: int)
    ensures
        days_before_year(y + 1) == days_before_year(y) + 365 + if is_leap_year(y) { 1int } else { 0int },
{
    let p = y - 1;
    assert(y / 4 == p / 4 + if y % 4 == 0 { 1int } else { 0int }) by (nonlinear_arith)
        requires
            p == y - 1,
    ;
    assert(y / 100 == p / 100 + if y % 100 == 0 { 1int } else { 0int }) by (nonlinear_arith)
        requires
            p == y - 1,
    ;
    assert(y / 400 == p / 400 + if y % 400 == 0 { 1int } else { 0int }) by (nonlinear_arith)
        requires
            p == y - 1,
    ;
}

proof fn lemma_years_ordered(a: int, b: int)
    requires
        a < b,
    ensures
        days_before_year(a + 1) <= days_before_year(b),
    decreases b - a,
{
    lemma_year_length(a);
    if a + 1 < b {
        lemma_years_ordered(a + 1, b);
        lemma_year_length(a + 1);
    }
}

/// A day number falls in one year only.
proof fn lemma_one_year(t: int, a: int, b: int)
    requires
        in_year(t, a),
        in_year(t, b),
    ensures
        a == b,
{
    if a < b {
        lemma_years_ordered(a, b);
    } else if b < a {
        lemma_years_ordered(b, a);
    }
}

proof fn lemma_months_before(y: int, m: int)
    requires
        1 <= m <= 13,
    ensures
        0 <= days_before_month(y, m),
        m <= 12 ==> days_before_month(y, m) + days_in_month(y, m) <= 365 + if is_leap_year(y) { 1int } else { 0int },
        m == 13 ==> days_before_month(y, m) == 365 + if is_leap_year(y) { 1int } else { 0int },
    decreases m,
{
    if m > 1 {
        lemma_months_before(y, m - 1);
    }
    assert(days_before_month(y, 13) == 365 + if is_leap_year(y) { 1int } else { 0int }) by {
        reveal_with_fuel(days_before_month, 13);
    }
    if m <= 12 {
        lemma_months_ordered(y, m + 1, 13);
    }
}

proof fn lemma_months_ordered(y: int, a: int, b: int)
    requires
        1 <= a <= b,
    ensures
        days_before_month(y, a) <= days_before_month(y, b),
        a < b ==> days_before_month(y, a) + days_in_month(y, a) <= days_before_month(y, b),
    decreases b - a,
{
    if a < b {
        lemma_months_ordered(y, a, b - 1);
    }
}

/// A valid date's day number falls in its own year.
proof fn lemma_date_in_year(y: int, m: int, d: int)
    requires
        valid_date(y, m, d),
    ensures
        in_year(day_number(y, m, d), y),
        0 <= day_of_year(y, m, d) - 1 < 366,
{
    lemma_months_before(y, m);
    lemma_year_length(y);
}

/// Distinct valid dates have distinct day numbers.
proof fn lemma_day_number_injective(a: (int, int, int), b: (int, int, int))
    requires
        valid_date(a.0, a.1, a.2),
        valid_date(b.0, b.1, b.2),
        day_number(a.0, a.1, a.2) == day_number(b.0, b.1, b.2),
    ensures
        a == b,
{
    lemma_date_in_year(a.0, a.1, a.2);
    lemma_date_in_year(b.0, b.1, b.2);
    lemma_one_year(day_number(a.0, a.1, a.2), a.0, b.0);
    if a.1 < b.1 {
        lemma_months_ordered(a.0, a.1, b.1);
    } else if b.1 < a.1 {
        lemma_months_ordered(a.0, b.1, a.1);
    }
}

/// Every valid date is on or after chrono's first date.
proof fn lemma_after_first_date(y: int, m: int, d: int)
    requires
        valid_date(y, m, d),
    ensures
        day_number(-262143, 1, 1) <= day_number(y, m, d),
{
    lemma_months_before(y, m);
    if -262143 < y {
        lemma_years_ordered(-262143, y);
        lemma_year_length(-262143);
    }
}

/// The year as RFC 3339 writes it: four digits within 0..=9999, else with
/// its sign and at least four digits.
pub open spec fn rfc3339_year(y: int) -> Seq<char> {
    if 0 <= y <= 9999 {
        padded(y, 4)
    } else if y < 0 {
        padded(y, 5)
    } else {
        seq!['+'] + decimal(y as nat)
    }
}

/// The offset as RFC 3339 writes it: `Z` for UTC, else its sign and
/// `hh:mm`, rounded to the nearest minute.
pub open spec fn rfc3339_offset(off: int) -> Seq<char> {
    if off == 0 {
        "Z"@
    } else {
        let minutes = ((if off < 0 { -off } else { off }) + 30) / 60;
        (if off < 0 { seq!['-'] } else { seq!['+'] }) + padded(minutes / 60, 2) + ":"@ + padded(minutes % 60, 2)
    }
}

/// `YYYY-MM-DDThh:mm:ss` and the offset; a leap second (a nanosecond
/// count of a second or more) shows as second 60.
pub open spec fn rfc3339_text(p: DateTimeParts) -> Seq<char> {
    let sec = if p.6 >= 1_000_000_000 { p.5 + 1 } else { p.5 };
    rfc3339_year(p.0) + "-"@ + padded(p.1, 2) + "-"@ + padded(p.2, 2) + "T"@ + padded(p.3, 2) + ":"@
        + padded(p.4, 2) + ":"@ + padded(sec, 2) + rfc3339_offset(p.7)
}

/// What chrono's `DateTime::to_rfc3339_opts(SecondsFormat::Secs, true)`
/// renders for the datetime with these parts; nothing where chrono cannot
/// build that datetime: a field out of range, a leap second off second 59,
/// or a UTC instant outside its dates.
pub open spec fn rfc3339_of(p: DateTimeParts) -> Option<Seq<char>> {
    let utc = p.3 * 3600 + p.4 * 60 + p.5 - p.7;
    if !valid_date(p.0, p.1, p.2) || !(0 <= p.3 < 24) || !(0 <= p.4 < 60) || !(0 <= p.5 < 60)
        || !(0 <= p.6 < 2_000_000_000) || (p.6 >= 1_000_000_000 && p.5 != 59) || !(-86400 < p.7 < 86400) {
        None
    } else if utc < 0 && p.0 == -262143 && p.1 == 1 && p.2 == 1 {
        None
    } else if utc >= 86400 && p.0 == 262142 && p.1 == 12 && p.2 == 31 {
        None
    } else {
        Some(rfc3339_text(p))
    }
}

/// Calls `NaiveDate::parse_from_str(text, "%Y-%m-%d")` and reads the date's
/// fields. chrono's dates are valid calendar dates in its year range.
#[verifier::external_body]
fn chrono_parse_date(text: &str) -> (r: Option<CalendarDate>)
    ensures
        match r {
            Some(d) => parsed_date_of(text@) == Some(d.ymd()),
            None => parsed_date_of(text@) is None,
        },
{
    chrono::NaiveDate::parse_from_str(text, "%Y-%m-%d").ok().map(|date| CalendarDate {
        year: date.year(),
        month: date.month(),
        day: date.day(),
    })
}

/// Calls `DateTime::parse_from_rfc3339(text)` and reads the local date,
/// hour, minute, second, nanosecond and offset. chrono documents the ranges
/// of hour, minute and second and that offsets are less than a day.
#[verifier::external_body]
fn chrono_parse_datetime(text: &str) -> (r: Option<ZonedDateTime>)
    ensures
        match r {
            Some(t) => parsed_datetime_of(text@) == Some(t.parts()),
            None => parsed_datetime_of(text@) is None,
        },
{
    chrono::DateTime::parse_from_rfc3339(text).ok().map(|datetime| {
        let date = datetime.date_naive();
        ZonedDateTime {
            date: CalendarDate { year: date.year(), month: date.month(), day: date.day() },
            hour: datetime.hour(),
            minute: datetime.minute(),
            second: datetime.second(),
            nanosecond: datetime.nanosecond(),
            offset_seconds: datetime.offset().local_minus_utc(),
        }
    })
}

/// Calls `Weekday::num_days_from_monday` on the weekday of `date`: 0 for
/// Monday to 6 for Sunday, in the proleptic Gregorian calendar chrono
/// uses.
#[verifier::external_body]
fn chrono_days_from_monday(date: CalendarDate) -> (r: u32)
    ensures
        r as int == weekday_from_monday(date.ymd().0, date.ymd().1, date.ymd().2),
{
    chrono::NaiveDate::from_ymd_opt(date.year, date.month, date.day).map_or(0, |d| d.weekday().num_days_from_monday())
}

/// Calls `NaiveDate::iso_week` on `date` and reads its year and week: the
/// year of the Thursday of the date's Monday-to-Sunday week, and the week
/// of that Thursday within it, from 1.
#[verifier::external_body]
fn chrono_iso_week(date: CalendarDate) -> (r: (i32, u32))
    ensures
        in_year(iso_thursday(date.ymd().0, date.ymd().1, date.ymd().2), r.0 as int),
        r.1 as int == (iso_thursday(date.ymd().0, date.ymd().1, date.ymd().2) - days_before_year(r.0 as int)) / 7 + 1,
{
    chrono::NaiveDate::from_ymd_opt(date.year, date.month, date.day)
        .map_or((0, 1), |d| (d.iso_week().year(), d.iso_week().week()))
}

/// Calls `Datelike::ordinal` on `date`: its day of the year, from 1.
#[verifier::external_body]
fn chrono_ordinal(date: CalendarDate) -> (r: u32)
    ensures
        r as int == day_of_year(date.ymd().0, date.ymd().1, date.ymd().2),
{
    chrono::NaiveDate::from_ymd_opt(date.year, date.month, date.day).map_or(1, |d| d.ordinal())
}

/// Calls `NaiveDate::checked_sub_days` on `date`: the date `n` days
/// earlier, or nothing where that falls before chrono's first date,
/// January 1 of year -262143.
#[verifier::external_body]
fn chrono_days_earlier(date: CalendarDate, n: u32) -> (r: Option<CalendarDate>)
    ensures
        match r {
            Some(e) => day_number(e.ymd().0, e.ymd().1, e.ymd().2) == day_number(date.ymd().0, date.ymd().1, date.ymd().2) - n,
            None => day_number(date.ymd().0, date.ymd().1, date.ymd().2) - n < day_number(-262143, 1, 1),
        },
{
    chrono::NaiveDate::from_ymd_opt(date.year, date.month, date.day)
        .and_then(|d| d.checked_sub_days(chrono::Days::new(u64::from(n))))
        .map(|e| CalendarDate { year: e.year(), month: e.month(), day: e.day() })
}

/// Builds the chrono `DateTime<FixedOffset>` with these parts and calls
/// `to_rfc3339_opts(SecondsFormat::Secs, true)` on it: chrono's
/// `write_rfc3339` writes the local date and time, then the offset with
/// minute precision, or `Z`; building fails as `rfc3339_of` says.
#[verifier::external_body]
fn chrono_rfc3339(t: ZonedDateTime) -> (r: Option<String>)
    ensures
        match r {
            Some(s) => rfc3339_of(t.parts()) == Some(s@),
            None => rfc3339_of(t.parts()) is None,
        },
{
    let offset = chrono::FixedOffset::east_opt(t.offset_seconds)?;
    chrono::NaiveDate::from_ymd_opt(t.date.year, t.date.month, t.date.day)?
        .and_hms_nano_opt(t.hour, t.minute, t.second, t.nanosecond)?
        .and_local_timezone(offset)
        .single()
        .map(|datetime| datetime.to_rfc3339_opts(chrono::SecondsFormat::Secs, true))
}

// ---------------------------------------------------------------------------
// Parsing and fields
// ---------------------------------------------------------------------------

pub open spec fn date_value_of(ymd: (int, int, int), v: TemporalValue) -> bool {
    v matches TemporalValue::Date(d) && d.ymd() == ymd
}

/// What `parse_temporal` makes of text: the trimmed text as a date, else
/// as an RFC 3339 datetime, else nothing.
pub open spec fn parse_temporal_spec(text: Seq<char>, r: Option<TemporalValue>) -> bool {
    let t = trim_spec(text);
    match parsed_date_of(t) {
        Some(ymd) => r matches Some(v) && date_value_of(ymd, v),
        None => match parsed_datetime_of(t) {
            Some(parts) => r matches Some(v) && v matches TemporalValue::DateTime(dt) && dt.parts() == parts,
            None => r is None,
        },
    }
}

/// The value that `parse_temporal` makes of text, as a function.
pub open spec fn temporal_of(text: Seq<char>) -> Option<TemporalValue> {
    if exists|v: TemporalValue| parse_temporal_spec(text, Some(v)) {
        Some(choose|v: TemporalValue| parse_temporal_spec(text, Some(v)))
    } else {
        None
    }
}

/// Parsing gives one value only: the one `temporal_of` names.
pub proof fn lemma_parse_temporal_functional(text: Seq<char>, r: Option<TemporalValue>)
    requires
        parse_temporal_spec(text, r),
    ensures
        r == temporal_of(text),
{
    if let Some(v) = r {
        let w = choose|w: TemporalValue| parse_temporal_spec(text, Some(w));
        assert(parse_temporal_spec(text, Some(w)));
        match (v, w) {
            (TemporalValue::Date(a), TemporalValue::Date(b)) => {
                assert(a == b);
            },
            (TemporalValue::DateTime(a), TemporalValue::DateTime(b)) => {
                assert(a.date == b.date);
                assert(a == b);
            },
            _ => {},
        }
    }
}

/// Parses trimmed text as `YYYY-MM-DD` or an RFC 3339 datetime.
pub fn parse_temporal(text: &str) -> (r: Option<TemporalValue>)
    ensures
        parse_temporal_spec(text@, r),
{
    let cs = chars_of(text);
    let t = trimmed(&cs);
    if let Some(date) = chrono_parse_date(t.as_str()) {
        return Some(TemporalValue::Date(date));
    }
    match chrono_parse_datetime(t.as_str()) {
        Some(dt) => Some(TemporalValue::DateTime(dt)),
        None => None,
    }
}

fn naive_date(value: &TemporalValue) -> (r: CalendarDate)
    ensures
        r.ymd() == value_date(*value),
{
    match value {
        TemporalValue::Date(d) => *d,
        TemporalValue::DateTime(t) => {
            proof {
                use_type_invariant(t);
            }
            t.date
        },
    }
}

pub fn temporal_year(value: &TemporalValue) -> (r: i32)
    ensures
        r as int == value_date(*value).0,
{
    naive_date(value).year()
}

pub fn temporal_month(value: &TemporalValue) -> (r: u32)
    ensures
        r as int == value_date(*value).1,
{
    naive_date(value).month()
}

pub fn temporal_day(value: &TemporalValue) -> (r: u32)
    ensures
        r as int == value_date(*value).2,
{
    naive_date(value).day()
}

/// Hour, minute and second of a value; a date is at midnight.
pub open spec fn value_time(v: TemporalValue) -> (int, int, int) {
    match v {
        TemporalValue::Date(_) => (0, 0, 0),
        TemporalValue::DateTime(t) => (t.parts().3, t.parts().4, t.parts().5),
    }
}

fn temporal_time(value: &TemporalValue) -> (r: (u32, u32, u32))
    ensures
        (r.0 as int, r.1 as int, r.2 as int) == value_time(*value),
        r.0 < 24 && r.1 < 60 && r.2 < 60,
{
    match value {
        TemporalValue::Date(_) => (0, 0, 0),
        TemporalValue::DateTime(t) => {
            proof {
                use_type_invariant(t);
            }
            (t.hour, t.minute, t.second)
        },
    }
}

// ---------------------------------------------------------------------------
// Rendering numbers
// ---------------------------------------------------------------------------

/// `n` in decimal, zero-padded to `width` characters with the sign
/// counted, as Rust's `{:0width}` prints integers.
pub open spec fn padded(n: int, width: nat) -> Seq<char> {
    if n < 0 {
        let digits = decimal((-n) as nat);
        let fill = if digits.len() + 1 < width { (width - digits.len() - 1) as nat } else { 0nat };
        seq!['-'] + repeated('0', fill) + digits
    } else {
        let digits = decimal(n as nat);
        let fill = if digits.len() < width { (width - digits.len()) as nat } else { 0nat };
        repeated('0', fill) + digits
    }
}

proof fn lemma_decimal_len_bound(n: nat)
    ensures
        1 <= decimal(n).len() <= n + 1,
    decreases n,
{
    if n >= 10 {
        lemma_decimal_len_bound(n / 10);
    }
}

fn decimal_len(n: usize) -> (r: usize)
    ensures
        r as int == decimal(n as nat).len(),
    decreases n,
{
    if n >= 10 {
        let k = decimal_len(n / 10);
        proof {
            lemma_decimal_len_bound((n / 10) as nat);
        }
        assert(decimal(n as nat) == decimal((n / 10) as nat).push(crate::text::digit_char((n % 10) as int)));
        k + 1
    } else {
        1
    }
}

/// Appends `n` zero-padded to `width` characters.
pub fn push_padded(out: &mut String, n: i32, width: usize)
    requires
        width < 16,
    ensures
        final(out)@ == old(out)@ + padded(n as int, width as nat),
{
    let ghost start = out@;
    if n < 0 {
        let m: usize = (-(n as i64)) as usize;
        let len = decimal_len(m);
        proof {
            lemma_decimal_len_bound(m as nat);
        }
        let fill: usize = if len + 1 < width { width - len - 1 } else { 0 };
        push_char(out, '-');
        push_repeated(out, '0', fill);
        push_decimal(out, m);
        proof {
            assert(out@ =~= start + (seq!['-'] + repeated('0', fill as nat) + decimal((-(n as int)) as nat)));
        }
    } else {
        let m: usize = n as usize;
        let len = decimal_len(m);
        let fill: usize = if len < width { width - len } else { 0 };
        push_repeated(out, '0', fill);
        push_decimal(out, m);
        proof {
            assert(m as nat == n as nat);
            assert(out@ =~= start + (repeated('0', fill as nat) + decimal(n as nat)));
        }
    }
}

/// The date as `YYYY-MM-DD`, each field zero-padded.
pub open spec fn date_text(ymd: (int, int, int)) -> Seq<char> {
    padded(ymd.0, 4) + "-"@ + padded(ymd.1, 2) + "-"@ + padded(ymd.2, 2)
}

/// Renders the calendar date of a value as `YYYY-MM-DD`.
pub fn normalize_date(value: &TemporalValue) -> (r: String)
    ensures
        r@ == date_text(value_date(*value)),
{
    let d = naive_date(value);
    proof {
        use_type_invariant(&d);
    }
    let mut out = String::new();
    push_padded(&mut out, d.year(), 4);
    push_str(&mut out, "-");
    push_padded(&mut out, d.month() as i32, 2);
    push_str(&mut out, "-");
    push_padded(&mut out, d.day() as i32, 2);
    out
}

/// Renders a datetime as RFC 3339 with whole seconds; a date has no time
/// and renders as nothing.
pub fn normalize_datetime(value: &TemporalValue) -> (r: Option<String>)
    ensures
        match *value {
            TemporalValue::Date(_) => r is None,
            TemporalValue::DateTime(t) => match rfc3339_of(t.parts()) {
                Some(text) => r matches Some(s) && s@ == text,
                None => r is None,
            },
        },
{
    match value {
        TemporalValue::Date(_) => None,
        TemporalValue::DateTime(t) => chrono_rfc3339(*t),
    }
}

// ---------------------------------------------------------------------------
// Flooring
// ---------------------------------------------------------------------------

/// The first date of the unit that holds a date: itself for days, the
/// Monday of its ISO week, the first of its month, or January 1.
pub open spec fn floor_date_spec(ymd: (int, int, int), unit: TemporalUnit) -> (int, int, int) {
    match unit {
        TemporalUnit::Day => ymd,
        TemporalUnit::Week => match days_earlier(ymd, weekday_from_monday(ymd.0, ymd.1, ymd.2)) {
            Some(monday) => monday,
            None => ymd,
        },
        TemporalUnit::Month => (ymd.0, ymd.1, 1),
        TemporalUnit::Year => (ymd.0, 1, 1),
    }
}

fn floor_date(date: CalendarDate, unit: TemporalUnit) -> (r: CalendarDate)
    ensures
        r.ymd() == floor_date_spec(date.ymd(), unit),
{
    proof {
        use_type_invariant(&date);
    }
    match unit {
        TemporalUnit::Day => date,
        TemporalUnit::Week => {
            let back = chrono_days_from_monday(date);
            let ghost ymd = date.ymd();
            let ghost target = day_number(ymd.0, ymd.1, ymd.2) - back;
            match chrono_days_earlier(date, back) {
                Some(monday) => {
                    proof {
                        use_type_invariant(&monday);
                        let m = monday.ymd();
                        assert(valid_date(m.0, m.1, m.2) && day_number(m.0, m.1, m.2) == target);
                        let e = choose|e: (int, int, int)| valid_date(e.0, e.1, e.2) && day_number(e.0, e.1, e.2) == target;
                        lemma_day_number_injective(e, m);
                    }
                    monday
                },
                None => {
                    proof {
                        assert forall|e: (int, int, int)| valid_date(e.0, e.1, e.2) implies day_number(e.0, e.1, e.2) != target by {
                            lemma_after_first_date(e.0, e.1, e.2);
                        }
                    }
                    date
                },
            }
        },
        TemporalUnit::Month => CalendarDate::from_valid(date.year(), date.month(), 1),
        TemporalUnit::Year => CalendarDate::from_valid(date.year(), 1, 1),
    }
}

/// Floors a value to the start of `unit`. Datetimes floor in their own
/// offset's calendar, land at midnight and keep their offset.
pub fn floor_temporal(value: &TemporalValue, unit: TemporalUnit) -> (r: TemporalValue)
    ensures
        value_date(r) == floor_date_spec(value_date(*value), unit),
        match (*value, r) {
            (TemporalValue::Date(_), TemporalValue::Date(_)) => true,
            (TemporalValue::DateTime(a), TemporalValue::DateTime(b)) => b.parts().3 == 0 && b.parts().4 == 0
                && b.parts().5 == 0 && b.parts().6 == 0 && b.parts().7 == a.parts().7,
            _ => false,
        },
{
    match value {
        TemporalValue::Date(d) => TemporalValue::Date(floor_date(*d, unit)),
        TemporalValue::DateTime(t) => {
            proof {
                use_type_invariant(t);
            }
            let floored = floor_date(t.date, unit);
            TemporalValue::DateTime(
                ZonedDateTime {
                    date: floored,
                    hour: 0,
                    minute: 0,
                    second: 0,
                    nanosecond: 0,
                    offset_seconds: t.offset_seconds,
                },
            )
        },
    }
}

// ---------------------------------------------------------------------------
// Formatting
// ---------------------------------------------------------------------------

/// The offset of a datetime as `+HHMM`, or `+HH:MM` with `colon`; a date
/// has none.
pub open spec fn offset_text_spec(v: TemporalValue, colon: bool) -> Option<Seq<char>> {
    match v {
        TemporalValue::Date(_) => None,
        TemporalValue::DateTime(t) => {
            let s = t.parts().7;
            let sign = if s < 0 { '-' } else { '+' };
            let minutes = (if s < 0 { -s } else { s }) / 60;
            Some(seq![sign] + padded(minutes / 60, 2) + (if colon { ":"@ } else { Seq::empty() }) + padded(minutes % 60, 2))
        },
    }
}

/// The text one `%` token renders for a value.
pub open spec fn token_text(v: TemporalValue, t: char) -> Option<Seq<char>> {
    let ymd = value_date(v);
    let hms = value_time(v);
    if t == 'Y' {
        Some(padded(ymd.0, 4))
    } else if t == 'm' {
        Some(padded(ymd.1, 2))
    } else if t == 'd' {
        Some(padded(ymd.2, 2))
    } else if t == 'H' {
        Some(padded(hms.0, 2))
    } else if t == 'M' {
        Some(padded(hms.1, 2))
    } else if t == 'S' {
        Some(padded(hms.2, 2))
    } else if t == 'G' {
        Some(padded(iso_week_year(ymd.0, ymd.1, ymd.2), 4))
    } else if t == 'V' {
        Some(padded(iso_week_number(ymd.0, ymd.1, ymd.2), 2))
    } else if t == 'u' {
        Some(decimal((weekday_from_monday(ymd.0, ymd.1, ymd.2) + 1) as nat))
    } else if t == 'j' {
        Some(padded(day_of_year(ymd.0, ymd.1, ymd.2), 3))
    } else if t == 'z' {
        offset_text_spec(v, false)
    } else if t == '%' {
        Some(seq!['%'])
    } else {
        Some(seq!['%', t])
    }
}

pub open spec fn prefixed(p: Seq<char>, o: Option<Seq<char>>) -> Option<Seq<char>> {
    match o {
        Some(rest) => Some(p + rest),
        None => None,
    }
}

/// A value rendered with a pattern: characters outside tokens are kept,
/// `%:` renders the offset with a colon (and consumes the character after
/// it), and an offset token on a date makes the whole rendering nothing.
pub open spec fn format_spec(v: TemporalValue, cs: Seq<char>) -> Option<Seq<char>>
    decreases cs.len(),
{
    if cs.len() == 0 {
        Some(Seq::empty())
    } else if cs[0] != '%' {
        prefixed(seq![cs[0]], format_spec(v, cs.drop_first()))
    } else if cs.len() == 1 {
        Some(seq!['%'])
    } else if cs[1] == ':' {
        match offset_text_spec(v, true) {
            Some(o) => prefixed(o, format_spec(v, cs.skip(if cs.len() >= 3 { 3 } else { 2 }))),
            None => None,
        }
    } else {
        match token_text(v, cs[1]) {
            Some(p) => prefixed(p, format_spec(v, cs.skip(2))),
            None => None,
        }
    }
}

fn offset_text(value: &TemporalValue, colon: bool) -> (r: Option<String>)
    ensures
        match offset_text_spec(*value, colon) {
            Some(t) => r matches Some(s) && s@ == t,
            None => r is None,
        },
{
    match value {
        TemporalValue::Date(_) => None,
        TemporalValue::DateTime(t) => {
            proof {
                use_type_invariant(t);
            }
            let seconds = t.offset_seconds;
            let sign = if seconds < 0 { '-' } else { '+' };
            let magnitude: i32 = if seconds < 0 { -seconds } else { seconds };
            let minutes = magnitude / 60;
            let mut out = String::new();
            push_char(&mut out, sign);
            push_padded(&mut out, minutes / 60, 2);
            if colon {
                push_str(&mut out, ":");
            }
            push_padded(&mut out, minutes % 60, 2);
            proof {
                if colon {
                    assert(out@ =~= seq![sign] + padded((minutes / 60) as int, 2) + ":"@ + padded((minutes % 60) as int, 2));
                } else {
                    assert(out@ =~= seq![sign] + padded((minutes / 60) as int, 2) + Seq::<char>::empty() + padded((minutes % 60) as int, 2));
                }
            }
            Some(out)
        },
    }
}

/// The ISO week-year and week that chrono reads for a date.
fn iso_week_parts(d: CalendarDate) -> (r: (i32, u32))
    ensures
        r.0 as int == iso_week_year(d.ymd().0, d.ymd().1, d.ymd().2),
        r.1 as int == iso_week_number(d.ymd().0, d.ymd().1, d.ymd().2),
        1 <= r.1 <= 53,
{
    let (y, w) = chrono_iso_week(d);
    proof {
        let ymd = d.ymd();
        let t = iso_thursday(ymd.0, ymd.1, ymd.2);
        let wy = choose|wy: int| in_year(t, wy);
        lemma_one_year(t, wy, y as int);
        lemma_year_length(y as int);
    }
    (y, w)
}

fn iso_year_text(d: CalendarDate) -> (r: String)
    ensures
        r@ == padded(iso_week_year(d.ymd().0, d.ymd().1, d.ymd().2), 4),
{
    let (y, _) = iso_week_parts(d);
    let mut out = String::new();
    push_padded(&mut out, y, 4);
    assert(out@ =~= padded(y as int, 4));
    out
}

fn iso_week_text(d: CalendarDate) -> (r: String)
    ensures
        r@ == padded(iso_week_number(d.ymd().0, d.ymd().1, d.ymd().2), 2),
{
    let (_, w) = iso_week_parts(d);
    let mut out = String::new();
    push_padded(&mut out, w as i32, 2);
    assert(out@ =~= padded(w as int, 2));
    out
}

fn weekday_text(d: CalendarDate) -> (r: String)
    ensures
        r@ == decimal((weekday_from_monday(d.ymd().0, d.ymd().1, d.ymd().2) + 1) as nat),
{
    let n = chrono_days_from_monday(d);
    let mut out = String::new();
    push_decimal(&mut out, (n + 1) as usize);
    assert(out@ =~= decimal((n + 1) as nat));
    out
}

fn ordinal_text(d: CalendarDate) -> (r: String)
    ensures
        r@ == padded(day_of_year(d.ymd().0, d.ymd().1, d.ymd().2), 3),
{
    proof {
        use_type_invariant(&d);
        lemma_date_in_year(d.ymd().0, d.ymd().1, d.ymd().2);
    }
    let n = chrono_ordinal(d);
    let mut out = String::new();
    push_padded(&mut out, n as i32, 3);
    assert(out@ =~= padded(n as int, 3));
    out
}

fn token(value: &TemporalValue, t: char) -> (r: Option<String>)
    ensures
        match token_text(*value, t) {
            Some(x) => r matches Some(s) && s@ == x,
            None => r is None,
        },
{
    let d = naive_date(value);
    let (h, mi, sec) = temporal_time(value);
    proof {
        use_type_invariant(&d);
    }
    let mut out = String::new();
    if t == 'Y' {
        push_padded(&mut out, d.year(), 4);
    } else if t == 'm' {
        push_padded(&mut out, d.month() as i32, 2);
    } else if t == 'd' {
        push_padded(&mut out, d.day() as i32, 2);
    } else if t == 'H' {
        push_padded(&mut out, h as i32, 2);
    } else if t == 'M' {
        push_padded(&mut out, mi as i32, 2);
    } else if t == 'S' {
        push_padded(&mut out, sec as i32, 2);
    } else if t == 'G' {
        out = iso_year_text(d);
    } else if t == 'V' {
        out = iso_week_text(d);
    } else if t == 'u' {
        out = weekday_text(d);
    } else if t == 'j' {
        out = ordinal_text(d);
    } else if t == 'z' {
        return offset_text(value, false);
    } else if t == '%' {
        push_char(&mut out, '%');
    } else {
        push_char(&mut out, '%');
        push_char(&mut out, t);
    }
    Some(out)
}

proof fn lemma_prefixed_assoc(a: Seq<char>, b: Seq<char>, o: Option<Seq<char>>)
    ensures
        prefixed(a, prefixed(b, o)) == prefixed(a + b, o),
{
    if let Some(r) = o {
        assert(a + (b + r) =~= (a + b) + r);
    }
}

/// Renders a value with a pattern; nothing when the pattern asks a date
/// for its offset.
pub fn format_temporal(value: &TemporalValue, pattern: &str) -> (r: Option<String>)
    ensures
        match format_spec(*value, pattern@) {
            Some(t) => r matches Some(s) && s@ == t,
            None => r is None,
        },
{
    let cs = chars_of(pattern);
    let ghost v = *value;
    let mut out = String::new();
    let mut i: usize = 0;
    assert(cs@.skip(0) =~= cs@);
    assert(format_spec(v, cs@) == prefixed(out@, format_spec(v, cs@.skip(0)))) by {
        if let Some(r) = format_spec(v, cs@) {
            assert(Seq::<char>::empty() + r =~= r);
        }
    }
    while i < cs.len()
        invariant
            i <= cs.len(),
            cs@ == pattern@,
            v == *value,
            format_spec(v, cs@) == prefixed(out@, format_spec(v, cs@.skip(i as int))),
        decreases cs.len() - i,
    {
        let ghost rest = cs@.skip(i as int);
        let ghost before = out@;
        let c = cs[i];
        assert(rest[0] == c);
        if c != '%' {
            push_char(&mut out, c);
            proof {
                assert(rest.drop_first() =~= cs@.skip(i + 1));
                lemma_prefixed_assoc(before, seq![c], format_spec(v, cs@.skip(i + 1)));
                assert(before + seq![c] =~= out@);
            }
            i += 1;
        } else if i + 1 == cs.len() {
            push_char(&mut out, '%');
            proof {
                assert(rest.len() == 1);
                assert(cs@.skip(i + 1) =~= Seq::<char>::empty());
                lemma_prefixed_assoc(before, seq!['%'], format_spec(v, cs@.skip(i + 1)));
                assert(before + seq!['%'] =~= out@);
                assert(before + seq!['%'] + Seq::<char>::empty() =~= before + seq!['%']);
            }
            i += 1;
        } else {
            let t = cs[i + 1];
            assert(rest[1] == t);
            if t == ':' {
                match offset_text(value, true) {
                    None => {
                        return None;
                    },
                    Some(o) => {
                        push_str(&mut out, o.as_str());
                        let step: usize = if cs.len() - i >= 3 { 3 } else { 2 };
                        proof {
                            assert(rest.skip(step as int) =~= cs@.skip(i + step));
                            lemma_prefixed_assoc(before, o@, format_spec(v, cs@.skip(i + step)));
                        }
                        i += step;
                    },
                }
            } else {
                match token(value, t) {
                    None => {
                        return None;
                    },
                    Some(p) => {
                        push_str(&mut out, p.as_str());
                        proof {
                            assert(rest.skip(2) =~= cs@.skip(i + 2));
                            lemma_prefixed_assoc(before, p@, format_spec(v, cs@.skip(i + 2)));
                        }
                        i += 2;
                    },
                }
            }
        }
    }
    proof {
        assert(cs@.skip(cs.len() as int) =~= Seq::<char>::empty());
        assert(out@ + Seq::<char>::empty() =~= out@);
    }
    Some(out)
}

/// Flooring to any unit twice is flooring once.
pub proof fn lemma_floor_idempotent(ymd: (int, int, int), unit: TemporalUnit)
    ensures
        floor_date_spec(floor_date_spec(ymd, unit), unit) == floor_date_spec(ymd, unit),
{
    if unit == TemporalUnit::Week {
        if let Some(m) = days_earlier(ymd, weekday_from_monday(ymd.0, ymd.1, ymd.2)) {
            let w = weekday_from_monday(ymd.0, ymd.1, ymd.2);
            let dn = day_number(ymd.0, ymd.1, ymd.2);
            assert(valid_date(m.0, m.1, m.2) && day_number(m.0, m.1, m.2) == dn - w);
            assert((dn - dn % 7) % 7 == 0) by (nonlinear_arith);
            assert(weekday_from_monday(m.0, m.1, m.2) == 0);
            assert(valid_date(m.0, m.1, m.2) && day_number(m.0, m.1, m.2) == day_number(m.0, m.1, m.2) - 0);
            let e = choose|e: (int, int, int)| valid_date(e.0, e.1, e.2) && day_number(e.0, e.1, e.2) == day_number(m.0, m.1, m.2) - 0;
            lemma_day_number_injective(e, m);
        }
    }
}

/// A datetime renders with every pattern: only an offset token on a date
/// makes a rendering fail.
pub proof fn lemma_datetimes_always_render(v: TemporalValue, cs: Seq<char>)
    requires
        v is DateTime,
    ensures
        format_spec(v, cs) is Some,
    decreases cs.len(),
{
    if cs.len() == 0 {
    } else if cs[0] != '%' {
        lemma_datetimes_always_render(v, cs.drop_first());
    } else if cs.len() == 1 {
    } else if cs[1] == ':' {
        lemma_datetimes_always_render(v, cs.skip(if cs.len() >= 3 { 3 } else { 2 }));
    } else {
        lemma_datetimes_always_render(v, cs.skip(2));
    }
}

/// A date renders with every pattern that has no offset token.
pub open spec fn has_offset_token(cs: Seq<char>) -> bool
    decreases cs.len(),
{
    if cs.len() < 2 {
        false
    } else if cs[0] != '%' {
        has_offset_token(cs.drop_first())
    } else if cs[1] == ':' || cs[1] == 'z' {
        true
    } else {
        has_offset_token(cs.skip(2))
    }
}

/// A date renders exactly when its pattern has no `%z` or `%:` token.
pub proof fn lemma_dates_render_without_offsets(v: TemporalValue, cs: Seq<char>)
    requires
        v is Date,
    ensures
        format_spec(v, cs) is Some <==> !has_offset_token(cs),
    decreases cs.len(),
{
    if cs.len() == 0 {
    } else if cs[0] != '%' {
        lemma_dates_render_without_offsets(v, cs.drop_first());
        if cs.len() >= 2 {
            assert(has_offset_token(cs) == has_offset_token(cs.drop_first()));
        } else {
            assert(cs.drop_first().len() == 0);
        }
    } else if cs.len() == 1 {
    } else if cs[1] == ':' || cs[1] == 'z' {
    } else {
        lemma_dates_render_without_offsets(v, cs.skip(2));
    }
}

/// The letters a `%` may introduce on its own.
pub open spec fn plain_token(c: char) -> bool {
    c == 'Y' || c == 'm' || c == 'd' || c == 'H' || c == 'M' || c == 'S' || c == 'G' || c == 'V'
        || c == 'u' || c == 'j' || c == 'z' || c == '%'
}

/// Checks a pattern against the token subset `%Y %m %d %H %M %S %G %V %u %j
/// %z %:z %%`; characters outside tokens are literal. The error is the text
/// of the first token outside the subset, or a `%`/`%:` cut off by the end.
pub open spec fn pattern_check(cs: Seq<char>) -> Result<(), Seq<char>>
    decreases cs.len(),
{
    if cs.len() == 0 {
        Ok(())
    } else if cs[0] != '%' {
        pattern_check(cs.drop_first())
    } else if cs.len() == 1 {
        Err(seq!['%'])
    } else if plain_token(cs[1]) {
        pattern_check(cs.skip(2))
    } else if cs[1] == ':' {
        if cs.len() == 2 {
            Err(seq!['%', ':'])
        } else if cs[2] == 'z' {
            pattern_check(cs.skip(3))
        } else {
            Err(seq!['%', ':', cs[2]])
        }
    } else {
        Err(seq!['%', cs[1]])
    }
}

fn is_plain_token(c: char) -> (r: bool)
    ensures
        r == plain_token(c),
{
    c == 'Y' || c == 'm' || c == 'd' || c == 'H' || c == 'M' || c == 'S' || c == 'G' || c == 'V'
        || c == 'u' || c == 'j' || c == 'z' || c == '%'
}

pub open spec fn pattern_result_view(r: Result<(), String>) -> Result<(), Seq<char>> {
    match r {
        Ok(()) => Ok(()),
        Err(e) => Err(e@),
    }
}

/// Checks a `date_format` pattern against the supported token subset.
pub fn validate_format_pattern(pattern: &str) -> (r: Result<(), String>)
    ensures
        pattern_result_view(r) == pattern_check(pattern@),
{
    let cs = chars_of(pattern);
    let mut i: usize = 0;
    assert(cs@.skip(0) =~= cs@);
    while i < cs.len()
        invariant
            i <= cs.len(),
            cs@ == pattern@,
            pattern_check(cs@) == pattern_check(cs@.skip(i as int)),
        decreases cs.len() - i,
    {
        let rest = Ghost(cs@.skip(i as int));
        if cs[i] != '%' {
            assert(rest@.drop_first() =~= cs@.skip(i + 1));
            i += 1;
            continue;
        }
        assert(rest@.len() == cs.len() - i && rest@[0] == '%');
        if i + 1 >= cs.len() {
            assert(rest@.len() == 1);
            let v: Vec<char> = vec!['%'];
            assert(v@ =~= seq!['%']);
            return Err(string_from_chars(v.as_slice()));
        }
        let next = cs[i + 1];
        assert(rest@[1] == next);
        if is_plain_token(next) {
            assert(rest@.skip(2) =~= cs@.skip(i + 2));
            i += 2;
        } else if next == ':' {
            if i + 2 >= cs.len() {
                assert(rest@.len() == 2);
                let v: Vec<char> = vec!['%', ':'];
                assert(v@ =~= seq!['%', ':']);
                return Err(string_from_chars(v.as_slice()));
            }
            let third = cs[i + 2];
            assert(rest@[2] == third);
            if third == 'z' {
                assert(rest@.skip(3) =~= cs@.skip(i + 3));
                i += 3;
            } else {
                let v: Vec<char> = vec!['%', ':', third];
                assert(v@ =~= seq!['%', ':', third]);
                return Err(string_from_chars(v.as_slice()));
            }
        } else {
            let v: Vec<char> = vec!['%', next];
            assert(v@ =~= seq!['%', next]);
            return Err(string_from_chars(v.as_slice()));
        }
    }
    Ok(())
}

} // verus!
