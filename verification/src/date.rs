//! Calendar dates, with the date arithmetic and formatting of `chrono`.

use vstd::prelude::*;

use chrono::Datelike;
use chrono::Timelike;

verus! {

/// A date of the proleptic Gregorian calendar.
#[derive(Debug, Clone, Copy, PartialEq, Eq, Hash)]
pub struct CalendarDate {
    pub year: i32,
    pub month: u32,
    pub day: u32,
}

pub open spec fn is_leap_year(y: int) -> bool {
    (y % 4 == 0 && y % 100 != 0) || y % 400 == 0
}

pub open spec fn days_in_month(y: int, m: int) -> int {
    if m == 2 {
        if is_leap_year(y) {
            29
        } else {
            28
        }
    } else if m == 4 || m == 6 || m == 9 || m == 11 {
        30
    } else {
        31
    }
}

/// A date that `chrono::NaiveDate` can hold: years from -262143 to 262142.
pub open spec fn valid_date(y: int, m: int, d: int) -> bool {
    &&& -262143 <= y <= 262142
    &&& 1 <= m <= 12
    &&& 1 <= d <= days_in_month(y, m)
}

pub open spec fn valid(d: CalendarDate) -> bool {
    valid_date(d.year as int, d.month as int, d.day as int)
}

/// The formats this library hands to `chrono` for printing dates.
pub open spec fn known_format(fmt: Seq<char>) -> bool {
    fmt == "%B %-d, %Y"@ || fmt == "%B %Y"@ || fmt == "%Y-%m-%d"@
}

/// What `NaiveDate::parse_from_str(s, fmt)` gives, as year, month and day.
pub uninterp spec fn parsed_date(s: Seq<char>, fmt: Seq<char>) -> Option<(i32, u32, u32)>;

/// What `NaiveDate::format(fmt)` prints for the date.
pub uninterp spec fn date_text(year: i32, month: u32, day: u32, fmt: Seq<char>) -> Seq<char>;

/// The number of the day in the proleptic Gregorian calendar that
/// `chrono` follows, counted from 1970-01-01 (day 0).
#[verifier::opaque]
pub open spec fn day_number(y: int, m: int, d: int) -> int {
    let yy = if m <= 2 {
        y - 1
    } else {
        y
    };
    let era = yy / 400;
    let yoe = yy - era * 400;
    let mp = if m > 2 {
        m - 3
    } else {
        m + 9
    };
    let doy = (153 * mp + 2) / 5 + d - 1;
    let doe = yoe * 365 + yoe / 4 - yoe / 100 + doy;
    era * 146097 + doe - 719468
}

/// The day number of a date given as year, month and day.
pub open spec fn number_of(t: (i32, u32, u32)) -> int {
    day_number(t.0 as int, t.1 as int, t.2 as int)
}

/// What `NaiveDate::weekday().num_days_from_monday()` gives for the date:
/// 0 for Monday to 6 for Sunday, 1970-01-01 being a Thursday.
pub open spec fn weekday_index(year: i32, month: u32, day: u32) -> u32 {
    ((day_number(year as int, month as int, day as int) + 3) % 7) as u32
}

/// What `NaiveDate::checked_add_signed` gives for the date moved by `days`
/// days: the date of `chrono`'s calendar whose day number is that many
/// more, where there is one.
#[verifier::opaque]
pub open spec fn date_plus(year: i32, month: u32, day: u32, days: i64) -> Option<(i32, u32, u32)> {
    let n = day_number(year as int, month as int, day as int) + days;
    if exists|t: (i32, u32, u32)| valid_date(t.0 as int, t.1 as int, t.2 as int) && #[trigger] number_of(t) == n {
        Some(choose|t: (i32, u32, u32)| valid_date(t.0 as int, t.1 as int, t.2 as int) && #[trigger] number_of(t) == n)
    } else {
        None
    }
}

pub open spec fn ymd(d: CalendarDate) -> (i32, u32, u32) {
    (d.year, d.month, d.day)
}

/// `NaiveDate::from_ymd_opt`: the date where it exists in `chrono`'s range.
#[verifier::external_body]
pub(crate) fn make_date(year: i32, month: u32, day: u32) -> (r: Option<CalendarDate>)
    ensures
        r is Some <==> valid_date(year as int, month as int, day as int),
        r matches Some(d) ==> d == (CalendarDate { year, month, day }),
{
    chrono::NaiveDate::from_ymd_opt(year, month, day).map(|_| CalendarDate { year, month, day })
}

/// `NaiveDate::parse_from_str`; the date it yields is a valid one.
#[verifier::external_body]
pub(crate) fn parse_date(s: &str, fmt: &str) -> (r: Option<CalendarDate>)
    ensures
        match r {
            Some(d) => parsed_date(s@, fmt@) == Some(ymd(d)) && valid(d),
            None => parsed_date(s@, fmt@) is None,
        },
{
    chrono::NaiveDate::parse_from_str(s, fmt).ok().map(
        |d| CalendarDate { year: d.year(), month: d.month(), day: d.day() },
    )
}

/// `NaiveDate::format(fmt).to_string()` for a valid date.
#[verifier::external_body]
pub(crate) fn format_date(d: CalendarDate, fmt: &str) -> (r: String)
    requires
        valid(d),
        known_format(fmt@),
    ensures
        r@ == date_text(d.year, d.month, d.day, fmt@),
{
    chrono::NaiveDate::from_ymd_opt(d.year, d.month, d.day).map(|x| x.format(fmt).to_string()).unwrap_or_default()
}

/// `NaiveDate::weekday().num_days_from_monday()` for a valid date: 0 for Monday to 6 for Sunday.
#[verifier::external_body]
pub(crate) fn weekday_from_monday(d: CalendarDate) -> (r: u32)
    requires
        valid(d),
    ensures
        r == weekday_index(d.year, d.month, d.day),
        r < 7,
{
    chrono::NaiveDate::from_ymd_opt(d.year, d.month, d.day).map(|x| x.weekday().num_days_from_monday()).unwrap_or(0)
}

/// `NaiveDate::checked_add_signed` by whole days; `None` outside `chrono`'s
/// range, so the day before any date but `NaiveDate::MIN` (January 1 of
/// year -262143) exists.
#[verifier::external_body]
pub(crate) fn add_days(d: CalendarDate, days: i64) -> (r: Option<CalendarDate>)
    requires
        valid(d),
    ensures
        match r {
            Some(x) => date_plus(d.year, d.month, d.day, days) == Some(ymd(x)) && valid(x),
            None => date_plus(d.year, d.month, d.day, days) is None,
        },
        days == -1 && !(d.year == -262143 && d.month == 1 && d.day == 1) ==> r is Some,
{
    let x = chrono::NaiveDate::from_ymd_opt(d.year, d.month, d.day)?;
    let moved = x.checked_add_signed(chrono::TimeDelta::try_days(days)?)?;
    Some(CalendarDate { year: moved.year(), month: moved.month(), day: moved.day() })
}

/// A moment as this machine's clock shows it in its time zone, with the
/// Unix time it stands for.
#[derive(Debug, Clone, Copy, PartialEq, Eq)]
pub struct LocalDateTime {
    pub timestamp: i64,
    pub year: i32,
    pub month: u32,
    pub day: u32,
    pub hour: u32,
    pub minute: u32,
}

pub open spec fn local_ok(t: LocalDateTime) -> bool {
    &&& valid_date(t.year as int, t.month as int, t.day as int)
    &&& t.hour < 24
    &&& t.minute < 60
}

/// The formats this library hands to `chrono` for printing moments.
pub open spec fn known_time_format(fmt: Seq<char>) -> bool {
    ||| fmt == "%l:%M %p"@
    ||| fmt == "%a %l:%M %p"@
    ||| fmt == "%b %e"@
    ||| fmt == "%b %e, %Y"@
    ||| fmt == "%Y"@
}

/// What `NaiveDateTime::format(fmt)` prints for the moment (its seconds
/// play no part in the formats used here).
pub uninterp spec fn date_time_text(
    year: i32,
    month: u32,
    day: u32,
    hour: u32,
    minute: u32,
    fmt: Seq<char>,
) -> Seq<char>;

/// The Unix times `chrono` holds as moments: those of the dates in its
/// calendar, from January 1 of year -262143 to December 31 of year 262142.
pub open spec fn utc_range(ts: i64) -> bool {
    -8334601228800 <= ts <= 8210266876799
}

/// The Unix times whose moment on the local clock has a date inside
/// `chrono`'s calendar whatever the time zone: those more than a day away
/// from the ends of its range, and those outside it, which stand for the
/// epoch.
pub open spec fn local_range(ts: i64) -> bool {
    !utc_range(ts) || (-8334601228800 + 86400 <= ts && ts <= 8210266876799 - 86400)
}

/// The moment `ts` seconds after the Unix epoch on the local clock, as
/// `DateTime::<Utc>::from_timestamp(ts, 0).unwrap_or_default()` converted
/// to `Local`: the epoch where `ts` is outside `chrono`'s range.  The local
/// date and time depend on the machine's time zone, so no clause names them;
/// within a day of the ends of the range the local date may leave the
/// calendar, and no clause speaks of it there.
#[verifier::external_body]
pub(crate) fn local_date_time(ts: i64) -> (r: LocalDateTime)
    ensures
        r.timestamp == (if utc_range(ts) {
            ts
        } else {
            0
        }),
        local_range(ts) ==> local_ok(r),
{
    let dt = chrono::DateTime::<chrono::Utc>::from_timestamp(ts, 0).unwrap_or_default().with_timezone(
        &chrono::Local,
    );
    LocalDateTime {
        timestamp: dt.timestamp(),
        year: dt.year(),
        month: dt.month(),
        day: dt.day(),
        hour: dt.hour(),
        minute: dt.minute(),
    }
}

/// `NaiveDateTime::format(fmt).to_string()` for the moment; nothing where
/// its fields name no moment of `chrono`'s calendar.
#[verifier::external_body]
pub(crate) fn format_date_time(t: LocalDateTime, fmt: &str) -> (r: String)
    requires
        known_time_format(fmt@),
    ensures
        local_ok(t) ==> r@ == date_time_text(t.year, t.month, t.day, t.hour, t.minute, fmt@),
{
    chrono::NaiveDate::from_ymd_opt(t.year, t.month, t.day).and_then(|d| d.and_hms_opt(t.hour, t.minute, 0)).map(
        |x| x.format(fmt).to_string(),
    ).unwrap_or_default()
}

} // verus!
