//! Calendar: JSCalendar events and the views the interface shows of them.
//!
//! A JSON object keyed by identifiers is held as a vector of `(key, value)`
//! pairs in the order in which the map is walked.

use vstd::prelude::*;

use crate::contacts::non_empty_of;
use crate::contacts::non_empty_opt;
use crate::text::{
    is_ascii_text, lemma_ascii_byte_range, clone_or_empty, contains_char, decimal, decimal_chars, extend, find, find_char, from_chars,
    lemma_find_bounds, lemma_find_some, lemma_find_none, lemma_decimal, lemma_decimal_one, lemma_decimal_below_hundred, lemma_parse_decimal,
    digit_char,
    is_digit, all_digits, or_empty, ov, parse_u32, parse_uint, slice, split, split_char, str_eq,
    strip_all_end, strip_all_end_chars, strip_all_prefix, strip_all_prefix_chars, strip_all_start,
    strip_all_start_chars, to_chars, trim, trimmed, views, byte_range, get_byte_range, opt_is,
};
use crate::date::{
    CalendarDate, parsed_date, date_text, ymd, valid, valid_date, parse_date, format_date, make_date,
    add_days, weekday_from_monday, weekday_index, date_plus, day_number, number_of,
};

use chrono::Datelike;

pub use crate::ids::CalendarEventId;

verus! {

// ---------------------------------------------------------------------------
// JSCalendar wire types
// ---------------------------------------------------------------------------

#[derive(Debug, Clone, Default)]
pub struct JsCalendarEvent {
    pub id: Option<String>,
    pub title: Option<String>,
    pub description: Option<String>,
    pub start: Option<String>,
    pub duration: Option<String>,
    pub time_zone: Option<String>,
    pub show_without_time: Option<bool>,
    pub status: Option<String>,
    pub calendar_ids: Option<Vec<(String, bool)>>,
    pub locations: Option<Vec<(String, EventLocation)>>,
    pub participants: Option<Vec<(String, EventParticipant)>>,
    pub free_busy_status: Option<String>,
    pub created: Option<String>,
    pub updated: Option<String>,
}

#[derive(Debug, Clone)]
pub struct EventLocation {
    pub name: Option<String>,
    pub location_type: Option<String>,
}

#[derive(Debug, Clone)]
pub struct EventParticipant {
    pub name: Option<String>,
    pub calendar_address: Option<String>,
    pub participant_type: Option<String>,
}

// ---------------------------------------------------------------------------
// View types
// ---------------------------------------------------------------------------

#[derive(Debug, Clone)]
pub struct ParticipantInfo {
    pub name: String,
    pub email: String,
}

/// The fields of the event form, as submitted.
#[derive(Debug, Clone, Default)]
pub struct EventFormData {
    pub title: String,
    pub description: String,
    pub start_date: String,
    pub start_time: String,
    pub duration_hours: String,
    pub duration_minutes: String,
    pub is_all_day: String,
    pub location: String,
}

// ---------------------------------------------------------------------------
// Durations
// ---------------------------------------------------------------------------

/// The number `s` holds as a `u32`, or 0 where it holds none.
pub open spec fn number_or_zero(s: Seq<char>) -> nat {
    match parse_uint(s, u32::MAX as nat) {
        Some(v) => v,
        None => 0,
    }
}

/// The hours and minutes of the time part of an ISO 8601 duration: the
/// number before `H`, and the number before the `M` that follows it (or
/// before the first `M` where there is no `H`).
pub open spec fn hours_minutes(s: Seq<char>) -> (nat, nat) {
    let t = strip_all_start(s, 'T');
    match find(t, 'H') {
        Some(hp) => {
            let rest = t.skip(hp + 1);
            (
                number_or_zero(t.take(hp)),
                match find(rest, 'M') {
                    Some(mp) => number_or_zero(rest.take(mp)),
                    None => 0,
                },
            )
        },
        None => match find(t, 'M') {
            Some(mp) => (0, number_or_zero(t.take(mp))),
            None => (0, 0),
        },
    }
}

/// The day count of a duration such as `P3D`, where it has one.
pub open spec fn duration_days(s: Seq<char>) -> Option<nat> {
    if s.contains('D') {
        parse_uint(strip_all_end(strip_all_end(s, 'D'), 'T'), u32::MAX as nat)
    } else {
        None
    }
}

/// How an ISO 8601 duration is shown: `All day`, `N days`, `N min`,
/// `N hr` or `N hr M min`; nothing for an empty or zero duration.
pub open spec fn duration_text(d: Seq<char>) -> Seq<char> {
    if d.len() == 0 {
        Seq::empty()
    } else {
        let s = strip_all_start(d, 'P');
        match duration_days(s) {
            Some(n) => if n == 1 {
                "All day"@
            } else {
                decimal(n) + " days"@
            },
            None => {
                let (h, m) = hours_minutes(s);
                if h == 0 && m == 0 {
                    Seq::empty()
                } else if h == 0 {
                    decimal(m) + " min"@
                } else if m == 0 {
                    decimal(h) + " hr"@
                } else {
                    decimal(h) + " hr "@ + decimal(m) + " min"@
                }
            },
        }
    }
}

/// The hours and minutes the edit form shows for a duration: `24` and `0`
/// for a duration in days.
pub open spec fn duration_fields(d: Seq<char>) -> (Seq<char>, Seq<char>) {
    let s = strip_all_start(d, 'P');
    if s.contains('D') {
        ("24"@, "0"@)
    } else {
        let (h, m) = hours_minutes(s);
        (decimal(h), decimal(m))
    }
}

fn number_or_zero_chars(v: &Vec<char>) -> (r: u32)
    ensures
        r == number_or_zero(v@),
{
    match parse_u32(v) {
        Some(n) => n,
        None => 0,
    }
}

fn hours_minutes_chars(s: &Vec<char>) -> (r: (u32, u32))
    ensures
        r.0 as nat == hours_minutes(s@).0,
        r.1 as nat == hours_minutes(s@).1,
{
    let t = strip_all_start_chars(s, 'T');
    match find_char(&t, 'H') {
        Some(hp) => {
            proof {
                lemma_find_bounds(t@, 'H');
            }
            let h = number_or_zero_chars(&slice(&t, 0, hp));
            let rest = slice(&t, hp + 1, t.len());
            assert(t@.subrange(0, hp as int) =~= t@.take(hp as int));
            assert(t@.subrange(hp + 1, t@.len() as int) =~= t@.skip(hp + 1));
            let m = match find_char(&rest, 'M') {
                Some(mp) => {
                    proof {
                        lemma_find_bounds(rest@, 'M');
                    }
                    let piece = slice(&rest, 0, mp);
                    assert(rest@.subrange(0, mp as int) =~= rest@.take(mp as int));
                    number_or_zero_chars(&piece)
                },
                None => 0,
            };
            (h, m)
        },
        None => match find_char(&t, 'M') {
            Some(mp) => {
                proof {
                    lemma_find_bounds(t@, 'M');
                }
                let piece = slice(&t, 0, mp);
                assert(t@.subrange(0, mp as int) =~= t@.take(mp as int));
                (0, number_or_zero_chars(&piece))
            },
            None => (0, 0),
        },
    }
}

/// The display form of an ISO 8601 duration (`P1D`, `PT30M`, `PT1H30M`, ...).
pub fn parse_duration_display(duration: &str) -> (r: String)
    ensures
        r@ == duration_text(duration@),
{
    let d = to_chars(duration);
    if d.len() == 0 {
        return String::new();
    }
    let s = strip_all_start_chars(&d, 'P');
    if contains_char(&s, 'D') {
        let days = strip_all_end_chars(&strip_all_end_chars(&s, 'D'), 'T');
        if let Some(n) = parse_u32(&days) {
            if n == 1 {
                return "All day".to_owned();
            }
            let mut out = decimal_chars(n as u64);
            extend(&mut out, &to_chars(" days"));
            return from_chars(&out);
        }
    }
    let (h, m) = hours_minutes_chars(&s);
    if h == 0 && m == 0 {
        String::new()
    } else if h == 0 {
        let mut out = decimal_chars(m as u64);
        extend(&mut out, &to_chars(" min"));
        from_chars(&out)
    } else if m == 0 {
        let mut out = decimal_chars(h as u64);
        extend(&mut out, &to_chars(" hr"));
        from_chars(&out)
    } else {
        let mut out = decimal_chars(h as u64);
        extend(&mut out, &to_chars(" hr "));
        extend(&mut out, &decimal_chars(m as u64));
        extend(&mut out, &to_chars(" min"));
        from_chars(&out)
    }
}

/// The hours and minutes of a duration, as the edit form shows them.
pub fn parse_duration_parts(duration: &str) -> (r: (String, String))
    ensures
        (r.0@, r.1@) == duration_fields(duration@),
{
    let d = to_chars(duration);
    let s = strip_all_start_chars(&d, 'P');
    if contains_char(&s, 'D') {
        return ("24".to_owned(), "0".to_owned());
    }
    let (h, m) = hours_minutes_chars(&s);
    (from_chars(&decimal_chars(h as u64)), from_chars(&decimal_chars(m as u64)))
}

// ---------------------------------------------------------------------------
// Times of day
// ---------------------------------------------------------------------------

/// `m` in two digits at least (`{:02}`).
pub open spec fn two_digits(m: nat) -> Seq<char> {
    if m < 10 {
        "0"@ + decimal(m)
    } else {
        decimal(m)
    }
}

/// A 24-hour `HH:MM` time in 12-hour form: `8 PM`, `2:30 PM`, `12 AM`; text
/// without a `:` is returned as it is.
pub open spec fn time_12h(t: Seq<char>) -> Seq<char> {
    let parts = split(t, ':');
    if parts.len() < 2 {
        t
    } else {
        let hour = number_or_zero(parts[0]);
        let minute = number_or_zero(parts[1]);
        let shown: nat = if hour == 0 {
            12
        } else if hour <= 12 {
            hour
        } else {
            (hour - 12) as nat
        };
        let period = if hour < 12 {
            "AM"@
        } else {
            "PM"@
        };
        if minute == 0 {
            decimal(shown) + " "@ + period
        } else {
            decimal(shown) + ":"@ + two_digits(minute) + " "@ + period
        }
    }
}

/// A `HH:MM` time in 12-hour form.
pub fn format_time_12h(time_24h: &str) -> (r: String)
    ensures
        r@ == time_12h(time_24h@),
{
    let t = to_chars(time_24h);
    let parts = split_char(&t, ':');
    assert(views(parts@).len() == parts@.len());
    if parts.len() < 2 {
        return time_24h.to_owned();
    }
    assert(views(parts@)[0] == parts@[0]@);
    assert(views(parts@)[1] == parts@[1]@);
    let hour = number_or_zero_chars(&parts[0]);
    let minute = number_or_zero_chars(&parts[1]);
    let shown: u32 = if hour == 0 {
        12
    } else if hour <= 12 {
        hour
    } else {
        hour - 12
    };
    let period = if hour < 12 {
        to_chars("AM")
    } else {
        to_chars("PM")
    };
    let mut out = decimal_chars(shown as u64);
    if minute != 0 {
        extend(&mut out, &to_chars(":"));
        if minute < 10 {
            extend(&mut out, &to_chars("0"));
        }
        extend(&mut out, &decimal_chars(minute as u64));
    }
    extend(&mut out, &to_chars(" "));
    extend(&mut out, &period);
    from_chars(&out)
}

/// Minutes are always written in two digits: for a time whose minutes `m`
/// are neither zero nor over 99, the 12-hour text ends with `:`, the tens
/// digit of `m`, the units digit of `m` (a `0` below ten), a space and
/// `AM` before noon or `PM` from noon on.
pub proof fn lemma_time_12h_minutes(t: Seq<char>)
    requires
        split(t, ':').len() >= 2,
        0 < number_or_zero(split(t, ':')[1]) < 100,
    ensures
        ({
            let m = number_or_zero(split(t, ':')[1]);
            let p = if number_or_zero(split(t, ':')[0]) < 12 {
                'A'
            } else {
                'P'
            };
            let r = time_12h(t);
            &&& r.len() >= 7
            &&& r.subrange(r.len() - 6, r.len() as int) == seq![':', digit_char(m / 10), digit_char(m % 10), ' ', p, 'M']
        }),
{
    let parts = split(t, ':');
    let hour = number_or_zero(parts[0]);
    let m = number_or_zero(parts[1]);
    let shown: nat = if hour == 0 {
        12
    } else if hour <= 12 {
        hour
    } else {
        (hour - 12) as nat
    };
    reveal_strlit("AM");
    reveal_strlit("PM");
    reveal_strlit(":");
    reveal_strlit(" ");
    reveal_strlit("0");
    lemma_decimal_below_hundred(m);
    lemma_decimal(shown);
    let p = if hour < 12 {
        'A'
    } else {
        'P'
    };
    let period = if hour < 12 {
        "AM"@
    } else {
        "PM"@
    };
    assert(period =~= seq![p, 'M']);
    assert(two_digits(m) =~= seq![digit_char(m / 10), digit_char(m % 10)]);
    let r = time_12h(t);
    assert(r == decimal(shown) + ":"@ + two_digits(m) + " "@ + period);
    assert(r.subrange(r.len() - 6, r.len() as int) =~= seq![':', digit_char(m / 10), digit_char(m % 10), ' ', p, 'M']);
}

// ---------------------------------------------------------------------------
// Locations and participants
// ---------------------------------------------------------------------------

pub open spec fn first_location_name(es: Seq<(String, EventLocation)>) -> Seq<char>
    decreases es.len(),
{
    if es.len() == 0 {
        Seq::empty()
    } else {
        match es[0].1.name {
            Some(n) => n@,
            None => first_location_name(es.drop_first()),
        }
    }
}

pub open spec fn location_of(locations: Option<Vec<(String, EventLocation)>>) -> Seq<char> {
    match locations {
        Some(es) => first_location_name(es@),
        None => Seq::empty(),
    }
}

/// The name of the first location that has one, or an empty string.
#[verifier::loop_isolation(false)]
pub fn extract_location(locations: &Option<Vec<(String, EventLocation)>>) -> (r: String)
    ensures
        r@ == location_of(*locations),
{
    match locations {
        None => String::new(),
        Some(es) => {
            let n = es.len();
            let mut i: usize = 0;
            assert(es@.subrange(0, n as int) =~= es@);
            while i < n
                invariant
                    n == es@.len(),
                    i <= n,
                    first_location_name(es@) == first_location_name(es@.subrange(i as int, n as int)),
                decreases n - i,
            {
                assert(es@.subrange(i as int, n as int)[0] == es@[i as int]);
                if let Some(name) = &es[i].1.name {
                    return name.clone();
                }
                assert(es@.subrange(i as int, n as int).drop_first() =~= es@.subrange(i + 1, n as int));
                i = i + 1;
            }
            String::new()
        },
    }
}

/// How a participant is shown: its name, and its address without `mailto:`.
pub open spec fn shows_participant(info: ParticipantInfo, p: EventParticipant) -> bool {
    &&& info.name@ == or_empty(p.name)
    &&& info.email@ == strip_all_prefix(or_empty(p.calendar_address), "mailto:"@)
}

pub open spec fn participants_of(
    participants: Option<Vec<(String, EventParticipant)>>,
) -> Seq<(String, EventParticipant)> {
    match participants {
        Some(es) => es@,
        None => Seq::empty(),
    }
}

fn build_participants(participants: &Option<Vec<(String, EventParticipant)>>) -> (r: Vec<
    ParticipantInfo,
>)
    ensures
        r@.len() == participants_of(*participants).len(),
        forall|i: int|
            0 <= i < r@.len() ==> shows_participant(
                #[trigger] r@[i],
                participants_of(*participants)[i].1,
            ),
{
    match participants {
        None => Vec::new(),
        Some(es) => {
            let mailto = to_chars("mailto:");
            let mut out: Vec<ParticipantInfo> = Vec::new();
            let mut i: usize = 0;
            while i < es.len()
                invariant
                    i <= es@.len(),
                    mailto@ == "mailto:"@,
                    out@.len() == i,
                    forall|k: int| 0 <= k < i ==> shows_participant(#[trigger] out@[k], es@[k].1),
                decreases es@.len() - i,
            {
                let p = &es[i].1;
                let addr = to_chars(clone_or_empty(&p.calendar_address).as_str());
                let email = strip_all_prefix_chars(&addr, &mailto);
                out.push(ParticipantInfo { name: clone_or_empty(&p.name), email: from_chars(&email) });
                i = i + 1;
            }
            out
        },
    }
}

// ---------------------------------------------------------------------------
// Form to event
// ---------------------------------------------------------------------------

/// Whether the form marks the event as lasting all day.
pub open spec fn form_all_day(form: EventFormData) -> bool {
    form.is_all_day@ == "on"@
}

/// The start a form gives: `DATE T TIME :00`, midnight for an all-day
/// event or a blank time.
pub open spec fn form_start(form: EventFormData) -> Seq<char> {
    let date = trim(form.start_date@);
    if form_all_day(form) {
        date + "T00:00:00"@
    } else {
        let time = if trim(form.start_time@).len() == 0 {
            "00:00"@
        } else {
            trim(form.start_time@)
        };
        date + "T"@ + time + ":00"@
    }
}

/// The duration a form gives: a day for an all-day event, else its hours
/// and minutes, one hour where both are zero.
pub open spec fn form_duration(form: EventFormData) -> Seq<char> {
    if form_all_day(form) {
        "P1D"@
    } else {
        let h = number_or_zero(trim(form.duration_hours@));
        let m = number_or_zero(trim(form.duration_minutes@));
        if h == 0 && m == 0 {
            "PT1H"@
        } else {
            written_duration(h, m)
        }
    }
}

/// A duration of `h` hours and `m` minutes, not both zero, in ISO 8601.
pub open spec fn written_duration(h: nat, m: nat) -> Seq<char> {
    if m == 0 {
        "PT"@ + decimal(h) + "H"@
    } else if h == 0 {
        "PT"@ + decimal(m) + "M"@
    } else {
        "PT"@ + decimal(h) + "H"@ + decimal(m) + "M"@
    }
}

/// The hours and minutes the edit form shows, and the text the event page
/// shows, for the duration that an event form entered.
pub open spec fn form_duration_shown(form: EventFormData) -> (Seq<char>, Seq<char>, Seq<char>) {
    if form_all_day(form) {
        ("24"@, "0"@, "All day"@)
    } else {
        let h0 = number_or_zero(trim(form.duration_hours@));
        let m0 = number_or_zero(trim(form.duration_minutes@));
        let (h, m) = if h0 == 0 && m0 == 0 {
            (1nat, 0nat)
        } else {
            (h0, m0)
        };
        (
            decimal(h),
            decimal(m),
            if h == 0 {
                decimal(m) + " min"@
            } else if m == 0 {
                decimal(h) + " hr"@
            } else {
                decimal(h) + " hr "@ + decimal(m) + " min"@
            },
        )
    }
}

proof fn lemma_strip_one(x: char, rest: Seq<char>)
    requires
        rest.len() > 0,
        rest[0] != x,
    ensures
        strip_all_start(seq![x] + rest, x) == rest,
{
    let s = seq![x] + rest;
    assert(s.drop_first() =~= rest);
    assert(strip_all_start(s, x) == strip_all_start(s.drop_first(), x));
}

proof fn lemma_number_then(n: nat, c: char, tail: Seq<char>)
    requires
        !is_digit(c),
        n <= u32::MAX,
    ensures
        find(decimal(n) + seq![c] + tail, c) == Some(decimal(n).len() as int),
        (decimal(n) + seq![c] + tail).take(decimal(n).len() as int) == decimal(n),
        (decimal(n) + seq![c] + tail).skip(decimal(n).len() + 1int) == tail,
        number_or_zero(decimal(n)) == n,
{
    lemma_decimal(n);
    lemma_parse_decimal(n, u32::MAX as nat);
    let s = decimal(n) + seq![c] + tail;
    let k = decimal(n).len() as int;
    assert forall|j: int| 0 <= j < k implies s[j] != c by {
        assert(s[j] == decimal(n)[j]);
        assert(is_digit(decimal(n)[j]));
    }
    lemma_find_some(s, c, k);
    assert(s.take(k) =~= decimal(n));
    assert(s.skip(k + 1) =~= tail);
}

proof fn lemma_no_char(s: Seq<char>, c: char)
    requires
        all_digits(s),
        !is_digit(c),
    ensures
        !s.contains(c),
{
    if s.contains(c) {
        let k = choose|k: int| 0 <= k < s.len() && s[k] == c;
        assert(is_digit(s[k]));
    }
}

proof fn lemma_written_duration(h: nat, m: nat)
    requires
        h <= u32::MAX,
        m <= u32::MAX,
        !(h == 0 && m == 0),
    ensures
        duration_fields(written_duration(h, m)) == (decimal(h), decimal(m)),
        duration_text(written_duration(h, m)) == (if h == 0 {
            decimal(m) + " min"@
        } else if m == 0 {
            decimal(h) + " hr"@
        } else {
            decimal(h) + " hr "@ + decimal(m) + " min"@
        }),
{
    reveal_strlit("PT");
    reveal_strlit("H");
    reveal_strlit("M");
    lemma_decimal(h);
    lemma_decimal(m);
    let hs = decimal(h);
    let ms = decimal(m);
    let t = if m == 0 {
        hs + seq!['H']
    } else if h == 0 {
        ms + seq!['M']
    } else {
        hs + seq!['H'] + ms + seq!['M']
    };
    let d = written_duration(h, m);
    assert(t.len() > 0 && is_digit(t[0]));
    assert(d =~= seq!['P'] + (seq!['T'] + t));
    lemma_strip_one('P', seq!['T'] + t);
    lemma_strip_one('T', t);
    let s = seq!['T'] + t;
    assert(strip_all_start(d, 'P') == s);
    assert(strip_all_start(s, 'T') == t);
    lemma_no_char(hs, 'D');
    lemma_no_char(ms, 'D');
    assert(!s.contains('D')) by {
        if s.contains('D') {
            let k = choose|k: int| 0 <= k < s.len() && s[k] == 'D';
            if m == 0 {
                assert(s =~= seq!['T'] + hs + seq!['H']);
                if 1 <= k < 1 + hs.len() {
                    assert(s[k] == hs[k - 1]);
                }
            } else if h == 0 {
                assert(s =~= seq!['T'] + ms + seq!['M']);
                if 1 <= k < 1 + ms.len() {
                    assert(s[k] == ms[k - 1]);
                }
            } else {
                assert(s =~= seq!['T'] + hs + seq!['H'] + ms + seq!['M']);
                if 1 <= k < 1 + hs.len() {
                    assert(s[k] == hs[k - 1]);
                }
                if 2 + hs.len() <= k < 2 + hs.len() + ms.len() {
                    assert(s[k] == ms[k - 2 - hs.len()]);
                }
            }
        }
    }
    assert(duration_days(s) is None);
    if m == 0 {
        lemma_number_then(h, 'H', Seq::empty());
        assert(hs + seq!['H'] + Seq::<char>::empty() =~= t);
        assert(find(Seq::<char>::empty(), 'M') is None);
        assert(hours_minutes(s) == (h, 0nat));
    } else if h == 0 {
        lemma_number_then(m, 'M', Seq::empty());
        assert(ms + seq!['M'] + Seq::<char>::empty() =~= t);
        assert forall|j: int| 0 <= j < t.len() implies t[j] != 'H' by {
            if j < ms.len() {
                assert(is_digit(ms[j]));
            }
        }
        lemma_find_none(t, 'H');
        assert(hours_minutes(s) == (0nat, m));
    } else {
        lemma_number_then(h, 'H', ms + seq!['M']);
        assert(hs + seq!['H'] + (ms + seq!['M']) =~= t);
        lemma_number_then(m, 'M', Seq::empty());
        assert(ms + seq!['M'] + Seq::<char>::empty() =~= ms + seq!['M']);
        assert(hours_minutes(s) == (h, m));
    }
}

/// What an event form entered as its duration comes back as it was entered:
/// the event's page and edit form show the form's hours and minutes (one
/// hour where both were zero or blank), and a full day for an all-day event.
pub proof fn lemma_form_duration_round_trip(form: EventFormData)
    ensures
        (duration_fields(form_duration(form)).0, duration_fields(form_duration(form)).1,
            duration_text(form_duration(form))) == form_duration_shown(form),
{
    if form_all_day(form) {
        reveal_strlit("P1D");
        reveal_strlit("1");
        let s = strip_all_start("P1D"@, 'P');
        lemma_strip_one('P', seq!['1', 'D']);
        assert("P1D"@ =~= seq!['P'] + seq!['1', 'D']);
        assert(s == seq!['1', 'D']);
        assert(s.contains('D')) by {
            assert(s[1] == 'D');
        }
        let a = strip_all_end(s, 'D');
        assert(s.drop_last() =~= seq!['1']);
        assert(a == strip_all_end(seq!['1'], 'D'));
        assert(strip_all_end(seq!['1'], 'D') == seq!['1']);
        assert(strip_all_end(seq!['1'], 'T') == seq!['1']);
        lemma_decimal_one();
        lemma_parse_decimal(1, u32::MAX as nat);
        assert(duration_days(s) == Some(1nat));
    } else {
        let h0 = number_or_zero(trim(form.duration_hours@));
        let m0 = number_or_zero(trim(form.duration_minutes@));
        if h0 == 0 && m0 == 0 {
            reveal_strlit("PT1H");
            reveal_strlit("PT");
            reveal_strlit("H");
            lemma_decimal_one();
            assert("PT1H"@ =~= written_duration(1, 0));
            lemma_written_duration(1, 0);
        } else {
            lemma_written_duration(h0, m0);
        }
    }
}

/// The event that the form describes, in the calendar `calendar_id`.
pub open spec fn event_from_form(form: EventFormData, calendar_id: Seq<char>, e: JsCalendarEvent) -> bool {
    &&& e.id is None
    &&& ov(e.title) == Some(trim(form.title@))
    &&& ov(e.description) == non_empty_of(form.description@)
    &&& ov(e.start) == Some(form_start(form))
    &&& ov(e.duration) == Some(form_duration(form))
    &&& e.time_zone is None
    &&& e.show_without_time == (if form_all_day(form) {
        Some(true)
    } else {
        None
    })
    &&& e.status is None
    &&& (e.calendar_ids matches Some(ids) && ids@.len() == 1 && ids@[0].0@ == calendar_id
        && ids@[0].1)
    &&& if trim(form.location@).len() == 0 {
        e.locations is None
    } else {
        &&& e.locations matches Some(ls)
        &&& ls@.len() == 1
        &&& ls@[0].0@ == "loc1"@
        &&& ov(ls@[0].1.name) == Some(trim(form.location@))
        &&& ov(ls@[0].1.location_type) == Some("Location"@)
    }
    &&& e.participants is None
    &&& e.free_busy_status is None
    &&& e.created is None
    &&& e.updated is None
}

/// The JSCalendar event for the event form, in the calendar `calendar_id`.
pub fn form_to_jscalendar(form: &EventFormData, calendar_id: &str) -> (r: JsCalendarEvent)
    ensures
        event_from_form(*form, calendar_id@, r),
{
    let is_all_day = str_eq(form.is_all_day.as_str(), "on");
    let date = trimmed(form.start_date.as_str());
    let mut start = date.clone();
    if is_all_day {
        extend(&mut start, &to_chars("T00:00:00"));
    } else {
        let t = trimmed(form.start_time.as_str());
        let time = if t.len() == 0 {
            to_chars("00:00")
        } else {
            t
        };
        extend(&mut start, &to_chars("T"));
        extend(&mut start, &time);
        extend(&mut start, &to_chars(":00"));
    }
    let duration = if is_all_day {
        to_chars("P1D")
    } else {
        let hours = number_or_zero_chars(&trimmed(form.duration_hours.as_str()));
        let minutes = number_or_zero_chars(&trimmed(form.duration_minutes.as_str()));
        if hours == 0 && minutes == 0 {
            to_chars("PT1H")
        } else {
            let mut d = to_chars("PT");
            if minutes == 0 {
                extend(&mut d, &decimal_chars(hours as u64));
                extend(&mut d, &to_chars("H"));
            } else if hours == 0 {
                extend(&mut d, &decimal_chars(minutes as u64));
                extend(&mut d, &to_chars("M"));
            } else {
                extend(&mut d, &decimal_chars(hours as u64));
                extend(&mut d, &to_chars("H"));
                extend(&mut d, &decimal_chars(minutes as u64));
                extend(&mut d, &to_chars("M"));
            }
            d
        }
    };
    let loc = trimmed(form.location.as_str());
    let locations = if loc.len() == 0 {
        None
    } else {
        let mut m: Vec<(String, EventLocation)> = Vec::new();
        m.push(
            (
                "loc1".to_owned(),
                EventLocation { name: Some(from_chars(&loc)), location_type: Some("Location".to_owned()) },
            ),
        );
        Some(m)
    };
    let mut ids: Vec<(String, bool)> = Vec::new();
    ids.push((calendar_id.to_owned(), true));
    JsCalendarEvent {
        id: None,
        title: Some(from_chars(&trimmed(form.title.as_str()))),
        description: non_empty_opt(form.description.as_str()),
        start: Some(from_chars(&start)),
        duration: Some(from_chars(&duration)),
        time_zone: None,
        show_without_time: if is_all_day {
            Some(true)
        } else {
            None
        },
        status: None,
        calendar_ids: Some(ids),
        locations,
        participants: None,
        free_busy_status: None,
        created: None,
        updated: None,
    }
}


/// The event with the identifier the server gave it.
pub open spec fn with_event_id(e: JsCalendarEvent, id: String) -> JsCalendarEvent {
    JsCalendarEvent { id: Some(id), ..e }
}

/// The time of day a form gives: midnight for an all-day event or a blank
/// time.
pub open spec fn form_time(form: EventFormData) -> Seq<char> {
    if form_all_day(form) || trim(form.start_time@).len() == 0 {
        "00:00"@
    } else {
        trim(form.start_time@)
    }
}

/// An event saved from the form comes back as it was entered: once the
/// server has given it an identifier, its page and its edit form show the
/// form's title, description, location, whether it lasts all day, its date
/// and time (midnight where blank or all day), and its duration, for a date
/// written as ten ASCII characters and a time blank or written as five.
pub proof fn lemma_event_form_round_trip(
    form: EventFormData,
    calendar_id: Seq<char>,
    e: JsCalendarEvent,
    id: String,
    d: EventDetail,
)
    requires
        event_from_form(form, calendar_id, e),
        details(with_event_id(e, id), d),
        trim(form.start_date@).len() == 10,
        is_ascii_text(trim(form.start_date@)),
        trim(form.start_time@).len() == 0 || (trim(form.start_time@).len() == 5 && is_ascii_text(
            trim(form.start_time@),
        )),
    ensures
        d.title@ == trim(form.title@),
        d.description@ == trim(form.description@),
        d.location@ == trim(form.location@),
        d.is_all_day == form_all_day(form),
        d.start_date@ == trim(form.start_date@),
        d.start_time@ == form_time(form),
        (d.duration_hours@, d.duration_minutes@, d.duration_display@) == form_duration_shown(form),
{
    reveal_strlit("00:00");
    reveal_strlit("T00:00:00");
    reveal_strlit("T");
    reveal_strlit(":00");
    reveal_strlit("P1D");
    reveal_strlit("PT1H");
    reveal_strlit("PT");
    let c = with_event_id(e, id);
    let date = trim(form.start_date@);
    let t = form_time(form);
    let start = form_start(form);
    assert(t.len() == 5 && is_ascii_text(t));
    assert(start =~= date + seq!['T'] + t + seq![':', '0', '0']);
    assert forall|j: int| 0 <= j < 19 implies (#[trigger] start[j] as u32) < 128 by {
        if j < 10 {
            assert(start[j] == date[j]);
        } else if 11 <= j < 16 {
            assert(start[j] == t[j - 11]);
        }
    }
    lemma_ascii_byte_range(start, 19, 0, 10);
    lemma_ascii_byte_range(start, 19, 11, 16);
    assert(start.subrange(0, 10) =~= date);
    assert(start.subrange(11, 16) =~= t);
    // whether the event lasts all day
    if !form_all_day(form) {
        let dur = form_duration(form);
        assert(dur.len() >= 2 && dur[1] == 'T') by {
            let h = number_or_zero(trim(form.duration_hours@));
            let m = number_or_zero(trim(form.duration_minutes@));
            if !(h == 0 && m == 0) {
                reveal_strlit("H");
                reveal_strlit("M");
            }
        }
        assert(dur != "P1D"@);
    }
    // the location
    if trim(form.location@).len() > 0 {
        let ls = c.locations.unwrap()@;
        assert(first_location_name(ls) == trim(form.location@));
    }
    // the duration
    lemma_form_duration_round_trip(form);
}

// ---------------------------------------------------------------------------
// Event views
// ---------------------------------------------------------------------------

/// An event as the agenda lists it.
#[derive(Debug, Clone)]
pub struct EventSummary {
    pub id: CalendarEventId,
    pub title: String,
    pub time_display: String,
    pub is_all_day: bool,
    pub location: String,
    pub start_date: Option<CalendarDate>,
}

impl EventSummary {
    /// A copy of the entry.
    pub fn duplicate(&self) -> (r: Self)
        ensures
            r == *self,
    {
        EventSummary {
            id: self.id.duplicate(),
            title: self.title.clone(),
            time_display: self.time_display.clone(),
            is_all_day: self.is_all_day,
            location: self.location.clone(),
            start_date: self.start_date,
        }
    }
}

/// An event as its page shows it, with the fields that prefill its edit form.
#[derive(Debug, Clone)]
pub struct EventDetail {
    pub id: CalendarEventId,
    pub title: String,
    pub description: String,
    pub date_display: String,
    pub time_display: String,
    pub duration_display: String,
    pub is_all_day: bool,
    pub location: String,
    pub participants: Vec<ParticipantInfo>,
    pub free_busy_status: String,
    pub start_date: String,
    pub start_time: String,
    pub duration_hours: String,
    pub duration_minutes: String,
}

/// The first ten bytes of a start such as `2025-06-19T20:00:00`, or all of
/// it where it has no such prefix.
pub open spec fn start_date_part(start: Seq<char>) -> Seq<char> {
    match byte_range(start, 0, 10) {
        Some(p) => p,
        None => start,
    }
}

/// Bytes 11 to 16 of a start (its `HH:MM`), or nothing.
pub open spec fn start_time_part(start: Seq<char>) -> Seq<char> {
    match byte_range(start, 11, 16) {
        Some(p) => p,
        None => Seq::empty(),
    }
}

/// How the date of a start is shown: the date in words where its first ten
/// bytes parse as `%Y-%m-%d`, else those bytes as they are.
pub open spec fn start_date_shown(start: Seq<char>) -> Seq<char> {
    match parsed_date(start_date_part(start), "%Y-%m-%d"@) {
        Some((y, m, d)) => date_text(y, m, d, "%B %-d, %Y"@),
        None => start_date_part(start),
    }
}

/// How the time of a start is shown: nothing for an all-day event or a
/// start without a time, else the time in 12-hour form.
pub open spec fn start_time_shown(start: Seq<char>, show_without_time: bool) -> Seq<char> {
    if show_without_time || start_time_part(start).len() == 0 {
        Seq::empty()
    } else {
        time_12h(start_time_part(start))
    }
}

/// The date of a start, where its first ten bytes parse as `%Y-%m-%d`.
pub open spec fn start_date_of(start: Seq<char>, d: Option<CalendarDate>) -> bool {
    match d {
        Some(x) => parsed_date(start_date_part(start), "%Y-%m-%d"@) == Some(ymd(x)) && valid(x),
        None => parsed_date(start_date_part(start), "%Y-%m-%d"@) is None,
    }
}

/// The date in words, the time in 12-hour form and the date of a start such
/// as `2025-06-19T20:00:00`.
pub fn parse_start_display(start: &str, show_without_time: bool) -> (r: (String, String, Option<CalendarDate>))
    ensures
        r.0@ == start_date_shown(start@),
        r.1@ == start_time_shown(start@, show_without_time),
        start_date_of(start@, r.2),
{
    let s = to_chars(start);
    let date_part = match get_byte_range(&s, 0, 10) {
        Some(p) => p,
        None => s.clone(),
    };
    let time_part = match get_byte_range(&s, 11, 16) {
        Some(p) => p,
        None => Vec::new(),
    };
    let date_str = from_chars(&date_part);
    let date = parse_date(date_str.as_str(), "%Y-%m-%d");
    let date_display = match date {
        Some(d) => format_date(d, "%B %-d, %Y"),
        None => date_str,
    };
    let time_display = if show_without_time || time_part.len() == 0 {
        String::new()
    } else {
        format_time_12h(from_chars(&time_part).as_str())
    };
    (date_display, time_display, date)
}

/// Whether an event lasts all day: it is shown without a time, or it lasts
/// exactly `P1D`.
pub open spec fn all_day_event(card: JsCalendarEvent) -> bool {
    card.show_without_time == Some(true) || ov(card.duration) == Some("P1D"@)
}

fn is_all_day_event(card: &JsCalendarEvent) -> (r: bool)
    ensures
        r == all_day_event(*card),
{
    let shown = match card.show_without_time {
        Some(b) => b,
        None => false,
    };
    shown || opt_is(&card.duration, "P1D")
}

/// The summary of an event: its id, title, time, location and start date.
pub open spec fn summarizes(card: JsCalendarEvent, s: EventSummary) -> bool {
    let start = or_empty(card.start);
    &&& card.id matches Some(id) && s.id@ == id@
    &&& s.title@ == or_empty(card.title)
    &&& s.is_all_day == all_day_event(card)
    &&& s.time_display@ == start_time_shown(start, all_day_event(card))
    &&& s.location@ == location_of(card.locations)
    &&& start_date_of(start, s.start_date)
}

/// The agenda entry for an event; `None` for an event without an id.
pub fn event_card_to_summary(card: &JsCalendarEvent) -> (r: Option<EventSummary>)
    ensures
        r is Some <==> card.id is Some,
        r matches Some(s) ==> summarizes(*card, s),
{
    let id = match &card.id {
        Some(id) => id,
        None => return None,
    };
    let is_all_day = is_all_day_event(card);
    let start = clone_or_empty(&card.start);
    let (_, time_display, start_date) = parse_start_display(start.as_str(), is_all_day);
    Some(
        EventSummary {
            id: CalendarEventId::new(id.as_str()),
            title: clone_or_empty(&card.title),
            time_display,
            is_all_day,
            location: extract_location(&card.locations),
            start_date,
        },
    )
}

/// Where an event's start date falls in the agenda: events without a start
/// date first, then by year, month and day (the order of
/// `Option<NaiveDate>`).
pub open spec fn date_rank(o: Option<CalendarDate>) -> int {
    match o {
        None => -0x1_0000_0000_0000_0000_0000_0001,
        Some(d) => d.year * 0x1_0000_0000_0000_0000 + d.month * 0x1_0000_0000 + d.day,
    }
}

fn rank_of(o: &Option<CalendarDate>) -> (r: i128)
    ensures
        r == date_rank(*o),
{
    match o {
        None => -0x1_0000_0000_0000_0000_0000_0001i128,
        Some(d) => (d.year as i128) * 0x1_0000_0000_0000_0000i128 + (d.month as i128) * 0x1_0000_0000i128
            + (d.day as i128),
    }
}

/// The positions `0..keys.len()` ordered by key, ties by position.
fn stable_order(keys: &Vec<i128>) -> (perm: Vec<usize>)
    ensures
        perm@.len() == keys@.len(),
        forall|k: int| 0 <= k < perm@.len() ==> (#[trigger] perm@[k]) < keys@.len(),
        forall|a: int, b: int| 0 <= a < b < perm@.len() ==> #[trigger] perm@[a] != #[trigger] perm@[b],
        forall|a: int, b: int|
            0 <= a < b < perm@.len() ==> keys@[#[trigger] perm@[a] as int] < keys@[#[trigger] perm@[b] as int]
                || (keys@[perm@[a] as int] == keys@[perm@[b] as int] && perm@[a] < perm@[b]),
{
    let n = keys.len();
    let mut perm: Vec<usize> = Vec::new();
    let mut k: usize = 0;
    while k < n
        invariant
            k <= n,
            n == keys@.len(),
            perm@.len() == k,
            forall|q: int| 0 <= q < k ==> perm@[q] == q,
        decreases n - k,
    {
        perm.push(k);
        k = k + 1;
    }
    if n == 0 {
        return perm;
    }
    let mut i: usize = 1;
    while i < n
        invariant
            1 <= i <= n,
            n == keys@.len(),
            perm@.len() == n,
            forall|q: int| i <= q < n ==> perm@[q] == q,
            forall|q: int| 0 <= q < i ==> (#[trigger] perm@[q]) < i,
            forall|a: int, b: int| 0 <= a < b < n ==> #[trigger] perm@[a] != #[trigger] perm@[b],
            forall|a: int, b: int|
                0 <= a < b < i ==> keys@[#[trigger] perm@[a] as int] < keys@[#[trigger] perm@[b] as int] || (
                keys@[perm@[a] as int] == keys@[perm@[b] as int] && perm@[a] < perm@[b]),
        decreases n - i,
    {
        let mut j: usize = i;
        while j > 0 && keys[perm[j]] < keys[perm[j - 1]]
            invariant
                0 <= j <= i < n,
                n == keys@.len(),
                perm@.len() == n,
                perm@[j as int] == i,
                forall|q: int| i < q < n ==> perm@[q] == q,
                forall|q: int| 0 <= q <= i ==> (#[trigger] perm@[q]) <= i,
                forall|a: int, b: int| 0 <= a < b < n ==> #[trigger] perm@[a] != #[trigger] perm@[b],
                forall|a: int, b: int|
                    0 <= a < b <= i && a != j && b != j ==> keys@[#[trigger] perm@[a] as int]
                        < keys@[#[trigger] perm@[b] as int] || (keys@[perm@[a] as int] == keys@[perm@[b] as int]
                        && perm@[a] < perm@[b]),
                forall|b: int| j < b <= i ==> keys@[i as int] < keys@[#[trigger] perm@[b] as int],
            decreases j,
        {
            let x = perm[j];
            let y = perm[j - 1];
            perm.set(j, y);
            perm.set(j - 1, x);
            j = j - 1;
        }
        proof {
            let p = perm@;
            assert forall|a: int, b: int| 0 <= a < b <= i implies keys@[#[trigger] p[a] as int] < keys@[#[trigger] p[b] as int]
                || (keys@[p[a] as int] == keys@[p[b] as int] && p[a] < p[b]) by {
                if b == j {
                    let pj1 = p[j - 1] as int;
                    assert(p[a] != p[j as int]);
                    if a != j - 1 {
                        assert(keys@[p[a] as int] < keys@[pj1] || (keys@[p[a] as int] == keys@[pj1] && p[a] < pj1));
                    }
                    assert(p[a] < i);
                } else if a == j {
                    assert(keys@[i as int] < keys@[p[b] as int]);
                }
            }
            assert forall|q: int| 0 <= q < i + 1 implies (#[trigger] p[q]) < i + 1 by {
            }
        }
        i = i + 1;
    }
    perm
}

/// The events that have an identifier, in order.
pub open spec fn listed_events(cards: Seq<JsCalendarEvent>) -> Seq<JsCalendarEvent> {
    cards.filter(|c: JsCalendarEvent| c.id is Some)
}

/// `output` holds the entries of `input` ordered by start date, entries of
/// equal date in their order in `input`; `output[k]` is `input[p[k]]`.
pub open spec fn sorted_by_date(input: Seq<EventSummary>, output: Seq<EventSummary>, p: Seq<int>) -> bool {
    &&& output.len() == input.len()
    &&& p.len() == input.len()
    &&& forall|k: int| 0 <= k < p.len() ==> 0 <= #[trigger] p[k] < input.len() && output[k] == input[p[k]]
    &&& forall|a: int, b: int| 0 <= a < b < p.len() ==> #[trigger] p[a] != #[trigger] p[b]
    &&& forall|a: int, b: int|
        0 <= a < b < p.len() ==> date_rank((#[trigger] output[a]).start_date) < date_rank(
            (#[trigger] output[b]).start_date,
        ) || (date_rank(output[a].start_date) == date_rank(output[b].start_date) && p[a] < p[b])
}

/// The agenda of the events the server returned: an entry for each event
/// that has an identifier, sorted by start date, events of the same date in
/// the order the server gave them.
pub fn events_from_cards(cards: &Vec<JsCalendarEvent>) -> (r: Vec<EventSummary>)
    ensures
        exists|entries: Seq<EventSummary>, p: Seq<int>|
            #![trigger sorted_by_date(entries, r@, p)]
            entries.len() == listed_events(cards@).len() && (forall|k: int|
                0 <= k < entries.len() ==> summarizes(listed_events(cards@)[k], #[trigger] entries[k]))
                && sorted_by_date(entries, r@, p),
{
    let mut entries: Vec<EventSummary> = Vec::new();
    let mut i: usize = 0;
    while i < cards.len()
        invariant
            i <= cards@.len(),
            entries@.len() == listed_events(cards@.take(i as int)).len(),
            forall|k: int|
                0 <= k < entries@.len() ==> summarizes(listed_events(cards@.take(i as int))[k], #[trigger] entries@[k]),
        decreases cards@.len() - i,
    {
        proof {
            reveal_with_fuel(Seq::<JsCalendarEvent>::filter, 1);
            assert(cards@.take(i + 1).drop_last() =~= cards@.take(i as int));
            assert(cards@.take(i + 1).last() == cards@[i as int]);
        }
        if let Some(s) = event_card_to_summary(&cards[i]) {
            entries.push(s);
        }
        i = i + 1;
    }
    assert(cards@.take(cards@.len() as int) =~= cards@);
    let mut keys: Vec<i128> = Vec::new();
    let mut k: usize = 0;
    while k < entries.len()
        invariant
            k <= entries@.len(),
            keys@.len() == k,
            forall|q: int| 0 <= q < k ==> keys@[q] == date_rank((#[trigger] entries@[q]).start_date),
        decreases entries@.len() - k,
    {
        keys.push(rank_of(&entries[k].start_date));
        k = k + 1;
    }
    let perm = stable_order(&keys);
    let mut out: Vec<EventSummary> = Vec::new();
    let mut q: usize = 0;
    while q < perm.len()
        invariant
            q <= perm@.len(),
            perm@.len() == entries@.len(),
            keys@.len() == entries@.len(),
            forall|x: int| 0 <= x < perm@.len() ==> (#[trigger] perm@[x]) < entries@.len(),
            out@.len() == q,
            forall|x: int| 0 <= x < q ==> #[trigger] out@[x] == entries@[perm@[x] as int],
        decreases perm@.len() - q,
    {
        out.push(entries[perm[q]].duplicate());
        q = q + 1;
    }
    proof {
        let p = perm@.map_values(|x: usize| x as int);
        assert forall|a: int, b: int| 0 <= a < b < p.len() implies date_rank((#[trigger] out@[a]).start_date)
            < date_rank((#[trigger] out@[b]).start_date) || (date_rank(out@[a].start_date) == date_rank(
            out@[b].start_date) && p[a] < p[b]) by {
            assert(perm@[a] != perm@[b]);
            assert(keys@[perm@[a] as int] == date_rank(entries@[perm@[a] as int].start_date));
            assert(keys@[perm@[b] as int] == date_rank(entries@[perm@[b] as int].start_date));
        }
        assert(sorted_by_date(entries@, out@, p));
    }
    out
}

/// The page view of an event, with the raw start date and time and the
/// duration's hours and minutes for the edit form.
pub open spec fn details(card: JsCalendarEvent, d: EventDetail) -> bool {
    let start = or_empty(card.start);
    &&& card.id matches Some(id) && d.id@ == id@
    &&& d.title@ == or_empty(card.title)
    &&& d.description@ == or_empty(card.description)
    &&& d.is_all_day == all_day_event(card)
    &&& d.date_display@ == start_date_shown(start)
    &&& d.time_display@ == start_time_shown(start, all_day_event(card))
    &&& d.duration_display@ == (match card.duration {
        Some(x) => duration_text(x@),
        None => Seq::empty(),
    })
    &&& (d.duration_hours@, d.duration_minutes@) == (match card.duration {
        Some(x) => duration_fields(x@),
        None => (Seq::empty(), Seq::empty()),
    })
    &&& d.location@ == location_of(card.locations)
    &&& d.participants@.len() == participants_of(card.participants).len()
    &&& forall|i: int|
        0 <= i < d.participants@.len() ==> shows_participant(
            #[trigger] d.participants@[i],
            participants_of(card.participants)[i].1,
        )
    &&& d.free_busy_status@ == or_empty(card.free_busy_status)
    &&& d.start_date@ == (match byte_range(start, 0, 10) {
        Some(p) => p,
        None => Seq::empty(),
    })
    &&& d.start_time@ == start_time_part(start)
}

/// The page view of an event; `None` for an event without an id.
pub fn event_card_to_detail(card: &JsCalendarEvent) -> (r: Option<EventDetail>)
    ensures
        r is Some <==> card.id is Some,
        r matches Some(d) ==> details(*card, d),
{
    let id = match &card.id {
        Some(id) => id,
        None => return None,
    };
    let is_all_day = is_all_day_event(card);
    let start = clone_or_empty(&card.start);
    let (date_display, time_display, _) = parse_start_display(start.as_str(), is_all_day);
    let (duration_display, duration_hours, duration_minutes) = match &card.duration {
        Some(x) => {
            let (h, m) = parse_duration_parts(x.as_str());
            (parse_duration_display(x.as_str()), h, m)
        },
        None => (String::new(), String::new(), String::new()),
    };
    let s = to_chars(start.as_str());
    let start_date = match get_byte_range(&s, 0, 10) {
        Some(p) => from_chars(&p),
        None => String::new(),
    };
    let start_time = match get_byte_range(&s, 11, 16) {
        Some(p) => from_chars(&p),
        None => String::new(),
    };
    Some(
        EventDetail {
            id: CalendarEventId::new(id.as_str()),
            title: clone_or_empty(&card.title),
            description: clone_or_empty(&card.description),
            date_display,
            time_display,
            duration_display,
            is_all_day,
            location: extract_location(&card.locations),
            participants: build_participants(&card.participants),
            free_busy_status: clone_or_empty(&card.free_busy_status),
            start_date,
            start_time,
            duration_hours,
            duration_minutes,
        },
    )
}

// ---------------------------------------------------------------------------
// Month grid
// ---------------------------------------------------------------------------

/// One cell of the month grid.
#[derive(Debug, Clone)]
pub struct CalendarDay {
    pub date: CalendarDate,
    pub day: u32,
    pub is_current_month: bool,
    pub is_today: bool,
    pub is_selected: bool,
    pub has_events: bool,
}

/// A month as the mini calendar shows it: six weeks from a Monday, and the
/// months before and after it for navigation.
#[derive(Debug, Clone)]
pub struct CalendarMonth {
    pub month_name: String,
    pub days: Vec<CalendarDay>,
    pub prev_year: i32,
    pub prev_month: u32,
    pub next_year: i32,
    pub next_month: u32,
}

/// The one-letter names of the weekdays, from Monday.
pub fn day_names() -> (r: [&'static str; 7])
    ensures
        r@.len() == 7,
        r@[0]@ == "M"@ && r@[1]@ == "T"@ && r@[2]@ == "W"@ && r@[3]@ == "T"@,
        r@[4]@ == "F"@ && r@[5]@ == "S"@ && r@[6]@ == "S"@,
{
    proof {
        reveal_strlit("M");
        reveal_strlit("T");
        reveal_strlit("W");
        reveal_strlit("F");
        reveal_strlit("S");
    }
    ["M", "T", "W", "T", "F", "S", "S"]
}

/// The first day of the month, or of January of that year where the month
/// does not exist, or `today` where neither does.
pub open spec fn month_first(year: i32, month: u32, today: CalendarDate) -> CalendarDate {
    if valid_date(year as int, month as int, 1) {
        CalendarDate { year, month, day: 1 }
    } else if valid_date(year as int, 1, 1) {
        CalendarDate { year, month: 1, day: 1 }
    } else {
        today
    }
}

/// The Monday on or before `first`.
pub open spec fn grid_start(first: CalendarDate) -> Option<(i32, u32, u32)> {
    let back = -(weekday_index(first.year, first.month, first.day) as int);
    date_plus(first.year, first.month, first.day, back as i64)
}

/// The `i`-th day of the grid that starts on the Monday on or before `first`.
pub open spec fn grid_day(first: CalendarDate, i: int) -> Option<(i32, u32, u32)> {
    match grid_start(first) {
        Some((y, m, d)) => date_plus(y, m, d, i as i64),
        None => None,
    }
}

/// All forty-two days of the grid fall in `chrono`'s range.
pub open spec fn grid_in_range(first: CalendarDate) -> bool {
    forall|i: int| 0 <= i < 42 ==> (#[trigger] grid_day(first, i)) is Some
}

/// The month before and after can be named without leaving `i32` and `u32`.
pub open spec fn neighbours_exist(year: i32, month: u32) -> bool {
    &&& month != 0
    &&& !(month == 1 && year == i32::MIN)
    &&& !(month == 12 && year == i32::MAX)
    &&& month != u32::MAX
}

/// What the grid of `month` of `year` is on `today`: `None` exactly where it
/// cannot be built.
pub open spec fn month_view_on(
    year: i32,
    month: u32,
    selected: Option<CalendarDate>,
    event_dates: Seq<CalendarDate>,
    today: CalendarDate,
    r: Option<CalendarMonth>,
) -> bool {
    &&& r is Some <==> (neighbours_exist(year, month) && grid_in_range(month_first(year, month, today)))
    &&& r matches Some(cm) ==> month_grid(year, month, selected, event_dates, today, cm)
}

/// The cell for `date` in the grid of `month` of `year`.
pub open spec fn day_cell(
    year: i32,
    month: u32,
    selected: Option<CalendarDate>,
    event_dates: Seq<CalendarDate>,
    today: CalendarDate,
    c: CalendarDay,
) -> bool {
    &&& c.day == c.date.day
    &&& c.is_current_month == (c.date.month == month && c.date.year == year)
    &&& c.is_today == (c.date == today)
    &&& c.is_selected == (selected == Some(c.date))
    &&& c.has_events == event_dates.contains(c.date)
}

/// The grid of `month` of `year`, as the mini calendar shows it.
pub open spec fn month_grid(
    year: i32,
    month: u32,
    selected: Option<CalendarDate>,
    event_dates: Seq<CalendarDate>,
    today: CalendarDate,
    cm: CalendarMonth,
) -> bool {
    let first = month_first(year, month, today);
    &&& cm.month_name@ == date_text(first.year, first.month, first.day, "%B %Y"@)
    &&& cm.days@.len() == 42
    &&& forall|i: int|
        0 <= i < 42 ==> {
            &&& grid_day(first, i) == Some(ymd(#[trigger] cm.days@[i].date))
            &&& day_cell(year, month, selected, event_dates, today, cm.days@[i])
        }
    &&& if month == 1 {
        cm.prev_year == year - 1 && cm.prev_month == 12
    } else {
        cm.prev_year == year && cm.prev_month == month - 1
    }
    &&& if month == 12 {
        cm.next_year == year + 1 && cm.next_month == 1
    } else {
        cm.next_year == year && cm.next_month == month + 1
    }
}

proof fn lemma_plus_number(y: i32, m: u32, d: u32, days: i64)
    requires
        date_plus(y, m, d, days) is Some,
    ensures
        number_of(date_plus(y, m, d, days).unwrap()) == day_number(y as int, m as int, d as int) + days,
{
    reveal(date_plus);
}

/// The `i`-th cell of the grid is `i` days after the Monday on or before
/// `first`.
proof fn lemma_grid_day_number(first: CalendarDate, i: int)
    requires
        0 <= i < 42,
        grid_day(first, i) is Some,
    ensures
        grid_start(first) is Some,
        number_of(grid_day(first, i).unwrap()) == day_number(first.year as int, first.month as int, first.day as int)
            - weekday_index(first.year, first.month, first.day) + i,
{
    let w = weekday_index(first.year, first.month, first.day);
    let back = -(w as int);
    lemma_plus_number(first.year, first.month, first.day, back as i64);
    let st = grid_start(first).unwrap();
    lemma_plus_number(st.0, st.1, st.2, i as i64);
}

/// The mini calendar shows whole weeks: its first cell is a Monday, each
/// cell is the day after the one before it, and the first week holds the
/// first day of the month shown.
pub proof fn lemma_grid_weeks(
    year: i32,
    month: u32,
    selected: Option<CalendarDate>,
    event_dates: Seq<CalendarDate>,
    today: CalendarDate,
    cm: CalendarMonth,
)
    requires
        month_grid(year, month, selected, event_dates, today, cm),
    ensures
        weekday_index(cm.days@[0].date.year, cm.days@[0].date.month, cm.days@[0].date.day) == 0,
        forall|i: int|
            0 <= i < 41 ==> number_of(ymd(#[trigger] cm.days@[i + 1].date)) == number_of(ymd(cm.days@[i].date))
                + 1,
        ({
            let first = month_first(year, month, today);
            let gap = day_number(first.year as int, first.month as int, first.day as int) - number_of(
                ymd(cm.days@[0].date),
            );
            0 <= gap < 7
        }),
{
    let first = month_first(year, month, today);
    let w = weekday_index(first.year, first.month, first.day);
    let f = day_number(first.year as int, first.month as int, first.day as int);
    assert forall|i: int| 0 <= i < 42 implies number_of(ymd(#[trigger] cm.days@[i].date)) == f - w + i by {
        assert(grid_day(first, i) == Some(ymd(cm.days@[i].date)));
        lemma_grid_day_number(first, i);
    }
    assert forall|i: int| 0 <= i < 41 implies number_of(ymd(#[trigger] cm.days@[i + 1].date)) == number_of(
        ymd(cm.days@[i].date),
    ) + 1 by {
        assert(number_of(ymd(cm.days@[i + 1].date)) == f - w + (i + 1));
        assert(number_of(ymd(cm.days@[i].date)) == f - w + i);
    }
    let n0 = number_of(ymd(cm.days@[0].date));
    assert(n0 == f - w);
    assert(w as int == (f + 3) % 7);
    assert((n0 + 3) % 7 == 0);
}

fn same_date(a: CalendarDate, b: CalendarDate) -> (r: bool)
    ensures
        r == (a == b),
{
    a.year == b.year && a.month == b.month && a.day == b.day
}

fn contains_date(ds: &Vec<CalendarDate>, d: CalendarDate) -> (r: bool)
    ensures
        r == ds@.contains(d),
{
    let mut i: usize = 0;
    while i < ds.len()
        invariant
            i <= ds@.len(),
            forall|k: int| 0 <= k < i ==> ds@[k] != d,
        decreases ds@.len() - i,
    {
        if same_date(ds[i], d) {
            assert(ds@[i as int] == d);
            return true;
        }
        i = i + 1;
    }
    false
}

/// The grid of `month` of `year` as seen on `today`; `None` where the grid
/// leaves `chrono`'s range of dates, where `month` is 0, or where the month
/// before or after would leave the range of `i32`.
pub fn calendar_month_on(
    year: i32,
    month: u32,
    selected_date: Option<CalendarDate>,
    event_dates: &Vec<CalendarDate>,
    today: CalendarDate,
) -> (r: Option<CalendarMonth>)
    requires
        valid(today),
    ensures
        month_view_on(year, month, selected_date, event_dates@, today, r),
{
    if month == 0 || month == u32::MAX || (month == 1 && year == i32::MIN) || (month == 12 && year
        == i32::MAX) {
        return None;
    }
    let first = match make_date(year, month, 1) {
        Some(d) => d,
        None => match make_date(year, 1, 1) {
            Some(d) => d,
            None => today,
        },
    };
    assert(first == month_first(year, month, today));
    let month_name = format_date(first, "%B %Y");
    let back = weekday_from_monday(first);
    let start = match add_days(first, -(back as i64)) {
        Some(g) => g,
        None => {
            assert(grid_day(first, 0) is None);
            return None;
        },
    };
    let mut days: Vec<CalendarDay> = Vec::new();
    let mut i: i64 = 0;
    while i < 42
        invariant
            0 <= i <= 42,
            valid(start),
            first == month_first(year, month, today),
            neighbours_exist(year, month),
            grid_start(first) == Some(ymd(start)),
            days@.len() == i,
            forall|k: int|
                0 <= k < i ==> {
                    &&& grid_day(first, k) == Some(ymd(#[trigger] days@[k].date))
                    &&& day_cell(year, month, selected_date, event_dates@, today, days@[k])
                },
        decreases 42 - i,
    {
        let date = match add_days(start, i) {
            Some(d) => d,
            None => {
                assert(grid_day(first, i as int) is None);
                return None;
            },
        };
        let is_selected = match selected_date {
            Some(s) => same_date(s, date),
            None => false,
        };
        days.push(
            CalendarDay {
                date,
                day: date.day,
                is_current_month: date.month == month && date.year == year,
                is_today: same_date(date, today),
                is_selected,
                has_events: contains_date(event_dates, date),
            },
        );
        i = i + 1;
    }
    assert(grid_in_range(first)) by {
        assert forall|k: int| 0 <= k < 42 implies (#[trigger] grid_day(first, k)) is Some by {
            assert(grid_day(first, k) == Some(ymd(days@[k].date)));
        }
    }
    let (prev_year, prev_month) = if month == 1 {
        (year - 1, 12)
    } else {
        (year, month - 1)
    };
    let (next_year, next_month) = if month == 12 {
        (year + 1, 1)
    } else {
        (year, month + 1)
    };
    Some(CalendarMonth { month_name, days, prev_year, prev_month, next_year, next_month })
}

/// Today's date on this machine's clock and in its time zone.
#[verifier::external_body]
fn local_today() -> (r: CalendarDate)
    ensures
        valid(r),
{
    let d = chrono::Local::now().date_naive();
    CalendarDate { year: d.year(), month: d.month(), day: d.day() }
}

/// The month after `month` of `year`, counting a month past December as
/// January of the next year.
pub open spec fn next_month(year: i32, month: u32) -> (int, int) {
    if month == 12 {
        (year + 1, 1)
    } else {
        (year as int, month + 1)
    }
}

/// The last day of `month` of `year` as `YYYY-MM-DD`: the day before the
/// first of the next month. Where that first day does not exist (a month
/// past 12, or a year outside `chrono`'s range) the day before today is
/// given instead.
pub fn last_day_of_month(year: i32, month: u32) -> (r: String)
    requires
        month == 12 ==> year < i32::MAX,
        month != 12 ==> month < u32::MAX,
        !(next_month(year, month) == (-262143int, 1int)),
    ensures
        ({
            let (ny, nm) = next_month(year, month);
            valid_date(ny, nm, 1) ==> (date_plus(ny as i32, nm as u32, 1, -1i64) matches Some(x) && r@
                == date_text(x.0, x.1, x.2, "%Y-%m-%d"@))
        }),
{
    let (next_year, next_month) = if month == 12 {
        (year + 1, 1u32)
    } else {
        (year, month + 1)
    };
    let first_of_next = match make_date(next_year, next_month, 1) {
        Some(d) => d,
        None => local_today(),
    };
    proof {
        reveal_strlit("%Y-%m-%d");
    }
    match add_days(first_of_next, -1) {
        Some(last) => format_date(last, "%Y-%m-%d"),
        None => String::new(),
    }
}

/// The grid of `month` of `year` as seen today; see [`calendar_month_on`].
pub fn build_calendar_month(
    year: i32,
    month: u32,
    selected_date: Option<CalendarDate>,
    event_dates: &Vec<CalendarDate>,
) -> (r: Option<CalendarMonth>)
    ensures
        exists|today: CalendarDate|
            valid(today) && #[trigger] month_view_on(year, month, selected_date, event_dates@, today, r),
{
    let today = local_today();
    calendar_month_on(year, month, selected_date, event_dates, today)
}

/// The start dates of the events, each once, for the dots of the grid.
pub fn event_dates_set(events: &Vec<EventSummary>) -> (r: Vec<CalendarDate>)
    ensures
        forall|d: CalendarDate|
            r@.contains(d) <==> exists|i: int|
                0 <= i < events@.len() && #[trigger] events@[i].start_date == Some(d),
        r@.no_duplicates(),
{
    let mut out: Vec<CalendarDate> = Vec::new();
    let mut i: usize = 0;
    while i < events.len()
        invariant
            i <= events@.len(),
            out@.no_duplicates(),
            forall|d: CalendarDate|
                out@.contains(d) <==> exists|k: int|
                    0 <= k < i && #[trigger] events@[k].start_date == Some(d),
        decreases events@.len() - i,
    {
        let ghost before = out@;
        if let Some(d) = events[i].start_date {
            if !contains_date(&out, d) {
                out.push(d);
                proof {
                    assert forall|a: int, b: int| 0 <= a < b < out@.len() implies out@[a] != out@[b] by {
                        if b == out@.len() - 1 {
                            assert(before.contains(out@[a]));
                        }
                    }
                }
            }
        }
        proof {
            assert forall|x: CalendarDate|
                out@.contains(x) <==> exists|k: int|
                    0 <= k < i + 1 && #[trigger] events@[k].start_date == Some(x) by {
                if events@[i as int].start_date == Some(x) {
                    if !before.contains(x) {
                        assert(out@[out@.len() - 1] == x);
                    }
                }
                if out@.contains(x) && !before.contains(x) {
                    let j = choose|j: int| 0 <= j < out@.len() && out@[j] == x;
                    if j < before.len() {
                        assert(before[j] == x);
                    }
                }
                if exists|k: int| 0 <= k < i && #[trigger] events@[k].start_date == Some(x) {
                    assert(before.contains(x));
                    let j = choose|j: int| 0 <= j < before.len() && before[j] == x;
                    assert(out@[j] == x);
                }
            }
        }
        i = i + 1;
    }
    out
}

} // verus!
