//! Building hours, and whether a building is open at a given instant.
//!
//! [`Hours`] is an enum so that "unknown" is representable: a building whose
//! hours are not known yet is never treated as open or as closed.
//! [`Hours::is_open_at`] takes an absolute instant and converts it to campus
//! time (`America/Chicago`) itself, so that a viewer in another time zone still
//! sees what is open on campus; the conversion is not left to the caller.

use vstd::prelude::*;
use vstd::std_specs::cmp::PartialOrdSpecImpl;
use core::cmp::Ordering;
use chrono::format::ParseError;
use chrono::{DateTime, Datelike, NaiveTime, Timelike};
use chrono_tz::America::Chicago;
use crate::text::{digit_char, is_white_space, push_two_digits, two_digits};

verus! {

// ---------------------------------------------------------------------------
// Days of the week
// ---------------------------------------------------------------------------

/// A day of the week, Monday first.
#[derive(Debug, Clone, Copy, PartialEq, Eq, Structural)]
pub enum Weekday {
    Mon,
    Tue,
    Wed,
    Thu,
    Fri,
    Sat,
    Sun,
}

/// The day `i` days after Monday (`i` in `0..7`; later values give Sunday).
pub open spec fn weekday_from_monday(i: int) -> Weekday {
    if i == 0 {
        Weekday::Mon
    } else if i == 1 {
        Weekday::Tue
    } else if i == 2 {
        Weekday::Wed
    } else if i == 3 {
        Weekday::Thu
    } else if i == 4 {
        Weekday::Fri
    } else if i == 5 {
        Weekday::Sat
    } else {
        Weekday::Sun
    }
}

/// The short name of a day, as it is shown in messages.
pub open spec fn weekday_name(d: Weekday) -> Seq<char> {
    match d {
        Weekday::Mon => "Mon"@,
        Weekday::Tue => "Tue"@,
        Weekday::Wed => "Wed"@,
        Weekday::Thu => "Thu"@,
        Weekday::Fri => "Fri"@,
        Weekday::Sat => "Sat"@,
        Weekday::Sun => "Sun"@,
    }
}

impl Weekday {
    /// The short name of this day (`"Mon"` to `"Sun"`).
    pub fn name(&self) -> (s: &'static str)
        ensures
            s@ == weekday_name(*self),
    {
        match self {
            Weekday::Mon => "Mon",
            Weekday::Tue => "Tue",
            Weekday::Wed => "Wed",
            Weekday::Thu => "Thu",
            Weekday::Fri => "Fri",
            Weekday::Sat => "Sat",
            Weekday::Sun => "Sun",
        }
    }

    /// The day `i` days after Monday.
    pub fn from_days_since_monday(i: u32) -> (d: Weekday)
        requires
            i < 7,
        ensures
            d == weekday_from_monday(i as int),
            d == seq![
                Weekday::Mon,
                Weekday::Tue,
                Weekday::Wed,
                Weekday::Thu,
                Weekday::Fri,
                Weekday::Sat,
                Weekday::Sun,
            ][i as int],
    {
        if i == 0 {
            Weekday::Mon
        } else if i == 1 {
            Weekday::Tue
        } else if i == 2 {
            Weekday::Wed
        } else if i == 3 {
            Weekday::Thu
        } else if i == 4 {
            Weekday::Fri
        } else if i == 5 {
            Weekday::Sat
        } else {
            Weekday::Sun
        }
    }
}

// ---------------------------------------------------------------------------
// Times of day
// ---------------------------------------------------------------------------

/// Whether `c` is an ASCII decimal digit.
pub open spec fn is_digit(c: char) -> bool {
    48 <= (c as int) <= 57
}

/// The value of an ASCII decimal digit.
pub open spec fn digit_value(c: char) -> int {
    (c as int) - 48
}

/// Whether `raw` is exactly a time written `HH:MM`, with an hour below 24 and
/// a minute below 60.
pub open spec fn canonical_hh_mm(raw: Seq<char>) -> bool {
    &&& raw.len() == 5
    &&& is_digit(raw[0]) && is_digit(raw[1]) && raw[2] == ':' && is_digit(raw[3]) && is_digit(raw[4])
    &&& digit_value(raw[0]) * 10 + digit_value(raw[1]) < 24
    &&& digit_value(raw[3]) * 10 + digit_value(raw[4]) < 60
}

/// Whether `raw` is written `DD:DD` but names no time of day: its hour is 24
/// or more, or its minute 60 or more.
pub open spec fn out_of_range_hh_mm(raw: Seq<char>) -> bool {
    &&& raw.len() == 5
    &&& is_digit(raw[0]) && is_digit(raw[1]) && raw[2] == ':' && is_digit(raw[3]) && is_digit(raw[4])
    &&& (digit_value(raw[0]) * 10 + digit_value(raw[1]) >= 24 || digit_value(raw[3]) * 10
        + digit_value(raw[4]) >= 60)
}

/// Whether `raw` holds no ASCII digit at all.
pub open spec fn has_no_digit(raw: Seq<char>) -> bool {
    forall|i: int| 0 <= i < raw.len() ==> !is_digit(#[trigger] raw[i])
}

/// The time of day (seconds since midnight, fraction) that an `HH:MM` text
/// names.
pub open spec fn hh_mm_value(raw: Seq<char>) -> (int, int) {
    (
        (digit_value(raw[0]) * 10 + digit_value(raw[1])) * 3600 + (digit_value(raw[3]) * 10
            + digit_value(raw[4])) * 60,
        0,
    )
}

/// The `HH:MM` form of a time of day given as (seconds since midnight,
/// nanosecond fraction); seconds and fraction are not shown.
pub open spec fn hh_mm_text(t: (int, int)) -> Seq<char> {
    two_digits(t.0 / 3600) + seq![':'] + two_digits((t.0 / 60) % 60)
}

/// Whether time of day `a` comes strictly before time of day `b`.
pub open spec fn time_precedes(a: (int, int), b: (int, int)) -> bool {
    a.0 < b.0 || (a.0 == b.0 && a.1 < b.1)
}

/// Whether (seconds since midnight, fraction) is a time of day: seconds below
/// a day, and a fraction below two seconds (the second half stands for a leap
/// second).
pub open spec fn is_time_of_day(t: (int, int)) -> bool {
    0 <= t.0 < 86_400 && 0 <= t.1 < 2_000_000_000
}

/// The end of the run of white space (as `char::is_whitespace` counts it)
/// that starts at position `i` of `s`.
pub open spec fn white_space_end(s: Seq<char>, i: int) -> int
    decreases s.len() - i,
{
    if 0 <= i < s.len() && is_white_space(s[i]) {
        white_space_end(s, i + 1)
    } else {
        i
    }
}

/// The end of the run of at most two ASCII digits that starts at position
/// `i` of `s`.
pub open spec fn digits_end(s: Seq<char>, i: int) -> int {
    if 0 <= i < s.len() && is_digit(s[i]) {
        if i + 1 < s.len() && is_digit(s[i + 1]) {
            i + 2
        } else {
            i + 1
        }
    } else {
        i
    }
}

/// The number written by the one or two digits of `s` from position `i` up
/// to `j`.
pub open spec fn digits_value(s: Seq<char>, i: int, j: int) -> int {
    if j == i + 2 {
        digit_value(s[i]) * 10 + digit_value(s[i + 1])
    } else {
        digit_value(s[i])
    }
}

/// What parsing `raw` with the `%H:%M` format of `chrono` gives: the time as
/// (seconds since midnight, nanosecond fraction), or nothing when `raw` is not
/// such a time.
///
/// The text is: optional white space, an hour of one or two digits, `:`,
/// optional white space, a minute of one or two digits, and nothing more; the
/// hour must be below 24 and the minute below 60. Seconds and fraction are
/// zero.
pub open spec fn parsed_hh_mm(raw: Seq<char>) -> Option<(int, int)> {
    let a = white_space_end(raw, 0);
    let b = digits_end(raw, a);
    let c = white_space_end(raw, b + 1);
    let d = digits_end(raw, c);
    if a < b && b < raw.len() && raw[b] == ':' && c < d && d == raw.len() {
        let h = digits_value(raw, a, b);
        let m = digits_value(raw, c, d);
        if h < 24 && m < 60 {
            Some((h * 3600 + m * 60, 0))
        } else {
            None
        }
    } else {
        None
    }
}

/// What `%H:%M` parsing gives: a time of whole minutes within a day; an
/// exact `HH:MM` text names its time; an out-of-range `DD:DD` text or a text
/// without digits names none.
proof fn lemma_parsed_hh_mm(raw: Seq<char>)
    ensures
        parsed_hh_mm(raw) matches Some(p) ==> is_time_of_day(p) && p.0 % 60 == 0 && p.1 == 0,
        canonical_hh_mm(raw) ==> parsed_hh_mm(raw) == Some(hh_mm_value(raw)),
        out_of_range_hh_mm(raw) ==> parsed_hh_mm(raw) is None,
        has_no_digit(raw) ==> parsed_hh_mm(raw) is None,
{
    if canonical_hh_mm(raw) || out_of_range_hh_mm(raw) {
        assert(white_space_end(raw, 0) == 0);
        assert(digits_end(raw, 0) == 2);
        assert(white_space_end(raw, 3) == 3);
        assert(digits_end(raw, 3) == 5);
    }
}

/// What parsing an `HH:MM` text gives: seconds since midnight and the
/// nanosecond fraction, or `chrono`'s error.
type HhMmParse = Result<(u32, u32), ParseError>;

/// Calls `chrono::NaiveTime::parse_from_str(raw, "%H:%M")`.
///
/// Claimed of it: it succeeds exactly when `parsed_hh_mm(raw)` gives a time,
/// and then gives that time. This is how `chrono` reads the format: `%H` and
/// `%M` each skip leading white space (`trim_start`) and read one or two
/// ASCII digits, the hour and minute setters refuse 24 and more and 60 and
/// more, the literal `:` must follow the hour, anything left over is an
/// error, and missing seconds and fraction default to zero. Which error kind
/// a refusal carries is left unsaid.
#[verifier::external_body]
fn parse_hh_mm(raw: &str) -> (r: HhMmParse)
    ensures
        r is Ok <==> parsed_hh_mm(raw@) is Some,
        r matches Ok(p) ==> parsed_hh_mm(raw@) == Some((p.0 as int, p.1 as int)),
{
    match NaiveTime::parse_from_str(raw, "%H:%M") {
        Ok(t) => Ok((t.num_seconds_from_midnight(), t.nanosecond())),
        Err(e) => Err(e),
    }
}

/// `chrono`'s error of a text that does not match a format.
#[verifier::external_type_specification]
#[verifier::external_body]
pub struct ExParseError(ParseError);

/// A wall-clock time of day, written `"HH:MM"` in the data.
///
/// Kept as a parsed value rather than text, so that `"25:00"` is refused when
/// it is read instead of becoming bad data.
#[derive(Debug, Clone, Copy, PartialEq, Eq, Structural, Ord)]
pub struct Time {
    secs: u32,
    frac: u32,
}

impl Time {
    #[verifier::type_invariant]
    spec fn wf(self) -> bool {
        is_time_of_day((self.secs as int, self.frac as int))
    }
}

impl View for Time {
    /// Seconds since midnight and the nanosecond fraction.
    type V = (int, int);

    closed spec fn view(&self) -> (int, int) {
        (self.secs as int, self.frac as int)
    }
}

/// The error of a text that is not an `HH:MM` time, with `chrono`'s account of
/// what is wrong with it.
#[derive(Debug, Clone, Copy, PartialEq, Eq)]
pub struct TimeParseError(pub ParseError);

impl Time {
    /// The format times are written in.
    pub const FORMAT: &'static str = "%H:%M";

    /// Parses an `HH:MM` time. An hour of 24 or more, a minute of 60 or more,
    /// or a text without digits (`"25:00"`, `"noon"`) is refused.
    pub fn parse(raw: &str) -> (r: Result<Time, TimeParseError>)
        ensures
            r is Ok <==> parsed_hh_mm(raw@) is Some,
            r matches Ok(t) ==> parsed_hh_mm(raw@) == Some(t@),
            r matches Ok(t) ==> t@.0 % 60 == 0 && t@.1 == 0,
            canonical_hh_mm(raw@) ==> (r matches Ok(t) && t@ == hh_mm_value(raw@)),
            out_of_range_hh_mm(raw@) ==> r is Err,
            has_no_digit(raw@) ==> r is Err,
    {
        proof { lemma_parsed_hh_mm(raw@); }
        match parse_hh_mm(raw) {
            Ok((secs, frac)) => Ok(Time { secs, frac }),
            Err(e) => Err(TimeParseError(e)),
        }
    }

    /// This time as (seconds since midnight, nanosecond fraction).
    pub fn seconds_from_midnight(&self) -> (r: (u32, u32))
        ensures
            (r.0 as int, r.1 as int) == self@,
            is_time_of_day(self@),
    {
        proof { use_type_invariant(self); }
        (self.secs, self.frac)
    }

    /// Whether this time comes strictly before `other`.
    pub fn is_before(&self, other: &Time) -> (b: bool)
        ensures
            b == time_precedes(self@, other@),
    {
        self.secs < other.secs || (self.secs == other.secs && self.frac < other.frac)
    }

    /// The `HH:MM` form of this time.
    pub fn to_string(&self) -> (s: String)
        ensures
            s@ == hh_mm_text(self@),
    {
        proof { use_type_invariant(self); }
        let mut s = String::new();
        push_two_digits(&mut s, (self.secs / 3600) as u64);
        s.append(":");
        push_two_digits(&mut s, ((self.secs / 60) % 60) as u64);
        proof {
            reveal_strlit(":");
            assert(s@ =~= hh_mm_text(self@));
        }
        s
    }
}

/// How time of day `a` compares with time of day `b`: earlier, the same, or
/// later.
pub open spec fn time_order(a: (int, int), b: (int, int)) -> Option<Ordering> {
    if time_precedes(a, b) {
        Some(Ordering::Less)
    } else if a == b {
        Some(Ordering::Equal)
    } else {
        Some(Ordering::Greater)
    }
}

impl PartialOrd for Time {
    /// Times are ordered by time of day.
    fn partial_cmp(&self, other: &Time) -> (r: Option<Ordering>) {
        if self.secs < other.secs || (self.secs == other.secs && self.frac < other.frac) {
            Some(Ordering::Less)
        } else if self.secs == other.secs && self.frac == other.frac {
            Some(Ordering::Equal)
        } else {
            Some(Ordering::Greater)
        }
    }
}

impl PartialOrdSpecImpl for Time {
    open spec fn obeys_partial_cmp_spec() -> bool {
        true
    }

    open spec fn partial_cmp_spec(&self, other: &Time) -> Option<Ordering> {
        time_order(self@, other@)
    }
}

/// Opening and closing time within one day. Open from `open` up to, not
/// including, `close`.
#[derive(Debug, Clone, Copy, PartialEq, Eq, Structural)]
pub struct TimeRange {
    pub open: Time,
    pub close: Time,
}

// ---------------------------------------------------------------------------
// Weekly schedules
// ---------------------------------------------------------------------------

/// The range of each day of the week; `None` means closed that day.
#[derive(Debug, Clone, Copy, PartialEq, Eq, Structural)]
pub struct WeeklySchedule {
    pub monday: Option<TimeRange>,
    pub tuesday: Option<TimeRange>,
    pub wednesday: Option<TimeRange>,
    pub thursday: Option<TimeRange>,
    pub friday: Option<TimeRange>,
    pub saturday: Option<TimeRange>,
    pub sunday: Option<TimeRange>,
}

/// The entries of `entries` that have a range, in order.
pub open spec fn days_with_ranges(entries: Seq<(Weekday, Option<TimeRange>)>) -> Seq<
    (Weekday, TimeRange),
>
    decreases entries.len(),
{
    if entries.len() == 0 {
        Seq::empty()
    } else {
        let rest = days_with_ranges(entries.drop_last());
        match entries.last().1 {
            Some(r) => rest.push((entries.last().0, r)),
            None => rest,
        }
    }
}

/// Taking one more entry adds that entry when it has a range.
proof fn lemma_days_with_ranges_step(entries: Seq<(Weekday, Option<TimeRange>)>, n: int)
    requires
        0 <= n < entries.len(),
    ensures
        days_with_ranges(entries.take(n + 1)) == match entries[n].1 {
            Some(r) => days_with_ranges(entries.take(n)).push((entries[n].0, r)),
            None => days_with_ranges(entries.take(n)),
        },
{
    let t = entries.take(n + 1);
    assert(t.drop_last() =~= entries.take(n));
    assert(t.last() == entries[n]);
}

impl WeeklySchedule {
    /// The range of day `day`.
    pub open spec fn range_on(self, day: Weekday) -> Option<TimeRange> {
        match day {
            Weekday::Mon => self.monday,
            Weekday::Tue => self.tuesday,
            Weekday::Wed => self.wednesday,
            Weekday::Thu => self.thursday,
            Weekday::Fri => self.friday,
            Weekday::Sat => self.saturday,
            Weekday::Sun => self.sunday,
        }
    }

    /// The seven days, Monday first, each with its range.
    pub open spec fn week(self) -> Seq<(Weekday, Option<TimeRange>)> {
        seq![
            (Weekday::Mon, self.monday),
            (Weekday::Tue, self.tuesday),
            (Weekday::Wed, self.wednesday),
            (Weekday::Thu, self.thursday),
            (Weekday::Fri, self.friday),
            (Weekday::Sat, self.saturday),
            (Weekday::Sun, self.sunday),
        ]
    }

    /// The range of day `day`, if it has one.
    pub fn for_weekday(&self, day: Weekday) -> (r: Option<&TimeRange>)
        ensures
            r is Some <==> self.range_on(day) is Some,
            r matches Some(x) ==> *x == self.range_on(day)->0,
    {
        match day {
            Weekday::Mon => self.monday.as_ref(),
            Weekday::Tue => self.tuesday.as_ref(),
            Weekday::Wed => self.wednesday.as_ref(),
            Weekday::Thu => self.thursday.as_ref(),
            Weekday::Fri => self.friday.as_ref(),
            Weekday::Sat => self.saturday.as_ref(),
            Weekday::Sun => self.sunday.as_ref(),
        }
    }

    /// Every day that has a range, Monday first, with its range; for
    /// validation and display.
    pub fn all_ranges(&self) -> (r: Vec<(Weekday, TimeRange)>)
        ensures
            r@ == days_with_ranges(self.week()),
    {
        let mut r: Vec<(Weekday, TimeRange)> = Vec::new();
        let ghost w = self.week();
        assert(days_with_ranges(w.take(0)) =~= Seq::empty());
        if let Some(x) = self.monday {
            r.push((Weekday::Mon, x));
        }
        proof { lemma_days_with_ranges_step(w, 0); }
        assert(r@ =~= days_with_ranges(w.take(1)));
        if let Some(x) = self.tuesday {
            r.push((Weekday::Tue, x));
        }
        proof { lemma_days_with_ranges_step(w, 1); }
        assert(r@ =~= days_with_ranges(w.take(2)));
        if let Some(x) = self.wednesday {
            r.push((Weekday::Wed, x));
        }
        proof { lemma_days_with_ranges_step(w, 2); }
        assert(r@ =~= days_with_ranges(w.take(3)));
        if let Some(x) = self.thursday {
            r.push((Weekday::Thu, x));
        }
        proof { lemma_days_with_ranges_step(w, 3); }
        assert(r@ =~= days_with_ranges(w.take(4)));
        if let Some(x) = self.friday {
            r.push((Weekday::Fri, x));
        }
        proof { lemma_days_with_ranges_step(w, 4); }
        assert(r@ =~= days_with_ranges(w.take(5)));
        if let Some(x) = self.saturday {
            r.push((Weekday::Sat, x));
        }
        proof { lemma_days_with_ranges_step(w, 5); }
        assert(r@ =~= days_with_ranges(w.take(6)));
        if let Some(x) = self.sunday {
            r.push((Weekday::Sun, x));
        }
        proof { lemma_days_with_ranges_step(w, 6); }
        assert(r@ =~= days_with_ranges(w.take(7)));
        assert(w.take(7) =~= w);
        r
    }
}

impl Default for WeeklySchedule {
    /// A week with no range on any day.
    fn default() -> (s: Self)
        ensures
            s.monday is None && s.tuesday is None && s.wednesday is None && s.thursday is None
                && s.friday is None && s.saturday is None && s.sunday is None,
    {
        WeeklySchedule {
            monday: None,
            tuesday: None,
            wednesday: None,
            thursday: None,
            friday: None,
            saturday: None,
            sunday: None,
        }
    }
}

// ---------------------------------------------------------------------------
// Instants and campus time
// ---------------------------------------------------------------------------

/// Whether `chrono` can represent the UTC instant `secs` seconds and `nanos`
/// nanoseconds after the Unix epoch: its date lies from the year -262143
/// (`-8_334_601_228_800` is the first second of that year) to the year 262142
/// (`8_210_266_876_799` is the last second of that year), and the fraction is
/// below one second, or below two seconds in the last second of a minute (a
/// leap second).
pub open spec fn utc_instant_exists(secs: int, nanos: int) -> bool {
    &&& -8_334_601_228_800 <= secs <= 8_210_266_876_799
    &&& 0 <= nanos
    &&& (nanos < 1_000_000_000 || (nanos < 2_000_000_000 && secs % 60 == 59))
}

/// The campus (`America/Chicago`) wall clock at the UTC instant `secs`
/// seconds and `nanos` nanoseconds after the Unix epoch: days since Monday,
/// seconds since midnight, and nanosecond fraction.
pub uninterp spec fn campus_clock_at(secs: int, nanos: int) -> (int, int, int);

/// Calls `chrono::DateTime::from_timestamp(secs, nanos)` and tells whether it
/// gives an instant.
///
/// Claimed of it: the answer is `utc_instant_exists(secs, nanos)`. This is
/// how `chrono` builds the instant: the day (`secs` divided by a day, rounded
/// down) must give a date of the years -262143 to 262142, and the second of
/// the day with `nanos` must give a time, which takes a fraction of one
/// second or more only in the last second of a minute, and never two seconds.
#[verifier::external_body]
fn instant_exists(secs: i64, nanos: u32) -> (b: bool)
    ensures
        b == utc_instant_exists(secs as int, nanos as int),
{
    match DateTime::from_timestamp(secs, nanos) {
        Some(_) => true,
        None => false,
    }
}

/// Calls `chrono::DateTime::from_timestamp(secs, nanos)`, converts the
/// instant with `with_timezone(&chrono_tz::America::Chicago)`, and reads its
/// `weekday()` (as days since Monday) and `time()` (as seconds since midnight
/// and nanosecond fraction).
///
/// Claimed of it: it gives a clock exactly when the instant exists, and then
/// that clock is `campus_clock_at(secs, nanos)`, with a weekday below 7 and a
/// time of day (what `chrono` documents of `Weekday` and `NaiveTime`). The
/// time zone rules themselves are left unsaid.
#[verifier::external_body]
fn campus_clock(secs: i64, nanos: u32) -> (r: Option<(u32, u32, u32)>)
    ensures
        r is Some <==> utc_instant_exists(secs as int, nanos as int),
        r matches Some(c) ==> (c.0 as int, c.1 as int, c.2 as int) == campus_clock_at(secs as int, nanos as int),
        r matches Some(c) ==> c.0 < 7 && c.1 < 86_400 && c.2 < 2_000_000_000,
{
    match DateTime::from_timestamp(secs, nanos) {
        Some(utc) => {
            let campus = utc.with_timezone(&Chicago);
            let time = campus.time();
            Some(
                (
                    campus.weekday().num_days_from_monday(),
                    time.num_seconds_from_midnight(),
                    time.nanosecond(),
                ),
            )
        },
        None => None,
    }
}

/// The campus (`America/Chicago`) wall clock at the UTC instant `secs`
/// seconds and `nanos` nanoseconds after the Unix epoch, written as date, time
/// and zone abbreviation (`chrono`'s format `%Y-%m-%d %H:%M %Z`).
pub uninterp spec fn campus_time_text_at(secs: int, nanos: int) -> Seq<char>;

/// Calls `chrono::DateTime::from_timestamp(secs, nanos)`, converts the
/// instant with `with_timezone(&chrono_tz::America::Chicago)`, and writes it
/// with `format("%Y-%m-%d %H:%M %Z")`.
///
/// Claimed of it: it gives a text exactly when the instant exists, and then
/// that text is `campus_time_text_at(secs, nanos)`. The time zone rules and
/// the formatting itself are left unsaid.
#[verifier::external_body]
fn campus_time_text(secs: i64, nanos: u32) -> (r: Option<String>)
    ensures
        r is Some <==> utc_instant_exists(secs as int, nanos as int),
        r matches Some(t) ==> t@ == campus_time_text_at(secs as int, nanos as int),
{
    match DateTime::from_timestamp(secs, nanos) {
        Some(utc) => Some(utc.with_timezone(&Chicago).format("%Y-%m-%d %H:%M %Z").to_string()),
        None => None,
    }
}

/// Whether the UTC instant `secs` seconds and `nanos` nanoseconds after the
/// Unix epoch lies well within the dates `chrono` documents, with a fraction
/// below one second.
pub open spec fn within_documented_range(secs: int, nanos: int) -> bool {
    -8_000_000_000_000 <= secs <= 8_000_000_000_000 && 0 <= nanos < 1_000_000_000
}

/// An absolute instant: seconds and nanoseconds since the Unix epoch, UTC.
#[derive(Debug, Clone, Copy, PartialEq, Eq)]
pub struct Instant {
    secs: i64,
    nanos: u32,
}

impl Instant {
    #[verifier::type_invariant]
    spec fn wf(self) -> bool {
        utc_instant_exists(self.secs as int, self.nanos as int)
    }
}

impl View for Instant {
    /// Seconds and nanoseconds since the Unix epoch.
    type V = (int, int);

    closed spec fn view(&self) -> (int, int) {
        (self.secs as int, self.nanos as int)
    }
}

impl Instant {
    /// The instant `secs` seconds and `nanos` nanoseconds after the Unix
    /// epoch, when it can be represented.
    pub fn from_timestamp(secs: i64, nanos: u32) -> (r: Option<Instant>)
        ensures
            r is Some <==> utc_instant_exists(secs as int, nanos as int),
            r matches Some(i) ==> i@ == (secs as int, nanos as int),
            within_documented_range(secs as int, nanos as int) ==> r is Some,
    {
        if instant_exists(secs, nanos) {
            Some(Instant { secs, nanos })
        } else {
            None
        }
    }

    /// Seconds since the Unix epoch.
    pub fn timestamp(&self) -> (s: i64)
        ensures
            s as int == self@.0,
    {
        self.secs
    }

    /// The nanoseconds past the second.
    pub fn subsec_nanos(&self) -> (n: u32)
        ensures
            n as int == self@.1,
    {
        self.nanos
    }

    /// The campus wall clock at this instant as text, such as
    /// `"2025-01-06 09:30 CST"`.
    pub fn campus_time_text(&self) -> (s: String)
        ensures
            s@ == campus_time_text_at(self@.0, self@.1),
    {
        proof { use_type_invariant(self); }
        match campus_time_text(self.secs, self.nanos) {
            Some(t) => t,
            None => {
                proof { assert(false); }
                String::new()
            },
        }
    }

    /// The campus wall clock at this instant: day of the week and time of day.
    pub fn campus_clock(&self) -> (r: (Weekday, Time))
        ensures
            campus_clock_at(self@.0, self@.1).0 < 7,
            r.0 == weekday_from_monday(campus_clock_at(self@.0, self@.1).0),
            r.1@ == (campus_clock_at(self@.0, self@.1).1, campus_clock_at(self@.0, self@.1).2),
    {
        proof { use_type_invariant(self); }
        match campus_clock(self.secs, self.nanos) {
            Some((day, secs, frac)) => (Weekday::from_days_since_monday(day), Time { secs, frac }),
            None => {
                proof { assert(false); }
                (Weekday::Mon, Time { secs: 0, frac: 0 })
            },
        }
    }
}

// ---------------------------------------------------------------------------
// Hours
// ---------------------------------------------------------------------------

/// When a building is open.
#[derive(Debug, Clone, PartialEq, Eq, Structural)]
pub enum Hours {
    /// No data yet. Excluded from "open now" results: never assumed open or
    /// closed.
    Unknown,
    /// Open around the clock, or effectively always accessible.
    AlwaysOpen,
    /// Open in the range of each day of the week.
    Weekly { schedule: WeeklySchedule },
}

/// Whether hours `h` say open at time `t` of day `day`: `None` when the hours
/// are unknown. A day without a range is closed; a range is open from its
/// opening time up to, not including, its closing time.
pub open spec fn open_status(h: Hours, day: Weekday, t: (int, int)) -> Option<bool> {
    match h {
        Hours::Unknown => None,
        Hours::AlwaysOpen => Some(true),
        Hours::Weekly { schedule } => match schedule.range_on(day) {
            None => Some(false),
            Some(r) => Some(!time_precedes(t, r.open@) && time_precedes(t, r.close@)),
        },
    }
}

/// Whether hours `h` say open at the UTC instant (`secs`, `nanos`), judged by
/// the campus wall clock at that instant.
pub open spec fn open_status_at(h: Hours, secs: int, nanos: int) -> Option<bool> {
    let c = campus_clock_at(secs, nanos);
    open_status(h, weekday_from_monday(c.0), (c.1, c.2))
}

impl Default for Hours {
    /// Unknown hours.
    fn default() -> (h: Self)
        ensures
            h == Hours::Unknown,
    {
        Hours::Unknown
    }
}

impl Hours {
    /// Whether the building is open at time `time` of day `day`, on the campus
    /// wall clock. `None` when the hours are unknown.
    pub fn is_open_during(&self, day: Weekday, time: &Time) -> (r: Option<bool>)
        ensures
            r == open_status(*self, day, time@),
    {
        match self {
            Hours::Unknown => None,
            Hours::AlwaysOpen => Some(true),
            Hours::Weekly { schedule } => match schedule.for_weekday(day) {
                None => Some(false),
                Some(range) => Some(!time.is_before(&range.open) && time.is_before(&range.close)),
            },
        }
    }

    /// Whether the building is open at `when`.
    ///
    /// Returns `None` when the hours are unknown: the caller decides how to
    /// show that, and unknown buildings are left out of "open now" results
    /// rather than assumed open or closed. `when` is an absolute instant; it
    /// is converted to campus time before it is judged, so a viewer in
    /// another time zone still sees what is open on campus.
    pub fn is_open_at(&self, when: Instant) -> (r: Option<bool>)
        ensures
            r == open_status_at(*self, when@.0, when@.1),
    {
        let (day, time) = when.campus_clock();
        self.is_open_during(day, &time)
    }

    /// Whether these hours can take part in "open now" filtering at all.
    pub fn is_known(&self) -> (b: bool)
        ensures
            b == !(*self is Unknown),
    {
        match self {
            Hours::Unknown => false,
            _ => true,
        }
    }
}

/// Whether day entry `r` is open from 09:00 up to 17:00.
pub open spec fn is_nine_to_five(r: Option<TimeRange>) -> bool {
    r matches Some(range) && range.open@ == (32_400int, 0int) && range.close@ == (61_200int, 0int)
}

/// Whether `s` is open 09:00 to 17:00 from Monday to Friday and closed at the
/// weekend.
pub open spec fn is_weekdays_nine_to_five(s: WeeklySchedule) -> bool {
    &&& is_nine_to_five(s.monday)
    &&& is_nine_to_five(s.tuesday)
    &&& is_nine_to_five(s.wednesday)
    &&& is_nine_to_five(s.thursday)
    &&& is_nine_to_five(s.friday)
    &&& s.saturday is None
    &&& s.sunday is None
}

/// A sample schedule: weekdays 09:00 to 17:00, closed at the weekend.
pub fn sample_hours() -> (h: Hours)
    ensures
        h matches Hours::Weekly { schedule } && is_weekdays_nine_to_five(schedule),
{
    proof {
        reveal_strlit("09:00");
        reveal_strlit("17:00");
    }
    let open = Time::parse("09:00").unwrap();
    let close = Time::parse("17:00").unwrap();
    let nine_to_five = Some(TimeRange { open, close });
    Hours::Weekly {
        schedule: WeeklySchedule {
            monday: nine_to_five,
            tuesday: nine_to_five,
            wednesday: nine_to_five,
            thursday: nine_to_five,
            friday: nine_to_five,
            saturday: None,
            sunday: None,
        },
    }
}

// ---------------------------------------------------------------------------
// Laws
// ---------------------------------------------------------------------------

/// Hours give an answer exactly when they are known: unknown hours are never
/// judged open or closed, and known hours are always judged one or the other.
pub proof fn law_decided_iff_known(h: Hours, day: Weekday, t: (int, int))
    ensures
        (open_status(h, day, t) is None) == (h is Unknown),
{
}

/// A building that is always open is open at every time of every day.
pub proof fn law_always_open(day: Weekday, t: (int, int))
    ensures
        open_status(Hours::AlwaysOpen, day, t) == Some(true),
{
}

/// A day without a range is closed all day.
pub proof fn law_day_without_range_is_closed(s: WeeklySchedule, day: Weekday, t: (int, int))
    requires
        s.range_on(day) is None,
    ensures
        open_status(Hours::Weekly { schedule: s }, day, t) == Some(false),
{
}

/// A range is half-open: open at its opening time, closed at its closing
/// time, and closed before it opens.
pub proof fn law_range_is_half_open(s: WeeklySchedule, day: Weekday, t: (int, int))
    requires
        s.range_on(day) is Some,
        time_precedes(s.range_on(day)->0.open@, s.range_on(day)->0.close@),
    ensures
        open_status(Hours::Weekly { schedule: s }, day, s.range_on(day)->0.open@) == Some(true),
        open_status(Hours::Weekly { schedule: s }, day, s.range_on(day)->0.close@) == Some(false),
        time_precedes(t, s.range_on(day)->0.open@) ==> open_status(Hours::Weekly { schedule: s }, day, t)
            == Some(false),
{
}

/// Whether a building is open at an instant depends on the campus wall
/// clock at that instant alone: two instants that read the same on campus
/// get the same answer, whatever time zone they were written in.
pub proof fn law_judged_by_campus_clock(h: Hours, a: (int, int), b: (int, int))
    requires
        campus_clock_at(a.0, a.1) == campus_clock_at(b.0, b.1),
    ensures
        open_status_at(h, a.0, a.1) == open_status_at(h, b.0, b.1),
{
}

/// Days are counted from Monday as `chrono` counts them: the day `i` days
/// after Monday is, for `i` from 0 to 6, Monday, Tuesday, Wednesday,
/// Thursday, Friday, Saturday and Sunday.
pub proof fn law_days_counted_from_monday(i: int)
    requires
        0 <= i < 7,
    ensures
        weekday_from_monday(i) == seq![
            Weekday::Mon,
            Weekday::Tue,
            Weekday::Wed,
            Weekday::Thu,
            Weekday::Fri,
            Weekday::Sat,
            Weekday::Sun,
        ][i],
{
}

/// Weekly hours are judged at an instant by the entry of the campus day: the
/// campus day counted from Monday picks, in order, the Monday to Sunday entry
/// of the schedule; a day without an entry is closed, and an entry is open
/// from its opening time, included, up to its closing time, excluded.
pub proof fn law_campus_day_picks_its_entry(s: WeeklySchedule, secs: int, nanos: int)
    requires
        0 <= campus_clock_at(secs, nanos).0 < 7,
    ensures
        ({
            let c = campus_clock_at(secs, nanos);
            let entry = seq![
                s.monday,
                s.tuesday,
                s.wednesday,
                s.thursday,
                s.friday,
                s.saturday,
                s.sunday,
            ][c.0];
            open_status_at(Hours::Weekly { schedule: s }, secs, nanos) == match entry {
                None => Some(false),
                Some(r) => Some(
                    (r.open@.0 < c.1 || (r.open@.0 == c.1 && r.open@.1 <= c.2)) && (c.1
                        < r.close@.0 || (c.1 == r.close@.0 && c.2 < r.close@.1)),
                ),
            }
        }),
{
}

/// The value of a digit character.
proof fn lemma_digit_char_value(c: char)
    requires
        is_digit(c),
    ensures
        digit_char(digit_value(c)) == c,
        0 <= digit_value(c) < 10,
{
}

/// The character of a digit, read back.
proof fn lemma_digit_value_char(d: int)
    requires
        0 <= d < 10,
    ensures
        is_digit(digit_char(d)),
        digit_value(digit_char(d)) == d,
{
}

/// A time written exactly `HH:MM` is written back the same: the `HH:MM` form
/// of the time it names is the text itself.
pub proof fn law_hh_mm_text_round_trip(raw: Seq<char>)
    requires
        canonical_hh_mm(raw),
    ensures
        hh_mm_text(hh_mm_value(raw)) == raw,
{
    let h = digit_value(raw[0]) * 10 + digit_value(raw[1]);
    let m = digit_value(raw[3]) * 10 + digit_value(raw[4]);
    let secs = h * 3600 + m * 60;
    lemma_digit_char_value(raw[0]);
    lemma_digit_char_value(raw[1]);
    lemma_digit_char_value(raw[3]);
    lemma_digit_char_value(raw[4]);
    assert(secs / 3600 == h) by (nonlinear_arith)
        requires secs == h * 3600 + m * 60, 0 <= h < 24, 0 <= m < 60;
    assert((secs / 60) % 60 == m) by (nonlinear_arith)
        requires secs == h * 3600 + m * 60, 0 <= h < 24, 0 <= m < 60;
    assert(h / 10 == digit_value(raw[0]) && h % 10 == digit_value(raw[1]));
    assert(m / 10 == digit_value(raw[3]) && m % 10 == digit_value(raw[4]));
    assert(hh_mm_text(hh_mm_value(raw)) =~= raw);
}

/// A time of whole minutes is named by its own `HH:MM` form: that form is a
/// well-formed `HH:MM` text, and it names the time back.
pub proof fn law_hh_mm_value_round_trip(t: (int, int))
    requires
        is_time_of_day(t),
        t.0 % 60 == 0,
        t.1 == 0,
    ensures
        canonical_hh_mm(hh_mm_text(t)),
        hh_mm_value(hh_mm_text(t)) == t,
{
    let h = t.0 / 3600;
    let m = (t.0 / 60) % 60;
    assert(0 <= h < 24 && 0 <= m < 60 && t.0 == h * 3600 + m * 60) by (nonlinear_arith)
        requires 0 <= t.0 < 86_400, t.0 % 60 == 0, h == t.0 / 3600, m == (t.0 / 60) % 60;
    lemma_digit_value_char(h / 10);
    lemma_digit_value_char(h % 10);
    lemma_digit_value_char(m / 10);
    lemma_digit_value_char(m % 10);
    let text = hh_mm_text(t);
    assert(text.len() == 5);
    assert(text[0] == digit_char(h / 10) && text[1] == digit_char(h % 10) && text[2] == ':');
    assert(text[3] == digit_char(m / 10) && text[4] == digit_char(m % 10));
}

} // verus!
