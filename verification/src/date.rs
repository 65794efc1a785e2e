//! Calendar dates in the proleptic Gregorian calendar, as the dataset records
//! them (`last_verified`), with their order and their `YYYY-MM-DD` form.

use vstd::prelude::*;
use vstd::std_specs::cmp::PartialOrdSpecImpl;
use core::cmp::Ordering;
use crate::text::{decimal, push_padded4, push_two_digits, two_digits, zero_padded};

verus! {

/// The earliest year a date can hold.
pub const MIN_YEAR: i32 = -262143;

/// The latest year a date can hold.
pub const MAX_YEAR: i32 = 262142;

/// Leap years of the Gregorian calendar.
pub open spec fn is_leap_year(y: int) -> bool {
    (y % 4 == 0 && y % 100 != 0) || y % 400 == 0
}

/// The number of days in month `m` (1 to 12) of year `y`.
pub open spec fn days_in_month(y: int, m: int) -> int {
    if m == 2 {
        if is_leap_year(y) { 29 } else { 28 }
    } else if m == 4 || m == 6 || m == 9 || m == 11 {
        30
    } else {
        31
    }
}

/// Whether year, month and day name a day that a `Date` can hold.
pub open spec fn is_valid_date(y: int, m: int, d: int) -> bool {
    &&& MIN_YEAR <= y <= MAX_YEAR
    &&& 1 <= m <= 12
    &&& 1 <= d <= days_in_month(y, m)
}

/// Whether day `a` comes strictly before day `b` (each as year, month, day).
pub open spec fn date_precedes(a: (int, int, int), b: (int, int, int)) -> bool {
    ||| a.0 < b.0
    ||| a.0 == b.0 && a.1 < b.1
    ||| a.0 == b.0 && a.1 == b.1 && a.2 < b.2
}

/// The year as written in a date: four digits for years 0 to 9999, otherwise
/// an explicit sign followed by at least four digits.
pub open spec fn year_text(y: int) -> Seq<char> {
    if 0 <= y <= 9999 {
        zero_padded(decimal(y as nat), 4)
    } else if y < 0 {
        seq!['-'] + zero_padded(decimal((-y) as nat), 4)
    } else {
        seq!['+'] + zero_padded(decimal(y as nat), 4)
    }
}

/// The `YYYY-MM-DD` form of a day.
pub open spec fn date_text(v: (int, int, int)) -> Seq<char> {
    year_text(v.0) + seq!['-'] + two_digits(v.1) + seq!['-'] + two_digits(v.2)
}

/// A day of the calendar.
#[derive(Debug, Clone, Copy, PartialEq, Eq, Ord)]
pub struct Date {
    year: i32,
    month: u32,
    day: u32,
}

impl Date {
    #[verifier::type_invariant]
    spec fn wf(self) -> bool {
        is_valid_date(self.year as int, self.month as int, self.day as int)
    }
}

impl View for Date {
    type V = (int, int, int);

    closed spec fn view(&self) -> (int, int, int) {
        (self.year as int, self.month as int, self.day as int)
    }
}

/// Whether `year` is a leap year.
fn leap_year(year: i32) -> (b: bool)
    requires
        MIN_YEAR <= year <= MAX_YEAR,
    ensures
        b == is_leap_year(year as int),
{
    // Shifting by a multiple of 400 keeps every remainder the rule reads.
    let shifted: u32 = (year as i64 + 400_000) as u32;
    proof {
        let y = year as int;
        let s = y + 400_000;
        assert(s % 4 == y % 4) by (nonlinear_arith) requires s == y + 400_000;
        assert(s % 100 == y % 100) by (nonlinear_arith) requires s == y + 400_000;
        assert(s % 400 == y % 400) by (nonlinear_arith) requires s == y + 400_000;
    }
    (shifted % 4 == 0 && shifted % 100 != 0) || shifted % 400 == 0
}

impl Date {
    /// Makes the date of the given year, month (1 to 12) and day of the month
    /// (from 1); `None` when no such day exists or the year is out of range.
    pub fn from_ymd_opt(year: i32, month: u32, day: u32) -> (r: Option<Date>)
        ensures
            r is Some <==> is_valid_date(year as int, month as int, day as int),
            r matches Some(d) ==> d@ == (year as int, month as int, day as int),
    {
        if year < MIN_YEAR || year > MAX_YEAR || month < 1 || month > 12 || day < 1 {
            return None;
        }
        let last: u32 = if month == 2 {
            if leap_year(year) { 29 } else { 28 }
        } else if month == 4 || month == 6 || month == 9 || month == 11 {
            30
        } else {
            31
        };
        if day > last {
            None
        } else {
            Some(Date { year, month, day })
        }
    }

    /// The year.
    pub fn year(&self) -> (y: i32)
        ensures
            y as int == self@.0,
    {
        self.year
    }

    /// The month, from 1 to 12.
    pub fn month(&self) -> (m: u32)
        ensures
            m as int == self@.1,
    {
        self.month
    }

    /// The day of the month, from 1.
    pub fn day(&self) -> (d: u32)
        ensures
            d as int == self@.2,
    {
        self.day
    }

    /// Whether this day comes strictly after `other`.
    pub fn is_after(&self, other: &Date) -> (b: bool)
        ensures
            b == date_precedes(other@, self@),
    {
        other.year < self.year
            || (other.year == self.year && other.month < self.month)
            || (other.year == self.year && other.month == self.month && other.day < self.day)
    }

    /// The `YYYY-MM-DD` form of this day.
    pub fn to_string(&self) -> (s: String)
        ensures
            s@ == date_text(self@),
    {
        proof { use_type_invariant(self); }
        let mut s = String::new();
        if 0 <= self.year && self.year <= 9999 {
            push_padded4(&mut s, self.year as u64);
        } else if self.year < 0 {
            s.append("-");
            proof { reveal_strlit("-"); }
            push_padded4(&mut s, (-(self.year as i64)) as u64);
        } else {
            s.append("+");
            proof { reveal_strlit("+"); }
            push_padded4(&mut s, self.year as u64);
        }
        s.append("-");
        push_two_digits(&mut s, self.month as u64);
        s.append("-");
        push_two_digits(&mut s, self.day as u64);
        proof {
            reveal_strlit("-");
            assert(s@ == date_text(self@));
        }
        s
    }
}

/// How date `a` compares with date `b`: earlier, the same, or later.
pub open spec fn date_order(a: (int, int, int), b: (int, int, int)) -> Option<Ordering> {
    if date_precedes(a, b) {
        Some(Ordering::Less)
    } else if a == b {
        Some(Ordering::Equal)
    } else {
        Some(Ordering::Greater)
    }
}

impl PartialOrd for Date {
    /// Dates are ordered chronologically.
    fn partial_cmp(&self, other: &Date) -> (r: Option<Ordering>) {
        if self.year < other.year || (self.year == other.year && (self.month < other.month || (
        self.month == other.month && self.day < other.day))) {
            Some(Ordering::Less)
        } else if self.year == other.year && self.month == other.month && self.day == other.day {
            Some(Ordering::Equal)
        } else {
            Some(Ordering::Greater)
        }
    }
}

impl PartialOrdSpecImpl for Date {
    open spec fn obeys_partial_cmp_spec() -> bool {
        true
    }

    open spec fn partial_cmp_spec(&self, other: &Date) -> Option<Ordering> {
        date_order(self@, other@)
    }
}

} // verus!
