//! Calendar days as plain year / month / day values.
//!
//! Deadlines, creation dates and completion dates are calendar days in the
//! Gregorian calendar. Years run from 0 to 9999 so that every date can be
//! written as zero-padded `YYYY-MM-DD`.

use vstd::prelude::*;

use crate::text::{push_char, push_four_digits, push_two_digits, spec_four_digits, spec_two_digits};

verus! {

/// A Gregorian calendar day, held as plain year / month / day values.
#[derive(Clone, Copy, Debug, PartialEq, Eq, Hash, Structural)]
pub struct Date {
    pub year: u16,
    pub month: u8,
    pub day: u8,
}

/// Gregorian leap-year rule.
pub open spec fn spec_is_leap_year(y: int) -> bool {
    y % 4 == 0 && (y % 100 != 0 || y % 400 == 0)
}

/// Number of days in month `m` of year `y`, for `1 <= m <= 12`.
pub open spec fn spec_days_in_month(y: int, m: int) -> int {
    if m == 2 {
        if spec_is_leap_year(y) {
            29
        } else {
            28
        }
    } else if m == 4 || m == 6 || m == 9 || m == 11 {
        30
    } else {
        31
    }
}

/// Number of days in month `m` of year `y`.
pub fn days_in_month(year: u16, month: u8) -> (r: u8)
    requires
        1 <= month <= 12,
    ensures
        r == spec_days_in_month(year as int, month as int),
{
    if month == 2 {
        if year % 4 == 0 && (year % 100 != 0 || year % 400 == 0) {
            29
        } else {
            28
        }
    } else if month == 4 || month == 6 || month == 9 || month == 11 {
        30
    } else {
        31
    }
}

impl Date {
    /// A valid calendar day with a four-digit year.
    pub open spec fn wf(self) -> bool {
        &&& self.year <= 9999
        &&& 1 <= self.month <= 12
        &&& 1 <= self.day <= spec_days_in_month(self.year as int, self.month as int)
    }

    /// `self` is on or before `other` in calendar order.
    pub open spec fn spec_le(self, other: Date) -> bool {
        if self.year != other.year {
            self.year < other.year
        } else if self.month != other.month {
            self.month < other.month
        } else {
            self.day <= other.day
        }
    }

    /// The day after `self`, or `None` past the last representable day.
    pub open spec fn spec_next(self) -> Option<Date> {
        if self.day < spec_days_in_month(self.year as int, self.month as int) {
            Some(Date { year: self.year, month: self.month, day: (self.day + 1) as u8 })
        } else if self.month < 12 {
            Some(Date { year: self.year, month: (self.month + 1) as u8, day: 1 })
        } else if self.year < 9999 {
            Some(Date { year: (self.year + 1) as u16, month: 1, day: 1 })
        } else {
            None
        }
    }

    /// The day `n` days after `self`, or `None` past the last representable day.
    pub open spec fn spec_add_days(self, n: nat) -> Option<Date>
        decreases n,
    {
        if n == 0 {
            Some(self)
        } else {
            match self.spec_next() {
                Some(d) => d.spec_add_days((n - 1) as nat),
                None => None,
            }
        }
    }

    /// The given year / month / day as a `Date`, if they form a valid
    /// calendar day.
    pub fn new(year: u16, month: u8, day: u8) -> (r: Option<Date>)
        ensures
            ({
                let d = (Date { year, month, day });
                if d.wf() {
                    r == Some(d)
                } else {
                    r == None::<Date>
                }
            }),
    {
        if year <= 9999 && 1 <= month && month <= 12 && 1 <= day && day <= days_in_month(
            year,
            month,
        ) {
            Some(Date { year, month, day })
        } else {
            None
        }
    }

    /// `self` is on or before `other` in calendar order.
    pub fn le(&self, other: &Date) -> (r: bool)
        ensures
            r == self.spec_le(*other),
    {
        if self.year != other.year {
            self.year < other.year
        } else if self.month != other.month {
            self.month < other.month
        } else {
            self.day <= other.day
        }
    }

    /// The day after `self`, or `None` past 9999-12-31.
    pub fn next(self) -> (r: Option<Date>)
        requires
            self.wf(),
        ensures
            r == self.spec_next(),
            r matches Some(d) ==> d.wf(),
    {
        if self.day < days_in_month(self.year, self.month) {
            Some(Date { year: self.year, month: self.month, day: self.day + 1 })
        } else if self.month < 12 {
            Some(Date { year: self.year, month: self.month + 1, day: 1 })
        } else if self.year < 9999 {
            Some(Date { year: self.year + 1, month: 1, day: 1 })
        } else {
            None
        }
    }

    /// The day `n` days after `self`, or `None` if that would pass
    /// 9999-12-31.
    pub fn add_days(self, n: u32) -> (r: Option<Date>)
        requires
            self.wf(),
        ensures
            r == self.spec_add_days(n as nat),
            r matches Some(d) ==> d.wf(),
    {
        let mut cur: Date = self;
        let mut i: u32 = 0;
        while i < n
            invariant
                i <= n,
                cur.wf(),
                self.spec_add_days(n as nat) == cur.spec_add_days((n - i) as nat),
            decreases n - i,
        {
            match cur.next() {
                Some(d) => {
                    cur = d;
                    i = i + 1;
                },
                None => {
                    return None;
                },
            }
        }
        Some(cur)
    }
}

/// The text form of a date: zero-padded `YYYY-MM-DD`.
pub open spec fn spec_date_chars(d: Date) -> Seq<char> {
    spec_four_digits(d.year as int) + seq!['-'] + spec_two_digits(d.month as int) + seq!['-']
        + spec_two_digits(d.day as int)
}

/// Appends the zero-padded `YYYY-MM-DD` form of `d` to `s`.
pub(crate) fn push_date(s: &mut String, d: &Date)
    requires
        d.year <= 9999,
        d.month <= 99,
        d.day <= 99,
    ensures
        final(s)@ == old(s)@ + spec_date_chars(*d),
{
    push_four_digits(s, d.year);
    push_char(s, '-');
    push_two_digits(s, d.month);
    push_char(s, '-');
    push_two_digits(s, d.day);
    proof {
        assert(s@ =~= old(s)@ + spec_date_chars(*d));
    }
}

/// Relies on chrono's `Local::now` and its `Datelike` accessors: the month
/// ranges over 1 to 12 and the day of month over 1 to 31.
#[verifier::external_body]
fn now_year_month_day() -> (r: (i32, u32, u32))
    ensures
        1 <= r.1 <= 12,
        1 <= r.2 <= 31,
{
    let now = chrono::Local::now().naive_local();
    (
        chrono::Datelike::year(&now),
        chrono::Datelike::month(&now),
        chrono::Datelike::day(&now),
    )
}

/// The current local calendar day, read from the wall clock.
///
/// Should the clock report a day outside the representable range of
/// `Date`, the first representable day stands in for it.
pub fn today() -> (d: Date)
    ensures
        d.wf(),
{
    let (y, m, dd) = now_year_month_day();
    if 0 <= y && y <= 9999 {
        if let Some(date) = Date::new(y as u16, m as u8, dd as u8) {
            return date;
        }
    }
    Date { year: 0, month: 1, day: 1 }
}

} // verus!
