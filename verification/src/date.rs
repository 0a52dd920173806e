//! Calendar dates, their order, and month arithmetic.

use chrono::Datelike;
use vstd::prelude::*;

verus! {

/// The earliest year a [`Date`] can lie in.
pub const MIN_YEAR: i32 = -262143;

/// The latest year a [`Date`] can lie in.
pub const MAX_YEAR: i32 = 262142;

/// A day of the proleptic Gregorian calendar, held as plain numbers.
#[derive(Clone, Copy, Debug, PartialEq, Eq, Structural)]
pub struct Date {
    pub year: i32,
    pub month: u32,
    pub day: u32,
}

/// Whether `year` has a 29th of February.
pub open spec fn is_leap_year(year: int) -> bool {
    year % 4 == 0 && (year % 100 != 0 || year % 400 == 0)
}

/// The number of days of the given month (1 to 12) of `year`.
pub open spec fn days_in_month(year: int, month: int) -> int {
    if month == 2 {
        if is_leap_year(year) {
            29
        } else {
            28
        }
    } else if month == 4 || month == 6 || month == 9 || month == 11 {
        30
    } else {
        31
    }
}

impl Date {
    /// The date names a day that exists, in a year between `MIN_YEAR` and `MAX_YEAR`.
    pub open spec fn valid(self) -> bool {
        &&& MIN_YEAR <= self.year <= MAX_YEAR
        &&& 1 <= self.month <= 12
        &&& 1 <= self.day <= days_in_month(self.year as int, self.month as int)
    }

    /// `self` lies strictly earlier than `other`.
    pub open spec fn before(self, other: Date) -> bool {
        self.year < other.year || (self.year == other.year && (self.month < other.month || (
        self.month == other.month && self.day < other.day)))
    }

    /// The date `months` months after `self`: the same day of the month, or the
    /// month's last day where it has no such day. `None` where `self` is no valid
    /// date or the result would lie after `MAX_YEAR`.
    pub open spec fn plus_months(self, months: nat) -> Option<Date> {
        let total = self.year * 12 + (self.month - 1) + months;
        let year = total / 12;
        let month = total % 12 + 1;
        let last = days_in_month(year, month);
        if self.valid() && year <= MAX_YEAR {
            Some(
                Date {
                    year: year as i32,
                    month: month as u32,
                    day: if self.day <= last {
                        self.day
                    } else {
                        last as u32
                    },
                },
            )
        } else {
            None
        }
    }

    /// Moving a valid date on by months gives a valid date, and a later one
    /// where at least one month is added.
    pub proof fn lemma_plus_months(self, months: nat)
        requires
            self.valid(),
        ensures
            self.plus_months(months) is Some ==> self.plus_months(months)->0.valid(),
            self.plus_months(months) is Some && months >= 1 ==> self.before(
                self.plus_months(months)->0,
            ),
            months == 0 ==> self.plus_months(months) == Some(self),
    {
    }

    /// Builds the date from its parts, or `None` where no such day exists.
    pub fn new(year: i32, month: u32, day: u32) -> (r: Option<Date>)
        ensures
            r == (if (Date { year, month, day }).valid() {
                Some(Date { year, month, day })
            } else {
                None::<Date>
            }),
    {
        let d = Date { year, month, day };
        if d.is_valid() {
            Some(d)
        } else {
            None
        }
    }

    /// Checks that the date names a day that exists.
    pub fn is_valid(&self) -> (r: bool)
        ensures
            r == self.valid(),
    {
        if self.year < MIN_YEAR || self.year > MAX_YEAR || self.month < 1 || self.month > 12 {
            return false;
        }
        let shifted: i32 = self.year + 262400;
        assert(shifted % 4 == self.year as int % 4 && shifted % 100 == self.year as int % 100
            && shifted % 400 == self.year as int % 400);
        let leap = shifted % 4 == 0 && (shifted % 100 != 0 || shifted % 400 == 0);
        let last: u32 = if self.month == 2 {
            if leap {
                29
            } else {
                28
            }
        } else if self.month == 4 || self.month == 6 || self.month == 9 || self.month == 11 {
            30
        } else {
            31
        };
        1 <= self.day && self.day <= last
    }

    /// Whether `self` lies strictly earlier than `other`.
    pub fn is_before(&self, other: &Date) -> (r: bool)
        ensures
            r == self.before(*other),
    {
        self.year < other.year || (self.year == other.year && (self.month < other.month || (
        self.month == other.month && self.day < other.day)))
    }
}

/// The calendar date of the system clock in UTC, as `chrono::Utc::now` followed
/// by `date_naive` gives it. The contract claims only that what comes back is a
/// valid date: which one depends on the clock. `chrono` stops the program where
/// the clock stands before the year 1970.
#[verifier::external_body]
pub(crate) fn today() -> (d: Date)
    ensures
        d.valid(),
{
    let now = chrono::Utc::now().date_naive();
    Date { year: now.year(), month: now.month(), day: now.day() }
}

/// `chrono::NaiveDate::checked_add_months` on the date that
/// `chrono::NaiveDate::from_ymd_opt` builds from the parts. The contract claims
/// that the result is `plus_months`: the month count moves on by `months`, the
/// day is kept or clamped to the month's last day, and `None` comes back where
/// the parts name no day or the result leaves the range of years.
#[verifier::external_body]
pub(crate) fn add_months(d: Date, months: u32) -> (r: Option<Date>)
    ensures
        r == d.plus_months(months as nat),
{
    let start = chrono::NaiveDate::from_ymd_opt(d.year, d.month, d.day)?;
    let end = start.checked_add_months(chrono::Months::new(months))?;
    Some(Date { year: end.year(), month: end.month(), day: end.day() })
}

} // verus!
