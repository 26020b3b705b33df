//! Points in time: seconds since the start of 1970, and their writing as a
//! calendar date with the time of day, `YYYY-MM-DD HH:MM:SS`, in UTC.

use crate::text::{decimal, push_decimal};
use vstd::prelude::*;
use vstd::string::*;

verus! {

/// The seconds of one day.
pub const SECONDS_PER_DAY: u64 = 86_400;

/// The seconds of the seven days for which a book is lent.
pub const LOAN_SECONDS: u64 = 604_800;

/// The seconds of the hour for which a login token is good.
pub const TOKEN_SECONDS: u64 = 3_600;

/// The last second of the year 9999: the latest time that the ledger takes.
pub const LAST_SECOND: u64 = 253_402_300_799;

/// Whether `year` is a leap year of the Gregorian calendar.
pub open spec fn is_leap(year: int) -> bool {
    year % 4 == 0 && (year % 100 != 0 || year % 400 == 0)
}

/// The days of `year`.
pub open spec fn days_in_year(year: int) -> int {
    if is_leap(year) {
        366
    } else {
        365
    }
}

/// The days of the month `month` (1 to 12) of `year`.
pub open spec fn days_in_month(year: int, month: int) -> int {
    if month == 2 {
        if is_leap(year) {
            29
        } else {
            28
        }
    } else if month == 4 || month == 6 || month == 9 || month == 11 {
        30
    } else {
        31
    }
}

/// The days from the start of 1970 to the start of `year`.
pub open spec fn days_before_year(year: int) -> int
    decreases year,
{
    if year <= 1970 {
        0
    } else {
        days_before_year(year - 1) + days_in_year(year - 1)
    }
}

/// The days from the start of `year` to the start of its month `month`.
pub open spec fn days_before_month(year: int, month: int) -> int
    decreases month,
{
    if month <= 1 {
        0
    } else {
        days_before_month(year, month - 1) + days_in_month(year, month - 1)
    }
}

/// A calendar date with the time of day.
#[derive(Clone, Copy, Debug, PartialEq, Eq)]
pub struct DateTime {
    pub year: u64,
    pub month: u64,
    pub day: u64,
    pub hour: u64,
    pub minute: u64,
    pub second: u64,
}

impl DateTime {
    /// Whether the fields name a day of the calendar, from 1970 on, and a
    /// second of that day.
    pub open spec fn valid(self) -> bool {
        &&& 1970 <= self.year
        &&& 1 <= self.month <= 12
        &&& 1 <= self.day <= days_in_month(self.year as int, self.month as int)
        &&& self.hour < 24
        &&& self.minute < 60
        &&& self.second < 60
    }

    /// The seconds from the start of 1970 to this second.
    pub open spec fn timestamp(self) -> int {
        (days_before_year(self.year as int) + days_before_month(
            self.year as int,
            self.month as int,
        ) + self.day - 1) * 86_400 + self.hour * 3_600 + self.minute * 60 + self.second
    }

    /// The writing `YYYY-MM-DD HH:MM:SS`.
    pub open spec fn text(self) -> Seq<char> {
        decimal(self.year as nat) + seq!['-'] + two_digits(self.month as nat) + seq!['-']
            + two_digits(self.day as nat) + seq![' '] + two_digits(self.hour as nat) + seq![':']
            + two_digits(self.minute as nat) + seq![':'] + two_digits(self.second as nat)
    }
}

/// The decimal writing of `n` with a zero in front where it has one digit.
pub open spec fn two_digits(n: nat) -> Seq<char> {
    if n < 10 {
        seq!['0'] + decimal(n)
    } else {
        decimal(n)
    }
}

/// The year in which the day lies that comes `days` days after the start of
/// `year`.
pub open spec fn year_after(year: int, days: int) -> int
    decreases days,
{
    if 0 <= days_in_year(year) <= days {
        year_after(year + 1, days - days_in_year(year))
    } else {
        year
    }
}

/// The month in which the day lies that comes `days` days after the start of
/// the month `month` of `year`.
pub open spec fn month_after(year: int, month: int, days: int) -> int
    decreases days,
{
    if month < 12 && 0 <= days_in_month(year, month) <= days {
        month_after(year, month + 1, days - days_in_month(year, month))
    } else {
        month
    }
}

/// The date and time of day of the second `t` seconds after the start of
/// 1970.
pub open spec fn date_time_of(t: int) -> DateTime {
    let days = t / 86_400;
    let rest = t % 86_400;
    let year = year_after(1970, days);
    let day_of_year = days - days_before_year(year);
    let month = month_after(year, 1, day_of_year);
    DateTime {
        year: year as u64,
        month: month as u64,
        day: (day_of_year - days_before_month(year, month) + 1) as u64,
        hour: (rest / 3_600) as u64,
        minute: (rest % 3_600 / 60) as u64,
        second: (rest % 60) as u64,
    }
}

/// The writing of the second `t` seconds after the start of 1970.
pub open spec fn date_time_text(t: int) -> Seq<char> {
    date_time_of(t).text()
}

/// The days before a year grow with the year, by 365 a year at least.
proof fn lemma_days_before_year_grows(from: int, to: int)
    requires
        1970 <= from <= to,
    ensures
        days_before_year(from) + 365 * (to - from) <= days_before_year(to),
    decreases to - from,
{
    if from < to {
        lemma_days_before_year_grows(from, to - 1);
    }
}

/// The days before each month of a year.
proof fn lemma_months(year: int)
    ensures
        ({
            let leap: int = if is_leap(year) {
                1
            } else {
                0
            };
            &&& days_before_month(year, 1) == 0
            &&& days_before_month(year, 2) == 31
            &&& days_before_month(year, 3) == 59 + leap
            &&& days_before_month(year, 4) == 90 + leap
            &&& days_before_month(year, 5) == 120 + leap
            &&& days_before_month(year, 6) == 151 + leap
            &&& days_before_month(year, 7) == 181 + leap
            &&& days_before_month(year, 8) == 212 + leap
            &&& days_before_month(year, 9) == 243 + leap
            &&& days_before_month(year, 10) == 273 + leap
            &&& days_before_month(year, 11) == 304 + leap
            &&& days_before_month(year, 12) == 334 + leap
        }),
{
    reveal_with_fuel(days_before_month, 13);
}

/// The days before a month grow with the month, and a month ends within its
/// year.
proof fn lemma_days_before_month_grows(year: int, from: int, to: int)
    requires
        1 <= from <= to <= 12,
    ensures
        days_before_month(year, from) <= days_before_month(year, to),
        from < to ==> days_before_month(year, from) + days_in_month(year, from)
            <= days_before_month(year, to),
        days_before_month(year, to) + days_in_month(year, to) <= days_in_year(year),
{
    lemma_months(year);
}

/// The year in which a day lies begins on or before the day and ends after
/// it.
proof fn lemma_year_after(year: int, days: int)
    requires
        1970 <= year,
        0 <= days,
    ensures
        ({
            let found = year_after(year, days);
            let day = days_before_year(year) + days;
            &&& year <= found
            &&& days_before_year(found) <= day < days_before_year(found + 1)
        }),
    decreases days,
{
    if days_in_year(year) <= days {
        lemma_year_after(year + 1, days - days_in_year(year));
    }
}

/// The month in which a day of a year lies begins on or before the day and
/// ends after it.
proof fn lemma_month_after(year: int, month: int, days: int)
    requires
        1 <= month <= 12,
        0 <= days,
        days_before_month(year, month) + days < days_in_year(year),
    ensures
        ({
            let found = month_after(year, month, days);
            let day = days_before_month(year, month) + days;
            &&& month <= found <= 12
            &&& days_before_month(year, found) <= day < days_before_month(year, found)
                + days_in_month(year, found)
        }),
    decreases days,
{
    if month < 12 && days_in_month(year, month) <= days {
        lemma_month_after(year, month + 1, days - days_in_month(year, month));
    } else if month == 12 {
        lemma_months(year);
    }
}

/// A year that begins on or before a day and ends after it is the year in
/// which the day lies, and so for the month of a day of the year.
proof fn lemma_year_and_month_found(days: int, year: int, month: int)
    requires
        1970 <= year,
        1 <= month <= 12,
        days_before_year(year) <= days < days_before_year(year + 1),
        days_before_month(year, month) <= days - days_before_year(year) < days_before_month(
            year,
            month,
        ) + days_in_month(year, month),
    ensures
        year_after(1970, days) == year,
        month_after(year, 1, days - days_before_year(year)) == month,
{
    lemma_days_before_year_grows(1970, year);
    let found = year_after(1970, days);
    lemma_year_after(1970, days);
    if found < year {
        lemma_days_before_year_grows(found + 1, year);
    } else if year < found {
        lemma_days_before_year_grows(year + 1, found);
    }
    let day_of_year = days - days_before_year(year);
    let in_month = month_after(year, 1, day_of_year);
    lemma_month_after(year, 1, day_of_year);
    if in_month < month {
        lemma_days_before_month_grows(year, in_month, month);
    } else if month < in_month {
        lemma_days_before_month_grows(year, month, in_month);
    }
}

/// Every second from the start of 1970 on has its date and time of day:
/// [`date_time_of`] gives a day of the calendar and a second of that day,
/// that many seconds after the start of 1970, and no other date and time of
/// day lies that many seconds after the start of 1970.
pub proof fn law_date_time_is_the_only_one(t: int, other: DateTime)
    requires
        0 <= t <= u64::MAX,
    ensures
        date_time_of(t).valid(),
        date_time_of(t).timestamp() == t,
        other.valid() && other.timestamp() == t ==> other == date_time_of(t),
{
    let days = t / 86_400;
    let year = year_after(1970, days);
    lemma_year_after(1970, days);
    lemma_days_before_year_grows(1970, year);
    let day_of_year = days - days_before_year(year);
    let month = month_after(year, 1, day_of_year);
    lemma_month_after(year, 1, day_of_year);
    let found = date_time_of(t);
    assert(found.year == year);
    assert(found.month == month);
    if other.valid() && other.timestamp() == t {
        let y = other.year as int;
        let m = other.month as int;
        lemma_days_before_month_grows(y, m, m);
        lemma_days_before_month_grows(y, 1, m);
        let other_day_of_year = days_before_month(y, m) + other.day - 1;
        let other_seconds = other.hour * 3_600 + other.minute * 60 + other.second;
        lemma_days_before_year_grows(1970, y);
        assert(0 <= other_seconds < 86_400);
        assert(t == (days_before_year(y) + other_day_of_year) * 86_400 + other_seconds);
        assert(days_before_year(y) + other_day_of_year == days);
        lemma_year_and_month_found(days, y, m);
    }
}

/// Tests whether `year` is a leap year.
pub fn leap_year(year: u64) -> (r: bool)
    ensures
        r == is_leap(year as int),
{
    year % 4 == 0 && (year % 100 != 0 || year % 400 == 0)
}

/// The days of `year`.
pub fn year_length(year: u64) -> (r: u64)
    ensures
        r == days_in_year(year as int),
{
    if leap_year(year) {
        366
    } else {
        365
    }
}

/// The days of the month `month` of `year`.
pub fn month_length(year: u64, month: u64) -> (r: u64)
    ensures
        r == days_in_month(year as int, month as int),
{
    if month == 2 {
        if leap_year(year) {
            29
        } else {
            28
        }
    } else if month == 4 || month == 6 || month == 9 || month == 11 {
        30
    } else {
        31
    }
}

/// The date and time of day of the second `t` seconds after the start of
/// 1970.
pub fn date_time(t: u64) -> (r: DateTime)
    ensures
        r == date_time_of(t as int),
        r.valid(),
        r.timestamp() == t,
{
    let days: u64 = t / SECONDS_PER_DAY;
    let rest: u64 = t % SECONDS_PER_DAY;
    let mut year: u64 = 1970;
    let mut left: u64 = days;
    while left >= year_length(year)
        invariant
            1970 <= year,
            year - 1970 <= days - left,
            left <= days <= u64::MAX / 86_400,
            days_before_year(year as int) + left == days,
        decreases left,
    {
        left -= year_length(year);
        year += 1;
    }
    let mut month: u64 = 1;
    let mut day: u64 = left;
    proof {
        lemma_months(year as int);
    }
    while month < 12 && day >= month_length(year, month)
        invariant
            1 <= month <= 12,
            day <= left,
            days_before_month(year as int, month as int) + day == left,
        decreases day,
    {
        day -= month_length(year, month);
        month += 1;
    }
    proof {
        lemma_months(year as int);
        lemma_year_and_month_found(days as int, year as int, month as int);
    }
    DateTime {
        year,
        month,
        day: day + 1,
        hour: rest / 3_600,
        minute: rest % 3_600 / 60,
        second: rest % 60,
    }
}

/// Appends `n` to `out` in two digits.
fn push_two_digits(out: &mut String, n: u64)
    ensures
        final(out)@ == old(out)@ + two_digits(n as nat),
{
    let ghost before = out@;
    if n < 10 {
        proof {
            reveal_strlit("0");
        }
        out.append("0");
        push_decimal(out, n);
        assert(out@ =~= before + two_digits(n as nat));
    } else {
        push_decimal(out, n);
    }
}

/// Writes the second `t` seconds after the start of 1970 as
/// `YYYY-MM-DD HH:MM:SS`.
pub fn format_date_time(t: u64) -> (r: String)
    ensures
        r@ == date_time_text(t as int),
{
    let d = date_time(t);
    proof {
        reveal_strlit("-");
        reveal_strlit(" ");
        reveal_strlit(":");
    }
    let mut out = String::new();
    push_decimal(&mut out, d.year);
    out.append("-");
    push_two_digits(&mut out, d.month);
    out.append("-");
    push_two_digits(&mut out, d.day);
    out.append(" ");
    push_two_digits(&mut out, d.hour);
    out.append(":");
    push_two_digits(&mut out, d.minute);
    out.append(":");
    push_two_digits(&mut out, d.second);
    assert(out@ =~= d.text());
    out
}

} // verus!
