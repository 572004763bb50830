//! Calendar dates of the proleptic Gregorian calendar and the arithmetic on
//! them that a contribution calendar needs: day numbers, weekdays, the next
//! day, and the same day one year earlier.

use crate::text::{
    decimal, four_digits, push_decimal, push_four_digits, push_two_digits, two_digits,
};
use vstd::arithmetic::div_mod::{
    lemma_fundamental_div_mod, lemma_fundamental_div_mod_converse_div, lemma_mod_multiples_vanish,
};
use vstd::prelude::*;
use vstd::string::StringExecFns;

verus! {

/// The earliest year a [`Date`] can lie in.
pub const MIN_YEAR: i32 = -262143;

/// The latest year a [`Date`] can lie in.
pub const MAX_YEAR: i32 = 262142;

/// The number of the last supported day, 262142-12-31.
pub const MAX_DAY_NUMBER: i32 = 95745399;

/// The number of the first supported day, the first of January of
/// [`MIN_YEAR`].
pub const MIN_DAY_NUMBER: i32 = -95746129;

/// Whether `year` has a 29th of February.
pub open spec fn is_leap_year(year: int) -> bool {
    year % 4 == 0 && (year % 100 != 0 || year % 400 == 0)
}

/// The number of days of the given year (365 or 366).
pub open spec fn days_in_year(year: int) -> int {
    if is_leap_year(year) {
        366
    } else {
        365
    }
}

/// The number of days of month `month` (1 to 12) of `year`.
pub open spec fn days_in_month(year: int, month: int) -> int {
    if month == 2 {
        if is_leap_year(year) {
            29
        } else {
            28
        }
    } else if month == 4 || month == 6 || month == 9 || month == 11 {
        30
    } else {
        31
    }
}

/// The number of days of `year` that lie before the first day of `month`.
pub open spec fn days_before_month(year: int, month: int) -> int
    decreases month,
{
    if month <= 1 {
        0
    } else {
        days_before_month(year, month - 1) + days_in_month(year, month - 1)
    }
}

/// The number of days between the first of January of year 1 (inclusive) and
/// the first of January of `year` (exclusive); negative for years before 1.
#[verifier::opaque]
pub open spec fn days_before_year(year: int) -> int {
    365 * (year - 1) + (year - 1) / 4 - (year - 1) / 100 + (year - 1) / 400
}

/// Whether year, month and day name a day of the calendar within the
/// supported years.
pub open spec fn valid_ymd(year: int, month: int, day: int) -> bool {
    &&& MIN_YEAR <= year <= MAX_YEAR
    &&& 1 <= month <= 12
    &&& 1 <= day <= days_in_month(year, month)
}

/// The number of the day in a count of all days in which the first of
/// January of year 1 is day 1.
pub open spec fn day_number_of(year: int, month: int, day: int) -> int {
    days_before_year(year) + days_before_month(year, month) + day
}

/// The text of a year: four digits from 0 to 9999, a sign and at least
/// four digits elsewhere.
pub open spec fn year_text(year: int) -> Seq<char> {
    if 0 <= year <= 9999 {
        four_digits(year as nat)
    } else if year > 9999 {
        seq!['+'] + decimal(year as nat)
    } else {
        seq!['-'] + four_digits((-year) as nat)
    }
}

/// A day of the week.
#[derive(Clone, Copy, Debug, PartialEq, Eq, Structural)]
pub enum Weekday {
    Mon,
    Tue,
    Wed,
    Thu,
    Fri,
    Sat,
    Sun,
}

impl Weekday {
    /// The position of the day in a week that starts on Monday: 0 for
    /// Monday up to 6 for Sunday.
    pub open spec fn index(self) -> int {
        match self {
            Weekday::Mon => 0,
            Weekday::Tue => 1,
            Weekday::Wed => 2,
            Weekday::Thu => 3,
            Weekday::Fri => 4,
            Weekday::Sat => 5,
            Weekday::Sun => 6,
        }
    }

    /// The weekday at position `index` (0 to 6) of a week that starts on
    /// Monday.
    pub open spec fn from_index(index: int) -> Weekday {
        if index == 0 {
            Weekday::Mon
        } else if index == 1 {
            Weekday::Tue
        } else if index == 2 {
            Weekday::Wed
        } else if index == 3 {
            Weekday::Thu
        } else if index == 4 {
            Weekday::Fri
        } else if index == 5 {
            Weekday::Sat
        } else {
            Weekday::Sun
        }
    }

    /// The number of days since the last Monday: 0 for Monday up to 6 for
    /// Sunday.
    pub fn num_days_from_monday(&self) -> (n: u32)
        ensures
            n == self.index(),
            n < 7,
    {
        match self {
            Weekday::Mon => 0,
            Weekday::Tue => 1,
            Weekday::Wed => 2,
            Weekday::Thu => 3,
            Weekday::Fri => 4,
            Weekday::Sat => 5,
            Weekday::Sun => 6,
        }
    }
}

/// A calendar date, given by year, month (1 to 12) and day of the month
/// (1 to 31).
///
/// Every function of this library that takes a date asks for a [valid](Date::valid)
/// one; [`Date::from_ymd_opt`] makes no other.
#[derive(Clone, Copy, Debug, PartialEq, Eq, Structural)]
pub struct Date {
    pub year: i32,
    pub month: u32,
    pub day: u32,
}

impl Date {
    /// Whether the date exists in the calendar and lies in the supported years.
    pub open spec fn valid(self) -> bool {
        valid_ymd(self.year as int, self.month as int, self.day as int)
    }

    /// The number of the day in a count of all days in which 0001-01-01 is
    /// day 1. Consecutive days have consecutive numbers.
    pub open spec fn day_number(self) -> int {
        day_number_of(self.year as int, self.month as int, self.day as int)
    }

    /// The day of the week. Day 1 of the day count is a Monday.
    pub open spec fn weekday_spec(self) -> Weekday {
        Weekday::from_index((self.day_number() - 1) % 7)
    }

    /// Whether this is the last supported day.
    pub open spec fn is_last(self) -> bool {
        self.year == MAX_YEAR && self.month == 12 && self.day == 31
    }

    /// The day after this one.
    pub open spec fn succ(self) -> Date {
        if self.day < days_in_month(self.year as int, self.month as int) {
            Date { year: self.year, month: self.month, day: (self.day + 1) as u32 }
        } else if self.month < 12 {
            Date { year: self.year, month: (self.month + 1) as u32, day: 1 }
        } else {
            Date { year: (self.year + 1) as i32, month: 1, day: 1 }
        }
    }

    /// The day `n` days after this one.
    pub open spec fn plus_days(self, n: nat) -> Date
        decreases n,
    {
        if n == 0 {
            self
        } else {
            self.plus_days((n - 1) as nat).succ()
        }
    }

    /// The text of the date: year, month and day as in `2024-12-13`.
    pub open spec fn iso_text(self) -> Seq<char> {
        year_text(self.year as int) + seq!['-'] + two_digits(self.month as nat) + seq!['-']
            + two_digits(self.day as nat)
    }

    /// The same day of the same month one year earlier; where that year has
    /// no such day (the 29th of February), the last day of that month.
    pub open spec fn sub_year(self) -> Date {
        let last = days_in_month(self.year - 1, self.month as int);
        Date {
            year: (self.year - 1) as i32,
            month: self.month,
            day: if self.day <= last {
                self.day
            } else {
                last as u32
            },
        }
    }
}

impl Date {
    /// The date with the given year, month and day, if there is one.
    pub fn from_ymd_opt(year: i32, month: u32, day: u32) -> (date: Option<Date>)
        ensures
            date is Some <==> valid_ymd(year as int, month as int, day as int),
            date is Some ==> date->0 == (Date { year, month, day }),
    {
        if year < MIN_YEAR || year > MAX_YEAR || month < 1 || month > 12 || day < 1 {
            return None;
        }
        if day > month_length(year, month) {
            return None;
        }
        Some(Date { year, month, day })
    }

    /// The year.
    pub fn year(&self) -> (year: i32)
        ensures
            year == self.year,
    {
        self.year
    }

    /// The month, from 1 for January to 12 for December.
    pub fn month(&self) -> (month: u32)
        ensures
            month == self.month,
    {
        self.month
    }

    /// The month, from 0 for January to 11 for December.
    pub fn month0(&self) -> (month: u32)
        requires
            self.valid(),
        ensures
            month == self.month - 1,
    {
        self.month - 1
    }

    /// The day of the month, from 1.
    pub fn day(&self) -> (day: u32)
        ensures
            day == self.day,
    {
        self.day
    }

    /// The number of the day in a count of all days in which 0001-01-01 is
    /// day 1.
    pub fn num_days_from_ce(&self) -> (number: i32)
        requires
            self.valid(),
        ensures
            number == self.day_number(),
    {
        // Shifted by 700 cycles of 400 years (102 267 900 days) every
        // supported year is positive, so that the divisions round down.
        let shifted: i64 = self.year as i64 - 1 + 280000;
        let before_year: i64 = 365 * shifted + shifted / 4 - shifted / 100 + shifted / 400;
        let before_month: i64 = days_before(self.year, self.month) as i64;
        proof {
            let base = self.year - 1;
            reveal(days_before_year);
            lemma_div_shift(base, 4, 70000);
            lemma_div_shift(base, 100, 2800);
            lemma_div_shift(base, 400, 700);
        }
        (before_year - 102267900 + before_month + self.day as i64) as i32
    }

    /// The day of the week.
    pub fn weekday(&self) -> (weekday: Weekday)
        requires
            self.valid(),
        ensures
            weekday == self.weekday_spec(),
    {
        // 2 800 000 000 is a multiple of 7 that makes every day number positive.
        let shifted: i64 = self.num_days_from_ce() as i64 - 1 + 2800000000;
        let index: i64 = shifted % 7;
        proof {
            lemma_mod_multiples_vanish(400000000, self.day_number() - 1, 7);
        }
        if index == 0 {
            Weekday::Mon
        } else if index == 1 {
            Weekday::Tue
        } else if index == 2 {
            Weekday::Wed
        } else if index == 3 {
            Weekday::Thu
        } else if index == 4 {
            Weekday::Fri
        } else if index == 5 {
            Weekday::Sat
        } else {
            Weekday::Sun
        }
    }

    /// The day after this one; `None` after the last supported day.
    pub fn succ_opt(&self) -> (next: Option<Date>)
        requires
            self.valid(),
        ensures
            next is None <==> self.is_last(),
            next is Some ==> next->0 == self.succ() && next->0.valid(),
    {
        if self.day < month_length(self.year, self.month) {
            Some(Date { year: self.year, month: self.month, day: self.day + 1 })
        } else if self.month < 12 {
            Some(Date { year: self.year, month: self.month + 1, day: 1 })
        } else if self.year < MAX_YEAR {
            Some(Date { year: self.year + 1, month: 1, day: 1 })
        } else {
            None
        }
    }

    /// The same day one year earlier, or the 28th of February for the 29th;
    /// `None` in the first supported year.
    pub fn checked_sub_year(&self) -> (earlier: Option<Date>)
        requires
            self.valid(),
        ensures
            earlier is None <==> self.year == MIN_YEAR,
            earlier is Some ==> earlier->0 == self.sub_year() && earlier->0.valid(),
    {
        if self.year == MIN_YEAR {
            return None;
        }
        let last = month_length(self.year - 1, self.month);
        let day = if self.day <= last {
            self.day
        } else {
            last
        };
        Some(Date { year: self.year - 1, month: self.month, day })
    }

    /// Appends the text of the date, as in `2024-12-13`.
    pub fn push_to(&self, out: &mut String)
        requires
            self.valid(),
        ensures
            final(out)@ == old(out)@ + self.iso_text(),
    {
        proof {
            reveal_strlit("+");
            reveal_strlit("-");
        }
        if self.year >= 0 {
            if self.year > 9999 {
                out.append("+");
            }
            push_four_digits(out, self.year as u32);
        } else {
            out.append("-");
            push_four_digits(out, (-self.year) as u32);
        }
        out.append("-");
        push_two_digits(out, self.month);
        out.append("-");
        push_two_digits(out, self.day);
        assert(out@ =~= old(out)@ + self.iso_text());
    }

    /// The text of the date, as in `2024-12-13`.
    pub fn to_string(&self) -> (text: String)
        requires
            self.valid(),
        ensures
            text@ == self.iso_text(),
    {
        let mut text = String::new();
        self.push_to(&mut text);
        assert(text@ =~= self.iso_text());
        text
    }

    /// Whether this date is `other` or a day before it.
    pub fn le(&self, other: &Date) -> (le: bool)
        requires
            self.valid(),
            other.valid(),
        ensures
            le == (self.day_number() <= other.day_number()),
    {
        self.num_days_from_ce() <= other.num_days_from_ce()
    }
}

/// The days of a year before the first of a month, as an executable function.
fn days_before(year: i32, month: u32) -> (n: u32)
    requires
        MIN_YEAR <= year <= MAX_YEAR,
        1 <= month <= 12,
    ensures
        n == days_before_month(year as int, month as int),
        n <= 335,
{
    proof {
        lemma_days_before_month(year as int);
    }
    let february = month_length(year, 2);
    if month == 1 {
        0
    } else if month == 2 {
        31
    } else if month == 3 {
        31 + february
    } else if month == 4 {
        62 + february
    } else if month == 5 {
        92 + february
    } else if month == 6 {
        123 + february
    } else if month == 7 {
        153 + february
    } else if month == 8 {
        184 + february
    } else if month == 9 {
        215 + february
    } else if month == 10 {
        245 + february
    } else if month == 11 {
        276 + february
    } else {
        306 + february
    }
}

/// Whether a year has a 29th of February, as an executable function.
fn leap_year(year: i32) -> (leap: bool)
    requires
        MIN_YEAR - 1 <= year <= MAX_YEAR,
    ensures
        leap == is_leap_year(year as int),
{
    proof {
        // Shifted by a multiple of 400 the year is positive and its
        // remainders are unchanged.
        lemma_mod_multiples_vanish(100000, year as int, 4);
        lemma_mod_multiples_vanish(4000, year as int, 100);
        lemma_mod_multiples_vanish(1000, year as int, 400);
    }
    let shifted: i32 = year + 400000;
    shifted % 4 == 0 && (shifted % 100 != 0 || shifted % 400 == 0)
}

/// The length of February and of the other months, as an executable function.
fn month_length(year: i32, month: u32) -> (n: u32)
    requires
        MIN_YEAR - 1 <= year <= MAX_YEAR,
        1 <= month <= 12,
    ensures
        n == days_in_month(year as int, month as int),
        28 <= n <= 31,
{
    if month == 2 {
        if leap_year(year) {
            29
        } else {
            28
        }
    } else if month == 4 || month == 6 || month == 9 || month == 11 {
        30
    } else {
        31
    }
}

/// A quotient grows by `shift` when `shift` times the divisor is added.
proof fn lemma_div_shift(x: int, divisor: int, shift: int)
    requires
        divisor > 0,
    ensures
        (x + divisor * shift) / divisor == x / divisor + shift,
{
    lemma_fundamental_div_mod(x, divisor);
    assert((x / divisor + shift) * divisor == divisor * (x / divisor) + divisor * shift)
        by (nonlinear_arith);
    lemma_fundamental_div_mod_converse_div(
        x + divisor * shift,
        divisor,
        x / divisor + shift,
        x % divisor,
    );
}

/// The days of a year before each of its months.
pub proof fn lemma_days_before_month(year: int)
    ensures
        days_before_month(year, 1) == 0,
        days_before_month(year, 2) == 31,
        days_before_month(year, 3) == 31 + days_in_month(year, 2),
        days_before_month(year, 4) == 62 + days_in_month(year, 2),
        days_before_month(year, 5) == 92 + days_in_month(year, 2),
        days_before_month(year, 6) == 123 + days_in_month(year, 2),
        days_before_month(year, 7) == 153 + days_in_month(year, 2),
        days_before_month(year, 8) == 184 + days_in_month(year, 2),
        days_before_month(year, 9) == 215 + days_in_month(year, 2),
        days_before_month(year, 10) == 245 + days_in_month(year, 2),
        days_before_month(year, 11) == 276 + days_in_month(year, 2),
        days_before_month(year, 12) == 306 + days_in_month(year, 2),
        days_before_month(year, 13) == 337 + days_in_month(year, 2),
        days_before_month(year, 13) == days_in_year(year),
{
    reveal_with_fuel(days_before_month, 14);
}

/// The quotient by a positive divisor grows by one exactly at a multiple
/// of the divisor.
proof fn lemma_div_step(x: int, divisor: int)
    requires
        divisor > 0,
    ensures
        x / divisor == (x - 1) / divisor + if x % divisor == 0 { 1int } else { 0 },
{
    lemma_fundamental_div_mod(x, divisor);
    lemma_fundamental_div_mod(x - 1, divisor);
    let q = (x - 1) / divisor;
    let r = (x - 1) % divisor;
    if r + 1 < divisor {
        lemma_fundamental_div_mod_converse_div(x, divisor, q, r + 1);
        vstd::arithmetic::div_mod::lemma_fundamental_div_mod_converse_mod(x, divisor, q, r + 1);
    } else {
        assert((q + 1) * divisor == divisor * q + divisor) by (nonlinear_arith);
        lemma_fundamental_div_mod_converse_div(x, divisor, q + 1, 0);
        vstd::arithmetic::div_mod::lemma_fundamental_div_mod_converse_mod(x, divisor, q + 1, 0);
    }
}

/// A year begins where the year before it ends.
pub proof fn lemma_days_before_next_year(year: int)
    ensures
        days_before_year(year + 1) == days_before_year(year) + days_in_year(year),
{
    reveal(days_before_year);
    lemma_div_step(year, 4);
    lemma_div_step(year, 100);
    lemma_div_step(year, 400);
}

/// Later years begin later, by at least 365 days for each year between.
pub proof fn lemma_days_before_year_monotone(earlier: int, later: int)
    requires
        earlier <= later,
    ensures
        days_before_year(earlier) + 365 * (later - earlier) <= days_before_year(later),
    decreases later - earlier,
{
    if earlier < later {
        lemma_days_before_year_monotone(earlier, later - 1);
        lemma_days_before_next_year(later - 1);
    }
}

/// The day after a valid day other than the last is a valid day, and its
/// number is one more.
pub proof fn lemma_succ(date: Date)
    requires
        date.valid(),
        !date.is_last(),
    ensures
        date.succ().valid(),
        date.succ().day_number() == date.day_number() + 1,
{
    lemma_days_before_month(date.year as int);
    lemma_days_before_next_year(date.year as int);
    lemma_days_before_month(date.year + 1);
}

/// The number of a valid day lies within the days of its year.
pub proof fn lemma_day_number_in_year(date: Date)
    requires
        date.valid(),
    ensures
        days_before_year(date.year as int) < date.day_number() <= days_before_year(
            date.year as int,
        ) + days_in_year(date.year as int),
        days_before_month(date.year as int, date.month as int) < date.day_number()
            - days_before_year(date.year as int) <= days_before_month(
            date.year as int,
            date.month + 1,
        ),
{
    lemma_days_before_month(date.year as int);
}

/// Different valid days have different numbers.
pub proof fn lemma_day_number_injective(a: Date, b: Date)
    requires
        a.valid(),
        b.valid(),
        a.day_number() == b.day_number(),
    ensures
        a == b,
{
    lemma_day_number_in_year(a);
    lemma_day_number_in_year(b);
    if a.year < b.year {
        lemma_days_before_next_year(a.year as int);
        lemma_days_before_year_monotone(a.year + 1, b.year as int);
    } else if b.year < a.year {
        lemma_days_before_next_year(b.year as int);
        lemma_days_before_year_monotone(b.year + 1, a.year as int);
    } else {
        lemma_days_before_month(a.year as int);
    }
}

/// One year back is a valid day, 365 or 366 days earlier.
pub proof fn lemma_sub_year(date: Date)
    requires
        date.valid(),
        date.year > MIN_YEAR,
    ensures
        date.sub_year().valid(),
        date.day_number() - date.sub_year().day_number() == 365 || date.day_number()
            - date.sub_year().day_number() == 366,
{
    lemma_days_before_month(date.year as int);
    lemma_days_before_month(date.year - 1);
    lemma_days_before_next_year(date.year - 1);
}

/// Going `n` days on from a valid day reaches a valid day whose number is
/// `n` more, as long as the supported years are not left.
pub proof fn lemma_plus_days(date: Date, n: nat)
    requires
        date.valid(),
        date.day_number() + n <= MAX_DAY_NUMBER,
    ensures
        date.plus_days(n).valid(),
        date.plus_days(n).day_number() == date.day_number() + n,
    decreases n,
{
    if n > 0 {
        lemma_plus_days(date, (n - 1) as nat);
        let before = date.plus_days((n - 1) as nat);
        lemma_last_day_number(before);
        lemma_succ(before);
    }
}

/// The last supported day has the greatest number.
pub proof fn lemma_last_day_number(date: Date)
    requires
        date.valid(),
    ensures
        date.day_number() <= MAX_DAY_NUMBER,
        date.day_number() == MAX_DAY_NUMBER <==> date.is_last(),
{
    lemma_day_number_in_year(date);
    lemma_days_before_month(date.year as int);
    lemma_days_before_next_year(date.year as int);
    lemma_days_before_year_monotone(date.year + 1, MAX_YEAR + 1);
    lemma_days_before_month(MAX_YEAR as int);
    assert(days_before_year(MAX_YEAR + 1) == MAX_DAY_NUMBER) by {
        reveal(days_before_year);
    }
}

/// The numbers of the valid days span from the first to the last supported
/// day.
pub proof fn lemma_day_number_range(date: Date)
    requires
        date.valid(),
    ensures
        MIN_DAY_NUMBER <= date.day_number() <= MAX_DAY_NUMBER,
{
    lemma_last_day_number(date);
    lemma_day_number_in_year(date);
    lemma_days_before_year_monotone(MIN_YEAR as int, date.year as int);
    assert(days_before_year(MIN_YEAR as int) == MIN_DAY_NUMBER - 1) by {
        reveal(days_before_year);
    }
}

} // verus!
