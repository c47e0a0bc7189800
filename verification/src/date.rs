//! Calendar dates of the proleptic Gregorian calendar, years 1 through 9999.
//!
//! A date is modelled by its *day number*: the count of days since
//! 0001-01-01, which is day 0.  Day 0 is a Monday, so the weekday of a date
//! is its day number modulo 7, with 0 standing for Monday and 5 and 6 for
//! Saturday and Sunday.

use vstd::prelude::*;
use vstd::string::*;

verus! {

pub const MIN_YEAR: u32 = 1;

pub const MAX_YEAR: u32 = 9999;

/// A year is a leap year when it is divisible by 4, except century years,
/// which are leap years only when divisible by 400.
pub open spec fn is_leap_year(y: int) -> bool {
    y % 4 == 0 && (y % 100 != 0 || y % 400 == 0)
}

pub open spec fn days_in_year(y: int) -> int {
    if is_leap_year(y) {
        366
    } else {
        365
    }
}

pub open spec fn days_in_month(y: int, m: int) -> int {
    if m == 2 {
        if is_leap_year(y) {
            29
        } else {
            28
        }
    } else if m == 4 || m == 6 || m == 9 || m == 11 {
        30
    } else {
        31
    }
}

/// Days in the years strictly before year `y`, counted from year 1.
pub open spec fn days_before_year(y: int) -> int
    decreases y,
{
    if y <= 1 {
        0
    } else {
        days_before_year(y - 1) + days_in_year(y - 1)
    }
}

/// Days of year `y` in the months strictly before month `m`.
pub open spec fn days_before_month(y: int, m: int) -> int
    decreases m,
{
    if m <= 1 {
        0
    } else {
        days_before_month(y, m - 1) + days_in_month(y, m - 1)
    }
}

/// The day number of `y-m-d`: days since 0001-01-01, which is day 0.
pub open spec fn day_number(y: int, m: int, d: int) -> int {
    days_before_year(y) + days_before_month(y, m) + d - 1
}

pub open spec fn valid_ymd(y: int, m: int, d: int) -> bool {
    &&& MIN_YEAR <= y <= MAX_YEAR
    &&& 1 <= m <= 12
    &&& 1 <= d <= days_in_month(y, m)
}

/// A calendar date with no time component.
#[derive(Clone, Copy, Debug, PartialEq, Eq, Structural)]
pub struct Date {
    pub year: u32,
    pub month: u32,
    pub day: u32,
}

impl Date {
    pub open spec fn wf(self) -> bool {
        valid_ymd(self.year as int, self.month as int, self.day as int)
    }
}

/// A date is viewed as its day number.
impl View for Date {
    type V = int;

    open spec fn view(&self) -> int {
        day_number(self.year as int, self.month as int, self.day as int)
    }
}

pub proof fn lemma_days_before_year_nonneg(y: int)
    ensures
        days_before_year(y) >= 0,
    decreases y,
{
    if y > 1 {
        lemma_days_before_year_nonneg(y - 1);
    }
}

/// Each year before `y2` past `y1` contributes at least 365 days.
pub proof fn lemma_days_before_year_mono(y1: int, y2: int)
    requires
        1 <= y1 <= y2,
    ensures
        days_before_year(y1) + 365 * (y2 - y1) <= days_before_year(y2),
    decreases y2 - y1,
{
    if y1 < y2 {
        lemma_days_before_year_mono(y1, y2 - 1);
    }
}

pub proof fn lemma_days_before_month_nonneg(y: int, m: int)
    ensures
        days_before_month(y, m) >= 0,
    decreases m,
{
    if m > 1 {
        lemma_days_before_month_nonneg(y, m - 1);
    }
}

/// Each month before `m2` past `m1` contributes at least 28 days.
pub proof fn lemma_days_before_month_mono(y: int, m1: int, m2: int)
    requires
        1 <= m1 <= m2,
    ensures
        days_before_month(y, m1) + 28 * (m2 - m1) <= days_before_month(y, m2),
    decreases m2 - m1,
{
    if m1 < m2 {
        lemma_days_before_month_mono(y, m1, m2 - 1);
    }
}

/// The twelve months of a year sum to its length.
pub proof fn lemma_months_fill_year(y: int)
    ensures
        days_before_month(y, 13) == days_in_year(y),
{
    reveal_with_fuel(days_before_month, 13);
}

/// A valid date of year `y` has its day number inside the span of year `y`.
pub proof fn lemma_day_number_in_year(y: int, m: int, d: int)
    requires
        1 <= y,
        1 <= m <= 12,
        1 <= d <= days_in_month(y, m),
    ensures
        days_before_year(y) <= day_number(y, m, d) < days_before_year(y + 1),
{
    lemma_days_before_month_nonneg(y, m);
    lemma_days_before_month_mono(y, m + 1, 13);
    lemma_months_fill_year(y);
    assert(days_before_month(y, m + 1) == days_before_month(y, m) + days_in_month(y, m));
    assert(days_before_year(y + 1) == days_before_year(y) + days_in_year(y));
}

pub proof fn lemma_day_number_nonneg(y: int, m: int, d: int)
    requires
        valid_ymd(y, m, d),
    ensures
        day_number(y, m, d) >= 0,
{
    lemma_days_before_year_nonneg(y);
    lemma_day_number_in_year(y, m, d);
}

/// The day number orders valid dates exactly as the lexicographic order of
/// their year, month and day.
pub proof fn lemma_day_number_increasing(y1: int, m1: int, d1: int, y2: int, m2: int, d2: int)
    requires
        valid_ymd(y1, m1, d1),
        valid_ymd(y2, m2, d2),
        (y1 < y2) || (y1 == y2 && m1 < m2) || (y1 == y2 && m1 == m2 && d1 < d2),
    ensures
        day_number(y1, m1, d1) < day_number(y2, m2, d2),
{
    if y1 < y2 {
        lemma_day_number_in_year(y1, m1, d1);
        lemma_day_number_in_year(y2, m2, d2);
        lemma_days_before_year_mono(y1 + 1, y2);
    } else if m1 < m2 {
        lemma_days_before_month_mono(y1, m1 + 1, m2);
        lemma_days_before_month_nonneg(y1, m1);
        assert(days_before_month(y1, m1 + 1) == days_before_month(y1, m1) + days_in_month(y1, m1));
    }
}

/// Two valid dates with one day number are one date.
pub proof fn lemma_day_number_injective(y1: int, m1: int, d1: int, y2: int, m2: int, d2: int)
    requires
        valid_ymd(y1, m1, d1),
        valid_ymd(y2, m2, d2),
        day_number(y1, m1, d1) == day_number(y2, m2, d2),
    ensures
        y1 == y2 && m1 == m2 && d1 == d2,
{
    if (y1 < y2) || (y1 == y2 && m1 < m2) || (y1 == y2 && m1 == m2 && d1 < d2) {
        lemma_day_number_increasing(y1, m1, d1, y2, m2, d2);
    }
    if (y2 < y1) || (y2 == y1 && m2 < m1) || (y2 == y1 && m2 == m1 && d2 < d1) {
        lemma_day_number_increasing(y2, m2, d2, y1, m1, d1);
    }
}

/// Day 0 is the only valid date with day number 0.
pub proof fn lemma_day_number_zero(y: int, m: int, d: int)
    requires
        valid_ymd(y, m, d),
    ensures
        day_number(y, m, d) == 0 <==> (y == 1 && m == 1 && d == 1),
{
    lemma_day_number_nonneg(y, m, d);
    if y == 1 && m == 1 && d == 1 {
        assert(day_number(1, 1, 1) == 0);
    } else if day_number(y, m, d) == 0 {
        lemma_day_number_injective(y, m, d, 1, 1, 1);
    }
}

fn leap_year(y: u32) -> (r: bool)
    ensures
        r == is_leap_year(y as int),
{
    y % 4 == 0 && (y % 100 != 0 || y % 400 == 0)
}

fn month_length(y: u32, m: u32) -> (r: u32)
    requires
        1 <= m <= 12,
    ensures
        r == days_in_month(y as int, m as int),
{
    if m == 2 {
        if leap_year(y) {
            29
        } else {
            28
        }
    } else if m == 4 || m == 6 || m == 9 || m == 11 {
        30
    } else {
        31
    }
}

impl Date {
    /// Builds the date `y-m-d`, or `None` when no such calendar date exists.
    pub fn from_ymd(y: u32, m: u32, d: u32) -> (r: Option<Date>)
        ensures
            r is Some <==> valid_ymd(y as int, m as int, d as int),
            r matches Some(date) ==> date == (Date { year: y, month: m, day: d }) && date.wf(),
    {
        if MIN_YEAR <= y && y <= MAX_YEAR && 1 <= m && m <= 12 && 1 <= d && d <= month_length(
            y,
            m,
        ) {
            Some(Date { year: y, month: m, day: d })
        } else {
            None
        }
    }

    /// The day number of this date: days since 0001-01-01, which is day 0.
    pub fn day_number(&self) -> (r: u32)
        requires
            self.wf(),
        ensures
            r == self@,
            r == day_number(self.year as int, self.month as int, self.day as int),
    {
        let mut acc: u32 = 0;
        let mut i: u32 = 1;
        while i < self.year
            invariant
                1 <= i <= self.year <= MAX_YEAR,
                acc == days_before_year(i as int),
                acc <= 366 * (i - 1),
            decreases self.year - i,
        {
            acc = acc + if leap_year(i) {
                366
            } else {
                365
            };
            i = i + 1;
        }
        let mut m: u32 = 1;
        while m < self.month
            invariant
                1 <= m <= self.month <= 12,
                self.wf(),
                acc == days_before_year(self.year as int) + days_before_month(
                    self.year as int,
                    m as int,
                ),
                acc <= 366 * (self.year - 1) + 31 * (m - 1),
            decreases self.month - m,
        {
            proof {
                lemma_days_before_year_nonneg(self.year as int);
                lemma_days_before_month_nonneg(self.year as int, m as int);
            }
            acc = acc + month_length(self.year, m);
            m = m + 1;
        }
        proof {
            lemma_days_before_year_nonneg(self.year as int);
            lemma_days_before_month_nonneg(self.year as int, self.month as int);
        }
        acc + self.day - 1
    }

    /// The weekday of this date, 0 for Monday through 6 for Sunday.
    pub fn weekday(&self) -> (r: u32)
        requires
            self.wf(),
        ensures
            r == self@ % 7,
    {
        self.day_number() % 7
    }

    /// The calendar day before this one, or `None` at 0001-01-01, the
    /// earliest representable date.
    pub fn prev_day(&self) -> (r: Option<Date>)
        requires
            self.wf(),
        ensures
            r is None <==> self@ == 0,
            r matches Some(p) ==> p.wf() && p@ == self@ - 1,
    {
        proof {
            lemma_day_number_zero(self.year as int, self.month as int, self.day as int);
        }
        if self.day > 1 {
            Some(Date { year: self.year, month: self.month, day: self.day - 1 })
        } else if self.month > 1 {
            Some(
                Date {
                    year: self.year,
                    month: self.month - 1,
                    day: month_length(self.year, self.month - 1),
                },
            )
        } else if self.year > MIN_YEAR {
            proof {
                lemma_months_fill_year(self.year as int - 1);
            }
            Some(Date { year: self.year - 1, month: 12, day: 31 })
        } else {
            None
        }
    }
}

pub open spec fn is_digit_char(c: char) -> bool {
    48 <= c as int <= 57
}

pub open spec fn digit_value(c: char) -> int {
    c as int - 48
}

pub open spec fn digit_char(v: int) -> char {
    if v == 0 {
        '0'
    } else if v == 1 {
        '1'
    } else if v == 2 {
        '2'
    } else if v == 3 {
        '3'
    } else if v == 4 {
        '4'
    } else if v == 5 {
        '5'
    } else if v == 6 {
        '6'
    } else if v == 7 {
        '7'
    } else if v == 8 {
        '8'
    } else {
        '9'
    }
}

/// The ten characters `YYYY-MM-DD` of a date, zero-padded.
pub open spec fn iso_date_chars(y: int, m: int, d: int) -> Seq<char> {
    seq![
        digit_char(y / 1000),
        digit_char(y / 100 % 10),
        digit_char(y / 10 % 10),
        digit_char(y % 10),
        '-',
        digit_char(m / 10),
        digit_char(m % 10),
        '-',
        digit_char(d / 10),
        digit_char(d % 10),
    ]
}

/// Whether `s` has the shape `YYYY-MM-DD`: ten characters, digits around
/// dashes at positions 4 and 7.
pub open spec fn iso_date_wf(s: Seq<char>) -> bool {
    &&& s.len() == 10
    &&& is_digit_char(s[0])
    &&& is_digit_char(s[1])
    &&& is_digit_char(s[2])
    &&& is_digit_char(s[3])
    &&& s[4] == '-'
    &&& is_digit_char(s[5])
    &&& is_digit_char(s[6])
    &&& s[7] == '-'
    &&& is_digit_char(s[8])
    &&& is_digit_char(s[9])
}

pub open spec fn iso_year(s: Seq<char>) -> int {
    digit_value(s[0]) * 1000 + digit_value(s[1]) * 100 + digit_value(s[2]) * 10 + digit_value(s[3])
}

pub open spec fn iso_month(s: Seq<char>) -> int {
    digit_value(s[5]) * 10 + digit_value(s[6])
}

pub open spec fn iso_day(s: Seq<char>) -> int {
    digit_value(s[8]) * 10 + digit_value(s[9])
}

fn digit_of(c: char) -> (r: Option<u32>)
    ensures
        r is Some <==> is_digit_char(c),
        r matches Some(v) ==> v == digit_value(c) && v <= 9,
{
    let u = c as u32;
    if 48 <= u && u <= 57 {
        Some(u - 48)
    } else {
        None
    }
}

/// The digit `i` of `s`, or `None` when that character is no digit.
fn read_digit(s: &str, i: usize) -> (r: Option<u32>)
    requires
        i < s@.len(),
    ensures
        r is Some <==> is_digit_char(s@[i as int]),
        r matches Some(v) ==> v == digit_value(s@[i as int]) && v <= 9,
{
    digit_of(s.get_char(i))
}

pub(crate) fn digit_str(v: u32) -> (r: &'static str)
    requires
        v <= 9,
    ensures
        r@.len() == 1,
        r@[0] == digit_char(v as int),
{
    proof {
        reveal_strlit("0");
        reveal_strlit("1");
        reveal_strlit("2");
        reveal_strlit("3");
        reveal_strlit("4");
        reveal_strlit("5");
        reveal_strlit("6");
        reveal_strlit("7");
        reveal_strlit("8");
        reveal_strlit("9");
    }
    if v == 0 {
        "0"
    } else if v == 1 {
        "1"
    } else if v == 2 {
        "2"
    } else if v == 3 {
        "3"
    } else if v == 4 {
        "4"
    } else if v == 5 {
        "5"
    } else if v == 6 {
        "6"
    } else if v == 7 {
        "7"
    } else if v == 8 {
        "8"
    } else {
        "9"
    }
}

impl Date {
    /// Reads a date from its `YYYY-MM-DD` form.  `None` when the string is
    /// not of that shape or the digits name no calendar date.
    pub fn parse_iso(s: &str) -> (r: Option<Date>)
        ensures
            r is Some <==> iso_date_wf(s@) && valid_ymd(iso_year(s@), iso_month(s@), iso_day(s@)),
            r matches Some(date) ==> date.wf() && date.year == iso_year(s@) && date.month
                == iso_month(s@) && date.day == iso_day(s@),
    {
        if s.unicode_len() != 10 {
            return None;
        }
        if s.get_char(4) != '-' || s.get_char(7) != '-' {
            return None;
        }
        let y0 = match read_digit(s, 0) {
            Some(v) => v,
            None => {
                return None;
            },
        };
        let y1 = match read_digit(s, 1) {
            Some(v) => v,
            None => {
                return None;
            },
        };
        let y2 = match read_digit(s, 2) {
            Some(v) => v,
            None => {
                return None;
            },
        };
        let y3 = match read_digit(s, 3) {
            Some(v) => v,
            None => {
                return None;
            },
        };
        let m0 = match read_digit(s, 5) {
            Some(v) => v,
            None => {
                return None;
            },
        };
        let m1 = match read_digit(s, 6) {
            Some(v) => v,
            None => {
                return None;
            },
        };
        let d0 = match read_digit(s, 8) {
            Some(v) => v,
            None => {
                return None;
            },
        };
        let d1 = match read_digit(s, 9) {
            Some(v) => v,
            None => {
                return None;
            },
        };
        Date::from_ymd(y0 * 1000 + y1 * 100 + y2 * 10 + y3, m0 * 10 + m1, d0 * 10 + d1)
    }

    /// Writes this date in its `YYYY-MM-DD` form.
    pub fn to_iso(&self) -> (r: String)
        requires
            self.wf(),
        ensures
            r@ == iso_date_chars(self.year as int, self.month as int, self.day as int),
    {
        let mut s = String::new();
        s.append(digit_str(self.year / 1000));
        s.append(digit_str(self.year / 100 % 10));
        s.append(digit_str(self.year / 10 % 10));
        s.append(digit_str(self.year % 10));
        s.append("-");
        s.append(digit_str(self.month / 10));
        s.append(digit_str(self.month % 10));
        s.append("-");
        s.append(digit_str(self.day / 10));
        s.append(digit_str(self.day % 10));
        proof {
            reveal_strlit("-");
            assert(s@ =~= iso_date_chars(
                self.year as int,
                self.month as int,
                self.day as int,
            ));
        }
        s
    }
}

} // verus!
