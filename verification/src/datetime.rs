//! Timestamps with second precision, written `YYYY-MM-DD HH:MM:SS`.
//!
//! A timestamp only records when a resignation was created; the resolver
//! never reads it.

use vstd::prelude::*;
use vstd::string::*;
use crate::date::Date;
use crate::date::digit_char;
use crate::date::digit_str;
use crate::date::digit_value;
use crate::date::is_digit_char;
use crate::date::iso_date_chars;
use crate::date::iso_date_wf;
use crate::date::iso_day;
use crate::date::iso_month;
use crate::date::iso_year;
use crate::date::valid_ymd;

verus! {

/// A calendar date with a time of day, no time zone.
#[derive(Clone, Copy, Debug, PartialEq, Eq, Structural)]
pub struct DateTime {
    pub date: Date,
    pub hour: u32,
    pub minute: u32,
    pub second: u32,
}

pub open spec fn valid_hms(h: int, mi: int, s: int) -> bool {
    0 <= h < 24 && 0 <= mi < 60 && 0 <= s < 60
}

/// The nineteen characters `YYYY-MM-DD HH:MM:SS`.
pub open spec fn iso_datetime_chars(y: int, m: int, d: int, h: int, mi: int, s: int) -> Seq<
    char,
> {
    iso_date_chars(y, m, d) + seq![
        ' ',
        digit_char(h / 10),
        digit_char(h % 10),
        ':',
        digit_char(mi / 10),
        digit_char(mi % 10),
        ':',
        digit_char(s / 10),
        digit_char(s % 10),
    ]
}

/// Whether `s` has the shape `YYYY-MM-DD HH:MM:SS`.
pub open spec fn iso_datetime_wf(s: Seq<char>) -> bool {
    &&& s.len() == 19
    &&& iso_date_wf(s.subrange(0, 10))
    &&& s[10] == ' '
    &&& is_digit_char(s[11])
    &&& is_digit_char(s[12])
    &&& s[13] == ':'
    &&& is_digit_char(s[14])
    &&& is_digit_char(s[15])
    &&& s[16] == ':'
    &&& is_digit_char(s[17])
    &&& is_digit_char(s[18])
}

pub open spec fn iso_hour(s: Seq<char>) -> int {
    digit_value(s[11]) * 10 + digit_value(s[12])
}

pub open spec fn iso_minute(s: Seq<char>) -> int {
    digit_value(s[14]) * 10 + digit_value(s[15])
}

pub open spec fn iso_second(s: Seq<char>) -> int {
    digit_value(s[17]) * 10 + digit_value(s[18])
}

fn read_two_digits(s: &str, i: usize) -> (r: Option<u32>)
    requires
        i < usize::MAX,
        i + 1 < s@.len(),
    ensures
        r is Some <==> is_digit_char(s@[i as int]) && is_digit_char(s@[i + 1]),
        r matches Some(v) ==> v == digit_value(s@[i as int]) * 10 + digit_value(s@[i + 1]) && v
            <= 99,
{
    let hi = s.get_char(i);
    let lo = s.get_char(i + 1);
    let hu = hi as u32;
    let lu = lo as u32;
    if 48 <= hu && hu <= 57 && 48 <= lu && lu <= 57 {
        Some((hu - 48) * 10 + (lu - 48))
    } else {
        None
    }
}

impl DateTime {
    pub open spec fn wf(self) -> bool {
        self.date.wf() && valid_hms(self.hour as int, self.minute as int, self.second as int)
    }

    /// Builds the timestamp, or `None` when the date or the time of day is
    /// out of range.
    pub fn from_parts(date: Date, hour: u32, minute: u32, second: u32) -> (r: Option<DateTime>)
        requires
            date.wf(),
        ensures
            r is Some <==> valid_hms(hour as int, minute as int, second as int),
            r matches Some(dt) ==> dt == (DateTime { date, hour, minute, second }) && dt.wf(),
    {
        if hour < 24 && minute < 60 && second < 60 {
            Some(DateTime { date, hour, minute, second })
        } else {
            None
        }
    }

    /// Reads a timestamp from its `YYYY-MM-DD HH:MM:SS` form.  `None` when
    /// the string is not of that shape or names no calendar date or time.
    pub fn parse_iso(s: &str) -> (r: Option<DateTime>)
        ensures
            r is Some <==> {
                let date_part = s@.subrange(0, 10);
                &&& iso_datetime_wf(s@)
                &&& valid_ymd(iso_year(date_part), iso_month(date_part), iso_day(date_part))
                &&& valid_hms(iso_hour(s@), iso_minute(s@), iso_second(s@))
            },
            r matches Some(dt) ==> {
                let date_part = s@.subrange(0, 10);
                &&& dt.wf()
                &&& dt.date.year == iso_year(date_part)
                &&& dt.date.month == iso_month(date_part)
                &&& dt.date.day == iso_day(date_part)
                &&& dt.hour == iso_hour(s@)
                &&& dt.minute == iso_minute(s@)
                &&& dt.second == iso_second(s@)
            },
    {
        if s.unicode_len() != 19 {
            return None;
        }
        if s.get_char(10) != ' ' || s.get_char(13) != ':' || s.get_char(16) != ':' {
            return None;
        }
        let date_part = s.substring_char(0, 10);
        let date = match Date::parse_iso(date_part) {
            Some(d) => d,
            None => {
                return None;
            },
        };
        let hour = match read_two_digits(s, 11) {
            Some(v) => v,
            None => {
                return None;
            },
        };
        let minute = match read_two_digits(s, 14) {
            Some(v) => v,
            None => {
                return None;
            },
        };
        let second = match read_two_digits(s, 17) {
            Some(v) => v,
            None => {
                return None;
            },
        };
        DateTime::from_parts(date, hour, minute, second)
    }

    /// Writes this timestamp in its `YYYY-MM-DD HH:MM:SS` form.
    pub fn to_iso(&self) -> (r: String)
        requires
            self.wf(),
        ensures
            r@ == iso_datetime_chars(
                self.date.year as int,
                self.date.month as int,
                self.date.day as int,
                self.hour as int,
                self.minute as int,
                self.second as int,
            ),
    {
        let mut s = self.date.to_iso();
        s.append(" ");
        s.append(digit_str(self.hour / 10));
        s.append(digit_str(self.hour % 10));
        s.append(":");
        s.append(digit_str(self.minute / 10));
        s.append(digit_str(self.minute % 10));
        s.append(":");
        s.append(digit_str(self.second / 10));
        s.append(digit_str(self.second % 10));
        proof {
            reveal_strlit(" ");
            reveal_strlit(":");
            assert(s@ =~= iso_datetime_chars(
                self.date.year as int,
                self.date.month as int,
                self.date.day as int,
                self.hour as int,
                self.minute as int,
                self.second as int,
            ));
        }
        s
    }
}

} // verus!
