//! Calendar dates as written in reports: `YYYY-MM-DD` and `MM/DD/YYYY`.
use vstd::prelude::*;
use crate::text::{decimal, parse_decimal, split, split_at_char};

verus! {

pub open spec fn is_leap_year(y: int) -> bool {
    y % 4 == 0 && (y % 100 != 0 || y % 400 == 0)
}

/// Length of month `m` of year `y` in the proleptic Gregorian calendar.
pub open spec fn days_in_month(y: int, m: int) -> int {
    if m == 2 {
        if is_leap_year(y) {
            29
        } else {
            28
        }
    } else if m == 4 || m == 6 || m == 9 || m == 11 {
        30
    } else {
        31
    }
}

/// Year `y`, month `m` and day `d` name a day that exists.
pub open spec fn is_calendar_date(y: int, m: int, d: int) -> bool {
    -9999 <= y <= 9999 && 1 <= m <= 12 && 1 <= d <= days_in_month(y, m)
}

/// Relies on `time::Month::try_from(u8)` (accepts 1 to 12) and on
/// `time::Date::from_calendar_date`, which accepts years -9999 to 9999 and a day within
/// the month's length, leap years following the Gregorian rule.
#[verifier::external_body]
fn calendar_date_exists(year: i32, month: u8, day: u8) -> (r: bool)
    ensures
        r == is_calendar_date(year as int, month as int, day as int),
{
    match time::Month::try_from(month) {
        Ok(m) => time::Date::from_calendar_date(year, m, day).is_ok(),
        Err(_) => false,
    }
}

/// A day of the calendar.
#[derive(Clone, Copy, Debug, PartialEq, Eq, Structural)]
pub struct CalendarDate {
    pub year: u16,
    pub month: u8,
    pub day: u8,
}

impl CalendarDate {
    pub open spec fn wf(self) -> bool {
        is_calendar_date(self.year as int, self.month as int, self.day as int)
    }
}

/// The date written by a four-digit year, a two-digit month and a two-digit day.
pub open spec fn date_from(y: Seq<char>, m: Seq<char>, d: Seq<char>) -> Option<CalendarDate> {
    if y.len() == 4 && m.len() == 2 && d.len() == 2 && decimal(y) is Some && decimal(m) is Some
        && decimal(d) is Some && is_calendar_date(
        decimal(y)->0 as int,
        decimal(m)->0 as int,
        decimal(d)->0 as int,
    ) {
        Some(
            CalendarDate {
                year: decimal(y)->0 as u16,
                month: decimal(m)->0 as u8,
                day: decimal(d)->0 as u8,
            },
        )
    } else {
        None
    }
}

/// The date of a `YYYY-MM-DD` text.
pub open spec fn iso_date(s: Seq<char>) -> Option<CalendarDate> {
    let p = split(s, '-');
    if p.len() == 3 {
        date_from(p[0], p[1], p[2])
    } else {
        None
    }
}

/// The date of a `MM/DD/YYYY` text.
pub open spec fn us_date(s: Seq<char>) -> Option<CalendarDate> {
    let p = split(s, '/');
    if p.len() == 3 {
        date_from(p[2], p[0], p[1])
    } else {
        None
    }
}

fn date_from_parts(y: &Vec<char>, m: &Vec<char>, d: &Vec<char>) -> (r: Option<CalendarDate>)
    ensures
        r == date_from(y@, m@, d@),
        r matches Some(c) ==> c.wf(),
{
    if y.len() != 4 || m.len() != 2 || d.len() != 2 {
        return None;
    }
    let yv = match parse_decimal(y) {
        Some(v) => v,
        None => return None,
    };
    let mv = match parse_decimal(m) {
        Some(v) => v,
        None => return None,
    };
    let dv = match parse_decimal(d) {
        Some(v) => v,
        None => return None,
    };
    if yv > 9999 || mv > 12 || dv > 31 {
        return None;
    }
    if calendar_date_exists(yv as i32, mv as u8, dv as u8) {
        Some(CalendarDate { year: yv as u16, month: mv as u8, day: dv as u8 })
    } else {
        None
    }
}

impl CalendarDate {
    /// Reads a `YYYY-MM-DD` date; `None` unless it is well formed and exists.
    pub fn parse_iso(s: &Vec<char>) -> (r: Option<CalendarDate>)
        ensures
            r == iso_date(s@),
            r matches Some(c) ==> c.wf(),
    {
        let p = split_at_char(s, '-');
        let ghost pv = p@.map_values(|v: Vec<char>| v@);
        if p.len() != 3 {
            assert(pv.len() == p@.len());
            return None;
        }
        assert(pv[0] == p@[0]@ && pv[1] == p@[1]@ && pv[2] == p@[2]@);
        date_from_parts(&p[0], &p[1], &p[2])
    }

    /// Reads a `MM/DD/YYYY` date; `None` unless it is well formed and exists.
    pub fn parse_us(s: &Vec<char>) -> (r: Option<CalendarDate>)
        ensures
            r == us_date(s@),
            r matches Some(c) ==> c.wf(),
    {
        let p = split_at_char(s, '/');
        let ghost pv = p@.map_values(|v: Vec<char>| v@);
        if p.len() != 3 {
            assert(pv.len() == p@.len());
            return None;
        }
        assert(pv[0] == p@[0]@ && pv[1] == p@[1]@ && pv[2] == p@[2]@);
        date_from_parts(&p[2], &p[0], &p[1])
    }
}

} // verus!
