//! The 7-byte DATE format.
//!
//! `[century+100, year_in_century+100, month, day, hour+1, minute+1, second+1]`.

use vstd::prelude::*;
use crate::error::Error;

verus! {

/// A calendar date and time of day, without a time zone.
#[derive(Debug, Clone, Copy, PartialEq, Eq)]
pub struct OracleDate {
    pub year: i32,
    pub month: u8,
    pub day: u8,
    pub hour: u8,
    pub minute: u8,
    pub second: u8,
}

/// Leap years of the proleptic Gregorian calendar.
pub open spec fn is_leap_year(year: int) -> bool {
    (year % 4 == 0 && year % 100 != 0) || year % 400 == 0
}

/// Number of days in a month of a year.
pub open spec fn days_in_month(year: int, month: int) -> int {
    if month == 2 {
        if is_leap_year(year) {
            29
        } else {
            28
        }
    } else if month == 4 || month == 6 || month == 9 || month == 11 {
        30
    } else {
        31
    }
}

/// The day exists in the proleptic Gregorian calendar.
pub open spec fn is_calendar_date(year: int, month: int, day: int) -> bool {
    1 <= month <= 12 && 1 <= day <= days_in_month(year, month)
}

/// Relies on `chrono::NaiveDate::from_ymd_opt`, which returns `None` exactly
/// when the calendar day does not exist or the year is out of its range
/// (about ±262,000); calendar days follow the proleptic Gregorian rules.
#[verifier::external_body]
fn calendar_date_exists(year: i32, month: u32, day: u32) -> (r: bool)
    requires
        -262000 <= year <= 262000,
    ensures
        r == is_calendar_date(year as int, month as int, day as int),
{
    chrono::NaiveDate::from_ymd_opt(year, month, day).is_some()
}

/// The date that seven DATE bytes encode, if every field is in range.
pub open spec fn spec_decode_date(b: Seq<u8>) -> Option<OracleDate> {
    if b.len() != 7 {
        None
    } else if b[0] < 100 || b[1] < 100 || b[1] > 199 {
        None
    } else {
        let year = (b[0] - 100) * 100 + (b[1] - 100);
        if !is_calendar_date(year, b[2] as int, b[3] as int) {
            None
        } else if b[4] < 1 || b[4] > 24 || b[5] < 1 || b[5] > 60 || b[6] < 1 || b[6] > 60 {
            None
        } else {
            Some(
                OracleDate {
                    year: year as i32,
                    month: b[2],
                    day: b[3],
                    hour: (b[4] - 1) as u8,
                    minute: (b[5] - 1) as u8,
                    second: (b[6] - 1) as u8,
                },
            )
        }
    }
}

/// Decodes a DATE; any length but 7 or any field out of range is a protocol error.
pub fn decode_oracle_date(data: &[u8]) -> (r: Result<OracleDate, Error>)
    ensures
        match r {
            Ok(d) => spec_decode_date(data@) == Some(d),
            Err(e) => spec_decode_date(data@) is None && e is Protocol,
        },
{
    if data.len() != 7 {
        return Err(Error::Protocol("DATE value must be exactly 7 bytes"));
    }
    if data[0] < 100 || data[1] < 100 || data[1] > 199 {
        return Err(Error::Protocol("DATE year out of range"));
    }
    let year: i32 = (data[0] as i32 - 100) * 100 + (data[1] as i32 - 100);
    let month = data[2];
    let day = data[3];
    if month < 1 || month > 12 {
        return Err(Error::Protocol("DATE month out of range"));
    }
    if day < 1 || day > 31 {
        return Err(Error::Protocol("DATE day out of range"));
    }
    if data[4] < 1 || data[4] > 24 {
        return Err(Error::Protocol("DATE hour out of range"));
    }
    if data[5] < 1 || data[5] > 60 {
        return Err(Error::Protocol("DATE minute out of range"));
    }
    if data[6] < 1 || data[6] > 60 {
        return Err(Error::Protocol("DATE second out of range"));
    }
    if !calendar_date_exists(year, month as u32, day as u32) {
        return Err(Error::Protocol("DATE names a day that does not exist"));
    }
    Ok(
        OracleDate {
            year,
            month,
            day,
            hour: data[4] - 1,
            minute: data[5] - 1,
            second: data[6] - 1,
        },
    )
}

impl OracleDate {
    /// The year.
    pub fn year(&self) -> (r: i32)
        ensures
            r == self.year,
    {
        self.year
    }

    /// The month, 1 to 12.
    pub fn month(&self) -> (r: u32)
        ensures
            r == self.month,
    {
        self.month as u32
    }

    /// The day of the month.
    pub fn day(&self) -> (r: u32)
        ensures
            r == self.day,
    {
        self.day as u32
    }

    /// The hour, 0 to 23.
    pub fn hour(&self) -> (r: u32)
        ensures
            r == self.hour,
    {
        self.hour as u32
    }

    /// The minute, 0 to 59.
    pub fn minute(&self) -> (r: u32)
        ensures
            r == self.minute,
    {
        self.minute as u32
    }

    /// The second, 0 to 59.
    pub fn second(&self) -> (r: u32)
        ensures
            r == self.second,
    {
        self.second as u32
    }
}

} // verus!
