//! Dates as a telegram writes them, and their place on the epoch time line.
//!
//! A date is written in a fixed width of eighteen characters,
//! `YY-Mon-DD HH:MM:SS`, and goes with a one-character indicator that tells
//! daylight saving time (`S`) from standard time (anything else). The value
//! of a date field is a date token, the date with the indicator right behind
//! it: `23-Jan-05 10:20:30S`. A second form sets the indicator apart in
//! brackets: `23-Jan-05 10:20:30 (S)`. No other width is a date.

use crate::ascii::{two_digit_value, two_digits};
use vstd::prelude::*;
use vstd::slice::slice_subrange;
use vstd::string::StringSliceAdditionalSpecFns;

verus! {

/// The width of a written date.
pub const DATE_WIDTH: usize = 18;

/// The width of a date token: the date and its indicator.
pub const TOKEN_WIDTH: usize = 19;

/// The width of a date with its indicator set apart in brackets.
pub const BRACKETED_WIDTH: usize = 22;

/// A moment as a telegram names it: a calendar day and a time of day in
/// Dutch local time, with the flag that tells which of the two local clocks
/// is meant.
#[derive(Debug, Clone, Copy, PartialEq, Eq, Structural)]
pub struct CalendarDate {
    pub year: u16,
    pub month: u8,
    pub day: u8,
    pub hour: u8,
    pub minute: u8,
    pub second: u8,
    pub daylight: bool,
}

/// The number of the month that a three-letter English month name stands
/// for, 1 for `Jan` up to 12 for `Dec`, and 0 for a name of no month.
///
/// The first two letters select the month. Where two months share them, the
/// third letter decides: `y` makes `Ma` May and anything else March, `n` makes
/// `Ju` June and anything else July.
pub open spec fn month_number(name: Seq<u8>) -> u8 {
    if name.len() != 3 {
        0
    } else if name[0] == 'J' as u8 && name[1] == 'a' as u8 {
        1
    } else if name[0] == 'F' as u8 && name[1] == 'e' as u8 {
        2
    } else if name[0] == 'M' as u8 && name[1] == 'a' as u8 {
        if name[2] == 'y' as u8 {
            5
        } else {
            3
        }
    } else if name[0] == 'A' as u8 && name[1] == 'p' as u8 {
        4
    } else if name[0] == 'J' as u8 && name[1] == 'u' as u8 {
        if name[2] == 'n' as u8 {
            6
        } else {
            7
        }
    } else if name[0] == 'A' as u8 && name[1] == 'u' as u8 {
        8
    } else if name[0] == 'S' as u8 && name[1] == 'e' as u8 {
        9
    } else if name[0] == 'O' as u8 && name[1] == 'c' as u8 {
        10
    } else if name[0] == 'N' as u8 && name[1] == 'o' as u8 {
        11
    } else if name[0] == 'D' as u8 && name[1] == 'e' as u8 {
        12
    } else {
        0
    }
}

/// Whether the five separators of a written date stand where they belong.
pub open spec fn has_date_separators(text: Seq<u8>) -> bool
    recommends
        text.len() >= DATE_WIDTH,
{
    &&& text[2] == '-' as u8
    &&& text[6] == '-' as u8
    &&& text[9] == ' ' as u8
    &&& text[12] == ':' as u8
    &&& text[15] == ':' as u8
}

/// The date that the eighteen bytes of `text` write, to be read on the clock
/// that `indicator` names. `None` where `text` has another width, a
/// separator is out of place, or the year, day, hour, minute or second is not
/// made of two decimal digits. The year counts from 2000. A month name that
/// names no month gives month 0.
pub open spec fn date_fields(text: Seq<u8>, indicator: u8) -> Option<CalendarDate> {
    if text.len() != DATE_WIDTH || !has_date_separators(text) {
        None
    } else {
        match (
            two_digit_value(text[0], text[1]),
            two_digit_value(text[7], text[8]),
            two_digit_value(text[10], text[11]),
            two_digit_value(text[13], text[14]),
            two_digit_value(text[16], text[17]),
        ) {
            (Some(year), Some(day), Some(hour), Some(minute), Some(second)) => Some(
                CalendarDate {
                    year: (2000 + year) as u16,
                    month: month_number(text.subrange(3, 6)),
                    day,
                    hour,
                    minute,
                    second,
                    daylight: indicator == 'S' as u8,
                },
            ),
            _ => None,
        }
    }
}

/// The date that a token of nineteen bytes writes: the eighteen bytes of the
/// date, then the indicator. `None` for a token of any other width.
pub open spec fn calendar_date(token: Seq<u8>) -> Option<CalendarDate> {
    if token.len() != TOKEN_WIDTH {
        None
    } else {
        date_fields(token.subrange(0, DATE_WIDTH as int), token[DATE_WIDTH as int])
    }
}

/// Whether `value` has the width and the brackets of a date with its
/// indicator set apart: eighteen bytes, a space, and the indicator in round
/// brackets.
pub open spec fn is_bracketed_form(value: Seq<u8>) -> bool {
    &&& value.len() == BRACKETED_WIDTH
    &&& value[18] == ' ' as u8
    &&& value[19] == '(' as u8
    &&& value[21] == ')' as u8
}

/// The date that the value of a date field writes. A value of nineteen bytes
/// is a date token. A value of twenty-two bytes is a date with its indicator
/// set apart in brackets. A value of any other width, or of twenty-two bytes
/// without the space and the brackets, is no date.
pub open spec fn date_value(value: Seq<u8>) -> Option<CalendarDate> {
    if value.len() == TOKEN_WIDTH {
        calendar_date(value)
    } else if is_bracketed_form(value) {
        date_fields(value.subrange(0, DATE_WIDTH as int), value[20])
    } else {
        None
    }
}

/// The month number of a three-letter month name given as bytes.
pub fn month_of(name: &[u8]) -> (month: u8)
    ensures
        month == month_number(name@),
{
    if name.len() != 3 {
        return 0;
    }
    let a: u8 = name[0];
    let b: u8 = name[1];
    let c: u8 = name[2];
    if a == 'J' as u8 && b == 'a' as u8 {
        1
    } else if a == 'F' as u8 && b == 'e' as u8 {
        2
    } else if a == 'M' as u8 && b == 'a' as u8 {
        if c == 'y' as u8 {
            5
        } else {
            3
        }
    } else if a == 'A' as u8 && b == 'p' as u8 {
        4
    } else if a == 'J' as u8 && b == 'u' as u8 {
        if c == 'n' as u8 {
            6
        } else {
            7
        }
    } else if a == 'A' as u8 && b == 'u' as u8 {
        8
    } else if a == 'S' as u8 && b == 'e' as u8 {
        9
    } else if a == 'O' as u8 && b == 'c' as u8 {
        10
    } else if a == 'N' as u8 && b == 'o' as u8 {
        11
    } else if a == 'D' as u8 && b == 'e' as u8 {
        12
    } else {
        0
    }
}

/// The month number of a three-letter month name, 0 if it names no month.
pub fn get_month_as_uint(date: &str) -> (month: u8)
    ensures
        month == month_number(date.spec_bytes()),
{
    month_of(date.as_bytes())
}

/// Reads the date that `text` writes, on the clock that `indicator` names.
pub fn decode_date_fields(text: &[u8], indicator: u8) -> (r: Option<CalendarDate>)
    ensures
        r == date_fields(text@, indicator),
{
    if text.len() != DATE_WIDTH {
        return None;
    }
    if text[2] != '-' as u8 || text[6] != '-' as u8 || text[9] != ' ' as u8 || text[12]
        != ':' as u8 || text[15] != ':' as u8 {
        return None;
    }
    let year = two_digits(text[0], text[1]);
    let day = two_digits(text[7], text[8]);
    let hour = two_digits(text[10], text[11]);
    let minute = two_digits(text[13], text[14]);
    let second = two_digits(text[16], text[17]);
    match (year, day, hour, minute, second) {
        (Some(year), Some(day), Some(hour), Some(minute), Some(second)) => {
            let wide: u16 = year as u16;
            Some(
                CalendarDate {
                    year: 2000 + wide,
                    month: month_of(slice_subrange(text, 3, 6)),
                    day,
                    hour,
                    minute,
                    second,
                    daylight: indicator == 'S' as u8,
                },
            )
        },
        _ => None,
    }
}

/// Reads a date token: eighteen bytes of date, then the indicator.
pub fn decode_date(token: &[u8]) -> (r: Option<CalendarDate>)
    ensures
        r == calendar_date(token@),
{
    if token.len() != TOKEN_WIDTH {
        return None;
    }
    decode_date_fields(slice_subrange(token, 0, DATE_WIDTH), token[DATE_WIDTH])
}

/// Reads the value of a date field, in either of its two forms.
pub fn decode_date_value(value: &[u8]) -> (r: Option<CalendarDate>)
    ensures
        r == date_value(value@),
{
    if value.len() == TOKEN_WIDTH {
        decode_date(value)
    } else if value.len() == BRACKETED_WIDTH && value[18] == ' ' as u8 && value[19] == '(' as u8
        && value[21] == ')' as u8 {
        decode_date_fields(slice_subrange(value, 0, DATE_WIDTH), value[20])
    } else {
        None
    }
}

/// The epoch second at which the given Dutch local time falls, read on the
/// daylight saving clock if `daylight` and on the standard clock if not;
/// `None` where the numbers name no calendar day or no time of day. This is
/// the result of the conversion that the output generator supplies.
pub uninterp spec fn epoch_seconds(
    year: u16,
    month: u8,
    day: u8,
    hour: u8,
    minute: u8,
    second: u8,
    daylight: bool,
) -> Option<i64>;

impl CalendarDate {
    /// The epoch second at which this date falls, if it names a moment.
    pub open spec fn timestamp(self) -> Option<i64> {
        epoch_seconds(
            self.year,
            self.month,
            self.day,
            self.hour,
            self.minute,
            self.second,
            self.daylight,
        )
    }
}

/// Calls `tudelft_dsmr_output_generator::date_to_timestamp`. That function
/// computes its result from its seven arguments alone and returns on every
/// input; all that is claimed here is that the result is the one the
/// function gives for these arguments.
#[verifier::external_body]
pub(crate) fn date_to_timestamp(date: &CalendarDate) -> (r: Option<i64>)
    ensures
        r == epoch_seconds(
            date.year,
            date.month,
            date.day,
            date.hour,
            date.minute,
            date.second,
            date.daylight,
        ),
{
    tudelft_dsmr_output_generator::date_to_timestamp(
        date.year,
        date.month,
        date.day,
        date.hour,
        date.minute,
        date.second,
        date.daylight,
    )
}

} // verus!
