//! What a single line of a telegram says.
//!
//! The first byte of a line is its tag. It tells what kind of field the line
//! holds, and each kind has its own shape:
//!
//! | tag | field                         | shape                        |
//! |-----|-------------------------------|------------------------------|
//! | `1` | boundary of a telegram        | `1.k.n…`                     |
//! | `2` | date of the telegram          | `2.k#(dateS)`                |
//! | `3` | part of an event              | `3.k.n#(value)`              |
//! | `4` | information type              | anything                     |
//! | `7` | electricity measurement       | `7.k.n#(value*unit)`         |
//!
//! The functions here read one line of a given tag and say what it holds, or
//! that it does not have the shape of its tag.

use crate::ascii::{check_decimal, digit, digit_value, find, is_decimal, rfind};
use crate::date::{date_value, decode_date_value, CalendarDate};
use crate::electricity::Quantity;
use crate::event_log::{decode_message, decode_severity, message_text, severity_of, Severity};
use vstd::prelude::*;
use vstd::slice::slice_subrange;

verus! {

/// The tag of a boundary line.
pub const TAG_BOUNDARY: u8 = 0x31;

/// The tag of the line that dates a telegram.
pub const TAG_DATE: u8 = 0x32;

/// The tag of a line that holds part of an event.
pub const TAG_EVENT: u8 = 0x33;

/// The tag of the line that marks the information type.
pub const TAG_INFORMATION: u8 = 0x34;

/// The tag of an electricity line.
pub const TAG_ELECTRICITY: u8 = 0x37;

/// What a boundary line marks.
#[derive(Debug, Clone, Copy, PartialEq, Eq, Structural)]
pub enum Boundary {
    /// A new telegram begins.
    Start,
    /// The telegram is complete.
    End,
    /// A telegram nested in the telegram begins.
    Child,
}

/// What a boundary line marks, by its third and fifth byte: `2` in the third
/// ends the telegram; `1` in the third with anything but `0` in the fifth
/// opens a nested telegram; every other line starts a telegram. `None` where
/// the line is too short to tell.
pub open spec fn boundary_of(line: Seq<u8>) -> Option<Boundary> {
    if line.len() < 3 {
        None
    } else if line[2] == '2' as u8 {
        Some(Boundary::End)
    } else if line[2] == '1' as u8 {
        if line.len() < 5 {
            None
        } else if line[4] != '0' as u8 {
            Some(Boundary::Child)
        } else {
            Some(Boundary::Start)
        }
    } else {
        Some(Boundary::Start)
    }
}

/// Reads a boundary line.
pub fn read_boundary(line: &[u8]) -> (r: Option<Boundary>)
    ensures
        r == boundary_of(line@),
{
    if line.len() < 3 {
        None
    } else if line[2] == '2' as u8 {
        Some(Boundary::End)
    } else if line[2] == '1' as u8 {
        if line.len() < 5 {
            None
        } else if line[4] != '0' as u8 {
            Some(Boundary::Child)
        } else {
            Some(Boundary::Start)
        }
    } else {
        Some(Boundary::Start)
    }
}

/// The bytes of `line` from position `from` up to its last closing bracket.
/// `None` where the line has no closing bracket at or behind `from`.
pub open spec fn bracketed(line: Seq<u8>, from: int) -> Option<Seq<u8>> {
    match line.index_of_last(')' as u8) {
        Some(close) => if close >= from {
            Some(line.subrange(from, close))
        } else {
            None
        },
        None => None,
    }
}

/// Cuts out the bytes of `line` from `from` up to its last closing bracket.
pub fn read_bracketed<'a>(line: &'a [u8], from: usize) -> (r: Option<&'a [u8]>)
    ensures
        match r {
            Some(value) => bracketed(line@, from as int) == Some(value@),
            None => bracketed(line@, from as int) is None,
        },
{
    proof {
        line@.index_of_last_ensures(')' as u8);
    }
    match rfind(line, ')' as u8) {
        Some(close) => if close >= from {
            Some(slice_subrange(line, from, close))
        } else {
            None
        },
        None => None,
    }
}

/// The date that the line that dates a telegram gives. The value of the
/// field stands from the sixth byte of the line up to its last closing
/// bracket, and is a date in one of the two forms of a date value.
pub open spec fn telegram_date_of(line: Seq<u8>) -> Option<CalendarDate> {
    match bracketed(line, 5) {
        Some(value) => date_value(value),
        None => None,
    }
}

/// Reads the line that dates a telegram.
pub fn read_telegram_date(line: &[u8]) -> (r: Option<CalendarDate>)
    ensures
        r == telegram_date_of(line@),
{
    match read_bracketed(line, 5) {
        Some(value) => decode_date_value(value),
        None => None,
    }
}

/// A part of an event, with the id of the event.
#[derive(Debug, Clone, PartialEq, Eq)]
pub enum EventField {
    Severity { id: u32, severity: Severity },
    Message { id: u32, text: String },
    Date { id: u32, date: CalendarDate },
}

/// A part of an event as the contracts speak of it.
pub enum EventFieldView {
    Severity { id: u32, severity: Severity },
    Message { id: u32, text: Seq<char> },
    Date { id: u32, date: CalendarDate },
}

impl View for EventField {
    type V = EventFieldView;

    open spec fn view(&self) -> EventFieldView {
        match *self {
            EventField::Severity { id, severity } => EventFieldView::Severity { id, severity },
            EventField::Message { id, text } => EventFieldView::Message { id, text: text@ },
            EventField::Date { id, date } => EventFieldView::Date { id, date },
        }
    }
}

/// The part of an event that an event line gives. The third byte of the line
/// tells the part: `1` the severity, `2` the message, `3` the date. The fifth
/// byte is the id of the event, one decimal digit. The value stands from the
/// eighth byte up to the last closing bracket of the line; of a severity only
/// the eighth byte counts. `None` where the line has no such bracket, the id
/// is no digit, the part is none of the three, or the value is no message
/// and no date where it should be one.
pub open spec fn event_field_of(line: Seq<u8>) -> Option<EventFieldView> {
    match bracketed(line, 7) {
        Some(value) => match digit_value(line[4]) {
            Some(id) => if line[2] == '1' as u8 {
                Some(EventFieldView::Severity { id: id as u32, severity: severity_of(line[7]) })
            } else if line[2] == '2' as u8 {
                match message_text(value) {
                    Some(text) => Some(EventFieldView::Message { id: id as u32, text }),
                    None => None,
                }
            } else if line[2] == '3' as u8 {
                match date_value(value) {
                    Some(date) => Some(EventFieldView::Date { id: id as u32, date }),
                    None => None,
                }
            } else {
                None
            },
            None => None,
        },
        None => None,
    }
}

/// Reads an event line.
pub fn read_event_field(line: &[u8]) -> (r: Option<EventField>)
    ensures
        match r {
            Some(field) => event_field_of(line@) == Some(field@),
            None => event_field_of(line@) is None,
        },
{
    proof {
        line@.index_of_last_ensures(')' as u8);
    }
    let value = match read_bracketed(line, 7) {
        Some(value) => value,
        None => {
            return None;
        },
    };
    let id: u32 = match digit(line[4]) {
        Some(d) => d as u32,
        None => {
            return None;
        },
    };
    let part: u8 = line[2];
    if part == '1' as u8 {
        Some(EventField::Severity { id, severity: decode_severity(line[7]) })
    } else if part == '2' as u8 {
        match decode_message(value) {
            Some(text) => Some(EventField::Message { id, text }),
            None => None,
        }
    } else if part == '3' as u8 {
        match decode_date_value(value) {
            Some(date) => Some(EventField::Date { id, date }),
            None => None,
        }
    } else {
        None
    }
}

/// One measured value as an electricity line gives it.
#[derive(Debug, Clone, Copy, PartialEq, Eq)]
pub struct Measurement<'a> {
    pub quantity: Quantity,
    /// The index of the phase: 0, 1 or 2.
    pub phase: u8,
    /// The value as the line writes it, a decimal number.
    pub value: &'a [u8],
}

/// A measured value as the contracts speak of it.
pub struct MeasurementView {
    pub quantity: Quantity,
    pub phase: u8,
    pub value: Seq<u8>,
}

impl<'a> View for Measurement<'a> {
    type V = MeasurementView;

    open spec fn view(&self) -> MeasurementView {
        MeasurementView { quantity: self.quantity, phase: self.phase, value: self.value@ }
    }
}

/// The quantity that the third byte of an electricity line names.
pub open spec fn quantity_of(b: u8) -> Option<Quantity> {
    if b == '1' as u8 {
        Some(Quantity::Voltage)
    } else if b == '2' as u8 {
        Some(Quantity::Current)
    } else if b == '3' as u8 {
        Some(Quantity::Power)
    } else if b == '4' as u8 {
        Some(Quantity::Total)
    } else {
        None
    }
}

/// The measurement that an electricity line gives. The third byte names the
/// quantity, `1` to `4`. The fifth byte names the phase, `1` to `3`. The
/// value stands from the eighth byte up to the first asterisk of the line
/// and writes a decimal number. `None` where the line is too short, names no
/// quantity or no phase, has no asterisk behind its seventh byte, or has a
/// value that is no decimal number.
pub open spec fn measurement_of(line: Seq<u8>) -> Option<MeasurementView> {
    if line.len() < 5 || !('1' as u8 <= line[4] <= '3' as u8) {
        None
    } else {
        match (quantity_of(line[2]), line.index_of_first('*' as u8)) {
            (Some(quantity), Some(star)) => if star >= 7 && is_decimal(line.subrange(7, star)) {
                Some(
                    MeasurementView {
                        quantity,
                        phase: (line[4] - '1' as u8) as u8,
                        value: line.subrange(7, star),
                    },
                )
            } else {
                None
            },
            _ => None,
        }
    }
}

/// Reads an electricity line.
pub fn read_measurement<'a>(line: &'a [u8]) -> (r: Option<Measurement<'a>>)
    ensures
        match r {
            Some(m) => measurement_of(line@) == Some(m@),
            None => measurement_of(line@) is None,
        },
        r matches Some(m) ==> m.phase < 3,
{
    if line.len() < 5 {
        return None;
    }
    let digit: u8 = line[4];
    if digit < '1' as u8 || digit > '3' as u8 {
        return None;
    }
    let kind: u8 = line[2];
    let quantity = if kind == '1' as u8 {
        Quantity::Voltage
    } else if kind == '2' as u8 {
        Quantity::Current
    } else if kind == '3' as u8 {
        Quantity::Power
    } else if kind == '4' as u8 {
        Quantity::Total
    } else {
        return None;
    };
    proof {
        line@.index_of_first_ensures('*' as u8);
    }
    match find(line, '*' as u8) {
        Some(star) => if star >= 7 && check_decimal(slice_subrange(line, 7, star)) {
            Some(
                Measurement {
                    quantity,
                    phase: digit - '1' as u8,
                    value: slice_subrange(line, 7, star),
                },
            )
        } else {
            None
        },
        None => None,
    }
}

} // verus!
