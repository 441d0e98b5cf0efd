//! Reading a whole stream.
//!
//! A stream opens with a header line that announces the format version.
//! Behind it, each line that is not empty is handed to the handler of its
//! tag; a line with a tag that is not known is passed over. The first line
//! that fails ends the reading, and nothing is returned but the failure.

use crate::accumulator::{handled, Accumulator, AccumulatorView};
use crate::date::date_to_timestamp;
use crate::error::{Failure, ParseError};
use crate::field::{
    boundary_of, event_field_of, measurement_of, read_boundary, read_event_field,
    read_measurement, read_telegram_date, telegram_date_of, Boundary, EventField,
    EventFieldView, TAG_BOUNDARY, TAG_DATE, TAG_ELECTRICITY, TAG_EVENT, TAG_INFORMATION,
};
use crate::lines::{after_first_line, lemma_line_break_in_bounds, lines, split_first_line};
use crate::telegram::{telegram_views, Telegram, TelegramView};
use vstd::prelude::*;
use vstd::string::StringSliceAdditionalSpecFns;

verus! {

/// The state after one line, or the failure that the line causes.
///
/// An empty line and a line with an unknown tag change nothing. A line with
/// a known tag that lacks the shape of its tag is malformed, with one
/// exception: an electricity line that comes before the information-type
/// marker is refused for that, whatever its shape.
pub open spec fn step(state: AccumulatorView, line: Seq<u8>) -> Result<AccumulatorView, Failure> {
    if line.len() == 0 {
        Ok(state)
    } else if line[0] == TAG_BOUNDARY {
        match boundary_of(line) {
            Some(Boundary::Child) => Err(
                Failure::Rejected(ParseError::ChildTelegramNotSupported),
            ),
            Some(Boundary::End) => state.ended(),
            Some(Boundary::Start) => Ok(state.started()),
            None => Err(Failure::MalformedLine),
        }
    } else if line[0] == TAG_DATE {
        match telegram_date_of(line) {
            Some(date) => state.dated(date.timestamp()),
            None => Err(Failure::MalformedLine),
        }
    } else if line[0] == TAG_EVENT {
        match event_field_of(line) {
            Some(EventFieldView::Severity { id, severity }) => Ok(
                state.with_severity(id, severity),
            ),
            Some(EventFieldView::Message { id, text }) => Ok(state.with_message(id, text)),
            Some(EventFieldView::Date { id, date }) => state.with_event_date(
                id,
                date.timestamp(),
            ),
            None => Err(Failure::MalformedLine),
        }
    } else if line[0] == TAG_INFORMATION {
        state.marked()
    } else if line[0] == TAG_ELECTRICITY {
        if !state.seen_information_type {
            Err(Failure::Rejected(ParseError::MissingElectricity))
        } else {
            match measurement_of(line) {
                Some(m) => state.measured(m.quantity, m.phase, m.value),
                None => Err(Failure::MalformedLine),
            }
        }
    } else {
        Ok(state)
    }
}

/// The state after the given lines, or the failure of the first line that
/// fails.
pub open spec fn run(state: AccumulatorView, lines: Seq<Seq<u8>>) -> Result<
    AccumulatorView,
    Failure,
>
    decreases lines.len(),
{
    if lines.len() == 0 {
        Ok(state)
    } else {
        match step(state, lines[0]) {
            Ok(next) => run(next, lines.drop_first()),
            Err(failure) => Err(failure),
        }
    }
}

/// The lines of a stream behind its header line.
pub open spec fn body_lines(text: Seq<u8>) -> Seq<Seq<u8>> {
    if text.len() == 0 {
        Seq::empty()
    } else {
        lines(after_first_line(text))
    }
}

/// The telegrams of a stream in the supported format, whatever its header
/// line says.
pub open spec fn telegrams_of_v10(text: Seq<u8>) -> Result<Seq<TelegramView>, Failure> {
    match run(AccumulatorView::initial(), body_lines(text)) {
        Ok(state) => Ok(state.telegrams),
        Err(failure) => Err(failure),
    }
}

/// Whether the stream announces the supported format version: its second to
/// fourth bytes are `v10`.
pub open spec fn announces_v10(text: Seq<u8>) -> bool {
    &&& text.len() >= 4
    &&& text[1] == 'v' as u8
    &&& text[2] == '1' as u8
    &&& text[3] == '0' as u8
}

/// The telegrams of a stream.
pub open spec fn telegrams_of(text: Seq<u8>) -> Result<Seq<TelegramView>, Failure> {
    if announces_v10(text) {
        telegrams_of_v10(text)
    } else {
        Err(Failure::Rejected(ParseError::UnknownTelegramVersion))
    }
}

/// The result of a parse as the contracts speak of it.
pub open spec fn parsed(result: Result<Vec<Telegram>, Failure>) -> Result<
    Seq<TelegramView>,
    Failure,
> {
    match result {
        Ok(telegrams) => Ok(telegram_views(telegrams@)),
        Err(failure) => Err(failure),
    }
}

/// Hands one line to the handler of its tag.
pub fn dispatch(acc: &mut Accumulator, line: &[u8]) -> (outcome: Result<(), Failure>)
    ensures
        handled(old(acc)@, final(acc)@, outcome, step(old(acc)@, line@)),
{
    if line.len() == 0 {
        return Ok(());
    }
    let tag: u8 = line[0];
    if tag == TAG_BOUNDARY {
        match read_boundary(line) {
            Some(Boundary::Child) => Err(
                Failure::Rejected(ParseError::ChildTelegramNotSupported),
            ),
            Some(Boundary::End) => acc.end_telegram(),
            Some(Boundary::Start) => {
                acc.start_telegram();
                Ok(())
            },
            None => Err(Failure::MalformedLine),
        }
    } else if tag == TAG_DATE {
        match read_telegram_date(line) {
            Some(date) => acc.date_telegram(date_to_timestamp(&date)),
            None => Err(Failure::MalformedLine),
        }
    } else if tag == TAG_EVENT {
        match read_event_field(line) {
            Some(EventField::Severity { id, severity }) => {
                acc.add_severity(id, severity);
                Ok(())
            },
            Some(EventField::Message { id, text }) => {
                acc.add_message(id, text);
                Ok(())
            },
            Some(EventField::Date { id, date }) => acc.add_event_date(
                id,
                date_to_timestamp(&date),
            ),
            None => Err(Failure::MalformedLine),
        }
    } else if tag == TAG_INFORMATION {
        acc.mark_information_type()
    } else if tag == TAG_ELECTRICITY {
        if !acc.seen_information_type {
            return Err(Failure::Rejected(ParseError::MissingElectricity));
        }
        match read_measurement(line) {
            Some(m) => acc.measure(m.quantity, m.phase, m.value),
            None => Err(Failure::MalformedLine),
        }
    } else {
        Ok(())
    }
}

/// Reads a stream in the supported format. The header line is passed over
/// unread.
pub fn parse_v10(input: &str) -> (result: Result<Vec<Telegram>, Failure>)
    ensures
        parsed(result) == telegrams_of_v10(input.spec_bytes()),
{
    let text = input.as_bytes();
    let mut acc = Accumulator::new();
    if text.len() == 0 {
        return Ok(acc.into_telegrams());
    }
    let (_, body) = split_first_line(text);
    let mut rest: &[u8] = body;
    while rest.len() > 0
        invariant
            text@ == input.spec_bytes(),
            run(acc@, lines(rest@)) == run(AccumulatorView::initial(), body_lines(text@)),
        decreases rest@.len(),
    {
        proof {
            lemma_line_break_in_bounds(rest@);
        }
        let (line, tail) = split_first_line(rest);
        assert(lines(rest@)[0] == line@);
        assert(lines(rest@).drop_first() =~= lines(tail@));
        match dispatch(&mut acc, line) {
            Ok(()) => {},
            Err(failure) => {
                return Err(failure);
            },
        }
        rest = tail;
    }
    Ok(acc.into_telegrams())
}

/// Reads a stream: checks that it announces the supported format version,
/// then reads its telegrams.
pub fn parse(input: &str) -> (result: Result<Vec<Telegram>, Failure>)
    ensures
        parsed(result) == telegrams_of(input.spec_bytes()),
{
    let text = input.as_bytes();
    if text.len() >= 4 && text[1] == 'v' as u8 && text[2] == '1' as u8 && text[3] == '0' as u8 {
        parse_v10(input)
    } else {
        Err(Failure::Rejected(ParseError::UnknownTelegramVersion))
    }
}

} // verus!
