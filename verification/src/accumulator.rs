//! The telegram that is being read.
//!
//! The accumulator holds what the lines of the current telegram have given
//! so far, and the telegrams that are already complete. Each kind of field
//! has a handler that takes the field in. The handler of the end of a
//! telegram checks that the telegram is complete, builds it and puts it
//! behind the others; every boundary then clears the accumulator for the
//! next telegram.

use crate::electricity::{ElectricityReading, ElectricityView, Quantity};
use crate::error::{Failure, ParseError};
use crate::event_log::{
    correlate, correlates, event_log_of, ids_of, message_views, Severity,
};
use crate::telegram::{telegram_views, Telegram, TelegramView};
use vstd::prelude::*;

verus! {

/// The state of reading a stream.
#[derive(Debug, Clone, PartialEq, Eq)]
pub struct Accumulator {
    /// The telegrams that are complete, in the order of the stream.
    pub telegrams: Vec<Telegram>,
    /// Whether the current telegram has marked its information type.
    pub seen_information_type: bool,
    /// Whether the current telegram has given an electricity measurement.
    pub has_electricity: bool,
    /// Whether the current telegram has given its date.
    pub has_date: bool,
    /// The date of the current telegram, 0 until it is given.
    pub timestamp: i64,
    /// The readings of the current telegram.
    pub electricity: ElectricityReading,
    /// The severities of the current telegram's events, as they came.
    pub severities: Vec<(u32, Severity)>,
    /// The dates of the current telegram's events, as they came.
    pub dates: Vec<(u32, i64)>,
    /// The messages of the current telegram's events, as they came.
    pub messages: Vec<(u32, String)>,
}

/// The state of reading a stream as the contracts speak of it.
pub struct AccumulatorView {
    pub telegrams: Seq<TelegramView>,
    pub seen_information_type: bool,
    pub has_electricity: bool,
    pub has_date: bool,
    pub timestamp: i64,
    pub electricity: ElectricityView,
    pub severities: Seq<(u32, Severity)>,
    pub dates: Seq<(u32, i64)>,
    pub messages: Seq<(u32, Seq<char>)>,
}

impl View for Accumulator {
    type V = AccumulatorView;

    open spec fn view(&self) -> AccumulatorView {
        AccumulatorView {
            telegrams: telegram_views(self.telegrams@),
            seen_information_type: self.seen_information_type,
            has_electricity: self.has_electricity,
            has_date: self.has_date,
            timestamp: self.timestamp,
            electricity: self.electricity@,
            severities: self.severities@,
            dates: self.dates@,
            messages: message_views(self.messages@),
        }
    }
}

impl AccumulatorView {
    /// The state in which nothing of the current telegram is known, with the
    /// given telegrams complete.
    pub open spec fn cleared(telegrams: Seq<TelegramView>) -> AccumulatorView {
        AccumulatorView {
            telegrams,
            seen_information_type: false,
            has_electricity: false,
            has_date: false,
            timestamp: 0,
            electricity: ElectricityView::unset(),
            severities: Seq::empty(),
            dates: Seq::empty(),
            messages: Seq::empty(),
        }
    }

    /// The state before the first line.
    pub open spec fn initial() -> AccumulatorView {
        Self::cleared(Seq::empty())
    }

    /// The state after the start of a telegram: what was known of the
    /// current telegram is dropped.
    pub open spec fn started(self) -> AccumulatorView {
        Self::cleared(self.telegrams)
    }

    /// The telegram that the current state amounts to.
    pub open spec fn current(self) -> TelegramView {
        TelegramView {
            timestamp: self.timestamp,
            event_log: event_log_of(self.severities, self.dates, self.messages),
            electricity: self.electricity,
        }
    }

    /// The state after the end of a telegram. The telegram must have given
    /// an electricity measurement and a date, in that order of precedence,
    /// and its events must correlate. The current telegram then goes behind
    /// the complete ones, and the state is cleared.
    pub open spec fn ended(self) -> Result<AccumulatorView, Failure> {
        if !self.has_electricity {
            Err(Failure::Rejected(ParseError::MissingElectricity))
        } else if !self.has_date {
            Err(Failure::Rejected(ParseError::NoDate))
        } else if !correlates(ids_of(self.severities), ids_of(self.dates), ids_of(self.messages)) {
            Err(Failure::UncorrelatedEventLog)
        } else {
            Ok(Self::cleared(self.telegrams.push(self.current())))
        }
    }

    /// The state after the date line of a telegram, given what the
    /// conversion of its date to epoch seconds returned.
    pub open spec fn dated(self, stamp: Option<i64>) -> Result<AccumulatorView, Failure> {
        match stamp {
            Some(timestamp) => Ok(AccumulatorView { timestamp, has_date: true, ..self }),
            None => Err(Failure::InvalidDate),
        }
    }

    /// The state after a line has given the severity of an event.
    pub open spec fn with_severity(self, id: u32, severity: Severity) -> AccumulatorView {
        AccumulatorView { severities: self.severities.push((id, severity)), ..self }
    }

    /// The state after a line has given the message of an event.
    pub open spec fn with_message(self, id: u32, text: Seq<char>) -> AccumulatorView {
        AccumulatorView { messages: self.messages.push((id, text)), ..self }
    }

    /// The state after a line has given the date of an event, given what the
    /// conversion of that date to epoch seconds returned.
    pub open spec fn with_event_date(self, id: u32, stamp: Option<i64>) -> Result<
        AccumulatorView,
        Failure,
    > {
        match stamp {
            Some(timestamp) => Ok(
                AccumulatorView { dates: self.dates.push((id, timestamp)), ..self },
            ),
            None => Err(Failure::InvalidDate),
        }
    }

    /// The state after the information-type marker, which a telegram may
    /// hold once only.
    pub open spec fn marked(self) -> Result<AccumulatorView, Failure> {
        if self.seen_information_type {
            Err(Failure::Rejected(ParseError::DuplicateFieldId))
        } else {
            Ok(AccumulatorView { seen_information_type: true, ..self })
        }
    }

    /// The state after an electricity measurement, which may only come
    /// behind the information-type marker.
    pub open spec fn measured(self, quantity: Quantity, phase: u8, text: Seq<u8>) -> Result<
        AccumulatorView,
        Failure,
    > {
        if !self.seen_information_type {
            Err(Failure::Rejected(ParseError::MissingElectricity))
        } else {
            Ok(
                AccumulatorView {
                    has_electricity: true,
                    electricity: self.electricity.with(quantity, phase, text),
                    ..self
                },
            )
        }
    }
}

/// Whether a handler did what `expected` says: on success it returned `Ok`
/// and left the state that `expected` gives, on failure it returned that
/// failure and left the state as it was.
pub open spec fn handled(
    before: AccumulatorView,
    after: AccumulatorView,
    outcome: Result<(), Failure>,
    expected: Result<AccumulatorView, Failure>,
) -> bool {
    match expected {
        Ok(next) => outcome is Ok && after == next,
        Err(failure) => outcome == Err::<(), Failure>(failure) && after == before,
    }
}

impl Accumulator {
    /// The state before the first line.
    pub fn new() -> (acc: Accumulator)
        ensures
            acc@ == AccumulatorView::initial(),
    {
        let acc = Accumulator {
            telegrams: Vec::new(),
            seen_information_type: false,
            has_electricity: false,
            has_date: false,
            timestamp: 0,
            electricity: ElectricityReading::new(),
            severities: Vec::new(),
            dates: Vec::new(),
            messages: Vec::new(),
        };
        assert(acc@.telegrams =~= Seq::empty());
        assert(acc@.messages =~= Seq::empty());
        assert(acc@.severities =~= Seq::empty());
        assert(acc@.dates =~= Seq::empty());
        acc
    }

    /// Takes in the start of a telegram.
    pub fn start_telegram(&mut self)
        ensures
            final(self)@ == old(self)@.started(),
    {
        self.seen_information_type = false;
        self.has_electricity = false;
        self.has_date = false;
        self.timestamp = 0;
        self.electricity = ElectricityReading::new();
        self.severities.clear();
        self.dates.clear();
        self.messages.clear();
        assert(self@.messages =~= Seq::empty());
        assert(self@.severities =~= Seq::empty());
        assert(self@.dates =~= Seq::empty());
    }

    /// Takes in the end of a telegram.
    pub fn end_telegram(&mut self) -> (outcome: Result<(), Failure>)
        ensures
            handled(old(self)@, final(self)@, outcome, old(self)@.ended()),
    {
        if !self.has_electricity {
            return Err(Failure::Rejected(ParseError::MissingElectricity));
        }
        if !self.has_date {
            return Err(Failure::Rejected(ParseError::NoDate));
        }
        assert(ids_of(message_views(self.messages@)) =~= ids_of(self.messages@));
        let event_log = match correlate(&self.severities, &self.dates, &self.messages) {
            Some(log) => log,
            None => {
                return Err(Failure::UncorrelatedEventLog);
            },
        };
        let mut electricity = ElectricityReading::new();
        core::mem::swap(&mut self.electricity, &mut electricity);
        let telegram = Telegram { timestamp: self.timestamp, event_log, electricity };
        self.telegrams.push(telegram);
        assert(telegram_views(self.telegrams@) =~= old(self)@.telegrams.push(telegram@));
        self.start_telegram();
        Ok(())
    }

    /// Takes in the date of the telegram, as the conversion of the written
    /// date to epoch seconds returned it.
    pub fn date_telegram(&mut self, stamp: Option<i64>) -> (outcome: Result<(), Failure>)
        ensures
            handled(old(self)@, final(self)@, outcome, old(self)@.dated(stamp)),
    {
        match stamp {
            Some(timestamp) => {
                self.timestamp = timestamp;
                self.has_date = true;
                Ok(())
            },
            None => Err(Failure::InvalidDate),
        }
    }

    /// Takes in the severity of an event.
    pub fn add_severity(&mut self, id: u32, severity: Severity)
        ensures
            final(self)@ == old(self)@.with_severity(id, severity),
    {
        self.severities.push((id, severity));
    }

    /// Takes in the message of an event.
    pub fn add_message(&mut self, id: u32, text: String)
        ensures
            final(self)@ == old(self)@.with_message(id, text@),
    {
        self.messages.push((id, text));
        assert(message_views(self.messages@) =~= old(self)@.messages.push((id, text@)));
    }

    /// Takes in the date of an event, as the conversion of the written date
    /// to epoch seconds returned it.
    pub fn add_event_date(&mut self, id: u32, stamp: Option<i64>) -> (outcome: Result<
        (),
        Failure,
    >)
        ensures
            handled(old(self)@, final(self)@, outcome, old(self)@.with_event_date(id, stamp)),
    {
        match stamp {
            Some(timestamp) => {
                self.dates.push((id, timestamp));
                Ok(())
            },
            None => Err(Failure::InvalidDate),
        }
    }

    /// Takes in the information-type marker.
    pub fn mark_information_type(&mut self) -> (outcome: Result<(), Failure>)
        ensures
            handled(old(self)@, final(self)@, outcome, old(self)@.marked()),
    {
        if self.seen_information_type {
            return Err(Failure::Rejected(ParseError::DuplicateFieldId));
        }
        self.seen_information_type = true;
        Ok(())
    }

    /// Takes in an electricity measurement for the phase with index `phase`.
    pub fn measure(&mut self, quantity: Quantity, phase: u8, text: &[u8]) -> (outcome: Result<
        (),
        Failure,
    >)
        requires
            phase < 3,
        ensures
            handled(old(self)@, final(self)@, outcome, old(self)@.measured(quantity, phase, text@)),
    {
        if !self.seen_information_type {
            return Err(Failure::Rejected(ParseError::MissingElectricity));
        }
        self.has_electricity = true;
        self.electricity.record(quantity, phase, text);
        Ok(())
    }

    /// Hands out the complete telegrams.
    pub fn into_telegrams(self) -> (telegrams: Vec<Telegram>)
        ensures
            telegram_views(telegrams@) == self@.telegrams,
    {
        self.telegrams
    }
}

} // verus!
