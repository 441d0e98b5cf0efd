//! A parser for the line-tagged telegram streams that smart energy meters
//! emit. `parse` turns a whole stream into its telegrams: per-phase
//! electrical readings, running totals and an event log ordered by event id.

pub mod accumulator;
pub mod ascii;
pub mod date;
pub mod electricity;
pub mod error;
pub mod event_log;
pub mod field;
pub mod laws;
pub mod lines;
pub mod order;
pub mod parser;
pub mod series;
pub mod telegram;

pub use crate::accumulator::Accumulator;
pub use crate::date::{decode_date, get_month_as_uint, CalendarDate};
pub use crate::electricity::{ElectricityReading, PerPhase, Quantity};
pub use crate::error::{Failure, ParseError};
pub use crate::event_log::{correlate, decode_message, decode_severity, EventLogEntry, Severity};
pub use crate::parser::{dispatch, parse, parse_v10};
pub use crate::series::{get_current_data, get_event_log_message, get_voltage_data, PhaseSample};
pub use crate::telegram::Telegram;
