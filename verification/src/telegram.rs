//! A complete telegram.

use crate::electricity::{ElectricityReading, ElectricityView};
use crate::event_log::{entry_views, log_ids, EventLogEntry, EventLogEntryView};
use crate::order::ascending;
use vstd::prelude::*;

verus! {

/// One complete reading of the meter.
#[derive(Debug, Clone, PartialEq, Eq)]
pub struct Telegram {
    /// The date of the telegram, in seconds since the epoch.
    pub timestamp: i64,
    /// The events of the telegram, in ascending order of id.
    pub event_log: Vec<EventLogEntry>,
    pub electricity: ElectricityReading,
}

/// A telegram as the contracts speak of it.
pub struct TelegramView {
    pub timestamp: i64,
    pub event_log: Seq<EventLogEntryView>,
    pub electricity: ElectricityView,
}

impl View for Telegram {
    type V = TelegramView;

    open spec fn view(&self) -> TelegramView {
        TelegramView {
            timestamp: self.timestamp,
            event_log: entry_views(self.event_log@),
            electricity: self.electricity@,
        }
    }
}

impl TelegramView {
    /// Whether the events of the telegram stand in ascending order of id.
    pub open spec fn is_ordered(self) -> bool {
        ascending(log_ids(self.event_log))
    }
}

/// Telegrams as the contracts speak of them.
pub open spec fn telegram_views(telegrams: Seq<Telegram>) -> Seq<TelegramView> {
    telegrams.map_values(|telegram: Telegram| telegram@)
}

} // verus!
