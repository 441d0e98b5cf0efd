//! What a reader of the telegrams draws from them: the voltages and currents
//! over time, and the messages of the events with their severities.

use crate::event_log::{EventLogEntryView, Severity};
use crate::telegram::{telegram_views, Telegram, TelegramView};
use vstd::prelude::*;
use vstd::slice::slice_to_vec;

verus! {

/// The values of one quantity for the three phases at one moment.
#[derive(Debug, Clone, PartialEq, Eq)]
pub struct PhaseSample {
    /// The date of the telegram that gave the values, in seconds since the
    /// epoch.
    pub timestamp: i64,
    pub phase_1: Vec<u8>,
    pub phase_2: Vec<u8>,
    pub phase_3: Vec<u8>,
}

/// A sample as the contracts speak of it: the moment, and the three values
/// by phase.
pub struct PhaseSampleView {
    pub timestamp: i64,
    pub values: Seq<Seq<u8>>,
}

impl View for PhaseSample {
    type V = PhaseSampleView;

    open spec fn view(&self) -> PhaseSampleView {
        PhaseSampleView {
            timestamp: self.timestamp,
            values: seq![self.phase_1@, self.phase_2@, self.phase_3@],
        }
    }
}

/// Samples as the contracts speak of them.
pub open spec fn sample_views(samples: Seq<PhaseSample>) -> Seq<PhaseSampleView> {
    samples.map_values(|sample: PhaseSample| sample@)
}

/// The voltages that a telegram reports, at the date of the telegram.
pub open spec fn voltage_of(telegram: TelegramView) -> PhaseSampleView {
    PhaseSampleView { timestamp: telegram.timestamp, values: telegram.electricity.voltage }
}

/// The currents that a telegram reports, at the date of the telegram.
pub open spec fn current_of(telegram: TelegramView) -> PhaseSampleView {
    PhaseSampleView { timestamp: telegram.timestamp, values: telegram.electricity.current }
}

/// The messages of a telegram's events with their severities, in the order
/// of its event log.
pub open spec fn messages_of(telegram: TelegramView) -> Seq<(Severity, Seq<char>)> {
    telegram.event_log.map_values(|entry: EventLogEntryView| (entry.severity, entry.message))
}

/// Messages with their severities as the contracts speak of them.
pub open spec fn severity_message_views(list: Seq<(Severity, String)>) -> Seq<
    (Severity, Seq<char>),
> {
    list.map_values(|pair: (Severity, String)| (pair.0, pair.1@))
}

/// Lists of messages with their severities as the contracts speak of them.
pub open spec fn message_list_views(lists: Seq<Vec<(Severity, String)>>) -> Seq<
    Seq<(Severity, Seq<char>)>,
> {
    lists.map_values(|list: Vec<(Severity, String)>| severity_message_views(list@))
}

/// The voltage samples of the telegrams, one for each telegram, in order.
pub fn get_voltage_data(dsmr: &Vec<Telegram>) -> (samples: Vec<PhaseSample>)
    ensures
        sample_views(samples@) == telegram_views(dsmr@).map_values(
            |telegram: TelegramView| voltage_of(telegram),
        ),
{
    let mut samples: Vec<PhaseSample> = Vec::new();
    let mut i: usize = 0;
    while i < dsmr.len()
        invariant
            i <= dsmr@.len(),
            samples@.len() == i,
            forall|k: int| 0 <= k < i ==> (#[trigger] samples@[k])@ == voltage_of(dsmr@[k]@),
        decreases dsmr@.len() - i,
    {
        let telegram = &dsmr[i];
        let sample = PhaseSample {
            timestamp: telegram.timestamp,
            phase_1: slice_to_vec(telegram.electricity.voltage.phase_1.as_slice()),
            phase_2: slice_to_vec(telegram.electricity.voltage.phase_2.as_slice()),
            phase_3: slice_to_vec(telegram.electricity.voltage.phase_3.as_slice()),
        };
        assert(sample@.values =~= telegram@.electricity.voltage);
        samples.push(sample);
        i += 1;
    }
    assert(sample_views(samples@) =~= telegram_views(dsmr@).map_values(
        |telegram: TelegramView| voltage_of(telegram),
    ));
    samples
}

/// The current samples of the telegrams, one for each telegram, in order.
pub fn get_current_data(dsmr: &Vec<Telegram>) -> (samples: Vec<PhaseSample>)
    ensures
        sample_views(samples@) == telegram_views(dsmr@).map_values(
            |telegram: TelegramView| current_of(telegram),
        ),
{
    let mut samples: Vec<PhaseSample> = Vec::new();
    let mut i: usize = 0;
    while i < dsmr.len()
        invariant
            i <= dsmr@.len(),
            samples@.len() == i,
            forall|k: int| 0 <= k < i ==> (#[trigger] samples@[k])@ == current_of(dsmr@[k]@),
        decreases dsmr@.len() - i,
    {
        let telegram = &dsmr[i];
        let sample = PhaseSample {
            timestamp: telegram.timestamp,
            phase_1: slice_to_vec(telegram.electricity.current.phase_1.as_slice()),
            phase_2: slice_to_vec(telegram.electricity.current.phase_2.as_slice()),
            phase_3: slice_to_vec(telegram.electricity.current.phase_3.as_slice()),
        };
        assert(sample@.values =~= telegram@.electricity.current);
        samples.push(sample);
        i += 1;
    }
    assert(sample_views(samples@) =~= telegram_views(dsmr@).map_values(
        |telegram: TelegramView| current_of(telegram),
    ));
    samples
}

/// The messages of the events of one telegram with their severities.
fn messages_of_telegram(telegram: &Telegram) -> (list: Vec<(Severity, String)>)
    ensures
        severity_message_views(list@) == messages_of(telegram@),
{
    let mut list: Vec<(Severity, String)> = Vec::new();
    let mut i: usize = 0;
    while i < telegram.event_log.len()
        invariant
            i <= telegram.event_log@.len(),
            list@.len() == i,
            forall|k: int|
                0 <= k < i ==> (#[trigger] list@[k]).0 == telegram.event_log@[k].severity
                    && list@[k].1@ == telegram.event_log@[k].message@,
        decreases telegram.event_log@.len() - i,
    {
        let entry = &telegram.event_log[i];
        list.push((entry.severity, entry.message.clone()));
        i += 1;
    }
    assert(severity_message_views(list@) =~= messages_of(telegram@));
    list
}

/// For each telegram, in order, the messages of its events with their
/// severities, in the order of its event log.
pub fn get_event_log_message(dsmr: &Vec<Telegram>) -> (lists: Vec<Vec<(Severity, String)>>)
    ensures
        message_list_views(lists@) == telegram_views(dsmr@).map_values(
            |telegram: TelegramView| messages_of(telegram),
        ),
{
    let mut lists: Vec<Vec<(Severity, String)>> = Vec::new();
    let mut i: usize = 0;
    while i < dsmr.len()
        invariant
            i <= dsmr@.len(),
            lists@.len() == i,
            forall|k: int|
                0 <= k < i ==> severity_message_views((#[trigger] lists@[k])@) == messages_of(
                    dsmr@[k]@,
                ),
        decreases dsmr@.len() - i,
    {
        lists.push(messages_of_telegram(&dsmr[i]));
        i += 1;
    }
    assert(message_list_views(lists@) =~= telegram_views(dsmr@).map_values(
        |telegram: TelegramView| messages_of(telegram),
    ));
    lists
}

} // verus!
