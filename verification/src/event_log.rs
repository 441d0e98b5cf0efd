//! The event log of a telegram.
//!
//! A telegram reports each of its events in three separate lines: one gives
//! the event's severity, one its date and one its message. Each carries the
//! event's id, and the lines may come in any order. When the telegram ends,
//! the three kinds are brought together by id into one entry per event, and
//! the entries are put in ascending order of id.

use crate::ascii::{hex_digit, hex_value};
use crate::order::{
    ascending, ascending_order, in_order, is_ascending_order, lemma_ascending_no_duplicates,
    lemma_ascending_unique, lemma_in_order, lemma_picked_same_ids, picked, same_ids,
};
use vstd::prelude::*;

verus! {

/// How grave an event is.
#[derive(Debug, Clone, Copy, PartialEq, Eq, Structural)]
pub enum Severity {
    Low,
    High,
}

/// One event of a telegram.
#[derive(Debug, Clone, PartialEq, Eq)]
pub struct EventLogEntry {
    /// The id under which the telegram reported the event.
    pub id: u32,
    pub severity: Severity,
    /// When the event happened, in seconds since the epoch.
    pub timestamp: i64,
    /// The decoded text of the event.
    pub message: String,
}

/// An event as the contracts speak of it.
pub struct EventLogEntryView {
    pub id: u32,
    pub severity: Severity,
    pub timestamp: i64,
    pub message: Seq<char>,
}

impl View for EventLogEntry {
    type V = EventLogEntryView;

    open spec fn view(&self) -> EventLogEntryView {
        EventLogEntryView {
            id: self.id,
            severity: self.severity,
            timestamp: self.timestamp,
            message: self.message@,
        }
    }
}

/// The entries of a log as the contracts speak of them.
pub open spec fn entry_views(log: Seq<EventLogEntry>) -> Seq<EventLogEntryView> {
    log.map_values(|entry: EventLogEntry| entry@)
}

/// Messages by id as the contracts speak of them.
pub open spec fn message_views(messages: Seq<(u32, String)>) -> Seq<(u32, Seq<char>)> {
    messages.map_values(|pair: (u32, String)| (pair.0, pair.1@))
}

/// The ids of a list of values by id, in the order of the list.
pub open spec fn ids_of<T>(list: Seq<(u32, T)>) -> Seq<u32> {
    list.map_values(|pair: (u32, T)| pair.0)
}

/// The ids of the entries of a log, in the order of the log.
pub open spec fn log_ids(log: Seq<EventLogEntryView>) -> Seq<u32> {
    log.map_values(|entry: EventLogEntryView| entry.id)
}

/// The severity that a severity flag stands for: `H` is high, anything else
/// is low.
pub open spec fn severity_of(flag: u8) -> Severity {
    if flag == 'H' as u8 {
        Severity::High
    } else {
        Severity::Low
    }
}

/// Reads a severity flag.
pub fn decode_severity(flag: u8) -> (severity: Severity)
    ensures
        severity == severity_of(flag),
{
    if flag == 'H' as u8 {
        Severity::High
    } else {
        Severity::Low
    }
}

/// Whether every pair of characters of `hex` is a pair of hexadecimal digits.
/// A last character without a partner is not looked at.
pub open spec fn is_hex_text(hex: Seq<u8>) -> bool {
    forall|i: int| 0 <= i < 2 * (hex.len() / 2) ==> hex_value(#[trigger] hex[i]) is Some
}

/// The character whose code point the hexadecimal digits `high` and `low`
/// write.
pub open spec fn pair_char(high: u8, low: u8) -> char {
    ((hex_value(high).unwrap() * 16 + hex_value(low).unwrap()) as u8) as char
}

/// The text that a message written in hexadecimal stands for: one character
/// for each pair of digits, the pair giving its code point. `None` if a pair
/// holds anything but hexadecimal digits.
pub open spec fn message_text(hex: Seq<u8>) -> Option<Seq<char>> {
    if is_hex_text(hex) {
        Some(Seq::new((hex.len() / 2) as nat, |i: int| pair_char(hex[2 * i], hex[2 * i + 1])))
    } else {
        None
    }
}

/// `String::push` of the standard library: it appends the character to the
/// end of the string and changes nothing else.
pub assume_specification[ String::push ](text: &mut String, c: char)
    ensures
        final(text)@ == old(text)@.push(c),
;

/// Decodes a message written in hexadecimal.
pub fn decode_message(hex: &[u8]) -> (r: Option<String>)
    ensures
        match r {
            Some(text) => message_text(hex@) == Some(text@),
            None => message_text(hex@) is None,
        },
{
    let width: usize = hex.len();
    let pairs: usize = width / 2;
    let mut text = String::new();
    let mut i: usize = 0;
    while i < pairs
        invariant
            width == hex@.len(),
            pairs == width / 2,
            i <= pairs,
            forall|j: int| 0 <= j < 2 * i ==> hex_value(#[trigger] hex@[j]) is Some,
            text@ == Seq::new(i as nat, |k: int| pair_char(hex@[2 * k], hex@[2 * k + 1])),
        decreases pairs - i,
    {
        let high = hex_digit(hex[2 * i]);
        let low = hex_digit(hex[2 * i + 1]);
        match (high, low) {
            (Some(h), Some(l)) => {
                let code: u8 = h * 16 + l;
                text.push(code as char);
            },
            _ => {
                assert(!is_hex_text(hex@)) by {
                    if high is None {
                        assert(hex_value(hex@[2 * i]) is None);
                    } else {
                        assert(hex_value(hex@[2 * i + 1]) is None);
                    }
                }
                return None;
            },
        }
        assert(text@ =~= Seq::new(
            (i + 1) as nat,
            |k: int| pair_char(hex@[2 * k], hex@[2 * k + 1]),
        ));
        i += 1;
    }
    Some(text)
}

/// Whether severities, dates and messages pair up one to one by id: within
/// each kind no id comes twice, and the three kinds speak of the same ids.
pub open spec fn correlates(severity_ids: Seq<u32>, date_ids: Seq<u32>, message_ids: Seq<u32>) -> bool {
    &&& severity_ids.no_duplicates()
    &&& date_ids.no_duplicates()
    &&& message_ids.no_duplicates()
    &&& same_ids(severity_ids, date_ids)
    &&& same_ids(severity_ids, message_ids)
}

/// Whether `log` is the event log made of the given severities, dates and
/// messages: it has one entry for each id, in ascending order of id, and
/// each entry holds the severity, the date and the message that were given
/// for its id.
pub open spec fn is_event_log(
    log: Seq<EventLogEntryView>,
    severities: Seq<(u32, Severity)>,
    dates: Seq<(u32, i64)>,
    messages: Seq<(u32, Seq<char>)>,
) -> bool {
    &&& log.len() == severities.len()
    &&& ascending(log_ids(log))
    &&& same_ids(log_ids(log), ids_of(severities))
    &&& forall|i: int|
        #![trigger log[i]]
        0 <= i < log.len() ==> {
            &&& severities.contains((log[i].id, log[i].severity))
            &&& dates.contains((log[i].id, log[i].timestamp))
            &&& messages.contains((log[i].id, log[i].message))
        }
}

/// The value that a list gives for an id.
pub open spec fn value_of<T>(list: Seq<(u32, T)>, id: u32) -> T {
    list[ids_of(list).index_of(id)].1
}

/// The event log made of the given severities, dates and messages: one entry
/// for each id of the severities, in ascending order of id, with the
/// severity, the date and the message that were given for that id. Where the
/// three correlate it is the one log that `is_event_log` admits.
pub open spec fn event_log_of(
    severities: Seq<(u32, Severity)>,
    dates: Seq<(u32, i64)>,
    messages: Seq<(u32, Seq<char>)>,
) -> Seq<EventLogEntryView> {
    let ids = in_order(ids_of(severities));
    Seq::new(
        ids.len(),
        |i: int|
            EventLogEntryView {
                id: ids[i],
                severity: value_of(severities, ids[i]),
                timestamp: value_of(dates, ids[i]),
                message: value_of(messages, ids[i]),
            },
    )
}

/// In a list with no id twice, an id has one value only.
pub proof fn lemma_one_value_per_id<T>(list: Seq<(u32, T)>, id: u32, a: T, b: T)
    requires
        ids_of(list).no_duplicates(),
        list.contains((id, a)),
        list.contains((id, b)),
    ensures
        a == b,
{
    let i = choose|i: int| 0 <= i < list.len() && list[i] == (id, a);
    let j = choose|j: int| 0 <= j < list.len() && list[j] == (id, b);
    assert(ids_of(list)[i] == id);
    assert(ids_of(list)[j] == id);
}

/// Severities, dates and messages that correlate have one event log only.
pub proof fn lemma_event_log_unique(
    severities: Seq<(u32, Severity)>,
    dates: Seq<(u32, i64)>,
    messages: Seq<(u32, Seq<char>)>,
    a: Seq<EventLogEntryView>,
    b: Seq<EventLogEntryView>,
)
    requires
        correlates(ids_of(severities), ids_of(dates), ids_of(messages)),
        is_event_log(a, severities, dates, messages),
        is_event_log(b, severities, dates, messages),
    ensures
        a == b,
{
    lemma_ascending_unique(log_ids(a), log_ids(b));
    assert forall|i: int| 0 <= i < a.len() implies a[i] == b[i] by {
        assert(log_ids(a)[i] == log_ids(b)[i]);
        let x = a[i];
        let y = b[i];
        assert(x.id == y.id);
        lemma_one_value_per_id(severities, x.id, x.severity, y.severity);
        lemma_one_value_per_id(dates, x.id, x.timestamp, y.timestamp);
        lemma_one_value_per_id(messages, x.id, x.message, y.message);
    }
    assert(a =~= b);
}

/// Where severities, dates and messages correlate, `event_log_of` is their
/// event log.
pub proof fn lemma_event_log_of(
    severities: Seq<(u32, Severity)>,
    dates: Seq<(u32, i64)>,
    messages: Seq<(u32, Seq<char>)>,
)
    requires
        correlates(ids_of(severities), ids_of(dates), ids_of(messages)),
    ensures
        is_event_log(event_log_of(severities, dates, messages), severities, dates, messages),
{
    let sorted = in_order(ids_of(severities));
    lemma_in_order(ids_of(severities));
    let log = event_log_of(severities, dates, messages);
    assert(log_ids(log) =~= sorted);
    assert forall|i: int| #![trigger log[i]] 0 <= i < log.len() implies {
        &&& severities.contains((log[i].id, log[i].severity))
        &&& dates.contains((log[i].id, log[i].timestamp))
        &&& messages.contains((log[i].id, log[i].message))
    } by {
        let id = sorted[i];
        assert(sorted.contains(id));
        assert(ids_of(severities).contains(id));
        assert(ids_of(dates).contains(id));
        assert(ids_of(messages).contains(id));
        let s = ids_of(severities).index_of(id);
        let d = ids_of(dates).index_of(id);
        let m = ids_of(messages).index_of(id);
        assert(severities[s] == (id, log[i].severity));
        assert(dates[d] == (id, log[i].timestamp));
        assert(messages[m] == (id, log[i].message));
    }
}

/// The ids of a list of values by id.
fn ids<T>(list: &Vec<(u32, T)>) -> (r: Vec<u32>)
    ensures
        r@ == ids_of(list@),
{
    let mut out: Vec<u32> = Vec::new();
    let mut i: usize = 0;
    while i < list.len()
        invariant
            i <= list@.len(),
            out@ == ids_of(list@.take(i as int)),
        decreases list@.len() - i,
    {
        out.push(list[i].0);
        assert(out@ =~= ids_of(list@.take(i + 1)));
        i += 1;
    }
    assert(list@.take(i as int) =~= list@);
    out
}

/// Brings the severities, dates and messages of a telegram's events together
/// into its event log. The order in which they are given does not matter.
/// There is a log exactly when the three correlate.
pub fn correlate(
    severities: &Vec<(u32, Severity)>,
    dates: &Vec<(u32, i64)>,
    messages: &Vec<(u32, String)>,
) -> (r: Option<Vec<EventLogEntry>>)
    ensures
        r is Some <==> correlates(ids_of(severities@), ids_of(dates@), ids_of(messages@)),
        r matches Some(log) ==> entry_views(log@) == event_log_of(
            severities@,
            dates@,
            message_views(messages@),
        ) && is_event_log(entry_views(log@), severities@, dates@, message_views(messages@)),
{
    let severity_ids = ids(severities);
    let date_ids = ids(dates);
    let message_ids = ids(messages);
    let ghost texts = message_views(messages@);
    assert(ids_of(texts) =~= message_ids@);
    let (by_severity, by_date, by_message) = match (
        ascending_order(&severity_ids),
        ascending_order(&date_ids),
        ascending_order(&message_ids),
    ) {
        (Some(a), Some(b), Some(c)) => (a, b, c),
        _ => {
            return None;
        },
    };
    let ghost sorted_severity = picked(severity_ids@, by_severity@);
    let ghost sorted_date = picked(date_ids@, by_date@);
    let ghost sorted_message = picked(message_ids@, by_message@);
    proof {
        lemma_picked_same_ids(severity_ids@, by_severity@);
        lemma_picked_same_ids(date_ids@, by_date@);
        lemma_picked_same_ids(message_ids@, by_message@);
        if correlates(severity_ids@, date_ids@, message_ids@) {
            lemma_ascending_unique(sorted_severity, sorted_date);
            lemma_ascending_unique(sorted_severity, sorted_message);
        }
    }
    let n: usize = severities.len();
    if dates.len() != n || messages.len() != n {
        return None;
    }
    let mut log: Vec<EventLogEntry> = Vec::new();
    let mut i: usize = 0;
    while i < n
        invariant
            n == severities@.len(),
            n == dates@.len(),
            n == messages@.len(),
            severity_ids@ == ids_of(severities@),
            date_ids@ == ids_of(dates@),
            message_ids@ == ids_of(messages@),
            texts == message_views(messages@),
            is_ascending_order(by_severity@, severity_ids@),
            is_ascending_order(by_date@, date_ids@),
            is_ascending_order(by_message@, message_ids@),
            sorted_severity == picked(severity_ids@, by_severity@),
            sorted_date == picked(date_ids@, by_date@),
            sorted_message == picked(message_ids@, by_message@),
            correlates(severity_ids@, date_ids@, message_ids@) ==> sorted_severity == sorted_date
                && sorted_severity == sorted_message,
            i <= n,
            log@.len() == i,
            forall|k: int|
                0 <= k < i ==> sorted_severity[k] == sorted_date[k] && sorted_severity[k]
                    == sorted_message[k],
            forall|k: int|
                #![trigger log@[k]]
                0 <= k < i ==> {
                    &&& log@[k].id == sorted_severity[k]
                    &&& severities@.contains((log@[k].id, log@[k].severity))
                    &&& dates@.contains((log@[k].id, log@[k].timestamp))
                    &&& texts.contains((log@[k].id, log@[k].message@))
                },
        decreases n - i,
    {
        let s: usize = by_severity[i];
        let d: usize = by_date[i];
        let m: usize = by_message[i];
        let id: u32 = severities[s].0;
        assert(sorted_severity[i as int] == id);
        assert(sorted_date[i as int] == dates@[d as int].0);
        assert(sorted_message[i as int] == messages@[m as int].0);
        if dates[d].0 != id || messages[m].0 != id {
            return None;
        }
        let entry = EventLogEntry {
            id,
            severity: severities[s].1,
            timestamp: dates[d].1,
            message: messages[m].1.clone(),
        };
        proof {
            assert(severities@[s as int] == (id, entry.severity));
            assert(dates@[d as int] == (id, entry.timestamp));
            assert(texts[m as int] == (id, entry.message@));
        }
        log.push(entry);
        i += 1;
    }
    proof {
        let views = entry_views(log@);
        assert(log_ids(views) =~= sorted_severity);
        assert(sorted_severity =~= sorted_date);
        assert(sorted_severity =~= sorted_message);
        lemma_ascending_no_duplicates(sorted_severity);
        assert(correlates(severity_ids@, date_ids@, message_ids@));
        assert forall|k: int| #![trigger views[k]] 0 <= k < views.len() implies {
            &&& severities@.contains((views[k].id, views[k].severity))
            &&& dates@.contains((views[k].id, views[k].timestamp))
            &&& texts.contains((views[k].id, views[k].message))
        } by {
            assert(views[k] == log@[k]@);
        }
        assert(is_event_log(views, severities@, dates@, texts));
        lemma_event_log_of(severities@, dates@, texts);
        lemma_event_log_unique(
            severities@,
            dates@,
            texts,
            views,
            event_log_of(severities@, dates@, texts),
        );
    }
    Some(log)
}

} // verus!
