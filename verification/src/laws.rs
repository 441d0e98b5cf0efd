//! What holds of every stream.
//!
//! The laws here are stated over `telegrams_of`, which `parse` computes, and
//! over `run`, which it is made of. They say when a stream is refused and
//! for what, and that the order of the stream is the order of the telegrams.

use crate::accumulator::AccumulatorView;
use crate::ascii::digit_value;
use crate::electricity::{lemma_zero_is_decimal, ElectricityView};
use crate::error::{Failure, ParseError};
use crate::event_log::{
    correlates, event_log_of, ids_of, is_event_log, lemma_event_log_of, lemma_event_log_unique,
    Severity,
};
use crate::field::{
    boundary_of, event_field_of, measurement_of, telegram_date_of, Boundary, EventFieldView,
    TAG_BOUNDARY, TAG_DATE, TAG_ELECTRICITY, TAG_EVENT, TAG_INFORMATION,
};
use crate::order::same_ids;
use crate::parser::{announces_v10, body_lines, parsed, run, step, telegrams_of};
use crate::telegram::{Telegram, TelegramView};
use vstd::prelude::*;
use vstd::seq_lib::{to_multiset_contains, to_multiset_len};

verus! {

/// Whether `line` is not empty and bears `tag`.
pub open spec fn has_tag(line: Seq<u8>, tag: u8) -> bool {
    line.len() > 0 && line[0] == tag
}

/// Whether `line` is a boundary line that marks `boundary`.
pub open spec fn marks(line: Seq<u8>, boundary: Boundary) -> bool {
    has_tag(line, TAG_BOUNDARY) && boundary_of(line) == Some(boundary)
}

/// Whether a line with `tag` has come since the last boundary line of
/// `lines`: whether the telegram that is being read has a field of that kind.
pub open spec fn pending(lines: Seq<Seq<u8>>, tag: u8) -> bool
    decreases lines.len(),
{
    if lines.len() == 0 {
        false
    } else if has_tag(lines.last(), TAG_BOUNDARY) {
        false
    } else if has_tag(lines.last(), tag) {
        true
    } else {
        pending(lines.drop_last(), tag)
    }
}

/// Reading lines and then one more is reading the lines, and then, if that
/// went well, the one.
pub proof fn lemma_run_push(state: AccumulatorView, lines: Seq<Seq<u8>>, line: Seq<u8>)
    ensures
        run(state, lines.push(line)) == match run(state, lines) {
            Ok(reached) => step(reached, line),
            Err(failure) => Err(failure),
        },
    decreases lines.len(),
{
    let all = lines.push(line);
    if lines.len() == 0 {
        assert(all.drop_first() =~= Seq::<Seq<u8>>::empty());
        match step(state, line) {
            Ok(next) => {
                assert(run(next, all.drop_first()) == Ok::<AccumulatorView, Failure>(next));
            },
            Err(_) => {},
        }
    } else {
        assert(all[0] == lines[0]);
        assert(all.drop_first() =~= lines.drop_first().push(line));
        match step(state, lines[0]) {
            Ok(next) => {
                lemma_run_push(next, lines.drop_first(), line);
            },
            Err(_) => {},
        }
    }
}

/// Reading two runs of lines one after the other is reading the first, and
/// then, if that went well, the second.
pub proof fn lemma_run_concat(state: AccumulatorView, first: Seq<Seq<u8>>, second: Seq<Seq<u8>>)
    ensures
        run(state, first + second) == match run(state, first) {
            Ok(reached) => run(reached, second),
            Err(failure) => Err(failure),
        },
    decreases first.len(),
{
    if first.len() == 0 {
        assert(first + second =~= second);
    } else {
        assert((first + second)[0] == first[0]);
        assert((first + second).drop_first() =~= first.drop_first() + second);
        match step(state, first[0]) {
            Ok(next) => {
                lemma_run_concat(next, first.drop_first(), second);
            },
            Err(_) => {},
        }
    }
}

/// A failure is final: once a line has failed, what follows does not matter.
pub proof fn lemma_failure_is_final(
    state: AccumulatorView,
    before: Seq<Seq<u8>>,
    line: Seq<u8>,
    after: Seq<Seq<u8>>,
    failure: Failure,
)
    requires
        run(state, before) matches Ok(reached) && step(reached, line) == Err::<
            AccumulatorView,
            Failure,
        >(failure),
    ensures
        run(state, before.push(line) + after) == Err::<AccumulatorView, Failure>(failure),
{
    lemma_run_push(state, before, line);
    lemma_run_concat(state, before.push(line), after);
}

/// After lines that were read without failure, the accumulator knows of the
/// information-type marker, of a date and of an electricity measurement
/// exactly if such a line has come since the last boundary line.
pub proof fn lemma_flags_follow_lines(lines: Seq<Seq<u8>>)
    ensures
        run(AccumulatorView::initial(), lines) matches Ok(reached) ==> {
            &&& reached.seen_information_type == pending(lines, TAG_INFORMATION)
            &&& reached.has_date == pending(lines, TAG_DATE)
            &&& reached.has_electricity == pending(lines, TAG_ELECTRICITY)
        },
    decreases lines.len(),
{
    if lines.len() > 0 {
        let before = lines.drop_last();
        let line = lines.last();
        assert(lines =~= before.push(line));
        lemma_run_push(AccumulatorView::initial(), before, line);
        lemma_flags_follow_lines(before);
    }
}

/// An electricity line that comes before the information-type marker of its
/// telegram makes the stream fail with `MissingElectricity`, whatever the
/// line holds and whatever follows it.
pub proof fn law_electricity_needs_information_type(
    text: Seq<u8>,
    before: Seq<Seq<u8>>,
    line: Seq<u8>,
    after: Seq<Seq<u8>>,
)
    requires
        announces_v10(text),
        body_lines(text) == before.push(line) + after,
        run(AccumulatorView::initial(), before) is Ok,
        !pending(before, TAG_INFORMATION),
        has_tag(line, TAG_ELECTRICITY),
    ensures
        telegrams_of(text) == Err::<Seq<TelegramView>, Failure>(
            Failure::Rejected(ParseError::MissingElectricity),
        ),
{
    lemma_flags_follow_lines(before);
    lemma_failure_is_final(
        AccumulatorView::initial(),
        before,
        line,
        after,
        Failure::Rejected(ParseError::MissingElectricity),
    );
}

/// A second information-type marker in one telegram makes the stream fail
/// with `DuplicateFieldId`, whatever follows it.
pub proof fn law_information_type_comes_once(
    text: Seq<u8>,
    before: Seq<Seq<u8>>,
    line: Seq<u8>,
    after: Seq<Seq<u8>>,
)
    requires
        announces_v10(text),
        body_lines(text) == before.push(line) + after,
        run(AccumulatorView::initial(), before) is Ok,
        pending(before, TAG_INFORMATION),
        has_tag(line, TAG_INFORMATION),
    ensures
        telegrams_of(text) == Err::<Seq<TelegramView>, Failure>(
            Failure::Rejected(ParseError::DuplicateFieldId),
        ),
{
    lemma_flags_follow_lines(before);
    lemma_failure_is_final(
        AccumulatorView::initial(),
        before,
        line,
        after,
        Failure::Rejected(ParseError::DuplicateFieldId),
    );
}

/// A telegram that ends without an electricity line makes the stream fail
/// with `MissingElectricity`, whatever follows its end.
pub proof fn law_telegram_needs_electricity(
    text: Seq<u8>,
    before: Seq<Seq<u8>>,
    line: Seq<u8>,
    after: Seq<Seq<u8>>,
)
    requires
        announces_v10(text),
        body_lines(text) == before.push(line) + after,
        run(AccumulatorView::initial(), before) is Ok,
        !pending(before, TAG_ELECTRICITY),
        marks(line, Boundary::End),
    ensures
        telegrams_of(text) == Err::<Seq<TelegramView>, Failure>(
            Failure::Rejected(ParseError::MissingElectricity),
        ),
{
    lemma_flags_follow_lines(before);
    lemma_failure_is_final(
        AccumulatorView::initial(),
        before,
        line,
        after,
        Failure::Rejected(ParseError::MissingElectricity),
    );
}

/// A telegram that has an electricity line and ends without a date line
/// makes the stream fail with `NoDate`, whatever follows its end.
pub proof fn law_telegram_needs_date(
    text: Seq<u8>,
    before: Seq<Seq<u8>>,
    line: Seq<u8>,
    after: Seq<Seq<u8>>,
)
    requires
        announces_v10(text),
        body_lines(text) == before.push(line) + after,
        run(AccumulatorView::initial(), before) is Ok,
        pending(before, TAG_ELECTRICITY),
        !pending(before, TAG_DATE),
        marks(line, Boundary::End),
    ensures
        telegrams_of(text) == Err::<Seq<TelegramView>, Failure>(
            Failure::Rejected(ParseError::NoDate),
        ),
{
    lemma_flags_follow_lines(before);
    lemma_failure_is_final(
        AccumulatorView::initial(),
        before,
        line,
        after,
        Failure::Rejected(ParseError::NoDate),
    );
}

/// The marker of a nested telegram makes the stream fail with
/// `ChildTelegramNotSupported`, whatever follows it.
pub proof fn law_nested_telegram_is_refused(
    text: Seq<u8>,
    before: Seq<Seq<u8>>,
    line: Seq<u8>,
    after: Seq<Seq<u8>>,
)
    requires
        announces_v10(text),
        body_lines(text) == before.push(line) + after,
        run(AccumulatorView::initial(), before) is Ok,
        marks(line, Boundary::Child),
    ensures
        telegrams_of(text) == Err::<Seq<TelegramView>, Failure>(
            Failure::Rejected(ParseError::ChildTelegramNotSupported),
        ),
{
    lemma_failure_is_final(
        AccumulatorView::initial(),
        before,
        line,
        after,
        Failure::Rejected(ParseError::ChildTelegramNotSupported),
    );
}

/// Whether the events of every one of the telegrams stand in ascending
/// order of id.
pub open spec fn all_ordered(telegrams: Seq<TelegramView>) -> bool {
    forall|i: int| 0 <= i < telegrams.len() ==> (#[trigger] telegrams[i]).is_ordered()
}

/// Reading lines keeps the event logs of the complete telegrams in order and
/// completes telegrams with ordered event logs only.
pub proof fn lemma_run_keeps_order(state: AccumulatorView, lines: Seq<Seq<u8>>)
    requires
        all_ordered(state.telegrams),
    ensures
        run(state, lines) matches Ok(reached) ==> all_ordered(reached.telegrams),
    decreases lines.len(),
{
    if lines.len() > 0 {
        match step(state, lines[0]) {
            Ok(next) => {
                if marks(lines[0], Boundary::End) {
                    lemma_event_log_of(state.severities, state.dates, state.messages);
                    assert(next.telegrams.last() == state.current());
                    assert forall|i: int| 0 <= i < next.telegrams.len() implies (
                    #[trigger] next.telegrams[i]).is_ordered() by {
                        if i < state.telegrams.len() {
                            assert(next.telegrams[i] == state.telegrams[i]);
                        }
                    }
                }
                lemma_run_keeps_order(next, lines.drop_first());
            },
            Err(_) => {},
        }
    }
}

/// The events of every telegram of a stream stand in ascending order of id,
/// in whatever order the stream gave their severities, dates and messages.
pub proof fn law_event_logs_are_ordered(text: Seq<u8>)
    ensures
        telegrams_of(text) matches Ok(telegrams) ==> all_ordered(telegrams),
{
    lemma_run_keeps_order(AccumulatorView::initial(), body_lines(text));
}

/// Values by id that are the same but for their order: if no id comes twice
/// in the one, none does in the other, and both hold the same ids and the
/// same values.
pub proof fn lemma_rearranged<T>(a: Seq<(u32, T)>, b: Seq<(u32, T)>)
    requires
        a.to_multiset() == b.to_multiset(),
        ids_of(a).no_duplicates(),
    ensures
        ids_of(b).no_duplicates(),
        same_ids(ids_of(a), ids_of(b)),
        a.len() == b.len(),
        forall|pair: (u32, T)| a.contains(pair) <==> b.contains(pair),
{
    to_multiset_len(a);
    to_multiset_len(b);
    assert forall|pair: (u32, T)| a.contains(pair) <==> b.contains(pair) by {
        to_multiset_contains(a, pair);
        to_multiset_contains(b, pair);
    }
    assert forall|x: u32| ids_of(a).contains(x) <==> ids_of(b).contains(x) by {
        if ids_of(a).contains(x) {
            let i = choose|i: int| 0 <= i < ids_of(a).len() && ids_of(a)[i] == x;
            assert(a.contains(a[i]));
            let j = choose|j: int| 0 <= j < b.len() && b[j] == a[i];
            assert(ids_of(b)[j] == x);
        }
        if ids_of(b).contains(x) {
            let i = choose|i: int| 0 <= i < ids_of(b).len() && ids_of(b)[i] == x;
            assert(b.contains(b[i]));
            let j = choose|j: int| 0 <= j < a.len() && a[j] == b[i];
            assert(ids_of(a)[j] == x);
        }
    }
    assert(ids_of(a).to_set() =~= ids_of(b).to_set());
    ids_of(a).unique_seq_to_set();
    ids_of(b).lemma_no_dup_set_cardinality();
}

/// The event log does not depend on the order in which the severities, the
/// dates and the messages arrive.
pub proof fn law_event_log_ignores_arrival_order(
    severities: Seq<(u32, Severity)>,
    dates: Seq<(u32, i64)>,
    messages: Seq<(u32, Seq<char>)>,
    severities_rearranged: Seq<(u32, Severity)>,
    dates_rearranged: Seq<(u32, i64)>,
    messages_rearranged: Seq<(u32, Seq<char>)>,
)
    requires
        severities.to_multiset() == severities_rearranged.to_multiset(),
        dates.to_multiset() == dates_rearranged.to_multiset(),
        messages.to_multiset() == messages_rearranged.to_multiset(),
        correlates(ids_of(severities), ids_of(dates), ids_of(messages)),
    ensures
        correlates(
            ids_of(severities_rearranged),
            ids_of(dates_rearranged),
            ids_of(messages_rearranged),
        ),
        event_log_of(severities_rearranged, dates_rearranged, messages_rearranged)
            == event_log_of(severities, dates, messages),
{
    lemma_rearranged(severities, severities_rearranged);
    lemma_rearranged(dates, dates_rearranged);
    lemma_rearranged(messages, messages_rearranged);
    lemma_event_log_of(severities, dates, messages);
    lemma_event_log_of(severities_rearranged, dates_rearranged, messages_rearranged);
    let log = event_log_of(severities, dates, messages);
    assert(is_event_log(log, severities_rearranged, dates_rearranged, messages_rearranged));
    lemma_event_log_unique(
        severities_rearranged,
        dates_rearranged,
        messages_rearranged,
        log,
        event_log_of(severities_rearranged, dates_rearranged, messages_rearranged),
    );
}

/// The number of lines that end a telegram.
pub open spec fn count_ends(lines: Seq<Seq<u8>>) -> nat
    decreases lines.len(),
{
    if lines.len() == 0 {
        0
    } else if marks(lines.last(), Boundary::End) {
        count_ends(lines.drop_last()) + 1
    } else {
        count_ends(lines.drop_last())
    }
}

/// Lines that are read without failure complete one telegram for each line
/// that ends a telegram.
pub proof fn lemma_one_telegram_per_end(state: AccumulatorView, lines: Seq<Seq<u8>>)
    ensures
        run(state, lines) matches Ok(reached) ==> reached.telegrams.len() == state.telegrams.len()
            + count_ends(lines),
    decreases lines.len(),
{
    if lines.len() > 0 {
        let before = lines.drop_last();
        let line = lines.last();
        assert(lines =~= before.push(line));
        lemma_run_push(state, before, line);
        lemma_one_telegram_per_end(state, before);
    }
}

/// A stream that is read without failure gives as many telegrams as it has
/// lines that end a telegram.
pub proof fn law_one_telegram_per_end_marker(text: Seq<u8>)
    ensures
        telegrams_of(text) matches Ok(telegrams) ==> telegrams.len() == count_ends(
            body_lines(text),
        ),
{
    lemma_one_telegram_per_end(AccumulatorView::initial(), body_lines(text));
}

/// Reading the same stream twice gives the same result twice: what `parse`
/// returns is determined by the bytes of the stream.
pub proof fn law_parsing_is_deterministic(
    text: Seq<u8>,
    again: Seq<u8>,
    first: Result<Vec<Telegram>, Failure>,
    second: Result<Vec<Telegram>, Failure>,
)
    requires
        text == again,
        parsed(first) == telegrams_of(text),
        parsed(second) == telegrams_of(again),
    ensures
        parsed(first) == parsed(second),
{
}

/// Whether `line` is an event line that gives the part of an event that
/// `part` names: `1` the severity, `2` the message, `3` the date.
pub open spec fn is_event_part(line: Seq<u8>, part: u8) -> bool {
    has_tag(line, TAG_EVENT) && line.len() > 4 && line[2] == part
}

/// The ids of the events of which a line has given the part that `part`
/// names since the last boundary line of `lines`, in the order of the lines.
pub open spec fn pending_ids(lines: Seq<Seq<u8>>, part: u8) -> Seq<u32>
    decreases lines.len(),
{
    if lines.len() == 0 {
        Seq::empty()
    } else if has_tag(lines.last(), TAG_BOUNDARY) {
        Seq::empty()
    } else if is_event_part(lines.last(), part) {
        pending_ids(lines.drop_last(), part).push(digit_value(lines.last()[4]).unwrap() as u32)
    } else {
        pending_ids(lines.drop_last(), part)
    }
}

/// After lines that were read without failure, the severities, dates and
/// messages that the accumulator holds are those of the events of which a
/// line has come since the last boundary line.
pub proof fn lemma_events_follow_lines(lines: Seq<Seq<u8>>)
    ensures
        run(AccumulatorView::initial(), lines) matches Ok(reached) ==> {
            &&& ids_of(reached.severities) == pending_ids(lines, '1' as u8)
            &&& ids_of(reached.messages) == pending_ids(lines, '2' as u8)
            &&& ids_of(reached.dates) == pending_ids(lines, '3' as u8)
        },
    decreases lines.len(),
{
    if lines.len() == 0 {
        let start = AccumulatorView::initial();
        assert(ids_of(start.severities) =~= Seq::<u32>::empty());
        assert(ids_of(start.messages) =~= Seq::<u32>::empty());
        assert(ids_of(start.dates) =~= Seq::<u32>::empty());
    } else {
        let before = lines.drop_last();
        let line = lines.last();
        assert(lines =~= before.push(line));
        lemma_run_push(AccumulatorView::initial(), before, line);
        lemma_events_follow_lines(before);
        if let Ok(reached) = run(AccumulatorView::initial(), lines) {
            let held = run(AccumulatorView::initial(), before).unwrap();
            if has_tag(line, TAG_BOUNDARY) {
                assert(ids_of(reached.severities) =~= Seq::<u32>::empty());
                assert(ids_of(reached.messages) =~= Seq::<u32>::empty());
                assert(ids_of(reached.dates) =~= Seq::<u32>::empty());
            } else if has_tag(line, TAG_EVENT) {
                line.index_of_last_ensures(')' as u8);
                let id = digit_value(line[4]).unwrap() as u32;
                match event_field_of(line).unwrap() {
                    EventFieldView::Severity { id: _, severity } => {
                        assert(ids_of(reached.severities) =~= ids_of(held.severities).push(id));
                    },
                    EventFieldView::Message { id: _, text } => {
                        assert(ids_of(reached.messages) =~= ids_of(held.messages).push(id));
                    },
                    EventFieldView::Date { id: _, date } => {
                        assert(ids_of(reached.dates) =~= ids_of(held.dates).push(id));
                    },
                }
            }
        }
    }
}

/// Whether `line`, taken by itself, is fit to stand inside a telegram: it
/// is empty, or bears an unknown tag, or marks a start, or has the shape of
/// its tag and, where it holds a date, a date that names a moment.
pub open spec fn is_sound(line: Seq<u8>) -> bool {
    if line.len() == 0 {
        true
    } else if line[0] == TAG_BOUNDARY {
        boundary_of(line) == Some(Boundary::Start)
    } else if line[0] == TAG_DATE {
        telegram_date_of(line) matches Some(date) && date.timestamp() is Some
    } else if line[0] == TAG_EVENT {
        match event_field_of(line) {
            Some(EventFieldView::Date { id, date }) => date.timestamp() is Some,
            Some(_) => true,
            None => false,
        }
    } else if line[0] == TAG_ELECTRICITY {
        measurement_of(line) is Some
    } else {
        true
    }
}

/// Whether `block` is one well-formed telegram: lines that are sound, then
/// the line that ends the telegram. The information-type marker comes once
/// at most, every electricity line comes behind it, and when the telegram
/// ends it has an electricity line and a date line, and its events
/// correlate. A start line inside the block begins the telegram anew.
pub open spec fn is_well_formed_telegram(block: Seq<Seq<u8>>) -> bool {
    &&& block.len() > 0
    &&& marks(block.last(), Boundary::End)
    &&& forall|i: int| 0 <= i < block.len() - 1 ==> is_sound(#[trigger] block[i])
    &&& forall|i: int|
        0 <= i < block.len() - 1 && has_tag(#[trigger] block[i], TAG_INFORMATION) ==> !pending(
            block.take(i),
            TAG_INFORMATION,
        )
    &&& forall|i: int|
        0 <= i < block.len() - 1 && has_tag(#[trigger] block[i], TAG_ELECTRICITY) ==> pending(
            block.take(i),
            TAG_INFORMATION,
        )
    &&& pending(block.drop_last(), TAG_ELECTRICITY)
    &&& pending(block.drop_last(), TAG_DATE)
    &&& correlates(
        pending_ids(block.drop_last(), '1' as u8),
        pending_ids(block.drop_last(), '3' as u8),
        pending_ids(block.drop_last(), '2' as u8),
    )
}

/// The telegram that a well-formed block amounts to when it is read by
/// itself.
pub open spec fn telegram_alone(block: Seq<Seq<u8>>) -> TelegramView {
    run(AccumulatorView::initial(), block.drop_last()).unwrap().current()
}

/// The lines of a well-formed telegram before its end are read without
/// failure.
pub proof fn lemma_body_is_accepted(block: Seq<Seq<u8>>, k: int)
    requires
        is_well_formed_telegram(block),
        0 <= k <= block.len() - 1,
    ensures
        run(AccumulatorView::initial(), block.take(k)) is Ok,
    decreases k,
{
    if k > 0 {
        lemma_body_is_accepted(block, k - 1);
        let before = block.take(k - 1);
        let line = block[k - 1];
        assert(block.take(k) =~= before.push(line));
        lemma_run_push(AccumulatorView::initial(), before, line);
        lemma_flags_follow_lines(before);
        assert(is_sound(line));
    }
}

/// A well-formed telegram read from the start completes exactly one
/// telegram and leaves nothing behind.
pub proof fn lemma_telegram_is_completed(block: Seq<Seq<u8>>)
    requires
        is_well_formed_telegram(block),
    ensures
        run(AccumulatorView::initial(), block) == Ok::<AccumulatorView, Failure>(
            AccumulatorView::cleared(seq![telegram_alone(block)]),
        ),
{
    let body = block.drop_last();
    assert(body =~= block.take(block.len() - 1));
    assert(block =~= body.push(block.last()));
    lemma_body_is_accepted(block, block.len() - 1);
    lemma_flags_follow_lines(body);
    lemma_events_follow_lines(body);
    lemma_run_push(AccumulatorView::initial(), body, block.last());
    let held = run(AccumulatorView::initial(), body).unwrap();
    lemma_one_telegram_per_end(AccumulatorView::initial(), body);
    lemma_no_end_in_body(block, block.len() - 1);
    assert(held.telegrams =~= Seq::<TelegramView>::empty());
    assert(held.telegrams.push(held.current()) =~= seq![telegram_alone(block)]);
}

/// No line of a well-formed telegram ends it but the last.
pub proof fn lemma_no_end_in_body(block: Seq<Seq<u8>>, k: int)
    requires
        is_well_formed_telegram(block),
        0 <= k <= block.len() - 1,
    ensures
        count_ends(block.take(k)) == 0,
    decreases k,
{
    if k > 0 {
        lemma_no_end_in_body(block, k - 1);
        assert(block.take(k).drop_last() =~= block.take(k - 1));
        assert(block.take(k).last() == block[k - 1]);
        assert(is_sound(block[k - 1]));
    }
}

/// The state with the telegrams `done` put before its own.
pub open spec fn behind(state: AccumulatorView, done: Seq<TelegramView>) -> AccumulatorView {
    AccumulatorView { telegrams: done + state.telegrams, ..state }
}

/// What a line does to the accumulator does not depend on the telegrams
/// that are complete.
pub proof fn lemma_step_behind(state: AccumulatorView, line: Seq<u8>, done: Seq<TelegramView>)
    ensures
        step(behind(state, done), line) == match step(state, line) {
            Ok(next) => Ok(behind(next, done)),
            Err(failure) => Err(failure),
        },
{
    if marks(line, Boundary::End) {
        assert((done + state.telegrams).push(state.current()) =~= done + state.telegrams.push(
            state.current(),
        ));
        assert(behind(state, done).current() == state.current());
    }
}

/// What lines do to the accumulator does not depend on the telegrams that
/// are complete.
pub proof fn lemma_run_behind(state: AccumulatorView, lines: Seq<Seq<u8>>, done: Seq<TelegramView>)
    ensures
        run(behind(state, done), lines) == match run(state, lines) {
            Ok(reached) => Ok(behind(reached, done)),
            Err(failure) => Err(failure),
        },
    decreases lines.len(),
{
    if lines.len() > 0 {
        lemma_step_behind(state, lines[0], done);
        match step(state, lines[0]) {
            Ok(next) => {
                lemma_run_behind(next, lines.drop_first(), done);
            },
            Err(_) => {},
        }
    }
}

/// The telegrams that well-formed blocks amount to, each read by itself.
pub open spec fn telegrams_alone(blocks: Seq<Seq<Seq<u8>>>) -> Seq<TelegramView> {
    Seq::new(blocks.len(), |i: int| telegram_alone(blocks[i]))
}

/// Well-formed telegrams read one after the other complete one telegram
/// each, in their order.
pub proof fn lemma_telegrams_in_order(blocks: Seq<Seq<Seq<u8>>>)
    requires
        forall|i: int| 0 <= i < blocks.len() ==> is_well_formed_telegram(#[trigger] blocks[i]),
    ensures
        run(AccumulatorView::initial(), blocks.flatten()) == Ok::<AccumulatorView, Failure>(
            AccumulatorView::cleared(telegrams_alone(blocks)),
        ),
    decreases blocks.len(),
{
    if blocks.len() == 0 {
        assert(telegrams_alone(blocks) =~= Seq::<TelegramView>::empty());
    } else {
        let first = blocks.first();
        let rest = blocks.drop_first();
        let start = AccumulatorView::initial();
        lemma_telegram_is_completed(first);
        assert forall|i: int| 0 <= i < rest.len() implies is_well_formed_telegram(
            #[trigger] rest[i],
        ) by {
            assert(rest[i] == blocks[i + 1]);
        }
        lemma_telegrams_in_order(rest);
        lemma_run_concat(start, first, rest.flatten());
        let done = seq![telegram_alone(first)];
        assert(behind(start, done) =~= AccumulatorView::cleared(done));
        lemma_run_behind(start, rest.flatten(), done);
        assert(done + telegrams_alone(rest) =~= telegrams_alone(blocks));
        assert(behind(AccumulatorView::cleared(telegrams_alone(rest)), done)
            =~= AccumulatorView::cleared(telegrams_alone(blocks)));
    }
}

/// Whether `line` tells nothing: it is empty or bears a tag that is not
/// known.
pub open spec fn is_silent(line: Seq<u8>) -> bool {
    ||| line.len() == 0
    ||| {
        &&& line[0] != TAG_BOUNDARY
        &&& line[0] != TAG_DATE
        &&& line[0] != TAG_EVENT
        &&& line[0] != TAG_INFORMATION
        &&& line[0] != TAG_ELECTRICITY
    }
}

/// Whether `line` leaves an accumulator that holds nothing of a current
/// telegram as it is: it tells nothing or marks a start.
pub open spec fn is_idle(line: Seq<u8>) -> bool {
    is_silent(line) || marks(line, Boundary::Start)
}

/// A line that is empty or bears an unknown tag is passed over: the stream
/// gives what it gives without that line.
pub proof fn law_silent_lines_are_passed_over(
    text: Seq<u8>,
    other: Seq<u8>,
    before: Seq<Seq<u8>>,
    line: Seq<u8>,
    after: Seq<Seq<u8>>,
)
    requires
        announces_v10(text),
        announces_v10(other),
        body_lines(text) == before.push(line) + after,
        body_lines(other) == before + after,
        is_silent(line),
    ensures
        telegrams_of(text) == telegrams_of(other),
{
    let start = AccumulatorView::initial();
    lemma_run_push(start, before, line);
    lemma_run_concat(start, before.push(line), after);
    lemma_run_concat(start, before, after);
}

/// Idle lines behind the last complete telegram change nothing.
pub proof fn lemma_idle_lines_change_nothing(done: Seq<TelegramView>, lines: Seq<Seq<u8>>)
    requires
        forall|i: int| 0 <= i < lines.len() ==> is_idle(#[trigger] lines[i]),
    ensures
        run(AccumulatorView::cleared(done), lines) == Ok::<AccumulatorView, Failure>(
            AccumulatorView::cleared(done),
        ),
    decreases lines.len(),
{
    if lines.len() > 0 {
        assert(is_idle(lines[0]));
        assert forall|i: int| 0 <= i < lines.drop_first().len() implies is_idle(
            #[trigger] lines.drop_first()[i],
        ) by {
            assert(lines.drop_first()[i] == lines[i + 1]);
        }
        lemma_idle_lines_change_nothing(done, lines.drop_first());
    }
}

/// A stream of well-formed telegrams is read without failure and gives one
/// telegram for each, in the order of the stream: the telegram that each
/// amounts to by itself. Idle lines may follow the last telegram.
pub proof fn law_telegrams_come_in_input_order(
    text: Seq<u8>,
    blocks: Seq<Seq<Seq<u8>>>,
    tail: Seq<Seq<u8>>,
)
    requires
        announces_v10(text),
        body_lines(text) == blocks.flatten() + tail,
        forall|i: int| 0 <= i < blocks.len() ==> is_well_formed_telegram(#[trigger] blocks[i]),
        forall|i: int| 0 <= i < tail.len() ==> is_idle(#[trigger] tail[i]),
    ensures
        telegrams_of(text) == Ok::<Seq<TelegramView>, Failure>(telegrams_alone(blocks)),
        telegrams_alone(blocks).len() == blocks.len(),
{
    lemma_telegrams_in_order(blocks);
    lemma_run_concat(AccumulatorView::initial(), blocks.flatten(), tail);
    lemma_idle_lines_change_nothing(telegrams_alone(blocks), tail);
}

/// A stream that holds one well-formed telegram is read without failure and
/// gives exactly one telegram. Idle lines may follow the telegram.
pub proof fn law_well_formed_telegram_is_accepted(
    text: Seq<u8>,
    block: Seq<Seq<u8>>,
    tail: Seq<Seq<u8>>,
)
    requires
        announces_v10(text),
        body_lines(text) == block + tail,
        is_well_formed_telegram(block),
        forall|i: int| 0 <= i < tail.len() ==> is_idle(#[trigger] tail[i]),
    ensures
        telegrams_of(text) matches Ok(telegrams) && telegrams.len() == 1 && telegrams[0]
            == telegram_alone(block),
{
    lemma_telegram_is_completed(block);
    lemma_run_concat(AccumulatorView::initial(), block, tail);
    lemma_idle_lines_change_nothing(seq![telegram_alone(block)], tail);
}

/// Whether the readings hold a decimal number for each of the three phases
/// of voltage, current and power, and for the two totals.
pub open spec fn is_full_reading(reading: ElectricityView) -> bool {
    reading.has_three_phases() && reading.holds_decimals()
}

/// Whether the readings of every one of the telegrams are full.
pub open spec fn all_full(telegrams: Seq<TelegramView>) -> bool {
    forall|i: int| 0 <= i < telegrams.len() ==> is_full_reading((#[trigger] telegrams[i]).electricity)
}

/// Reading lines keeps the readings of the current telegram and of the
/// complete ones full.
pub proof fn lemma_run_keeps_readings_full(state: AccumulatorView, lines: Seq<Seq<u8>>)
    requires
        is_full_reading(state.electricity),
        all_full(state.telegrams),
    ensures
        run(state, lines) matches Ok(reached) ==> is_full_reading(reached.electricity) && all_full(
            reached.telegrams,
        ),
    decreases lines.len(),
{
    if lines.len() > 0 {
        lemma_zero_is_decimal();
        match step(state, lines[0]) {
            Ok(next) => {
                if marks(lines[0], Boundary::End) {
                    assert forall|i: int| 0 <= i < next.telegrams.len() implies is_full_reading(
                        (#[trigger] next.telegrams[i]).electricity,
                    ) by {
                        if i < state.telegrams.len() {
                            assert(next.telegrams[i] == state.telegrams[i]);
                        }
                    }
                }
                lemma_run_keeps_readings_full(next, lines.drop_first());
            },
            Err(_) => {},
        }
    }
}

/// The readings of every telegram of a stream hold a decimal number for each
/// of the three phases of voltage, current and power, and for the two
/// totals: the text of the last line that gave the value, or `0.0`.
pub proof fn law_readings_are_full(text: Seq<u8>)
    ensures
        telegrams_of(text) matches Ok(telegrams) ==> all_full(telegrams),
{
    lemma_zero_is_decimal();
    lemma_run_keeps_readings_full(AccumulatorView::initial(), body_lines(text));
}

/// Whether two states are the same but for the order in which the
/// severities, the dates and the messages of the current telegram's events
/// arrived.
pub open spec fn alike(a: AccumulatorView, b: AccumulatorView) -> bool {
    &&& a.telegrams == b.telegrams
    &&& a.seen_information_type == b.seen_information_type
    &&& a.has_electricity == b.has_electricity
    &&& a.has_date == b.has_date
    &&& a.timestamp == b.timestamp
    &&& a.electricity == b.electricity
    &&& a.severities.to_multiset() == b.severities.to_multiset()
    &&& a.dates.to_multiset() == b.dates.to_multiset()
    &&& a.messages.to_multiset() == b.messages.to_multiset()
}

/// Whether two outcomes are the same failure, or states that are alike.
pub open spec fn alike_outcomes(
    a: Result<AccumulatorView, Failure>,
    b: Result<AccumulatorView, Failure>,
) -> bool {
    match (a, b) {
        (Ok(x), Ok(y)) => alike(x, y),
        (Err(e), Err(f)) => e == f,
        _ => false,
    }
}

/// Whether the events of two states that are alike correlate is the same,
/// and where they do, their event logs are the same.
pub proof fn lemma_alike_states_have_one_log(a: AccumulatorView, b: AccumulatorView)
    requires
        alike(a, b),
    ensures
        correlates(ids_of(a.severities), ids_of(a.dates), ids_of(a.messages)) == correlates(
            ids_of(b.severities),
            ids_of(b.dates),
            ids_of(b.messages),
        ),
        correlates(ids_of(a.severities), ids_of(a.dates), ids_of(a.messages)) ==> a.current()
            == b.current(),
{
    if correlates(ids_of(a.severities), ids_of(a.dates), ids_of(a.messages)) {
        law_event_log_ignores_arrival_order(
            a.severities,
            a.dates,
            a.messages,
            b.severities,
            b.dates,
            b.messages,
        );
    }
    if correlates(ids_of(b.severities), ids_of(b.dates), ids_of(b.messages)) {
        law_event_log_ignores_arrival_order(
            b.severities,
            b.dates,
            b.messages,
            a.severities,
            a.dates,
            a.messages,
        );
    }
}

/// A line does the same to two states that are alike.
pub proof fn lemma_step_alike(a: AccumulatorView, b: AccumulatorView, line: Seq<u8>)
    requires
        alike(a, b),
    ensures
        alike_outcomes(step(a, line), step(b, line)),
{
    broadcast use vstd::seq_lib::to_multiset_build;

    if has_tag(line, TAG_BOUNDARY) {
        lemma_alike_states_have_one_log(a, b);
    }
}

/// Lines do the same to two states that are alike.
pub proof fn lemma_run_alike(a: AccumulatorView, b: AccumulatorView, lines: Seq<Seq<u8>>)
    requires
        alike(a, b),
    ensures
        alike_outcomes(run(a, lines), run(b, lines)),
    decreases lines.len(),
{
    if lines.len() > 0 {
        lemma_step_alike(a, b, lines[0]);
        match (step(a, lines[0]), step(b, lines[0])) {
            (Ok(x), Ok(y)) => {
                lemma_run_alike(x, y, lines.drop_first());
            },
            _ => {},
        }
    }
}

/// Whether `line` is an event line that is fit to stand in a telegram.
pub open spec fn is_event_line(line: Seq<u8>) -> bool {
    has_tag(line, TAG_EVENT) && is_sound(line)
}

/// Whether every one of the lines is an event line that is fit to stand in
/// a telegram.
pub open spec fn all_event_lines(lines: Seq<Seq<u8>>) -> bool {
    forall|i: int| 0 <= i < lines.len() ==> is_event_line(#[trigger] lines[i])
}

/// Two event lines may change places.
pub proof fn lemma_event_lines_commute(state: AccumulatorView, x: Seq<u8>, y: Seq<u8>)
    requires
        is_event_line(x),
        is_event_line(y),
    ensures
        step(state, x) matches Ok(sx) && step(state, y) matches Ok(sy) && alike_outcomes(
            step(sx, y),
            step(sy, x),
        ) && step(sx, y) is Ok,
{
    broadcast use vstd::seq_lib::to_multiset_build;
    broadcast use vstd::multiset::group_multiset_axioms;

    let sx = step(state, x).unwrap();
    let sy = step(state, y).unwrap();
    let sxy = step(sx, y).unwrap();
    let syx = step(sy, x).unwrap();
    assert(sxy.severities.to_multiset() =~= syx.severities.to_multiset());
    assert(sxy.dates.to_multiset() =~= syx.dates.to_multiset());
    assert(sxy.messages.to_multiset() =~= syx.messages.to_multiset());
}

/// Event lines are read without failure.
pub proof fn lemma_event_lines_are_accepted(state: AccumulatorView, lines: Seq<Seq<u8>>)
    requires
        all_event_lines(lines),
    ensures
        run(state, lines) is Ok,
    decreases lines.len(),
{
    if lines.len() > 0 {
        assert(is_event_line(lines[0]));
        assert forall|i: int| 0 <= i < lines.drop_first().len() implies is_event_line(
            #[trigger] lines.drop_first()[i],
        ) by {
            assert(lines.drop_first()[i] == lines[i + 1]);
        }
        lemma_event_lines_are_accepted(step(state, lines[0]).unwrap(), lines.drop_first());
    }
}

/// An event line may come before other event lines or behind them.
pub proof fn lemma_event_line_may_come_last(
    state: AccumulatorView,
    line: Seq<u8>,
    lines: Seq<Seq<u8>>,
)
    requires
        is_event_line(line),
        all_event_lines(lines),
    ensures
        step(state, line) matches Ok(first) && alike_outcomes(
            run(first, lines),
            run(state, lines.push(line)),
        ) && run(first, lines) is Ok,
    decreases lines.len(),
{
    let first = step(state, line).unwrap();
    if lines.len() == 0 {
        assert(lines.push(line).drop_first() =~= lines);
        assert(lines.push(line)[0] == line);
    } else {
        let y = lines[0];
        let rest = lines.drop_first();
        assert(is_event_line(y));
        assert forall|i: int| 0 <= i < rest.len() implies is_event_line(#[trigger] rest[i]) by {
            assert(rest[i] == lines[i + 1]);
        }
        lemma_event_lines_commute(state, line, y);
        let sy = step(state, y).unwrap();
        let sxy = step(first, y).unwrap();
        let syx = step(sy, line).unwrap();
        // line, y, rest  ~  y, line, rest
        lemma_run_alike(sxy, syx, rest);
        // y, line, rest  ~  y, rest, line
        lemma_event_line_may_come_last(sy, line, rest);
        assert(lines.push(line)[0] == y);
        assert(lines.push(line).drop_first() =~= rest.push(line));
        lemma_event_lines_are_accepted(sxy, rest);
    }
}

/// An event line among event lines may be moved to their end.
pub proof fn lemma_event_line_may_move_to_the_end(
    state: AccumulatorView,
    lines: Seq<Seq<u8>>,
    k: int,
)
    requires
        all_event_lines(lines),
        0 <= k < lines.len(),
    ensures
        alike_outcomes(run(state, lines), run(state, lines.remove(k).push(lines[k]))),
        run(state, lines) is Ok,
{
    let front = lines.take(k);
    let back = lines.skip(k + 1);
    let line = lines[k];
    assert(lines =~= front.push(line) + back);
    assert(lines.remove(k).push(line) =~= front + back.push(line));
    assert(all_event_lines(front));
    assert forall|i: int| 0 <= i < back.len() implies is_event_line(#[trigger] back[i]) by {
        assert(back[i] == lines[k + 1 + i]);
    }
    lemma_event_lines_are_accepted(state, front);
    lemma_event_lines_are_accepted(state, lines);
    let reached = run(state, front).unwrap();
    lemma_run_push(state, front, line);
    lemma_run_concat(state, front.push(line), back);
    lemma_run_concat(state, front, back.push(line));
    lemma_event_line_may_come_last(reached, line, back);
}

/// The same event lines in another order leave states that are alike.
pub proof fn lemma_rearranged_event_lines(
    a: AccumulatorView,
    b: AccumulatorView,
    lines: Seq<Seq<u8>>,
    rearranged: Seq<Seq<u8>>,
)
    requires
        alike(a, b),
        all_event_lines(lines),
        lines.to_multiset() == rearranged.to_multiset(),
    ensures
        alike_outcomes(run(a, lines), run(b, rearranged)),
        run(a, lines) is Ok,
    decreases lines.len(),
{
    broadcast use vstd::multiset::group_multiset_axioms;

    to_multiset_len(lines);
    to_multiset_len(rearranged);
    assert forall|i: int| 0 <= i < rearranged.len() implies is_event_line(
        #[trigger] rearranged[i],
    ) by {
        let line = rearranged[i];
        assert(rearranged.contains(line));
        to_multiset_contains(rearranged, line);
        to_multiset_contains(lines, line);
        let j = choose|j: int| 0 <= j < lines.len() && lines[j] == line;
        assert(is_event_line(lines[j]));
    }
    if lines.len() == 0 {
        assert(rearranged =~= lines);
    } else {
        let line = lines.last();
        let shorter = lines.drop_last();
        assert(lines =~= shorter.push(line));
        assert(lines.contains(line));
        to_multiset_contains(lines, line);
        to_multiset_contains(rearranged, line);
        let k = choose|k: int| 0 <= k < rearranged.len() && rearranged[k] == line;
        let others = rearranged.remove(k);
        vstd::seq_lib::to_multiset_build(shorter, line);
        vstd::seq_lib::to_multiset_remove(rearranged, k);
        assert(shorter.to_multiset() =~= others.to_multiset());
        assert(all_event_lines(shorter));
        lemma_rearranged_event_lines(a, b, shorter, others);
        lemma_run_push(a, shorter, line);
        lemma_run_push(b, others, line);
        let ra = run(a, shorter).unwrap();
        lemma_event_lines_are_accepted(b, others);
        let rb = run(b, others).unwrap();
        lemma_step_alike(ra, rb, line);
        lemma_event_line_may_move_to_the_end(b, rearranged, k);
        lemma_event_lines_are_accepted(a, lines);
    }
}

/// The event lines of a telegram may come in any order: a stream gives what
/// it gives with the same event lines rearranged among themselves.
pub proof fn law_event_lines_may_come_in_any_order(
    text: Seq<u8>,
    other: Seq<u8>,
    before: Seq<Seq<u8>>,
    events: Seq<Seq<u8>>,
    rearranged: Seq<Seq<u8>>,
    after: Seq<Seq<u8>>,
)
    requires
        announces_v10(text),
        announces_v10(other),
        body_lines(text) == before + events + after,
        body_lines(other) == before + rearranged + after,
        all_event_lines(events),
        events.to_multiset() == rearranged.to_multiset(),
    ensures
        telegrams_of(text) == telegrams_of(other),
{
    let start = AccumulatorView::initial();
    lemma_run_concat(start, before + events, after);
    lemma_run_concat(start, before + rearranged, after);
    lemma_run_concat(start, before, events);
    lemma_run_concat(start, before, rearranged);
    match run(start, before) {
        Ok(reached) => {
            lemma_rearranged_event_lines(reached, reached, events, rearranged);
            let a = run(reached, events).unwrap();
            let b = run(reached, rearranged).unwrap();
            lemma_run_alike(a, b, after);
        },
        Err(_) => {},
    }
}

} // verus!
