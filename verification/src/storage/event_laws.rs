//! What replaying and importing an event log give back.
use vstd::prelude::*;
use vstd::utf8::valid_utf8;

use crate::json::{parsed_json, JsonView};
use crate::storage::event_log::{
    byte_lines, events_after, events_view, feed_at, parse_line, reading_of, unknown_events,
    warnings_after, EventLogError, EventLogPage, EventLogSummary, LegacyEventLog, LineReading,
    Reading, MAX_EVENT_LINE_BYTES, MAX_EVENT_PAGE, MAX_EVENT_WARNINGS,
};
use crate::storage::events::{
    has_item, is_bounded_copy, lemma_words_are_replayed, normalized, says, EventCursor, EventView,
    NormalizedLegacyEvent,
};

verus! {

// ---------------------------------------------------------------------------
// Lines
// ---------------------------------------------------------------------------
/// Nothing of a log is lost when it is cut into lines, and it is cut behind each line feed: the
/// first line ends in the first line feed, and the rest is what follows it.
pub proof fn lemma_log_is_cut_behind_line_feeds(line: Seq<u8>, rest: Seq<u8>)
    requires
        !line.contains(10u8),
    ensures
        byte_lines(line.push(10u8) + rest) == seq![line.push(10u8)] + byte_lines(rest),
        line.len() > 0 ==> byte_lines(line) == seq![line],
        byte_lines(Seq::<u8>::empty()).len() == 0,
{
    let all = line.push(10u8) + rest;
    lemma_first_feed(line, rest);
    lemma_no_feed(line);
    assert(all.take(line.len() as int + 1) =~= line.push(10u8));
    assert(all.skip(line.len() as int + 1) =~= rest);
}

proof fn lemma_first_feed(line: Seq<u8>, rest: Seq<u8>)
    requires
        !line.contains(10u8),
    ensures
        feed_at(line.push(10u8) + rest) == line.len(),
    decreases line.len(),
{
    let all = line.push(10u8) + rest;
    if line.len() > 0 {
        assert(line.contains(line[0]));
        let shorter = line.drop_first();
        assert(!shorter.contains(10u8)) by {
            if shorter.contains(10u8) {
                let k = choose|k: int| 0 <= k < shorter.len() && shorter[k] == 10u8;
                assert(line[k + 1] == 10u8);
            }
        }
        lemma_first_feed(shorter, rest);
        assert(all.drop_first() =~= shorter.push(10u8) + rest);
    }
}

proof fn lemma_no_feed(line: Seq<u8>)
    requires
        !line.contains(10u8),
    ensures
        feed_at(line) == line.len(),
    decreases line.len(),
{
    if line.len() > 0 {
        assert(line.contains(line[0]));
        let shorter = line.drop_first();
        assert(!shorter.contains(10u8)) by {
            if shorter.contains(10u8) {
                let k = choose|k: int| 0 <= k < shorter.len() && shorter[k] == 10u8;
                assert(line[k + 1] == 10u8);
            }
        }
        lemma_no_feed(shorter);
    }
}

/// The line holds these bytes, whatever ends it.
pub open spec fn holds(line: Seq<u8>, body: Seq<u8>) -> bool {
    &&& body.len() > 0 ==> body.last() != 10 && body.last() != 13
    &&& line == body || line == body.push(10u8) || line == body.push(13u8).push(10u8)
}

/// A line is read by what it holds: an object is an event, anything else is malformed, and a line
/// that holds nothing says nothing.
pub proof fn lemma_lines_are_read_as_they_stand(line: Vec<u8>, r: LineReading, body: Seq<u8>)
    requires
        call_ensures(parse_line, (&line,), r),
        holds(line@, body),
    ensures
        body.len() == 0 <==> r is Blank,
        0 < body.len() <= MAX_EVENT_LINE_BYTES && valid_utf8(body) ==> match parsed_json(body) {
            Ok(JsonView::Object(fields)) => r is Event && r->Event_0@ == JsonView::Object(fields),
            _ => r is Malformed,
        },
        body.len() > MAX_EVENT_LINE_BYTES ==> r is Malformed,
{
    assert(body.push(10u8).drop_last() =~= body);
    assert(body.push(13u8).push(10u8).drop_last() =~= body.push(13u8));
    assert(body.push(13u8).drop_last() =~= body);
}

// ---------------------------------------------------------------------------
// Replaying
// ---------------------------------------------------------------------------
proof fn lemma_event_is_among(lines: Seq<Seq<u8>>, after: EventCursor, k: int)
    requires
        lines.len() <= u64::MAX,
        0 <= k < lines.len(),
        k + 1 > after,
        reading_of(lines[k]) is Event,
    ensures
        events_after(lines, after).contains(
            normalized((k + 1) as EventCursor, reading_of(lines[k])->Event_0),
        ),
    decreases lines.len(),
{
    let rest = lines.drop_last();
    let before = events_after(rest, after);
    let all = events_after(lines, after);
    let event = normalized((k + 1) as EventCursor, reading_of(lines[k])->Event_0);
    if k < rest.len() {
        assert(rest[k] == lines[k]);
        lemma_event_is_among(rest, after, k);
        let i = choose|i: int| 0 <= i < before.len() && before[i] == event;
        assert(all[i] == before[i]);
    } else {
        assert(all[before.len() as int] == event);
    }
}

proof fn lemma_event_is_from_a_line(lines: Seq<Seq<u8>>, after: EventCursor, i: int)
    requires
        lines.len() <= u64::MAX,
        0 <= i < events_after(lines, after).len(),
    ensures
        ({
            let event = events_after(lines, after)[i];
            let k = event.source_line - 1;
            &&& 0 <= k < lines.len()
            &&& event.source_line > after
            &&& reading_of(lines[k]) is Event
            &&& event == normalized(event.source_line, reading_of(lines[k])->Event_0)
        }),
    decreases lines.len(),
{
    let rest = lines.drop_last();
    let before = events_after(rest, after);
    if i < before.len() {
        lemma_event_is_from_a_line(rest, after, i);
        assert(events_after(lines, after)[i] == before[i]);
        assert(rest[before[i].source_line - 1] == lines[before[i].source_line - 1]);
    }
}

/// Every line behind the cursor that holds an event is replayed, under its own number, and
/// nothing else is: what a replay gives back are these events in the order of their lines, cut
/// off at the limit.
pub proof fn lemma_replay_gives_the_events_of_the_lines(
    log: LegacyEventLog,
    after: EventCursor,
    limit: usize,
    r: Result<EventLogPage, EventLogError>,
    k: int,
)
    requires
        call_ensures(LegacyEventLog::replay, (&log, after, limit), r),
        log.lines().len() <= u64::MAX,
    ensures
        r is Ok,
        0 <= k < log.lines().len() && k + 1 > after && reading_of(log.lines()[k]) is Event
            && !r->Ok_0@.has_more ==> r->Ok_0@.events.contains(
            normalized((k + 1) as EventCursor, reading_of(log.lines()[k])->Event_0),
        ),
        0 <= k < log.lines().len() && k + 1 > after && k + 1 <= r->Ok_0@.next_cursor && reading_of(
            log.lines()[k],
        ) is Event ==> r->Ok_0@.events.contains(
            normalized((k + 1) as EventCursor, reading_of(log.lines()[k])->Event_0),
        ),
        0 <= k < r->Ok_0@.events.len() ==> {
            let event = r->Ok_0@.events[k];
            &&& after < event.source_line <= log.lines().len()
            &&& reading_of(log.lines()[event.source_line - 1]) is Event
            &&& event == normalized(
                event.source_line,
                reading_of(log.lines()[event.source_line - 1])->Event_0,
            )
        },
        0 < k < r->Ok_0@.events.len() ==> r->Ok_0@.events[k - 1].source_line
            < r->Ok_0@.events[k].source_line,
        r->Ok_0@.events.len() <= MAX_EVENT_PAGE,
        r->Ok_0@.has_more ==> r->Ok_0@.events.len() >= 1 && (1 <= limit <= MAX_EVENT_PAGE
            ==> r->Ok_0@.events.len() == limit),
        r->Ok_0@.has_more ==> exists|j: int|
            r->Ok_0@.next_cursor <= j < log.lines().len() && #[trigger] reading_of(
                log.lines()[j],
            ) is Event,
        r->Ok_0@.events.len() > 0 ==> r->Ok_0@.next_cursor == r->Ok_0@.events.last().source_line,
        r->Ok_0@.events.len() == 0 ==> r->Ok_0@.next_cursor >= after && r->Ok_0@.next_cursor
            >= log.lines().len(),
{
    let lines = log.lines();
    let page = r->Ok_0@;
    let all = events_after(lines, after);
    crate::storage::event_log::lemma_event_lines_ascend(lines, after);
    if page.has_more {
        let n = page.events.len() as int;
        assert(page.events[n - 1] == all[n - 1]);
        assert(page.events.last() == all[n - 1]);
        lemma_event_is_from_a_line(lines, after, n);
        assert(all[n - 1].source_line < all[n].source_line);
        assert(reading_of(lines[all[n].source_line - 1]) is Event);
    }
    if 0 <= k < lines.len() && k + 1 > after && reading_of(lines[k]) is Event {
        lemma_event_is_among(lines, after, k);
        let event = normalized((k + 1) as EventCursor, reading_of(lines[k])->Event_0);
        let i = choose|i: int| 0 <= i < all.len() && all[i] == event;
        if k + 1 <= page.next_cursor && i >= page.events.len() {
            let last = page.events.len() - 1;
            assert(page.events[last] == all[last]);
            assert(all[last].source_line < all[i].source_line);
        }
        if i < page.events.len() {
            assert(page.events[i] == event);
        }
    }
    if 0 <= k < page.events.len() {
        assert(page.events[k] == all[k]);
        lemma_event_is_from_a_line(lines, after, k);
        if k > 0 {
            assert(page.events[k - 1] == all[k - 1]);
        }
    }
}

/// What the user or the assistant said on a line of the log is in the import, under the number of
/// that line, word for word up to the limit.
pub proof fn lemma_what_was_said_is_imported(
    log: LegacyEventLog,
    r: Vec<NormalizedLegacyEvent>,
    k: int,
    body: Seq<u8>,
    event: JsonView,
    name: Seq<char>,
    value: JsonView,
    text: Seq<char>,
)
    requires
        call_ensures(LegacyEventLog::normalized_events, (&log,), r),
        log.lines().len() <= u64::MAX,
        0 <= k < log.lines().len(),
        holds(log.lines()[k], body),
        0 < body.len() <= MAX_EVENT_LINE_BYTES,
        valid_utf8(body),
        parsed_json(body) == Ok::<JsonView, Seq<char>>(event),
        event.names_once(),
        event.has(name, value),
        forall|item: JsonView| !has_item(event, item),
        name == "message"@ || name == "content"@,
        says(value, text),
    ensures
        exists|i: int|
            0 <= i < r@.len() && (#[trigger] r@[i])@.source_line == k + 1
                && r@[i]@.fields.dom().contains(name) && is_bounded_copy(r@[i]@.fields[name], text),
{
    let lines = log.lines();
    assert(body.push(10u8).drop_last() =~= body);
    assert(body.push(13u8).push(10u8).drop_last() =~= body.push(13u8));
    assert(body.push(13u8).drop_last() =~= body);
    assert(reading_of(lines[k]) == Reading::Event(event));
    lemma_event_is_among(lines, 0, k);
    let wanted = normalized((k + 1) as EventCursor, event);
    lemma_words_are_replayed((k + 1) as EventCursor, event, name, value, text);
    let all = events_after(lines, 0);
    let i = choose|i: int| 0 <= i < all.len() && all[i] == wanted;
    assert(events_view(r@)[i] == r@[i]@);
}

// ---------------------------------------------------------------------------
// Counting
// ---------------------------------------------------------------------------
/// How many lines hold nothing.
pub open spec fn blank_lines(lines: Seq<Seq<u8>>) -> nat
    decreases lines.len(),
{
    if lines.len() == 0 {
        0
    } else {
        blank_lines(lines.drop_last()) + if reading_of(lines.last()) is Blank {
            1nat
        } else {
            0nat
        }
    }
}

proof fn lemma_lines_are_counted(lines: Seq<Seq<u8>>)
    ensures
        events_after(lines, 0).len() + warnings_after(lines, 0).len() + blank_lines(lines)
            == lines.len(),
    decreases lines.len(),
{
    if lines.len() > 0 {
        lemma_lines_are_counted(lines.drop_last());
    }
}

/// Every line of a log counts once in its summary, as an event, as malformed or as blank; of the
/// malformed ones no more than the limit are counted.
pub proof fn lemma_summary_counts_every_line(
    log: LegacyEventLog,
    r: Result<EventLogSummary, EventLogError>,
)
    requires
        call_ensures(LegacyEventLog::summary, (&log,), r),
        log.lines().len() <= u64::MAX,
    ensures
        r is Ok,
        r->Ok_0@.line_count == log.lines().len(),
        r->Ok_0@.malformed_line_count < MAX_EVENT_WARNINGS ==> r->Ok_0@.event_count
            + r->Ok_0@.malformed_line_count + blank_lines(log.lines()) == log.lines().len(),
        r->Ok_0@.event_count + r->Ok_0@.malformed_line_count + blank_lines(log.lines())
            <= log.lines().len(),
        r->Ok_0@.warnings.len() == r->Ok_0@.malformed_line_count,
        r->Ok_0@.unknown_event_count <= r->Ok_0@.event_count,
{
    lemma_lines_are_counted(log.lines());
    lemma_unknown_are_events(events_after(log.lines(), 0));
}

proof fn lemma_unknown_are_events(events: Seq<EventView>)
    ensures
        unknown_events(events) <= events.len(),
    decreases events.len(),
{
    if events.len() > 0 {
        lemma_unknown_are_events(events.drop_last());
    }
}

proof fn lemma_warning_is_among(lines: Seq<Seq<u8>>, after: EventCursor, k: int)
    requires
        lines.len() <= u64::MAX,
        0 <= k < lines.len(),
        k + 1 > after,
        reading_of(lines[k]) is Malformed,
    ensures
        exists|i: int|
            0 <= i < warnings_after(lines, after).len() && (#[trigger] warnings_after(
                lines,
                after,
            )[i]).line == k + 1,
    decreases lines.len(),
{
    let rest = lines.drop_last();
    let before = warnings_after(rest, after);
    let all = warnings_after(lines, after);
    if k < rest.len() {
        assert(rest[k] == lines[k]);
        lemma_warning_is_among(rest, after, k);
        let i = choose|i: int| 0 <= i < before.len() && (#[trigger] before[i]).line == k + 1;
        assert(all[i] == before[i]);
    } else {
        assert(all[before.len() as int].line == k + 1);
    }
}

/// A malformed line behind the cursor is warned of by its number, as long as there are not too
/// many of them.
pub proof fn lemma_malformed_lines_are_warned_of(
    log: LegacyEventLog,
    after: EventCursor,
    limit: usize,
    r: Result<EventLogPage, EventLogError>,
    k: int,
)
    requires
        call_ensures(LegacyEventLog::replay, (&log, after, limit), r),
        log.lines().len() <= u64::MAX,
        0 <= k < log.lines().len(),
        k + 1 > after,
        reading_of(log.lines()[k]) is Malformed,
        r->Ok_0@.warnings.len() < MAX_EVENT_WARNINGS,
    ensures
        exists|i: int|
            0 <= i < r->Ok_0@.warnings.len() && (#[trigger] r->Ok_0@.warnings[i]).line == k + 1,
{
    let lines = log.lines();
    lemma_warning_is_among(lines, after, k);
    let all = warnings_after(lines, after);
    assert(all.len() <= MAX_EVENT_WARNINGS);
    let i = choose|i: int| 0 <= i < all.len() && (#[trigger] all[i]).line == k + 1;
    assert(r->Ok_0@.warnings[i].line == k + 1);
}

} // verus!
