//! Read-only replay of a legacy event log.
//!
//! A log is an append-only source of one JSON object per line. It is never written; a line that
//! is not an event costs a warning and nothing else.
use vstd::prelude::*;
use vstd::string::StringExecFns;
use vstd::utf8::valid_utf8;

use crate::fingerprint::{fingerprint_text, fnv1a, show_fingerprint, stable_fingerprint};
use crate::json::{parse_json, parsed_json, Json, JsonView};
use crate::paths::{file_name, file_name_of};
use crate::storage::events::{
    normalize_event, normalized, EventCursor, EventView, LegacyEventKind, NormalizedLegacyEvent,
};
use crate::storage::listing::{ends_in, name_ends_in};
use crate::storage::store::{StorageError, StorageErrorView};
use crate::text::{decimal, decimal_of, utf8_text};

verus! {

pub const MAX_EVENT_LINE_BYTES: usize = 1024 * 1024;

pub const MAX_EVENT_PAGE: usize = 128;

pub const MAX_EVENT_WARNINGS: usize = 128;

// ---------------------------------------------------------------------------
// Lines
// ---------------------------------------------------------------------------
/// How many bytes stand before the first line feed; all of them when there is none.
pub open spec fn feed_at(bytes: Seq<u8>) -> nat
    decreases bytes.len(),
{
    if bytes.len() == 0 || bytes[0] == 10 {
        0
    } else {
        1 + feed_at(bytes.drop_first())
    }
}

/// The physical lines of a log, each with its line feed.
pub open spec fn byte_lines(bytes: Seq<u8>) -> Seq<Seq<u8>>
    decreases bytes.len(),
{
    let k = feed_at(bytes) as int;
    if bytes.len() == 0 {
        seq![]
    } else if k >= bytes.len() {
        seq![bytes]
    } else {
        seq![bytes.take(k + 1)] + byte_lines(bytes.skip(k + 1))
    }
}

proof fn lemma_feed_at(bytes: Seq<u8>)
    ensures
        feed_at(bytes) <= bytes.len(),
        feed_at(bytes) < bytes.len() ==> bytes[feed_at(bytes) as int] == 10,
    decreases bytes.len(),
{
    if bytes.len() == 0 || bytes[0] == 10 {
    } else {
        lemma_feed_at(bytes.drop_first());
    }
}

proof fn lemma_line_count(bytes: Seq<u8>)
    ensures
        byte_lines(bytes).len() <= bytes.len(),
    decreases bytes.len(),
{
    lemma_feed_at(bytes);
    let k = feed_at(bytes) as int;
    if 0 < bytes.len() && k < bytes.len() {
        lemma_line_count(bytes.skip(k + 1));
    }
}

pub open spec fn chunks(lines: Seq<Vec<u8>>) -> Seq<Seq<u8>> {
    lines.map_values(|line: Vec<u8>| line@)
}

fn copy_bytes(bytes: &Vec<u8>, from: usize, to: usize) -> (r: Vec<u8>)
    requires
        from <= to <= bytes@.len(),
    ensures
        r@ == bytes@.subrange(from as int, to as int),
{
    let mut out: Vec<u8> = Vec::new();
    let mut i: usize = from;
    assert(out@ =~= bytes@.subrange(from as int, from as int));
    while i < to
        invariant
            from <= i <= to <= bytes@.len(),
            out@ == bytes@.subrange(from as int, i as int),
        decreases to - i,
    {
        out.push(bytes[i]);
        assert(out@ =~= bytes@.subrange(from as int, i + 1));
        i += 1;
    }
    out
}

fn find_feed(bytes: &Vec<u8>, from: usize) -> (r: usize)
    requires
        from <= bytes@.len(),
    ensures
        r == from + feed_at(bytes@.skip(from as int)),
        r <= bytes@.len(),
{
    let mut i: usize = from;
    while i < bytes.len() && bytes[i] != 10
        invariant
            from <= i <= bytes@.len(),
            from + feed_at(bytes@.skip(from as int)) == i + feed_at(bytes@.skip(i as int)),
        decreases bytes@.len() - i,
    {
        assert(bytes@.skip(i as int).drop_first() =~= bytes@.skip(i + 1));
        i += 1;
    }
    i
}

/// The physical lines of a log.
pub(crate) fn split_lines(bytes: &Vec<u8>) -> (r: Vec<Vec<u8>>)
    ensures
        chunks(r@) == byte_lines(bytes@),
{
    let total: usize = bytes.len();
    let mut lines: Vec<Vec<u8>> = Vec::new();
    let mut i: usize = 0;
    proof {
        assert(bytes@.skip(0) =~= bytes@);
        assert(byte_lines(bytes@) =~= chunks(lines@) + byte_lines(bytes@));
    }
    while i < total
        invariant
            total == bytes@.len(),
            i <= total,
            byte_lines(bytes@) == chunks(lines@) + byte_lines(bytes@.skip(i as int)),
        decreases total - i,
    {
        let ghost before = lines@;
        let ghost rest = bytes@.skip(i as int);
        proof {
            lemma_feed_at(rest);
        }
        let feed = find_feed(bytes, i);
        if feed == total {
            let line = copy_bytes(bytes, i, total);
            lines.push(line);
            proof {
                assert(line@ =~= rest);
                assert(chunks(lines@) =~= chunks(before).push(rest));
                assert(chunks(before) + seq![rest] =~= chunks(before).push(rest));
            }
            return lines;
        }
        let line = copy_bytes(bytes, i, feed + 1);
        lines.push(line);
        proof {
            let k = feed - i;
            assert(line@ =~= rest.take(k + 1));
            assert(chunks(lines@) =~= chunks(before).push(line@));
            assert(rest.skip(k + 1) =~= bytes@.skip(feed + 1));
            let tail = byte_lines(bytes@.skip(feed + 1));
            assert(chunks(before) + (seq![rest.take(k + 1)] + tail) =~= chunks(lines@) + tail);
        }
        i = feed + 1;
    }
    proof {
        assert(bytes@.skip(i as int) =~= Seq::<u8>::empty());
        assert(chunks(lines@) + byte_lines(bytes@.skip(i as int)) =~= chunks(lines@));
    }
    lines
}

/// A line without its line ending.
pub open spec fn line_body(line: Seq<u8>) -> Seq<u8> {
    let body = if line.len() > 0 && line.last() == 10 {
        line.drop_last()
    } else {
        line
    };
    if body.len() > 0 && body.last() == 13 {
        body.drop_last()
    } else {
        body
    }
}

/// What a line holds.
pub enum Reading {
    Blank,
    Malformed(Seq<char>),
    Event(JsonView),
}

pub open spec fn reading_of(line: Seq<u8>) -> Reading {
    let body = line_body(line);
    if body.len() == 0 {
        Reading::Blank
    } else if body.len() > MAX_EVENT_LINE_BYTES {
        Reading::Malformed("line exceeds the event size limit"@)
    } else if !valid_utf8(body) {
        Reading::Malformed("line is not valid UTF-8"@)
    } else {
        parsed_reading(parsed_json(body))
    }
}

/// What a line holds, given what its text was parsed as.
pub open spec fn parsed_reading(parsed: Result<JsonView, Seq<char>>) -> Reading {
    match parsed {
        Err(_) => Reading::Malformed("line is not valid JSON"@),
        Ok(value) => if value is Object {
            Reading::Event(value)
        } else {
            Reading::Malformed("event record must be a JSON object"@)
        },
    }
}

/// What a line holds, as a value.
pub enum LineReading {
    Blank,
    Malformed(&'static str),
    Event(Json),
}

pub open spec fn reads_as(found: LineReading, expected: Reading) -> bool {
    match (found, expected) {
        (LineReading::Blank, Reading::Blank) => true,
        (LineReading::Malformed(message), Reading::Malformed(text)) => message@ == text,
        (LineReading::Event(value), Reading::Event(event)) => value@ == event && event is Object,
        _ => false,
    }
}

/// What a line holds, given what its text was parsed as.
pub fn judge_line(parsed: Result<Json, String>) -> (r: LineReading)
    ensures
        reads_as(
            r,
            parsed_reading(
                match parsed {
                    Ok(value) => Ok(value@),
                    Err(message) => Err(message@),
                },
            ),
        ),
{
    match parsed {
        Err(_) => LineReading::Malformed("line is not valid JSON"),
        Ok(value) => if value.is_object() {
            LineReading::Event(value)
        } else {
            LineReading::Malformed("event record must be a JSON object")
        },
    }
}

pub fn parse_line(line: &Vec<u8>) -> (r: LineReading)
    ensures
        reads_as(r, reading_of(line@)),
{
    let mut end: usize = line.len();
    if end > 0 && line[end - 1] == 10 {
        end -= 1;
    }
    if end > 0 && line[end - 1] == 13 {
        end -= 1;
    }
    let body = copy_bytes(line, 0, end);
    assert(body@ =~= line_body(line@));
    if body.len() == 0 {
        return LineReading::Blank;
    }
    if body.len() > MAX_EVENT_LINE_BYTES {
        return LineReading::Malformed("line exceeds the event size limit");
    }
    if utf8_text(body.clone()).is_err() {
        return LineReading::Malformed("line is not valid UTF-8");
    }
    judge_line(parse_json(body.as_slice()))
}

// ---------------------------------------------------------------------------
// Events and warnings
// ---------------------------------------------------------------------------
#[derive(Clone, Debug, PartialEq, Eq)]
pub struct EventLogWarning {
    line: EventCursor,
    message: String,
}

pub struct WarningView {
    pub line: EventCursor,
    pub message: Seq<char>,
}

impl View for EventLogWarning {
    type V = WarningView;

    closed spec fn view(&self) -> WarningView {
        WarningView { line: self.line, message: self.message@ }
    }
}

impl EventLogWarning {
    pub fn new(line: EventCursor, message: &str) -> (r: Self)
        ensures
            r@ == (WarningView { line, message: message@ }),
    {
        EventLogWarning { line, message: message.to_owned() }
    }

    pub fn line(&self) -> (r: EventCursor)
        ensures
            r == self@.line,
    {
        self.line
    }

    pub fn message(&self) -> (r: &str)
        ensures
            r@ == self@.message,
    {
        self.message.as_str()
    }
}

pub open spec fn warnings_view(warnings: Seq<EventLogWarning>) -> Seq<WarningView> {
    warnings.map_values(|warning: EventLogWarning| warning@)
}

pub fn copy_warnings(warnings: &Vec<EventLogWarning>) -> (r: Vec<EventLogWarning>)
    ensures
        warnings_view(r@) == warnings_view(warnings@),
{
    let mut out: Vec<EventLogWarning> = Vec::new();
    let mut i: usize = 0;
    assert(warnings_view(out@) =~= warnings_view(warnings@).take(0));
    while i < warnings.len()
        invariant
            i <= warnings@.len(),
            warnings_view(out@) == warnings_view(warnings@).take(i as int),
        decreases warnings@.len() - i,
    {
        let ghost before = out@;
        let copy = EventLogWarning::new(warnings[i].line, warnings[i].message.as_str());
        out.push(copy);
        proof {
            assert(warnings_view(out@) =~= warnings_view(before).push(copy@));
            assert(warnings_view(warnings@).take(i + 1) =~= warnings_view(warnings@).take(
                i as int,
            ).push(warnings@[i as int]@));
        }
        i += 1;
    }
    assert(warnings_view(warnings@).take(i as int) =~= warnings_view(warnings@));
    out
}

pub open spec fn events_view(events: Seq<NormalizedLegacyEvent>) -> Seq<EventView> {
    events.map_values(|event: NormalizedLegacyEvent| event@)
}

/// The events on the lines behind the cursor, in order.
pub open spec fn events_after(lines: Seq<Seq<u8>>, after: EventCursor) -> Seq<EventView>
    decreases lines.len(),
{
    if lines.len() == 0 {
        seq![]
    } else {
        let before = events_after(lines.drop_last(), after);
        match reading_of(lines.last()) {
            Reading::Event(event) if lines.len() > after => before.push(
                normalized(lines.len() as EventCursor, event),
            ),
            _ => before,
        }
    }
}

/// What is wrong with the lines behind the cursor, in order.
pub open spec fn warnings_after(lines: Seq<Seq<u8>>, after: EventCursor) -> Seq<WarningView>
    decreases lines.len(),
{
    if lines.len() == 0 {
        seq![]
    } else {
        let before = warnings_after(lines.drop_last(), after);
        match reading_of(lines.last()) {
            Reading::Malformed(message) if lines.len() > after => before.push(
                WarningView { line: lines.len() as EventCursor, message },
            ),
            _ => before,
        }
    }
}

/// The first warnings; the rest is not kept.
pub open spec fn kept_warnings(warnings: Seq<WarningView>) -> Seq<WarningView> {
    if warnings.len() <= MAX_EVENT_WARNINGS {
        warnings
    } else {
        warnings.take(MAX_EVENT_WARNINGS as int)
    }
}

pub open spec fn unknown_events(events: Seq<EventView>) -> nat
    decreases events.len(),
{
    if events.len() == 0 {
        0
    } else {
        unknown_events(events.drop_last()) + if events.last().kind == LegacyEventKind::Unknown {
            1nat
        } else {
            0nat
        }
    }
}

#[derive(Debug)]
pub struct EventLogPage {
    events: Vec<NormalizedLegacyEvent>,
    next_cursor: EventCursor,
    has_more: bool,
    warnings: Vec<EventLogWarning>,
}

pub struct PageView {
    pub events: Seq<EventView>,
    pub next_cursor: EventCursor,
    pub has_more: bool,
    pub warnings: Seq<WarningView>,
}

impl View for EventLogPage {
    type V = PageView;

    closed spec fn view(&self) -> PageView {
        PageView {
            events: events_view(self.events@),
            next_cursor: self.next_cursor,
            has_more: self.has_more,
            warnings: warnings_view(self.warnings@),
        }
    }
}

impl EventLogPage {
    pub fn events(&self) -> (r: &Vec<NormalizedLegacyEvent>)
        ensures
            events_view(r@) == self@.events,
    {
        &self.events
    }

    pub fn next_cursor(&self) -> (r: EventCursor)
        ensures
            r == self@.next_cursor,
    {
        self.next_cursor
    }

    pub fn has_more(&self) -> (r: bool)
        ensures
            r == self@.has_more,
    {
        self.has_more
    }

    pub fn warnings(&self) -> (r: &Vec<EventLogWarning>)
        ensures
            warnings_view(r@) == self@.warnings,
    {
        &self.warnings
    }
}

pub open spec fn page_limit(limit: usize) -> usize {
    if limit < 1 {
        1
    } else if limit > MAX_EVENT_PAGE {
        MAX_EVENT_PAGE
    } else {
        limit
    }
}

/// One page of a replay: the first events behind the cursor, the line of the last one, and
/// whether there are more. Without any event the cursor moves to the end.
pub open spec fn page_of(lines: Seq<Seq<u8>>, after: EventCursor, limit: usize) -> PageView {
    let all = events_after(lines, after);
    let size = page_limit(limit) as int;
    let events = if all.len() > size {
        all.take(size)
    } else {
        all
    };
    PageView {
        events,
        next_cursor: if events.len() > 0 {
            events.last().source_line
        } else if lines.len() > after {
            lines.len() as EventCursor
        } else {
            after
        },
        has_more: all.len() > size,
        warnings: kept_warnings(warnings_after(lines, after)),
    }
}

#[derive(Clone, Debug, PartialEq, Eq)]
pub struct EventLogSummary {
    line_count: EventCursor,
    event_count: usize,
    malformed_line_count: usize,
    unknown_event_count: usize,
    warnings: Vec<EventLogWarning>,
}

pub struct SummaryView {
    pub line_count: EventCursor,
    pub event_count: nat,
    pub malformed_line_count: nat,
    pub unknown_event_count: nat,
    pub warnings: Seq<WarningView>,
}

impl View for EventLogSummary {
    type V = SummaryView;

    closed spec fn view(&self) -> SummaryView {
        SummaryView {
            line_count: self.line_count,
            event_count: self.event_count as nat,
            malformed_line_count: self.malformed_line_count as nat,
            unknown_event_count: self.unknown_event_count as nat,
            warnings: warnings_view(self.warnings@),
        }
    }
}

impl EventLogSummary {
    pub fn line_count(&self) -> (r: EventCursor)
        ensures
            r == self@.line_count,
    {
        self.line_count
    }

    pub fn event_count(&self) -> (r: usize)
        ensures
            r == self@.event_count,
    {
        self.event_count
    }

    pub fn malformed_line_count(&self) -> (r: usize)
        ensures
            r == self@.malformed_line_count,
    {
        self.malformed_line_count
    }

    pub fn unknown_event_count(&self) -> (r: usize)
        ensures
            r == self@.unknown_event_count,
    {
        self.unknown_event_count
    }

    pub fn warnings(&self) -> (r: &Vec<EventLogWarning>)
        ensures
            warnings_view(r@) == self@.warnings,
    {
        &self.warnings
    }
}

/// What a whole log holds. Malformed lines are counted as far as they are kept as warnings.
pub open spec fn summary_of(lines: Seq<Seq<u8>>) -> SummaryView {
    let events = events_after(lines, 0);
    let warnings = kept_warnings(warnings_after(lines, 0));
    SummaryView {
        line_count: lines.len() as EventCursor,
        event_count: events.len(),
        malformed_line_count: warnings.len(),
        unknown_event_count: unknown_events(events),
        warnings,
    }
}

// ---------------------------------------------------------------------------
// The log
// ---------------------------------------------------------------------------
#[derive(Clone, Debug)]
pub enum EventLogError {
    Storage(StorageError),
    SourceMissing(String),
    UnsupportedFormat(String),
    InvalidUtf8 { line: EventCursor },
    Serialize(String),
}

pub enum EventLogErrorView {
    Storage(StorageErrorView),
    SourceMissing(Seq<char>),
    UnsupportedFormat(Seq<char>),
    InvalidUtf8 { line: EventCursor },
    Serialize(Seq<char>),
}

impl View for EventLogError {
    type V = EventLogErrorView;

    open spec fn view(&self) -> EventLogErrorView {
        match *self {
            EventLogError::Storage(error) => EventLogErrorView::Storage(error@),
            EventLogError::SourceMissing(path) => EventLogErrorView::SourceMissing(path@),
            EventLogError::UnsupportedFormat(path) => EventLogErrorView::UnsupportedFormat(path@),
            EventLogError::InvalidUtf8 { line } => EventLogErrorView::InvalidUtf8 { line },
            EventLogError::Serialize(message) => EventLogErrorView::Serialize(message@),
        }
    }
}

impl EventLogErrorView {
    /// The sentence shown to people.
    pub open spec fn text(self) -> Seq<char> {
        match self {
            EventLogErrorView::Storage(error) => error.text(),
            EventLogErrorView::SourceMissing(path) => "legacy event log not found: "@ + path,
            EventLogErrorView::UnsupportedFormat(path) =>
                "unsupported legacy event log format: "@ + path,
            EventLogErrorView::InvalidUtf8 { line } => "legacy event log line "@ + decimal_of(
                line as nat,
            ) + " is not UTF-8"@,
            EventLogErrorView::Serialize(message) => "event log serialization failed: "@ + message,
        }
    }
}

impl EventLogError {
    /// The sentence shown to people.
    pub fn to_string(&self) -> (r: String)
        ensures
            r@ == self@.text(),
    {
        match self {
            EventLogError::Storage(error) => error.to_string(),
            EventLogError::SourceMissing(path) => {
                let mut out = "legacy event log not found: ".to_owned();
                out.append(path.as_str());
                out
            },
            EventLogError::UnsupportedFormat(path) => {
                let mut out = "unsupported legacy event log format: ".to_owned();
                out.append(path.as_str());
                out
            },
            EventLogError::InvalidUtf8 { line } => {
                let mut out = "legacy event log line ".to_owned();
                out.append(decimal(*line).as_str());
                out.append(" is not UTF-8");
                out
            },
            EventLogError::Serialize(message) => {
                let mut out = "event log serialization failed: ".to_owned();
                out.append(message.as_str());
                out
            },
        }
    }
}

/// The path names a file with the extension of an event log.
pub open spec fn is_event_log_path(path: Seq<char>) -> bool {
    match file_name_of(path) {
        Some(name) => ends_in(name, ".jsonl"@, true),
        None => false,
    }
}

pub fn names_event_log(path: &str) -> (r: bool)
    ensures
        r == is_event_log_path(path@),
{
    match file_name(path) {
        Some(name) => name_ends_in(name.as_str(), ".jsonl", true),
        None => false,
    }
}

/// Bounded, read-only view of one legacy event log.
#[derive(Debug)]
pub struct LegacyEventLog {
    path: String,
    bytes: Vec<u8>,
    fingerprint: u64,
}

impl LegacyEventLog {
    pub closed spec fn spec_path(self) -> Seq<char> {
        self.path@
    }

    pub closed spec fn content(self) -> Seq<u8> {
        self.bytes@
    }

    /// The physical lines of the log.
    pub open spec fn lines(self) -> Seq<Seq<u8>> {
        byte_lines(self.content())
    }

    #[verifier::type_invariant]
    closed spec fn wf(self) -> bool {
        self.fingerprint == fnv1a(self.bytes@)
    }

    /// The log at a path, given the bytes that were read from it.
    pub fn open(path: &str, content: Option<Vec<u8>>) -> (r: Result<Self, EventLogError>)
        ensures
            match r {
                Ok(log) => is_event_log_path(path@) && content is Some && log.spec_path() == path@
                    && log.content() == content->0@,
                Err(error) => if !is_event_log_path(path@) {
                    error@ == EventLogErrorView::UnsupportedFormat(path@)
                } else {
                    content is None && error@ == EventLogErrorView::SourceMissing(path@)
                },
            },
    {
        if !names_event_log(path) {
            return Err(EventLogError::UnsupportedFormat(path.to_owned()));
        }
        match content {
            Some(bytes) => {
                let fingerprint: u64 = stable_fingerprint(&bytes);
                Ok(LegacyEventLog { path: path.to_owned(), bytes, fingerprint })
            },
            None => Err(EventLogError::SourceMissing(path.to_owned())),
        }
    }

    pub fn path(&self) -> (r: &str)
        ensures
            r@ == self.spec_path(),
    {
        self.path.as_str()
    }

    pub fn byte_count(&self) -> (r: u64)
        ensures
            r == self.content().len(),
    {
        self.bytes.len() as u64
    }

    /// Stable content identity used to detect source changes before import. It is not a
    /// security signature.
    pub fn source_fingerprint(&self) -> (r: String)
        ensures
            r@ == fingerprint_text(fnv1a(self.content())),
    {
        proof {
            use_type_invariant(self);
        }
        show_fingerprint(self.fingerprint)
    }

    /// Replays records behind the physical-line cursor. The page is bounded, and malformed
    /// lines are skipped with a warning rather than aborting the replay.
    pub fn replay(&self, after_cursor: EventCursor, limit: usize) -> (r: Result<
        EventLogPage,
        EventLogError,
    >)
        ensures
            r is Ok,
            r->Ok_0@ == page_of(self.lines(), after_cursor, limit),
    {
        let limit: usize = if limit < 1 {
            1
        } else if limit > MAX_EVENT_PAGE {
            MAX_EVENT_PAGE
        } else {
            limit
        };
        let lines = split_lines(&self.bytes);
        let ghost all = chunks(lines@);
        let mut events: Vec<NormalizedLegacyEvent> = Vec::new();
        let mut warnings: Vec<EventLogWarning> = Vec::new();
        let mut last_returned: EventCursor = after_cursor;
        let mut has_more = false;
        let mut i: usize = 0;
        proof {
            assert(all.take(0) =~= seq![]);
            assert(events_view(events@) =~= seq![]);
            assert(warnings_view(warnings@) =~= seq![]);
        }
        while i < lines.len()
            invariant
                i <= lines@.len(),
                1 <= limit <= MAX_EVENT_PAGE,
                all == chunks(lines@),
                events_view(events@) == first_of(
                    events_after(all.take(i as int), after_cursor),
                    limit as nat,
                ),
                has_more == (events_after(all.take(i as int), after_cursor).len() > limit),
                events@.len() > 0 ==> last_returned == events_view(events@).last().source_line,
                warnings_view(warnings@) == kept_warnings(
                    warnings_after(all.take(i as int), after_cursor),
                ),
            decreases lines@.len() - i,
        {
            let line_number: u64 = i as u64 + 1;
            let ghost grown = all.take(i + 1);
            proof {
                assert(grown.drop_last() =~= all.take(i as int));
                assert(grown.last() == lines@[i as int]@);
                assert(events_view(events@).len() == events@.len());
                assert(warnings_view(warnings@).len() == warnings@.len());
            }
            if line_number > after_cursor {
                let ghost found = events_after(all.take(i as int), after_cursor);
                let ghost warned = warnings_after(all.take(i as int), after_cursor);
                let ghost kept = events@;
                let ghost noted = warnings@;
                match parse_line(&lines[i]) {
                    LineReading::Blank => {},
                    LineReading::Malformed(message) => {
                        if warnings.len() < MAX_EVENT_WARNINGS {
                            let warning = EventLogWarning::new(line_number, message);
                            warnings.push(warning);
                            assert(warnings_view(warnings@) =~= warnings_view(noted).push(
                                warning@,
                            ));
                        }
                        proof {
                            lemma_kept_push(
                                warned,
                                WarningView { line: line_number, message: message@ },
                            );
                        }
                    },
                    LineReading::Event(value) => {
                        let ghost event = normalized(line_number, value@);
                        if events.len() < limit {
                            last_returned = line_number;
                            let next = normalize_event(line_number, &value);
                            events.push(next);
                            assert(events_view(events@) =~= events_view(kept).push(event));
                        } else {
                            has_more = true;
                        }
                        proof {
                            lemma_first_push(found, event, limit as nat);
                        }
                    },
                }
            }
            i += 1;
        }
        proof {
            assert(all.take(i as int) =~= all);
            assert(events_view(events@).len() == events@.len());
        }
        if events.len() == 0 {
            let line_count: u64 = lines.len() as u64;
            last_returned = if line_count > after_cursor {
                line_count
            } else {
                after_cursor
            };
        }
        Ok(EventLogPage { events, next_cursor: last_returned, has_more, warnings })
    }

    /// Counts what the log holds.
    pub fn summary(&self) -> (r: Result<EventLogSummary, EventLogError>)
        ensures
            r is Ok,
            r->Ok_0@ == summary_of(self.lines()),
    {
        let lines = split_lines(&self.bytes);
        let ghost all = chunks(lines@);
        let mut warnings: Vec<EventLogWarning> = Vec::new();
        let mut event_count: usize = 0;
        let mut malformed_line_count: usize = 0;
        let mut unknown_event_count: usize = 0;
        let mut i: usize = 0;
        proof {
            assert(all.take(0) =~= seq![]);
            assert(warnings_view(warnings@) =~= seq![]);
        }
        while i < lines.len()
            invariant
                i <= lines@.len(),
                all == chunks(lines@),
                event_count == events_after(all.take(i as int), 0).len(),
                event_count <= i,
                unknown_event_count == unknown_events(events_after(all.take(i as int), 0)),
                unknown_event_count <= event_count,
                malformed_line_count == warnings@.len(),
                warnings@.len() <= MAX_EVENT_WARNINGS,
                warnings_view(warnings@) == kept_warnings(warnings_after(all.take(i as int), 0)),
            decreases lines@.len() - i,
        {
            let line_number: u64 = i as u64 + 1;
            let ghost grown = all.take(i + 1);
            let ghost found = events_after(all.take(i as int), 0);
            let ghost warned = warnings_after(all.take(i as int), 0);
            let ghost noted = warnings@;
            proof {
                assert(grown.drop_last() =~= all.take(i as int));
                assert(grown.last() == lines@[i as int]@);
                assert(warnings_view(warnings@).len() == warnings@.len());
            }
            match parse_line(&lines[i]) {
                LineReading::Blank => {},
                LineReading::Malformed(message) => {
                    if warnings.len() < MAX_EVENT_WARNINGS {
                        let warning = EventLogWarning::new(line_number, message);
                        warnings.push(warning);
                        malformed_line_count += 1;
                        assert(warnings_view(warnings@) =~= warnings_view(noted).push(warning@));
                    }
                    proof {
                        lemma_kept_push(
                            warned,
                            WarningView { line: line_number, message: message@ },
                        );
                    }
                },
                LineReading::Event(value) => {
                    let event = normalize_event(line_number, &value);
                    event_count += 1;
                    proof {
                        assert(found.push(event@).drop_last() =~= found);
                    }
                    if event.kind() == LegacyEventKind::Unknown {
                        unknown_event_count += 1;
                    }
                },
            }
            i += 1;
        }
        proof {
            assert(all.take(i as int) =~= all);
            assert(warnings_view(warnings@).len() == warnings@.len());
        }
        Ok(
            EventLogSummary {
                line_count: lines.len() as u64,
                event_count,
                malformed_line_count,
                unknown_event_count,
                warnings,
            },
        )
    }

    /// Every event of the log, page by page.
    pub fn normalized_events(&self) -> (r: Vec<NormalizedLegacyEvent>)
        ensures
            events_view(r@) == events_after(self.lines(), 0),
    {
        let mut out: Vec<NormalizedLegacyEvent> = Vec::new();
        let mut cursor: EventCursor = 0;
        let ghost lines = self.lines();
        let total: usize = self.bytes.len();
        proof {
            lemma_line_count(self.bytes@);
            assert(lines.len() <= total);
        }
        assert(events_view(out@) + events_after(lines, 0) =~= events_after(lines, 0));
        loop
            invariant_except_break
                lines == self.lines(),
                lines.len() <= u64::MAX,
                events_view(out@) + events_after(lines, cursor) == events_after(lines, 0),
            ensures
                events_view(out@) == events_after(lines, 0),
            decreases events_after(lines, cursor).len(),
        {
            let ghost before = out@;
            let ghost rest = events_after(lines, cursor);
            let page = match self.replay(cursor, MAX_EVENT_PAGE) {
                Ok(page) => page,
                Err(_) => break,
            };
            let has_more = page.has_more;
            let next = page.next_cursor;
            let mut events = page.events;
            let ghost taken = events_view(events@);
            out.append(&mut events);
            proof {
                lemma_pages_continue(lines, cursor, MAX_EVENT_PAGE);
                assert(events_view(out@) =~= events_view(before) + taken);
                assert(events_view(before) + (taken + events_after(lines, next)) =~= events_view(
                    out@,
                ) + events_after(lines, next));
            }
            if !has_more {
                proof {
                    assert(taken == rest);
                    assert((taken + events_after(lines, next)).len() == taken.len());
                    assert(events_after(lines, next).len() == 0);
                    assert(events_view(out@) + events_after(lines, next) =~= events_view(out@));
                }
                break ;
            }
            cursor = next;
        }
        out
    }
}

/// The first items.
pub open spec fn first_of(events: Seq<EventView>, limit: nat) -> Seq<EventView> {
    if events.len() <= limit {
        events
    } else {
        events.take(limit as int)
    }
}

proof fn lemma_first_push(events: Seq<EventView>, event: EventView, limit: nat)
    ensures
        events.len() < limit ==> first_of(events.push(event), limit) == first_of(
            events,
            limit,
        ).push(event),
        events.len() >= limit ==> first_of(events.push(event), limit) == first_of(events, limit),
        first_of(events, limit).len() == if events.len() < limit {
            events.len()
        } else {
            limit
        },
{
    if events.len() >= limit {
        assert(first_of(events.push(event), limit) =~= first_of(events, limit));
    }
}

proof fn lemma_kept_push(warnings: Seq<WarningView>, warning: WarningView)
    ensures
        warnings.len() < MAX_EVENT_WARNINGS ==> kept_warnings(warnings.push(warning))
            == kept_warnings(warnings).push(warning),
        warnings.len() >= MAX_EVENT_WARNINGS ==> kept_warnings(warnings.push(warning))
            == kept_warnings(warnings),
        kept_warnings(warnings).len() == if warnings.len() < MAX_EVENT_WARNINGS {
            warnings.len()
        } else {
            MAX_EVENT_WARNINGS as nat
        },
{
    if warnings.len() >= MAX_EVENT_WARNINGS {
        assert(kept_warnings(warnings.push(warning)) =~= kept_warnings(warnings));
    }
}

// ---------------------------------------------------------------------------
// What replaying keeps
// ---------------------------------------------------------------------------
/// Every event keeps the number of its line, the numbers ascend, and all lie behind the
/// cursor.
pub proof fn lemma_event_lines_ascend(lines: Seq<Seq<u8>>, after: EventCursor)
    requires
        lines.len() <= u64::MAX,
    ensures
        forall|k: int|
            0 <= k < events_after(lines, after).len() ==> after < (#[trigger] events_after(
                lines,
                after,
            )[k]).source_line <= lines.len(),
        forall|j: int, k: int|
            0 <= j < k < events_after(lines, after).len() ==> (#[trigger] events_after(
                lines,
                after,
            )[j]).source_line < (#[trigger] events_after(lines, after)[k]).source_line,
    decreases lines.len(),
{
    if lines.len() > 0 {
        lemma_event_lines_ascend(lines.drop_last(), after);
    }
}

proof fn lemma_nothing_behind_the_end(lines: Seq<Seq<u8>>, after: EventCursor)
    requires
        after >= lines.len(),
    ensures
        events_after(lines, after) == Seq::<EventView>::empty(),
    decreases lines.len(),
{
    if lines.len() > 0 {
        lemma_nothing_behind_the_end(lines.drop_last(), after);
    }
}

proof fn lemma_events_behind_an_event(
    lines: Seq<Seq<u8>>,
    after: EventCursor,
    m: int,
    cursor: EventCursor,
)
    requires
        lines.len() <= u64::MAX,
        0 < m <= events_after(lines, after).len(),
        cursor == events_after(lines, after)[m - 1].source_line,
    ensures
        events_after(lines, cursor) == events_after(lines, after).skip(m),
    decreases lines.len(),
{
    let shorter = lines.drop_last();
    let all = events_after(lines, after);
    let earlier = events_after(shorter, after);
    lemma_event_lines_ascend(lines, after);
    lemma_event_lines_ascend(shorter, after);
    if m <= earlier.len() {
        assert(all[m - 1] == earlier[m - 1]);
        lemma_events_behind_an_event(shorter, after, m, cursor);
        assert(cursor < lines.len());
        if all.len() > earlier.len() {
            assert(all =~= earlier.push(all.last()));
            assert(events_after(lines, cursor) =~= earlier.skip(m).push(all.last()));
            assert(all.skip(m) =~= earlier.skip(m).push(all.last()));
        } else {
            assert(all =~= earlier);
            assert(events_after(lines, cursor) =~= earlier.skip(m));
        }
    } else {
        assert(cursor == lines.len());
        lemma_nothing_behind_the_end(lines, cursor);
        assert(all.skip(m) =~= Seq::<EventView>::empty());
    }
}

/// Going on behind a page repeats nothing and leaves nothing out: the page and what lies
/// behind its cursor are together what lay behind the old one.
pub proof fn lemma_pages_continue(lines: Seq<Seq<u8>>, after: EventCursor, limit: usize)
    requires
        lines.len() <= u64::MAX,
    ensures
        page_of(lines, after, limit).events + events_after(
            lines,
            page_of(lines, after, limit).next_cursor,
        ) == events_after(lines, after),
{
    let page = page_of(lines, after, limit);
    let all = events_after(lines, after);
    if page.events.len() > 0 {
        let m = page.events.len() as int;
        assert(page.events[m - 1] == all[m - 1]);
        lemma_events_behind_an_event(lines, after, m, page.next_cursor);
        assert(page.events + all.skip(m) =~= all);
    } else {
        lemma_nothing_behind_the_end(lines, page.next_cursor);
        assert(page.events + Seq::<EventView>::empty() =~= all);
    }
}

/// The cursor never moves back, it moves on with every page that has an event, and a page that
/// has none takes it to the end of the log; so nobody gets stuck at a corrupt record.
pub proof fn lemma_cursor_advances(lines: Seq<Seq<u8>>, after: EventCursor, limit: usize)
    requires
        lines.len() <= u64::MAX,
    ensures
        page_of(lines, after, limit).next_cursor >= after,
        page_of(lines, after, limit).events.len() > 0 ==> page_of(lines, after, limit).next_cursor
            > after,
        page_of(lines, after, limit).events.len() == 0 ==> page_of(lines, after, limit).next_cursor
            >= lines.len(),
        page_of(lines, after, limit).has_more ==> page_of(lines, after, limit).events.len() > 0,
{
    lemma_event_lines_ascend(lines, after);
    let page = page_of(lines, after, limit);
    let all = events_after(lines, after);
    if page.events.len() > 0 {
        assert(page.events.last() == all[page.events.len() - 1]);
    }
}

} // verus!
