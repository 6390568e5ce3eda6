//! Legacy events in a small, normalized envelope.
//!
//! Unknown fields and fields that may carry credentials are not copied.
use vstd::prelude::*;
use vstd::string::StrSliceExecFns;

use crate::json::{
    get_text, lemma_field_is_found, text_field, Fields, Json, JsonNumber, JsonView,
};
use crate::text::{
    char_count, char_is_ascii_alnum, char_lower, contains, is_ascii_alnum, lower, lower_of,
    occurs_in, str_eq, texts, to_ascii_lowercase, to_chars,
};
use crate::text_map::TextMap;
use crate::text_sort::{lemma_sorted_texts, sort_texts, sorted_texts};

verus! {

pub const MAX_EVENT_TEXT_CHARS: usize = 256 * 1024;

pub const MAX_EVENT_TYPE_CHARS: usize = 96;

pub const MAX_EVENT_FIELD_CHARS: usize = 256;

/// A physical source line is the replay cursor. It advances over malformed lines too, so a
/// client cannot get stuck retrying one corrupt record.
pub type EventCursor = u64;

#[derive(Clone, Copy, Debug, PartialEq, Eq, Structural)]
pub enum LegacyEventKind {
    Session,
    Assistant,
    Tool,
    Lifecycle,
    Unknown,
}

// ---------------------------------------------------------------------------
// Names
// ---------------------------------------------------------------------------
/// Events that open, close or describe a session, and what the user said.
pub open spec fn is_session_type(event_type: Seq<char>) -> bool {
    ||| event_type == "session_meta"@
    ||| event_type == "session_start"@
    ||| event_type == "session_started"@
    ||| event_type == "session_end"@
    ||| event_type == "session_ended"@
    ||| event_type == "thread_started"@
    ||| event_type == "thread_ended"@
    ||| event_type == "user"@
    ||| event_type == "user_message"@
}

/// What the assistant said or thought.
pub open spec fn is_assistant_type(event_type: Seq<char>) -> bool {
    ||| event_type == "assistant"@
    ||| event_type == "assistant_message"@
    ||| event_type == "agent_message"@
    ||| event_type == "agent_message_content_delta"@
    ||| event_type == "reasoning"@
    ||| event_type == "reasoning_content_delta"@
}

/// What a tool was asked and answered.
pub open spec fn is_tool_type(event_type: Seq<char>) -> bool {
    ||| event_type == "function_call"@
    ||| event_type == "function_call_output"@
    ||| event_type == "tool_call"@
    ||| event_type == "tool_result"@
    ||| event_type == "mcp_tool_call"@
    ||| event_type == "mcp_tool_result"@
    ||| event_type == "command_execution"@
    ||| event_type == "shell_command"@
    ||| event_type == "web_search"@
    ||| event_type == "file_change"@
}

/// How a turn went.
pub open spec fn is_lifecycle_type(event_type: Seq<char>) -> bool {
    ||| event_type == "turn_started"@
    ||| event_type == "turn_start"@
    ||| event_type == "turn_completed"@
    ||| event_type == "turn_ended"@
    ||| event_type == "turn_failed"@
    ||| event_type == "context_compacted"@
    ||| event_type == "compaction"@
    ||| event_type == "error"@
    ||| event_type == "warning"@
    ||| event_type == "cancelled"@
    ||| event_type == "canceled"@
}

/// Fields that are copied.
pub open spec fn is_allowed_field(key: Seq<char>) -> bool {
    ||| key == "id"@
    ||| key == "turn_id"@
    ||| key == "turnId"@
    ||| key == "call_id"@
    ||| key == "callId"@
    ||| key == "tool_name"@
    ||| key == "toolName"@
    ||| key == "name"@
    ||| key == "status"@
    ||| key == "reason"@
    ||| key == "phase"@
    ||| key == "message"@
    ||| key == "content"@
    ||| key == "text"@
    ||| key == "delta"@
    ||| key == "role"@
}

/// Fields that the envelope itself is made of.
pub open spec fn is_structural_field(key: Seq<char>) -> bool {
    ||| key == "type"@
    ||| key == "timestamp"@
    ||| key == "created_at"@
    ||| key == "createdAt"@
    ||| key == "session_id"@
    ||| key == "sessionId"@
    ||| key == "thread_id"@
    ||| key == "threadId"@
    ||| key == "event"@
    ||| key == "item"@
}

/// Parts of names that point to credentials, or to what may hold them.
pub open spec fn is_sensitive_name(name: Seq<char>) -> bool {
    ||| occurs_in(name, "authorization"@)
    ||| occurs_in(name, "token"@)
    ||| occurs_in(name, "secret"@)
    ||| occurs_in(name, "password"@)
    ||| occurs_in(name, "cookie"@)
    ||| occurs_in(name, "api_key"@)
    ||| occurs_in(name, "apikey"@)
    ||| occurs_in(name, "credential"@)
    ||| occurs_in(name, "headers"@)
    ||| occurs_in(name, "env"@)
    ||| occurs_in(name, "arguments"@)
    ||| occurs_in(name, "args"@)
    ||| occurs_in(name, "input"@)
    ||| occurs_in(name, "output"@)
    ||| occurs_in(name, "result"@)
}

/// Fields that may carry credentials, by their name in any case.
pub open spec fn is_sensitive_field(key: Seq<char>) -> bool {
    is_sensitive_name(lower_of(key))
}

/// The kind of an event, by its type.
pub open spec fn kind_of(event_type: Seq<char>) -> LegacyEventKind {
    if is_session_type(event_type) {
        LegacyEventKind::Session
    } else if is_assistant_type(event_type) {
        LegacyEventKind::Assistant
    } else if is_tool_type(event_type) {
        LegacyEventKind::Tool
    } else if is_lifecycle_type(event_type) {
        LegacyEventKind::Lifecycle
    } else {
        LegacyEventKind::Unknown
    }
}

fn names_session(event_type: &str) -> (r: bool)
    ensures
        r == is_session_type(event_type@),
{
    str_eq(event_type, "session_meta") || str_eq(event_type, "session_start")
        || str_eq(event_type, "session_started") || str_eq(event_type, "session_end")
        || str_eq(event_type, "session_ended") || str_eq(event_type, "thread_started")
        || str_eq(event_type, "thread_ended") || str_eq(event_type, "user")
        || str_eq(event_type, "user_message")
}

fn names_assistant(event_type: &str) -> (r: bool)
    ensures
        r == is_assistant_type(event_type@),
{
    str_eq(event_type, "assistant") || str_eq(event_type, "assistant_message")
        || str_eq(event_type, "agent_message")
        || str_eq(event_type, "agent_message_content_delta") || str_eq(event_type, "reasoning")
        || str_eq(event_type, "reasoning_content_delta")
}

fn names_tool(event_type: &str) -> (r: bool)
    ensures
        r == is_tool_type(event_type@),
{
    str_eq(event_type, "function_call") || str_eq(event_type, "function_call_output")
        || str_eq(event_type, "tool_call") || str_eq(event_type, "tool_result")
        || str_eq(event_type, "mcp_tool_call") || str_eq(event_type, "mcp_tool_result")
        || str_eq(event_type, "command_execution") || str_eq(event_type, "shell_command")
        || str_eq(event_type, "web_search") || str_eq(event_type, "file_change")
}

fn names_lifecycle(event_type: &str) -> (r: bool)
    ensures
        r == is_lifecycle_type(event_type@),
{
    str_eq(event_type, "turn_started") || str_eq(event_type, "turn_start")
        || str_eq(event_type, "turn_completed") || str_eq(event_type, "turn_ended")
        || str_eq(event_type, "turn_failed") || str_eq(event_type, "context_compacted")
        || str_eq(event_type, "compaction") || str_eq(event_type, "error")
        || str_eq(event_type, "warning") || str_eq(event_type, "cancelled")
        || str_eq(event_type, "canceled")
}

fn is_allowed(key: &str) -> (r: bool)
    ensures
        r == is_allowed_field(key@),
{
    str_eq(key, "id") || str_eq(key, "turn_id") || str_eq(key, "turnId") || str_eq(key, "call_id")
        || str_eq(key, "callId") || str_eq(key, "tool_name") || str_eq(key, "toolName")
        || str_eq(key, "name") || str_eq(key, "status") || str_eq(key, "reason")
        || str_eq(key, "phase") || str_eq(key, "message") || str_eq(key, "content")
        || str_eq(key, "text") || str_eq(key, "delta") || str_eq(key, "role")
}

fn is_structural(key: &str) -> (r: bool)
    ensures
        r == is_structural_field(key@),
{
    str_eq(key, "type") || str_eq(key, "timestamp") || str_eq(key, "created_at")
        || str_eq(key, "createdAt") || str_eq(key, "session_id") || str_eq(key, "sessionId")
        || str_eq(key, "thread_id") || str_eq(key, "threadId") || str_eq(key, "event")
        || str_eq(key, "item")
}

fn names_secret(name: &str) -> (r: bool)
    ensures
        r == is_sensitive_name(name@),
{
    contains(name, "authorization") || contains(name, "token") || contains(name, "secret")
        || contains(name, "password") || contains(name, "cookie") || contains(name, "api_key")
        || contains(name, "apikey") || contains(name, "credential") || contains(name, "headers")
        || contains(name, "env") || contains(name, "arguments") || contains(name, "args")
        || contains(name, "input") || contains(name, "output") || contains(name, "result")
}

fn is_sensitive(key: &str) -> (r: bool)
    ensures
        r == is_sensitive_field(key@),
{
    let name = to_ascii_lowercase(key);
    names_secret(name.as_str())
}

/// The kind of an event, by its type.
pub fn classify(event_type: &str) -> (r: LegacyEventKind)
    ensures
        r == kind_of(event_type@),
{
    if names_session(event_type) {
        LegacyEventKind::Session
    } else if names_assistant(event_type) {
        LegacyEventKind::Assistant
    } else if names_tool(event_type) {
        LegacyEventKind::Tool
    } else if names_lifecycle(event_type) {
        LegacyEventKind::Lifecycle
    } else {
        LegacyEventKind::Unknown
    }
}

/// The letters of a type name: lower case, words joined by `_`, and nothing else.
pub open spec fn type_letters(value: Seq<char>) -> Seq<char>
    decreases value.len(),
{
    if value.len() == 0 {
        seq![]
    } else {
        let before = type_letters(value.drop_last());
        let c = value.last();
        if is_ascii_alnum(c) || c == '_' {
            before.push(lower(c))
        } else if c == '-' || c == ' ' {
            before.push('_')
        } else {
            before
        }
    }
}

/// The first characters of a text.
pub open spec fn first_chars(value: Seq<char>, maximum: nat) -> Seq<char> {
    if value.len() <= maximum {
        value
    } else {
        value.take(maximum as int)
    }
}

/// A type name in its normal form.
pub open spec fn normal_type(value: Seq<char>) -> Seq<char> {
    let letters = type_letters(first_chars(value, MAX_EVENT_TYPE_CHARS as nat));
    if letters.len() == 0 {
        "unknown"@
    } else {
        letters
    }
}

pub fn normalize_type(value: &str) -> (r: String)
    ensures
        r@ == normal_type(value@),
{
    let head = truncate(value, MAX_EVENT_TYPE_CHARS);
    let chars = to_chars(head.as_str());
    let mut out = String::new();
    let mut i: usize = 0;
    while i < chars.len()
        invariant
            i <= chars@.len(),
            out@ == type_letters(chars@.take(i as int)),
        decreases chars@.len() - i,
    {
        let c = chars[i];
        proof {
            assert(chars@.take(i + 1).drop_last() =~= chars@.take(i as int));
            assert(chars@.take(i + 1).last() == c);
        }
        if char_is_ascii_alnum(c) || c == '_' {
            out.push(char_lower(c));
        } else if c == '-' || c == ' ' {
            out.push('_');
        }
        i += 1;
    }
    assert(chars@.take(i as int) =~= chars@);
    if out.as_str().is_empty() {
        "unknown".to_owned()
    } else {
        out
    }
}

fn truncate(value: &str, maximum: usize) -> (r: String)
    ensures
        r@ == first_chars(value@, maximum as nat),
{
    let n = char_count(value);
    if n <= maximum {
        return value.to_owned();
    }
    let head = value.substring_char(0, maximum);
    assert(head@ =~= value@.take(maximum as int));
    head.to_owned()
}

// ---------------------------------------------------------------------------
// The envelope
// ---------------------------------------------------------------------------
#[derive(Debug)]
pub struct NormalizedLegacyEvent {
    source_line: EventCursor,
    event_type: String,
    kind: LegacyEventKind,
    timestamp: Option<String>,
    session_id: Option<String>,
    fields: TextMap<Json>,
    dropped_fields: Vec<String>,
    redacted_fields: Vec<String>,
}

pub struct EventView {
    pub source_line: EventCursor,
    pub event_type: Seq<char>,
    pub kind: LegacyEventKind,
    pub timestamp: Option<Seq<char>>,
    pub session_id: Option<Seq<char>>,
    pub fields: Map<Seq<char>, JsonView>,
    pub dropped_fields: Seq<Seq<char>>,
    pub redacted_fields: Seq<Seq<char>>,
}

pub open spec fn opt_view(value: Option<String>) -> Option<Seq<char>> {
    match value {
        Some(text) => Some(text@),
        None => None,
    }
}

/// What each field holds.
pub open spec fn field_views(fields: Map<Seq<char>, Json>) -> Map<Seq<char>, JsonView> {
    fields.map_values(|value: Json| value@)
}

impl View for NormalizedLegacyEvent {
    type V = EventView;

    closed spec fn view(&self) -> EventView {
        EventView {
            source_line: self.source_line,
            event_type: self.event_type@,
            kind: self.kind,
            timestamp: opt_view(self.timestamp),
            session_id: opt_view(self.session_id),
            fields: field_views(self.fields@),
            dropped_fields: texts(self.dropped_fields@),
            redacted_fields: texts(self.redacted_fields@),
        }
    }
}

impl NormalizedLegacyEvent {
    pub fn source_line(&self) -> (r: EventCursor)
        ensures
            r == self@.source_line,
    {
        self.source_line
    }

    pub fn event_type(&self) -> (r: &str)
        ensures
            r@ == self@.event_type,
    {
        self.event_type.as_str()
    }

    pub fn kind(&self) -> (r: LegacyEventKind)
        ensures
            r == self@.kind,
    {
        self.kind
    }

    pub fn timestamp(&self) -> (r: Option<&str>)
        ensures
            r is Some == self@.timestamp is Some,
            r is Some ==> Some(r->0@) == self@.timestamp,
    {
        match &self.timestamp {
            Some(text) => Some(text.as_str()),
            None => None,
        }
    }

    pub fn session_id(&self) -> (r: Option<&str>)
        ensures
            r is Some == self@.session_id is Some,
            r is Some ==> Some(r->0@) == self@.session_id,
    {
        match &self.session_id {
            Some(text) => Some(text.as_str()),
            None => None,
        }
    }

    pub fn fields(&self) -> (r: &TextMap<Json>)
        ensures
            field_views(r@) == self@.fields,
    {
        &self.fields
    }

    pub fn dropped_fields(&self) -> (r: &Vec<String>)
        ensures
            texts(r@) == self@.dropped_fields,
    {
        &self.dropped_fields
    }

    pub fn redacted_fields(&self) -> (r: &Vec<String>)
        ensures
            texts(r@) == self@.redacted_fields,
    {
        &self.redacted_fields
    }
}

// ---------------------------------------------------------------------------
// Normalization
// ---------------------------------------------------------------------------
/// The text of a message: the value itself, or its content, or the text of its content.
pub open spec fn message_text(value: JsonView) -> Option<Seq<char>> {
    if value.as_text() is Some {
        value.as_text()
    } else {
        match value.field("content"@) {
            Some(content) => if content.as_text() is Some {
                content.as_text()
            } else {
                text_field(content, "text"@)
            },
            None => None,
        }
    }
}

/// What a field becomes; nothing when it is not copied.
pub open spec fn copied_field(key: Seq<char>, value: JsonView) -> Option<JsonView> {
    if !is_allowed_field(key) {
        None
    } else if value is Text || key == "message"@ || key == "content"@ {
        match message_text(value) {
            Some(text) => Some(JsonView::Text(first_chars(text, MAX_EVENT_TEXT_CHARS as nat))),
            None => None,
        }
    } else {
        match value {
            JsonView::Bool(_) | JsonView::Number(_) | JsonView::Null => Some(value),
            _ => None,
        }
    }
}

fn extract_text(value: &Json) -> (r: Option<&str>)
    ensures
        r is Some == message_text(value@) is Some,
        r is Some ==> Some(r->0@) == message_text(value@),
{
    match value.as_str() {
        Some(text) => Some(text),
        None => match value.get("content") {
            Some(content) => match content.as_str() {
                Some(text) => Some(text),
                None => get_text(content, "text"),
            },
            None => None,
        },
    }
}

fn normalize_allowed_field(key: &str, value: &Json) -> (r: Option<Json>)
    ensures
        r is Some == copied_field(key@, value@) is Some,
        r is Some ==> Some(r->0@) == copied_field(key@, value@),
{
    if !is_allowed(key) {
        return None;
    }
    if value.as_str().is_some() || str_eq(key, "message") || str_eq(key, "content") {
        return match extract_text(value) {
            Some(text) => Some(Json::Text(truncate(text, MAX_EVENT_TEXT_CHARS))),
            None => None,
        };
    }
    match value {
        Json::Bool(b) => Some(Json::Bool(*b)),
        Json::Number(JsonNumber::Unsigned(n)) => Some(Json::Number(JsonNumber::Unsigned(*n))),
        Json::Number(JsonNumber::Negative(n)) => Some(Json::Number(JsonNumber::Negative(*n))),
        Json::Number(JsonNumber::Float(text)) => Some(
            Json::Number(JsonNumber::Float(text.clone())),
        ),
        Json::Null => Some(Json::Null),
        _ => None,
    }
}

/// The fields gathered so far.
pub struct Gathered {
    pub fields: Map<Seq<char>, JsonView>,
    pub dropped: Seq<Seq<char>>,
    pub redacted: Seq<Seq<char>>,
}

/// One more field: structural ones are left out, sensitive ones are named but not copied, and
/// the rest is copied or named as dropped.
pub open spec fn gathered_one(state: Gathered, key: Seq<char>, value: JsonView) -> Gathered {
    if is_structural_field(key) {
        state
    } else if is_sensitive_field(key) {
        Gathered { redacted: state.redacted.push(key), ..state }
    } else {
        match copied_field(key, value) {
            Some(copy) => Gathered { fields: state.fields.insert(key, copy), ..state },
            None => Gathered { dropped: state.dropped.push(key), ..state },
        }
    }
}

/// All fields of an object.
pub open spec fn gathered(state: Gathered, fields: Fields) -> Gathered
    decreases fields.len(),
{
    if fields.len() == 0 {
        state
    } else {
        gathered_one(
            gathered(state, fields.drop_last()),
            fields.last().0,
            fields.last().1,
        )
    }
}

pub open spec fn nothing_gathered() -> Gathered {
    Gathered { fields: Map::empty(), dropped: seq![], redacted: seq![] }
}

/// The fields of an event and of its item.
pub open spec fn event_fields(event: JsonView) -> Gathered {
    let outer = gathered(nothing_gathered(), event->Object_0);
    match event.field("item"@) {
        Some(JsonView::Object(fields)) => gathered(outer, fields),
        _ => outer,
    }
}

/// The type that an event names for itself.
pub open spec fn raw_type(event: JsonView) -> Seq<char> {
    if text_field(event, "type"@) is Some {
        text_field(event, "type"@)->0
    } else {
        match event.field("event"@) {
            Some(inner) => match text_field(inner, "type"@) {
                Some(text) => text,
                None => "unknown"@,
            },
            None => "unknown"@,
        }
    }
}

/// A text of the event's item.
pub open spec fn item_text(event: JsonView, name: Seq<char>) -> Option<Seq<char>> {
    match event.field("item"@) {
        Some(item) => text_field(item, name),
        None => None,
    }
}

/// The type of an event: that of its item where there is one, and messages by who said them.
pub open spec fn effective_type(event: JsonView) -> Seq<char> {
    match item_text(event, "type"@) {
        Some(nested) => if nested == "message"@ && item_text(event, "role"@) == Some(
            "assistant"@,
        ) {
            "assistant_message"@
        } else if nested == "message"@ && item_text(event, "role"@) == Some("user"@) {
            "user_message"@
        } else {
            nested
        },
        None => raw_type(event),
    }
}

/// The first of these fields that is a text.
pub open spec fn first_text(event: JsonView, names: Seq<Seq<char>>) -> Option<Seq<char>>
    decreases names.len(),
{
    if names.len() == 0 {
        None
    } else if text_field(event, names[0]) is Some {
        text_field(event, names[0])
    } else {
        first_text(event, names.drop_first())
    }
}

pub open spec fn bounded_field(text: Option<Seq<char>>) -> Option<Seq<char>> {
    match text {
        Some(text) => Some(first_chars(text, MAX_EVENT_FIELD_CHARS as nat)),
        None => None,
    }
}

/// What an event becomes.
pub open spec fn normalized(line: EventCursor, event: JsonView) -> EventView {
    let event_type = normal_type(effective_type(event));
    let found = event_fields(event);
    EventView {
        source_line: line,
        event_type,
        kind: kind_of(event_type),
        timestamp: bounded_field(
            first_text(event, seq!["timestamp"@, "created_at"@, "createdAt"@]),
        ),
        session_id: bounded_field(
            first_text(
                event,
                seq!["session_id"@, "sessionId"@, "thread_id"@, "threadId"@],
            ),
        ),
        fields: found.fields,
        dropped_fields: sorted_texts(found.dropped),
        redacted_fields: sorted_texts(found.redacted),
    }
}

struct Gathering {
    fields: TextMap<Json>,
    dropped: Vec<String>,
    redacted: Vec<String>,
}

impl Gathering {
    spec fn state(self) -> Gathered {
        Gathered {
            fields: field_views(self.fields@),
            dropped: texts(self.dropped@),
            redacted: texts(self.redacted@),
        }
    }

    fn collect_field(&mut self, key: &str, value: &Json)
        ensures
            final(self).state() == gathered_one(old(self).state(), key@, value@),
    {
        if is_structural(key) {
            return ;
        }
        let ghost before = *self;
        if is_sensitive(key) {
            self.redacted.push(key.to_owned());
            assert(texts(self.redacted@) =~= texts(before.redacted@).push(key@));
        } else {
            match normalize_allowed_field(key, value) {
                Some(copy) => {
                    self.fields.insert(key.to_owned(), copy);
                    assert(field_views(self.fields@) =~= field_views(before.fields@).insert(
                        key@,
                        copy@,
                    ));
                },
                None => {
                    self.dropped.push(key.to_owned());
                    assert(texts(self.dropped@) =~= texts(before.dropped@).push(key@));
                },
            }
        }
    }

    fn collect_object(&mut self, value: &Json)
        requires
            value@ is Object,
        ensures
            final(self).state() == gathered(old(self).state(), value@->Object_0),
    {
        match value {
            Json::Object(fields) => {
                let ghost all = value@->Object_0;
                let mut i: usize = 0;
                while i < fields.len()
                    invariant
                        *value == Json::Object(*fields),
                        all == value@->Object_0,
                        i <= fields@.len(),
                        self.state() == gathered(old(self).state(), all.take(i as int)),
                    decreases fields@.len() - i,
                {
                    proof {
                        assert(all[i as int] == (fields@[i as int].0@, fields@[i as int].1@));
                        assert(all.take(i + 1).drop_last() =~= all.take(i as int));
                        assert(all.take(i + 1).last() == all[i as int]);
                    }
                    self.collect_field(fields[i].0.as_str(), &fields[i].1);
                    i += 1;
                }
                assert(all.take(i as int) =~= all);
            },
            _ => {},
        }
    }
}

fn bound(text: Option<&str>) -> (r: Option<String>)
    ensures
        r is Some == text is Some,
        r is Some ==> r->0@ == first_chars(text->0@, MAX_EVENT_FIELD_CHARS as nat),
{
    match text {
        Some(text) => Some(truncate(text, MAX_EVENT_FIELD_CHARS)),
        None => None,
    }
}

/// The type of an event.
fn event_type_of(event: &Json) -> (r: String)
    ensures
        r@ == effective_type(event@),
{
    let (nested, role) = match event.get("item") {
        Some(item) => (get_text(item, "type"), get_text(item, "role")),
        None => (None, None),
    };
    match nested {
        Some(nested) => {
            if str_eq(nested, "message") {
                match role {
                    Some(role) => {
                        if str_eq(role, "assistant") {
                            return "assistant_message".to_owned();
                        }
                        if str_eq(role, "user") {
                            return "user_message".to_owned();
                        }
                    },
                    None => {},
                }
            }
            nested.to_owned()
        },
        None => match get_text(event, "type") {
            Some(text) => text.to_owned(),
            None => match event.get("event") {
                Some(inner) => match get_text(inner, "type") {
                    Some(text) => text.to_owned(),
                    None => "unknown".to_owned(),
                },
                None => "unknown".to_owned(),
            },
        },
    }
}

fn first_of<'a>(first: Option<&'a str>, second: Option<&'a str>) -> (r: Option<&'a str>)
    ensures
        r == if first is Some {
            first
        } else {
            second
        },
{
    match first {
        Some(text) => Some(text),
        None => second,
    }
}

/// Puts an event into the envelope.
pub fn normalize_event(line: EventCursor, event: &Json) -> (r: NormalizedLegacyEvent)
    requires
        event@ is Object,
    ensures
        r@ == normalized(line, event@),
{
    let event_type = normalize_type(event_type_of(event).as_str());
    let kind = classify(event_type.as_str());
    proof {
        lemma_first_text_3(event@, "timestamp"@, "created_at"@, "createdAt"@);
        lemma_first_text_4(event@, "session_id"@, "sessionId"@, "thread_id"@, "threadId"@);
    }
    let timestamp = bound(
        first_of(
            get_text(event, "timestamp"),
            first_of(get_text(event, "created_at"), get_text(event, "createdAt")),
        ),
    );
    let session_id = bound(
        first_of(
            first_of(get_text(event, "session_id"), get_text(event, "sessionId")),
            first_of(get_text(event, "thread_id"), get_text(event, "threadId")),
        ),
    );
    let mut found = Gathering {
        fields: TextMap::new(),
        dropped: Vec::new(),
        redacted: Vec::new(),
    };
    proof {
        assert(field_views(found.fields@) =~= Map::empty());
        assert(texts(found.dropped@) =~= seq![]);
        assert(texts(found.redacted@) =~= seq![]);
    }
    found.collect_object(event);
    match event.get("item") {
        Some(item) => {
            if item.is_object() {
                found.collect_object(item);
            }
        },
        None => {},
    }
    NormalizedLegacyEvent {
        source_line: line,
        event_type,
        kind,
        timestamp,
        session_id,
        fields: found.fields,
        dropped_fields: sort_texts(found.dropped),
        redacted_fields: sort_texts(found.redacted),
    }
}

proof fn lemma_first_text_3(event: JsonView, a: Seq<char>, b: Seq<char>, c: Seq<char>)
    ensures
        first_text(event, seq![a, b, c]) == if text_field(event, a) is Some {
            text_field(event, a)
        } else if text_field(event, b) is Some {
            text_field(event, b)
        } else {
            text_field(event, c)
        },
{
    let names = seq![a, b, c];
    assert(names.drop_first() =~= seq![b, c]);
    assert(names.drop_first().drop_first() =~= seq![c]);
    assert(names.drop_first().drop_first().drop_first() =~= seq![]);
    reveal_with_fuel(first_text, 4);
}

proof fn lemma_first_text_4(
    event: JsonView,
    a: Seq<char>,
    b: Seq<char>,
    c: Seq<char>,
    d: Seq<char>,
)
    ensures
        first_text(event, seq![a, b, c, d]) == if text_field(event, a) is Some {
            text_field(event, a)
        } else if text_field(event, b) is Some {
            text_field(event, b)
        } else if text_field(event, c) is Some {
            text_field(event, c)
        } else {
            text_field(event, d)
        },
{
    let names = seq![a, b, c, d];
    assert(names.drop_first() =~= seq![b, c, d]);
    lemma_first_text_3(event, b, c, d);
}

// ---------------------------------------------------------------------------
// What the envelope never carries
// ---------------------------------------------------------------------------
/// No copied field has a name that points to credentials, and none is copied that is not on
/// the list.
pub proof fn lemma_sensitive_fields_are_never_copied(line: EventCursor, event: JsonView)
    requires
        event is Object,
    ensures
        forall|key: Seq<char>| #[trigger]
            normalized(line, event).fields.dom().contains(key) ==> is_allowed_field(key)
                && !is_sensitive_field(key) && !is_structural_field(key),
{
    let nothing = nothing_gathered();
    lemma_gathered_is_safe(nothing, event->Object_0);
    let outer = gathered(nothing, event->Object_0);
    match event.field("item"@) {
        Some(JsonView::Object(fields)) => {
            lemma_gathered_is_safe(outer, fields);
        },
        _ => {},
    }
}

pub open spec fn only_safe(state: Gathered) -> bool {
    forall|key: Seq<char>| #[trigger]
        state.fields.dom().contains(key) ==> is_allowed_field(key) && !is_sensitive_field(key)
            && !is_structural_field(key)
}

proof fn lemma_gathered_is_safe(state: Gathered, fields: Fields)
    requires
        only_safe(state),
    ensures
        only_safe(gathered(state, fields)),
    decreases fields.len(),
{
    if fields.len() > 0 {
        lemma_gathered_is_safe(state, fields.drop_last());
    }
}

// ---------------------------------------------------------------------------
// What the envelope carries
// ---------------------------------------------------------------------------
proof fn lemma_letter_missing(name: Seq<char>, part: Seq<char>, i: int)
    requires
        0 <= i < part.len(),
        !name.contains(part[i]),
    ensures
        !occurs_in(name, part),
{
    assert forall|at: int| !crate::text::occurs_at(name, part, at) by {
        if crate::text::occurs_at(name, part, at) {
            assert(name.subrange(at, at + part.len())[i] == name[at + i]);
            assert(name.contains(part[i]));
        }
    }
}

/// The names under which events carry what was said, and by whom.
pub open spec fn carries_words(name: Seq<char>) -> bool {
    ||| name == "message"@
    ||| name == "content"@
    ||| name == "text"@
    ||| name == "delta"@
    ||| name == "name"@
    ||| name == "role"@
}

/// None of the names under which events carry what was said points to credentials.
proof fn lemma_words_are_not_sensitive(name: Seq<char>)
    requires
        carries_words(name),
    ensures
        !is_sensitive_field(name),
        !is_structural_field(name),
{
    let lowered = lower_of(name);
    assert(lowered.len() == name.len());
    reveal_strlit("authorization");
    reveal_strlit("token");
    reveal_strlit("secret");
    reveal_strlit("password");
    reveal_strlit("cookie");
    reveal_strlit("api_key");
    reveal_strlit("apikey");
    reveal_strlit("credential");
    reveal_strlit("headers");
    reveal_strlit("env");
    reveal_strlit("arguments");
    reveal_strlit("args");
    reveal_strlit("input");
    reveal_strlit("output");
    reveal_strlit("result");
    reveal_strlit("type");
    reveal_strlit("timestamp");
    reveal_strlit("created_at");
    reveal_strlit("createdAt");
    reveal_strlit("session_id");
    reveal_strlit("sessionId");
    reveal_strlit("thread_id");
    reveal_strlit("threadId");
    reveal_strlit("event");
    reveal_strlit("item");
    if name == "message"@ {
        reveal_strlit("message");
        lemma_letter_missing(lowered, "authorization"@, 1);
        lemma_letter_missing(lowered, "token"@, 0);
        lemma_letter_missing(lowered, "secret"@, 2);
        lemma_letter_missing(lowered, "password"@, 0);
        lemma_letter_missing(lowered, "cookie"@, 0);
        lemma_letter_missing(lowered, "api_key"@, 1);
        lemma_letter_missing(lowered, "apikey"@, 1);
        lemma_letter_missing(lowered, "credential"@, 0);
        lemma_letter_missing(lowered, "headers"@, 0);
        lemma_letter_missing(lowered, "env"@, 1);
        lemma_letter_missing(lowered, "arguments"@, 1);
        lemma_letter_missing(lowered, "args"@, 1);
        lemma_letter_missing(lowered, "input"@, 0);
        lemma_letter_missing(lowered, "output"@, 0);
        lemma_letter_missing(lowered, "result"@, 0);
    }
    if name == "content"@ {
        reveal_strlit("content");
        lemma_letter_missing(lowered, "authorization"@, 0);
        lemma_letter_missing(lowered, "token"@, 2);
        lemma_letter_missing(lowered, "secret"@, 0);
        lemma_letter_missing(lowered, "password"@, 0);
        lemma_letter_missing(lowered, "cookie"@, 3);
        lemma_letter_missing(lowered, "api_key"@, 0);
        lemma_letter_missing(lowered, "apikey"@, 0);
        lemma_letter_missing(lowered, "credential"@, 1);
        lemma_letter_missing(lowered, "headers"@, 0);
        lemma_letter_missing(lowered, "env"@, 2);
        lemma_letter_missing(lowered, "arguments"@, 0);
        lemma_letter_missing(lowered, "args"@, 0);
        lemma_letter_missing(lowered, "input"@, 0);
        lemma_letter_missing(lowered, "output"@, 1);
        lemma_letter_missing(lowered, "result"@, 0);
    }
    if name == "text"@ {
        reveal_strlit("text");
        assert("text"@[1] != "type"@[1]);
        assert("text"@[0] != "item"@[0]);
        lemma_letter_missing(lowered, "authorization"@, 0);
        lemma_letter_missing(lowered, "token"@, 1);
        lemma_letter_missing(lowered, "secret"@, 0);
        lemma_letter_missing(lowered, "password"@, 0);
        lemma_letter_missing(lowered, "cookie"@, 0);
        lemma_letter_missing(lowered, "api_key"@, 0);
        lemma_letter_missing(lowered, "apikey"@, 0);
        lemma_letter_missing(lowered, "credential"@, 0);
        lemma_letter_missing(lowered, "headers"@, 0);
        lemma_letter_missing(lowered, "env"@, 1);
        lemma_letter_missing(lowered, "arguments"@, 0);
        lemma_letter_missing(lowered, "args"@, 0);
        lemma_letter_missing(lowered, "input"@, 0);
        lemma_letter_missing(lowered, "output"@, 0);
        lemma_letter_missing(lowered, "result"@, 0);
    }
    if name == "delta"@ {
        reveal_strlit("delta");
        assert("delta"@[0] != "event"@[0]);
        lemma_letter_missing(lowered, "authorization"@, 1);
        lemma_letter_missing(lowered, "token"@, 1);
        lemma_letter_missing(lowered, "secret"@, 0);
        lemma_letter_missing(lowered, "password"@, 0);
        lemma_letter_missing(lowered, "cookie"@, 0);
        lemma_letter_missing(lowered, "api_key"@, 1);
        lemma_letter_missing(lowered, "apikey"@, 1);
        lemma_letter_missing(lowered, "credential"@, 0);
        lemma_letter_missing(lowered, "headers"@, 0);
        lemma_letter_missing(lowered, "env"@, 1);
        lemma_letter_missing(lowered, "arguments"@, 1);
        lemma_letter_missing(lowered, "args"@, 1);
        lemma_letter_missing(lowered, "input"@, 0);
        lemma_letter_missing(lowered, "output"@, 0);
        lemma_letter_missing(lowered, "result"@, 0);
    }
    if name == "name"@ {
        reveal_strlit("name");
        assert("name"@[0] != "type"@[0]);
        assert("name"@[0] != "item"@[0]);
        lemma_letter_missing(lowered, "authorization"@, 1);
        lemma_letter_missing(lowered, "token"@, 0);
        lemma_letter_missing(lowered, "secret"@, 0);
        lemma_letter_missing(lowered, "password"@, 0);
        lemma_letter_missing(lowered, "cookie"@, 0);
        lemma_letter_missing(lowered, "api_key"@, 1);
        lemma_letter_missing(lowered, "apikey"@, 1);
        lemma_letter_missing(lowered, "credential"@, 0);
        lemma_letter_missing(lowered, "headers"@, 0);
        lemma_letter_missing(lowered, "env"@, 2);
        lemma_letter_missing(lowered, "arguments"@, 1);
        lemma_letter_missing(lowered, "args"@, 1);
        lemma_letter_missing(lowered, "input"@, 0);
        lemma_letter_missing(lowered, "output"@, 0);
        lemma_letter_missing(lowered, "result"@, 0);
    }
    if name == "role"@ {
        reveal_strlit("role");
        assert("role"@[0] != "type"@[0]);
        assert("role"@[0] != "item"@[0]);
        lemma_letter_missing(lowered, "authorization"@, 0);
        lemma_letter_missing(lowered, "token"@, 0);
        lemma_letter_missing(lowered, "secret"@, 0);
        lemma_letter_missing(lowered, "password"@, 0);
        lemma_letter_missing(lowered, "cookie"@, 0);
        lemma_letter_missing(lowered, "api_key"@, 0);
        lemma_letter_missing(lowered, "apikey"@, 0);
        lemma_letter_missing(lowered, "credential"@, 0);
        lemma_letter_missing(lowered, "headers"@, 0);
        lemma_letter_missing(lowered, "env"@, 1);
        lemma_letter_missing(lowered, "arguments"@, 0);
        lemma_letter_missing(lowered, "args"@, 0);
        lemma_letter_missing(lowered, "input"@, 0);
        lemma_letter_missing(lowered, "output"@, 1);
        lemma_letter_missing(lowered, "result"@, 2);
    }
}

/// A value that says this: a text, or a message with this text as its content, or one whose
/// content has this text.
pub open spec fn says(value: JsonView, text: Seq<char>) -> bool {
    ||| value == JsonView::Text(text)
    ||| value.names_once() && value.has("content"@, JsonView::Text(text))
    ||| exists|content: JsonView|
        value.names_once() && content.names_once() && #[trigger] value.has("content"@, content)
            && content.has("text"@, JsonView::Text(text))
}

/// The copy is the text itself, or the start of one that is too long.
pub open spec fn is_bounded_copy(copy: JsonView, text: Seq<char>) -> bool {
    copy matches JsonView::Text(kept) && kept.is_prefix_of(text) && (kept.len() == text.len()
        || kept.len() == MAX_EVENT_TEXT_CHARS)
}

proof fn lemma_said_text(value: JsonView, text: Seq<char>)
    requires
        says(value, text),
    ensures
        message_text(value) == Some(text),
{
    if value != JsonView::Text(text) {
        lemma_field_is_found(value, "content"@);
        if !value.has("content"@, JsonView::Text(text)) {
            let content = choose|content: JsonView|
                content.names_once() && #[trigger] value.has("content"@, content) && content.has(
                    "text"@,
                    JsonView::Text(text),
                );
            assert(value.field("content"@) == Some(content));
            lemma_field_is_found(content, "text"@);
            assert(content.field("text"@) == Some(JsonView::Text(text)));
        } else {
            assert(value.field("content"@) == Some(JsonView::Text(text)));
        }
    }
}

/// What was gathered under one name: the copy, and whether the name was dropped or redacted.
spec fn gathered_at(state: Gathered, key: Seq<char>) -> (Option<JsonView>, bool, bool) {
    (
        if state.fields.dom().contains(key) {
            Some(state.fields[key])
        } else {
            None
        },
        state.dropped.contains(key),
        state.redacted.contains(key),
    )
}

proof fn lemma_gathered_one_at(state: Gathered, name: Seq<char>, value: JsonView, key: Seq<char>)
    ensures
        name != key ==> gathered_at(gathered_one(state, name, value), key) == gathered_at(
            state,
            key,
        ),
        name == key ==> gathered_at(gathered_one(state, name, value), key) == (
            if is_structural_field(key) {
                gathered_at(state, key)
            } else if is_sensitive_field(key) {
                (gathered_at(state, key).0, gathered_at(state, key).1, true)
            } else {
                match copied_field(key, value) {
                    Some(copy) => (Some(copy), gathered_at(state, key).1, gathered_at(state, key).2),
                    None => (gathered_at(state, key).0, true, gathered_at(state, key).2),
                }
            }
        ),
{
    lemma_pushed_contains(state.dropped, name, key);
    lemma_pushed_contains(state.redacted, name, key);
}

proof fn lemma_pushed_contains(all: Seq<Seq<char>>, new: Seq<char>, key: Seq<char>)
    ensures
        all.push(new).contains(key) <==> all.contains(key) || new == key,
{
    let longer = all.push(new);
    if all.contains(key) {
        let k = choose|k: int| 0 <= k < all.len() && all[k] == key;
        assert(longer[k] == key);
    }
    if new == key {
        assert(longer[all.len() as int] == key);
    }
    if longer.contains(key) && new != key {
        let k = choose|k: int| 0 <= k < longer.len() && longer[k] == key;
        assert(all[k] == key);
    }
}

proof fn lemma_gathered_at(state: Gathered, fields: Fields, key: Seq<char>, k: int)
    requires
        JsonView::Object(fields).names_once(),
        0 <= k < fields.len() ==> fields[k].0 == key,
        !(0 <= k < fields.len()) ==> forall|j: int|
            0 <= j < fields.len() ==> (#[trigger] fields[j]).0 != key,
    ensures
        gathered_at(gathered(state, fields), key) == if 0 <= k < fields.len() {
            gathered_at(gathered_one(state, key, fields[k].1), key)
        } else {
            gathered_at(state, key)
        },
    decreases fields.len(),
{
    if fields.len() > 0 {
        let rest = fields.drop_last();
        let last = fields.last();
        assert(JsonView::Object(fields)->Object_0 == fields);
        assert forall|i: int, j: int| 0 <= i < j < rest.len() implies (#[trigger] rest[i]).0 != (
        #[trigger] rest[j]).0 by {
            assert(rest[i] == fields[i] && rest[j] == fields[j]);
        }
        assert forall|j: int| 0 <= j < rest.len() implies #[trigger] rest[j] == fields[j] by {}
        if k == fields.len() - 1 {
            assert forall|j: int| 0 <= j < rest.len() implies (#[trigger] rest[j]).0 != key by {
                assert(fields[j].0 != fields[k].0);
            }
            lemma_gathered_at(state, rest, key, -1);
        } else {
            if 0 <= k < fields.len() {
                assert(fields[k].0 != fields[fields.len() - 1].0);
                lemma_gathered_at(state, rest, key, k);
            } else {
                assert(fields[fields.len() - 1].0 != key);
                lemma_gathered_at(state, rest, key, -1);
            }
        }
        let before = gathered(state, rest);
        lemma_gathered_one_at(before, last.0, last.1, key);
        if 0 <= k < fields.len() {
            lemma_gathered_one_at(state, key, fields[k].1, key);
        }
    }
}

/// The item of an event, if it has one that is an object.
pub open spec fn has_item(event: JsonView, item: JsonView) -> bool {
    item is Object && event.has("item"@, item)
}

proof fn lemma_event_without_item(event: JsonView, key: Seq<char>, value: JsonView)
    requires
        event.names_once(),
        event.has(key, value),
        forall|item: JsonView| !has_item(event, item),
    ensures
        gathered_at(event_fields(event), key) == gathered_at(
            gathered_one(nothing_gathered(), key, value),
            key,
        ),
{
    let fields = event->Object_0;
    let k = choose|k: int| 0 <= k < fields.len() && #[trigger] fields[k] == (key, value);
    lemma_gathered_at(nothing_gathered(), fields, key, k);
    lemma_field_is_found(event, "item"@);
    if let Some(item) = event.field("item"@) {
        assert(event.has("item"@, item));
        assert(!has_item(event, item));
    }
}

proof fn lemma_event_with_item(event: JsonView, item: JsonView, key: Seq<char>, value: JsonView)
    requires
        event.names_once(),
        item.names_once(),
        has_item(event, item),
        item.has(key, value),
    ensures
        gathered_at(event_fields(event), key) == gathered_at(
            gathered_one(gathered(nothing_gathered(), event->Object_0), key, value),
            key,
        ),
{
    let fields = item->Object_0;
    let k = choose|k: int| 0 <= k < fields.len() && #[trigger] fields[k] == (key, value);
    lemma_field_is_found(event, "item"@);
    assert(event.field("item"@) == Some(item));
    lemma_gathered_at(gathered(nothing_gathered(), event->Object_0), fields, key, k);
}

proof fn lemma_sorted_contains(all: Seq<Seq<char>>, key: Seq<char>)
    ensures
        sorted_texts(all).contains(key) <==> all.contains(key),
{
    lemma_sorted_texts(all);
    all.to_multiset_ensures();
    sorted_texts(all).to_multiset_ensures();
    assert(all.contains(key) <==> all.to_multiset().count(key) > 0);
    assert(sorted_texts(all).contains(key) <==> sorted_texts(all).to_multiset().count(key) > 0);
}

/// What was said is replayed as it was said: under each of the names that carry words, the text
/// of an event, or of its item, is copied whole up to the limit, and the name is neither dropped
/// nor redacted.
pub proof fn lemma_words_are_replayed(
    line: EventCursor,
    event: JsonView,
    name: Seq<char>,
    value: JsonView,
    text: Seq<char>,
)
    requires
        event.names_once(),
        event.has(name, value),
        forall|item: JsonView| !has_item(event, item),
        name == "message"@ || name == "content"@ || (carries_words(name) && value is Text),
        says(value, text),
    ensures
        ({
            let replayed = normalized(line, event);
            &&& replayed.fields.dom().contains(name)
            &&& is_bounded_copy(replayed.fields[name], text)
            &&& !replayed.dropped_fields.contains(name)
            &&& !replayed.redacted_fields.contains(name)
        }),
{
    lemma_words_are_not_sensitive(name);
    lemma_said_text(value, text);
    lemma_event_without_item(event, name, value);
    lemma_gathered_one_at(nothing_gathered(), name, value, name);
    let found = event_fields(event);
    lemma_sorted_contains(found.dropped, name);
    lemma_sorted_contains(found.redacted, name);
    assert(is_bounded_copy(copied_field(name, value)->0, text));
}

/// The words of an event's item are replayed like those of the event itself.
pub proof fn lemma_words_of_the_item_are_replayed(
    line: EventCursor,
    event: JsonView,
    item: JsonView,
    name: Seq<char>,
    value: JsonView,
    text: Seq<char>,
)
    requires
        event.names_once(),
        item.names_once(),
        has_item(event, item),
        item.has(name, value),
        name == "message"@ || name == "content"@ || (carries_words(name) && value is Text),
        says(value, text),
    ensures
        normalized(line, event).fields.dom().contains(name),
        is_bounded_copy(normalized(line, event).fields[name], text),
{
    lemma_words_are_not_sensitive(name);
    lemma_said_text(value, text);
    lemma_event_with_item(event, item, name, value);
    lemma_gathered_one_at(gathered(nothing_gathered(), event->Object_0), name, value, name);
    assert(is_bounded_copy(copied_field(name, value)->0, text));
}

/// Every field of an event without an item goes one way and no other: it is copied, named as
/// dropped or named as redacted; or it belongs to the envelope and goes nowhere. A value that is
/// copied without being said is the value itself.
pub proof fn lemma_every_field_is_accounted_for(
    line: EventCursor,
    event: JsonView,
    name: Seq<char>,
    value: JsonView,
)
    requires
        event.names_once(),
        event.has(name, value),
        forall|item: JsonView| !has_item(event, item),
    ensures
        ({
            let replayed = normalized(line, event);
            let copied = replayed.fields.dom().contains(name);
            let dropped = replayed.dropped_fields.contains(name);
            let redacted = replayed.redacted_fields.contains(name);
            &&& is_structural_field(name) ==> !copied && !dropped && !redacted
            &&& !is_structural_field(name) ==> copied || dropped || redacted
            &&& !(copied && dropped) && !(copied && redacted) && !(dropped && redacted)
            &&& copied && !(replayed.fields[name] is Text) ==> replayed.fields[name] == value
            &&& copied && replayed.fields[name] is Text ==> exists|text: Seq<char>|
                message_text(value) == Some(text) && #[trigger] is_bounded_copy(
                    replayed.fields[name],
                    text,
                )
        }),
{
    lemma_event_without_item(event, name, value);
    lemma_gathered_one_at(nothing_gathered(), name, value, name);
    let found = event_fields(event);
    lemma_sorted_contains(found.dropped, name);
    lemma_sorted_contains(found.redacted, name);
    if found.fields.dom().contains(name) && found.fields[name] is Text {
        assert(is_bounded_copy(found.fields[name], message_text(value)->0));
    }
}

/// An event is replayed with the time and the session that it names for itself, up to the limit
/// for such texts, whichever of the accepted spellings it uses.
pub proof fn lemma_time_and_session_are_replayed(
    line: EventCursor,
    event: JsonView,
    name: Seq<char>,
    text: Seq<char>,
)
    requires
        event.names_once(),
        event.has(name, JsonView::Text(text)),
        text.len() <= MAX_EVENT_FIELD_CHARS,
    ensures
        normalized(line, event).source_line == line,
        name == "timestamp"@ ==> normalized(line, event).timestamp == Some(text),
        name == "created_at"@ && event.lacks("timestamp"@) ==> normalized(line, event).timestamp
            == Some(text),
        name == "createdAt"@ && event.lacks("timestamp"@) && event.lacks("created_at"@)
            ==> normalized(line, event).timestamp == Some(text),
        name == "session_id"@ ==> normalized(line, event).session_id == Some(text),
        name == "sessionId"@ && event.lacks("session_id"@) ==> normalized(line, event).session_id
            == Some(text),
        name == "thread_id"@ && event.lacks("session_id"@) && event.lacks("sessionId"@)
            ==> normalized(line, event).session_id == Some(text),
        name == "threadId"@ && event.lacks("session_id"@) && event.lacks("sessionId"@)
            && event.lacks("thread_id"@) ==> normalized(line, event).session_id == Some(text),
{
    lemma_field_is_found(event, name);
    assert(event.field(name) == Some(JsonView::Text(text)));
    lemma_field_is_found(event, "timestamp"@);
    lemma_field_is_found(event, "created_at"@);
    lemma_field_is_found(event, "session_id"@);
    lemma_field_is_found(event, "sessionId"@);
    lemma_field_is_found(event, "thread_id"@);
    lemma_first_text_3(event, "timestamp"@, "created_at"@, "createdAt"@);
    lemma_first_text_4(event, "session_id"@, "sessionId"@, "thread_id"@, "threadId"@);
}

/// The type of an event is read off its letters: case does not matter, and neither does whether
/// words are joined by `-`, by a blank or by `_`.
pub proof fn lemma_types_are_read_in_any_spelling(one: Seq<char>, other: Seq<char>)
    requires
        one.len() == other.len() <= MAX_EVENT_TYPE_CHARS,
        forall|k: int|
            0 <= k < one.len() ==> {
                ||| #[trigger] one[k] == other[k]
                ||| is_ascii_alnum(one[k]) && is_ascii_alnum(other[k]) && lower(one[k]) == lower(
                    other[k],
                )
                ||| is_word_joint(one[k]) && is_word_joint(other[k])
            },
    ensures
        normal_type(one) == normal_type(other),
        kind_of(normal_type(one)) == kind_of(normal_type(other)),
{
    lemma_type_letters_agree(one, other);
}

pub open spec fn is_word_joint(c: char) -> bool {
    c == '-' || c == ' ' || c == '_'
}

proof fn lemma_type_letters_agree(one: Seq<char>, other: Seq<char>)
    requires
        one.len() == other.len(),
        forall|k: int|
            0 <= k < one.len() ==> {
                ||| #[trigger] one[k] == other[k]
                ||| is_ascii_alnum(one[k]) && is_ascii_alnum(other[k]) && lower(one[k]) == lower(
                    other[k],
                )
                ||| is_word_joint(one[k]) && is_word_joint(other[k])
            },
    ensures
        type_letters(one) == type_letters(other),
    decreases one.len(),
{
    if one.len() > 0 {
        assert forall|k: int| 0 <= k < one.len() - 1 implies {
            ||| #[trigger] one.drop_last()[k] == other.drop_last()[k]
            ||| is_ascii_alnum(one.drop_last()[k]) && is_ascii_alnum(other.drop_last()[k])
                && lower(one.drop_last()[k]) == lower(other.drop_last()[k])
            ||| is_word_joint(one.drop_last()[k]) && is_word_joint(other.drop_last()[k])
        } by {
            assert(one.drop_last()[k] == one[k]);
        }
        lemma_type_letters_agree(one.drop_last(), other.drop_last());
        assert(one[one.len() - 1] == one.last());
        assert(lower('_') == '_');
    }
}

/// A type in lower case letters, digits and `_` is its own normal form, so the types that the
/// kinds are made of are recognized as they are written.
pub proof fn lemma_plain_types_stay(event_type: Seq<char>)
    requires
        0 < event_type.len() <= MAX_EVENT_TYPE_CHARS,
        forall|k: int|
            0 <= k < event_type.len() ==> is_ascii_alnum(#[trigger] event_type[k]) && lower(
                event_type[k],
            ) == event_type[k] || event_type[k] == '_',
    ensures
        normal_type(event_type) == event_type,
{
    lemma_plain_letters_stay(event_type);
}

proof fn lemma_plain_letters_stay(value: Seq<char>)
    requires
        forall|k: int|
            0 <= k < value.len() ==> is_ascii_alnum(#[trigger] value[k]) && lower(value[k])
                == value[k] || value[k] == '_',
    ensures
        type_letters(value) == value,
    decreases value.len(),
{
    if value.len() > 0 {
        let rest = value.drop_last();
        assert forall|k: int| 0 <= k < rest.len() implies is_ascii_alnum(#[trigger] rest[k])
            && lower(rest[k]) == rest[k] || rest[k] == '_' by {
            assert(rest[k] == value[k]);
        }
        lemma_plain_letters_stay(rest);
        assert(value[value.len() - 1] == value.last());
        assert(lower('_') == '_');
        assert(rest.push(value.last()) =~= value);
    } else {
        assert(type_letters(value) =~= value);
    }
}

/// A message is the assistant's or the user's by the role that its item names; any other item
/// gives the event its own type, and an event without an item has the type that it names.
pub proof fn lemma_events_have_the_type_they_name(event: JsonView, item: JsonView, named: Seq<char>)
    requires
        event.names_once(),
        item.names_once(),
    ensures
        has_item(event, item) && item.has("type"@, JsonView::Text("message"@)) && item.has(
            "role"@,
            JsonView::Text("assistant"@),
        ) ==> effective_type(event) == "assistant_message"@,
        has_item(event, item) && item.has("type"@, JsonView::Text("message"@)) && item.has(
            "role"@,
            JsonView::Text("user"@),
        ) ==> effective_type(event) == "user_message"@,
        has_item(event, item) && item.has("type"@, JsonView::Text(named)) && named != "message"@
            ==> effective_type(event) == named,
        event.lacks("item"@) && event.has("type"@, JsonView::Text(named)) ==> effective_type(event)
            == named,
{
    reveal_strlit("assistant");
    reveal_strlit("user");
    lemma_field_is_found(event, "item"@);
    lemma_field_is_found(event, "type"@);
    lemma_field_is_found(item, "type"@);
    lemma_field_is_found(item, "role"@);
    assert(has_item(event, item) ==> event.field("item"@) == Some(item));
    assert(item.has("type"@, JsonView::Text(named)) ==> item.field("type"@) == Some(
        JsonView::Text(named),
    ));
    assert(item.has("type"@, JsonView::Text("message"@)) ==> item.field("type"@) == Some(
        JsonView::Text("message"@),
    ));
    assert(item.has("role"@, JsonView::Text("assistant"@)) ==> item.field("role"@) == Some(
        JsonView::Text("assistant"@),
    ));
    assert(item.has("role"@, JsonView::Text("user"@)) ==> item.field("role"@) == Some(
        JsonView::Text("user"@),
    ));
    assert(event.has("type"@, JsonView::Text(named)) ==> event.field("type"@) == Some(
        JsonView::Text(named),
    ));
    assert("assistant"@.len() != "user"@.len());
}

/// The names under which events tell of themselves: what they are part of, and how it went.
pub open spec fn tells_of_itself(name: Seq<char>) -> bool {
    ||| name == "id"@
    ||| name == "turn_id"@
    ||| name == "turnId"@
    ||| name == "call_id"@
    ||| name == "callId"@
    ||| name == "tool_name"@
    ||| name == "toolName"@
    ||| name == "name"@
    ||| name == "status"@
    ||| name == "reason"@
    ||| name == "phase"@
    ||| name == "text"@
    ||| name == "delta"@
    ||| name == "role"@
}

/// What an event tells of itself is replayed: a switch, a number or nothing as it stands, and a
/// text whole up to the limit.
pub proof fn lemma_plain_values_are_replayed(
    line: EventCursor,
    event: JsonView,
    name: Seq<char>,
    value: JsonView,
)
    requires
        event.names_once(),
        event.has(name, value),
        forall|item: JsonView| !has_item(event, item),
        tells_of_itself(name),
        !is_sensitive_field(name),
        !is_structural_field(name),
    ensures
        ({
            let replayed = normalized(line, event);
            &&& value is Bool || value is Number || value is Null ==> replayed.fields.dom().contains(
                name,
            ) && replayed.fields[name] == value
            &&& value matches JsonView::Text(text) ==> replayed.fields.dom().contains(name)
                && is_bounded_copy(replayed.fields[name], text)
            &&& value is Array || value is Object ==> replayed.dropped_fields.contains(name)
        }),
{
    lemma_not_said(name);
    lemma_event_without_item(event, name, value);
    lemma_gathered_one_at(nothing_gathered(), name, value, name);
    let found = event_fields(event);
    lemma_sorted_contains(found.dropped, name);
    if let JsonView::Text(text) = value {
        assert(message_text(value) == Some(text));
        assert(is_bounded_copy(copied_field(name, value)->0, text));
    }
}

proof fn lemma_not_said(name: Seq<char>)
    requires
        tells_of_itself(name),
    ensures
        name != "message"@,
        name != "content"@,
{
    reveal_strlit("message");
    reveal_strlit("content");
    reveal_strlit("id");
    reveal_strlit("turn_id");
    reveal_strlit("turnId");
    reveal_strlit("call_id");
    reveal_strlit("callId");
    reveal_strlit("tool_name");
    reveal_strlit("toolName");
    reveal_strlit("name");
    reveal_strlit("status");
    reveal_strlit("reason");
    reveal_strlit("phase");
    reveal_strlit("text");
    reveal_strlit("delta");
    reveal_strlit("role");
    assert("message"@.len() == 7 && "content"@.len() == 7);
    assert("message"@[0] == 'm' && "content"@[0] == 'c' && "content"@[1] == 'o');
    assert("turn_id"@[0] == 't');
    assert("call_id"@[0] == 'c' && "call_id"@[1] == 'a');
}

} // verus!
