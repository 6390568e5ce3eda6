//! Validated session records and the read-only projection of legacy ones.
use vstd::prelude::*;
use vstd::string::{StrSliceExecFns, StringExecFns};

use crate::json::{
    bool_field, get_bool, get_integer, get_text, integer_field, lemma_field_is_found,
    lemma_fields_are_read_as_they_stand, text_field, Json, JsonNumberView, JsonView,
};
use crate::text::{
    char_count, char_is_ascii_alnum, compact, compact_of, contains, decimal, decimal_of,
    decimal_u128, is_ascii_alnum, lemma_decimal_digits, occurs_at, occurs_in, pow10, to_chars, trim,
    trim_of,
};

verus! {

pub const SESSION_SCHEMA_VERSION: u32 = 1;

pub const MAX_SESSION_ID_CHARS: usize = 128;

pub const MAX_MESSAGE_CHARS: usize = 256 * 1024;

pub const MAX_MESSAGES: usize = 512;

#[derive(Clone, Copy, Debug, PartialEq, Eq, Structural)]
pub enum ChatRole {
    System,
    User,
    Assistant,
    Tool,
}

#[derive(Clone, Debug, PartialEq, Eq)]
pub struct ChatMessage {
    pub role: ChatRole,
    pub content: String,
}

pub struct ChatMessageView {
    pub role: ChatRole,
    pub content: Seq<char>,
}

impl View for ChatMessage {
    type V = ChatMessageView;

    open spec fn view(&self) -> ChatMessageView {
        ChatMessageView { role: self.role, content: self.content@ }
    }
}

impl ChatMessage {
    pub fn user(content: &str) -> (r: Self)
        ensures
            r@ == (ChatMessageView { role: ChatRole::User, content: content@ }),
    {
        ChatMessage { role: ChatRole::User, content: content.to_owned() }
    }

    pub fn assistant(content: &str) -> (r: Self)
        ensures
            r@ == (ChatMessageView { role: ChatRole::Assistant, content: content@ }),
    {
        ChatMessage { role: ChatRole::Assistant, content: content.to_owned() }
    }
}

pub open spec fn messages_view(messages: Seq<ChatMessage>) -> Seq<ChatMessageView> {
    messages.map_values(|message: ChatMessage| message@)
}

fn copy_messages(messages: &Vec<ChatMessage>) -> (r: Vec<ChatMessage>)
    ensures
        messages_view(r@) == messages_view(messages@),
{
    let mut out: Vec<ChatMessage> = Vec::new();
    let mut i: usize = 0;
    assert(messages_view(out@) =~= messages_view(messages@).take(0));
    while i < messages.len()
        invariant
            i <= messages@.len(),
            messages_view(out@) == messages_view(messages@).take(i as int),
        decreases messages@.len() - i,
    {
        let ghost before = out@;
        let copy = ChatMessage { role: messages[i].role, content: messages[i].content.clone() };
        out.push(copy);
        proof {
            assert(messages_view(out@) =~= messages_view(before).push(copy@));
            assert(messages_view(messages@).take(i + 1) =~= messages_view(messages@).take(
                i as int,
            ).push(messages@[i as int]@));
        }
        i += 1;
    }
    assert(messages_view(messages@).take(i as int) =~= messages_view(messages@));
    out
}

/// A session as it is stored.
#[derive(Clone, Debug, PartialEq, Eq)]
pub struct StoredSession {
    pub schema_version: u32,
    pub id: String,
    pub cwd: String,
    pub messages: Vec<ChatMessage>,
    pub provider: Option<String>,
    pub model: Option<String>,
    pub parent_id: Option<String>,
    pub title: String,
    pub archived: bool,
    pub pinned: bool,
    pub created_at_millis: u128,
    pub updated_at_millis: u128,
}

pub struct SessionView {
    pub schema_version: u32,
    pub id: Seq<char>,
    pub cwd: Seq<char>,
    pub messages: Seq<ChatMessageView>,
    pub provider: Option<Seq<char>>,
    pub model: Option<Seq<char>>,
    pub parent_id: Option<Seq<char>>,
    pub title: Seq<char>,
    pub archived: bool,
    pub pinned: bool,
    pub created_at_millis: u128,
    pub updated_at_millis: u128,
}

pub open spec fn opt_text(value: Option<String>) -> Option<Seq<char>> {
    match value {
        Some(text) => Some(text@),
        None => None,
    }
}

pub open spec fn opt_str(value: Option<&str>) -> Option<Seq<char>> {
    match value {
        Some(text) => Some(text@),
        None => None,
    }
}

pub(crate) fn own(value: Option<&str>) -> (r: Option<String>)
    ensures
        opt_text(r) == opt_str(value),
{
    match value {
        Some(text) => Some(text.to_owned()),
        None => None,
    }
}

pub(crate) fn copy_opt(value: &Option<String>) -> (r: Option<String>)
    ensures
        opt_text(r) == opt_text(*value),
{
    match value {
        Some(text) => Some(text.clone()),
        None => None,
    }
}

impl View for StoredSession {
    type V = SessionView;

    open spec fn view(&self) -> SessionView {
        SessionView {
            schema_version: self.schema_version,
            id: self.id@,
            cwd: self.cwd@,
            messages: messages_view(self.messages@),
            provider: opt_text(self.provider),
            model: opt_text(self.model),
            parent_id: opt_text(self.parent_id),
            title: self.title@,
            archived: self.archived,
            pinned: self.pinned,
            created_at_millis: self.created_at_millis,
            updated_at_millis: self.updated_at_millis,
        }
    }
}

// ---------------------------------------------------------------------------
// Identifiers and titles
// ---------------------------------------------------------------------------
pub open spec fn is_id_char(c: char) -> bool {
    is_ascii_alnum(c) || c == '-' || c == '_'
}

/// What is wrong with a session identifier.
pub open spec fn id_problem(id: Seq<char>) -> Option<Seq<char>> {
    if id.len() == 0 || id.len() > MAX_SESSION_ID_CHARS {
        Some("session id must contain 1 to 128 characters"@)
    } else if occurs_in(id, ".."@) || exists|k: int|
        0 <= k < id.len() && !is_id_char(#[trigger] id[k]) {
        Some("session id contains unsupported characters"@)
    } else {
        None
    }
}

pub fn validate_session_id(id: &str) -> (r: Result<(), String>)
    ensures
        match r {
            Ok(_) => id_problem(id@) is None,
            Err(message) => id_problem(id@) == Some(message@),
        },
{
    if id.is_empty() || char_count(id) > MAX_SESSION_ID_CHARS {
        return Err("session id must contain 1 to 128 characters".to_owned());
    }
    if contains(id, "..") {
        return Err("session id contains unsupported characters".to_owned());
    }
    let chars = to_chars(id);
    let mut i: usize = 0;
    while i < chars.len()
        invariant
            chars@ == id@,
            0 < chars@.len() <= MAX_SESSION_ID_CHARS,
            !occurs_in(id@, ".."@),
            i <= chars@.len(),
            forall|k: int| 0 <= k < i ==> is_id_char(#[trigger] id@[k]),
        decreases chars@.len() - i,
    {
        let c = chars[i];
        if !char_is_ascii_alnum(c) && c != '-' && c != '_' {
            assert(!is_id_char(id@[i as int]));
            return Err("session id contains unsupported characters".to_owned());
        }
        i += 1;
    }
    Ok(())
}

/// An accepted identifier names a file of its own: it has neither separators nor dots.
pub proof fn lemma_accepted_id_is_a_plain_name(id: Seq<char>)
    requires
        id_problem(id) is None,
    ensures
        0 < id.len() <= MAX_SESSION_ID_CHARS,
        !id.contains('/'),
        !id.contains('\\'),
        !id.contains('.'),
        !id.contains(':'),
{
    assert forall|k: int| 0 <= k < id.len() implies is_id_char(#[trigger] id[k]) by {}
}

/// The identifier of a session created at this time, as the given one of its process.
pub open spec fn id_of(now: u128, counter: u64) -> Seq<char> {
    "yn-"@ + decimal_of(now as nat) + "-"@ + decimal_of(counter as nat)
}

/// A generated identifier is always accepted.
pub proof fn lemma_generated_id_is_accepted(now: u128, counter: u64)
    ensures
        id_problem(id_of(now, counter)) is None,
{
    reveal_strlit("yn-");
    reveal_strlit("-");
    reveal_strlit("..");
    let id = id_of(now, counter);
    let a = decimal_of(now as nat);
    let b = decimal_of(counter as nat);
    assert(pow10(39) == 1_000_000_000_000_000_000_000_000_000_000_000_000_000) by {
        reveal_with_fuel(pow10, 40);
    }
    lemma_decimal_digits(now as nat, 39);
    lemma_decimal_digits(counter as nat, 39);
    assert forall|k: int| 0 <= k < id.len() implies is_id_char(#[trigger] id[k]) by {
        if 3 <= k < 3 + a.len() {
            assert(id[k] == a[k - 3]);
        } else if k >= 4 + a.len() {
            assert(id[k] == b[k - 4 - a.len()]);
        }
    }
    assert forall|at: int| !occurs_at(id, ".."@, at) by {
        if occurs_at(id, ".."@, at) {
            assert(id.subrange(at, at + 2)[0] == '.');
            assert(is_id_char(id[at]));
        }
    }
}

pub fn generate_id(now: u128, counter: u64) -> (r: String)
    ensures
        r@ == id_of(now, counter),
        id_problem(r@) is None,
{
    let mut id = "yn-".to_owned();
    id.append(decimal_u128(now).as_str());
    id.append("-");
    id.append(decimal(counter).as_str());
    proof {
        lemma_generated_id_is_accepted(now, counter);
    }
    id
}

/// A title made of the first message.
pub open spec fn preview_of(value: Seq<char>) -> Seq<char> {
    if trim_of(value).len() == 0 {
        "untitled session"@
    } else {
        compact_of(value, 48)
    }
}

pub fn preview_title(value: &str) -> (r: String)
    ensures
        r@ == preview_of(value@),
{
    if trim(value).is_empty() {
        return "untitled session".to_owned();
    }
    compact(value, 48)
}

// ---------------------------------------------------------------------------
// Validation
// ---------------------------------------------------------------------------
pub open spec fn too_long(message: ChatMessageView) -> bool {
    message.content.len() > MAX_MESSAGE_CHARS
}

/// What is wrong with a stored session.
pub open spec fn session_problem(session: SessionView) -> Option<Seq<char>> {
    if session.schema_version != SESSION_SCHEMA_VERSION {
        Some(
            "unsupported session schema_version="@ + decimal_of(session.schema_version as nat)
                + "; expected 1"@,
        )
    } else if let Some(problem) = id_problem(session.id) {
        Some(problem)
    } else if session.messages.len() > MAX_MESSAGES {
        Some("session has more than 512 messages"@)
    } else if exists|k: int|
        0 <= k < session.messages.len() && too_long(#[trigger] session.messages[k]) {
        Some("session message exceeds 262144 characters"@)
    } else {
        None
    }
}

impl StoredSession {
    pub fn validate(&self) -> (r: Result<(), String>)
        ensures
            match r {
                Ok(_) => session_problem(self@) is None,
                Err(message) => session_problem(self@) == Some(message@),
            },
    {
        if self.schema_version != SESSION_SCHEMA_VERSION {
            let mut message = "unsupported session schema_version=".to_owned();
            message.append(decimal(self.schema_version as u64).as_str());
            message.append("; expected 1");
            return Err(message);
        }
        match validate_session_id(self.id.as_str()) {
            Ok(()) => {},
            Err(message) => return Err(message),
        }
        if self.messages.len() > MAX_MESSAGES {
            return Err("session has more than 512 messages".to_owned());
        }
        let mut i: usize = 0;
        while i < self.messages.len()
            invariant
                self.schema_version == SESSION_SCHEMA_VERSION,
                id_problem(self.id@) is None,
                self.messages@.len() <= MAX_MESSAGES,
                i <= self.messages@.len(),
                forall|k: int| 0 <= k < i ==> !too_long(#[trigger] self@.messages[k]),
            decreases self.messages@.len() - i,
        {
            assert(self@.messages[i as int] == self.messages@[i as int]@);
            if char_count(self.messages[i].content.as_str()) > MAX_MESSAGE_CHARS {
                return Err("session message exceeds 262144 characters".to_owned());
            }
            i += 1;
        }
        Ok(())
    }

    /// A new session without messages.
    pub fn empty(cwd: &str, now: u128, counter: u64) -> (r: Result<Self, String>)
        ensures
            r is Ok,
            r->Ok_0@ == (SessionView {
                schema_version: SESSION_SCHEMA_VERSION,
                id: id_of(now, counter),
                cwd: cwd@,
                messages: seq![],
                provider: None,
                model: None,
                parent_id: None,
                title: "untitled session"@,
                archived: false,
                pinned: false,
                created_at_millis: now,
                updated_at_millis: now,
            }),
            session_problem(r->Ok_0@) is None,
    {
        let session = StoredSession {
            schema_version: SESSION_SCHEMA_VERSION,
            id: generate_id(now, counter),
            cwd: cwd.to_owned(),
            messages: Vec::new(),
            provider: None,
            model: None,
            parent_id: None,
            title: "untitled session".to_owned(),
            archived: false,
            pinned: false,
            created_at_millis: now,
            updated_at_millis: now,
        };
        assert(session@.messages =~= seq![]);
        match session.validate() {
            Ok(()) => Ok(session),
            Err(message) => Err(message),
        }
    }

    /// A new session with one exchange.
    pub fn new(cwd: &str, user: &str, assistant: &str, now: u128, counter: u64) -> (r: Result<
        Self,
        String,
    >)
        ensures
            match r {
                Ok(session) => {
                    &&& user@.len() <= MAX_MESSAGE_CHARS
                    &&& assistant@.len() <= MAX_MESSAGE_CHARS
                    &&& session_problem(session@) is None
                    &&& session@ == (SessionView {
                        schema_version: SESSION_SCHEMA_VERSION,
                        id: id_of(now, counter),
                        cwd: cwd@,
                        messages: exchange(user@, assistant@),
                        provider: None,
                        model: None,
                        parent_id: None,
                        title: preview_of(user@),
                        archived: false,
                        pinned: false,
                        created_at_millis: now,
                        updated_at_millis: now,
                    })
                },
                Err(message) => (user@.len() > MAX_MESSAGE_CHARS || assistant@.len()
                    > MAX_MESSAGE_CHARS) && message@
                    == "session message exceeds 262144 characters"@,
            },
    {
        let mut messages: Vec<ChatMessage> = Vec::new();
        messages.push(ChatMessage::user(user));
        messages.push(ChatMessage::assistant(assistant));
        assert(messages_view(messages@) =~= exchange(user@, assistant@));
        let session = StoredSession {
            schema_version: SESSION_SCHEMA_VERSION,
            id: generate_id(now, counter),
            cwd: cwd.to_owned(),
            messages,
            provider: None,
            model: None,
            parent_id: None,
            title: preview_title(user),
            archived: false,
            pinned: false,
            created_at_millis: now,
            updated_at_millis: now,
        };
        proof {
            assert(session@.messages[0].content == user@);
            assert(session@.messages[1].content == assistant@);
        }
        match session.validate() {
            Ok(()) => Ok(session),
            Err(message) => Err(message),
        }
    }

    /// Adds one exchange, and the provider and model where they are given.
    pub fn append(
        &mut self,
        user: &str,
        assistant: &str,
        provider: Option<&str>,
        model: Option<&str>,
        now: u128,
    ) -> (r: Result<(), String>)
        ensures
            match r {
                Ok(_) => append_problem(old(self)@, user@, assistant@) is None && final(self)@
                    == (SessionView {
                    messages: old(self)@.messages + exchange(user@, assistant@),
                    provider: or_else(opt_str(provider), old(self)@.provider),
                    model: or_else(opt_str(model), old(self)@.model),
                    updated_at_millis: now,
                    ..old(self)@
                }),
                Err(message) => append_problem(old(self)@, user@, assistant@) == Some(message@)
                    && final(self)@ == old(self)@,
            },
    {
        if self.messages.len().saturating_add(2) > MAX_MESSAGES {
            return Err("session has reached 512 messages".to_owned());
        }
        if char_count(user) > MAX_MESSAGE_CHARS || char_count(assistant) > MAX_MESSAGE_CHARS {
            return Err("session message exceeds 262144 characters".to_owned());
        }
        let ghost before = self.messages@;
        self.messages.push(ChatMessage::user(user));
        self.messages.push(ChatMessage::assistant(assistant));
        assert(messages_view(self.messages@) =~= messages_view(before) + exchange(
            user@,
            assistant@,
        ));
        self.set_provider_model(provider, model);
        self.updated_at_millis = now;
        Ok(())
    }

    /// Notes the provider and model where they are given.
    pub fn set_provider_model(&mut self, provider: Option<&str>, model: Option<&str>)
        ensures
            final(self)@ == (SessionView {
                provider: or_else(opt_str(provider), old(self)@.provider),
                model: or_else(opt_str(model), old(self)@.model),
                ..old(self)@
            }),
    {
        if let Some(provider) = provider {
            self.provider = Some(provider.to_owned());
        }
        if let Some(model) = model {
            self.model = Some(model.to_owned());
        }
    }

    /// A new session that goes on from this one.
    fn derived(self, title_prefix: &str, now: u128, counter: u64) -> (r: Self)
        ensures
            r@ == derived_of(self@, title_prefix@, now, counter),
    {
        let mut title = title_prefix.to_owned();
        title.append(self.title.as_str());
        StoredSession {
            schema_version: self.schema_version,
            id: generate_id(now, counter),
            cwd: self.cwd,
            messages: self.messages,
            provider: self.provider,
            model: self.model,
            parent_id: Some(self.id),
            title,
            archived: false,
            pinned: false,
            created_at_millis: now,
            updated_at_millis: now,
        }
    }

    /// The writable copy of a legacy session.
    pub fn import_from_legacy(self, now: u128, counter: u64) -> (r: Self)
        ensures
            r@ == derived_of(self@, "Imported: "@, now, counter),
    {
        self.derived("Imported: ", now, counter)
    }

    pub fn fork(self, now: u128, counter: u64) -> (r: Self)
        ensures
            r@ == derived_of(self@, "Fork of "@, now, counter),
    {
        self.derived("Fork of ", now, counter)
    }

    pub fn set_archived(&mut self, archived: bool, now: u128)
        ensures
            final(self)@ == (SessionView { archived, updated_at_millis: now, ..old(self)@ }),
    {
        self.archived = archived;
        self.updated_at_millis = now;
    }

    pub fn set_pinned(&mut self, pinned: bool, now: u128)
        ensures
            final(self)@ == (SessionView { pinned, updated_at_millis: now, ..old(self)@ }),
    {
        self.pinned = pinned;
        self.updated_at_millis = now;
    }

    pub fn id(&self) -> (r: &str)
        ensures
            r@ == self@.id,
    {
        self.id.as_str()
    }

    /// What callers see of a session.
    pub fn snapshot(&self, legacy: bool) -> (r: SessionSnapshot)
        ensures
            r.session@ == self@,
            r.legacy == legacy,
    {
        SessionSnapshot {
            session: StoredSession {
                schema_version: self.schema_version,
                id: self.id.clone(),
                cwd: self.cwd.clone(),
                messages: copy_messages(&self.messages),
                provider: copy_opt(&self.provider),
                model: copy_opt(&self.model),
                parent_id: copy_opt(&self.parent_id),
                title: self.title.clone(),
                archived: self.archived,
                pinned: self.pinned,
                created_at_millis: self.created_at_millis,
                updated_at_millis: self.updated_at_millis,
            },
            legacy,
        }
    }

    /// The projection of a legacy record.
    pub fn from_legacy(value: &Json) -> (r: Result<Self, String>)
        ensures
            match legacy_session(value@) {
                Ok(session) => match session_problem(session) {
                    None => r is Ok && r->Ok_0@ == session,
                    Some(problem) => r is Err && r->Err_0@ == problem,
                },
                Err(problem) => r is Err && r->Err_0@ == problem,
            },
    {
        if !value.is_object() {
            return Err("legacy session root must be an object".to_owned());
        }
        let id = match string_field(value, "id") {
            Ok(text) => text,
            Err(message) => return Err(message),
        };
        let cwd = match string_field(value, "cwd") {
            Ok(text) => text,
            Err(message) => return Err(message),
        };
        let prompt = match string_field(value, "prompt") {
            Ok(text) => text,
            Err(message) => return Err(message),
        };
        let mut messages: Vec<ChatMessage> = Vec::new();
        messages.push(ChatMessage::user(prompt.as_str()));
        if let Some(response) = get_text(value, "final_response") {
            messages.push(ChatMessage::assistant(response));
        }
        proof {
            assert(messages_view(messages@) =~= legacy_messages(
                prompt@,
                text_field(value@, "final_response"@),
            ));
        }
        let created_at_millis: u128 = match get_integer(value, "created_at_millis") {
            Some(millis) => millis as u128,
            None => 0,
        };
        let updated_at_millis: u128 = match get_integer(value, "updated_at_millis") {
            Some(millis) => millis as u128,
            None => created_at_millis,
        };
        let title = match get_text(value, "title") {
            Some(title) => title.to_owned(),
            None => preview_title(prompt.as_str()),
        };
        let archived = match get_bool(value, "archived") {
            Some(archived) => archived,
            None => false,
        };
        let pinned = match get_bool(value, "pinned") {
            Some(pinned) => pinned,
            None => false,
        };
        let session = StoredSession {
            schema_version: SESSION_SCHEMA_VERSION,
            id,
            cwd,
            messages,
            provider: own(get_text(value, "provider")),
            model: own(get_text(value, "model")),
            parent_id: own(get_text(value, "parent_id")),
            title,
            archived,
            pinned,
            created_at_millis,
            updated_at_millis,
        };
        match session.validate() {
            Ok(()) => Ok(session),
            Err(message) => Err(message),
        }
    }
}

/// What callers see of a session, and whether it is a read-only legacy one.
#[derive(Clone, Debug, PartialEq, Eq)]
pub struct SessionSnapshot {
    pub session: StoredSession,
    pub legacy: bool,
}

/// One exchange between the user and the assistant.
pub open spec fn exchange(user: Seq<char>, assistant: Seq<char>) -> Seq<ChatMessageView> {
    seq![
        ChatMessageView { role: ChatRole::User, content: user },
        ChatMessageView { role: ChatRole::Assistant, content: assistant },
    ]
}

pub open spec fn or_else(first: Option<Seq<char>>, second: Option<Seq<char>>) -> Option<Seq<char>> {
    if first is Some {
        first
    } else {
        second
    }
}

/// What keeps an exchange from being added.
pub open spec fn append_problem(
    session: SessionView,
    user: Seq<char>,
    assistant: Seq<char>,
) -> Option<Seq<char>> {
    if session.messages.len() + 2 > MAX_MESSAGES {
        Some("session has reached 512 messages"@)
    } else if user.len() > MAX_MESSAGE_CHARS || assistant.len() > MAX_MESSAGE_CHARS {
        Some("session message exceeds 262144 characters"@)
    } else {
        None
    }
}

/// A session that goes on from another one: it has the same messages and knows its parent.
pub open spec fn derived_of(
    session: SessionView,
    title_prefix: Seq<char>,
    now: u128,
    counter: u64,
) -> SessionView {
    SessionView {
        id: id_of(now, counter),
        parent_id: Some(session.id),
        title: title_prefix + session.title,
        archived: false,
        pinned: false,
        created_at_millis: now,
        updated_at_millis: now,
        ..session
    }
}

/// Adding an exchange to a valid session, going on from one, and changing its marks all give a
/// valid session.
pub proof fn lemma_changes_keep_sessions_valid(
    session: SessionView,
    user: Seq<char>,
    assistant: Seq<char>,
    title_prefix: Seq<char>,
    now: u128,
    counter: u64,
)
    requires
        session_problem(session) is None,
    ensures
        append_problem(session, user, assistant) is None ==> session_problem(
            SessionView { messages: session.messages + exchange(user, assistant), ..session },
        ) is None,
        session_problem(derived_of(session, title_prefix, now, counter)) is None,
        forall|archived: bool, pinned: bool|
            session_problem(#[trigger] marked(session, archived, pinned, now)) is None,
{
    lemma_generated_id_is_accepted(now, counter);
    if append_problem(session, user, assistant) is None {
        let longer = session.messages + exchange(user, assistant);
        assert forall|k: int| 0 <= k < longer.len() implies !too_long(#[trigger] longer[k]) by {
            if k < session.messages.len() {
                assert(!too_long(session.messages[k]));
            } else {
                assert(longer[k] == exchange(user, assistant)[k - session.messages.len()]);
            }
        }
    }
    let child = derived_of(session, title_prefix, now, counter);
    assert forall|k: int| 0 <= k < child.messages.len() implies !too_long(
        #[trigger] child.messages[k],
    ) by {
        assert(!too_long(session.messages[k]));
    }
    assert forall|archived: bool, pinned: bool|
        session_problem(#[trigger] marked(session, archived, pinned, now)) is None by {
        let changed = marked(session, archived, pinned, now);
        assert forall|k: int| 0 <= k < changed.messages.len() implies !too_long(
            #[trigger] changed.messages[k],
        ) by {
            assert(!too_long(session.messages[k]));
        }
    }
}

/// A session with other marks.
pub open spec fn marked(session: SessionView, archived: bool, pinned: bool, now: u128) -> SessionView {
    SessionView { archived, pinned, updated_at_millis: now, ..session }
}

// ---------------------------------------------------------------------------
// Legacy records
// ---------------------------------------------------------------------------
pub open spec fn missing_field(name: Seq<char>) -> Seq<char> {
    "legacy session field `"@ + name + "` must be a string"@
}

pub open spec fn legacy_messages(prompt: Seq<char>, response: Option<Seq<char>>) -> Seq<
    ChatMessageView,
> {
    let first = seq![ChatMessageView { role: ChatRole::User, content: prompt }];
    match response {
        Some(response) => first.push(
            ChatMessageView { role: ChatRole::Assistant, content: response },
        ),
        None => first,
    }
}

/// What a legacy record says; its identifier, directory and prompt have to be there.
pub open spec fn legacy_session(value: JsonView) -> Result<SessionView, Seq<char>> {
    if !(value is Object) {
        Err("legacy session root must be an object"@)
    } else if text_field(value, "id"@) is None {
        Err(missing_field("id"@))
    } else if text_field(value, "cwd"@) is None {
        Err(missing_field("cwd"@))
    } else if text_field(value, "prompt"@) is None {
        Err(missing_field("prompt"@))
    } else {
        let prompt = text_field(value, "prompt"@)->0;
        let created = match integer_field(value, "created_at_millis"@) {
            Some(millis) => millis as u128,
            None => 0,
        };
        Ok(
            SessionView {
                schema_version: SESSION_SCHEMA_VERSION,
                id: text_field(value, "id"@)->0,
                cwd: text_field(value, "cwd"@)->0,
                messages: legacy_messages(prompt, text_field(value, "final_response"@)),
                provider: text_field(value, "provider"@),
                model: text_field(value, "model"@),
                parent_id: text_field(value, "parent_id"@),
                title: match text_field(value, "title"@) {
                    Some(title) => title,
                    None => preview_of(prompt),
                },
                archived: bool_field(value, "archived"@) == Some(true),
                pinned: bool_field(value, "pinned"@) == Some(true),
                created_at_millis: created,
                updated_at_millis: match integer_field(value, "updated_at_millis"@) {
                    Some(millis) => millis as u128,
                    None => created,
                },
            },
        )
    }
}

fn string_field(value: &Json, name: &str) -> (r: Result<String, String>)
    ensures
        match r {
            Ok(text) => text_field(value@, name@) == Some(text@),
            Err(message) => text_field(value@, name@) is None && message@ == missing_field(name@),
        },
{
    match get_text(value, name) {
        Some(text) => Ok(text.to_owned()),
        None => {
            let mut message = "legacy session field `".to_owned();
            message.append(name);
            message.append("` must be a string");
            Err(message)
        },
    }
}

// ---------------------------------------------------------------------------
// What a projection keeps
// ---------------------------------------------------------------------------
/// What was said stays said: the projection of a record opens with its prompt, as the user's;
/// the reply, if the record has one, stands behind it as the assistant's, and nothing else does.
pub proof fn lemma_legacy_exchange_is_kept(record: JsonView, prompt: Seq<char>)
    requires
        record.names_once(),
        record.has("prompt"@, JsonView::Text(prompt)),
        legacy_session(record) is Ok,
    ensures
        ({
            let messages = legacy_session(record)->Ok_0.messages;
            &&& messages.len() >= 1
            &&& messages[0].role == ChatRole::User
            &&& messages[0].content == prompt
            &&& forall|reply: Seq<char>| #[trigger]
                record.has("final_response"@, JsonView::Text(reply)) <==> messages.len() == 2
                    && messages[1].role == ChatRole::Assistant && messages[1].content == reply
            &&& messages.len() <= 2
        }),
{
    lemma_field_is_found(record, "prompt"@);
    lemma_field_is_found(record, "final_response"@);
}

/// Two records with different prompts, or with different replies, never become the same session.
pub proof fn lemma_legacy_exchanges_stay_apart(
    one: JsonView,
    other: JsonView,
    name: Seq<char>,
    said: Seq<char>,
    said_otherwise: Seq<char>,
)
    requires
        one.names_once(),
        other.names_once(),
        name == "prompt"@ || name == "final_response"@,
        one.has(name, JsonView::Text(said)),
        other.has(name, JsonView::Text(said_otherwise)),
        said != said_otherwise,
        legacy_session(one) is Ok,
        legacy_session(other) is Ok,
    ensures
        legacy_session(one)->Ok_0.messages != legacy_session(other)->Ok_0.messages,
{
    lemma_fields_are_read_as_they_stand(one, name, JsonView::Text(said));
    lemma_fields_are_read_as_they_stand(other, name, JsonView::Text(said_otherwise));
    assert(text_field(one, name) == Some(said));
    assert(text_field(other, name) == Some(said_otherwise));
    let a = legacy_session(one)->Ok_0.messages;
    let b = legacy_session(other)->Ok_0.messages;
    if name == "prompt"@ {
        assert(a[0].content != b[0].content);
    } else {
        assert(a[1].content != b[1].content);
    }
}

/// A record is projected exactly if it names itself, its directory and its prompt.
pub proof fn lemma_legacy_records_need_three_texts(record: JsonView)
    requires
        record.names_once(),
    ensures
        legacy_session(record) is Ok <==> {
            &&& exists|id: Seq<char>| #[trigger] record.has("id"@, JsonView::Text(id))
            &&& exists|cwd: Seq<char>| #[trigger] record.has("cwd"@, JsonView::Text(cwd))
            &&& exists|prompt: Seq<char>| #[trigger] record.has("prompt"@, JsonView::Text(prompt))
        },
{
    lemma_text_is_there(record, "id"@);
    lemma_text_is_there(record, "cwd"@);
    lemma_text_is_there(record, "prompt"@);
}

proof fn lemma_text_is_there(record: JsonView, name: Seq<char>)
    requires
        record.names_once(),
    ensures
        text_field(record, name) is Some <==> exists|text: Seq<char>| #[trigger]
            record.has(name, JsonView::Text(text)),
{
    lemma_field_is_found(record, name);
    if text_field(record, name) is Some {
        let text = text_field(record, name)->0;
        assert(record.field(name) == Some(JsonView::Text(text)));
        assert(record.has(name, JsonView::Text(text)));
    }
    if exists|text: Seq<char>| #[trigger] record.has(name, JsonView::Text(text)) {
        let text = choose|text: Seq<char>| #[trigger] record.has(name, JsonView::Text(text));
        assert(record.field(name) == Some(JsonView::Text(text)));
    }
}

/// What a record says of itself is what its session says: each text stands under its own name,
/// the marks are set exactly where the record sets them, and the times are the record's.
pub proof fn lemma_legacy_particulars_are_kept(record: JsonView, text: Seq<char>, millis: u64)
    requires
        record.names_once(),
        legacy_session(record) is Ok,
    ensures
        ({
            let session = legacy_session(record)->Ok_0;
            &&& record.has("id"@, JsonView::Text(text)) <==> session.id == text
            &&& record.has("cwd"@, JsonView::Text(text)) <==> session.cwd == text
            &&& record.has("provider"@, JsonView::Text(text)) <==> session.provider == Some(text)
            &&& record.has("model"@, JsonView::Text(text)) <==> session.model == Some(text)
            &&& record.has("parent_id"@, JsonView::Text(text)) <==> session.parent_id == Some(text)
            &&& record.has("title"@, JsonView::Text(text)) ==> session.title == text
            &&& record.has("archived"@, JsonView::Bool(true)) <==> session.archived
            &&& record.has("pinned"@, JsonView::Bool(true)) <==> session.pinned
            &&& record.has(
                "created_at_millis"@,
                JsonView::Number(JsonNumberView::Unsigned(millis)),
            ) ==> session.created_at_millis == millis
            &&& record.lacks("created_at_millis"@) ==> session.created_at_millis == 0
            &&& record.has(
                "updated_at_millis"@,
                JsonView::Number(JsonNumberView::Unsigned(millis)),
            ) ==> session.updated_at_millis == millis
            &&& record.lacks("updated_at_millis"@) ==> session.updated_at_millis
                == session.created_at_millis
        }),
{
    lemma_field_is_found(record, "id"@);
    lemma_field_is_found(record, "cwd"@);
    lemma_field_is_found(record, "provider"@);
    lemma_field_is_found(record, "model"@);
    lemma_field_is_found(record, "parent_id"@);
    lemma_field_is_found(record, "title"@);
    lemma_field_is_found(record, "archived"@);
    lemma_field_is_found(record, "pinned"@);
    lemma_field_is_found(record, "created_at_millis"@);
    lemma_field_is_found(record, "updated_at_millis"@);
}

/// The reply of a legacy record is the last thing that its session says, as the assistant's, and
/// the prompt is the first, as the user's.
pub proof fn lemma_from_legacy_keeps_the_exchange(
    record: Json,
    r: Result<StoredSession, String>,
    prompt: Seq<char>,
    reply: Seq<char>,
)
    requires
        call_ensures(StoredSession::from_legacy, (&record,), r),
        r is Ok,
        record@.names_once(),
        record@.has("prompt"@, JsonView::Text(prompt)),
        record@.has("final_response"@, JsonView::Text(reply)),
    ensures
        r->Ok_0@.messages.len() == 2,
        r->Ok_0@.messages[0].role == ChatRole::User,
        r->Ok_0@.messages[0].content == prompt,
        r->Ok_0@.messages[1].role == ChatRole::Assistant,
        r->Ok_0@.messages[1].content == reply,
{
    lemma_legacy_exchange_is_kept(record@, prompt);
    assert(record@.has("final_response"@, JsonView::Text(reply)));
}

/// A legacy record is refused only for a reason: it lacks one of the three texts, its identifier
/// is none, or something in it is too long.
pub proof fn lemma_good_legacy_records_are_read(
    record: Json,
    r: Result<StoredSession, String>,
    id: Seq<char>,
    cwd: Seq<char>,
    prompt: Seq<char>,
)
    requires
        call_ensures(StoredSession::from_legacy, (&record,), r),
        record@.names_once(),
        record@.has("id"@, JsonView::Text(id)),
        record@.has("cwd"@, JsonView::Text(cwd)),
        record@.has("prompt"@, JsonView::Text(prompt)),
        0 < id.len() <= MAX_SESSION_ID_CHARS,
        forall|k: int|
            0 <= k < id.len() ==> is_ascii_alnum(#[trigger] id[k]) || id[k] == '-' || id[k] == '_',
        prompt.len() <= MAX_MESSAGE_CHARS,
        forall|reply: Seq<char>| #[trigger]
            record@.has("final_response"@, JsonView::Text(reply)) ==> reply.len()
                <= MAX_MESSAGE_CHARS,
    ensures
        r is Ok,
        r->Ok_0@.id == id,
        r->Ok_0@.cwd == cwd,
{
    lemma_legacy_records_need_three_texts(record@);
    lemma_legacy_exchange_is_kept(record@, prompt);
    lemma_legacy_particulars_are_kept(record@, id, 0);
    lemma_legacy_particulars_are_kept(record@, cwd, 0);
    let session = legacy_session(record@)->Ok_0;
    lemma_plain_names_are_accepted(id);
    lemma_text_is_there(record@, "final_response"@);
    assert forall|k: int| 0 <= k < session.messages.len() implies !too_long(
        #[trigger] session.messages[k],
    ) by {
        if k == 1 {
            lemma_field_is_found(record@, "final_response"@);
            let reply = text_field(record@, "final_response"@)->0;
            assert(record@.has("final_response"@, JsonView::Text(reply)));
        }
    }
}

/// A name of one to 128 letters, digits, `-` and `_` is accepted as an identifier, and nothing
/// else is.
pub proof fn lemma_plain_names_are_accepted(id: Seq<char>)
    ensures
        id_problem(id) is None <==> 1 <= id.len() <= 128 && forall|k: int|
            0 <= k < id.len() ==> is_ascii_alnum(#[trigger] id[k]) || id[k] == '-' || id[k] == '_',
{
    reveal_strlit("..");
    if forall|k: int|
        0 <= k < id.len() ==> is_ascii_alnum(#[trigger] id[k]) || id[k] == '-' || id[k] == '_' {
        assert forall|at: int| !occurs_at(id, ".."@, at) by {
            if occurs_at(id, ".."@, at) {
                assert(id.subrange(at, at + 2)[0] == id[at]);
                assert(".."@[0] == '.');
            }
        }
        assert forall|k: int| 0 <= k < id.len() implies is_id_char(#[trigger] id[k]) by {}
    } else if id_problem(id) is None {
        let k = choose|k: int|
            0 <= k < id.len() && !(is_ascii_alnum(#[trigger] id[k]) || id[k] == '-' || id[k]
                == '_');
        assert(is_id_char(id[k]));
    }
}

/// A title begins like the first message and is never empty or long.
pub proof fn lemma_titles_are_previews(value: Seq<char>)
    ensures
        0 < preview_of(value).len() <= 48,
        0 < trim_of(value).len() <= 48 ==> preview_of(value) == trim_of(value),
        trim_of(value).len() > 48 ==> preview_of(value).take(45) == trim_of(value).take(45),
{
    reveal_strlit("untitled session");
    reveal_strlit("...");
    if trim_of(value).len() > 48 {
        assert(preview_of(value).take(45) =~= trim_of(value).take(45));
    }
}

/// Sessions made at different times, or as different ones of their process, have different names.
pub proof fn lemma_generated_ids_differ(now: u128, counter: u64, then: u128, other: u64)
    requires
        id_of(now, counter) == id_of(then, other),
    ensures
        now == then,
        counter == other,
{
    reveal_strlit("yn-");
    reveal_strlit("-");
    assert(pow10(39) == 1_000_000_000_000_000_000_000_000_000_000_000_000_000) by {
        reveal_with_fuel(pow10, 40);
    }
    let a = decimal_of(now as nat);
    let b = decimal_of(then as nat);
    let c = decimal_of(counter as nat);
    let d = decimal_of(other as nat);
    lemma_decimal_digits(now as nat, 39);
    lemma_decimal_digits(then as nat, 39);
    let one = id_of(now, counter);
    let two = id_of(then, other);
    assert(one[3 + a.len() as int] == '-');
    assert(two[3 + b.len() as int] == '-');
    if a.len() < b.len() {
        assert(two[3 + a.len() as int] == b[a.len() as int]);
    } else if b.len() < a.len() {
        assert(one[3 + b.len() as int] == a[b.len() as int]);
    }
    assert(a =~= one.subrange(3, 3 + a.len() as int));
    assert(b =~= two.subrange(3, 3 + b.len() as int));
    assert(c =~= one.skip(4 + a.len() as int));
    assert(d =~= two.skip(4 + b.len() as int));
    crate::text::lemma_decimal_tells_numbers_apart(now as nat, then as nat);
    crate::text::lemma_decimal_tells_numbers_apart(counter as nat, other as nat);
}

/// Forking or importing a session keeps what was said, where, and with what; the copy knows whom
/// it comes from.
pub proof fn lemma_copies_keep_what_was_said(
    session: StoredSession,
    now: u128,
    counter: u64,
    forked: StoredSession,
    imported: StoredSession,
)
    requires
        call_ensures(StoredSession::fork, (session, now, counter), forked),
        call_ensures(StoredSession::import_from_legacy, (session, now, counter), imported),
    ensures
        forked@.messages == session@.messages,
        imported@.messages == session@.messages,
        forked@.cwd == session@.cwd && imported@.cwd == session@.cwd,
        forked@.provider == session@.provider && imported@.provider == session@.provider,
        forked@.model == session@.model && imported@.model == session@.model,
        forked@.parent_id == Some(session@.id) && imported@.parent_id == Some(session@.id),
        !forked@.archived && !forked@.pinned && !imported@.archived && !imported@.pinned,
        forked@.created_at_millis == now && imported@.created_at_millis == now,
{
}

/// An exchange is added behind what was said before, in its order, and nothing said before is
/// changed. A provider or a model that is named takes the place of the former one; one that is
/// not named leaves it.
pub proof fn lemma_appending_adds_the_exchange(
    session: &mut StoredSession,
    user: &str,
    assistant: &str,
    provider: Option<&str>,
    model: Option<&str>,
    now: u128,
    r: Result<(), String>,
)
    requires
        call_ensures(StoredSession::append, (session, user, assistant, provider, model, now), r),
    ensures
        r is Err ==> final(session)@ == old(session)@,
        r is Ok ==> {
            let before = old(session)@;
            let after = final(session)@;
            let n = before.messages.len() as int;
            &&& before.messages.is_prefix_of(after.messages)
            &&& after.messages.len() == n + 2
            &&& after.messages[n].role is User && after.messages[n].content == user@
            &&& after.messages[n + 1].role is Assistant && after.messages[n + 1].content
                == assistant@
            &&& provider matches Some(name) ==> after.provider == Some(name@)
            &&& provider is None ==> after.provider == before.provider
            &&& model matches Some(name) ==> after.model == Some(name@)
            &&& model is None ==> after.model == before.model
            &&& after.updated_at_millis == now && after.created_at_millis
                == before.created_at_millis
            &&& after.id == before.id && after.title == before.title && after.cwd == before.cwd
            &&& after.archived == before.archived && after.pinned == before.pinned
                && after.parent_id == before.parent_id
        },
{
    if r is Ok {
        let before = old(session)@.messages;
        let after = final(session)@.messages;
        assert(before =~= after.subrange(0, before.len() as int));
    }
}

/// Archiving and pinning change just that, and when the session was changed last.
pub proof fn lemma_marks_are_set(
    archived: &mut StoredSession,
    pinned: &mut StoredSession,
    named: &mut StoredSession,
    on: bool,
    now: u128,
    provider: Option<&str>,
    model: Option<&str>,
)
    requires
        call_ensures(StoredSession::set_archived, (archived, on, now), ()),
        call_ensures(StoredSession::set_pinned, (pinned, on, now), ()),
        call_ensures(StoredSession::set_provider_model, (named, provider, model), ()),
    ensures
        final(archived)@.archived == on && final(archived)@.pinned == old(archived)@.pinned,
        final(pinned)@.pinned == on && final(pinned)@.archived == old(pinned)@.archived,
        final(archived)@.updated_at_millis == now && final(pinned)@.updated_at_millis == now,
        final(archived)@.messages == old(archived)@.messages && final(pinned)@.messages
            == old(pinned)@.messages && final(named)@.messages == old(named)@.messages,
        final(archived)@.id == old(archived)@.id && final(pinned)@.id == old(pinned)@.id,
        final(archived)@.title == old(archived)@.title && final(pinned)@.title
            == old(pinned)@.title,
        provider matches Some(name) ==> final(named)@.provider == Some(name@),
        provider is None ==> final(named)@.provider == old(named)@.provider,
        model matches Some(name) ==> final(named)@.model == Some(name@),
        model is None ==> final(named)@.model == old(named)@.model,
{
}

} // verus!
