//! Session persistence under a granted workspace: what may be done, and to which record.
//!
//! Reading and writing files is left to the holder of a store; the store decides what a request
//! does to the records that were read.
use vstd::prelude::*;
use vstd::string::StringExecFns;

use crate::grants::WorkspaceGrant;
use crate::json::{parse_json, parsed_json, JsonView};
use crate::paths::{joined, joined_of};
use crate::storage::record::{
    append_problem, derived_of, exchange, id_of, id_problem, legacy_session, opt_str, or_else,
    preview_of, session_problem, validate_session_id, ChatMessageView, ChatRole, SessionSnapshot,
    SessionView, StoredSession, MAX_MESSAGES, MAX_MESSAGE_CHARS, SESSION_SCHEMA_VERSION,
};
use crate::text::{decimal, decimal_of, texts};

verus! {

pub const MAX_SESSION_FILE_BYTES: u64 = 8 * 1024 * 1024;

pub const MAX_SCANNED_FILES: usize = 2_000;

pub const MAX_LIST_LIMIT: usize = 200;

// ---------------------------------------------------------------------------
// Errors
// ---------------------------------------------------------------------------
#[derive(Clone, Debug)]
pub enum StorageError {
    Workspace { path: String, message: String },
    NotDirectory(String),
    WriteNotGranted,
    NotFound(String),
    LegacyReadOnly(String),
    InvalidRecord(String),
    FileTooLarge { path: String, maximum: u64 },
    Io { path: String, message: String },
    Serialize(String),
}

/// A storage error with its texts as character sequences.
pub enum StorageErrorView {
    Workspace { path: Seq<char>, message: Seq<char> },
    NotDirectory(Seq<char>),
    WriteNotGranted,
    NotFound(Seq<char>),
    LegacyReadOnly(Seq<char>),
    InvalidRecord(Seq<char>),
    FileTooLarge { path: Seq<char>, maximum: u64 },
    Io { path: Seq<char>, message: Seq<char> },
    Serialize(Seq<char>),
}

impl View for StorageError {
    type V = StorageErrorView;

    open spec fn view(&self) -> StorageErrorView {
        match *self {
            StorageError::Workspace { path, message } => StorageErrorView::Workspace {
                path: path@,
                message: message@,
            },
            StorageError::NotDirectory(path) => StorageErrorView::NotDirectory(path@),
            StorageError::WriteNotGranted => StorageErrorView::WriteNotGranted,
            StorageError::NotFound(id) => StorageErrorView::NotFound(id@),
            StorageError::LegacyReadOnly(id) => StorageErrorView::LegacyReadOnly(id@),
            StorageError::InvalidRecord(message) => StorageErrorView::InvalidRecord(message@),
            StorageError::FileTooLarge { path, maximum } => StorageErrorView::FileTooLarge {
                path: path@,
                maximum,
            },
            StorageError::Io { path, message } => StorageErrorView::Io {
                path: path@,
                message: message@,
            },
            StorageError::Serialize(message) => StorageErrorView::Serialize(message@),
        }
    }
}

impl StorageErrorView {
    /// The sentence shown to people.
    pub open spec fn text(self) -> Seq<char> {
        match self {
            StorageErrorView::Workspace { path, message } => "failed to resolve workspace "@ + path
                + ": "@ + message,
            StorageErrorView::NotDirectory(path) => "workspace is not a directory: "@ + path,
            StorageErrorView::WriteNotGranted => "session write access was not granted"@,
            StorageErrorView::NotFound(id) => "session `"@ + id + "` was not found"@,
            StorageErrorView::LegacyReadOnly(id) => "legacy session `"@ + id
                + "` is read-only; fork it first"@,
            StorageErrorView::InvalidRecord(message) => message,
            StorageErrorView::FileTooLarge { path, maximum } => "session file "@ + path
                + " exceeds "@ + decimal_of(maximum as nat) + " bytes"@,
            StorageErrorView::Io { path, message } => "session I/O failed at "@ + path + ": "@
                + message,
            StorageErrorView::Serialize(message) => "session serialization failed: "@ + message,
        }
    }

    /// The stable code reported to the host.
    pub open spec fn code(self) -> Seq<char> {
        match self {
            StorageErrorView::WriteNotGranted => "write_not_granted"@,
            StorageErrorView::NotFound(_) => "session_not_found"@,
            StorageErrorView::LegacyReadOnly(_) => "legacy_read_only"@,
            _ => "storage_error"@,
        }
    }
}

impl StorageError {
    /// The sentence shown to people.
    pub fn to_string(&self) -> (r: String)
        ensures
            r@ == self@.text(),
    {
        match self {
            StorageError::Workspace { path, message } => {
                let mut out = "failed to resolve workspace ".to_owned();
                out.append(path.as_str());
                out.append(": ");
                out.append(message.as_str());
                out
            },
            StorageError::NotDirectory(path) => {
                let mut out = "workspace is not a directory: ".to_owned();
                out.append(path.as_str());
                out
            },
            StorageError::WriteNotGranted => "session write access was not granted".to_owned(),
            StorageError::NotFound(id) => {
                let mut out = "session `".to_owned();
                out.append(id.as_str());
                out.append("` was not found");
                out
            },
            StorageError::LegacyReadOnly(id) => {
                let mut out = "legacy session `".to_owned();
                out.append(id.as_str());
                out.append("` is read-only; fork it first");
                out
            },
            StorageError::InvalidRecord(message) => message.clone(),
            StorageError::FileTooLarge { path, maximum } => {
                let mut out = "session file ".to_owned();
                out.append(path.as_str());
                out.append(" exceeds ");
                out.append(decimal(*maximum).as_str());
                out.append(" bytes");
                out
            },
            StorageError::Io { path, message } => {
                let mut out = "session I/O failed at ".to_owned();
                out.append(path.as_str());
                out.append(": ");
                out.append(message.as_str());
                out
            },
            StorageError::Serialize(message) => {
                let mut out = "session serialization failed: ".to_owned();
                out.append(message.as_str());
                out
            },
        }
    }

    /// The stable code reported to the host.
    pub fn code(&self) -> (r: &'static str)
        ensures
            r@ == self@.code(),
    {
        match self {
            StorageError::WriteNotGranted => "write_not_granted",
            StorageError::NotFound(_) => "session_not_found",
            StorageError::LegacyReadOnly(_) => "legacy_read_only",
            _ => "storage_error",
        }
    }
}

// ---------------------------------------------------------------------------
// The store
// ---------------------------------------------------------------------------
/// What a grant allows in one workspace.
#[derive(Clone, Debug)]
pub struct SessionStore {
    workspace_root: String,
    next_root: String,
    legacy_root: Option<String>,
    writable: bool,
}

/// A record that was read, and whether it is a legacy one.
pub struct FoundRecord {
    pub session: StoredSession,
    pub legacy: bool,
}

#[derive(Clone, Copy, Debug, PartialEq, Eq, Structural)]
pub enum SessionMutation {
    Archive,
    Unarchive,
    Pin,
    Unpin,
    Fork,
}

/// The directory that sessions are written to.
pub open spec fn next_root_of(root: Seq<char>) -> Seq<char> {
    joined_of(joined_of(root, ".yunxi-next"@), "sessions"@)
}

/// The directory of the legacy sessions.
pub open spec fn legacy_root_of(root: Seq<char>) -> Seq<char> {
    joined_of(joined_of(root, ".yunxi"@), "sessions"@)
}

impl SessionStore {
    pub closed spec fn root(self) -> Seq<char> {
        self.workspace_root@
    }

    pub closed spec fn next(self) -> Seq<char> {
        self.next_root@
    }

    pub closed spec fn legacy(self) -> Option<Seq<char>> {
        match self.legacy_root {
            Some(root) => Some(root@),
            None => None,
        }
    }

    pub closed spec fn writes(self) -> bool {
        self.writable
    }

    /// Both directories lie in the workspace, at their places.
    pub open spec fn wf(self) -> bool {
        &&& self.next() == next_root_of(self.root())
        &&& self.legacy() is Some ==> self.legacy()->0 == legacy_root_of(self.root())
    }

    /// The store of a workspace that was resolved to `root`. Legacy sessions are visible only
    /// to a grant that may read them.
    pub fn from_grant(grant: &WorkspaceGrant, root: &str, is_directory: bool) -> (r: Result<
        Self,
        StorageError,
    >)
        ensures
            match r {
                Ok(store) => {
                    &&& is_directory
                    &&& store.wf()
                    &&& store.root() == root@
                    &&& store.legacy() is Some == grant.reads()
                    &&& store.writes() == grant.writes()
                },
                Err(error) => !is_directory && error@ == StorageErrorView::NotDirectory(root@),
            },
    {
        if !is_directory {
            return Err(StorageError::NotDirectory(root.to_owned()));
        }
        let legacy_root = if grant.allows_legacy_read() {
            Some(joined(joined(root, ".yunxi").as_str(), "sessions"))
        } else {
            None
        };
        Ok(
            SessionStore {
                workspace_root: root.to_owned(),
                next_root: joined(joined(root, ".yunxi-next").as_str(), "sessions"),
                legacy_root,
                writable: grant.allows_next_write(),
            },
        )
    }

    fn require_write(&self) -> (r: Result<(), StorageError>)
        ensures
            r is Ok == self.writes(),
            r is Err ==> r->Err_0@ == StorageErrorView::WriteNotGranted,
    {
        if self.writable {
            Ok(())
        } else {
            Err(StorageError::WriteNotGranted)
        }
    }

    /// Whether legacy sessions are visible.
    pub fn reads_legacy(&self) -> (r: bool)
        ensures
            r == (self.legacy() is Some),
    {
        self.legacy_root.is_some()
    }

    /// The files that may hold a session: the writable one, and the legacy one where legacy
    /// sessions are visible. An identifier that is not one has no file.
    pub fn candidates(&self, id: &str) -> (r: Result<(String, Option<String>), StorageError>)
        ensures
            match id_problem(id@) {
                Some(problem) => r is Err && r->Err_0@ == StorageErrorView::InvalidRecord(problem),
                None => {
                    &&& r is Ok
                    &&& r->Ok_0.0@ == joined_of(self.next(), id@ + ".json"@)
                    &&& r->Ok_0.1 is Some == self.legacy() is Some
                    &&& r->Ok_0.1 is Some ==> r->Ok_0.1->0@ == joined_of(
                        self.legacy()->0,
                        id@ + ".json"@,
                    )
                },
            },
    {
        match validate_session_id(id) {
            Ok(()) => {},
            Err(message) => return Err(StorageError::InvalidRecord(message)),
        }
        let mut name = id.to_owned();
        name.append(".json");
        let next = joined(self.next_root.as_str(), name.as_str());
        let legacy = match &self.legacy_root {
            Some(root) => Some(joined(root.as_str(), name.as_str())),
            None => None,
        };
        Ok((next, legacy))
    }

    /// The record to write for an exchange: the session that was asked for with the exchange
    /// added, as a writable copy where it is a legacy one; or a new session.
    pub fn append(
        &self,
        session_id: Option<&str>,
        found: Option<FoundRecord>,
        user: &str,
        assistant: &str,
        provider: Option<&str>,
        model: Option<&str>,
        now: u128,
        counter: u64,
    ) -> (r: Result<StoredSession, StorageError>)
        requires
            found is Some ==> session_problem(found->0.session@) is None,
        ensures
            match self.appended(
                opt_str(session_id),
                found_view(found),
                user@,
                assistant@,
                opt_str(provider),
                opt_str(model),
                now,
                counter,
            ) {
                Ok(session) => r is Ok && r->Ok_0@ == session && session_problem(session) is None,
                Err(error) => r is Err && r->Err_0@ == error,
            },
    {
        match self.require_write() {
            Ok(()) => {},
            Err(error) => return Err(error),
        }
        match session_id {
            Some(id) => {
                let mut session = match found {
                    None => return Err(StorageError::NotFound(id.to_owned())),
                    Some(record) => if record.legacy {
                        record.session.import_from_legacy(now, counter)
                    } else {
                        record.session
                    },
                };
                proof {
                    let before = (found_view(found)->0).0;
                    crate::storage::record::lemma_changes_keep_sessions_valid(
                        before,
                        user@,
                        assistant@,
                        "Imported: "@,
                        now,
                        counter,
                    );
                    crate::storage::record::lemma_changes_keep_sessions_valid(
                        session@,
                        user@,
                        assistant@,
                        "Imported: "@,
                        now,
                        counter,
                    );
                    lemma_details_keep_sessions_valid(
                        SessionView {
                            messages: session@.messages + exchange(user@, assistant@),
                            ..session@
                        },
                        or_else(opt_str(provider), session@.provider),
                        or_else(opt_str(model), session@.model),
                        now,
                    );
                }
                match session.append(user, assistant, provider, model, now) {
                    Ok(()) => Ok(session),
                    Err(message) => Err(StorageError::InvalidRecord(message)),
                }
            },
            None => {
                let mut session = match StoredSession::new(
                    self.workspace_root.as_str(),
                    user,
                    assistant,
                    now,
                    counter,
                ) {
                    Ok(session) => session,
                    Err(message) => return Err(StorageError::InvalidRecord(message)),
                };
                proof {
                    lemma_details_keep_sessions_valid(
                        session@,
                        or_else(opt_str(provider), None),
                        or_else(opt_str(model), None),
                        now,
                    );
                }
                session.set_provider_model(provider, model);
                Ok(session)
            },
        }
    }

    /// What appending an exchange writes.
    pub open spec fn appended(
        self,
        session_id: Option<Seq<char>>,
        found: Option<(SessionView, bool)>,
        user: Seq<char>,
        assistant: Seq<char>,
        provider: Option<Seq<char>>,
        model: Option<Seq<char>>,
        now: u128,
        counter: u64,
    ) -> Result<SessionView, StorageErrorView> {
        if !self.writes() {
            Err(StorageErrorView::WriteNotGranted)
        } else {
            match session_id {
                Some(id) => match found {
                    None => Err(StorageErrorView::NotFound(id)),
                    Some((record, legacy)) => {
                        let session = if legacy {
                            derived_of(record, "Imported: "@, now, counter)
                        } else {
                            record
                        };
                        match append_problem(session, user, assistant) {
                            Some(problem) => Err(StorageErrorView::InvalidRecord(problem)),
                            None => Ok(
                                SessionView {
                                    messages: session.messages + exchange(user, assistant),
                                    provider: or_else(provider, session.provider),
                                    model: or_else(model, session.model),
                                    updated_at_millis: now,
                                    ..session
                                },
                            ),
                        }
                    },
                },
                None => if user.len() > MAX_MESSAGE_CHARS || assistant.len() > MAX_MESSAGE_CHARS {
                    Err(
                        StorageErrorView::InvalidRecord(
                            "session message exceeds 262144 characters"@,
                        ),
                    )
                } else {
                    Ok(
                        SessionView {
                            schema_version: SESSION_SCHEMA_VERSION,
                            id: id_of(now, counter),
                            cwd: self.root(),
                            messages: exchange(user, assistant),
                            provider,
                            model,
                            parent_id: None,
                            title: preview_of(user),
                            archived: false,
                            pinned: false,
                            created_at_millis: now,
                            updated_at_millis: now,
                        },
                    )
                },
            }
        }
    }

    /// The record to write for a new session without messages.
    pub fn create(&self, now: u128, counter: u64) -> (r: Result<StoredSession, StorageError>)
        ensures
            r is Ok == self.writes(),
            r is Ok ==> session_problem(r->Ok_0@) is None && r->Ok_0@.id == id_of(now, counter)
                && r->Ok_0@.cwd == self.root() && r->Ok_0@.messages.len() == 0 && r->Ok_0@.title
                == "untitled session"@ && r->Ok_0@.parent_id is None && !r->Ok_0@.archived
                && !r->Ok_0@.pinned && r->Ok_0@.created_at_millis == now
                && r->Ok_0@.updated_at_millis == now && r->Ok_0@.provider is None && r->Ok_0@.model
                is None,
            r is Err ==> r->Err_0@ == StorageErrorView::WriteNotGranted,
    {
        match self.require_write() {
            Ok(()) => {},
            Err(error) => return Err(error),
        }
        match StoredSession::empty(self.workspace_root.as_str(), now, counter) {
            Ok(session) => Ok(session),
            Err(message) => Err(StorageError::InvalidRecord(message)),
        }
    }

    /// What a request for a session gets: the session, or the reason why its record cannot be
    /// used.
    pub fn load(&self, found: Result<Option<FoundRecord>, StorageError>) -> (r: Result<
        (Option<SessionSnapshot>, Vec<String>),
        StorageError,
    >)
        ensures
            match found {
                Ok(Some(record)) => r is Ok && r->Ok_0.0 is Some && r->Ok_0.0->0.session@
                    == record.session@ && r->Ok_0.0->0.legacy == record.legacy && r->Ok_0.1@.len()
                    == 0,
                Ok(None) => r is Ok && r->Ok_0.0 is None && r->Ok_0.1@.len() == 0,
                Err(StorageError::InvalidRecord(message)) => r is Ok && r->Ok_0.0 is None && texts(
                    r->Ok_0.1@,
                ) == seq![message@],
                Err(error) => r is Err && r->Err_0 == error,
            },
    {
        let none: Vec<String> = Vec::new();
        match found {
            Ok(Some(record)) => Ok((Some(record.session.snapshot(record.legacy)), none)),
            Ok(None) => Ok((None, none)),
            Err(StorageError::InvalidRecord(message)) => {
                let mut warnings: Vec<String> = Vec::new();
                let ghost text = message@;
                warnings.push(message);
                assert(texts(warnings@) =~= seq![text]);
                Ok((None, warnings))
            },
            Err(error) => Err(error),
        }
    }

    /// What a mutation writes; nothing where there is no such session. A legacy session can
    /// only be forked, into a writable copy.
    pub open spec fn mutated(
        self,
        session_id: Seq<char>,
        found: Option<(SessionView, bool)>,
        mutation: SessionMutation,
        now: u128,
        counter: u64,
    ) -> Result<Option<SessionView>, StorageErrorView> {
        if !self.writes() {
            Err(StorageErrorView::WriteNotGranted)
        } else {
            match found {
                None => Ok(None),
                Some((session, legacy)) => if legacy && mutation != SessionMutation::Fork {
                    Err(StorageErrorView::LegacyReadOnly(session_id))
                } else {
                    Ok(
                        Some(
                            match mutation {
                                SessionMutation::Archive => SessionView {
                                    archived: true,
                                    updated_at_millis: now,
                                    ..session
                                },
                                SessionMutation::Unarchive => SessionView {
                                    archived: false,
                                    updated_at_millis: now,
                                    ..session
                                },
                                SessionMutation::Pin => SessionView {
                                    pinned: true,
                                    updated_at_millis: now,
                                    ..session
                                },
                                SessionMutation::Unpin => SessionView {
                                    pinned: false,
                                    updated_at_millis: now,
                                    ..session
                                },
                                SessionMutation::Fork => if legacy {
                                    derived_of(session, "Imported: "@, now, counter)
                                } else {
                                    derived_of(session, "Fork of "@, now, counter)
                                },
                            },
                        ),
                    )
                },
            }
        }
    }

    /// The record to write for a mutation.
    pub fn mutate(
        &self,
        session_id: &str,
        found: Option<FoundRecord>,
        mutation: SessionMutation,
        now: u128,
        counter: u64,
    ) -> (r: Result<Option<StoredSession>, StorageError>)
        ensures
            match self.mutated(session_id@, found_view(found), mutation, now, counter) {
                Ok(Some(session)) => r is Ok && r->Ok_0 is Some && r->Ok_0->0@ == session,
                Ok(None) => r is Ok && r->Ok_0 is None,
                Err(error) => r is Err && r->Err_0@ == error,
            },
    {
        match self.require_write() {
            Ok(()) => {},
            Err(error) => return Err(error),
        }
        let record = match found {
            Some(record) => record,
            None => return Ok(None),
        };
        if record.legacy && mutation != SessionMutation::Fork {
            return Err(StorageError::LegacyReadOnly(session_id.to_owned()));
        }
        let legacy = record.legacy;
        let mut session = record.session;
        match mutation {
            SessionMutation::Archive => session.set_archived(true, now),
            SessionMutation::Unarchive => session.set_archived(false, now),
            SessionMutation::Pin => session.set_pinned(true, now),
            SessionMutation::Unpin => session.set_pinned(false, now),
            SessionMutation::Fork => {
                session = if legacy {
                    session.import_from_legacy(now, counter)
                } else {
                    session.fork(now, counter)
                };
            },
        }
        Ok(Some(session))
    }

    /// Where a session is written: its file, as long as it keeps the rules and is not too
    /// large.
    pub fn save_target(&self, session: &StoredSession, length: u64) -> (r: Result<
        String,
        StorageError,
    >)
        ensures
            match r {
                Ok(path) => {
                    &&& session_problem(session@) is None
                    &&& length <= MAX_SESSION_FILE_BYTES
                    &&& path@ == joined_of(self.next(), session@.id + ".json"@)
                },
                Err(error) => match session_problem(session@) {
                    Some(problem) => error@ == StorageErrorView::InvalidRecord(problem),
                    None => length > MAX_SESSION_FILE_BYTES && error@
                        == (StorageErrorView::FileTooLarge {
                        path: joined_of(self.next(), session@.id + ".json"@),
                        maximum: MAX_SESSION_FILE_BYTES,
                    }),
                },
            },
    {
        match session.validate() {
            Ok(()) => {},
            Err(message) => return Err(StorageError::InvalidRecord(message)),
        }
        let mut name = session.id.clone();
        name.append(".json");
        let path = joined(self.next_root.as_str(), name.as_str());
        if length > MAX_SESSION_FILE_BYTES {
            return Err(StorageError::FileTooLarge { path, maximum: MAX_SESSION_FILE_BYTES });
        }
        Ok(path)
    }
}

pub open spec fn found_view(found: Option<FoundRecord>) -> Option<(SessionView, bool)> {
    match found {
        Some(record) => Some((record.session@, record.legacy)),
        None => None,
    }
}

proof fn lemma_details_keep_sessions_valid(
    session: SessionView,
    provider: Option<Seq<char>>,
    model: Option<Seq<char>>,
    now: u128,
)
    ensures
        session_problem(SessionView { provider, model, ..session }) == session_problem(session),
        session_problem(
            SessionView { provider, model, updated_at_millis: now, ..session },
        ) == session_problem(session),
{
    let a = SessionView { provider, model, ..session };
    let b = SessionView { provider, model, updated_at_millis: now, ..session };
    assert(a.messages == session.messages && b.messages == session.messages);
}

/// The content of a session file: the file itself, or its backup where there is no file. Whether
/// it is the backup is told along with it. The backup is looked at only where there is no file.
pub fn choose_content(
    target: Result<Option<Vec<u8>>, StorageError>,
    backup: Result<Option<Vec<u8>>, StorageError>,
) -> (r: Result<Option<(Vec<u8>, bool)>, StorageError>)
    ensures
        match target {
            Err(error) => r is Err && r->Err_0 == error,
            Ok(Some(content)) => r is Ok && r->Ok_0 == Some((content, false)),
            Ok(None) => match backup {
                Err(error) => r is Err && r->Err_0 == error,
                Ok(Some(content)) => r is Ok && r->Ok_0 == Some((content, true)),
                Ok(None) => r is Ok && r->Ok_0 is None,
            },
        },
{
    match target {
        Err(error) => Err(error),
        Ok(Some(content)) => Ok(Some((content, false))),
        Ok(None) => match backup {
            Err(error) => Err(error),
            Ok(Some(content)) => Ok(Some((content, true))),
            Ok(None) => Ok(None),
        },
    }
}

/// The record of a session: the writable one hides a legacy one, and a legacy one counts only
/// where there is no other and legacy sessions are visible. What goes wrong with the first that
/// is looked at is what is said.
pub fn choose_record(
    next: Result<Option<StoredSession>, StorageError>,
    legacy: Option<Result<Option<StoredSession>, StorageError>>,
) -> (r: Result<Option<FoundRecord>, StorageError>)
    ensures
        match next {
            Err(error) => r is Err && r->Err_0 == error,
            Ok(Some(session)) => r is Ok && r->Ok_0 == Some(
                FoundRecord { session, legacy: false },
            ),
            Ok(None) => match legacy {
                None => r is Ok && r->Ok_0 is None,
                Some(Err(error)) => r is Err && r->Err_0 == error,
                Some(Ok(None)) => r is Ok && r->Ok_0 is None,
                Some(Ok(Some(session))) => r is Ok && r->Ok_0 == Some(
                    FoundRecord { session, legacy: true },
                ),
            },
        },
{
    match next {
        Err(error) => Err(error),
        Ok(Some(session)) => Ok(Some(FoundRecord { session, legacy: false })),
        Ok(None) => match legacy {
            None => Ok(None),
            Some(Err(error)) => Err(error),
            Some(Ok(None)) => Ok(None),
            Some(Ok(Some(session))) => Ok(Some(FoundRecord { session, legacy: true })),
        },
    }
}

/// A file that is read as a session is not larger than [`MAX_SESSION_FILE_BYTES`].
pub fn check_length(path: &str, length: u64) -> (r: Result<(), StorageError>)
    ensures
        r is Ok == (length <= MAX_SESSION_FILE_BYTES),
        r is Err ==> r->Err_0@ == (StorageErrorView::FileTooLarge {
            path: path@,
            maximum: MAX_SESSION_FILE_BYTES,
        }),
{
    if length > MAX_SESSION_FILE_BYTES {
        Err(StorageError::FileTooLarge { path: path.to_owned(), maximum: MAX_SESSION_FILE_BYTES })
    } else {
        Ok(())
    }
}

fn about(before: &str, path: &str, message: &str) -> (r: StorageError)
    ensures
        r@ == StorageErrorView::InvalidRecord(before@ + path@ + ": "@ + message@),
{
    let mut out = before.to_owned();
    out.append(path);
    out.append(": ");
    out.append(message);
    StorageError::InvalidRecord(out)
}

/// A record that was read from a file of this store, as long as it keeps the rules.
pub fn accept_record(path: &str, parsed: Result<StoredSession, String>) -> (r: Result<
    StoredSession,
    StorageError,
>)
    ensures
        match parsed {
            Err(message) => r is Err && r->Err_0@ == StorageErrorView::InvalidRecord(
                "failed to parse session "@ + path@ + ": "@ + message@,
            ),
            Ok(session) => match session_problem(session@) {
                None => r is Ok && r->Ok_0 == session,
                Some(problem) => r is Err && r->Err_0@ == StorageErrorView::InvalidRecord(
                    "invalid session "@ + path@ + ": "@ + problem,
                ),
            },
        },
{
    match parsed {
        Err(message) => Err(about("failed to parse session ", path, message.as_str())),
        Ok(session) => match session.validate() {
            Ok(()) => Ok(session),
            Err(message) => Err(about("invalid session ", path, message.as_str())),
        },
    }
}

/// What a legacy file holds.
pub open spec fn legacy_content(path: Seq<char>, bytes: Seq<u8>) -> Result<
    SessionView,
    StorageErrorView,
> {
    match parsed_json(bytes) {
        Err(message) => Err(
            StorageErrorView::InvalidRecord(
                "failed to parse legacy session "@ + path + ": "@ + message,
            ),
        ),
        Ok(value) => legacy_record(path, value),
    }
}

/// What a legacy value means.
pub open spec fn legacy_record(path: Seq<char>, value: JsonView) -> Result<
    SessionView,
    StorageErrorView,
> {
    let prefix = "invalid legacy session "@ + path + ": "@;
    match legacy_session(value) {
        Err(problem) => Err(StorageErrorView::InvalidRecord(prefix + problem)),
        Ok(session) => match session_problem(session) {
            None => Ok(session),
            Some(problem) => Err(StorageErrorView::InvalidRecord(prefix + problem)),
        },
    }
}

/// Reads the bytes of a legacy file as a session.
pub fn read_legacy_record(path: &str, bytes: &Vec<u8>) -> (r: Result<StoredSession, StorageError>)
    ensures
        match legacy_content(path@, bytes@) {
            Ok(session) => r is Ok && r->Ok_0@ == session,
            Err(error) => r is Err && r->Err_0@ == error,
        },
{
    let value = match parse_json(bytes.as_slice()) {
        Ok(value) => value,
        Err(message) => {
            return Err(about("failed to parse legacy session ", path, message.as_str()));
        },
    };
    match StoredSession::from_legacy(&value) {
        Ok(session) => Ok(session),
        Err(message) => Err(about("invalid legacy session ", path, message.as_str())),
    }
}

// ---------------------------------------------------------------------------
// What a store keeps to
// ---------------------------------------------------------------------------
/// No session is ever written where a legacy session is read from.
pub proof fn lemma_legacy_files_are_never_written(
    store: SessionStore,
    written: Seq<char>,
    read: Seq<char>,
)
    requires
        store.wf(),
        store.legacy() is Some,
    ensures
        joined_of(store.next(), written + ".json"@) != joined_of(
            store.legacy()->0,
            read + ".json"@,
        ),
{
    reveal_strlit(".yunxi-next");
    reveal_strlit(".yunxi");
    reveal_strlit("sessions");
    reveal_strlit("/");
    let root = store.root();
    let base = if root.len() == 0 || root.last() == '/' {
        root
    } else {
        root + "/"@
    };
    let at = base.len() + 6;
    let next = base + ".yunxi-next"@;
    let legacy = base + ".yunxi"@;
    assert(joined_of(root, ".yunxi-next"@) =~= next);
    assert(joined_of(root, ".yunxi"@) =~= legacy);
    assert(next.last() == 't');
    assert(legacy.last() == 'i');
    assert(store.next() == next + "/"@ + "sessions"@);
    assert(store.legacy()->0 == legacy + "/"@ + "sessions"@);
    assert(store.next().last() == 's');
    assert(store.legacy()->0.last() == 's');
    let a = joined_of(store.next(), written + ".json"@);
    let b = joined_of(store.legacy()->0, read + ".json"@);
    assert(a == store.next() + "/"@ + (written + ".json"@));
    assert(b == store.legacy()->0 + "/"@ + (read + ".json"@));
    assert(a[at as int] == next[at as int]);
    assert(next[at as int] == '-');
    assert(b[at as int] == '/');
}

/// Appending loses nothing of a session: its messages stay in front of the new exchange. A
/// session of this store keeps its identifier; a legacy one stays as it is, and what is written
/// is a copy under a new identifier that names it as its parent.
pub proof fn lemma_appending_keeps_what_was_said(
    store: SessionStore,
    id: Seq<char>,
    found: (SessionView, bool),
    user: Seq<char>,
    assistant: Seq<char>,
    provider: Option<Seq<char>>,
    model: Option<Seq<char>>,
    now: u128,
    counter: u64,
)
    requires
        store.appended(
            Some(id),
            Some(found),
            user,
            assistant,
            provider,
            model,
            now,
            counter,
        ) is Ok,
    ensures
        ({
            let session = store.appended(
                Some(id),
                Some(found),
                user,
                assistant,
                provider,
                model,
                now,
                counter,
            )->Ok_0;
            &&& session.messages == found.0.messages + exchange(user, assistant)
            &&& session.created_at_millis == if found.1 {
                now
            } else {
                found.0.created_at_millis
            }
            &&& if found.1 {
                session.id == id_of(now, counter) && session.parent_id == Some(found.0.id)
            } else {
                session.id == found.0.id && session.parent_id == found.0.parent_id
            }
        }),
{
}

// ---------------------------------------------------------------------------
// What comes of requests
// ---------------------------------------------------------------------------
/// The message says this, and says it as this one.
pub open spec fn is_said(message: ChatMessageView, role: ChatRole, content: Seq<char>) -> bool {
    message.role == role && message.content == content
}

/// Whoever goes on with a session finds all that was said in it, then what the user said, then
/// what the assistant answered, and nothing else. What the exchange does not touch stays.
pub proof fn lemma_exchange_is_added(
    store: SessionStore,
    id: &str,
    found: FoundRecord,
    user: &str,
    assistant: &str,
    provider: Option<&str>,
    model: Option<&str>,
    now: u128,
    counter: u64,
    r: Result<StoredSession, StorageError>,
)
    requires
        call_ensures(
            SessionStore::append,
            (&store, Some(id), Some(found), user, assistant, provider, model, now, counter),
            r,
        ),
    ensures
        r matches Ok(session) ==> {
            let before = found.session@;
            let n = before.messages.len() as int;
            &&& store.writes()
            &&& session@.messages.len() == n + 2
            &&& forall|k: int|
                0 <= k < n ==> (#[trigger] session@.messages[k]) == before.messages[k]
            &&& is_said(session@.messages[n], ChatRole::User, user@)
            &&& is_said(session@.messages[n + 1], ChatRole::Assistant, assistant@)
            &&& session@.updated_at_millis == now
            &&& session@.cwd == before.cwd
            &&& provider matches Some(name) ==> session@.provider == Some(name@)
            &&& provider is None ==> session@.provider == before.provider
            &&& model matches Some(name) ==> session@.model == Some(name@)
            &&& model is None ==> session@.model == before.model
            &&& !found.legacy ==> session@.id == before.id && session@.title == before.title
                && session@.archived == before.archived && session@.pinned == before.pinned
                && session@.created_at_millis == before.created_at_millis && session@.parent_id
                == before.parent_id
            &&& found.legacy ==> session@.parent_id == Some(before.id) && session@.id == id_of(
                now,
                counter,
            ) && session@.title.len() == before.title.len() + 10
        },
        store.writes() && found.session@.messages.len() + 2 <= MAX_MESSAGES && user@.len()
            <= MAX_MESSAGE_CHARS && assistant@.len() <= MAX_MESSAGE_CHARS ==> r is Ok,
{
    reveal_strlit("Imported: ");
    if r is Ok {
        let before = found.session@;
        let n = before.messages.len() as int;
        let after = r->Ok_0@.messages;
        assert(after == before.messages + exchange(user@, assistant@));
        assert(after[n] == exchange(user@, assistant@)[0]);
        assert(after[n + 1] == exchange(user@, assistant@)[1]);
    }
}

/// A new session holds the one exchange that it was made for, lies in the workspace, is marked
/// in no way and was made now.
pub proof fn lemma_new_session_holds_its_exchange(
    store: SessionStore,
    user: &str,
    assistant: &str,
    provider: Option<&str>,
    model: Option<&str>,
    now: u128,
    counter: u64,
    r: Result<StoredSession, StorageError>,
)
    requires
        call_ensures(
            SessionStore::append,
            (&store, None, None, user, assistant, provider, model, now, counter),
            r,
        ),
    ensures
        r is Ok <==> store.writes() && user@.len() <= MAX_MESSAGE_CHARS && assistant@.len()
            <= MAX_MESSAGE_CHARS,
        r matches Ok(session) ==> {
            &&& session@.messages.len() == 2
            &&& is_said(session@.messages[0], ChatRole::User, user@)
            &&& is_said(session@.messages[1], ChatRole::Assistant, assistant@)
            &&& session@.cwd == store.root()
            &&& opt_str(provider) == session@.provider
            &&& opt_str(model) == session@.model
            &&& session@.parent_id is None
            &&& !session@.archived && !session@.pinned
            &&& session@.created_at_millis == now && session@.updated_at_millis == now
        },
{
}

/// Archiving, pinning and their opposites set their own mark and leave everything else of a
/// session as it is but the time of the change; forking leaves what was said.
pub proof fn lemma_mutations_change_what_they_name(
    store: SessionStore,
    id: &str,
    found: FoundRecord,
    mutation: SessionMutation,
    now: u128,
    counter: u64,
    r: Result<Option<StoredSession>, StorageError>,
)
    requires
        call_ensures(
            SessionStore::mutate,
            (&store, id, Some(found), mutation, now, counter),
            r,
        ),
    ensures
        r is Ok <==> store.writes() && (!found.legacy || mutation == SessionMutation::Fork),
        r is Ok ==> r->Ok_0 is Some,
        r is Ok ==> {
            let before = found.session@;
            let after = r->Ok_0->0@;
            &&& after.messages == before.messages
            &&& after.cwd == before.cwd
            &&& after.provider == before.provider
            &&& after.model == before.model
            &&& after.updated_at_millis == now
            &&& mutation != SessionMutation::Fork ==> {
                &&& after.id == before.id
                &&& after.title == before.title
                &&& after.parent_id == before.parent_id
                &&& after.created_at_millis == before.created_at_millis
                &&& mutation == SessionMutation::Archive ==> after.archived && after.pinned
                    == before.pinned
                &&& mutation == SessionMutation::Unarchive ==> !after.archived && after.pinned
                    == before.pinned
                &&& mutation == SessionMutation::Pin ==> after.pinned && after.archived
                    == before.archived
                &&& mutation == SessionMutation::Unpin ==> !after.pinned && after.archived
                    == before.archived
            }
            &&& mutation == SessionMutation::Fork ==> {
                &&& after.id == id_of(now, counter)
                &&& after.parent_id == Some(before.id)
                &&& !after.archived && !after.pinned
                &&& after.created_at_millis == now
                &&& after.title.len() > before.title.len()
                &&& after.title.skip(after.title.len() - before.title.len()) == before.title
            }
        },
        !store.writes() ==> r is Err && r->Err_0@ == StorageErrorView::WriteNotGranted,
{
    reveal_strlit("Imported: ");
    reveal_strlit("Fork of ");
    if r is Ok && mutation == SessionMutation::Fork {
        let before = found.session@;
        let after = r->Ok_0->0@;
        assert(after.title.skip(after.title.len() - before.title.len()) =~= before.title);
    }
}

/// A session is looked for where it is written to.
pub proof fn lemma_sessions_are_found_where_they_are_written(
    store: SessionStore,
    session: StoredSession,
    length: u64,
    id: &str,
    written: Result<String, StorageError>,
    looked_at: Result<(String, Option<String>), StorageError>,
)
    requires
        call_ensures(SessionStore::save_target, (&store, &session, length), written),
        call_ensures(SessionStore::candidates, (&store, id), looked_at),
        id@ == session@.id,
        written is Ok,
    ensures
        looked_at is Ok,
        (looked_at->Ok_0).0@ == written->Ok_0@,
        store.legacy() is None ==> (looked_at->Ok_0).1 is None,
{
}

/// Two sessions of different names never share a file.
pub proof fn lemma_sessions_have_files_of_their_own(
    store: SessionStore,
    one: StoredSession,
    other: StoredSession,
    length: u64,
    first: Result<String, StorageError>,
    second: Result<String, StorageError>,
)
    requires
        call_ensures(SessionStore::save_target, (&store, &one, length), first),
        call_ensures(SessionStore::save_target, (&store, &other, length), second),
        one@.id != other@.id,
        first is Ok,
        second is Ok,
    ensures
        first->Ok_0@ != second->Ok_0@,
{
    let base = if store.next().len() == 0 || store.next().last() == '/' {
        store.next()
    } else {
        store.next() + "/"@
    };
    let a = first->Ok_0@;
    let b = second->Ok_0@;
    reveal_strlit(".json");
    assert(a =~= base + (one@.id + ".json"@));
    assert(b =~= base + (other@.id + ".json"@));
    if a == b {
        assert(one@.id =~= a.subrange(base.len() as int, a.len() - 5));
        assert(other@.id =~= b.subrange(base.len() as int, b.len() - 5));
    }
}

/// Whoever asks for a session gets the record that counts: the writable one before the legacy
/// one, the file before its backup, and nothing only where neither is there.
pub proof fn lemma_the_record_that_counts_is_loaded(
    store: SessionStore,
    next: Result<Option<StoredSession>, StorageError>,
    legacy: Option<Result<Option<StoredSession>, StorageError>>,
    record: Result<Option<FoundRecord>, StorageError>,
    r: Result<(Option<SessionSnapshot>, Vec<String>), StorageError>,
)
    requires
        call_ensures(choose_record, (next, legacy), record),
        call_ensures(SessionStore::load, (&store, record), r),
    ensures
        next matches Ok(Some(session)) ==> r matches Ok((Some(shown), warnings))
            && shown.session@ == session@ && !shown.legacy && warnings@.len() == 0,
        next matches Ok(None) ==> (legacy matches Some(Ok(Some(session))) ==> r matches Ok(
            (Some(shown), warnings),
        ) && shown.session@ == session@ && shown.legacy && warnings@.len() == 0),
        next matches Ok(None) ==> (legacy is None || legacy == Some(
            Ok::<Option<StoredSession>, StorageError>(None),
        )) ==> (r matches Ok((None, warnings)) && warnings@.len() == 0),
        next matches Err(StorageError::InvalidRecord(message)) ==> r matches Ok((None, warnings))
            && warnings@.len() == 1 && warnings@[0]@ == message@,
{
    if next is Err && next->Err_0 is InvalidRecord {
        let warnings = (r->Ok_0).1@;
        assert(texts(warnings).len() == warnings.len());
        assert(texts(warnings)[0] == warnings[0]@);
    }
}

/// The content of a session file is that of the file, and that of its backup only where there is
/// no file.
pub proof fn lemma_backups_stand_in_for_missing_files(
    target: Result<Option<Vec<u8>>, StorageError>,
    backup: Result<Option<Vec<u8>>, StorageError>,
    r: Result<Option<(Vec<u8>, bool)>, StorageError>,
)
    requires
        call_ensures(choose_content, (target, backup), r),
    ensures
        target matches Ok(Some(bytes)) ==> r matches Ok(Some((content, from_backup))) && content
            == bytes && !from_backup,
        target matches Ok(None) ==> (backup matches Ok(Some(bytes)) ==> r matches Ok(
            Some((content, from_backup)),
        ) && content == bytes && from_backup),
        r matches Ok(None) ==> target matches Ok(None) && backup matches Ok(None),
        r is Err ==> target is Err || backup is Err,
{
}

/// What a legacy file says is what its session says: the exchange that it holds, in its order and
/// under its roles.
pub proof fn lemma_legacy_file_is_read_as_it_stands(
    path: &str,
    bytes: &Vec<u8>,
    r: Result<StoredSession, StorageError>,
    prompt: Seq<char>,
    reply: Seq<char>,
)
    requires
        call_ensures(read_legacy_record, (path, bytes), r),
        r is Ok,
        parsed_json(bytes@) matches Ok(value) && value.names_once() && value.has(
            "prompt"@,
            JsonView::Text(prompt),
        ) && value.has("final_response"@, JsonView::Text(reply)),
    ensures
        r->Ok_0@.messages.len() == 2,
        is_said(r->Ok_0@.messages[0], ChatRole::User, prompt),
        is_said(r->Ok_0@.messages[1], ChatRole::Assistant, reply),
{
    let value = parsed_json(bytes@)->Ok_0;
    crate::storage::record::lemma_legacy_exchange_is_kept(value, prompt);
    assert(value.has("final_response"@, JsonView::Text(reply)));
}

/// A new session is an empty one of the workspace, made now, and only with leave to write.
pub proof fn lemma_new_sessions_are_empty(
    store: SessionStore,
    now: u128,
    counter: u64,
    r: Result<StoredSession, StorageError>,
)
    requires
        call_ensures(SessionStore::create, (&store, now, counter), r),
    ensures
        r is Ok <==> store.writes(),
        r matches Ok(session) ==> session@.messages.len() == 0 && session@.cwd == store.root()
            && session@.created_at_millis == now && session@.updated_at_millis == now
            && !session@.archived && !session@.pinned && session@.parent_id is None
            && session@.provider is None && session@.model is None,
        r matches Err(error) ==> error@ is WriteNotGranted,
{
}

/// A record that was read is taken as it is if it is sound, and refused otherwise.
pub proof fn lemma_sound_records_are_taken(
    path: &str,
    session: StoredSession,
    r: Result<StoredSession, StorageError>,
    failed: Result<StoredSession, StorageError>,
    message: String,
)
    requires
        call_ensures(accept_record, (path, Ok::<StoredSession, String>(session)), r),
        call_ensures(accept_record, (path, Err::<StoredSession, String>(message)), failed),
    ensures
        r is Ok <==> session_problem(session@) is None,
        r matches Ok(taken) ==> taken == session,
        failed is Err,
{
}

} // verus!
