//! The reversible import of one legacy event log.
//!
//! An import never writes to its source and never replaces a file; undoing it removes the
//! imported file only while it is still what was imported.
use vstd::prelude::*;
use vstd::string::StringExecFns;

use crate::fingerprint::{fingerprint_text, fnv1a, stable_fingerprint};
use crate::grants::WorkspaceGrant;
use crate::paths::{joined, joined_of, relative_of, relative_path, Location};
use crate::storage::event_log::{
    copy_warnings, events_after, is_event_log_path, names_event_log, summary_of, warnings_view,
    EventLogError, EventLogErrorView, EventLogWarning, LegacyEventLog, WarningView,
};
use crate::storage::record::is_id_char;
use crate::storage::store::MAX_SESSION_FILE_BYTES;
use crate::text::{
    byte_len, char_is_ascii_alnum, decimal, decimal_of, decimal_u128, str_eq, text2, to_chars,
    utf8_len,
};

verus! {

pub const EVENT_IMPORT_SCHEMA_VERSION: u32 = 1;

pub const MAX_IMPORT_MANIFEST_BYTES: u64 = 1024 * 1024;

// ---------------------------------------------------------------------------
// Errors
// ---------------------------------------------------------------------------
#[derive(Clone, Debug)]
pub enum EventImportError {
    Log(EventLogError),
    LegacyReadNotGranted,
    NextWriteNotGranted,
    InvalidPlan(String),
    SourceChanged(String),
    ManifestMissing(String),
    InvalidManifest(String),
    UnsupportedFormat(String),
    Io { path: String, message: String },
    Serialize(String),
}

pub enum ImportErrorView {
    Log(EventLogErrorView),
    LegacyReadNotGranted,
    NextWriteNotGranted,
    InvalidPlan(Seq<char>),
    SourceChanged(Seq<char>),
    ManifestMissing(Seq<char>),
    InvalidManifest(Seq<char>),
    UnsupportedFormat(Seq<char>),
    Io { path: Seq<char>, message: Seq<char> },
    Serialize(Seq<char>),
}

impl View for EventImportError {
    type V = ImportErrorView;

    open spec fn view(&self) -> ImportErrorView {
        match *self {
            EventImportError::Log(error) => ImportErrorView::Log(error@),
            EventImportError::LegacyReadNotGranted => ImportErrorView::LegacyReadNotGranted,
            EventImportError::NextWriteNotGranted => ImportErrorView::NextWriteNotGranted,
            EventImportError::InvalidPlan(text) => ImportErrorView::InvalidPlan(text@),
            EventImportError::SourceChanged(text) => ImportErrorView::SourceChanged(text@),
            EventImportError::ManifestMissing(text) => ImportErrorView::ManifestMissing(text@),
            EventImportError::InvalidManifest(text) => ImportErrorView::InvalidManifest(text@),
            EventImportError::UnsupportedFormat(text) => ImportErrorView::UnsupportedFormat(text@),
            EventImportError::Io { path, message } => ImportErrorView::Io {
                path: path@,
                message: message@,
            },
            EventImportError::Serialize(text) => ImportErrorView::Serialize(text@),
        }
    }
}

impl ImportErrorView {
    /// The sentence shown to people.
    pub open spec fn text(self) -> Seq<char> {
        match self {
            ImportErrorView::Log(error) => error.text(),
            ImportErrorView::LegacyReadNotGranted => "legacy session read access was not granted"@,
            ImportErrorView::NextWriteNotGranted => "Next session write access was not granted"@,
            ImportErrorView::InvalidPlan(message) => "invalid event import plan: "@ + message,
            ImportErrorView::SourceChanged(source) => "legacy event source changed: "@ + source,
            ImportErrorView::ManifestMissing(path) => "event import manifest not found: "@ + path,
            ImportErrorView::InvalidManifest(message) => "invalid event import manifest: "@
                + message,
            ImportErrorView::UnsupportedFormat(path) => "unsupported legacy event log format: "@
                + path,
            ImportErrorView::Io { path, message } => "event import I/O failed at "@ + path + ": "@
                + message,
            ImportErrorView::Serialize(message) => "event import serialization failed: "@
                + message,
        }
    }
}


impl EventImportError {
    /// The sentence shown to people.
    pub fn to_string(&self) -> (r: String)
        ensures
            r@ == self@.text(),
    {
        match self {
            EventImportError::Log(error) => error.to_string(),
            EventImportError::LegacyReadNotGranted =>
                "legacy session read access was not granted".to_owned(),
            EventImportError::NextWriteNotGranted =>
                "Next session write access was not granted".to_owned(),
            EventImportError::InvalidPlan(message) => text2(
                "invalid event import plan: ",
                message.as_str(),
            ),
            EventImportError::SourceChanged(source) => text2(
                "legacy event source changed: ",
                source.as_str(),
            ),
            EventImportError::ManifestMissing(path) => text2(
                "event import manifest not found: ",
                path.as_str(),
            ),
            EventImportError::InvalidManifest(message) => text2(
                "invalid event import manifest: ",
                message.as_str(),
            ),
            EventImportError::UnsupportedFormat(path) => text2(
                "unsupported legacy event log format: ",
                path.as_str(),
            ),
            EventImportError::Io { path, message } => {
                let mut out = "event import I/O failed at ".to_owned();
                out.append(path.as_str());
                out.append(": ");
                out.append(message.as_str());
                out
            },
            EventImportError::Serialize(message) => text2(
                "event import serialization failed: ",
                message.as_str(),
            ),
        }
    }
}

fn invalid_plan(message: &str) -> (r: EventImportError)
    ensures
        r@ == ImportErrorView::InvalidPlan(message@),
{
    EventImportError::InvalidPlan(message.to_owned())
}

// ---------------------------------------------------------------------------
// Identifiers
// ---------------------------------------------------------------------------
/// Letters, digits, `-` and `_`, and not too many of them.
pub open spec fn is_import_id(id: Seq<char>) -> bool {
    &&& id.len() > 0
    &&& utf8_len(id) <= 128
    &&& forall|k: int| 0 <= k < id.len() ==> is_id_char(#[trigger] id[k])
}

pub(crate) fn accepts_import_id(id: &str) -> (r: bool)
    ensures
        r == is_import_id(id@),
{
    if id.is_empty() || byte_len(id) > 128 {
        return false;
    }
    let chars = to_chars(id);
    let mut i: usize = 0;
    while i < chars.len()
        invariant
            chars@ == id@,
            i <= chars@.len(),
            forall|k: int| 0 <= k < i ==> is_id_char(#[trigger] id@[k]),
        decreases chars@.len() - i,
    {
        let c = chars[i];
        if !char_is_ascii_alnum(c) && c != '-' && c != '_' {
            assert(!is_id_char(id@[i as int]));
            return false;
        }
        i += 1;
    }
    true
}

pub fn validate_import_id(id: &str) -> (r: Result<(), EventImportError>)
    ensures
        r is Ok == is_import_id(id@),
        r is Err ==> r->Err_0@ == ImportErrorView::InvalidPlan(
            "migration id contains unsupported characters"@,
        ),
{
    if accepts_import_id(id) {
        Ok(())
    } else {
        Err(invalid_plan("migration id contains unsupported characters"))
    }
}

/// The identifier of an import that starts at this time in this process.
pub open spec fn import_id_of(now: u128, process: u32, counter: u64) -> Seq<char> {
    "events-"@ + decimal_of(now as nat) + "-"@ + decimal_of(process as nat) + "-"@ + decimal_of(
        counter as nat,
    )
}

pub fn new_import_id(now: u128, process: u32, counter: u64) -> (r: String)
    ensures
        r@ == import_id_of(now, process, counter),
{
    let mut id = "events-".to_owned();
    id.append(decimal_u128(now).as_str());
    id.append("-");
    id.append(decimal(process as u64).as_str());
    id.append("-");
    id.append(decimal(counter).as_str());
    id
}

/// Where an import writes, below the workspace.
pub open spec fn import_target(id: Seq<char>) -> Seq<char> {
    ".yunxi-next/migrations/events/"@ + id + ".jsonl"@
}

/// Where an import keeps its manifest, below the workspace.
pub open spec fn import_manifest(id: Seq<char>) -> Seq<char> {
    ".yunxi-next/migrations/events/manifests/"@ + id + ".json"@
}

fn target_of(id: &str) -> (r: String)
    ensures
        r@ == import_target(id@),
{
    let mut out = ".yunxi-next/migrations/events/".to_owned();
    out.append(id);
    out.append(".jsonl");
    out
}

// ---------------------------------------------------------------------------
// Plans and reports
// ---------------------------------------------------------------------------
#[derive(Clone, Debug, PartialEq, Eq)]
pub enum EventImportState {
    Ready,
    TargetExists,
    Invalid { reason: String },
}

pub enum ImportStateView {
    Ready,
    TargetExists,
    Invalid { reason: Seq<char> },
}

impl View for EventImportState {
    type V = ImportStateView;

    open spec fn view(&self) -> ImportStateView {
        match *self {
            EventImportState::Ready => ImportStateView::Ready,
            EventImportState::TargetExists => ImportStateView::TargetExists,
            EventImportState::Invalid { reason } => ImportStateView::Invalid { reason: reason@ },
        }
    }
}

/// What an import is going to do.
#[derive(Debug, PartialEq, Eq)]
pub struct EventImportPlan {
    pub schema_version: u32,
    pub migration_id: String,
    pub source: String,
    pub target: String,
    pub source_bytes: u64,
    pub source_fingerprint: String,
    pub event_count: usize,
    pub malformed_line_count: usize,
    pub unknown_event_count: usize,
    pub warnings: Vec<EventLogWarning>,
    pub state: EventImportState,
}

pub struct ImportPlanView {
    pub schema_version: u32,
    pub migration_id: Seq<char>,
    pub source: Seq<char>,
    pub target: Seq<char>,
    pub source_bytes: nat,
    pub source_fingerprint: Seq<char>,
    pub event_count: nat,
    pub malformed_line_count: nat,
    pub unknown_event_count: nat,
    pub warnings: Seq<WarningView>,
    pub state: ImportStateView,
}

impl View for EventImportPlan {
    type V = ImportPlanView;

    open spec fn view(&self) -> ImportPlanView {
        ImportPlanView {
            schema_version: self.schema_version,
            migration_id: self.migration_id@,
            source: self.source@,
            target: self.target@,
            source_bytes: self.source_bytes as nat,
            source_fingerprint: self.source_fingerprint@,
            event_count: self.event_count as nat,
            malformed_line_count: self.malformed_line_count as nat,
            unknown_event_count: self.unknown_event_count as nat,
            warnings: warnings_view(self.warnings@),
            state: self.state@,
        }
    }
}

impl EventImportPlan {
    pub fn migration_id(&self) -> (r: &str)
        ensures
            r@ == self@.migration_id,
    {
        self.migration_id.as_str()
    }

    pub fn source(&self) -> (r: &str)
        ensures
            r@ == self@.source,
    {
        self.source.as_str()
    }

    pub fn target(&self) -> (r: &str)
        ensures
            r@ == self@.target,
    {
        self.target.as_str()
    }

    pub fn source_bytes(&self) -> (r: u64)
        ensures
            r == self@.source_bytes,
    {
        self.source_bytes
    }

    pub fn source_fingerprint(&self) -> (r: &str)
        ensures
            r@ == self@.source_fingerprint,
    {
        self.source_fingerprint.as_str()
    }

    pub fn event_count(&self) -> (r: usize)
        ensures
            r == self@.event_count,
    {
        self.event_count
    }

    pub fn malformed_line_count(&self) -> (r: usize)
        ensures
            r == self@.malformed_line_count,
    {
        self.malformed_line_count
    }

    pub fn unknown_event_count(&self) -> (r: usize)
        ensures
            r == self@.unknown_event_count,
    {
        self.unknown_event_count
    }

    pub fn warnings(&self) -> (r: &Vec<EventLogWarning>)
        ensures
            warnings_view(r@) == self@.warnings,
    {
        &self.warnings
    }

    pub fn state(&self) -> (r: &EventImportState)
        ensures
            r@ == self@.state,
    {
        &self.state
    }
}

/// What an import has done.
#[derive(Clone, Debug, PartialEq, Eq)]
pub struct EventImportReport {
    migration_id: String,
    target: String,
    imported_events: usize,
    malformed_lines: usize,
    unknown_events: usize,
    warnings: Vec<EventLogWarning>,
}

impl EventImportReport {
    pub closed spec fn spec_id(self) -> Seq<char> {
        self.migration_id@
    }

    pub closed spec fn spec_target(self) -> Seq<char> {
        self.target@
    }

    pub closed spec fn counts(self) -> (usize, usize, usize) {
        (self.imported_events, self.malformed_lines, self.unknown_events)
    }

    pub closed spec fn spec_warnings(self) -> Seq<WarningView> {
        warnings_view(self.warnings@)
    }

    /// The report of a plan that was carried out.
    fn new(plan: &EventImportPlan, target: &str) -> (r: Self)
        ensures
            r.spec_id() == plan@.migration_id,
            r.spec_target() == target@,
            r.counts() == (
                plan.event_count,
                plan.malformed_line_count,
                plan.unknown_event_count,
            ),
            r.spec_warnings() == plan@.warnings,
    {
        EventImportReport {
            migration_id: plan.migration_id.clone(),
            target: target.to_owned(),
            imported_events: plan.event_count,
            malformed_lines: plan.malformed_line_count,
            unknown_events: plan.unknown_event_count,
            warnings: copy_warnings(&plan.warnings),
        }
    }

    pub fn migration_id(&self) -> (r: &str)
        ensures
            r@ == self.spec_id(),
    {
        self.migration_id.as_str()
    }

    pub fn target(&self) -> (r: &str)
        ensures
            r@ == self.spec_target(),
    {
        self.target.as_str()
    }

    pub fn imported_events(&self) -> (r: usize)
        ensures
            r == self.counts().0,
    {
        self.imported_events
    }

    pub fn malformed_lines(&self) -> (r: usize)
        ensures
            r == self.counts().1,
    {
        self.malformed_lines
    }

    pub fn unknown_events(&self) -> (r: usize)
        ensures
            r == self.counts().2,
    {
        self.unknown_events
    }

    pub fn warnings(&self) -> (r: &Vec<EventLogWarning>)
        ensures
            warnings_view(r@) == self.spec_warnings(),
    {
        &self.warnings
    }
}

/// What undoing an import does: the imported file is removed, or preserved.
#[derive(Clone, Debug, PartialEq, Eq)]
pub struct EventRollbackReport {
    migration_id: String,
    target: String,
    removed: bool,
}

impl EventRollbackReport {
    pub closed spec fn spec_id(self) -> Seq<char> {
        self.migration_id@
    }

    pub closed spec fn spec_target(self) -> Seq<char> {
        self.target@
    }

    pub closed spec fn removes(self) -> bool {
        self.removed
    }

    pub fn migration_id(&self) -> (r: &str)
        ensures
            r@ == self.spec_id(),
    {
        self.migration_id.as_str()
    }

    pub fn target(&self) -> (r: &str)
        ensures
            r@ == self.spec_target(),
    {
        self.target.as_str()
    }

    pub fn removed(&self) -> (r: bool)
        ensures
            r == self.removes(),
    {
        self.removed
    }

    pub fn preserved(&self) -> (r: bool)
        ensures
            r == !self.removes(),
    {
        !self.removed
    }
}

/// What an import remembers to be undone.
#[derive(Debug, PartialEq, Eq)]
pub struct EventImportManifest {
    pub schema_version: u32,
    pub plan: EventImportPlan,
    pub target_bytes: u64,
    pub target_fingerprint: u64,
}

impl EventImportManifest {
    /// The bytes are, as far as length and fingerprint tell, what was imported.
    pub open spec fn recognizes(self, bytes: Seq<u8>) -> bool {
        bytes.len() == self.target_bytes && fnv1a(bytes) == self.target_fingerprint
    }

    /// Undoing the import removes the target: it is there, and still what was imported.
    pub open spec fn removes(self, current: Option<Seq<u8>>) -> bool {
        current is Some && self.recognizes(current->0)
    }

    /// The manifest of a plan whose import wrote these bytes.
    pub fn new(plan: EventImportPlan, written: &Vec<u8>) -> (r: Self)
        ensures
            r.schema_version == EVENT_IMPORT_SCHEMA_VERSION,
            r.plan == plan,
            r.recognizes(written@),
    {
        EventImportManifest {
            schema_version: EVENT_IMPORT_SCHEMA_VERSION,
            plan,
            target_bytes: written.len() as u64,
            target_fingerprint: stable_fingerprint(written),
        }
    }

    /// Whether the target goes again when this manifest could not be written: it does unless
    /// somebody has changed it in the meantime.
    pub fn is_withdrawn(&self, current: &Option<Vec<u8>>) -> (r: bool)
        ensures
            r == (current is Some && fnv1a(current->0@) == self.target_fingerprint),
    {
        match current {
            Some(bytes) => stable_fingerprint(bytes) == self.target_fingerprint,
            None => false,
        }
    }
}

/// A manifest that was read is used only if it is of this version.
pub fn check_manifest(manifest: EventImportManifest) -> (r: Result<
    EventImportManifest,
    EventImportError,
>)
    ensures
        match r {
            Ok(accepted) => manifest.schema_version == EVENT_IMPORT_SCHEMA_VERSION && accepted
                == manifest,
            Err(error) => manifest.schema_version != EVENT_IMPORT_SCHEMA_VERSION && error@
                == ImportErrorView::InvalidManifest("unsupported manifest schema version"@),
        },
{
    if manifest.schema_version != EVENT_IMPORT_SCHEMA_VERSION {
        return Err(
            EventImportError::InvalidManifest("unsupported manifest schema version".to_owned()),
        );
    }
    Ok(manifest)
}

/// A file that is read as a manifest is not larger than [`MAX_IMPORT_MANIFEST_BYTES`].
pub fn check_manifest_length(length: u64) -> (r: Result<(), EventImportError>)
    ensures
        r is Ok == (length <= MAX_IMPORT_MANIFEST_BYTES),
        r is Err ==> r->Err_0@ == ImportErrorView::InvalidManifest(
            "manifest exceeds size limit"@,
        ),
{
    if length > MAX_IMPORT_MANIFEST_BYTES {
        Err(EventImportError::InvalidManifest("manifest exceeds size limit".to_owned()))
    } else {
        Ok(())
    }
}

/// An imported log is not larger than a session file may be.
pub fn check_normalized_length(length: u64) -> (r: Result<(), EventImportError>)
    ensures
        r is Ok == (length <= MAX_SESSION_FILE_BYTES),
        r is Err ==> r->Err_0@ == ImportErrorView::InvalidPlan(
            "normalized event log exceeds the storage limit"@,
        ),
{
    if length > MAX_SESSION_FILE_BYTES {
        Err(invalid_plan("normalized event log exceeds the storage limit"))
    } else {
        Ok(())
    }
}

// ---------------------------------------------------------------------------
// The importer
// ---------------------------------------------------------------------------
/// How the source lies to the legacy sessions directory: what the file system resolves them
/// to, where it does, and how they are written otherwise.
pub struct SourceProbe {
    pub resolved_root: Option<Location>,
    pub resolved_source: Option<Location>,
    pub written_root: Location,
    pub written_source: Location,
}

/// Why a source is not one of the legacy sessions directory.
pub open spec fn escape_of(probe: SourceProbe) -> Option<Seq<char>> {
    match probe.resolved_root {
        Some(root) => match probe.resolved_source {
            Some(source) => if source.within(root) {
                None
            } else {
                Some(
                    "canonical source escapes legacy sessions root: "@
                        + probe.written_source.display@,
                )
            },
            None => None,
        },
        None => if probe.written_source.within(probe.written_root) {
            None
        } else {
            Some("source escapes legacy sessions root: "@ + probe.written_source.display@)
        },
    }
}

pub fn ensure_under(probe: &SourceProbe) -> (r: Result<(), EventImportError>)
    ensures
        match escape_of(*probe) {
            None => r is Ok,
            Some(message) => r is Err && r->Err_0@ == ImportErrorView::InvalidPlan(message),
        },
{
    match &probe.resolved_root {
        Some(root) => match &probe.resolved_source {
            Some(source) => {
                if source.is_within(root) {
                    Ok(())
                } else {
                    Err(
                        EventImportError::InvalidPlan(
                            text2(
                                "canonical source escapes legacy sessions root: ",
                                probe.written_source.display.as_str(),
                            ),
                        ),
                    )
                }
            },
            None => Ok(()),
        },
        None => {
            if probe.written_source.is_within(&probe.written_root) {
                Ok(())
            } else {
                Err(
                    EventImportError::InvalidPlan(
                        text2(
                            "source escapes legacy sessions root: ",
                            probe.written_source.display.as_str(),
                        ),
                    ),
                )
            }
        },
    }
}

/// A grant-bound importer of one event log.
#[derive(Debug)]
pub struct LegacyEventLogMigration {
    workspace: Location,
    source: Location,
    legacy_read: bool,
    next_write: bool,
}

impl LegacyEventLogMigration {
    pub closed spec fn spec_workspace(self) -> Location {
        self.workspace
    }

    pub closed spec fn spec_source(self) -> Location {
        self.source
    }

    pub closed spec fn reads(self) -> bool {
        self.legacy_read
    }

    pub closed spec fn writes(self) -> bool {
        self.next_write
    }

    /// An importer for a source that lies in the legacy sessions directory of a workspace.
    pub fn from_grant(
        grant: &WorkspaceGrant,
        workspace: Location,
        is_directory: bool,
        probe: &SourceProbe,
        source: Location,
    ) -> (r: Result<Self, EventImportError>)
        ensures
            match r {
                Ok(importer) => {
                    &&& is_directory
                    &&& escape_of(*probe) is None
                    &&& is_event_log_path(probe.written_source.display@)
                    &&& importer.spec_workspace() == workspace
                    &&& importer.spec_source() == source
                    &&& importer.reads() == grant.reads()
                    &&& importer.writes() == grant.writes()
                },
                Err(error) => if !is_directory {
                    error@ == ImportErrorView::InvalidPlan("workspace is not a directory"@)
                } else if escape_of(*probe) is Some {
                    error@ == ImportErrorView::InvalidPlan(escape_of(*probe)->0)
                } else {
                    !is_event_log_path(probe.written_source.display@) && error@
                        == ImportErrorView::UnsupportedFormat(probe.written_source.display@)
                },
            },
    {
        if !is_directory {
            return Err(invalid_plan("workspace is not a directory"));
        }
        match ensure_under(probe) {
            Ok(()) => {},
            Err(error) => return Err(error),
        }
        if !names_event_log(probe.written_source.display.as_str()) {
            return Err(EventImportError::UnsupportedFormat(probe.written_source.display.clone()));
        }
        Ok(
            LegacyEventLogMigration {
                workspace,
                source,
                legacy_read: grant.allows_legacy_read(),
                next_write: grant.allows_next_write(),
            },
        )
    }

    pub fn source(&self) -> (r: &Location)
        ensures
            *r == self.spec_source(),
    {
        &self.source
    }

    /// Where the source lies below the workspace.
    pub open spec fn source_path(self) -> Option<Seq<char>> {
        relative_of(self.spec_workspace(), self.spec_source())
    }

    fn relative_source(&self) -> (r: Result<String, EventImportError>)
        ensures
            match self.source_path() {
                Some(path) => r is Ok && r->Ok_0@ == path,
                None => r is Err && r->Err_0@ == ImportErrorView::InvalidPlan(
                    "path is outside workspace"@,
                ),
            },
    {
        match relative_path(&self.workspace, &self.source) {
            Some(path) => Ok(path),
            None => Err(invalid_plan("path is outside workspace")),
        }
    }

    /// What an import of this log is going to do. It needs a grant to read, and at least one
    /// event; it never replaces a target.
    pub fn plan(
        &self,
        log: Result<LegacyEventLog, EventLogError>,
        migration_id: String,
        target_exists: bool,
    ) -> (r: Result<EventImportPlan, EventImportError>)
        ensures
            match r {
                Ok(plan) => {
                    &&& self.reads()
                    &&& log is Ok
                    &&& self.source_path() is Some
                    &&& plan@ == self.planned(log->Ok_0, migration_id@, target_exists)
                },
                Err(error) => if !self.reads() {
                    error@ == ImportErrorView::LegacyReadNotGranted
                } else if log is Err {
                    error@ == ImportErrorView::Log(log->Err_0@)
                } else {
                    self.source_path() is None && error@ == ImportErrorView::InvalidPlan(
                        "path is outside workspace"@,
                    )
                },
            },
    {
        if !self.legacy_read {
            return Err(EventImportError::LegacyReadNotGranted);
        }
        let log = match log {
            Ok(log) => log,
            Err(error) => return Err(EventImportError::Log(error)),
        };
        let summary = match log.summary() {
            Ok(summary) => summary,
            Err(error) => return Err(EventImportError::Log(error)),
        };
        let source = match self.relative_source() {
            Ok(source) => source,
            Err(error) => return Err(error),
        };
        let state = if summary.event_count() == 0 {
            EventImportState::Invalid {
                reason: "legacy event log contains no valid JSON event records".to_owned(),
            }
        } else if target_exists {
            EventImportState::TargetExists
        } else {
            EventImportState::Ready
        };
        let target = target_of(migration_id.as_str());
        Ok(
            EventImportPlan {
                schema_version: EVENT_IMPORT_SCHEMA_VERSION,
                migration_id,
                source,
                target,
                source_bytes: log.byte_count(),
                source_fingerprint: log.source_fingerprint(),
                event_count: summary.event_count(),
                malformed_line_count: summary.malformed_line_count(),
                unknown_event_count: summary.unknown_event_count(),
                warnings: copy_warnings(summary.warnings()),
                state,
            },
        )
    }

    /// The plan for a log.
    pub open spec fn planned(
        self,
        log: LegacyEventLog,
        migration_id: Seq<char>,
        target_exists: bool,
    ) -> ImportPlanView {
        let summary = summary_of(log.lines());
        ImportPlanView {
            schema_version: EVENT_IMPORT_SCHEMA_VERSION,
            migration_id,
            source: self.source_path()->0,
            target: import_target(migration_id),
            source_bytes: log.content().len(),
            source_fingerprint: fingerprint_text(fnv1a(log.content())),
            event_count: summary.event_count,
            malformed_line_count: summary.malformed_line_count,
            unknown_event_count: summary.unknown_event_count,
            warnings: summary.warnings,
            state: if summary.event_count == 0 {
                ImportStateView::Invalid {
                    reason: "legacy event log contains no valid JSON event records"@,
                }
            } else if target_exists {
                ImportStateView::TargetExists
            } else {
                ImportStateView::Ready
            },
        }
    }

    /// What is wrong with a plan that somebody hands in.
    pub open spec fn plan_problem(self, plan: ImportPlanView) -> Option<Seq<char>> {
        if plan.schema_version != EVENT_IMPORT_SCHEMA_VERSION {
            Some("unsupported event import plan schema version"@)
        } else if !is_import_id(plan.migration_id) {
            Some("migration id contains unsupported characters"@)
        } else if self.source_path() is None {
            Some("path is outside workspace"@)
        } else if Some(plan.source) != self.source_path() {
            Some("event import plan belongs to a different source"@)
        } else if plan.target != import_target(plan.migration_id) {
            Some("event import plan target is outside the event migration namespace"@)
        } else {
            None
        }
    }

    pub fn validate_plan(&self, plan: &EventImportPlan) -> (r: Result<(), EventImportError>)
        ensures
            match self.plan_problem(plan@) {
                None => r is Ok,
                Some(problem) => r is Err && r->Err_0@ == ImportErrorView::InvalidPlan(problem),
            },
    {
        if plan.schema_version != EVENT_IMPORT_SCHEMA_VERSION {
            return Err(invalid_plan("unsupported event import plan schema version"));
        }
        match validate_import_id(plan.migration_id.as_str()) {
            Ok(()) => {},
            Err(error) => return Err(error),
        }
        let expected_source = match self.relative_source() {
            Ok(source) => source,
            Err(error) => return Err(error),
        };
        if !str_eq(plan.source.as_str(), expected_source.as_str()) {
            return Err(invalid_plan("event import plan belongs to a different source"));
        }
        let expected_target = target_of(plan.migration_id.as_str());
        if !str_eq(plan.target.as_str(), expected_target.as_str()) {
            return Err(
                invalid_plan("event import plan target is outside the event migration namespace"),
            );
        }
        Ok(())
    }

    fn require_write(&self) -> (r: Result<(), EventImportError>)
        ensures
            r is Ok == self.writes(),
            r is Err ==> r->Err_0@ == ImportErrorView::NextWriteNotGranted,
    {
        if self.next_write {
            Ok(())
        } else {
            Err(EventImportError::NextWriteNotGranted)
        }
    }

    /// What keeps a plan from being carried out on this log.
    pub open spec fn apply_problem(
        self,
        plan: ImportPlanView,
        log: Result<LegacyEventLog, EventLogError>,
    ) -> Option<ImportErrorView> {
        if !self.writes() {
            Some(ImportErrorView::NextWriteNotGranted)
        } else if let Some(problem) = self.plan_problem(plan) {
            Some(ImportErrorView::InvalidPlan(problem))
        } else if !(plan.state is Ready) {
            Some(ImportErrorView::InvalidPlan("event import plan is not ready"@))
        } else {
            match log {
                Err(error) => Some(ImportErrorView::Log(error@)),
                Ok(log) => if fingerprint_text(fnv1a(log.content())) != plan.source_fingerprint
                    || log.content().len() != plan.source_bytes {
                    Some(ImportErrorView::SourceChanged(plan.source))
                } else {
                    None
                },
            }
        }
    }

    /// Hands out the log that a plan imports: only the one it was made for, unchanged.
    pub fn apply(&self, plan: &EventImportPlan, log: Result<LegacyEventLog, EventLogError>) -> (r:
        Result<LegacyEventLog, EventImportError>)
        ensures
            match self.apply_problem(plan@, log) {
                None => r is Ok && log is Ok && r->Ok_0 == log->Ok_0,
                Some(problem) => r is Err && r->Err_0@ == problem,
            },
    {
        match self.require_write() {
            Ok(()) => {},
            Err(error) => return Err(error),
        }
        match self.validate_plan(plan) {
            Ok(()) => {},
            Err(error) => return Err(error),
        }
        match &plan.state {
            EventImportState::Ready => {},
            _ => return Err(invalid_plan("event import plan is not ready")),
        }
        let log = match log {
            Ok(log) => log,
            Err(error) => return Err(EventImportError::Log(error)),
        };
        let fingerprint = log.source_fingerprint();
        if !str_eq(fingerprint.as_str(), plan.source_fingerprint.as_str()) || log.byte_count()
            != plan.source_bytes {
            return Err(EventImportError::SourceChanged(plan.source.clone()));
        }
        Ok(log)
    }

    /// Where the import of a plan writes to.
    pub open spec fn target_place(self, plan: ImportPlanView) -> Seq<char> {
        joined_of(self.spec_workspace().display@, plan.target)
    }

    /// The report of a plan that was carried out.
    pub fn report(&self, plan: &EventImportPlan) -> (r: EventImportReport)
        ensures
            r.spec_id() == plan@.migration_id,
            r.spec_target() == self.target_place(plan@),
            r.counts() == (
                plan.event_count,
                plan.malformed_line_count,
                plan.unknown_event_count,
            ),
            r.spec_warnings() == plan@.warnings,
    {
        let target = joined(self.workspace.display.as_str(), plan.target.as_str());
        EventImportReport::new(plan, target.as_str())
    }

    /// Where the manifest of an import is, below the workspace, for somebody who may undo it.
    pub fn manifest_path(&self, migration_id: &str) -> (r: Result<String, EventImportError>)
        ensures
            match r {
                Ok(path) => self.writes() && is_import_id(migration_id@) && path@
                    == import_manifest(migration_id@),
                Err(error) => if !self.writes() {
                    error@ == ImportErrorView::NextWriteNotGranted
                } else {
                    !is_import_id(migration_id@) && error@ == ImportErrorView::InvalidPlan(
                        "migration id contains unsupported characters"@,
                    )
                },
            },
    {
        match self.require_write() {
            Ok(()) => {},
            Err(error) => return Err(error),
        }
        match validate_import_id(migration_id) {
            Ok(()) => {},
            Err(error) => return Err(error),
        }
        let mut path = ".yunxi-next/migrations/events/manifests/".to_owned();
        path.append(migration_id);
        path.append(".json");
        Ok(path)
    }

    /// Decides what undoing an import does, given what its target holds now: it is removed
    /// only while it is what was imported.
    pub fn rollback(
        &self,
        migration_id: &str,
        manifest: &EventImportManifest,
        current: Option<Vec<u8>>,
    ) -> (r: Result<EventRollbackReport, EventImportError>)
        ensures
            match r {
                Ok(report) => {
                    &&& self.writes()
                    &&& is_import_id(migration_id@)
                    &&& self.plan_problem(manifest.plan@) is None
                    &&& report.spec_id() == migration_id@
                    &&& report.spec_target() == self.target_place(manifest.plan@)
                    &&& report.removes() == manifest.removes(
                        match current {
                            Some(bytes) => Some(bytes@),
                            None => None,
                        },
                    )
                },
                Err(error) => if !self.writes() {
                    error@ == ImportErrorView::NextWriteNotGranted
                } else if !is_import_id(migration_id@) {
                    error@ == ImportErrorView::InvalidPlan(
                        "migration id contains unsupported characters"@,
                    )
                } else {
                    self.plan_problem(manifest.plan@) is Some && error@
                        == ImportErrorView::InvalidPlan(self.plan_problem(manifest.plan@)->0)
                },
            },
    {
        match self.manifest_path(migration_id) {
            Ok(_) => {},
            Err(error) => return Err(error),
        }
        match self.validate_plan(&manifest.plan) {
            Ok(()) => {},
            Err(error) => return Err(error),
        }
        let removed = match &current {
            Some(bytes) => bytes.len() as u64 == manifest.target_bytes && stable_fingerprint(bytes)
                == manifest.target_fingerprint,
            None => false,
        };
        Ok(
            EventRollbackReport {
                migration_id: migration_id.to_owned(),
                target: joined(self.workspace.display.as_str(), manifest.plan.target.as_str()),
                removed,
            },
        )
    }
}

/// A plan is accepted by the importer that made it, as long as its identifier is one; and
/// undoing the import removes what it wrote, and nothing that somebody has put in its place.
pub proof fn lemma_import_is_reversible(
    importer: LegacyEventLogMigration,
    log: LegacyEventLog,
    migration_id: Seq<char>,
    written: Seq<u8>,
    manifest: EventImportManifest,
)
    requires
        importer.reads(),
        importer.writes(),
        importer.source_path() is Some,
        is_import_id(migration_id),
        events_after(log.lines(), 0).len() > 0,
        manifest.plan@ == importer.planned(log, migration_id, false),
        manifest.recognizes(written),
    ensures
        importer.apply_problem(importer.planned(log, migration_id, false), Ok(log)) is None,
        importer.plan_problem(manifest.plan@) is None,
        manifest.plan@.target == import_target(migration_id),
        manifest.removes(Some(written)),
        forall|other: Seq<u8>|
            other.len() != written.len() || fnv1a(other) != fnv1a(written) ==> !manifest.removes(
                Some(other),
            ),
{
}

// ---------------------------------------------------------------------------
// The files
// ---------------------------------------------------------------------------
/// The files of a workspace, by their paths below it.
pub type Files = Map<Seq<char>, Seq<u8>>;

/// What stands at a path.
pub open spec fn found_at(files: Files, path: Seq<char>) -> Option<Seq<u8>> {
    if files.dom().contains(path) {
        Some(files[path])
    } else {
        None
    }
}

/// The files after an import has written its target, which nothing may stand at before.
pub open spec fn imported_files(files: Files, plan: ImportPlanView, written: Seq<u8>) -> Files {
    files.insert(plan.target, written)
}

/// The files after an import was undone: the target goes where the report says so.
pub open spec fn restored_files(files: Files, manifest: EventImportManifest) -> Files {
    if manifest.removes(found_at(files, manifest.plan@.target)) {
        files.remove(manifest.plan@.target)
    } else {
        files
    }
}

/// Undoing an import touches no file but its target, and the target only while it still is
/// what was imported: one that was edited keeps its bytes.
pub proof fn lemma_rollback_touches_only_its_target(
    files: Files,
    manifest: EventImportManifest,
    path: Seq<char>,
)
    ensures
        path != manifest.plan@.target ==> found_at(restored_files(files, manifest), path)
            == found_at(files, path),
        path == manifest.plan@.target ==> found_at(restored_files(files, manifest), path)
            == if manifest.removes(found_at(files, path)) {
            None
        } else {
            found_at(files, path)
        },
{
}

/// Importing and undoing at once gives back the files as they were.
pub proof fn lemma_undone_import_leaves_no_trace(
    files: Files,
    manifest: EventImportManifest,
    written: Seq<u8>,
)
    requires
        !files.dom().contains(manifest.plan@.target),
        manifest.recognizes(written),
    ensures
        restored_files(imported_files(files, manifest.plan@, written), manifest) == files,
{
    assert(restored_files(imported_files(files, manifest.plan@, written), manifest) =~= files);
}

/// A log in the legacy sessions directory is never the target of its own import: neither
/// importing it nor undoing the import changes it.
pub proof fn lemma_source_is_never_touched(
    importer: LegacyEventLogMigration,
    files: Files,
    manifest: EventImportManifest,
    written: Seq<u8>,
    name: Seq<char>,
)
    requires
        importer.source_path() == Some(".yunxi/sessions/"@ + name),
        importer.plan_problem(manifest.plan@) is None,
    ensures
        ({
            let source = importer.source_path()->0;
            &&& source != manifest.plan@.target
            &&& found_at(imported_files(files, manifest.plan@, written), source) == found_at(
                files,
                source,
            )
            &&& found_at(restored_files(files, manifest), source) == found_at(files, source)
        }),
{
    reveal_strlit(".yunxi/sessions/");
    reveal_strlit(".yunxi-next/migrations/events/");
    let source = importer.source_path()->0;
    let target = manifest.plan@.target;
    assert(source[6] == '/');
    assert(target[6] == '-');
}

} // verus!
