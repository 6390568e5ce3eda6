//! Memory records of the legacy format, brought to the current one.
use vstd::prelude::*;
use vstd::string::StringExecFns;
use vstd::utf8::{decode_utf8, valid_utf8};

use crate::storage::record::{opt_text};
use crate::text::{
    any_control, byte_len, char_count, char_is_ascii_alnum, char_is_space, char_lower, decimal,
    decimal_of, has_control, is_ascii_alnum, is_control, is_space, lemma_trim_keeps, lines,
    lines_of, lower, texts, to_chars, trim, trim_of, utf8_len, utf8_problem, utf8_text,
};

verus! {

pub const MAX_MEMORY_MIGRATION_FILE_BYTES: u64 = 16 * 1024 * 1024;

pub const MAX_MEMORY_MIGRATION_LINE_BYTES: usize = 1024 * 1024;

pub const MAX_MEMORY_MIGRATION_RECORDS: usize = 50_000;

/// The version that normalized records carry.
pub const MEMORY_SCHEMA_VERSION: u32 = 3;

// ---------------------------------------------------------------------------
// Records
// ---------------------------------------------------------------------------
#[derive(Clone, Debug, PartialEq, Eq)]
pub enum MemoryScope {
    GlobalUser,
    Workspace { root_fingerprint: String },
    AgentIdentity,
    Relationship,
}

pub enum MemoryScopeView {
    GlobalUser,
    Workspace { root_fingerprint: Seq<char> },
    AgentIdentity,
    Relationship,
}

impl View for MemoryScope {
    type V = MemoryScopeView;

    open spec fn view(&self) -> MemoryScopeView {
        match *self {
            MemoryScope::GlobalUser => MemoryScopeView::GlobalUser,
            MemoryScope::Workspace { root_fingerprint } => MemoryScopeView::Workspace {
                root_fingerprint: root_fingerprint@,
            },
            MemoryScope::AgentIdentity => MemoryScopeView::AgentIdentity,
            MemoryScope::Relationship => MemoryScopeView::Relationship,
        }
    }
}

impl MemoryScopeView {
    pub open spec fn label(self) -> Seq<char> {
        match self {
            MemoryScopeView::GlobalUser => "global_user"@,
            MemoryScopeView::Workspace { root_fingerprint } => "workspace:"@ + root_fingerprint,
            MemoryScopeView::AgentIdentity => "agent_identity"@,
            MemoryScopeView::Relationship => "relationship"@,
        }
    }
}

impl MemoryScope {
    pub fn label(&self) -> (r: String)
        ensures
            r@ == self@.label(),
    {
        match self {
            MemoryScope::GlobalUser => "global_user".to_owned(),
            MemoryScope::Workspace { root_fingerprint } => {
                let mut out = "workspace:".to_owned();
                out.append(root_fingerprint.as_str());
                out
            },
            MemoryScope::AgentIdentity => "agent_identity".to_owned(),
            MemoryScope::Relationship => "relationship".to_owned(),
        }
    }

    pub fn is_relationship(&self) -> (r: bool)
        ensures
            r == (self@ is Relationship),
    {
        matches!(self, MemoryScope::Relationship)
    }
}

#[derive(Clone, Copy, Debug, PartialEq, Eq, Structural)]
pub enum MemoryKind {
    Preference,
    PersonalFact,
    RelationshipNote,
    EmotionalState,
    Goal,
    ProjectContext,
    Correction,
    Event,
    ToolTraceSummary,
}

#[derive(Clone, Copy, Debug, PartialEq, Eq, Structural)]
pub enum MemorySensitivity {
    Low,
    Medium,
    High,
}

#[derive(Clone, Copy, Debug, PartialEq, Eq, Structural)]
pub enum MemoryStatus {
    Active,
    Pending,
    Rejected,
    Archived,
}

#[derive(Clone, Copy, Debug, PartialEq, Eq, Structural)]
pub enum MemoryLayer {
    Profile,
    Preference,
    Relationship,
    Workspace,
    Episode,
    ToolTrace,
    Unknown,
}

impl MemoryKind {
    pub open spec fn key(self) -> Seq<char> {
        match self {
            MemoryKind::Preference => "preference"@,
            MemoryKind::PersonalFact => "personal_fact"@,
            MemoryKind::RelationshipNote => "relationship_note"@,
            MemoryKind::EmotionalState => "emotional_state"@,
            MemoryKind::Goal => "goal"@,
            MemoryKind::ProjectContext => "project_context"@,
            MemoryKind::Correction => "correction"@,
            MemoryKind::Event => "event"@,
            MemoryKind::ToolTraceSummary => "tool_trace_summary"@,
        }
    }

    /// Records of these kinds are about the relationship.
    pub open spec fn relational(self) -> bool {
        self is RelationshipNote || self is EmotionalState
    }

    /// The layer that records of a kind belong to.
    pub open spec fn layer(self) -> MemoryLayer {
        match self {
            MemoryKind::Preference => MemoryLayer::Preference,
            MemoryKind::PersonalFact => MemoryLayer::Profile,
            MemoryKind::RelationshipNote => MemoryLayer::Relationship,
            MemoryKind::EmotionalState => MemoryLayer::Relationship,
            MemoryKind::ProjectContext => MemoryLayer::Workspace,
            MemoryKind::Correction => MemoryLayer::Workspace,
            MemoryKind::Goal => MemoryLayer::Episode,
            MemoryKind::Event => MemoryLayer::Episode,
            MemoryKind::ToolTraceSummary => MemoryLayer::ToolTrace,
        }
    }

    pub fn storage_key(self) -> (r: &'static str)
        ensures
            r@ == self.key(),
    {
        match self {
            MemoryKind::Preference => "preference",
            MemoryKind::PersonalFact => "personal_fact",
            MemoryKind::RelationshipNote => "relationship_note",
            MemoryKind::EmotionalState => "emotional_state",
            MemoryKind::Goal => "goal",
            MemoryKind::ProjectContext => "project_context",
            MemoryKind::Correction => "correction",
            MemoryKind::Event => "event",
            MemoryKind::ToolTraceSummary => "tool_trace_summary",
        }
    }

    pub fn is_relationship(self) -> (r: bool)
        ensures
            r == self.relational(),
    {
        matches!(self, MemoryKind::RelationshipNote | MemoryKind::EmotionalState)
    }
}

pub fn memory_layer_for_kind(kind: MemoryKind) -> (r: MemoryLayer)
    ensures
        r == kind.layer(),
{
    match kind {
        MemoryKind::Preference => MemoryLayer::Preference,
        MemoryKind::PersonalFact => MemoryLayer::Profile,
        MemoryKind::RelationshipNote | MemoryKind::EmotionalState => MemoryLayer::Relationship,
        MemoryKind::ProjectContext | MemoryKind::Correction => MemoryLayer::Workspace,
        MemoryKind::Goal | MemoryKind::Event => MemoryLayer::Episode,
        MemoryKind::ToolTraceSummary => MemoryLayer::ToolTrace,
    }
}

#[derive(Clone, Copy, Debug, PartialEq, Eq)]
pub struct MemoryTemporal {
    pub observed_at_millis: u128,
    pub event_at_millis: Option<u128>,
    pub valid_from_millis: Option<u128>,
    pub expires_at_millis: Option<u128>,
}

#[derive(Clone, Debug, PartialEq, Eq)]
pub struct MemoryInvalidation {
    pub supersedes: Vec<String>,
    pub superseded_by: Option<String>,
    pub conflicts_with: Vec<String>,
    pub expires_reason: Option<String>,
    pub invalidated_at_millis: Option<u128>,
}

pub struct InvalidationView {
    pub supersedes: Seq<Seq<char>>,
    pub superseded_by: Option<Seq<char>>,
    pub conflicts_with: Seq<Seq<char>>,
    pub expires_reason: Option<Seq<char>>,
    pub invalidated_at_millis: Option<u128>,
}

impl View for MemoryInvalidation {
    type V = InvalidationView;

    open spec fn view(&self) -> InvalidationView {
        InvalidationView {
            supersedes: texts(self.supersedes@),
            superseded_by: opt_text(self.superseded_by),
            conflicts_with: texts(self.conflicts_with@),
            expires_reason: opt_text(self.expires_reason),
            invalidated_at_millis: self.invalidated_at_millis,
        }
    }
}

/// A memory record but for its two scores, which stay with whoever reads and writes records.
#[derive(Clone, Debug, PartialEq, Eq)]
pub struct MemoryRecord {
    pub id: String,
    pub schema_version: u32,
    pub scope: MemoryScope,
    pub kind: MemoryKind,
    pub content: String,
    pub source_session_id: Option<String>,
    pub sensitivity: MemorySensitivity,
    pub status: MemoryStatus,
    pub created_at_millis: u128,
    pub updated_at_millis: u128,
    pub dedup_key: String,
    pub revision: u32,
    pub merged_count: u32,
    pub layer: MemoryLayer,
    pub temporal: MemoryTemporal,
    pub invalidation: MemoryInvalidation,
}

pub struct MemoryView {
    pub id: Seq<char>,
    pub schema_version: u32,
    pub scope: MemoryScopeView,
    pub kind: MemoryKind,
    pub content: Seq<char>,
    pub source_session_id: Option<Seq<char>>,
    pub sensitivity: MemorySensitivity,
    pub status: MemoryStatus,
    pub created_at_millis: u128,
    pub updated_at_millis: u128,
    pub dedup_key: Seq<char>,
    pub revision: u32,
    pub merged_count: u32,
    pub layer: MemoryLayer,
    pub temporal: MemoryTemporal,
    pub invalidation: InvalidationView,
}

impl View for MemoryRecord {
    type V = MemoryView;

    open spec fn view(&self) -> MemoryView {
        MemoryView {
            id: self.id@,
            schema_version: self.schema_version,
            scope: self.scope@,
            kind: self.kind,
            content: self.content@,
            source_session_id: opt_text(self.source_session_id),
            sensitivity: self.sensitivity,
            status: self.status,
            created_at_millis: self.created_at_millis,
            updated_at_millis: self.updated_at_millis,
            dedup_key: self.dedup_key@,
            revision: self.revision,
            merged_count: self.merged_count,
            layer: self.layer,
            temporal: self.temporal,
            invalidation: self.invalidation@,
        }
    }
}

// ---------------------------------------------------------------------------
// Texts
// ---------------------------------------------------------------------------
/// Why a text does not do for a field: it is blank, too long, or holds a control character or,
/// where that matters, white space.
pub open spec fn memory_text_problem(
    field: Seq<char>,
    value: Seq<char>,
    maximum: nat,
    allow_whitespace: bool,
) -> Option<Seq<char>> {
    if trim_of(value).len() == 0 {
        Some(field + " must not be empty"@)
    } else if value.len() > maximum {
        Some(field + " exceeds "@ + decimal_of(maximum) + " characters"@)
    } else if has_control(value) {
        Some(field + " contains a control character"@)
    } else if !allow_whitespace && exists|k: int|
        0 <= k < value.len() && is_space(#[trigger] value[k]) {
        Some(field + " contains whitespace"@)
    } else {
        None
    }
}

fn any_space(s: &str) -> (r: bool)
    ensures
        r == exists|k: int| 0 <= k < s@.len() && is_space(#[trigger] s@[k]),
{
    let chars = to_chars(s);
    let mut i: usize = 0;
    while i < chars.len()
        invariant
            chars@ == s@,
            i <= chars@.len(),
            forall|k: int| 0 <= k < i ==> !is_space(#[trigger] s@[k]),
        decreases chars@.len() - i,
    {
        if char_is_space(chars[i]) {
            assert(is_space(s@[i as int]));
            return true;
        }
        i += 1;
    }
    false
}

fn complaint(field: &str, rest: &str) -> (r: String)
    ensures
        r@ == field@ + rest@,
{
    let mut out = field.to_owned();
    out.append(rest);
    out
}

pub fn validate_memory_text(
    field: &str,
    value: &str,
    maximum: usize,
    allow_whitespace: bool,
) -> (r: Result<(), String>)
    ensures
        match memory_text_problem(field@, value@, maximum as nat, allow_whitespace) {
            None => r is Ok,
            Some(problem) => r is Err && r->Err_0@ == problem,
        },
{
    if trim(value).is_empty() {
        return Err(complaint(field, " must not be empty"));
    }
    if char_count(value) > maximum {
        let mut out = complaint(field, " exceeds ");
        out.append(decimal(maximum as u64).as_str());
        out.append(" characters");
        return Err(out);
    }
    if any_control(value) {
        return Err(complaint(field, " contains a control character"));
    }
    if !allow_whitespace && any_space(value) {
        return Err(complaint(field, " contains whitespace"));
    }
    Ok(())
}

/// The ideographs that count as content.
pub open spec fn cjk(c: char) -> bool {
    ||| '\u{4e00}' <= c <= '\u{9fff}'
    ||| '\u{3400}' <= c <= '\u{4dbf}'
    ||| '\u{f900}' <= c <= '\u{faff}'
}

pub fn is_cjk(character: char) -> (r: bool)
    ensures
        r == cjk(character),
{
    ('\u{4e00}' <= character && character <= '\u{9fff}') || ('\u{3400}' <= character && character
        <= '\u{4dbf}') || ('\u{f900}' <= character && character <= '\u{faff}')
}

/// Lower-case letters, digits and ideographs of a text, with single spaces where white space
/// parts them.
pub open spec fn folded(s: Seq<char>) -> Seq<char>
    decreases s.len(),
{
    if s.len() == 0 {
        s
    } else {
        fold_step(folded(s.drop_last()), s.last())
    }
}

pub open spec fn fold_step(out: Seq<char>, c: char) -> Seq<char> {
    if is_ascii_alnum(c) {
        out.push(lower(c))
    } else if is_space(c) {
        if out.len() > 0 && out.last() != ' ' {
            out.push(' ')
        } else {
            out
        }
    } else if cjk(c) {
        out.push(c)
    } else {
        out
    }
}

/// The content of a record as duplicates are told by it.
pub open spec fn content_key(content: Seq<char>) -> Seq<char> {
    trim_of(folded(content))
}

pub fn normalize_memory_content(content: &str) -> (r: String)
    ensures
        r@ == content_key(content@),
{
    let chars = to_chars(content);
    let mut output = String::new();
    let mut last_space = false;
    let mut empty = true;
    let mut i: usize = 0;
    assert(content@.take(0) =~= Seq::<char>::empty());
    while i < chars.len()
        invariant
            chars@ == content@,
            i <= chars@.len(),
            output@ == folded(content@.take(i as int)),
            empty == (output@.len() == 0),
            last_space == (output@.len() > 0 && output@.last() == ' '),
        decreases chars@.len() - i,
    {
        let c = chars[i];
        proof {
            assert(content@.take(i + 1).drop_last() =~= content@.take(i as int));
            assert(content@.take(i + 1).last() == c);
        }
        if char_is_ascii_alnum(c) {
            output.push(char_lower(c));
            last_space = false;
            empty = false;
        } else if char_is_space(c) {
            if !last_space && !empty {
                output.push(' ');
                last_space = true;
                empty = false;
            }
        } else if is_cjk(c) {
            output.push(c);
            last_space = false;
            empty = false;
        }
        i += 1;
    }
    assert(content@.take(i as int) =~= content@);
    trim(output.as_str()).to_owned()
}

// ---------------------------------------------------------------------------
// Normalization
// ---------------------------------------------------------------------------
/// What is wrong with the first reference that does not do.
pub open spec fn references_problem(references: Seq<Seq<char>>) -> Option<Seq<char>>
    decreases references.len(),
{
    if references.len() == 0 {
        None
    } else {
        match memory_text_problem("invalidation reference"@, references[0], 256, false) {
            Some(problem) => Some(problem),
            None => references_problem(references.skip(1)),
        }
    }
}

fn check_references(references: &Vec<String>) -> (r: Result<(), String>)
    ensures
        match references_problem(texts(references@)) {
            None => r is Ok,
            Some(problem) => r is Err && r->Err_0@ == problem,
        },
{
    let n: usize = references.len();
    let mut i: usize = 0;
    assert(texts(references@).skip(0) =~= texts(references@));
    while i < n
        invariant
            n == references@.len(),
            i <= n,
            references_problem(texts(references@)) == references_problem(
                texts(references@).skip(i as int),
            ),
        decreases n - i,
    {
        assert(texts(references@).skip(i as int)[0] == references@[i as int]@);
        assert(texts(references@).skip(i as int).skip(1) =~= texts(references@).skip(i + 1));
        validate_memory_text("invalidation reference", references[i].as_str(), 256, false)?;
        i += 1;
    }
    Ok(())
}

pub open spec fn optional_problem(
    field: Seq<char>,
    value: Option<Seq<char>>,
    maximum: nat,
    allow_whitespace: bool,
) -> Option<Seq<char>> {
    match value {
        Some(text) => memory_text_problem(field, text, maximum, allow_whitespace),
        None => None,
    }
}

fn check_optional(
    field: &str,
    value: &Option<String>,
    maximum: usize,
    allow_whitespace: bool,
) -> (r: Result<(), String>)
    ensures
        match optional_problem(field@, opt_text(*value), maximum as nat, allow_whitespace) {
            None => r is Ok,
            Some(problem) => r is Err && r->Err_0@ == problem,
        },
{
    match value {
        Some(text) => validate_memory_text(field, text.as_str(), maximum, allow_whitespace),
        None => Ok(()),
    }
}

pub open spec fn or_problem(first: Option<Seq<char>>, rest: Option<Seq<char>>) -> Option<
    Seq<char>,
> {
    match first {
        Some(problem) => Some(problem),
        None => rest,
    }
}

pub open spec fn scope_problem(scope: MemoryScopeView) -> Option<Seq<char>> {
    match scope {
        MemoryScopeView::Workspace { root_fingerprint } => memory_text_problem(
            "scope.root_fingerprint"@,
            root_fingerprint,
            256,
            false,
        ),
        _ => None,
    }
}

pub open spec fn invalidation_problem(invalidation: InvalidationView) -> Option<Seq<char>> {
    or_problem(
        references_problem(invalidation.supersedes),
        or_problem(
            references_problem(invalidation.conflicts_with),
            or_problem(
                optional_problem(
                    "invalidation superseded_by"@,
                    invalidation.superseded_by,
                    256,
                    false,
                ),
                or_problem(
                    optional_problem(
                        "invalidation expires_reason"@,
                        invalidation.expires_reason,
                        1024,
                        true,
                    ),
                    if invalidation.supersedes.len() > 256 || invalidation.conflicts_with.len()
                        > 256 {
                        Some("invalidation reference count exceeds 256"@)
                    } else {
                        None
                    },
                ),
            ),
        ),
    )
}

/// Why a record cannot be brought to the current format. `finite` says of both its scores
/// that they are finite numbers.
pub open spec fn record_problem(record: MemoryView, finite: bool) -> Option<Seq<char>> {
    if record.schema_version > MEMORY_SCHEMA_VERSION {
        Some("unsupported future schema_version="@ + decimal_of(record.schema_version as nat))
    } else {
        or_problem(
            memory_text_problem("id"@, record.id, 256, false),
            or_problem(
                memory_text_problem("content"@, record.content, 65536, true),
                if !finite {
                    Some("confidence and importance must be finite"@)
                } else {
                    or_problem(
                        optional_problem(
                            "source_session_id"@,
                            record.source_session_id,
                            256,
                            false,
                        ),
                        or_problem(
                            scope_problem(record.scope),
                            or_problem(
                                invalidation_problem(record.invalidation),
                                if trim_of(record.dedup_key).len() == 0 {
                                    None
                                } else {
                                    memory_text_problem("dedup_key"@, record.dedup_key, 1024, true)
                                },
                            ),
                        ),
                    )
                },
            ),
        )
    }
}

/// What is told apart by scope, kind and content is told apart by this key.
pub open spec fn derived_key(record: MemoryView) -> Seq<char> {
    record.scope.label() + "|"@ + record.kind.key() + "|"@ + content_key(record.content)
}

/// The record in the current format: what it leaves open is filled in from the rest of it.
pub open spec fn normalized_record(record: MemoryView) -> MemoryView {
    MemoryView {
        schema_version: MEMORY_SCHEMA_VERSION,
        updated_at_millis: if record.updated_at_millis == 0 {
            record.created_at_millis
        } else {
            record.updated_at_millis
        },
        dedup_key: if trim_of(record.dedup_key).len() == 0 {
            derived_key(record)
        } else {
            record.dedup_key
        },
        revision: if record.revision == 0 {
            1
        } else {
            record.revision
        },
        merged_count: if record.merged_count == 0 {
            1
        } else {
            record.merged_count
        },
        layer: if record.layer is Unknown {
            record.kind.layer()
        } else {
            record.layer
        },
        temporal: MemoryTemporal {
            observed_at_millis: if record.temporal.observed_at_millis == 0 {
                record.created_at_millis
            } else {
                record.temporal.observed_at_millis
            },
            valid_from_millis: if record.temporal.valid_from_millis is None
                && record.created_at_millis != 0 {
                Some(record.created_at_millis)
            } else {
                record.temporal.valid_from_millis
            },
            ..record.temporal
        },
        ..record
    }
}

/// The record is about the relationship.
pub open spec fn is_relational(record: MemoryView) -> bool {
    record.scope is Relationship || record.kind.relational()
}

fn check_record(record: &MemoryRecord, finite: bool) -> (r: Result<(), String>)
    ensures
        match record_problem(record@, finite) {
            None => r is Ok,
            Some(problem) => r is Err && r->Err_0@ == problem,
        },
{
    if record.schema_version > MEMORY_SCHEMA_VERSION {
        return Err(
            complaint(
                "unsupported future schema_version=",
                decimal(record.schema_version as u64).as_str(),
            ),
        );
    }
    validate_memory_text("id", record.id.as_str(), 256, false)?;
    validate_memory_text("content", record.content.as_str(), 65536, true)?;
    if !finite {
        return Err("confidence and importance must be finite".to_owned());
    }
    check_optional("source_session_id", &record.source_session_id, 256, false)?;
    if let MemoryScope::Workspace { root_fingerprint } = &record.scope {
        validate_memory_text("scope.root_fingerprint", root_fingerprint.as_str(), 256, false)?;
    }
    let invalidation = &record.invalidation;
    check_references(&invalidation.supersedes)?;
    check_references(&invalidation.conflicts_with)?;
    check_optional("invalidation superseded_by", &invalidation.superseded_by, 256, false)?;
    check_optional("invalidation expires_reason", &invalidation.expires_reason, 1024, true)?;
    if invalidation.supersedes.len() > 256 || invalidation.conflicts_with.len() > 256 {
        return Err("invalidation reference count exceeds 256".to_owned());
    }
    if !trim(record.dedup_key.as_str()).is_empty() {
        validate_memory_text("dedup_key", record.dedup_key.as_str(), 1024, true)?;
    }
    Ok(())
}

/// Brings a record to the current format, and says whether it is about the relationship.
pub fn normalize_memory_record(record: MemoryRecord, finite: bool) -> (r: Result<
    (MemoryRecord, bool),
    String,
>)
    ensures
        match record_problem(record@, finite) {
            Some(problem) => r is Err && r->Err_0@ == problem,
            None => {
                &&& r is Ok
                &&& (r->Ok_0).0@ == normalized_record(record@)
                &&& (r->Ok_0).1 == is_relational(record@)
            },
        },
{
    check_record(&record, finite)?;
    let relationship = record.scope.is_relationship() || record.kind.is_relationship();
    let mut out = record;
    if out.updated_at_millis == 0 {
        out.updated_at_millis = out.created_at_millis;
    }
    if out.temporal.observed_at_millis == 0 {
        out.temporal.observed_at_millis = out.created_at_millis;
    }
    if out.temporal.valid_from_millis.is_none() && out.created_at_millis != 0 {
        out.temporal.valid_from_millis = Some(out.created_at_millis);
    }
    if out.revision == 0 {
        out.revision = 1;
    }
    if out.merged_count == 0 {
        out.merged_count = 1;
    }
    if out.layer == MemoryLayer::Unknown {
        out.layer = memory_layer_for_kind(out.kind);
    }
    if trim(out.dedup_key.as_str()).is_empty() {
        let mut key = out.scope.label();
        key.append("|");
        key.append(out.kind.storage_key());
        key.append("|");
        key.append(normalize_memory_content(out.content.as_str()).as_str());
        out.dedup_key = key;
    }
    out.schema_version = MEMORY_SCHEMA_VERSION;
    Ok((out, relationship))
}

/// Nothing of a folded text is a control character.
proof fn lemma_folded_is_printable(s: Seq<char>)
    ensures
        !has_control(folded(s)),
    decreases s.len(),
{
    if s.len() > 0 {
        lemma_folded_is_printable(s.drop_last());
        let before = folded(s.drop_last());
        let after = folded(s);
        assert forall|k: int| 0 <= k < after.len() implies !is_control(#[trigger] after[k]) by {
            if k < before.len() {
                assert(after[k] == before[k]);
            }
        }
    }
}

proof fn lemma_derived_key(record: MemoryView)
    requires
        record_problem(record, true) is None,
    ensures
        !has_control(derived_key(record)),
        trim_of(derived_key(record)).len() > 0,
{
    let label = record.scope.label();
    let kind = record.kind.key();
    let content = content_key(record.content);
    let key = derived_key(record);
    reveal_strlit("|");
    reveal_strlit("global_user");
    reveal_strlit("workspace:");
    reveal_strlit("agent_identity");
    reveal_strlit("relationship");
    reveal_strlit("preference");
    reveal_strlit("personal_fact");
    reveal_strlit("relationship_note");
    reveal_strlit("emotional_state");
    reveal_strlit("goal");
    reveal_strlit("project_context");
    reveal_strlit("correction");
    reveal_strlit("event");
    reveal_strlit("tool_trace_summary");
    lemma_folded_is_printable(record.content);
    assert forall|k: int| 0 <= k < content.len() implies !is_control(#[trigger] content[k]) by {
        let c = content[k];
        lemma_trim_keeps(folded(record.content), c);
        assert(content.contains(c));
        let j = choose|j: int|
            0 <= j < folded(record.content).len() && folded(record.content)[j] == c;
        assert(!is_control(folded(record.content)[j]));
    }
    assert forall|k: int| 0 <= k < label.len() implies !is_control(#[trigger] label[k]) by {
        if let MemoryScopeView::Workspace { root_fingerprint } = record.scope {
            assert(scope_problem(record.scope) is None);
            if k >= 10 {
                assert(label[k] == root_fingerprint[k - 10]);
            }
        }
    }
    assert forall|k: int| 0 <= k < key.len() implies !is_control(#[trigger] key[k]) by {
        let at = label.len() + 1 + kind.len() + 1;
        if k < label.len() {
            assert(key[k] == label[k]);
        } else if k > label.len() && k < at - 1 {
            assert(key[k] == kind[k - label.len() - 1]);
        } else if k >= at {
            assert(key[k] == content[k - at]);
        }
    }
    assert(key[label.len() as int] == '|');
    lemma_trim_keeps(key, '|');
}

/// Bringing a record to the current format once more changes nothing. (A key that is derived
/// from a very long content may be longer than a given key may be.)
pub proof fn lemma_normalization_is_idempotent(record: MemoryView)
    requires
        record_problem(record, true) is None,
        normalized_record(record).dedup_key.len() <= 1024,
    ensures
        record_problem(normalized_record(record), true) is None,
        normalized_record(normalized_record(record)) == normalized_record(record),
        is_relational(normalized_record(record)) == is_relational(record),
{
    lemma_derived_key(record);
}

/// A normalized record is of the current version, counts from one, and has a layer and a key.
pub proof fn lemma_normalized_record_is_complete(record: MemoryView)
    ensures
        normalized_record(record).schema_version == MEMORY_SCHEMA_VERSION,
        normalized_record(record).revision >= 1,
        normalized_record(record).merged_count >= 1,
        !(normalized_record(record).layer is Unknown),
        record.created_at_millis != 0 ==> normalized_record(record).temporal.valid_from_millis
            is Some,
        normalized_record(record).id == record.id,
        normalized_record(record).content == record.content,
        trim_of(normalized_record(record).dedup_key).len() > 0,
{
    let label = record.scope.label();
    let key = derived_key(record);
    reveal_strlit("|");
    assert(key[label.len() as int] == '|');
    lemma_trim_keeps(key, '|');
}

// ---------------------------------------------------------------------------
// Files of records
// ---------------------------------------------------------------------------
/// A line that holds a record, and where it stands in its file, counted from one.
#[derive(Clone, Debug)]
pub struct MemoryLine {
    pub number: usize,
    pub text: String,
}

pub open spec fn memory_lines_view(lines: Seq<MemoryLine>) -> Seq<(nat, Seq<char>)> {
    Seq::new(lines.len(), |k: int| (lines[k].number as nat, lines[k].text@))
}

/// The lines that are not blank, trimmed, with their numbers.
pub open spec fn numbered(all: Seq<Seq<char>>) -> Seq<(nat, Seq<char>)>
    decreases all.len(),
{
    if all.len() == 0 {
        Seq::empty()
    } else if trim_of(all.last()).len() == 0 {
        numbered(all.drop_last())
    } else {
        numbered(all.drop_last()).push((all.len(), trim_of(all.last())))
    }
}

/// The records of a file, still as text.
pub open spec fn memory_lines_of(bytes: Seq<u8>) -> Result<Seq<(nat, Seq<char>)>, Seq<char>> {
    if bytes.len() > MAX_MEMORY_MIGRATION_FILE_BYTES {
        Err("file exceeds 16777216 bytes"@)
    } else if !valid_utf8(bytes) {
        Err("file is not UTF-8: "@ + utf8_problem(bytes))
    } else {
        Ok(numbered(lines_of(decode_utf8(bytes))))
    }
}

pub fn memory_lines(bytes: &Vec<u8>) -> (r: Result<Vec<MemoryLine>, String>)
    ensures
        match memory_lines_of(bytes@) {
            Ok(found) => r is Ok && memory_lines_view(r->Ok_0@) == found,
            Err(problem) => r is Err && r->Err_0@ == problem,
        },
{
    if bytes.len() as u64 > MAX_MEMORY_MIGRATION_FILE_BYTES {
        return Err("file exceeds 16777216 bytes".to_owned());
    }
    let text = match utf8_text(bytes.clone()) {
        Ok(text) => text,
        Err(problem) => return Err(complaint("file is not UTF-8: ", problem.as_str())),
    };
    let all = lines(text.as_str());
    let mut found: Vec<MemoryLine> = Vec::new();
    let n: usize = all.len();
    let mut i: usize = 0;
    assert(texts(all@).take(0) =~= Seq::<Seq<char>>::empty());
    assert(memory_lines_view(found@) =~= Seq::<(nat, Seq<char>)>::empty());
    while i < n
        invariant
            n == all@.len(),
            i <= n,
            memory_lines_view(found@) == numbered(texts(all@).take(i as int)),
        decreases n - i,
    {
        proof {
            assert(texts(all@).take(i + 1).drop_last() =~= texts(all@).take(i as int));
            assert(texts(all@).take(i + 1).last() == all@[i as int]@);
        }
        let line = trim(all[i].as_str());
        if !line.is_empty() {
            let ghost before = found@;
            found.push(MemoryLine { number: i + 1, text: line.to_owned() });
            assert(memory_lines_view(found@) =~= memory_lines_view(before).push(
                ((i + 1) as nat, line@),
            ));
        }
        i += 1;
    }
    assert(texts(all@).take(n as int) =~= texts(all@));
    Ok(found)
}

/// What became of one line: the record read from it, whether its scores are finite, and the
/// bytes that the normalized record is written as.
#[derive(Debug)]
pub struct LineReading {
    pub parsed: Result<MemoryRecord, String>,
    pub finite: bool,
    pub encoded: Result<Vec<u8>, String>,
}

pub struct LineReadingView {
    pub parsed: Result<MemoryView, Seq<char>>,
    pub finite: bool,
    pub encoded: Result<Seq<u8>, Seq<char>>,
}

impl View for LineReading {
    type V = LineReadingView;

    open spec fn view(&self) -> LineReadingView {
        LineReadingView {
            parsed: match self.parsed {
                Ok(record) => Ok(record@),
                Err(message) => Err(message@),
            },
            finite: self.finite,
            encoded: match self.encoded {
                Ok(bytes) => Ok(bytes@),
                Err(message) => Err(message@),
            },
        }
    }
}

/// The sentence about one line.
pub open spec fn about_line(before: Seq<char>, number: nat, after: Seq<char>) -> Seq<char> {
    before + decimal_of(number) + after
}

fn line_sentence(before: &str, number: usize, after: &str) -> (r: String)
    ensures
        r@ == about_line(before@, number as nat, after@),
{
    let mut out = before.to_owned();
    out.append(decimal(number as u64).as_str());
    out.append(after);
    out
}

/// What one line adds to the normalized file, and whether its record is about the
/// relationship. `count` tells how many records there are up to this one.
pub open spec fn line_result(line: (nat, Seq<char>), count: int, reading: LineReadingView) -> Result<
    (Seq<u8>, bool),
    Seq<char>,
> {
    if utf8_len(line.1) > MAX_MEMORY_MIGRATION_LINE_BYTES {
        Err(about_line("line "@, line.0, " exceeds 1048576 bytes"@))
    } else if count > MAX_MEMORY_MIGRATION_RECORDS {
        Err("file contains more than 50000 records"@)
    } else {
        match reading.parsed {
            Err(error) => Err(about_line("line "@, line.0, " is invalid JSON memory: "@ + error)),
            Ok(record) => match record_problem(record, reading.finite) {
                Some(problem) => Err(about_line("line "@, line.0, ": "@ + problem)),
                None => match reading.encoded {
                    Err(error) => Err(
                        about_line("line "@, line.0, " could not be encoded: "@ + error),
                    ),
                    Ok(encoded) => if encoded.len() > MAX_MEMORY_MIGRATION_LINE_BYTES {
                        Err(about_line("normalized line "@, line.0, " exceeds 1048576 bytes"@))
                    } else {
                        Ok((encoded.push(10u8), is_relational(record)))
                    },
                },
            },
        }
    }
}

/// A line's record in the current format, ready to be written.
pub fn normalize_line(number: usize, parsed: Result<MemoryRecord, String>, finite: bool) -> (r:
    Result<(MemoryRecord, bool), String>)
    ensures
        match parsed {
            Err(error) => r is Err && r->Err_0@ == about_line(
                "line "@,
                number as nat,
                " is invalid JSON memory: "@ + error@,
            ),
            Ok(record) => match record_problem(record@, finite) {
                Some(problem) => r is Err && r->Err_0@ == about_line(
                    "line "@,
                    number as nat,
                    ": "@ + problem,
                ),
                None => {
                    &&& r is Ok
                    &&& (r->Ok_0).0@ == normalized_record(record@)
                    &&& (r->Ok_0).1 == is_relational(record@)
                },
            },
        },
{
    match parsed {
        Err(error) => Err(
            line_sentence("line ", number, complaint(" is invalid JSON memory: ", error.as_str()).as_str()),
        ),
        Ok(record) => match normalize_memory_record(record, finite) {
            Err(problem) => Err(line_sentence("line ", number, complaint(": ", problem.as_str()).as_str())),
            Ok(done) => Ok(done),
        },
    }
}

fn judge_memory_line(line: &MemoryLine, count: usize, reading: &LineReading) -> (r: Result<
    bool,
    String,
>)
    ensures
        match line_result((line.number as nat, line.text@), count as int, reading@) {
            Ok(done) => {
                &&& r is Ok
                &&& r->Ok_0 == done.1
                &&& reading.encoded is Ok
                &&& done.0 == reading.encoded->Ok_0@.push(10u8)
            },
            Err(problem) => r is Err && r->Err_0@ == problem,
        },
{
    if byte_len(line.text.as_str()) > MAX_MEMORY_MIGRATION_LINE_BYTES {
        return Err(line_sentence("line ", line.number, " exceeds 1048576 bytes"));
    }
    if count > MAX_MEMORY_MIGRATION_RECORDS {
        return Err("file contains more than 50000 records".to_owned());
    }
    let relationship = match &reading.parsed {
        Err(error) => return Err(
            line_sentence("line ", line.number, complaint(" is invalid JSON memory: ", error.as_str()).as_str()),
        ),
        Ok(record) => {
            match check_record(record, reading.finite) {
                Err(problem) => return Err(
                    line_sentence("line ", line.number, complaint(": ", problem.as_str()).as_str()),
                ),
                Ok(()) => record.scope.is_relationship() || record.kind.is_relationship(),
            }
        },
    };
    match &reading.encoded {
        Err(error) => Err(
            line_sentence("line ", line.number, complaint(" could not be encoded: ", error.as_str()).as_str()),
        ),
        Ok(encoded) => {
            if encoded.len() > MAX_MEMORY_MIGRATION_LINE_BYTES {
                return Err(
                    line_sentence("normalized line ", line.number, " exceeds 1048576 bytes"),
                );
            }
            Ok(relationship)
        },
    }
}

/// A file of records in the current format.
#[derive(Debug, PartialEq, Eq)]
pub struct NormalizedMemory {
    bytes: Vec<u8>,
    relationship_count: usize,
}

impl NormalizedMemory {
    pub closed spec fn spec_bytes(self) -> Seq<u8> {
        self.bytes@
    }

    pub closed spec fn relationships(self) -> nat {
        self.relationship_count as nat
    }

    #[verifier::type_invariant]
    spec fn bounded(self) -> bool {
        self.relationship_count <= MAX_MEMORY_MIGRATION_RECORDS
    }

    pub fn bytes(&self) -> (r: &Vec<u8>)
        ensures
            r@ == self.spec_bytes(),
    {
        &self.bytes
    }

    pub fn relationship_count(&self) -> (r: usize)
        ensures
            r == self.relationships(),
            r <= MAX_MEMORY_MIGRATION_RECORDS,
    {
        proof {
            use_type_invariant(self);
        }
        self.relationship_count
    }
}

/// The file that lines from the `i`th on add up to, behind what came before them.
pub open spec fn normalized_from(
    lines: Seq<(nat, Seq<char>)>,
    readings: Seq<LineReading>,
    i: int,
    output: Seq<u8>,
    relationships: nat,
) -> Result<(Seq<u8>, nat), Seq<char>>
    decreases lines.len() - i,
{
    if i >= lines.len() {
        Ok((output, relationships))
    } else {
        match line_result(lines[i], i + 1, readings[i]@) {
            Err(problem) => Err(problem),
            Ok(done) => normalized_from(
                lines,
                readings,
                i + 1,
                output + done.0,
                if done.1 {
                    relationships + 1
                } else {
                    relationships
                },
            ),
        }
    }
}

/// The current form of a whole file, all of its records or none. There is one reading for
/// each line that [`memory_lines`] finds.
pub open spec fn normalized_file(bytes: Seq<u8>, readings: Seq<LineReading>) -> Result<
    (Seq<u8>, nat),
    Seq<char>,
> {
    match memory_lines_of(bytes) {
        Err(problem) => Err(problem),
        Ok(lines) => normalized_from(lines, readings, 0, Seq::empty(), 0),
    }
}

/// There is a reading for each line of the file that holds a record.
pub open spec fn readings_fit(bytes: Seq<u8>, readings: Seq<LineReading>) -> bool {
    memory_lines_of(bytes) is Ok ==> memory_lines_of(bytes)->Ok_0.len() == readings.len()
}

pub fn normalize_memory_jsonl(bytes: &Vec<u8>, readings: &Vec<LineReading>) -> (r: Result<
    NormalizedMemory,
    String,
>)
    requires
        readings_fit(bytes@, readings@),
    ensures
        match normalized_file(bytes@, readings@) {
            Ok(done) => r is Ok && r->Ok_0.spec_bytes() == done.0 && r->Ok_0.relationships()
                == done.1,
            Err(problem) => r is Err && r->Err_0@ == problem,
        },
{
    let lines = memory_lines(bytes)?;
    let ghost all = memory_lines_view(lines@);
    let mut output: Vec<u8> = Vec::new();
    let mut relationship_count: usize = 0;
    let n: usize = lines.len();
    let mut i: usize = 0;
    assert(output@ =~= Seq::<u8>::empty());
    while i < n
        invariant
            n == lines@.len(),
            n == readings@.len(),
            i <= n,
            all == memory_lines_view(lines@),
            relationship_count <= i,
            relationship_count <= MAX_MEMORY_MIGRATION_RECORDS,
            normalized_file(bytes@, readings@) == normalized_from(
                all,
                readings@,
                i as int,
                output@,
                relationship_count as nat,
            ),
        decreases n - i,
    {
        let relationship = judge_memory_line(&lines[i], i + 1, &readings[i])?;
        let ghost before = output@;
        if let Ok(encoded) = &readings[i].encoded {
            output.extend_from_slice(encoded.as_slice());
            output.push(10);
            assert(output@ =~= before + encoded@.push(10u8));
        }
        if relationship {
            relationship_count += 1;
        }
        i += 1;
    }
    Ok(NormalizedMemory { bytes: output, relationship_count })
}

/// The first byte that is not white space opens a JSON object.
pub open spec fn opens_object(bytes: Seq<u8>) -> bool
    decreases bytes.len(),
{
    if bytes.len() == 0 {
        false
    } else if ascii_space(bytes[0]) {
        opens_object(bytes.skip(1))
    } else {
        bytes[0] == 123
    }
}

pub open spec fn ascii_space(byte: u8) -> bool {
    byte == 32 || byte == 9 || byte == 10 || byte == 12 || byte == 13
}

pub fn looks_like_json_memory_file(bytes: &Vec<u8>) -> (r: bool)
    ensures
        r == opens_object(bytes@),
{
    let n: usize = bytes.len();
    let mut i: usize = 0;
    assert(bytes@.skip(0) =~= bytes@);
    while i < n
        invariant
            n == bytes@.len(),
            i <= n,
            opens_object(bytes@) == opens_object(bytes@.skip(i as int)),
        decreases n - i,
    {
        let byte: u8 = bytes[i];
        assert(bytes@.skip(i as int).skip(1) =~= bytes@.skip(i + 1));
        if byte != 32 && byte != 9 && byte != 10 && byte != 12 && byte != 13 {
            return byte == 123;
        }
        i += 1;
    }
    false
}

} // verus!
