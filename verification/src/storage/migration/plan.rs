//! Planning a migration from what the file system shows.
use vstd::prelude::*;
use vstd::string::StringExecFns;

use crate::fingerprint::{fnv1a, stable_fingerprint};
use crate::paths::{joined, joined_of, Location};
use crate::storage::listing::{ends_in, name_ends_in};
use crate::storage::memory::{
    looks_like_json_memory_file, normalize_memory_jsonl, normalized_file, opens_object,
    readings_fit, LineReading, MAX_MEMORY_MIGRATION_FILE_BYTES,
    MAX_MEMORY_MIGRATION_RECORDS,
};
use crate::storage::migration::model::{
    capabilities_view, capability_from_item_range, capability_of, derived_relationship_capability,
    ensure_contained_path, escape_error, has_unsupported_memory, holds_unsupported_memory,
    invalid_item, items_view, relationship_capability, unsupported_capability,
    CapabilityView, ItemStateView, ItemView, MigrationCapability, MigrationError,
    MigrationErrorView, MigrationItem, MigrationItemState, MigrationScope, Resolution,
};
use crate::storage::record::opt_text;
use crate::storage::store::{
    legacy_content, read_legacy_record, StorageError, StorageErrorView, MAX_SCANNED_FILES,
    MAX_SESSION_FILE_BYTES,
};
use crate::text::{str_eq, swap_char, swap_char_of, text2, texts};

verus! {

pub const PERSONA_CONFIG_MAX_BYTES: u64 = 64 * 1024;

pub const PERSONA_SOUL_MAX_BYTES: u64 = 128 * 1024;

pub const PERSONA_PROFILE_MAX_BYTES: u64 = 512 * 1024;

pub const CONTROLS_MAX_BYTES: u64 = 1024 * 1024;

// ---------------------------------------------------------------------------
// What the file system shows
// ---------------------------------------------------------------------------
/// What a path leads to: no file, a file that could not be read, or a file. The bytes of a
/// file that is longer than its kind allows are never looked at.
#[derive(Clone, Debug)]
pub enum FileContent {
    Absent,
    Failed(String),
    Found { length: u64, bytes: Vec<u8> },
}

/// What a session file holds.
pub open spec fn session_content(path: Seq<char>, content: FileContent) -> Result<
    Option<Seq<u8>>,
    StorageErrorView,
> {
    match content {
        FileContent::Absent => Ok(None),
        FileContent::Failed(message) => Err(StorageErrorView::Io { path, message: message@ }),
        FileContent::Found { length, bytes } => if length > MAX_SESSION_FILE_BYTES {
            Err(StorageErrorView::FileTooLarge { path, maximum: MAX_SESSION_FILE_BYTES })
        } else {
            Ok(Some(bytes@))
        },
    }
}

pub fn read_session_content<'a>(path: &str, content: &'a FileContent) -> (r: Result<
    Option<&'a Vec<u8>>,
    StorageError,
>)
    ensures
        match session_content(path@, *content) {
            Err(error) => r is Err && r->Err_0@ == error,
            Ok(None) => r is Ok && r->Ok_0 is None,
            Ok(Some(bytes)) => r is Ok && r->Ok_0 is Some && r->Ok_0->0@ == bytes,
        },
{
    match content {
        FileContent::Absent => Ok(None),
        FileContent::Failed(message) => Err(
            StorageError::Io { path: path.to_owned(), message: message.clone() },
        ),
        FileContent::Found { length, bytes } => {
            if *length > MAX_SESSION_FILE_BYTES {
                return Err(
                    StorageError::FileTooLarge {
                        path: path.to_owned(),
                        maximum: MAX_SESSION_FILE_BYTES,
                    },
                );
            }
            Ok(Some(bytes))
        },
    }
}

/// What another file holds that may be as long as its kind allows.
pub open spec fn file_content(path: Seq<char>, content: FileContent, maximum: u64) -> Result<
    Option<Seq<u8>>,
    MigrationErrorView,
> {
    match content {
        FileContent::Absent => Ok(None),
        FileContent::Failed(message) => Err(MigrationErrorView::Io { path, message: message@ }),
        FileContent::Found { length, bytes } => if length > maximum {
            Err(MigrationErrorView::Storage(StorageErrorView::FileTooLarge { path, maximum }))
        } else {
            Ok(Some(bytes@))
        },
    }
}

fn read_file_content<'a>(path: &str, content: &'a FileContent, maximum: u64) -> (r: Result<
    Option<&'a Vec<u8>>,
    MigrationError,
>)
    ensures
        match file_content(path@, *content, maximum) {
            Err(error) => r is Err && r->Err_0@ == error,
            Ok(None) => r is Ok && r->Ok_0 is None,
            Ok(Some(bytes)) => r is Ok && r->Ok_0 is Some && r->Ok_0->0@ == bytes,
        },
{
    match content {
        FileContent::Absent => Ok(None),
        FileContent::Failed(message) => Err(
            MigrationError::Io { path: path.to_owned(), message: message.clone() },
        ),
        FileContent::Found { length, bytes } => {
            if *length > maximum {
                return Err(
                    MigrationError::Storage(
                        StorageError::FileTooLarge { path: path.to_owned(), maximum },
                    ),
                );
            }
            Ok(Some(bytes))
        },
    }
}

/// A file of the legacy sessions directory, and what stands where it would be copied to.
#[derive(Clone, Debug)]
pub struct SessionFile {
    pub name: String,
    pub source: Resolution,
    pub content: FileContent,
    pub target: Resolution,
    pub target_exists: bool,
}

#[derive(Clone, Debug)]
pub enum SessionEntry {
    Unreadable(String),
    File(SessionFile),
}

/// A memory file, what its lines were read as, and what stands where it would be copied to.
#[derive(Debug)]
pub struct MemoryProbe {
    pub source: Resolution,
    pub content: FileContent,
    pub readings: Vec<LineReading>,
    pub target: Resolution,
    pub target_exists: bool,
}

impl MemoryProbe {
    /// The readings are those of the file.
    pub open spec fn wf(self) -> bool {
        self.content is Found ==> readings_fit(self.content->bytes@, self.readings@)
    }
}

/// A file that is copied as it is, and what stands where it would be copied to.
#[derive(Clone, Debug)]
pub struct KnownProbe {
    pub source: Resolution,
    pub content: FileContent,
    pub target: Resolution,
    pub target_exists: bool,
}

#[derive(Clone, Debug)]
pub enum ProfileEntry {
    Unreadable(String),
    File { name: String, probe: KnownProbe },
}

#[derive(Clone, Debug)]
pub enum ProfilesProbe {
    Absent,
    Failed(String),
    Entries(Vec<ProfileEntry>),
}

/// The two user homes and the files of the legacy one.
#[derive(Debug)]
pub struct HomeProbe {
    pub legacy_location: Location,
    pub next_location: Location,
    pub config: KnownProbe,
    pub soul: KnownProbe,
    pub profiles: ProfilesProbe,
    pub settings: KnownProbe,
    pub global_memory: Option<MemoryProbe>,
    pub pending_memory: Option<MemoryProbe>,
    pub workspace_memory: Option<MemoryProbe>,
    pub mailbox_present: bool,
}

impl HomeProbe {
    /// The readings are those of the memory files.
    pub open spec fn wf(self) -> bool {
        &&& self.global_memory is Some ==> self.global_memory->0.wf()
        &&& self.pending_memory is Some ==> self.pending_memory->0.wf()
        &&& self.workspace_memory is Some ==> self.workspace_memory->0.wf()
    }
}

/// Everything that a plan rests on.
#[derive(Debug)]
pub struct PlanProbe {
    pub legacy_root: Resolution,
    pub next_root: Resolution,
    pub manifest: Resolution,
    pub entries: Result<Vec<SessionEntry>, String>,
    pub workspace_memory: MemoryProbe,
    pub pending_memory: MemoryProbe,
    pub global_memory: MemoryProbe,
    pub home: HomeProbe,
}

impl PlanProbe {
    /// The readings are those of the memory files.
    pub open spec fn wf(self) -> bool {
        &&& self.workspace_memory.wf()
        &&& self.pending_memory.wf()
        &&& self.global_memory.wf()
        &&& self.home.wf()
    }
}

// ---------------------------------------------------------------------------
// What has been gathered so far
// ---------------------------------------------------------------------------
pub struct Gathered {
    pub items: Vec<MigrationItem>,
    pub warnings: Vec<String>,
    pub relationships: usize,
}

pub struct GatheredView {
    pub items: Seq<ItemView>,
    pub warnings: Seq<Seq<char>>,
    pub relationships: nat,
}

impl View for Gathered {
    type V = GatheredView;

    open spec fn view(&self) -> GatheredView {
        GatheredView {
            items: items_view(self.items@),
            warnings: texts(self.warnings@),
            relationships: self.relationships as nat,
        }
    }
}

impl GatheredView {
    pub open spec fn with_item(self, item: ItemView) -> GatheredView {
        GatheredView { items: self.items.push(item), ..self }
    }

    pub open spec fn with_warning(self, warning: Seq<char>) -> GatheredView {
        GatheredView { warnings: self.warnings.push(warning), ..self }
    }
}

impl Gathered {
    fn add(&mut self, item: MigrationItem)
        ensures
            final(self)@ == old(self)@.with_item(item@),
    {
        let ghost before = self.items@;
        self.items.push(item);
        assert(items_view(self.items@) =~= items_view(before).push(item@));
    }

    fn warn(&mut self, warning: String)
        ensures
            final(self)@ == old(self)@.with_warning(warning@),
    {
        let ghost before = self.warnings@;
        self.warnings.push(warning);
        assert(texts(self.warnings@) =~= texts(before).push(warning@));
    }
}

// ---------------------------------------------------------------------------
// Sessions
// ---------------------------------------------------------------------------
/// Where a legacy session file lies, below the workspace.
pub open spec fn session_source(name: Seq<char>) -> Seq<char> {
    ".yunxi/sessions/"@ + name
}

/// Where a session is copied to, below the workspace.
pub open spec fn session_target(id: Seq<char>) -> Seq<char> {
    ".yunxi-next/sessions/"@ + id + ".json"@
}

pub(crate) fn target_of(id: &str) -> (r: String)
    ensures
        r@ == session_target(id@),
{
    let mut out = ".yunxi-next/sessions/".to_owned();
    out.append(id);
    out.append(".json");
    out
}

/// Some item is copied to this place.
pub open spec fn claims(items: Seq<ItemView>, target: Seq<char>) -> bool {
    exists|k: int| 0 <= k < items.len() && (#[trigger] items[k]).target == target
}

fn is_claimed(items: &Vec<MigrationItem>, target: &str) -> (r: bool)
    ensures
        r == claims(items_view(items@), target@),
{
    let n: usize = items.len();
    let mut i: usize = 0;
    while i < n
        invariant
            n == items@.len(),
            i <= n,
            forall|k: int| 0 <= k < i ==> (#[trigger] items_view(items@)[k]).target != target@,
        decreases n - i,
    {
        if str_eq(items[i].target.as_str(), target) {
            assert(items_view(items@)[i as int].target == target@);
            return true;
        }
        i += 1;
    }
    false
}

/// The item of a session that is copied unless something stands in its place or another file
/// holds a session of the same id.
pub open spec fn session_item(
    items: Seq<ItemView>,
    id: Seq<char>,
    name: Seq<char>,
    bytes: Seq<u8>,
    target_exists: bool,
) -> ItemView {
    let target = session_target(id);
    ItemView {
        id,
        capability: "sessions"@,
        scope: MigrationScope::Workspace,
        source: swap_char_of(session_source(name), '\\', '/'),
        target,
        source_bytes: bytes.len() as u64,
        source_fingerprint: fnv1a(bytes),
        state: if claims(items, target) {
            ItemStateView::Invalid {
                reason: "multiple legacy files resolve to the same session id"@,
            }
        } else if target_exists {
            ItemStateView::TargetExists
        } else {
            ItemStateView::Ready
        },
    }
}

/// What one entry of the legacy sessions directory adds.
pub open spec fn after_entry(root: Seq<char>, entry: SessionEntry, before: GatheredView) -> Result<
    GatheredView,
    MigrationErrorView,
> {
    match entry {
        SessionEntry::Unreadable(message) => Ok(
            before.with_warning("failed to read legacy session entry: "@ + message@),
        ),
        SessionEntry::File(file) => {
            let path = joined_of(root, session_source(file.name@));
            let source = swap_char_of(session_source(file.name@), '\\', '/');
            if !ends_in(file.name@, ".json"@, true) {
                Ok(before)
            } else if file.source.escapes() {
                Ok(before.with_warning(escape_error(path).text()))
            } else {
                match session_content(path, file.content) {
                    Err(error) => Ok(before.with_item(invalid_item(source, error.text()))),
                    Ok(None) => Ok(before),
                    Ok(Some(bytes)) => match legacy_content(path, bytes) {
                        Err(error) => Ok(before.with_item(invalid_item(source, error.text()))),
                        Ok(session) => if file.target.escapes() {
                            Err(escape_error(joined_of(root, session_target(session.id))))
                        } else {
                            Ok(
                                before.with_item(
                                    session_item(
                                        before.items,
                                        session.id,
                                        file.name@,
                                        bytes,
                                        file.target_exists,
                                    ),
                                ),
                            )
                        },
                    },
                }
            }
        },
    }
}

/// What the entries from the `i`th on add.
pub open spec fn after_entries(
    root: Seq<char>,
    entries: Seq<SessionEntry>,
    i: int,
    before: GatheredView,
) -> Result<GatheredView, MigrationErrorView>
    decreases entries.len() - i,
{
    if i >= entries.len() {
        Ok(before)
    } else if i >= MAX_SCANNED_FILES {
        Ok(before.with_warning("migration scan stopped after 2000 files"@))
    } else {
        match after_entry(root, entries[i], before) {
            Err(error) => Err(error),
            Ok(next) => after_entries(root, entries, i + 1, next),
        }
    }
}

fn gather_entry(gathered: &mut Gathered, root: &str, entry: &SessionEntry) -> (r: Result<
    (),
    MigrationError,
>)
    ensures
        match after_entry(root@, *entry, old(gathered)@) {
            Ok(next) => r is Ok && final(gathered)@ == next,
            Err(error) => r is Err && r->Err_0@ == error,
        },
        final(gathered).relationships == old(gathered).relationships,
{
    let file = match entry {
        SessionEntry::Unreadable(message) => {
            gathered.warn(text2("failed to read legacy session entry: ", message.as_str()));
            return Ok(());
        },
        SessionEntry::File(file) => file,
    };
    if !name_ends_in(file.name.as_str(), ".json", true) {
        return Ok(());
    }
    let below = text2(".yunxi/sessions/", file.name.as_str());
    let path = joined(root, below.as_str());
    let source = swap_char(below.as_str(), '\\', '/');
    match ensure_contained_path(path.as_str(), &file.source) {
        Err(error) => {
            gathered.warn(error.to_string());
            return Ok(());
        },
        Ok(()) => {},
    }
    let bytes = match read_session_content(path.as_str(), &file.content) {
        Err(error) => {
            gathered.add(MigrationItem::invalid(source, error.to_string()));
            return Ok(());
        },
        Ok(None) => return Ok(()),
        Ok(Some(bytes)) => bytes,
    };
    let session = match read_legacy_record(path.as_str(), bytes) {
        Err(error) => {
            gathered.add(MigrationItem::invalid(source, error.to_string()));
            return Ok(());
        },
        Ok(session) => session,
    };
    let target = target_of(session.id());
    ensure_contained_path(joined(root, target.as_str()).as_str(), &file.target)?;
    let state = if is_claimed(&gathered.items, target.as_str()) {
        MigrationItemState::Invalid {
            reason: "multiple legacy files resolve to the same session id".to_owned(),
        }
    } else if file.target_exists {
        MigrationItemState::TargetExists
    } else {
        MigrationItemState::Ready
    };
    gathered.add(
        MigrationItem {
            id: session.id().to_owned(),
            capability: "sessions".to_owned(),
            scope: MigrationScope::Workspace,
            source,
            target,
            source_bytes: bytes.len() as u64,
            source_fingerprint: stable_fingerprint(bytes),
            state,
        },
    );
    Ok(())
}

pub(crate) fn gather_entries(gathered: &mut Gathered, root: &str, entries: &Vec<SessionEntry>) -> (r: Result<
    (),
    MigrationError,
>)
    ensures
        match after_entries(root@, entries@, 0, old(gathered)@) {
            Ok(next) => r is Ok && final(gathered)@ == next,
            Err(error) => r is Err && r->Err_0@ == error,
        },
        final(gathered).relationships == old(gathered).relationships,
{
    let n: usize = entries.len();
    let mut i: usize = 0;
    while i < n
        invariant
            n == entries@.len(),
            i <= n,
            gathered.relationships == old(gathered).relationships,
            after_entries(root@, entries@, 0, old(gathered)@) == after_entries(
                root@,
                entries@,
                i as int,
                gathered@,
            ),
        decreases n - i,
    {
        if i >= MAX_SCANNED_FILES {
            gathered.warn("migration scan stopped after 2000 files".to_owned());
            return Ok(());
        }
        gather_entry(gathered, root, &entries[i])?;
        i += 1;
    }
    Ok(())
}

/// No item that is in order goes to where an item before it goes.
pub open spec fn valid_targets_differ(items: Seq<ItemView>) -> bool {
    forall|i: int, j: int|
        0 <= i < j < items.len() && !((#[trigger] items[j]).state is Invalid) ==> (
        #[trigger] items[i]).target != items[j].target
}

/// Of several legacy files that hold the same session, all but the first are invalid.
pub(crate) proof fn lemma_valid_targets_differ(
    root: Seq<char>,
    entries: Seq<SessionEntry>,
    i: int,
    before: GatheredView,
)
    requires
        0 <= i,
        valid_targets_differ(before.items),
    ensures
        after_entries(root, entries, i, before) is Ok ==> valid_targets_differ(
            after_entries(root, entries, i, before)->Ok_0.items,
        ),
    decreases entries.len() - i,
{
    if i < entries.len() && i < MAX_SCANNED_FILES {
        if let Ok(next) = after_entry(root, entries[i], before) {
            lemma_valid_targets_differ(root, entries, i + 1, next);
        }
    }
}

// ---------------------------------------------------------------------------
// Memory
// ---------------------------------------------------------------------------
/// Why a memory file is left where it is.
pub open spec fn memory_reason(bytes: Seq<u8>, reason: Seq<char>) -> Seq<char> {
    if opens_object(bytes) {
        "memory file is invalid: "@ + reason
    } else {
        "unsupported: legacy memory format requires privacy review: "@ + reason
    }
}

/// What a memory file adds.
pub open spec fn after_memory(
    so_far: Result<GatheredView, MigrationErrorView>,
    scope: MigrationScope,
    roots: (Seq<char>, Seq<char>),
    relative: (Seq<char>, Seq<char>),
    probe: MemoryProbe,
) -> Result<GatheredView, MigrationErrorView> {
    let source_path = joined_of(roots.0, relative.0);
    match so_far {
        Err(error) => Err(error),
        Ok(before) => if probe.source.escapes() {
            Err(escape_error(source_path))
        } else if probe.target.escapes() {
            Err(escape_error(joined_of(roots.1, relative.1)))
        } else {
            match file_content(source_path, probe.content, MAX_MEMORY_MIGRATION_FILE_BYTES) {
                Err(error) => Err(error),
                Ok(None) => Ok(before),
                Ok(Some(bytes)) => {
                    let item = ItemView {
                        id: "memory:"@ + relative.0,
                        capability: "memory"@,
                        scope,
                        source: relative.0,
                        target: relative.1,
                        source_bytes: bytes.len() as u64,
                        source_fingerprint: fnv1a(bytes),
                        state: if probe.target_exists {
                            ItemStateView::TargetExists
                        } else {
                            ItemStateView::Ready
                        },
                    };
                    match normalized_file(bytes, probe.readings@) {
                        Ok(normalized) => Ok(
                            (GatheredView {
                                relationships: before.relationships + normalized.1,
                                ..before
                            }).with_item(item),
                        ),
                        Err(problem) => {
                            let reason = memory_reason(bytes, problem);
                            Ok(
                                before.with_warning(
                                    "memory file "@ + relative.0 + " is not migratable: "@
                                        + reason,
                                ).with_item(
                                    ItemView { state: ItemStateView::Invalid { reason }, ..item },
                                ),
                            )
                        },
                    }
                },
            }
        },
    }
}

fn plan_memory_file(
    gathered: &mut Gathered,
    scope: MigrationScope,
    source_root: &str,
    target_root: &str,
    source_relative: &str,
    target_relative: &str,
    probe: &MemoryProbe,
) -> (r: Result<(), MigrationError>)
    requires
        old(gathered).relationships <= 4 * MAX_MEMORY_MIGRATION_RECORDS,
        probe.wf(),
    ensures
        match after_memory(
            Ok(old(gathered)@),
            scope,
            (source_root@, target_root@),
            (source_relative@, target_relative@),
            *probe,
        ) {
            Ok(next) => r is Ok && final(gathered)@ == next,
            Err(error) => r is Err && r->Err_0@ == error,
        },
        final(gathered).relationships <= old(gathered).relationships
            + MAX_MEMORY_MIGRATION_RECORDS,
{
    let source = joined(source_root, source_relative);
    ensure_contained_path(source.as_str(), &probe.source)?;
    ensure_contained_path(joined(target_root, target_relative).as_str(), &probe.target)?;
    let found = read_file_content(
        source.as_str(),
        &probe.content,
        MAX_MEMORY_MIGRATION_FILE_BYTES,
    )?;
    let bytes = match found {
        None => return Ok(()),
        Some(bytes) => bytes,
    };
    let state = match normalize_memory_jsonl(bytes, &probe.readings) {
        Ok(normalized) => {
            gathered.relationships += normalized.relationship_count();
            if probe.target_exists {
                MigrationItemState::TargetExists
            } else {
                MigrationItemState::Ready
            }
        },
        Err(problem) => {
            let reason = if looks_like_json_memory_file(bytes) {
                text2("memory file is invalid: ", problem.as_str())
            } else {
                text2(
                    "unsupported: legacy memory format requires privacy review: ",
                    problem.as_str(),
                )
            };
            let mut warning = text2("memory file ", source_relative);
            warning.append(" is not migratable: ");
            warning.append(reason.as_str());
            gathered.warn(warning);
            MigrationItemState::Invalid { reason }
        },
    };
    gathered.add(
        MigrationItem {
            id: text2("memory:", source_relative),
            capability: "memory".to_owned(),
            scope,
            source: source_relative.to_owned(),
            target: target_relative.to_owned(),
            source_bytes: bytes.len() as u64,
            source_fingerprint: stable_fingerprint(bytes),
            state,
        },
    );
    Ok(())
}

/// What the memory files of the workspace add.
pub open spec fn after_workspace_memory(
    root: Seq<char>,
    before: GatheredView,
    probe: PlanProbe,
) -> Result<GatheredView, MigrationErrorView> {
    let roots = (root, root);
    let first = after_memory(
        Ok(before),
        MigrationScope::Workspace,
        roots,
        (".yunxi/memory/workspace-memory.jsonl"@, ".yunxi-next/memory/workspace-memory.jsonl"@),
        probe.workspace_memory,
    );
    let second = after_memory(
        first,
        MigrationScope::Workspace,
        roots,
        (".yunxi/memory/pending.jsonl"@, ".yunxi-next/memory/pending.jsonl"@),
        probe.pending_memory,
    );
    after_memory(
        second,
        MigrationScope::Workspace,
        roots,
        (".yunxi/memory/global-memory.jsonl"@, ".yunxi-next/memory/global-memory.jsonl"@),
        probe.global_memory,
    )
}

pub(crate) fn plan_workspace_memory(gathered: &mut Gathered, root: &str, probe: &PlanProbe) -> (r: Result<
    (),
    MigrationError,
>)
    requires
        old(gathered).relationships == 0,
        probe.wf(),
    ensures
        match after_workspace_memory(root@, old(gathered)@, *probe) {
            Ok(next) => r is Ok && final(gathered)@ == next,
            Err(error) => r is Err && r->Err_0@ == error,
        },
{
    plan_memory_file(
        gathered,
        MigrationScope::Workspace,
        root,
        root,
        ".yunxi/memory/workspace-memory.jsonl",
        ".yunxi-next/memory/workspace-memory.jsonl",
        &probe.workspace_memory,
    )?;
    plan_memory_file(
        gathered,
        MigrationScope::Workspace,
        root,
        root,
        ".yunxi/memory/pending.jsonl",
        ".yunxi-next/memory/pending.jsonl",
        &probe.pending_memory,
    )?;
    plan_memory_file(
        gathered,
        MigrationScope::Workspace,
        root,
        root,
        ".yunxi/memory/global-memory.jsonl",
        ".yunxi-next/memory/global-memory.jsonl",
        &probe.global_memory,
    )
}

// ---------------------------------------------------------------------------
// User homes
// ---------------------------------------------------------------------------
/// What a file that is copied as it is adds.
pub open spec fn after_known(
    so_far: Result<GatheredView, MigrationErrorView>,
    homes: (Seq<char>, Seq<char>),
    capability: Seq<char>,
    relative: Seq<char>,
    maximum: u64,
    probe: KnownProbe,
) -> Result<GatheredView, MigrationErrorView> {
    let source_path = joined_of(homes.0, relative);
    match so_far {
        Err(error) => Err(error),
        Ok(before) => if probe.source.escapes() {
            Err(escape_error(source_path))
        } else {
            match file_content(source_path, probe.content, maximum) {
                Err(error) => Err(error),
                Ok(None) => Ok(before),
                Ok(Some(bytes)) => if probe.target.escapes() {
                    Err(escape_error(joined_of(homes.1, relative)))
                } else {
                    Ok(
                        before.with_item(
                            ItemView {
                                id: relative,
                                capability,
                                scope: MigrationScope::LegacyUserHome,
                                source: relative,
                                target: relative,
                                source_bytes: bytes.len() as u64,
                                source_fingerprint: fnv1a(bytes),
                                state: if probe.target_exists {
                                    ItemStateView::TargetExists
                                } else {
                                    ItemStateView::Ready
                                },
                            },
                        ),
                    )
                },
            }
        },
    }
}

fn plan_known_file(
    gathered: &mut Gathered,
    legacy_home: &str,
    next_home: &str,
    capability: &str,
    relative: &str,
    maximum: u64,
    probe: &KnownProbe,
) -> (r: Result<(), MigrationError>)
    ensures
        match after_known(
            Ok(old(gathered)@),
            (legacy_home@, next_home@),
            capability@,
            relative@,
            maximum,
            *probe,
        ) {
            Ok(next) => r is Ok && final(gathered)@ == next,
            Err(error) => r is Err && r->Err_0@ == error,
        },
        final(gathered).relationships == old(gathered).relationships,
{
    let source = joined(legacy_home, relative);
    ensure_contained_path(source.as_str(), &probe.source)?;
    let found = read_file_content(source.as_str(), &probe.content, maximum)?;
    let bytes = match found {
        None => return Ok(()),
        Some(bytes) => bytes,
    };
    ensure_contained_path(joined(next_home, relative).as_str(), &probe.target)?;
    gathered.add(
        MigrationItem {
            id: relative.to_owned(),
            capability: capability.to_owned(),
            scope: MigrationScope::LegacyUserHome,
            source: relative.to_owned(),
            target: relative.to_owned(),
            source_bytes: bytes.len() as u64,
            source_fingerprint: stable_fingerprint(bytes),
            state: if probe.target_exists {
                MigrationItemState::TargetExists
            } else {
                MigrationItemState::Ready
            },
        },
    );
    Ok(())
}

/// Where a persona profile lies, below a user home.
pub open spec fn profile_path(name: Seq<char>) -> Seq<char> {
    swap_char_of("persona/profiles/"@ + name, '\\', '/')
}

/// What the profile entries from the `i`th on add. Those beyond the limit are left alone.
pub open spec fn after_profiles(
    entries: Seq<ProfileEntry>,
    i: int,
    homes: (Seq<char>, Seq<char>),
    so_far: Result<GatheredView, MigrationErrorView>,
) -> Result<GatheredView, MigrationErrorView>
    decreases entries.len() - i,
{
    if i >= entries.len() || i >= MAX_SCANNED_FILES || so_far is Err {
        so_far
    } else {
        let next = match entries[i] {
            ProfileEntry::Unreadable(message) => Ok(
                so_far->Ok_0.with_warning("failed to read persona profile entry: "@ + message@),
            ),
            ProfileEntry::File { name, probe } => if ends_in(name@, ".json"@, true) {
                after_known(
                    so_far,
                    homes,
                    "persona"@,
                    profile_path(name@),
                    PERSONA_PROFILE_MAX_BYTES,
                    probe,
                )
            } else {
                so_far
            },
        };
        after_profiles(entries, i + 1, homes, next)
    }
}

/// What the profiles directory adds.
pub open spec fn after_profiles_probe(
    so_far: Result<GatheredView, MigrationErrorView>,
    homes: (Seq<char>, Seq<char>),
    probe: ProfilesProbe,
) -> Result<GatheredView, MigrationErrorView> {
    match so_far {
        Err(error) => Err(error),
        Ok(before) => match probe {
            ProfilesProbe::Absent => Ok(before),
            ProfilesProbe::Failed(message) => Ok(
                before.with_warning(
                    "failed to read persona profile directory "@ + joined_of(
                        homes.0,
                        "persona/profiles"@,
                    ) + ": "@ + message@,
                ),
            ),
            ProfilesProbe::Entries(entries) => after_profiles(entries@, 0, homes, so_far),
        },
    }
}

fn plan_persona_profiles(
    gathered: &mut Gathered,
    legacy_home: &str,
    next_home: &str,
    probe: &ProfilesProbe,
) -> (r: Result<(), MigrationError>)
    ensures
        match after_profiles_probe(Ok(old(gathered)@), (legacy_home@, next_home@), *probe) {
            Ok(next) => r is Ok && final(gathered)@ == next,
            Err(error) => r is Err && r->Err_0@ == error,
        },
        final(gathered).relationships == old(gathered).relationships,
{
    let entries = match probe {
        ProfilesProbe::Absent => return Ok(()),
        ProfilesProbe::Failed(message) => {
            let mut warning = text2(
                "failed to read persona profile directory ",
                joined(legacy_home, "persona/profiles").as_str(),
            );
            warning.append(": ");
            warning.append(message.as_str());
            gathered.warn(warning);
            return Ok(());
        },
        ProfilesProbe::Entries(entries) => entries,
    };
    let ghost homes = (legacy_home@, next_home@);
    let n: usize = entries.len();
    let mut i: usize = 0;
    while i < n && i < MAX_SCANNED_FILES
        invariant
            n == entries@.len(),
            i <= n,
            homes == (legacy_home@, next_home@),
            *probe == ProfilesProbe::Entries(*entries),
            gathered.relationships == old(gathered).relationships,
            after_profiles(entries@, 0, homes, Ok(old(gathered)@)) == after_profiles(
                entries@,
                i as int,
                homes,
                Ok(gathered@),
            ),
        decreases n - i,
    {
        match &entries[i] {
            ProfileEntry::Unreadable(message) => {
                gathered.warn(
                    text2("failed to read persona profile entry: ", message.as_str()),
                );
            },
            ProfileEntry::File { name, probe: file } => {
                if name_ends_in(name.as_str(), ".json", true) {
                    let relative = swap_char(
                        text2("persona/profiles/", name.as_str()).as_str(),
                        '\\',
                        '/',
                    );
                    let ghost known = after_known(
                        Ok(gathered@),
                        homes,
                        "persona"@,
                        relative@,
                        PERSONA_PROFILE_MAX_BYTES,
                        *file,
                    );
                    proof {
                        if known is Err {
                            reveal_with_fuel(after_profiles, 2);
                            assert(after_profiles(entries@, i as int, homes, Ok(gathered@))
                                == known);
                        }
                    }
                    plan_known_file(
                        gathered,
                        legacy_home,
                        next_home,
                        "persona",
                        relative.as_str(),
                        PERSONA_PROFILE_MAX_BYTES,
                        file,
                    )?;
                }
            },
        }
        i += 1;
    }
    Ok(())
}

/// What an optional memory file of the legacy user home adds.
pub open spec fn after_user_memory(
    so_far: Result<GatheredView, MigrationErrorView>,
    homes: (Seq<char>, Seq<char>),
    relative: Seq<char>,
    probe: Option<MemoryProbe>,
) -> Result<GatheredView, MigrationErrorView> {
    match probe {
        None => so_far,
        Some(probe) => after_memory(
            so_far,
            MigrationScope::LegacyUserHome,
            homes,
            (relative, relative),
            probe,
        ),
    }
}

fn plan_user_memory(
    gathered: &mut Gathered,
    legacy_home: &str,
    next_home: &str,
    relative: &str,
    probe: &Option<MemoryProbe>,
) -> (r: Result<(), MigrationError>)
    requires
        old(gathered).relationships <= 4 * MAX_MEMORY_MIGRATION_RECORDS,
        *probe is Some ==> probe->0.wf(),
    ensures
        match after_user_memory(
            Ok(old(gathered)@),
            (legacy_home@, next_home@),
            relative@,
            *probe,
        ) {
            Ok(next) => r is Ok && final(gathered)@ == next,
            Err(error) => r is Err && r->Err_0@ == error,
        },
        final(gathered).relationships <= old(gathered).relationships
            + MAX_MEMORY_MIGRATION_RECORDS,
{
    match probe {
        None => Ok(()),
        Some(probe) => plan_memory_file(
            gathered,
            MigrationScope::LegacyUserHome,
            legacy_home,
            next_home,
            relative,
            relative,
            probe,
        ),
    }
}

pub open spec fn home_scope() -> Seq<char> {
    "legacy_user_home"@
}

pub open spec fn no_relationship_file() -> CapabilityView {
    unsupported_capability(
        "relationship"@,
        home_scope(),
        "no standalone legacy relationship file format is defined; relationship data is not copied"@,
    )
}

/// What is said of user-home state that is not looked at, for a reason.
pub open spec fn unsupported_home(
    files: Seq<char>,
    memory: Seq<char>,
    mailbox: Seq<char>,
) -> Seq<CapabilityView> {
    seq![
        unsupported_capability("persona"@, home_scope(), files),
        unsupported_capability("memory"@, home_scope(), memory),
        unsupported_capability("controls"@, home_scope(), files),
        unsupported_capability("mailbox"@, home_scope(), mailbox),
        no_relationship_file(),
    ]
}

fn unsupported_home_capabilities(files: &str, memory: &str, mailbox: &str) -> (r: Vec<
    MigrationCapability,
>)
    ensures
        capabilities_view(r@) == unsupported_home(files@, memory@, mailbox@),
{
    let mut out: Vec<MigrationCapability> = Vec::new();
    out.push(MigrationCapability::unsupported("persona", "legacy_user_home", files));
    out.push(MigrationCapability::unsupported("memory", "legacy_user_home", memory));
    out.push(MigrationCapability::unsupported("controls", "legacy_user_home", files));
    out.push(MigrationCapability::unsupported("mailbox", "legacy_user_home", mailbox));
    out.push(
        MigrationCapability::unsupported(
            "relationship",
            "legacy_user_home",
            "no standalone legacy relationship file format is defined; relationship data is not copied",
        ),
    );
    assert(capabilities_view(out@) =~= unsupported_home(files@, memory@, mailbox@));
    out
}

/// What is said of the mailbox, which is never copied.
pub open spec fn mailbox_reason(present: bool) -> Seq<char> {
    if present {
        "legacy mailbox was found, but its format and encryption key ownership are not known; no files were copied"@
    } else {
        "legacy mailbox format and encryption key ownership are not known; no files were copied"@
    }
}

/// The persona files of a user home.
pub open spec fn after_persona(
    before: GatheredView,
    homes: (Seq<char>, Seq<char>),
    probe: HomeProbe,
) -> Result<GatheredView, MigrationErrorView> {
    let config = after_known(
        Ok(before),
        homes,
        "persona"@,
        "persona/config.toml"@,
        PERSONA_CONFIG_MAX_BYTES,
        probe.config,
    );
    let soul = after_known(
        config,
        homes,
        "persona"@,
        "persona/soul.txt"@,
        PERSONA_SOUL_MAX_BYTES,
        probe.soul,
    );
    after_profiles_probe(soul, homes, probe.profiles)
}

/// The memory files of a user home.
pub open spec fn after_home_memory(
    so_far: Result<GatheredView, MigrationErrorView>,
    homes: (Seq<char>, Seq<char>),
    probe: HomeProbe,
) -> Result<GatheredView, MigrationErrorView> {
    let first = after_user_memory(
        so_far,
        homes,
        "memory/global-memory.jsonl"@,
        probe.global_memory,
    );
    let second = after_user_memory(first, homes, "memory/pending.jsonl"@, probe.pending_memory);
    after_user_memory(second, homes, "memory/workspace-memory.jsonl"@, probe.workspace_memory)
}

pub open spec fn after_controls(
    so_far: Result<GatheredView, MigrationErrorView>,
    homes: (Seq<char>, Seq<char>),
    probe: HomeProbe,
) -> Result<GatheredView, MigrationErrorView> {
    after_known(
        so_far,
        homes,
        "controls"@,
        "settings.json"@,
        CONTROLS_MAX_BYTES,
        probe.settings,
    )
}

/// What the user homes add: files where both homes are known and the current one does not lie
/// in the legacy one, and in any case what can be said of each kind of state.
pub open spec fn after_home(
    before: GatheredView,
    legacy_home: Option<Seq<char>>,
    next_home: Option<Seq<char>>,
    probe: HomeProbe,
) -> Result<(GatheredView, Seq<CapabilityView>), MigrationErrorView> {
    let disabled =
        "legacy user home discovery is disabled; set YUNXI_HOME or YUNXI_MIGRATION_LEGACY_HOME"@;
    if legacy_home is None {
        Ok((before, unsupported_home(disabled, disabled, mailbox_reason(false))))
    } else if next_home is None {
        Ok(
            (
                before,
                unsupported_home(
                    "Next user home is not configured; set YUNXI_NEXT_HOME before applying user-home files"@,
                    "Next user home is not configured; legacy memory is not copied"@,
                    mailbox_reason(false),
                ),
            ),
        )
    } else if probe.next_location.within(probe.legacy_location) {
        Ok(
            (
                before,
                unsupported_home(
                    "legacy and Next user homes overlap; refusing to write into the legacy directory"@,
                    "legacy and Next user homes overlap; legacy memory is not copied"@,
                    "legacy and Next user homes overlap; no mailbox files were copied"@,
                ),
            ),
        )
    } else {
        let homes = (legacy_home->0, next_home->0);
        let persona = after_persona(before, homes, probe);
        let controls = after_controls(persona, homes, probe);
        match after_home_memory(controls, homes, probe) {
            Err(error) => Err(error),
            Ok(done) => {
                let files = controls->Ok_0.items.len() as int;
                Ok(
                    (
                        done,
                        seq![
                            capability_of(
                                "persona"@,
                                home_scope(),
                                persona->Ok_0.items.skip(before.items.len() as int),
                            ),
                            capability_of(
                                "controls"@,
                                home_scope(),
                                controls->Ok_0.items.skip(persona->Ok_0.items.len() as int),
                            ),
                            capability_of("memory"@, home_scope(), done.items.skip(files)),
                            relationship_capability(
                                home_scope(),
                                done.relationships,
                                done.items.len() > files,
                                holds_unsupported_memory(done.items.skip(files)),
                            ),
                            unsupported_capability(
                                "mailbox"@,
                                home_scope(),
                                mailbox_reason(probe.mailbox_present),
                            ),
                            no_relationship_file(),
                        ],
                    ),
                )
            },
        }
    }
}

/// Gathering only ever adds to what was gathered.
proof fn lemma_gathering_adds(
    so_far: Result<GatheredView, MigrationErrorView>,
    homes: (Seq<char>, Seq<char>),
    probe: HomeProbe,
)
    ensures
        after_home_memory(so_far, homes, probe) is Ok ==> so_far is Ok
            && after_home_memory(so_far, homes, probe)->Ok_0.items.len()
            >= so_far->Ok_0.items.len(),
        after_controls(so_far, homes, probe) is Ok ==> so_far is Ok && after_controls(
            so_far,
            homes,
            probe,
        )->Ok_0.items.len() >= so_far->Ok_0.items.len(),
{
}

proof fn lemma_profiles_add(
    entries: Seq<ProfileEntry>,
    i: int,
    homes: (Seq<char>, Seq<char>),
    so_far: Result<GatheredView, MigrationErrorView>,
)
    ensures
        after_profiles(entries, i, homes, so_far) is Ok ==> so_far is Ok && after_profiles(
            entries,
            i,
            homes,
            so_far,
        )->Ok_0.items.len() >= so_far->Ok_0.items.len(),
    decreases entries.len() - i,
{
    if i >= entries.len() || i >= MAX_SCANNED_FILES || so_far is Err {
    } else {
        let next = match entries[i] {
            ProfileEntry::Unreadable(message) => Ok(
                so_far->Ok_0.with_warning("failed to read persona profile entry: "@ + message@),
            ),
            ProfileEntry::File { name, probe } => if ends_in(name@, ".json"@, true) {
                after_known(
                    so_far,
                    homes,
                    "persona"@,
                    profile_path(name@),
                    PERSONA_PROFILE_MAX_BYTES,
                    probe,
                )
            } else {
                so_far
            },
        };
        lemma_profiles_add(entries, i + 1, homes, next);
    }
}

pub(crate) fn plan_user_home(
    gathered: &mut Gathered,
    legacy_home: &Option<String>,
    next_home: &Option<String>,
    probe: &HomeProbe,
) -> (r: Result<Vec<MigrationCapability>, MigrationError>)
    requires
        old(gathered).relationships == 0,
        probe.wf(),
    ensures
        match after_home(old(gathered)@, opt_text(*legacy_home), opt_text(*next_home), *probe) {
            Ok(done) => r is Ok && final(gathered)@ == done.0 && capabilities_view(r->Ok_0@)
                == done.1,
            Err(error) => r is Err && r->Err_0@ == error,
        },
{
    let legacy = match legacy_home {
        None => {
            return Ok(
                unsupported_home_capabilities(
                    "legacy user home discovery is disabled; set YUNXI_HOME or YUNXI_MIGRATION_LEGACY_HOME",
                    "legacy user home discovery is disabled; set YUNXI_HOME or YUNXI_MIGRATION_LEGACY_HOME",
                    "legacy mailbox format and encryption key ownership are not known; no files were copied",
                ),
            );
        },
        Some(home) => home.as_str(),
    };
    let next = match next_home {
        None => {
            return Ok(
                unsupported_home_capabilities(
                    "Next user home is not configured; set YUNXI_NEXT_HOME before applying user-home files",
                    "Next user home is not configured; legacy memory is not copied",
                    "legacy mailbox format and encryption key ownership are not known; no files were copied",
                ),
            );
        },
        Some(home) => home.as_str(),
    };
    if probe.next_location.is_within(&probe.legacy_location) {
        return Ok(
            unsupported_home_capabilities(
                "legacy and Next user homes overlap; refusing to write into the legacy directory",
                "legacy and Next user homes overlap; legacy memory is not copied",
                "legacy and Next user homes overlap; no mailbox files were copied",
            ),
        );
    }
    let ghost homes = (legacy@, next@);
    let ghost before = gathered@;
    let ghost persona = after_persona(before, homes, *probe);
    let ghost controls = after_controls(persona, homes, *probe);
    let persona_before: usize = gathered.items.len();
    plan_known_file(
        gathered,
        legacy,
        next,
        "persona",
        "persona/config.toml",
        PERSONA_CONFIG_MAX_BYTES,
        &probe.config,
    )?;
    plan_known_file(
        gathered,
        legacy,
        next,
        "persona",
        "persona/soul.txt",
        PERSONA_SOUL_MAX_BYTES,
        &probe.soul,
    )?;
    proof {
        if let ProfilesProbe::Entries(entries) = &probe.profiles {
            lemma_profiles_add(entries@, 0, homes, Ok(gathered@));
        }
    }
    plan_persona_profiles(gathered, legacy, next, &probe.profiles)?;
    assert(persona == Ok::<GatheredView, MigrationErrorView>(gathered@));
    let persona_files = capability_from_item_range(
        "persona",
        "legacy_user_home",
        &gathered.items,
        persona_before,
    );
    let controls_before: usize = gathered.items.len();
    plan_known_file(
        gathered,
        legacy,
        next,
        "controls",
        "settings.json",
        CONTROLS_MAX_BYTES,
        &probe.settings,
    )?;
    assert(controls == Ok::<GatheredView, MigrationErrorView>(gathered@));
    let control_files = capability_from_item_range(
        "controls",
        "legacy_user_home",
        &gathered.items,
        controls_before,
    );
    let memory_before: usize = gathered.items.len();
    plan_user_memory(gathered, legacy, next, "memory/global-memory.jsonl", &probe.global_memory)?;
    plan_user_memory(gathered, legacy, next, "memory/pending.jsonl", &probe.pending_memory)?;
    plan_user_memory(
        gathered,
        legacy,
        next,
        "memory/workspace-memory.jsonl",
        &probe.workspace_memory,
    )?;
    proof {
        lemma_gathering_adds(controls, homes, *probe);
    }
    let memory_files = capability_from_item_range(
        "memory",
        "legacy_user_home",
        &gathered.items,
        memory_before,
    );
    let relationship = derived_relationship_capability(
        "legacy_user_home",
        gathered.relationships,
        gathered.items.len() > memory_before,
        has_unsupported_memory(&gathered.items, memory_before),
    );
    let mailbox = MigrationCapability::unsupported(
        "mailbox",
        "legacy_user_home",
        if probe.mailbox_present {
            "legacy mailbox was found, but its format and encryption key ownership are not known; no files were copied"
        } else {
            "legacy mailbox format and encryption key ownership are not known; no files were copied"
        },
    );
    let no_file = MigrationCapability::unsupported(
        "relationship",
        "legacy_user_home",
        "no standalone legacy relationship file format is defined; relationship data is not copied",
    );
    let capabilities = vec![
        persona_files,
        control_files,
        memory_files,
        relationship,
        mailbox,
        no_file,
    ];
    proof {
        let done = after_home(before, Some(legacy@), Some(next@), *probe);
        assert(capabilities_view(capabilities@) =~= done->Ok_0.1);
    }
    Ok(capabilities)
}

} // verus!
