//! What a migration plans, remembers and reports.
use vstd::prelude::*;
use vstd::string::StringExecFns;

use crate::paths::{components, components_of, Location};
use crate::storage::event_import::{accepts_import_id, is_import_id};
use crate::storage::record::opt_text;
use crate::storage::store::{StorageError, StorageErrorView};
use crate::text::{
    decimal, decimal_of, decimal_u128, occurs_at, starts_with, str_eq, strip_prefix,
    strip_prefix_of, text2, texts, to_chars,
};

verus! {

pub const MIGRATION_SCHEMA_VERSION: u32 = 1;

pub const MANIFEST_MAX_BYTES: u64 = 4 * 1024 * 1024;

// ---------------------------------------------------------------------------
// Errors
// ---------------------------------------------------------------------------
#[derive(Clone, Debug)]
pub enum MigrationError {
    Storage(StorageError),
    LegacyReadNotGranted,
    NextWriteNotGranted,
    InvalidPlan(String),
    InvalidManifest(String),
    ManifestExists(String),
    ManifestMissing(String),
    SourceChanged(String),
    InvalidSource(String),
    Io { path: String, message: String },
    Serialize(String),
}

pub enum MigrationErrorView {
    Storage(StorageErrorView),
    LegacyReadNotGranted,
    NextWriteNotGranted,
    InvalidPlan(Seq<char>),
    InvalidManifest(Seq<char>),
    ManifestExists(Seq<char>),
    ManifestMissing(Seq<char>),
    SourceChanged(Seq<char>),
    InvalidSource(Seq<char>),
    Io { path: Seq<char>, message: Seq<char> },
    Serialize(Seq<char>),
}

impl View for MigrationError {
    type V = MigrationErrorView;

    open spec fn view(&self) -> MigrationErrorView {
        match *self {
            MigrationError::Storage(error) => MigrationErrorView::Storage(error@),
            MigrationError::LegacyReadNotGranted => MigrationErrorView::LegacyReadNotGranted,
            MigrationError::NextWriteNotGranted => MigrationErrorView::NextWriteNotGranted,
            MigrationError::InvalidPlan(text) => MigrationErrorView::InvalidPlan(text@),
            MigrationError::InvalidManifest(text) => MigrationErrorView::InvalidManifest(text@),
            MigrationError::ManifestExists(text) => MigrationErrorView::ManifestExists(text@),
            MigrationError::ManifestMissing(text) => MigrationErrorView::ManifestMissing(text@),
            MigrationError::SourceChanged(text) => MigrationErrorView::SourceChanged(text@),
            MigrationError::InvalidSource(text) => MigrationErrorView::InvalidSource(text@),
            MigrationError::Io { path, message } => MigrationErrorView::Io {
                path: path@,
                message: message@,
            },
            MigrationError::Serialize(text) => MigrationErrorView::Serialize(text@),
        }
    }
}

impl MigrationErrorView {
    /// The sentence shown to people.
    pub open spec fn text(self) -> Seq<char> {
        match self {
            MigrationErrorView::Storage(error) => error.text(),
            MigrationErrorView::LegacyReadNotGranted =>
                "legacy session read access was not granted"@,
            MigrationErrorView::NextWriteNotGranted =>
                "Next session write access was not granted"@,
            MigrationErrorView::InvalidPlan(message) => "invalid migration plan: "@ + message,
            MigrationErrorView::InvalidManifest(message) => "invalid migration manifest: "@
                + message,
            MigrationErrorView::ManifestExists(path) => "migration manifest already exists: "@
                + path,
            MigrationErrorView::ManifestMissing(path) => "migration manifest was not found: "@
                + path,
            MigrationErrorView::SourceChanged(path) => "legacy source changed since plan: "@
                + path,
            MigrationErrorView::InvalidSource(message) =>
                "legacy source could not be normalized: "@ + message,
            MigrationErrorView::Io { path, message } => "migration I/O failed at "@ + path + ": "@
                + message,
            MigrationErrorView::Serialize(message) => "migration serialization failed: "@
                + message,
        }
    }
}


impl MigrationError {
    /// The sentence shown to people.
    pub fn to_string(&self) -> (r: String)
        ensures
            r@ == self@.text(),
    {
        match self {
            MigrationError::Storage(error) => error.to_string(),
            MigrationError::LegacyReadNotGranted =>
                "legacy session read access was not granted".to_owned(),
            MigrationError::NextWriteNotGranted =>
                "Next session write access was not granted".to_owned(),
            MigrationError::InvalidPlan(message) => text2(
                "invalid migration plan: ",
                message.as_str(),
            ),
            MigrationError::InvalidManifest(message) => text2(
                "invalid migration manifest: ",
                message.as_str(),
            ),
            MigrationError::ManifestExists(path) => text2(
                "migration manifest already exists: ",
                path.as_str(),
            ),
            MigrationError::ManifestMissing(path) => text2(
                "migration manifest was not found: ",
                path.as_str(),
            ),
            MigrationError::SourceChanged(path) => text2(
                "legacy source changed since plan: ",
                path.as_str(),
            ),
            MigrationError::InvalidSource(message) => text2(
                "legacy source could not be normalized: ",
                message.as_str(),
            ),
            MigrationError::Io { path, message } => {
                let mut out = text2("migration I/O failed at ", path.as_str());
                out.append(": ");
                out.append(message.as_str());
                out
            },
            MigrationError::Serialize(message) => text2(
                "migration serialization failed: ",
                message.as_str(),
            ),
        }
    }
}

pub(crate) fn invalid_plan(message: &str) -> (r: MigrationError)
    ensures
        r@ == MigrationErrorView::InvalidPlan(message@),
{
    MigrationError::InvalidPlan(message.to_owned())
}

pub(crate) fn invalid_manifest(message: &str) -> (r: MigrationError)
    ensures
        r@ == MigrationErrorView::InvalidManifest(message@),
{
    MigrationError::InvalidManifest(message.to_owned())
}

// ---------------------------------------------------------------------------
// Identifiers and paths
// ---------------------------------------------------------------------------
pub fn validate_migration_id(id: &str) -> (r: Result<(), MigrationError>)
    ensures
        r is Ok == is_import_id(id@),
        r is Err ==> r->Err_0@ == MigrationErrorView::InvalidPlan(
            "migration id contains unsupported characters"@,
        ),
{
    if accepts_import_id(id) {
        Ok(())
    } else {
        Err(invalid_plan("migration id contains unsupported characters"))
    }
}

/// The identifier of a migration that is planned at this time in this process.
pub open spec fn migration_id_of(now: u128, process: u32, counter: u64) -> Seq<char> {
    "sessions-"@ + decimal_of(now as nat) + "-"@ + decimal_of(process as nat) + "-"@ + decimal_of(
        counter as nat,
    )
}

pub fn new_migration_id(now: u128, process: u32, counter: u64) -> (r: String)
    ensures
        r@ == migration_id_of(now, process, counter),
{
    let mut id = "sessions-".to_owned();
    id.append(decimal_u128(now).as_str());
    id.append("-");
    id.append(decimal(process as u64).as_str());
    id.append("-");
    id.append(decimal(counter).as_str());
    id
}

/// A path that starts at the root of the file system.
pub open spec fn is_absolute(path: Seq<char>) -> bool {
    path.len() > 0 && path[0] == '/'
}

/// A path that goes down only: it starts at no root and steps to no parent.
pub open spec fn goes_down(path: Seq<char>) -> bool {
    !is_absolute(path) && !components_of(path).contains(".."@)
}

pub(crate) fn path_goes_down(path: &str) -> (r: bool)
    ensures
        r == goes_down(path@),
{
    let chars = to_chars(path);
    if chars.len() > 0 && chars[0] == '/' {
        return false;
    }
    let names = components(path);
    let n: usize = names.len();
    let mut i: usize = 0;
    while i < n
        invariant
            n == names@.len(),
            i <= n,
            texts(names@) == components_of(path@),
            forall|k: int| 0 <= k < i ==> (#[trigger] texts(names@)[k]) != ".."@,
        decreases n - i,
    {
        if str_eq(names[i].as_str(), "..") {
            assert(texts(names@)[i as int] == ".."@);
            return false;
        }
        i += 1;
    }
    true
}

pub fn validate_relative_path(relative: &str) -> (r: Result<(), MigrationError>)
    ensures
        r is Ok == (relative@.len() > 0 && goes_down(relative@)),
        r is Err ==> r->Err_0@ == MigrationErrorView::InvalidPlan(
            "migration path must be a non-empty relative path: "@ + relative@,
        ),
{
    if relative.is_empty() || !path_goes_down(relative) {
        return Err(
            MigrationError::InvalidPlan(
                text2("migration path must be a non-empty relative path: ", relative),
            ),
        );
    }
    Ok(())
}

/// What the file system resolves a root and the nearest existing part of a path below it to,
/// where it does.
#[derive(Clone, Debug)]
pub struct Resolution {
    pub root: Option<Location>,
    pub path: Option<Location>,
}

impl Resolution {
    /// Links lead out of the root.
    pub open spec fn escapes(self) -> bool {
        match self.root {
            Some(root) => match self.path {
                Some(path) => !path.within(root),
                None => false,
            },
            None => false,
        }
    }
}

pub open spec fn escape_error(path: Seq<char>) -> MigrationErrorView {
    MigrationErrorView::InvalidPlan("canonical path escapes root: "@ + path)
}

/// A path that goes down from a root is contained in it unless links lead out.
pub fn ensure_contained_path(path: &str, resolution: &Resolution) -> (r: Result<
    (),
    MigrationError,
>)
    ensures
        r is Err == resolution.escapes(),
        r is Err ==> r->Err_0@ == escape_error(path@),
{
    if let Some(root) = &resolution.root {
        if let Some(resolved) = &resolution.path {
            if !resolved.is_within(root) {
                return Err(
                    MigrationError::InvalidPlan(text2("canonical path escapes root: ", path)),
                );
            }
        }
    }
    Ok(())
}

/// A file that is migrated is not larger than its kind allows.
pub fn check_file_length(path: &str, length: u64, maximum: u64) -> (r: Result<(), MigrationError>)
    ensures
        r is Ok == (length <= maximum),
        r is Err ==> r->Err_0@ == MigrationErrorView::Storage(
            StorageErrorView::FileTooLarge { path: path@, maximum },
        ),
{
    if length > maximum {
        Err(
            MigrationError::Storage(
                StorageError::FileTooLarge { path: path.to_owned(), maximum },
            ),
        )
    } else {
        Ok(())
    }
}

/// A file that is read as a manifest is not larger than [`MANIFEST_MAX_BYTES`].
pub fn check_manifest_length(length: u64) -> (r: Result<(), MigrationError>)
    ensures
        r is Ok == (length <= MANIFEST_MAX_BYTES),
        r is Err ==> r->Err_0@ == MigrationErrorView::InvalidManifest(
            "manifest exceeds size limit"@,
        ),
{
    if length > MANIFEST_MAX_BYTES {
        Err(invalid_manifest("manifest exceeds size limit"))
    } else {
        Ok(())
    }
}

// ---------------------------------------------------------------------------
// Items
// ---------------------------------------------------------------------------
#[derive(Clone, Copy, Debug, PartialEq, Eq, Structural)]
pub enum MigrationScope {
    Workspace,
    LegacyUserHome,
}

impl MigrationScope {
    pub open spec fn name(self) -> Seq<char> {
        match self {
            MigrationScope::Workspace => "workspace"@,
            MigrationScope::LegacyUserHome => "legacy_user_home"@,
        }
    }

    pub fn as_str(self) -> (r: &'static str)
        ensures
            r@ == self.name(),
    {
        match self {
            MigrationScope::Workspace => "workspace",
            MigrationScope::LegacyUserHome => "legacy_user_home",
        }
    }
}

impl Default for MigrationScope {
    fn default() -> (r: Self)
        ensures
            r == MigrationScope::Workspace,
    {
        MigrationScope::Workspace
    }
}

#[derive(Clone, Debug, PartialEq, Eq)]
pub enum MigrationItemState {
    Ready,
    TargetExists,
    Invalid { reason: String },
    Applied { target_bytes: u64, target_fingerprint: u64 },
    RolledBack,
}

pub enum ItemStateView {
    Ready,
    TargetExists,
    Invalid { reason: Seq<char> },
    Applied { target_bytes: u64, target_fingerprint: u64 },
    RolledBack,
}

impl View for MigrationItemState {
    type V = ItemStateView;

    open spec fn view(&self) -> ItemStateView {
        match *self {
            MigrationItemState::Ready => ItemStateView::Ready,
            MigrationItemState::TargetExists => ItemStateView::TargetExists,
            MigrationItemState::Invalid { reason } => ItemStateView::Invalid { reason: reason@ },
            MigrationItemState::Applied { target_bytes, target_fingerprint } =>
                ItemStateView::Applied { target_bytes, target_fingerprint },
            MigrationItemState::RolledBack => ItemStateView::RolledBack,
        }
    }
}

impl MigrationItemState {
    pub fn duplicate(&self) -> (r: Self)
        ensures
            r@ == self@,
    {
        match self {
            MigrationItemState::Ready => MigrationItemState::Ready,
            MigrationItemState::TargetExists => MigrationItemState::TargetExists,
            MigrationItemState::Invalid { reason } => MigrationItemState::Invalid {
                reason: reason.clone(),
            },
            MigrationItemState::Applied { target_bytes, target_fingerprint } =>
                MigrationItemState::Applied {
                    target_bytes: *target_bytes,
                    target_fingerprint: *target_fingerprint,
                },
            MigrationItemState::RolledBack => MigrationItemState::RolledBack,
        }
    }
}

/// One file that a migration looked at.
#[derive(Clone, Debug, PartialEq, Eq)]
pub struct MigrationItem {
    pub id: String,
    pub capability: String,
    pub scope: MigrationScope,
    pub source: String,
    pub target: String,
    pub source_bytes: u64,
    pub source_fingerprint: u64,
    pub state: MigrationItemState,
}

pub struct ItemView {
    pub id: Seq<char>,
    pub capability: Seq<char>,
    pub scope: MigrationScope,
    pub source: Seq<char>,
    pub target: Seq<char>,
    pub source_bytes: u64,
    pub source_fingerprint: u64,
    pub state: ItemStateView,
}

impl View for MigrationItem {
    type V = ItemView;

    open spec fn view(&self) -> ItemView {
        ItemView {
            id: self.id@,
            capability: self.capability@,
            scope: self.scope,
            source: self.source@,
            target: self.target@,
            source_bytes: self.source_bytes,
            source_fingerprint: self.source_fingerprint,
            state: self.state@,
        }
    }
}

pub open spec fn items_view(items: Seq<MigrationItem>) -> Seq<ItemView> {
    Seq::new(items.len(), |k: int| items[k]@)
}

/// The item of a session file that cannot be read as one.
pub open spec fn invalid_item(source: Seq<char>, reason: Seq<char>) -> ItemView {
    ItemView {
        id: Seq::empty(),
        capability: "sessions"@,
        scope: MigrationScope::Workspace,
        source,
        target: Seq::empty(),
        source_bytes: 0,
        source_fingerprint: 0,
        state: ItemStateView::Invalid { reason },
    }
}

impl MigrationItem {
    pub(crate) fn invalid(source: String, reason: String) -> (r: Self)
        ensures
            r@ == invalid_item(source@, reason@),
    {
        MigrationItem {
            id: String::new(),
            capability: "sessions".to_owned(),
            scope: MigrationScope::Workspace,
            source,
            target: String::new(),
            source_bytes: 0,
            source_fingerprint: 0,
            state: MigrationItemState::Invalid { reason },
        }
    }

    pub fn id(&self) -> (r: &str)
        ensures
            r@ == self@.id,
    {
        self.id.as_str()
    }

    pub fn capability(&self) -> (r: &str)
        ensures
            r@ == self@.capability,
    {
        self.capability.as_str()
    }

    pub fn scope(&self) -> (r: MigrationScope)
        ensures
            r == self@.scope,
    {
        self.scope
    }

    pub fn source(&self) -> (r: &str)
        ensures
            r@ == self@.source,
    {
        self.source.as_str()
    }

    pub fn target(&self) -> (r: &str)
        ensures
            r@ == self@.target,
    {
        self.target.as_str()
    }

    pub fn source_bytes(&self) -> (r: u64)
        ensures
            r == self@.source_bytes,
    {
        self.source_bytes
    }

    pub fn state(&self) -> (r: &MigrationItemState)
        ensures
            r@ == self@.state,
    {
        &self.state
    }

    pub fn is_ready(&self) -> (r: bool)
        ensures
            r == (self@.state is Ready),
    {
        matches!(self.state, MigrationItemState::Ready)
    }

    pub fn duplicate(&self) -> (r: Self)
        ensures
            r@ == self@,
    {
        MigrationItem {
            id: self.id.clone(),
            capability: self.capability.clone(),
            scope: self.scope,
            source: self.source.clone(),
            target: self.target.clone(),
            source_bytes: self.source_bytes,
            source_fingerprint: self.source_fingerprint,
            state: self.state.duplicate(),
        }
    }
}

pub(crate) fn copy_items(items: &Vec<MigrationItem>) -> (r: Vec<MigrationItem>)
    ensures
        items_view(r@) == items_view(items@),
{
    let mut out: Vec<MigrationItem> = Vec::new();
    let n: usize = items.len();
    let mut i: usize = 0;
    while i < n
        invariant
            n == items@.len(),
            i <= n,
            out@.len() == i,
            forall|k: int| 0 <= k < i ==> (#[trigger] out@[k])@ == items@[k]@,
        decreases n - i,
    {
        out.push(items[i].duplicate());
        i += 1;
    }
    assert(items_view(out@) =~= items_view(items@));
    out
}

// ---------------------------------------------------------------------------
// Capabilities
// ---------------------------------------------------------------------------
/// What a migration can do for one kind of state.
#[derive(Clone, Debug, PartialEq, Eq)]
pub struct MigrationCapability {
    pub capability: String,
    pub scope: String,
    pub status: String,
    pub reason: Option<String>,
    pub item_count: usize,
}

pub struct CapabilityView {
    pub capability: Seq<char>,
    pub scope: Seq<char>,
    pub status: Seq<char>,
    pub reason: Option<Seq<char>>,
    pub item_count: nat,
}

impl View for MigrationCapability {
    type V = CapabilityView;

    open spec fn view(&self) -> CapabilityView {
        CapabilityView {
            capability: self.capability@,
            scope: self.scope@,
            status: self.status@,
            reason: opt_text(self.reason),
            item_count: self.item_count as nat,
        }
    }
}

pub open spec fn capabilities_view(capabilities: Seq<MigrationCapability>) -> Seq<CapabilityView> {
    Seq::new(capabilities.len(), |k: int| capabilities[k]@)
}

pub open spec fn not_found_capability(capability: Seq<char>, scope: Seq<char>) -> CapabilityView {
    CapabilityView { capability, scope, status: "not_found"@, reason: None, item_count: 0 }
}

pub open spec fn unsupported_capability(
    capability: Seq<char>,
    scope: Seq<char>,
    reason: Seq<char>,
) -> CapabilityView {
    CapabilityView {
        capability,
        scope,
        status: "unsupported"@,
        reason: Some(reason),
        item_count: 0,
    }
}

impl MigrationCapability {
    pub(crate) fn not_found(capability: &str, scope: &str) -> (r: Self)
        ensures
            r@ == not_found_capability(capability@, scope@),
    {
        MigrationCapability {
            capability: capability.to_owned(),
            scope: scope.to_owned(),
            status: "not_found".to_owned(),
            reason: None,
            item_count: 0,
        }
    }

    pub(crate) fn unsupported(capability: &str, scope: &str, reason: &str) -> (r: Self)
        ensures
            r@ == unsupported_capability(capability@, scope@, reason@),
    {
        MigrationCapability {
            capability: capability.to_owned(),
            scope: scope.to_owned(),
            status: "unsupported".to_owned(),
            reason: Some(reason.to_owned()),
            item_count: 0,
        }
    }

    pub fn capability(&self) -> (r: &str)
        ensures
            r@ == self@.capability,
    {
        self.capability.as_str()
    }

    pub fn scope(&self) -> (r: &str)
        ensures
            r@ == self@.scope,
    {
        self.scope.as_str()
    }

    pub fn status(&self) -> (r: &str)
        ensures
            r@ == self@.status,
    {
        self.status.as_str()
    }

    pub fn reason(&self) -> (r: Option<&str>)
        ensures
            r is Some == self@.reason is Some,
            r is Some ==> Some(r->0@) == self@.reason,
    {
        match &self.reason {
            Some(reason) => Some(reason.as_str()),
            None => None,
        }
    }

    pub fn item_count(&self) -> (r: usize)
        ensures
            r == self@.item_count,
    {
        self.item_count
    }
}

/// The mark that a reason starts with when a format is not supported at all.
pub open spec fn unsupported_mark() -> Seq<char> {
    "unsupported: "@
}

/// A reason without the marks it starts with.
pub open spec fn unmarked(reason: Seq<char>) -> Seq<char>
    decreases reason.len(),
{
    match strip_prefix_of(reason, unsupported_mark()) {
        Some(rest) => if rest.len() < reason.len() {
            unmarked(rest)
        } else {
            reason
        },
        None => reason,
    }
}

fn strip_marks(reason: &str) -> (r: String)
    ensures
        r@ == unmarked(reason@),
{
    let mut rest: &str = reason;
    proof {
        reveal_strlit("unsupported: ");
    }
    loop
        invariant_except_break
            unmarked(reason@) == unmarked(rest@),
            unsupported_mark().len() > 0,
        ensures
            unmarked(reason@) == rest@,
        decreases rest@.len(),
    {
        match strip_prefix(rest, "unsupported: ") {
            Some(next) => {
                rest = next;
            },
            None => {
                break;
            },
        }
    }
    rest.to_owned()
}

/// The item is of a format that is not supported at all.
pub open spec fn is_unsupported(item: ItemView) -> bool {
    match item.state {
        ItemStateView::Invalid { reason } => occurs_at(reason, unsupported_mark(), 0),
        _ => false,
    }
}

pub open spec fn first_unsupported(items: Seq<ItemView>) -> Option<Seq<char>>
    decreases items.len(),
{
    if items.len() == 0 {
        None
    } else if is_unsupported(items[0]) {
        Some(unmarked(items[0].state->reason))
    } else {
        first_unsupported(items.skip(1))
    }
}

/// What a migration can do for a kind of state of which it found these items.
pub open spec fn capability_of(
    capability: Seq<char>,
    scope: Seq<char>,
    items: Seq<ItemView>,
) -> CapabilityView {
    let reason = first_unsupported(items);
    CapabilityView {
        capability,
        scope,
        status: if reason is Some {
            "unsupported"@
        } else if items.len() == 0 {
            "not_found"@
        } else if exists|k: int| 0 <= k < items.len() && (#[trigger] items[k]).state is Ready {
            "ready"@
        } else if forall|k: int|
            0 <= k < items.len() ==> (#[trigger] items[k]).state is TargetExists {
            "target_exists"@
        } else {
            "invalid"@
        },
        reason,
        item_count: items.len(),
    }
}

pub(crate) fn capability_from_item_range(
    capability: &str,
    scope: &str,
    items: &Vec<MigrationItem>,
    from: usize,
) -> (r: MigrationCapability)
    requires
        from <= items@.len(),
    ensures
        r@ == capability_of(capability@, scope@, items_view(items@).skip(from as int)),
{
    let ghost range = items_view(items@).skip(from as int);
    let n: usize = items.len();
    let mut reason: Option<String> = None;
    let mut any_ready = false;
    let mut all_exist = true;
    let mut i: usize = from;
    assert(range.skip(0) =~= range);
    while i < n
        invariant
            n == items@.len(),
            from <= i <= n,
            range == items_view(items@).skip(from as int),
            match reason {
                Some(text) => first_unsupported(range) == Some(text@),
                None => first_unsupported(range) == first_unsupported(range.skip(i - from)),
            },
            any_ready == exists|k: int|
                0 <= k < i - from && (#[trigger] range[k]).state is Ready,
            all_exist == forall|k: int|
                0 <= k < i - from ==> (#[trigger] range[k]).state is TargetExists,
        decreases n - i,
    {
        proof {
            assert(range[i - from] == items@[i as int]@);
            assert(range.skip(i - from)[0] == items@[i as int]@);
            assert(range.skip(i - from).skip(1) =~= range.skip(i + 1 - from));
        }
        match &items[i].state {
            MigrationItemState::Ready => {
                any_ready = true;
                all_exist = false;
            },
            MigrationItemState::TargetExists => {},
            MigrationItemState::Invalid { reason: text } => {
                all_exist = false;
                if reason.is_none() && starts_with(text.as_str(), "unsupported: ") {
                    reason = Some(strip_marks(text.as_str()));
                }
            },
            MigrationItemState::Applied { .. } => {
                all_exist = false;
            },
            MigrationItemState::RolledBack => {
                all_exist = false;
            },
        }
        i += 1;
    }
    assert(range.skip(n - from) =~= Seq::<ItemView>::empty());
    assert(range.len() == n - from);
    let status = if reason.is_some() {
        "unsupported"
    } else if n == from {
        "not_found"
    } else if any_ready {
        "ready"
    } else if all_exist {
        "target_exists"
    } else {
        "invalid"
    };
    MigrationCapability {
        capability: capability.to_owned(),
        scope: scope.to_owned(),
        status: status.to_owned(),
        reason,
        item_count: n - from,
    }
}

/// The items of one capability.
pub open spec fn items_of(items: Seq<ItemView>, capability: Seq<char>) -> Seq<ItemView>
    decreases items.len(),
{
    if items.len() == 0 {
        items
    } else if items.last().capability == capability {
        items_of(items.drop_last(), capability).push(items.last())
    } else {
        items_of(items.drop_last(), capability)
    }
}

/// The capability of all items that carry its name.
pub(crate) fn capability_from_items(
    capability: &str,
    scope: &str,
    items: &Vec<MigrationItem>,
) -> (r: MigrationCapability)
    ensures
        r@ == capability_of(capability@, scope@, items_of(items_view(items@), capability@)),
{
    let mut picked: Vec<MigrationItem> = Vec::new();
    let n: usize = items.len();
    let mut i: usize = 0;
    assert(items_view(items@).take(0) =~= Seq::<ItemView>::empty());
    assert(items_view(picked@) =~= Seq::<ItemView>::empty());
    while i < n
        invariant
            n == items@.len(),
            i <= n,
            items_view(picked@) == items_of(items_view(items@).take(i as int), capability@),
        decreases n - i,
    {
        proof {
            let upto = items_view(items@).take(i + 1);
            assert(upto.drop_last() =~= items_view(items@).take(i as int));
            assert(upto.last() == items@[i as int]@);
        }
        if str_eq(items[i].capability.as_str(), capability) {
            let ghost before = picked@;
            picked.push(items[i].duplicate());
            assert(items_view(picked@) =~= items_view(before).push(items@[i as int]@));
        }
        i += 1;
    }
    assert(items_view(items@).take(n as int) =~= items_view(items@));
    assert(items_view(picked@).skip(0) =~= items_view(picked@));
    capability_from_item_range(capability, scope, &picked, 0)
}

/// What is said of the relationship graph, which memory records give rise to.
pub open spec fn relationship_capability(
    scope: Seq<char>,
    relationships: nat,
    memory_present: bool,
    memory_unsupported: bool,
) -> CapabilityView {
    if memory_unsupported {
        unsupported_capability(
            "relationship"@,
            scope,
            "relationship graph cannot be derived until the legacy memory format passes privacy review"@,
        )
    } else if relationships > 0 {
        CapabilityView {
            capability: "relationship"@,
            scope,
            status: "derived"@,
            reason: Some("relationship graph records are derived from migrated memory JSONL"@),
            item_count: relationships,
        }
    } else if memory_present {
        CapabilityView {
            capability: "relationship"@,
            scope,
            status: "not_found"@,
            reason: Some("no relationship records were present in the known memory files"@),
            item_count: 0,
        }
    } else {
        not_found_capability("relationship"@, scope)
    }
}

pub(crate) fn derived_relationship_capability(
    scope: &str,
    relationship_count: usize,
    memory_present: bool,
    memory_unsupported: bool,
) -> (r: MigrationCapability)
    ensures
        r@ == relationship_capability(
            scope@,
            relationship_count as nat,
            memory_present,
            memory_unsupported,
        ),
{
    if memory_unsupported {
        MigrationCapability::unsupported(
            "relationship",
            scope,
            "relationship graph cannot be derived until the legacy memory format passes privacy review",
        )
    } else if relationship_count > 0 {
        MigrationCapability {
            capability: "relationship".to_owned(),
            scope: scope.to_owned(),
            status: "derived".to_owned(),
            reason: Some(
                "relationship graph records are derived from migrated memory JSONL".to_owned(),
            ),
            item_count: relationship_count,
        }
    } else if memory_present {
        MigrationCapability {
            capability: "relationship".to_owned(),
            scope: scope.to_owned(),
            status: "not_found".to_owned(),
            reason: Some(
                "no relationship records were present in the known memory files".to_owned(),
            ),
            item_count: 0,
        }
    } else {
        MigrationCapability::not_found("relationship", scope)
    }
}

/// Some memory file is of a format that is not supported at all.
pub open spec fn holds_unsupported_memory(items: Seq<ItemView>) -> bool {
    exists|k: int|
        0 <= k < items.len() && (#[trigger] items[k]).capability == "memory"@ && is_unsupported(
            items[k],
        )
}

pub(crate) fn has_unsupported_memory(items: &Vec<MigrationItem>, from: usize) -> (r: bool)
    requires
        from <= items@.len(),
    ensures
        r == holds_unsupported_memory(items_view(items@).skip(from as int)),
{
    let ghost range = items_view(items@).skip(from as int);
    let n: usize = items.len();
    let mut i: usize = from;
    while i < n
        invariant
            n == items@.len(),
            from <= i <= n,
            range == items_view(items@).skip(from as int),
            forall|k: int|
                0 <= k < i - from ==> !((#[trigger] range[k]).capability == "memory"@
                    && is_unsupported(range[k])),
        decreases n - i,
    {
        assert(range[i - from] == items@[i as int]@);
        if str_eq(items[i].capability.as_str(), "memory") {
            if let MigrationItemState::Invalid { reason } = &items[i].state {
                if starts_with(reason.as_str(), "unsupported: ") {
                    return true;
                }
            }
        }
        i += 1;
    }
    false
}

} // verus!
