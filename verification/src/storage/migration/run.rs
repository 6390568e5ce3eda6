//! Carrying out a plan, and undoing it.
use vstd::prelude::*;
use vstd::string::StringExecFns;

use crate::fingerprint::{fnv1a, stable_fingerprint};
use crate::paths::{joined, joined_of};
use crate::storage::event_import::is_import_id;
use crate::storage::memory::{
    normalize_memory_jsonl, normalized_file, readings_fit, LineReading,
};
use crate::storage::migration::facade::{
    borrow_opt, manifest_name, manifest_of, MigrationPlan, PlanView, SessionMigration,
};
use crate::storage::migration::model::{
    copy_items, ensure_contained_path, escape_error, goes_down, invalid_manifest, invalid_plan,
    items_view, validate_migration_id, ItemStateView, ItemView, MigrationError,
    MigrationErrorView, MigrationItem, MigrationItemState, Resolution, MIGRATION_SCHEMA_VERSION,
};
use crate::storage::migration::plan::{read_session_content, session_content, FileContent};
use crate::storage::migration::validate::{
    plan_problem, same_opt, source_place, target_place, ItemProbe, PathsProbe,
};
use crate::storage::record::{copy_opt, opt_text, SessionView, StoredSession};
use crate::storage::store::{
    check_length, legacy_content, read_legacy_record, StorageErrorView, MAX_SESSION_FILE_BYTES,
};
use crate::text::{str_eq, text2, texts};

verus! {

// ---------------------------------------------------------------------------
// Copies
// ---------------------------------------------------------------------------
/// What is written to a target: a session, which is yet to be encoded, or bytes.
pub enum CopyContent {
    Session(StoredSession),
    Bytes(Vec<u8>),
}

pub enum CopyContentView {
    Session(SessionView),
    Bytes(Seq<u8>),
}

impl View for CopyContent {
    type V = CopyContentView;

    open spec fn view(&self) -> CopyContentView {
        match *self {
            CopyContent::Session(session) => CopyContentView::Session(session@),
            CopyContent::Bytes(bytes) => CopyContentView::Bytes(bytes@),
        }
    }
}

/// What is written for an item whose source still is as it was planned.
pub open spec fn copy_of(
    migration: SessionMigration,
    item: ItemView,
    probe: ItemProbe,
    content: FileContent,
    readings: Seq<LineReading>,
) -> Result<CopyContentView, MigrationErrorView> {
    let gone = MigrationErrorView::SourceChanged("source disappeared: "@ + item.source);
    match source_place(migration, item, probe.source) {
        Err(error) => Err(error),
        Ok(source) => match target_place(migration, item, probe.target) {
            Err(error) => Err(error),
            Ok(_) => match session_content(source, content) {
                Err(error) => Err(MigrationErrorView::Storage(error)),
                Ok(None) => Err(gone),
                Ok(Some(bytes)) => if bytes.len() != item.source_bytes || fnv1a(bytes)
                    != item.source_fingerprint {
                    Err(MigrationErrorView::SourceChanged(item.source))
                } else if item.capability == "sessions"@ {
                    match legacy_content(source, bytes) {
                        Err(error) => Err(MigrationErrorView::Storage(error)),
                        Ok(session) => if session.id != item.id {
                            Err(
                                MigrationErrorView::SourceChanged(
                                    "session id changed in "@ + item.source,
                                ),
                            )
                        } else {
                            Ok(CopyContentView::Session(session))
                        },
                    }
                } else if item.capability == "memory"@ {
                    match normalized_file(bytes, readings) {
                        Err(reason) => Err(
                            MigrationErrorView::InvalidSource(item.source + ": "@ + reason),
                        ),
                        Ok(memory) => Ok(CopyContentView::Bytes(memory.0)),
                    }
                } else {
                    Ok(CopyContentView::Bytes(bytes))
                },
            },
        },
    }
}

/// What came of writing a target.
#[derive(Clone, Copy, Debug, PartialEq, Eq)]
pub enum CopyOutcome {
    Copied { target_bytes: u64, target_fingerprint: u64 },
    TargetAppeared,
}

impl CopyOutcome {
    /// The outcome of having written these bytes.
    pub fn copied(written: &Vec<u8>) -> (r: Self)
        ensures
            r == (CopyOutcome::Copied {
                target_bytes: written@.len() as u64,
                target_fingerprint: fnv1a(written@),
            }),
    {
        CopyOutcome::Copied {
            target_bytes: written.len() as u64,
            target_fingerprint: stable_fingerprint(written),
        }
    }
}

impl SessionMigration {
    /// What is written for an item: for a memory file its current form. `readings` are what its
    /// lines were read as, which matters for memory only.
    pub fn copy_content(
        &self,
        item: &MigrationItem,
        probe: &ItemProbe,
        content: &FileContent,
        readings: &Vec<LineReading>,
    ) -> (r: Result<CopyContent, MigrationError>)
        requires
            item@.capability == "memory"@ && *content is Found ==> readings_fit(
                content->bytes@,
                readings@,
            ),
        ensures
            match copy_of(*self, item@, *probe, *content, readings@) {
                Ok(copy) => r is Ok && r->Ok_0@ == copy,
                Err(error) => r is Err && r->Err_0@ == error,
            },
    {
        let source = self.source_path(item, &probe.source)?;
        self.target_path(item, &probe.target)?;
        let bytes = match read_session_content(source.as_str(), content) {
            Err(error) => return Err(MigrationError::Storage(error)),
            Ok(None) => {
                return Err(
                    MigrationError::SourceChanged(
                        text2("source disappeared: ", item.source.as_str()),
                    ),
                );
            },
            Ok(Some(bytes)) => bytes,
        };
        if bytes.len() as u64 != item.source_bytes || stable_fingerprint(bytes)
            != item.source_fingerprint {
            return Err(MigrationError::SourceChanged(item.source.clone()));
        }
        if str_eq(item.capability.as_str(), "sessions") {
            let session = match read_legacy_record(source.as_str(), bytes) {
                Err(error) => return Err(MigrationError::Storage(error)),
                Ok(session) => session,
            };
            if !str_eq(session.id(), item.id.as_str()) {
                return Err(
                    MigrationError::SourceChanged(
                        text2("session id changed in ", item.source.as_str()),
                    ),
                );
            }
            return Ok(CopyContent::Session(session));
        }
        if str_eq(item.capability.as_str(), "memory") {
            return match normalize_memory_jsonl(bytes, readings) {
                Err(reason) => {
                    let mut message = text2(item.source.as_str(), ": ");
                    message.append(reason.as_str());
                    Err(MigrationError::InvalidSource(message))
                },
                Ok(memory) => Ok(CopyContent::Bytes(memory.bytes().clone())),
            };
        }
        Ok(CopyContent::Bytes(bytes.clone()))
    }
}

/// Nothing larger than a session file may be is written.
pub fn check_copy_length(target: &str, length: u64) -> (r: Result<(), MigrationError>)
    ensures
        r is Ok == (length <= MAX_SESSION_FILE_BYTES),
        r is Err ==> r->Err_0@ == MigrationErrorView::Storage(
            StorageErrorView::FileTooLarge { path: target@, maximum: MAX_SESSION_FILE_BYTES },
        ),
{
    match check_length(target, length) {
        Ok(()) => Ok(()),
        Err(error) => Err(MigrationError::Storage(error)),
    }
}

/// What came of moving a finished copy to its target: it is there, unless something else had
/// taken the place before, or was found there when the move failed.
pub open spec fn copy_outcome(
    written: Seq<u8>,
    taken_before: bool,
    moved: Result<(), Seq<char>>,
    taken_after: bool,
    target: Seq<char>,
) -> Result<CopyOutcome, MigrationErrorView> {
    if taken_before {
        Ok(CopyOutcome::TargetAppeared)
    } else {
        match moved {
            Ok(_) => Ok(
                CopyOutcome::Copied {
                    target_bytes: written.len() as u64,
                    target_fingerprint: fnv1a(written),
                },
            ),
            Err(message) => if taken_after {
                Ok(CopyOutcome::TargetAppeared)
            } else {
                Err(MigrationErrorView::Io { path: target, message })
            },
        }
    }
}

/// Decides what came of a copy. A target that is taken before the move is left alone: nothing
/// is moved then.
pub fn conclude_copy(
    written: &Vec<u8>,
    taken_before: bool,
    moved: Result<(), String>,
    taken_after: bool,
    target: &str,
) -> (r: Result<CopyOutcome, MigrationError>)
    ensures
        match copy_outcome(
            written@,
            taken_before,
            match moved {
                Ok(_) => Ok(()),
                Err(message) => Err(message@),
            },
            taken_after,
            target@,
        ) {
            Ok(outcome) => r is Ok && r->Ok_0 == outcome,
            Err(error) => r is Err && r->Err_0@ == error,
        },
{
    if taken_before {
        return Ok(CopyOutcome::TargetAppeared);
    }
    match moved {
        Ok(()) => Ok(CopyOutcome::copied(written)),
        Err(message) => {
            if taken_after {
                Ok(CopyOutcome::TargetAppeared)
            } else {
                Err(MigrationError::Io { path: target.to_owned(), message })
            }
        },
    }
}

// ---------------------------------------------------------------------------
// Manifests and reports
// ---------------------------------------------------------------------------
#[derive(Clone, Copy, Debug, PartialEq, Eq, Structural)]
pub enum MigrationState {
    Applying,
    Applied,
    RolledBack,
}

/// What a migration remembers to be undone.
#[derive(Clone, Debug, PartialEq, Eq)]
pub struct MigrationManifest {
    pub schema_version: u32,
    pub migration_id: String,
    pub state: MigrationState,
    pub created_at_millis: u128,
    pub updated_at_millis: u128,
    pub workspace_root: String,
    pub legacy_user_home: Option<String>,
    pub next_user_home: Option<String>,
    pub items: Vec<MigrationItem>,
}

pub struct ManifestView {
    pub schema_version: u32,
    pub migration_id: Seq<char>,
    pub state: MigrationState,
    pub created_at_millis: u128,
    pub updated_at_millis: u128,
    pub workspace_root: Seq<char>,
    pub legacy_user_home: Option<Seq<char>>,
    pub next_user_home: Option<Seq<char>>,
    pub items: Seq<ItemView>,
}

impl View for MigrationManifest {
    type V = ManifestView;

    open spec fn view(&self) -> ManifestView {
        ManifestView {
            schema_version: self.schema_version,
            migration_id: self.migration_id@,
            state: self.state,
            created_at_millis: self.created_at_millis,
            updated_at_millis: self.updated_at_millis,
            workspace_root: self.workspace_root@,
            legacy_user_home: opt_text(self.legacy_user_home),
            next_user_home: opt_text(self.next_user_home),
            items: items_view(self.items@),
        }
    }
}

impl MigrationManifest {
    pub fn migration_id(&self) -> (r: &str)
        ensures
            r@ == self@.migration_id,
    {
        self.migration_id.as_str()
    }

    pub fn state(&self) -> (r: &MigrationState)
        ensures
            *r == self@.state,
    {
        &self.state
    }

    pub fn items(&self) -> (r: &Vec<MigrationItem>)
        ensures
            items_view(r@) == self@.items,
    {
        &self.items
    }

    /// The manifest of a plan that is about to be carried out.
    pub fn from_plan(plan: &MigrationPlan, now: u128) -> (r: Self)
        ensures
            r@ == (ManifestView {
                schema_version: MIGRATION_SCHEMA_VERSION,
                migration_id: plan@.migration_id,
                state: MigrationState::Applying,
                created_at_millis: now,
                updated_at_millis: now,
                workspace_root: plan@.workspace_root,
                legacy_user_home: plan@.legacy_user_home,
                next_user_home: plan@.next_user_home,
                items: plan@.items,
            }),
    {
        MigrationManifest {
            schema_version: MIGRATION_SCHEMA_VERSION,
            migration_id: plan.migration_id.clone(),
            state: MigrationState::Applying,
            created_at_millis: now,
            updated_at_millis: now,
            workspace_root: plan.workspace_root.clone(),
            legacy_user_home: copy_opt(&plan.legacy_user_home),
            next_user_home: copy_opt(&plan.next_user_home),
            items: copy_items(&plan.items),
        }
    }
}

/// Which file a manifest is read from: its own, or the backup that an interrupted replacement
/// has left.
pub fn manifest_file(path: &str, exists: bool, backup: &str, backup_exists: bool) -> (r: Result<
    String,
    MigrationError,
>)
    ensures
        match r {
            Ok(file) => if exists {
                file@ == path@
            } else {
                backup_exists && file@ == backup@
            },
            Err(error) => !exists && !backup_exists && error@
                == MigrationErrorView::ManifestMissing(path@),
        },
{
    if exists {
        Ok(path.to_owned())
    } else if backup_exists {
        Ok(backup.to_owned())
    } else {
        Err(MigrationError::ManifestMissing(path.to_owned()))
    }
}

/// A manifest that was read is used only if it is of this version.
pub fn check_manifest(manifest: MigrationManifest) -> (r: Result<MigrationManifest, MigrationError>)
    ensures
        match r {
            Ok(accepted) => manifest.schema_version == MIGRATION_SCHEMA_VERSION && accepted
                == manifest,
            Err(error) => manifest.schema_version != MIGRATION_SCHEMA_VERSION && error@
                == MigrationErrorView::InvalidManifest("unsupported manifest schema version"@),
        },
{
    if manifest.schema_version != MIGRATION_SCHEMA_VERSION {
        return Err(invalid_manifest("unsupported manifest schema version"));
    }
    Ok(manifest)
}

#[derive(Clone, Debug, PartialEq, Eq)]
pub struct MigrationReport {
    pub copied: usize,
    pub skipped_existing: usize,
    pub invalid: usize,
    pub warnings: Vec<String>,
}

pub struct ReportView {
    pub copied: nat,
    pub skipped_existing: nat,
    pub invalid: nat,
    pub warnings: Seq<Seq<char>>,
}

impl View for MigrationReport {
    type V = ReportView;

    open spec fn view(&self) -> ReportView {
        ReportView {
            copied: self.copied as nat,
            skipped_existing: self.skipped_existing as nat,
            invalid: self.invalid as nat,
            warnings: texts(self.warnings@),
        }
    }
}

#[derive(Clone, Debug, PartialEq, Eq)]
pub struct RollbackReport {
    pub removed: usize,
    pub preserved: usize,
    pub already_rolled_back: bool,
    pub warnings: Vec<String>,
}

pub struct RollbackView {
    pub removed: nat,
    pub preserved: nat,
    pub already_rolled_back: bool,
    pub warnings: Seq<Seq<char>>,
}

impl View for RollbackReport {
    type V = RollbackView;

    open spec fn view(&self) -> RollbackView {
        RollbackView {
            removed: self.removed as nat,
            preserved: self.preserved as nat,
            already_rolled_back: self.already_rolled_back,
            warnings: texts(self.warnings@),
        }
    }
}

// ---------------------------------------------------------------------------
// Carrying out
// ---------------------------------------------------------------------------
/// What the manifest says of an item that has been dealt with.
pub open spec fn settled(item: ItemView, outcome: CopyOutcome) -> ItemView {
    match item.state {
        ItemStateView::Ready => ItemView {
            state: match outcome {
                CopyOutcome::Copied { target_bytes, target_fingerprint } =>
                    ItemStateView::Applied { target_bytes, target_fingerprint },
                CopyOutcome::TargetAppeared => ItemStateView::TargetExists,
            },
            ..item
        },
        _ => item,
    }
}

/// What the report says after an item has been dealt with.
pub open spec fn reported(report: ReportView, item: ItemView, outcome: CopyOutcome) -> ReportView {
    match item.state {
        ItemStateView::Invalid { reason } => ReportView {
            invalid: report.invalid + 1,
            warnings: report.warnings.push(item.source + ": "@ + reason),
            ..report
        },
        ItemStateView::Ready => match outcome {
            CopyOutcome::Copied { .. } => ReportView { copied: report.copied + 1, ..report },
            CopyOutcome::TargetAppeared => ReportView {
                skipped_existing: report.skipped_existing + 1,
                ..report
            },
        },
        _ => ReportView { skipped_existing: report.skipped_existing + 1, ..report },
    }
}

/// The item carries a state that only carrying out gives.
pub open spec fn was_executed(item: ItemView) -> bool {
    item.state is Applied || item.state is RolledBack
}

/// How many of the items are invalid.
pub open spec fn invalid_count(items: Seq<ItemView>) -> nat
    decreases items.len(),
{
    if items.len() == 0 {
        0
    } else {
        invalid_count(items.drop_last()) + if items.last().state is Invalid {
            1nat
        } else {
            0nat
        }
    }
}

/// How many of the items have been carried out.
pub open spec fn applied_count(items: Seq<ItemView>) -> nat
    decreases items.len(),
{
    if items.len() == 0 {
        0
    } else {
        applied_count(items.drop_last()) + if items.last().state is Applied {
            1nat
        } else {
            0nat
        }
    }
}

proof fn lemma_counts_of_one_more(items: Seq<ItemView>, n: int)
    requires
        0 <= n < items.len(),
    ensures
        invalid_count(items.take(n + 1)) == invalid_count(items.take(n))
            + if items[n].state is Invalid {
            1nat
        } else {
            0nat
        },
        applied_count(items.take(n + 1)) == applied_count(items.take(n))
            + if items[n].state is Applied {
            1nat
        } else {
            0nat
        },
{
    assert(items.take(n + 1).drop_last() =~= items.take(n));
}

/// A plan on its way: its manifest, its report, how many items have been dealt with, and the
/// items as they were planned.
pub struct ApplyRun {
    manifest: MigrationManifest,
    report: MigrationReport,
    next: usize,
    planned: Ghost<Seq<ItemView>>,
}

pub open spec fn execution_state_error() -> MigrationErrorView {
    MigrationErrorView::InvalidPlan("plan contains an item with an execution state"@)
}

impl ApplyRun {
    pub closed spec fn spec_manifest(self) -> ManifestView {
        self.manifest@
    }

    pub closed spec fn spec_report(self) -> ReportView {
        self.report@
    }

    pub closed spec fn done(self) -> nat {
        self.next as nat
    }

    /// The items as they were before any was dealt with.
    pub closed spec fn planned(self) -> Seq<ItemView> {
        self.planned@
    }

    #[verifier::type_invariant]
    spec fn counts(self) -> bool {
        let items = items_view(self.manifest.items@);
        &&& self.next <= items.len()
        &&& self.planned@.len() == items.len()
        &&& forall|k: int|
            self.next <= k < items.len() ==> #[trigger] items[k] == self.planned@[k]
        &&& self.report.copied + self.report.skipped_existing + self.report.invalid == self.next
        &&& self.report.invalid == invalid_count(self.planned@.take(self.next as int))
        &&& self.report.copied == applied_count(items.take(self.next as int))
    }

    fn new(manifest: MigrationManifest) -> (r: Self)
        ensures
            r.spec_manifest() == manifest@,
            r.spec_report() == (ReportView {
                copied: 0,
                skipped_existing: 0,
                invalid: 0,
                warnings: Seq::empty(),
            }),
            r.done() == 0,
            r.planned() == manifest@.items,
    {
        let report = MigrationReport {
            copied: 0,
            skipped_existing: 0,
            invalid: 0,
            warnings: Vec::new(),
        };
        assert(report@.warnings =~= Seq::<Seq<char>>::empty());
        let ghost planned = items_view(manifest.items@);
        assert(planned.take(0) =~= seq![]);
        ApplyRun { manifest, report, next: 0, planned: Ghost(planned) }
    }

    pub fn manifest(&self) -> (r: &MigrationManifest)
        ensures
            r@ == self.spec_manifest(),
    {
        &self.manifest
    }

    /// The report so far: every item that was dealt with counts once.
    pub fn report(&self) -> (r: &MigrationReport)
        ensures
            r@ == self.spec_report(),
            r.copied + r.skipped_existing + r.invalid == self.done(),
            r.invalid == invalid_count(self.planned().take(self.done() as int)),
            r.copied == applied_count(self.spec_manifest().items.take(self.done() as int)),
    {
        proof {
            use_type_invariant(self);
        }
        &self.report
    }

    /// How many items have been dealt with.
    pub fn position(&self) -> (r: usize)
        ensures
            r == self.done(),
            r <= self.spec_manifest().items.len(),
    {
        proof {
            use_type_invariant(self);
        }
        self.next
    }

    /// The item that comes next, if any is left.
    pub fn pending(&self) -> (r: Option<&MigrationItem>)
        ensures
            match r {
                Some(item) => self.done() < self.spec_manifest().items.len() && item@
                    == self.spec_manifest().items[self.done() as int],
                None => self.done() == self.spec_manifest().items.len(),
            },
    {
        proof {
            use_type_invariant(self);
        }
        if self.next < self.manifest.items.len() {
            Some(&self.manifest.items[self.next])
        } else {
            None
        }
    }

    /// Deals with the next item. The outcome of writing its target matters only where the
    /// item is ready.
    pub fn settle(&mut self, outcome: CopyOutcome) -> (r: Result<(), MigrationError>)
        requires
            old(self).done() < old(self).spec_manifest().items.len(),
        ensures
            ({
                let before = old(self).spec_manifest();
                let at = old(self).done() as int;
                let item = before.items[at];
                if was_executed(item) {
                    &&& r is Err
                    &&& r->Err_0@ == execution_state_error()
                    &&& *final(self) == *old(self)
                } else {
                    &&& r is Ok
                    &&& final(self).done() == at + 1
                    &&& final(self).planned() == old(self).planned()
                    &&& final(self).spec_manifest() == (ManifestView {
                        state: MigrationState::Applying,
                        items: before.items.update(at, settled(item, outcome)),
                        ..before
                    })
                    &&& final(self).spec_report() == reported(
                        old(self).spec_report(),
                        item,
                        outcome,
                    )
                }
            }),
    {
        proof {
            use_type_invariant(&*self);
        }
        let blank = MigrationManifest {
            schema_version: 0,
            migration_id: String::new(),
            state: MigrationState::Applying,
            created_at_millis: 0,
            updated_at_millis: 0,
            workspace_root: String::new(),
            legacy_user_home: None,
            next_user_home: None,
            items: Vec::new(),
        };
        let at: usize = self.next;
        let count: usize = self.manifest.items.len();
        assert(at < count);
        let executed = match &self.manifest.items[at].state {
            MigrationItemState::Applied { .. } => true,
            MigrationItemState::RolledBack => true,
            _ => false,
        };
        if executed {
            return Err(invalid_plan("plan contains an item with an execution state"));
        }
        let ghost items = self.manifest.items@;
        let mut next = ApplyRun::new(blank);
        std::mem::swap(self, &mut next);
        let ApplyRun { manifest: mut manifest, report: mut report, next: _, planned } = next;
        let mut item = manifest.items[at].duplicate();
        match &item.state {
            MigrationItemState::Invalid { reason } => {
                report.invalid += 1;
                let mut warning = text2(item.source.as_str(), ": ");
                warning.append(reason.as_str());
                let ghost before = report.warnings@;
                report.warnings.push(warning);
                assert(texts(report.warnings@) =~= texts(before).push(warning@));
            },
            MigrationItemState::Ready => {
                match outcome {
                    CopyOutcome::Copied { target_bytes, target_fingerprint } => {
                        report.copied += 1;
                        item.state =
                        MigrationItemState::Applied { target_bytes, target_fingerprint };
                    },
                    CopyOutcome::TargetAppeared => {
                        report.skipped_existing += 1;
                        item.state = MigrationItemState::TargetExists;
                    },
                }
            },
            _ => {
                report.skipped_existing += 1;
            },
        }
        manifest.items.set(at, item);
        manifest.state = MigrationState::Applying;
        proof {
            let after = items_view(manifest.items@);
            assert(after =~= items_view(items).update(at as int, item@));
            assert(items_view(items)[at as int] == planned@[at as int]);
            assert(after.take(at as int) =~= items_view(items).take(at as int));
            lemma_counts_of_one_more(after, at as int);
            lemma_counts_of_one_more(planned@, at as int);
        }
        *self = ApplyRun { manifest, report, next: at + 1, planned };
        Ok(())
    }

    /// The manifest and the report of a plan whose items have all been dealt with.
    pub fn finish(self, now: u128) -> (r: (MigrationManifest, MigrationReport))
        requires
            self.done() == self.spec_manifest().items.len(),
        ensures
            r.0@ == (ManifestView {
                state: MigrationState::Applied,
                updated_at_millis: now,
                ..self.spec_manifest()
            }),
            r.1@ == self.spec_report(),
            r.1.copied + r.1.skipped_existing + r.1.invalid == self.planned().len(),
            r.1.invalid == invalid_count(self.planned()),
            r.1.copied == applied_count(r.0@.items),
            r.0@.items.len() == self.planned().len(),
    {
        proof {
            use_type_invariant(&self);
            assert(self.planned@.take(self.next as int) =~= self.planned@);
            let items = items_view(self.manifest.items@);
            assert(items.take(self.next as int) =~= items);
        }
        let mut manifest = self.manifest;
        manifest.state = MigrationState::Applied;
        manifest.updated_at_millis = now;
        (manifest, self.report)
    }
}

impl SessionMigration {
    /// Starts to carry out a plan: with leave to write, if it is a plan of this migration and
    /// has not been carried out before.
    pub fn apply(
        &self,
        plan: &MigrationPlan,
        probe: &PathsProbe,
        manifest: &Resolution,
        manifest_exists: bool,
        now: u128,
    ) -> (r: Result<ApplyRun, MigrationError>)
        requires
            probe.items@.len() == plan.items@.len(),
        ensures
            match apply_problem(*self, plan@, *probe, *manifest, manifest_exists) {
                Some(error) => r is Err && r->Err_0@ == error,
                None => {
                    &&& r is Ok
                    &&& r->Ok_0.done() == 0
                    &&& r->Ok_0.planned() == plan@.items
                    &&& r->Ok_0.spec_manifest() == (ManifestView {
                        schema_version: MIGRATION_SCHEMA_VERSION,
                        migration_id: plan@.migration_id,
                        state: MigrationState::Applying,
                        created_at_millis: now,
                        updated_at_millis: now,
                        workspace_root: plan@.workspace_root,
                        legacy_user_home: plan@.legacy_user_home,
                        next_user_home: plan@.next_user_home,
                        items: plan@.items,
                    })
                    &&& r->Ok_0.spec_report() == (ReportView {
                        copied: 0,
                        skipped_existing: 0,
                        invalid: 0,
                        warnings: Seq::empty(),
                    })
                },
            },
    {
        self.require_write()?;
        self.validate_plan(plan, probe)?;
        let path = self.path_from_relative(plan.manifest_path.as_str(), manifest)?;
        if manifest_exists {
            return Err(MigrationError::ManifestExists(path));
        }
        Ok(ApplyRun::new(MigrationManifest::from_plan(plan, now)))
    }
}

/// Why a plan is not carried out.
pub open spec fn apply_problem(
    migration: SessionMigration,
    plan: PlanView,
    probe: PathsProbe,
    manifest: Resolution,
    manifest_exists: bool,
) -> Option<MigrationErrorView> {
    let path = joined_of(migration.root(), plan.manifest_path);
    if !migration.writes() {
        Some(MigrationErrorView::NextWriteNotGranted)
    } else {
        match plan_problem(migration, plan, probe) {
            Some(error) => Some(error),
            None => if !goes_down(plan.manifest_path) {
                Some(
                    MigrationErrorView::InvalidPlan(
                        "path must be workspace-relative: "@ + plan.manifest_path,
                    ),
                )
            } else if manifest.escapes() {
                Some(escape_error(path))
            } else if manifest_exists {
                Some(MigrationErrorView::ManifestExists(path))
            } else {
                None
            },
        }
    }
}

/// A plan that was carried out, and so left its manifest behind, is not carried out again.
pub proof fn lemma_second_apply_is_refused(
    migration: SessionMigration,
    plan: PlanView,
    probe: PathsProbe,
    manifest: Resolution,
)
    requires
        apply_problem(migration, plan, probe, manifest, false) is None,
    ensures
        apply_problem(migration, plan, probe, manifest, true) == Some(
            MigrationErrorView::ManifestExists(joined_of(migration.root(), plan.manifest_path)),
        ),
{
}

// ---------------------------------------------------------------------------
// Undoing
// ---------------------------------------------------------------------------
/// The bytes are, as far as length and fingerprint tell, what was written for the item.
pub open spec fn recognizes(item: ItemView, bytes: Seq<u8>) -> bool {
    match item.state {
        ItemStateView::Applied { target_bytes, target_fingerprint } => bytes.len() == target_bytes
            && fnv1a(bytes) == target_fingerprint,
        _ => false,
    }
}

/// What is to be done with the target of an item.
#[derive(Clone, Copy, Debug, PartialEq, Eq, Structural)]
pub enum RollbackAction {
    Leave,
    Remove,
}

/// The target is removed if it is still what was written.
pub open spec fn undo_action(item: ItemView, found: Option<Seq<u8>>) -> RollbackAction {
    if found is Some && recognizes(item, found->0) {
        RollbackAction::Remove
    } else {
        RollbackAction::Leave
    }
}

/// What the manifest says of an item after its target was looked at.
pub open spec fn undone(item: ItemView, found: Option<Seq<u8>>) -> ItemView {
    if item.state is Applied && (found is None || recognizes(item, found->0)) {
        ItemView { state: ItemStateView::RolledBack, ..item }
    } else {
        item
    }
}

/// What the report says after an item's target was looked at.
pub open spec fn undo_reported(report: RollbackView, item: ItemView, found: Option<Seq<u8>>) -> RollbackView {
    if !(item.state is Applied) {
        report
    } else if found is None {
        RollbackView {
            warnings: report.warnings.push("target is already absent: "@ + item.target),
            ..report
        }
    } else if recognizes(item, found->0) {
        RollbackView { removed: report.removed + 1, ..report }
    } else {
        RollbackView {
            preserved: report.preserved + 1,
            warnings: report.warnings.push(
                "target changed after migration; preserved: "@ + item.target,
            ),
            ..report
        }
    }
}

/// What is found where an applied item was written to.
pub open spec fn found_target(
    migration: SessionMigration,
    item: ItemView,
    resolution: Resolution,
    content: FileContent,
) -> Result<Option<Seq<u8>>, MigrationErrorView> {
    if !(item.state is Applied) {
        Ok(None)
    } else {
        match target_place(migration, item, resolution) {
            Err(error) => Err(error),
            Ok(path) => match session_content(path, content) {
                Err(error) => Err(MigrationErrorView::Storage(error)),
                Ok(found) => Ok(found),
            },
        }
    }
}

/// A manifest on its way to be undone: with its report, how many items have been dealt with, the
/// items as they were at the start, and how many targets were absent already.
pub struct RollbackRun {
    manifest: MigrationManifest,
    report: RollbackReport,
    next: usize,
    started: Ghost<Seq<ItemView>>,
    absent: Ghost<nat>,
}

pub open spec fn no_rollback(already: bool) -> RollbackView {
    RollbackView {
        removed: 0,
        preserved: 0,
        already_rolled_back: already,
        warnings: Seq::empty(),
    }
}

fn empty_rollback(already: bool) -> (r: RollbackReport)
    ensures
        r@ == no_rollback(already),
        r.removed == 0,
        r.preserved == 0,
{
    let report = RollbackReport {
        removed: 0,
        preserved: 0,
        already_rolled_back: already,
        warnings: Vec::new(),
    };
    assert(report@.warnings =~= Seq::<Seq<char>>::empty());
    report
}

impl RollbackRun {
    pub closed spec fn spec_manifest(self) -> ManifestView {
        self.manifest@
    }

    pub closed spec fn spec_report(self) -> RollbackView {
        self.report@
    }

    pub closed spec fn done(self) -> nat {
        self.next as nat
    }

    /// The items as they were before any was dealt with.
    pub closed spec fn started(self) -> Seq<ItemView> {
        self.started@
    }

    /// How many targets of items that had been carried out were gone already.
    pub closed spec fn absent(self) -> nat {
        self.absent@
    }

    #[verifier::type_invariant]
    spec fn counts(self) -> bool {
        let items = items_view(self.manifest.items@);
        &&& self.next <= items.len()
        &&& self.started@.len() == items.len()
        &&& forall|k: int|
            self.next <= k < items.len() ==> #[trigger] items[k] == self.started@[k]
        &&& self.report.removed + self.report.preserved + self.absent@ == applied_count(
            self.started@.take(self.next as int),
        )
        &&& self.report.removed + self.report.preserved + self.absent@ <= self.next
        &&& self.report.warnings@.len() == self.report.preserved + self.absent@
        &&& self.report.preserved == applied_count(items.take(self.next as int))
    }

    fn new(manifest: MigrationManifest) -> (r: Self)
        ensures
            r.spec_manifest() == manifest@,
            r.spec_report() == no_rollback(false),
            r.done() == 0,
            r.started() == manifest@.items,
            r.absent() == 0,
    {
        let ghost started = items_view(manifest.items@);
        assert(started.take(0) =~= seq![]);
        let report = empty_rollback(false);
        assert(texts(report.warnings@).len() == report.warnings@.len());
        RollbackRun { manifest, report, next: 0, started: Ghost(started), absent: Ghost(0) }
    }

    pub fn manifest(&self) -> (r: &MigrationManifest)
        ensures
            r@ == self.spec_manifest(),
    {
        &self.manifest
    }

    /// The report so far: every item that had been carried out counts once, as removed, as
    /// preserved or as absent, and each that was not removed has a warning.
    pub fn report(&self) -> (r: &RollbackReport)
        ensures
            r@ == self.spec_report(),
            r.removed + r.preserved + self.absent() == applied_count(
                self.started().take(self.done() as int),
            ),
            r.warnings@.len() == r.preserved + self.absent(),
    {
        proof {
            use_type_invariant(self);
        }
        &self.report
    }

    /// The item that comes next, if any is left.
    pub fn pending(&self) -> (r: Option<&MigrationItem>)
        ensures
            match r {
                Some(item) => self.done() < self.spec_manifest().items.len() && item@
                    == self.spec_manifest().items[self.done() as int],
                None => self.done() == self.spec_manifest().items.len(),
            },
    {
        proof {
            use_type_invariant(self);
        }
        if self.next < self.manifest.items.len() {
            Some(&self.manifest.items[self.next])
        } else {
            None
        }
    }

    /// Decides on the target of the next item from what is found there.
    pub fn settle(
        &mut self,
        migration: &SessionMigration,
        resolution: &Resolution,
        content: &FileContent,
    ) -> (r: Result<RollbackAction, MigrationError>)
        requires
            old(self).done() < old(self).spec_manifest().items.len(),
        ensures
            ({
                let before = old(self).spec_manifest();
                let at = old(self).done() as int;
                let item = before.items[at];
                match found_target(*migration, item, *resolution, *content) {
                    Err(error) => r is Err && r->Err_0@ == error && *final(self) == *old(self),
                    Ok(found) => {
                        &&& r is Ok
                        &&& r->Ok_0 == undo_action(item, found)
                        &&& final(self).done() == at + 1
                        &&& final(self).started() == old(self).started()
                        &&& final(self).absent() == old(self).absent() + if item.state is Applied
                            && found is None {
                            1nat
                        } else {
                            0nat
                        }
                        &&& final(self).spec_manifest() == (ManifestView {
                            items: before.items.update(at, undone(item, found)),
                            ..before
                        })
                        &&& final(self).spec_report() == undo_reported(
                            old(self).spec_report(),
                            item,
                            found,
                        )
                    },
                }
            }),
    {
        proof {
            use_type_invariant(&*self);
        }
        let at: usize = self.next;
        let count: usize = self.manifest.items.len();
        assert(at < count);
        let mut item = self.manifest.items[at].duplicate();
        let ghost first = item@;
        let mut removed: usize = 0;
        let mut preserved: usize = 0;
        let ghost mut absent: nat = 0;
        let mut warning: Option<String> = None;
        let mut action = RollbackAction::Leave;
        if let MigrationItemState::Applied { target_bytes, target_fingerprint } = &item.state {
            let target = migration.target_path(&item, resolution)?;
            match read_session_content(target.as_str(), content) {
                Err(error) => return Err(MigrationError::Storage(error)),
                Ok(None) => {
                    proof {
                        absent = 1;
                    }
                    warning = Some(text2("target is already absent: ", item.target.as_str()));
                    item.state = MigrationItemState::RolledBack;
                },
                Ok(Some(bytes)) => {
                    if bytes.len() as u64 == *target_bytes && stable_fingerprint(bytes)
                        == *target_fingerprint {
                        removed = 1;
                        action = RollbackAction::Remove;
                        item.state = MigrationItemState::RolledBack;
                    } else {
                        preserved = 1;
                        warning = Some(
                            text2(
                                "target changed after migration; preserved: ",
                                item.target.as_str(),
                            ),
                        );
                    }
                },
            }
        }
        let ghost items = self.manifest.items@;
        let blank = MigrationManifest {
            schema_version: 0,
            migration_id: String::new(),
            state: MigrationState::Applying,
            created_at_millis: 0,
            updated_at_millis: 0,
            workspace_root: String::new(),
            legacy_user_home: None,
            next_user_home: None,
            items: Vec::new(),
        };
        let mut next = RollbackRun::new(blank);
        std::mem::swap(self, &mut next);
        let RollbackRun {
            manifest: mut manifest,
            report: mut report,
            next: _,
            started,
            absent: absent_before,
        } = next;
        report.removed += removed;
        report.preserved += preserved;
        if let Some(text) = warning {
            let ghost before = report.warnings@;
            report.warnings.push(text);
            assert(texts(report.warnings@) =~= texts(before).push(text@));
        }
        manifest.items.set(at, item);
        proof {
            let after = items_view(manifest.items@);
            assert(after =~= items_view(items).update(at as int, item@));
            assert(items_view(items)[at as int] == started@[at as int]);
            assert(after.take(at as int) =~= items_view(items).take(at as int));
            lemma_counts_of_one_more(after, at as int);
            lemma_counts_of_one_more(started@, at as int);
        }
        *self =
        RollbackRun {
            manifest,
            report,
            next: at + 1,
            started,
            absent: Ghost(absent_before@ + absent),
        };
        Ok(action)
    }

    /// The manifest and the report of a migration that is undone. Every item that had been
    /// carried out was removed, preserved or absent already; those preserved are the ones that
    /// the manifest still has as carried out.
    pub fn finish(self, now: u128) -> (r: (MigrationManifest, RollbackReport))
        requires
            self.done() == self.spec_manifest().items.len(),
        ensures
            r.0@ == (ManifestView {
                state: MigrationState::RolledBack,
                updated_at_millis: now,
                ..self.spec_manifest()
            }),
            r.1@ == self.spec_report(),
            r.1.removed + r.1.preserved + self.absent() == applied_count(self.started()),
            r.1.warnings@.len() == r.1.preserved + self.absent(),
            r.1.preserved == applied_count(r.0@.items),
    {
        proof {
            use_type_invariant(&self);
            assert(self.started@.take(self.next as int) =~= self.started@);
            let items = items_view(self.manifest.items@);
            assert(items.take(self.next as int) =~= items);
        }
        let mut manifest = self.manifest;
        manifest.state = MigrationState::RolledBack;
        manifest.updated_at_millis = now;
        (manifest, self.report)
    }
}

/// How undoing starts: there is nothing left to undo, or a run.
pub enum RollbackStart {
    AlreadyRolledBack(RollbackReport),
    Run(RollbackRun),
}

/// Why a manifest is not the one that is to be undone.
pub open spec fn manifest_problem(
    migration: SessionMigration,
    id: Seq<char>,
    manifest: ManifestView,
) -> Option<MigrationErrorView> {
    if manifest.migration_id != id {
        Some(MigrationErrorView::InvalidManifest("manifest id does not match its filename"@))
    } else if (manifest.workspace_root.len() > 0 && manifest.workspace_root != migration.root())
        || manifest.legacy_user_home != migration.legacy() || manifest.next_user_home
        != migration.next() {
        Some(
            MigrationErrorView::InvalidManifest(
                "manifest belongs to a different workspace or user-home configuration"@,
            ),
        )
    } else {
        None
    }
}

/// What is reported at once of a manifest with nothing left to undo.
pub open spec fn reported_at_once(manifest: ManifestView) -> Option<RollbackView> {
    if manifest.state is RolledBack {
        Some(no_rollback(true))
    } else {
        None
    }
}

/// What undoing leaves as the manifest is accepted once more, and nothing is left to undo:
/// whatever the first run found, the second removes and preserves nothing.
pub proof fn lemma_second_rollback_has_nothing_to_do(
    migration: SessionMigration,
    id: Seq<char>,
    manifest: ManifestView,
    items: Seq<ItemView>,
    now: u128,
)
    requires
        manifest_problem(migration, id, manifest) is None,
    ensures
        ({
            let after = ManifestView {
                state: MigrationState::RolledBack,
                updated_at_millis: now,
                items,
                ..manifest
            };
            &&& manifest_problem(migration, id, after) is None
            &&& reported_at_once(after) matches Some(report) && report.already_rolled_back
                && report.removed == 0 && report.preserved == 0
        }),
{
}

impl SessionMigration {
    /// Where the manifest of a migration is kept, for a caller with leave to write.
    pub fn manifest_path(&self, id: &str, resolution: &Resolution) -> (r: Result<
        String,
        MigrationError,
    >)
        ensures
            if !self.writes() {
                r is Err && r->Err_0@ == MigrationErrorView::NextWriteNotGranted
            } else if !is_import_id(id@) {
                r is Err && r->Err_0@ == MigrationErrorView::InvalidPlan(
                    "migration id contains unsupported characters"@,
                )
            } else if resolution.escapes() {
                r is Err && r->Err_0@ == escape_error(joined_of(self.root(), manifest_of(id@)))
            } else {
                r is Ok && r->Ok_0@ == joined_of(self.root(), manifest_of(id@))
            },
    {
        self.require_write()?;
        validate_migration_id(id)?;
        let path = joined(self.workspace_root(), manifest_name(id).as_str());
        ensure_contained_path(path.as_str(), resolution)?;
        Ok(path)
    }

    /// Starts to undo a migration by its manifest.
    pub fn rollback(&self, id: &str, manifest: MigrationManifest) -> (r: Result<
        RollbackStart,
        MigrationError,
    >)
        ensures
            match manifest_problem(*self, id@, manifest@) {
                Some(error) => r is Err && r->Err_0@ == error,
                None => r is Ok && match r->Ok_0 {
                    RollbackStart::AlreadyRolledBack(report) => reported_at_once(manifest@)
                        == Some(report@),
                    RollbackStart::Run(run) => {
                        &&& reported_at_once(manifest@) is None
                        &&& run.spec_manifest() == manifest@
                        &&& run.spec_report() == no_rollback(false)
                        &&& run.started() == manifest@.items
                        &&& run.absent() == 0
                        &&& run.done() == 0
                    },
                },
            },
    {
        if !str_eq(manifest.migration_id.as_str(), id) {
            return Err(invalid_manifest("manifest id does not match its filename"));
        }
        if (!manifest.workspace_root.as_str().is_empty() && !str_eq(
            manifest.workspace_root.as_str(),
            self.workspace_root(),
        )) || !same_opt(borrow_opt(&manifest.legacy_user_home), self.legacy_home()) || !same_opt(
            borrow_opt(&manifest.next_user_home),
            self.next_home(),
        ) {
            return Err(
                invalid_manifest(
                    "manifest belongs to a different workspace or user-home configuration",
                ),
            );
        }
        if manifest.state == MigrationState::RolledBack {
            return Ok(RollbackStart::AlreadyRolledBack(empty_rollback(true)));
        }
        Ok(RollbackStart::Run(RollbackRun::new(manifest)))
    }
}

} // verus!
