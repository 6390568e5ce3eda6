//! A migration bound to one workspace: what it plans, and which plans it carries out.
use vstd::prelude::*;
use vstd::string::StringExecFns;

use crate::grants::WorkspaceGrant;
use crate::paths::{joined, joined_of};
use crate::storage::migration::model::{
    capabilities_view, capability_from_item_range, capability_from_items, capability_of,
    derived_relationship_capability, ensure_contained_path, escape_error, has_unsupported_memory,
    holds_unsupported_memory, invalid_plan, items_of, items_view, relationship_capability, 
    CapabilityView, ItemView, MigrationCapability, MigrationError, MigrationErrorView,
    MigrationItem, Resolution, MIGRATION_SCHEMA_VERSION,
};
use crate::storage::migration::plan::{
    after_entries, after_home, after_workspace_memory, gather_entries, plan_user_home,
    plan_workspace_memory, read_session_content, session_content, session_source, session_target,
    target_of, FileContent, Gathered, GatheredView, PlanProbe,
};
use crate::storage::record::{copy_opt, opt_str, opt_text, own};
use crate::storage::store::{legacy_content, read_legacy_record, SessionStore, StorageErrorView};
use crate::text::{text2, texts};

verus! {

// ---------------------------------------------------------------------------
// Plans
// ---------------------------------------------------------------------------
/// What a migration is going to do.
#[derive(Clone, Debug, PartialEq, Eq)]
pub struct MigrationPlan {
    pub schema_version: u32,
    pub migration_id: String,
    pub source_root: String,
    pub target_root: String,
    pub manifest_path: String,
    pub workspace_root: String,
    pub legacy_user_home: Option<String>,
    pub next_user_home: Option<String>,
    pub capabilities: Vec<MigrationCapability>,
    pub items: Vec<MigrationItem>,
    pub warnings: Vec<String>,
}

pub struct PlanView {
    pub schema_version: u32,
    pub migration_id: Seq<char>,
    pub source_root: Seq<char>,
    pub target_root: Seq<char>,
    pub manifest_path: Seq<char>,
    pub workspace_root: Seq<char>,
    pub legacy_user_home: Option<Seq<char>>,
    pub next_user_home: Option<Seq<char>>,
    pub capabilities: Seq<CapabilityView>,
    pub items: Seq<ItemView>,
    pub warnings: Seq<Seq<char>>,
}

impl View for MigrationPlan {
    type V = PlanView;

    open spec fn view(&self) -> PlanView {
        PlanView {
            schema_version: self.schema_version,
            migration_id: self.migration_id@,
            source_root: self.source_root@,
            target_root: self.target_root@,
            manifest_path: self.manifest_path@,
            workspace_root: self.workspace_root@,
            legacy_user_home: opt_text(self.legacy_user_home),
            next_user_home: opt_text(self.next_user_home),
            capabilities: capabilities_view(self.capabilities@),
            items: items_view(self.items@),
            warnings: texts(self.warnings@),
        }
    }
}

/// How many items are going to be copied.
pub open spec fn count_ready(items: Seq<ItemView>) -> nat
    decreases items.len(),
{
    if items.len() == 0 {
        0
    } else if items.last().state is Ready {
        count_ready(items.drop_last()) + 1
    } else {
        count_ready(items.drop_last())
    }
}

pub(crate) fn borrow_opt(value: &Option<String>) -> (r: Option<&str>)
    ensures
        opt_str(r) == opt_text(*value),
{
    match value {
        Some(text) => Some(text.as_str()),
        None => None,
    }
}

impl MigrationPlan {
    pub fn migration_id(&self) -> (r: &str)
        ensures
            r@ == self@.migration_id,
    {
        self.migration_id.as_str()
    }

    pub fn source_root(&self) -> (r: &str)
        ensures
            r@ == self@.source_root,
    {
        self.source_root.as_str()
    }

    pub fn target_root(&self) -> (r: &str)
        ensures
            r@ == self@.target_root,
    {
        self.target_root.as_str()
    }

    pub fn manifest_path(&self) -> (r: &str)
        ensures
            r@ == self@.manifest_path,
    {
        self.manifest_path.as_str()
    }

    pub fn items(&self) -> (r: &Vec<MigrationItem>)
        ensures
            items_view(r@) == self@.items,
    {
        &self.items
    }

    pub fn warnings(&self) -> (r: &Vec<String>)
        ensures
            texts(r@) == self@.warnings,
    {
        &self.warnings
    }

    pub fn legacy_user_home(&self) -> (r: Option<&str>)
        ensures
            opt_str(r) == self@.legacy_user_home,
    {
        borrow_opt(&self.legacy_user_home)
    }

    pub fn next_user_home(&self) -> (r: Option<&str>)
        ensures
            opt_str(r) == self@.next_user_home,
    {
        borrow_opt(&self.next_user_home)
    }

    pub fn capabilities(&self) -> (r: &Vec<MigrationCapability>)
        ensures
            capabilities_view(r@) == self@.capabilities,
    {
        &self.capabilities
    }

    pub fn ready_count(&self) -> (r: usize)
        ensures
            r == count_ready(self@.items),
    {
        let n: usize = self.items.len();
        let mut count: usize = 0;
        let mut i: usize = 0;
        while i < n
            invariant
                n == self.items@.len(),
                i <= n,
                count <= i,
                count == count_ready(items_view(self.items@).take(i as int)),
            decreases n - i,
        {
            proof {
                let upto = items_view(self.items@).take(i + 1);
                assert(upto.drop_last() =~= items_view(self.items@).take(i as int));
                assert(upto.last() == self.items@[i as int]@);
            }
            if self.items[i].is_ready() {
                count += 1;
            }
            i += 1;
        }
        assert(items_view(self.items@).take(n as int) =~= items_view(self.items@));
        count
    }
}

// ---------------------------------------------------------------------------
// The facade
// ---------------------------------------------------------------------------
/// A migration that a grant allows in one workspace.
#[derive(Clone, Debug)]
pub struct SessionMigration {
    workspace_root: String,
    legacy_home: Option<String>,
    next_home: Option<String>,
    legacy_read: bool,
    next_write: bool,
}

/// What the file system resolves the directories of a workspace to that a migration uses.
#[derive(Clone, Debug)]
pub struct WorkspaceRoots {
    pub legacy: Resolution,
    pub next: Resolution,
    pub manifests: Resolution,
}

/// The user homes that the environment and the grant name.
#[derive(Clone, Debug)]
pub struct HomeEnvironment {
    pub migration_legacy_home: Option<String>,
    pub home: Option<String>,
    pub state_root: Option<String>,
    pub next_home: Option<String>,
}

/// A variable that is set to something.
pub open spec fn named(value: Option<Seq<char>>) -> Option<Seq<char>> {
    match value {
        Some(text) => if text.len() > 0 {
            Some(text)
        } else {
            None
        },
        None => None,
    }
}

fn optional_home(value: &Option<String>) -> (r: Option<&str>)
    ensures
        opt_str(r) == named(opt_text(*value)),
{
    match value {
        Some(text) => {
            if text.as_str().is_empty() {
                None
            } else {
                Some(text.as_str())
            }
        },
        None => None,
    }
}

impl HomeEnvironment {
    /// The legacy home: the one named for migrations, or else the general one.
    pub open spec fn legacy(self) -> Option<Seq<char>> {
        match named(opt_text(self.migration_legacy_home)) {
            Some(home) => Some(home),
            None => named(opt_text(self.home)),
        }
    }

    /// The current home: the one of the grant, or else the one of the environment.
    pub open spec fn next(self) -> Option<Seq<char>> {
        match opt_text(self.state_root) {
            Some(home) => Some(home),
            None => named(opt_text(self.next_home)),
        }
    }
}

/// The paths of a migration, below the workspace.
pub open spec fn legacy_sessions() -> Seq<char> {
    ".yunxi/sessions"@
}

pub open spec fn next_sessions() -> Seq<char> {
    ".yunxi-next/sessions"@
}

pub open spec fn manifest_of(id: Seq<char>) -> Seq<char> {
    ".yunxi-next/migrations/sessions/"@ + id + ".json"@
}

pub(crate) fn manifest_name(id: &str) -> (r: String)
    ensures
        r@ == manifest_of(id@),
{
    let mut out = ".yunxi-next/migrations/sessions/".to_owned();
    out.append(id);
    out.append(".json");
    out
}

/// Why a migration cannot be had.
pub open spec fn facade_problem(
    root: Seq<char>,
    is_directory: bool,
    roots: WorkspaceRoots,
    legacy_home: Option<Seq<char>>,
    next_home: Option<Seq<char>>,
) -> Option<MigrationErrorView> {
    if !is_directory {
        Some(MigrationErrorView::Storage(StorageErrorView::NotDirectory(root)))
    } else if roots.legacy.escapes() {
        Some(escape_error(joined_of(root, legacy_sessions())))
    } else if roots.next.escapes() {
        Some(escape_error(joined_of(root, next_sessions())))
    } else if roots.manifests.escapes() {
        Some(escape_error(joined_of(root, ".yunxi-next/migrations/sessions"@)))
    } else if legacy_home == Some(Seq::<char>::empty()) || next_home == Some(
        Seq::<char>::empty(),
    ) {
        Some(MigrationErrorView::InvalidPlan("user home path must not be empty"@))
    } else {
        None
    }
}

fn ensure_home_path(path: Option<&str>) -> (r: Result<(), MigrationError>)
    ensures
        r is Err == (opt_str(path) == Some(Seq::<char>::empty())),
        r is Err ==> r->Err_0@ == MigrationErrorView::InvalidPlan(
            "user home path must not be empty"@,
        ),
{
    if let Some(text) = path {
        if text.is_empty() {
            assert(text@ =~= Seq::<char>::empty());
            return Err(invalid_plan("user home path must not be empty"));
        }
    }
    Ok(())
}

impl SessionMigration {
    pub closed spec fn root(self) -> Seq<char> {
        self.workspace_root@
    }

    pub closed spec fn legacy(self) -> Option<Seq<char>> {
        opt_text(self.legacy_home)
    }

    pub closed spec fn next(self) -> Option<Seq<char>> {
        opt_text(self.next_home)
    }

    pub closed spec fn reads(self) -> bool {
        self.legacy_read
    }

    pub closed spec fn writes(self) -> bool {
        self.next_write
    }

    /// A migration with the user homes that the environment names.
    pub fn from_grant(
        grant: &WorkspaceGrant,
        root: &str,
        is_directory: bool,
        roots: &WorkspaceRoots,
        environment: &HomeEnvironment,
    ) -> (r: Result<Self, MigrationError>)
        ensures
            match facade_problem(
                root@,
                is_directory,
                *roots,
                environment.legacy(),
                environment.next(),
            ) {
                Some(error) => r is Err && r->Err_0@ == error,
                None => {
                    &&& r is Ok
                    &&& r->Ok_0.root() == root@
                    &&& r->Ok_0.legacy() == environment.legacy()
                    &&& r->Ok_0.next() == environment.next()
                    &&& r->Ok_0.reads() == grant.reads()
                    &&& r->Ok_0.writes() == grant.writes()
                },
            },
    {
        let legacy_home = match optional_home(&environment.migration_legacy_home) {
            Some(home) => Some(home),
            None => optional_home(&environment.home),
        };
        let next_home = match &environment.state_root {
            Some(home) => Some(home.as_str()),
            None => optional_home(&environment.next_home),
        };
        Self::from_grant_with_homes(grant, root, is_directory, roots, legacy_home, next_home)
    }

    /// A migration of the workspace that was resolved to `root`, with these user homes. With
    /// no user home it stays in the workspace.
    pub fn from_grant_with_homes(
        grant: &WorkspaceGrant,
        root: &str,
        is_directory: bool,
        roots: &WorkspaceRoots,
        legacy_home: Option<&str>,
        next_home: Option<&str>,
    ) -> (r: Result<Self, MigrationError>)
        ensures
            match facade_problem(
                root@,
                is_directory,
                *roots,
                opt_str(legacy_home),
                opt_str(next_home),
            ) {
                Some(error) => r is Err && r->Err_0@ == error,
                None => {
                    &&& r is Ok
                    &&& r->Ok_0.root() == root@
                    &&& r->Ok_0.legacy() == opt_str(legacy_home)
                    &&& r->Ok_0.next() == opt_str(next_home)
                    &&& r->Ok_0.reads() == grant.reads()
                    &&& r->Ok_0.writes() == grant.writes()
                },
            },
    {
        match SessionStore::from_grant(grant, root, is_directory) {
            Ok(_) => {},
            Err(error) => return Err(MigrationError::Storage(error)),
        }
        ensure_contained_path(joined(root, ".yunxi/sessions").as_str(), &roots.legacy)?;
        ensure_contained_path(joined(root, ".yunxi-next/sessions").as_str(), &roots.next)?;
        ensure_contained_path(
            joined(root, ".yunxi-next/migrations/sessions").as_str(),
            &roots.manifests,
        )?;
        ensure_home_path(legacy_home)?;
        ensure_home_path(next_home)?;
        Ok(
            SessionMigration {
                workspace_root: root.to_owned(),
                legacy_home: own(legacy_home),
                next_home: own(next_home),
                legacy_read: grant.allows_legacy_read(),
                next_write: grant.allows_next_write(),
            },
        )
    }

    pub fn workspace_root(&self) -> (r: &str)
        ensures
            r@ == self.root(),
    {
        self.workspace_root.as_str()
    }

    pub fn legacy_home(&self) -> (r: Option<&str>)
        ensures
            opt_str(r) == self.legacy(),
    {
        borrow_opt(&self.legacy_home)
    }

    pub fn next_home(&self) -> (r: Option<&str>)
        ensures
            opt_str(r) == self.next(),
    {
        borrow_opt(&self.next_home)
    }

    /// Where the legacy sessions lie, where the current ones go, and where manifests are kept.
    pub fn directories(&self) -> (r: (String, String, String))
        ensures
            r.0@ == joined_of(self.root(), legacy_sessions()),
            r.1@ == joined_of(self.root(), next_sessions()),
            r.2@ == joined_of(self.root(), ".yunxi-next/migrations/sessions"@),
    {
        let root = self.workspace_root.as_str();
        (
            joined(root, ".yunxi/sessions"),
            joined(root, ".yunxi-next/sessions"),
            joined(root, ".yunxi-next/migrations/sessions"),
        )
    }

    /// Nothing may be written without leave.
    pub fn require_write(&self) -> (r: Result<(), MigrationError>)
        ensures
            r is Ok == self.writes(),
            r is Err ==> r->Err_0@ == MigrationErrorView::NextWriteNotGranted,
    {
        if self.next_write {
            Ok(())
        } else {
            Err(MigrationError::NextWriteNotGranted)
        }
    }
}

// ---------------------------------------------------------------------------
// Planning
// ---------------------------------------------------------------------------
/// What is said of the workspace's own state: its sessions, and its memory where it has any.
pub open spec fn workspace_capabilities(sessions: GatheredView, done: GatheredView) -> Seq<
    CapabilityView,
> {
    let from = sessions.items.len() as int;
    let memory = done.items.skip(from);
    let first = seq![
        capability_of("sessions"@, "workspace"@, items_of(done.items, "sessions"@)),
    ];
    if memory.len() == 0 {
        first
    } else {
        first.push(capability_of("memory"@, "workspace"@, memory)).push(
            relationship_capability(
                "workspace"@,
                done.relationships,
                true,
                holds_unsupported_memory(memory),
            ),
        )
    }
}

/// The plan that the file system calls for.
pub open spec fn planned(migration: SessionMigration, id: Seq<char>, probe: PlanProbe) -> Result<
    PlanView,
    MigrationErrorView,
> {
    let root = migration.root();
    let nothing = GatheredView {
        items: Seq::empty(),
        warnings: Seq::empty(),
        relationships: 0,
    };
    if !migration.reads() {
        Err(MigrationErrorView::LegacyReadNotGranted)
    } else if probe.legacy_root.escapes() {
        Err(escape_error(joined_of(root, legacy_sessions())))
    } else if probe.next_root.escapes() {
        Err(escape_error(joined_of(root, next_sessions())))
    } else if probe.manifest.escapes() {
        Err(escape_error(joined_of(root, manifest_of(id))))
    } else {
        match probe.entries {
            Err(message) => Err(
                MigrationErrorView::Io {
                    path: joined_of(root, legacy_sessions()),
                    message: message@,
                },
            ),
            Ok(entries) => match after_entries(root, entries@, 0, nothing) {
                Err(error) => Err(error),
                Ok(sessions) => match after_workspace_memory(root, sessions, probe) {
                    Err(error) => Err(error),
                    Ok(workspace) => match after_home(
                        GatheredView { relationships: 0, ..workspace },
                        migration.legacy(),
                        migration.next(),
                        probe.home,
                    ) {
                        Err(error) => Err(error),
                        Ok(done) => Ok(
                            PlanView {
                                schema_version: MIGRATION_SCHEMA_VERSION,
                                migration_id: id,
                                source_root: legacy_sessions(),
                                target_root: next_sessions(),
                                manifest_path: manifest_of(id),
                                workspace_root: root,
                                legacy_user_home: migration.legacy(),
                                next_user_home: migration.next(),
                                capabilities: workspace_capabilities(sessions, workspace)
                                    + done.1,
                                items: done.0.items,
                                warnings: done.0.warnings,
                            },
                        ),
                    },
                },
            },
        }
    }
}

impl SessionMigration {
    /// Where a file of the legacy sessions directory would be copied to, if it holds a
    /// session.
    pub fn session_destination(&self, name: &str, content: &FileContent) -> (r: Option<String>)
        ensures
            match session_content(joined_of(self.root(), session_source(name@)), *content) {
                Ok(Some(bytes)) => match legacy_content(
                    joined_of(self.root(), session_source(name@)),
                    bytes,
                ) {
                    Ok(session) => r is Some && r->0@ == joined_of(
                        self.root(),
                        session_target(session.id),
                    ),
                    Err(_) => r is None,
                },
                _ => r is None,
            },
    {
        let root = self.workspace_root.as_str();
        let path = joined(root, text2(".yunxi/sessions/", name).as_str());
        match read_session_content(path.as_str(), content) {
            Ok(Some(bytes)) => match read_legacy_record(path.as_str(), bytes) {
                Ok(session) => Some(joined(root, target_of(session.id()).as_str())),
                Err(_) => None,
            },
            _ => None,
        }
    }

    /// Plans a migration; nothing is written.
    pub fn plan(&self, id: &str, probe: &PlanProbe) -> (r: Result<MigrationPlan, MigrationError>)
        requires
            probe.wf(),
        ensures
            match planned(*self, id@, *probe) {
                Ok(plan) => r is Ok && r->Ok_0@ == plan,
                Err(error) => r is Err && r->Err_0@ == error,
            },
    {
        if !self.legacy_read {
            return Err(MigrationError::LegacyReadNotGranted);
        }
        let root = self.workspace_root.as_str();
        let manifest_path = manifest_name(id);
        let legacy_root = joined(root, ".yunxi/sessions");
        ensure_contained_path(legacy_root.as_str(), &probe.legacy_root)?;
        ensure_contained_path(joined(root, ".yunxi-next/sessions").as_str(), &probe.next_root)?;
        ensure_contained_path(joined(root, manifest_path.as_str()).as_str(), &probe.manifest)?;
        let entries = match &probe.entries {
            Ok(entries) => entries,
            Err(message) => {
                return Err(MigrationError::Io { path: legacy_root, message: message.clone() });
            },
        };
        let mut gathered = Gathered { items: Vec::new(), warnings: Vec::new(), relationships: 0 };
        proof {
            assert(gathered@.items =~= Seq::<ItemView>::empty());
            assert(gathered@.warnings =~= Seq::<Seq<char>>::empty());
        }
        gather_entries(&mut gathered, root, entries)?;
        let memory_before: usize = gathered.items.len();
        let ghost sessions = gathered@;
        plan_workspace_memory(&mut gathered, root, probe)?;
        let ghost workspace = gathered@;
        let mut capabilities: Vec<MigrationCapability> = Vec::new();
        capabilities.push(capability_from_items("sessions", "workspace", &gathered.items));
        if gathered.items.len() > memory_before {
            capabilities.push(
                capability_from_item_range("memory", "workspace", &gathered.items, memory_before),
            );
            capabilities.push(
                derived_relationship_capability(
                    "workspace",
                    gathered.relationships,
                    true,
                    has_unsupported_memory(&gathered.items, memory_before),
                ),
            );
        }
        assert(capabilities_view(capabilities@) =~= workspace_capabilities(sessions, workspace));
        gathered.relationships = 0;
        let home = plan_user_home(&mut gathered, &self.legacy_home, &self.next_home, &probe.home)?;
        let ghost before = capabilities@;
        let ghost added = home@;
        let mut rest = home;
        capabilities.append(&mut rest);
        assert(capabilities_view(capabilities@) =~= capabilities_view(before) + capabilities_view(
            added,
        ));
        Ok(
            MigrationPlan {
                schema_version: MIGRATION_SCHEMA_VERSION,
                migration_id: id.to_owned(),
                source_root: ".yunxi/sessions".to_owned(),
                target_root: ".yunxi-next/sessions".to_owned(),
                manifest_path,
                workspace_root: root.to_owned(),
                legacy_user_home: copy_opt(&self.legacy_home),
                next_user_home: copy_opt(&self.next_home),
                capabilities,
                items: gathered.items,
                warnings: gathered.warnings,
            },
        )
    }
}

} // verus!
