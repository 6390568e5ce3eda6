//! Which plans are carried out.
use vstd::prelude::*;

use crate::paths::{file_name, file_name_of, joined, joined_of};
use crate::storage::event_import::is_import_id;
use crate::storage::listing::{ends_in, name_ends_in};
use crate::storage::migration::facade::{
    legacy_sessions, next_sessions, MigrationPlan, PlanView, SessionMigration,
};
use crate::storage::migration::model::{
    ensure_contained_path, escape_error, goes_down, invalid_plan, path_goes_down, 
    validate_migration_id, validate_relative_path, ItemView, MigrationError, MigrationErrorView,
    MigrationItem, MigrationItemState, MigrationScope, Resolution, MIGRATION_SCHEMA_VERSION,
};
use crate::storage::record::{id_problem, opt_str, validate_session_id};
use crate::text::{decimal, decimal_of, str_eq, text2};

verus! {

// ---------------------------------------------------------------------------
// Plans that are carried out
// ---------------------------------------------------------------------------
/// What the file system resolves the two paths of an item to. Both lie below the workspace
/// for an item that is invalid.
#[derive(Clone, Debug)]
pub struct ItemProbe {
    pub source: Resolution,
    pub target: Resolution,
}

/// What the file system resolves the paths of a plan to.
#[derive(Clone, Debug)]
pub struct PathsProbe {
    pub legacy_root: Resolution,
    pub next_root: Resolution,
    pub items: Vec<ItemProbe>,
}

/// The directory that an item's source lies below.
pub open spec fn source_root(migration: SessionMigration, scope: MigrationScope) -> Option<
    Seq<char>,
> {
    match scope {
        MigrationScope::Workspace => Some(migration.root()),
        MigrationScope::LegacyUserHome => migration.legacy(),
    }
}

/// The directory that an item's target lies below.
pub open spec fn target_root(migration: SessionMigration, scope: MigrationScope) -> Option<
    Seq<char>,
> {
    match scope {
        MigrationScope::Workspace => Some(migration.root()),
        MigrationScope::LegacyUserHome => migration.next(),
    }
}

/// Where a relative path leads, if it may be followed.
pub open spec fn place(
    root: Option<Seq<char>>,
    missing: Seq<char>,
    relative: Seq<char>,
    resolution: Resolution,
) -> Result<Seq<char>, MigrationErrorView> {
    if relative.len() == 0 || !goes_down(relative) {
        Err(
            MigrationErrorView::InvalidPlan(
                "migration path must be a non-empty relative path: "@ + relative,
            ),
        )
    } else {
        match root {
            None => Err(MigrationErrorView::InvalidPlan(missing)),
            Some(root) => if resolution.escapes() {
                Err(escape_error(joined_of(root, relative)))
            } else {
                Ok(joined_of(root, relative))
            },
        }
    }
}

fn find_place(root: Option<&str>, missing: &str, relative: &str, resolution: &Resolution) -> (r:
    Result<String, MigrationError>)
    ensures
        match place(opt_str(root), missing@, relative@, *resolution) {
            Ok(path) => r is Ok && r->Ok_0@ == path,
            Err(error) => r is Err && r->Err_0@ == error,
        },
{
    validate_relative_path(relative)?;
    let root = match root {
        Some(root) => root,
        None => return Err(invalid_plan(missing)),
    };
    let path = joined(root, relative);
    ensure_contained_path(path.as_str(), resolution)?;
    Ok(path)
}

/// Where an item's source lies.
pub open spec fn source_place(
    migration: SessionMigration,
    item: ItemView,
    resolution: Resolution,
) -> Result<Seq<char>, MigrationErrorView> {
    place(
        source_root(migration, item.scope),
        "legacy user home was not discovered for this migration plan"@,
        item.source,
        resolution,
    )
}

/// Where an item's target lies.
pub open spec fn target_place(
    migration: SessionMigration,
    item: ItemView,
    resolution: Resolution,
) -> Result<Seq<char>, MigrationErrorView> {
    place(
        target_root(migration, item.scope),
        "Next user home was not configured for this migration plan"@,
        item.target,
        resolution,
    )
}

/// The name of the file that a path leads to has the extension of JSON or of JSON lines.
pub open spec fn is_json_path(path: Seq<char>) -> bool {
    match file_name_of(path) {
        Some(name) => ends_in(name, ".json"@, true) || ends_in(name, ".jsonl"@, true),
        None => false,
    }
}

fn names_json(path: &str) -> (r: bool)
    ensures
        r == is_json_path(path@),
{
    match file_name(path) {
        Some(name) => name_ends_in(name.as_str(), ".json", true) || name_ends_in(
            name.as_str(),
            ".jsonl",
            true,
        ),
        None => false,
    }
}

/// Why an item is not carried out.
pub open spec fn item_problem(migration: SessionMigration, item: ItemView, probe: ItemProbe) -> Option<
    MigrationErrorView,
> {
    if item.state is Invalid {
        if !goes_down(item.source) {
            Some(
                MigrationErrorView::InvalidPlan(
                    "path must be workspace-relative: "@ + item.source,
                ),
            )
        } else if probe.source.escapes() {
            Some(escape_error(joined_of(migration.root(), item.source)))
        } else {
            None
        }
    } else if item.capability == "sessions"@ && id_problem(item.id) is Some {
        Some(MigrationErrorView::InvalidPlan(id_problem(item.id)->0))
    } else {
        match source_place(migration, item, probe.source) {
            Err(error) => Some(error),
            Ok(source) => match target_place(migration, item, probe.target) {
                Err(error) => Some(error),
                Ok(target) => if (item.capability == "sessions"@ || item.capability == "memory"@)
                    && !(is_json_path(source) && is_json_path(target)) {
                    Some(
                        MigrationErrorView::InvalidPlan(
                            "session and memory migration item paths must be JSON or JSONL files"@,
                        ),
                    )
                } else {
                    None
                },
            },
        }
    }
}

/// Why the items from the `i`th on are not carried out.
pub open spec fn items_problem(
    migration: SessionMigration,
    items: Seq<ItemView>,
    probes: Seq<ItemProbe>,
    i: int,
) -> Option<MigrationErrorView>
    decreases items.len() - i,
{
    if i >= items.len() {
        None
    } else {
        match item_problem(migration, items[i], probes[i]) {
            Some(error) => Some(error),
            None => items_problem(migration, items, probes, i + 1),
        }
    }
}

/// Why a plan is not carried out: it is of another version or another workspace, or one of its
/// items leads where it must not.
pub open spec fn plan_problem(migration: SessionMigration, plan: PlanView, probe: PathsProbe) -> Option<
    MigrationErrorView,
> {
    let elsewhere = MigrationErrorView::InvalidPlan(
        "migration plan belongs to a different workspace"@,
    );
    if plan.schema_version != MIGRATION_SCHEMA_VERSION {
        Some(
            MigrationErrorView::InvalidPlan(
                "unsupported migration plan schema_version="@ + decimal_of(
                    plan.schema_version as nat,
                ),
            ),
        )
    } else if !is_import_id(plan.migration_id) {
        Some(
            MigrationErrorView::InvalidPlan("migration id contains unsupported characters"@),
        )
    } else if probe.legacy_root.escapes() {
        Some(escape_error(joined_of(migration.root(), legacy_sessions())))
    } else if probe.next_root.escapes() {
        Some(escape_error(joined_of(migration.root(), next_sessions())))
    } else if plan.source_root != legacy_sessions() || plan.target_root != next_sessions() {
        Some(elsewhere)
    } else if plan.workspace_root.len() > 0 && plan.workspace_root != migration.root() {
        Some(elsewhere)
    } else if plan.legacy_user_home != migration.legacy() || plan.next_user_home
        != migration.next() {
        Some(
            MigrationErrorView::InvalidPlan(
                "migration plan belongs to a different user-home configuration"@,
            ),
        )
    } else {
        items_problem(migration, plan.items, probe.items@, 0)
    }
}

pub(crate) fn same_opt(a: Option<&str>, b: Option<&str>) -> (r: bool)
    ensures
        r == (opt_str(a) == opt_str(b)),
{
    match a {
        Some(x) => match b {
            Some(y) => str_eq(x, y),
            None => false,
        },
        None => b.is_none(),
    }
}

impl SessionMigration {
    pub fn source_path(&self, item: &MigrationItem, resolution: &Resolution) -> (r: Result<
        String,
        MigrationError,
    >)
        ensures
            match source_place(*self, item@, *resolution) {
                Ok(path) => r is Ok && r->Ok_0@ == path,
                Err(error) => r is Err && r->Err_0@ == error,
            },
    {
        let root = match item.scope {
            MigrationScope::Workspace => Some(self.workspace_root()),
            MigrationScope::LegacyUserHome => self.legacy_home(),
        };
        find_place(
            root,
            "legacy user home was not discovered for this migration plan",
            item.source.as_str(),
            resolution,
        )
    }

    pub fn target_path(&self, item: &MigrationItem, resolution: &Resolution) -> (r: Result<
        String,
        MigrationError,
    >)
        ensures
            match target_place(*self, item@, *resolution) {
                Ok(path) => r is Ok && r->Ok_0@ == path,
                Err(error) => r is Err && r->Err_0@ == error,
            },
    {
        let root = match item.scope {
            MigrationScope::Workspace => Some(self.workspace_root()),
            MigrationScope::LegacyUserHome => self.next_home(),
        };
        find_place(
            root,
            "Next user home was not configured for this migration plan",
            item.target.as_str(),
            resolution,
        )
    }

    /// Where a path below the workspace leads.
    pub fn path_from_relative(&self, relative: &str, resolution: &Resolution) -> (r: Result<
        String,
        MigrationError,
    >)
        ensures
            if !goes_down(relative@) {
                r is Err && r->Err_0@ == MigrationErrorView::InvalidPlan(
                    "path must be workspace-relative: "@ + relative@,
                )
            } else if resolution.escapes() {
                r is Err && r->Err_0@ == escape_error(joined_of(self.root(), relative@))
            } else {
                r is Ok && r->Ok_0@ == joined_of(self.root(), relative@)
            },
    {
        if !path_goes_down(relative) {
            return Err(
                MigrationError::InvalidPlan(
                    text2("path must be workspace-relative: ", relative),
                ),
            );
        }
        let path = joined(self.workspace_root(), relative);
        ensure_contained_path(path.as_str(), resolution)?;
        Ok(path)
    }

    fn validate_item(&self, item: &MigrationItem, probe: &ItemProbe) -> (r: Result<
        (),
        MigrationError,
    >)
        ensures
            match item_problem(*self, item@, *probe) {
                None => r is Ok,
                Some(error) => r is Err && r->Err_0@ == error,
            },
    {
        if let MigrationItemState::Invalid { .. } = &item.state {
            self.path_from_relative(item.source.as_str(), &probe.source)?;
            return Ok(());
        }
        let session = str_eq(item.capability.as_str(), "sessions");
        if session {
            match validate_session_id(item.id.as_str()) {
                Ok(()) => {},
                Err(problem) => return Err(MigrationError::InvalidPlan(problem)),
            }
        }
        let source = self.source_path(item, &probe.source)?;
        let target = self.target_path(item, &probe.target)?;
        if (session || str_eq(item.capability.as_str(), "memory")) && !(names_json(
            source.as_str(),
        ) && names_json(target.as_str())) {
            return Err(
                invalid_plan("session and memory migration item paths must be JSON or JSONL files"),
            );
        }
        Ok(())
    }

    /// Whether a plan is one of this migration.
    pub fn validate_plan(&self, plan: &MigrationPlan, probe: &PathsProbe) -> (r: Result<
        (),
        MigrationError,
    >)
        requires
            probe.items@.len() == plan.items@.len(),
        ensures
            match plan_problem(*self, plan@, *probe) {
                None => r is Ok,
                Some(error) => r is Err && r->Err_0@ == error,
            },
    {
        if plan.schema_version != MIGRATION_SCHEMA_VERSION {
            return Err(
                MigrationError::InvalidPlan(
                    text2(
                        "unsupported migration plan schema_version=",
                        decimal(plan.schema_version as u64).as_str(),
                    ),
                ),
            );
        }
        validate_migration_id(plan.migration_id.as_str())?;
        let root = self.workspace_root();
        ensure_contained_path(joined(root, ".yunxi/sessions").as_str(), &probe.legacy_root)?;
        ensure_contained_path(joined(root, ".yunxi-next/sessions").as_str(), &probe.next_root)?;
        if !str_eq(plan.source_root.as_str(), ".yunxi/sessions") || !str_eq(
            plan.target_root.as_str(),
            ".yunxi-next/sessions",
        ) {
            return Err(invalid_plan("migration plan belongs to a different workspace"));
        }
        if !plan.workspace_root.as_str().is_empty() && !str_eq(
            plan.workspace_root.as_str(),
            root,
        ) {
            return Err(invalid_plan("migration plan belongs to a different workspace"));
        }
        if !same_opt(plan.legacy_user_home(), self.legacy_home()) || !same_opt(
            plan.next_user_home(),
            self.next_home(),
        ) {
            return Err(
                invalid_plan("migration plan belongs to a different user-home configuration"),
            );
        }
        let n: usize = plan.items.len();
        let mut i: usize = 0;
        while i < n
            invariant
                n == plan.items@.len(),
                n == probe.items@.len(),
                i <= n,
                plan_problem(*self, plan@, *probe) == items_problem(
                    *self,
                    plan@.items,
                    probe.items@,
                    i as int,
                ),
            decreases n - i,
        {
            self.validate_item(&plan.items[i], &probe.items[i])?;
            i += 1;
        }
        Ok(())
    }
}

} // verus!
