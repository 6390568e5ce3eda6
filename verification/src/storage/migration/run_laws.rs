//! Which plans are carried out, and how they are undone.
use vstd::prelude::*;

use crate::fingerprint::fnv1a;
use crate::grants::WorkspaceGrant;
use crate::paths::components_of;
use crate::storage::migration::facade::{
    count_ready, HomeEnvironment, MigrationPlan, SessionMigration, WorkspaceRoots,
};
use crate::storage::migration::model::{
    capability_of, ensure_contained_path, first_unsupported, is_unsupported, migration_id_of,
    new_migration_id, relationship_capability, validate_relative_path, ItemStateView, ItemView, MigrationError,
    Resolution,
};
use crate::storage::migration::plan::FileContent;
use crate::storage::migration::run::{
    manifest_file, reported, settled, undo_action, undo_reported, undone, ApplyRun, CopyOutcome,
    MigrationManifest, MigrationReport, ReportView, RollbackAction, RollbackReport, RollbackRun,
    RollbackStart, RollbackView,
};
use crate::storage::migration::validate::{item_problem, items_problem, ItemProbe, PathsProbe};
use crate::storage::record::id_problem;
use crate::text::{decimal_of, lemma_decimal_tells_numbers_apart, occurs_at};

verus! {

/// Links lead from the path to a place outside of the root.
pub open spec fn leads_out(resolution: Resolution) -> bool {
    resolution.root is Some && resolution.path is Some
        && !resolution.root->0.parts().is_prefix_of(resolution.path->0.parts())
}

proof fn lemma_escape(resolution: Resolution)
    ensures
        resolution.escapes() <==> leads_out(resolution),
{
    if resolution.root is Some && resolution.path is Some {
        let root = resolution.root->0;
        let path = resolution.path->0;
        let n = root.parts().len() as int;
        if n <= path.parts().len() {
            assert(path.parts().take(n) =~= path.parts().subrange(0, n));
        }
    }
}

/// A path is refused if and only if links lead out of the root.
pub proof fn lemma_paths_stay_inside(
    path: &str,
    resolution: Resolution,
    r: Result<(), MigrationError>,
)
    requires
        call_ensures(ensure_contained_path, (path, &resolution), r),
    ensures
        r is Err <==> leads_out(resolution),
{
    lemma_escape(resolution);
}

/// A path is relative if there is something of it, it does not start at a root and no part of it
/// leads to a parent.
pub proof fn lemma_relative_paths_go_down(path: &str, r: Result<(), MigrationError>)
    requires
        call_ensures(validate_relative_path, (path,), r),
    ensures
        r is Ok <==> path@.len() > 0 && path@[0] != '/' && forall|k: int|
            0 <= k < components_of(path@).len() ==> #[trigger] components_of(path@)[k] != ".."@,
{
    let names = components_of(path@);
    if !names.contains(".."@) {
        assert forall|k: int| 0 <= k < names.len() implies #[trigger] names[k] != ".."@ by {
            assert(names.contains(names[k]));
        }
    }
}

/// The path can be one of an item.
pub open spec fn is_relative(path: Seq<char>) -> bool {
    path.len() > 0 && path[0] != '/' && !components_of(path).contains(".."@)
}

proof fn lemma_items_are_checked(
    migration: SessionMigration,
    items: Seq<ItemView>,
    probes: Seq<ItemProbe>,
    i: int,
    k: int,
)
    requires
        0 <= i <= k < items.len(),
        items_problem(migration, items, probes, i) is None,
    ensures
        item_problem(migration, items[k], probes[k]) is None,
    decreases k - i,
{
    if i < k {
        lemma_items_are_checked(migration, items, probes, i + 1, k);
    }
}

/// A plan is carried out only with leave to write, only where it was made for, and only if it has
/// not been carried out before; and then only if every item that is copied stays below the
/// directories that it goes between. It is carried out from its first item, with nothing done.
pub proof fn lemma_plans_are_carried_out_where_they_belong(
    migration: SessionMigration,
    plan: MigrationPlan,
    probe: PathsProbe,
    manifest: Resolution,
    exists: bool,
    now: u128,
    run: ApplyRun,
    k: int,
)
    requires
        probe.items@.len() == plan.items@.len(),
        call_ensures(
            SessionMigration::apply,
            (&migration, &plan, &probe, &manifest, exists, now),
            Ok::<ApplyRun, MigrationError>(run),
        ),
    ensures
        migration.writes(),
        !exists,
        !leads_out(manifest) && !leads_out(probe.legacy_root) && !leads_out(probe.next_root),
        plan@.workspace_root.len() > 0 ==> plan@.workspace_root == migration.root(),
        plan@.legacy_user_home == migration.legacy(),
        plan@.next_user_home == migration.next(),
        run.done() == 0,
        run.planned() == plan@.items,
        run.spec_manifest().items == plan@.items,
        run.spec_manifest().migration_id == plan@.migration_id,
        run.spec_manifest().workspace_root == plan@.workspace_root,
        run.spec_manifest().created_at_millis == now,
        run.spec_report().copied == 0 && run.spec_report().skipped_existing == 0
            && run.spec_report().invalid == 0 && run.spec_report().warnings.len() == 0,
        0 <= k < plan@.items.len() && !(plan@.items[k].state is Invalid) ==> {
            let item = plan@.items[k];
            &&& is_relative(item.source) && is_relative(item.target)
            &&& !leads_out(probe.items@[k].source) && !leads_out(probe.items@[k].target)
            &&& item.capability == "sessions"@ ==> id_problem(item.id) is None
            &&& item.scope is LegacyUserHome ==> migration.legacy() is Some && migration.next()
                is Some
        },
{
    lemma_escape(manifest);
    lemma_escape(probe.legacy_root);
    lemma_escape(probe.next_root);
    if 0 <= k < plan@.items.len() {
        lemma_items_are_checked(migration, plan@.items, probe.items@, 0, k);
        lemma_escape(probe.items@[k].source);
        lemma_escape(probe.items@[k].target);
    }
}

/// An item that was to be copied is said to be applied, with what was written, if and only if it
/// was; any other item stays as it was. Each item is counted once, as what became of it.
pub proof fn lemma_items_are_settled_as_they_went(
    report: ReportView,
    item: ItemView,
    outcome: CopyOutcome,
)
    ensures
        ({
            let after = settled(item, outcome);
            let told = reported(report, item, outcome);
            &&& after.source == item.source && after.target == item.target && after.id == item.id
                && after.scope == item.scope && after.capability == item.capability
            &&& !(item.state is Ready) ==> after == item
            &&& item.state is Ready ==> match outcome {
                CopyOutcome::Copied { target_bytes, target_fingerprint } => after.state == (
                ItemStateView::Applied { target_bytes, target_fingerprint }),
                CopyOutcome::TargetAppeared => after.state is TargetExists,
            }
            &&& told.copied == report.copied + if item.state is Ready && outcome is Copied {
                1int
            } else {
                0int
            }
            &&& told.invalid == report.invalid + if item.state is Invalid {
                1int
            } else {
                0int
            }
            &&& told.copied + told.skipped_existing + told.invalid == report.copied
                + report.skipped_existing + report.invalid + 1
            &&& item.state is Invalid ==> told.warnings.len() == report.warnings.len() + 1
                && item.source.is_prefix_of(told.warnings.last())
            &&& !(item.state is Invalid) ==> told.warnings == report.warnings
        }),
{
    if let ItemStateView::Invalid { reason } = item.state {
        let told = reported(report, item, outcome);
        let warning = told.warnings.last();
        assert(item.source =~= warning.subrange(0, item.source.len() as int));
    }
}

/// What was written is taken away again if and only if it is still there and still what was
/// written; what has been changed is left, and warned of.
pub proof fn lemma_only_what_was_written_is_removed(
    report: RollbackView,
    item: ItemView,
    found: Option<Seq<u8>>,
)
    ensures
        ({
            let unchanged = found is Some && (item.state matches ItemStateView::Applied {
                target_bytes,
                target_fingerprint,
            } && found->0.len() == target_bytes && fnv1a(found->0) == target_fingerprint);
            let after = undone(item, found);
            let told = undo_reported(report, item, found);
            &&& undo_action(item, found) is Remove <==> unchanged
            &&& after.source == item.source && after.target == item.target && after.id == item.id
            &&& item.state is Applied && (found is None || unchanged) ==> after.state is RolledBack
            &&& !(item.state is Applied) || (found is Some && !unchanged) ==> after == item
            &&& told.removed == report.removed + if unchanged {
                1int
            } else {
                0int
            }
            &&& told.preserved == report.preserved + if item.state is Applied && found is Some
                && !unchanged {
                1int
            } else {
                0int
            }
            &&& told.warnings.len() == report.warnings.len() + if item.state is Applied
                && !unchanged {
                1int
            } else {
                0int
            }
        }),
{
}

/// A migration is undone by its own manifest only: that of its name, its workspace and its homes.
/// One that has been undone is not undone again.
pub proof fn lemma_migrations_are_undone_by_their_manifest(
    migration: SessionMigration,
    id: &str,
    manifest: MigrationManifest,
    r: Result<RollbackStart, MigrationError>,
)
    requires
        call_ensures(SessionMigration::rollback, (&migration, id, manifest), r),
    ensures
        r is Ok <==> {
            &&& manifest@.migration_id == id@
            &&& manifest@.workspace_root.len() == 0 || manifest@.workspace_root == migration.root()
            &&& manifest@.legacy_user_home == migration.legacy()
            &&& manifest@.next_user_home == migration.next()
        },
        r matches Ok(start) ==> (start is AlreadyRolledBack <==> manifest@.state is RolledBack),
        r matches Ok(RollbackStart::AlreadyRolledBack(report)) ==> report@.removed == 0
            && report@.preserved == 0 && report@.already_rolled_back,
        r matches Ok(RollbackStart::Run(run)) ==> run.done() == 0 && run.started()
            == manifest@.items && run.spec_manifest() == manifest@,
{
}

/// A manifest is read where it stands, and from its backup only where it does not.
pub proof fn lemma_backups_stand_in_for_manifests(
    path: &str,
    exists: bool,
    backup: &str,
    backup_exists: bool,
    r: Result<String, MigrationError>,
)
    requires
        call_ensures(manifest_file, (path, exists, backup, backup_exists), r),
    ensures
        exists ==> r is Ok && r->Ok_0@ == path@,
        !exists && backup_exists ==> r is Ok && r->Ok_0@ == backup@,
        !exists && !backup_exists ==> r is Err,
{
}

/// The home that is named for migrations counts before the usual one, and that of the grant
/// before that of the environment; an empty name in the environment names nothing.
pub proof fn lemma_nearer_homes_count_first(
    grant: WorkspaceGrant,
    root: &str,
    roots: WorkspaceRoots,
    environment: HomeEnvironment,
    migration: SessionMigration,
)
    requires
        call_ensures(
            SessionMigration::from_grant,
            (&grant, root, true, &roots, &environment),
            Ok::<SessionMigration, MigrationError>(migration),
        ),
    ensures
        migration.root() == root@,
        migration.reads() == grant.reads() && migration.writes() == grant.writes(),
        environment.migration_legacy_home matches Some(home) && home@.len() > 0
            ==> migration.legacy() == Some(environment.migration_legacy_home->0@),
        (environment.migration_legacy_home is None
            || environment.migration_legacy_home->0@.len() == 0) && environment.home is Some
            && environment.home->0@.len() > 0 ==> migration.legacy() == Some(environment.home->0@),
        environment.state_root is Some ==> migration.next() == Some(environment.state_root->0@),
        environment.state_root is None && environment.next_home is Some
            && environment.next_home->0@.len() > 0 ==> migration.next() == Some(
            environment.next_home->0@,
        ),
        !leads_out(roots.legacy) && !leads_out(roots.next) && !leads_out(roots.manifests),
{
    lemma_escape(roots.legacy);
    lemma_escape(roots.next);
    lemma_escape(roots.manifests);
}

/// The items that are ready are counted one by one.
pub proof fn lemma_ready_items_are_counted(items: Seq<ItemView>, item: ItemView)
    ensures
        count_ready(items) <= items.len(),
        count_ready(items.push(item)) == count_ready(items) + if item.state is Ready {
            1nat
        } else {
            0nat
        },
    decreases items.len(),
{
    assert(items.push(item).drop_last() =~= items);
    if items.len() > 0 {
        lemma_ready_items_are_counted(items.drop_last(), items.last());
        assert(items.drop_last().push(items.last()) =~= items);
    }
}

/// The item could not be read because its format is not supported at all.
pub open spec fn lacks_support(item: ItemView) -> bool {
    item.state matches ItemStateView::Invalid { reason } && "unsupported: "@.is_prefix_of(reason)
}

proof fn lemma_first_lack(items: Seq<ItemView>)
    ensures
        first_unsupported(items) is Some <==> exists|k: int|
            0 <= k < items.len() && lacks_support(#[trigger] items[k]),
    decreases items.len(),
{
    if items.len() > 0 {
        let rest = items.skip(1);
        lemma_first_lack(rest);
        lemma_lack(items[0]);
        assert forall|k: int| 0 <= k < rest.len() implies #[trigger] rest[k] == items[k + 1] by {}
        if exists|k: int| 0 <= k < rest.len() && lacks_support(#[trigger] rest[k]) {
            let k = choose|k: int| 0 <= k < rest.len() && lacks_support(#[trigger] rest[k]);
            assert(lacks_support(items[k + 1]));
        }
        if exists|k: int| 0 <= k < items.len() && lacks_support(#[trigger] items[k]) {
            let k = choose|k: int| 0 <= k < items.len() && lacks_support(#[trigger] items[k]);
            if k > 0 {
                assert(rest[k - 1] == items[k]);
            }
        }
    }
}

proof fn lemma_lack(item: ItemView)
    ensures
        is_unsupported(item) <==> lacks_support(item),
{
    if let ItemStateView::Invalid { reason } = item.state {
        let mark = "unsupported: "@;
        if occurs_at(reason, mark, 0) {
            assert(mark =~= reason.subrange(0, mark.len() as int));
        }
        if mark.is_prefix_of(reason) {
            assert(reason.subrange(0, 0 + mark.len() as int) =~= mark);
            assert(occurs_at(reason, mark, 0));
        }
    }
}

/// What a migration says of a kind of state follows from what it found of it: nothing found is not
/// found, anything to be copied is ready unless some of it is not supported, and all of it may be
/// there already.
pub proof fn lemma_capabilities_follow_from_their_items(
    capability: Seq<char>,
    scope: Seq<char>,
    items: Seq<ItemView>,
)
    ensures
        ({
            let told = capability_of(capability, scope, items);
            let lacking = exists|k: int|
                0 <= k < items.len() && lacks_support(#[trigger] items[k]);
            let ready = exists|k: int|
                0 <= k < items.len() && (#[trigger] items[k]).state is Ready;
            let there = forall|k: int|
                0 <= k < items.len() ==> (#[trigger] items[k]).state is TargetExists;
            &&& told.capability == capability && told.scope == scope
            &&& told.item_count == items.len()
            &&& told.status == "unsupported"@ <==> lacking
            &&& told.reason is Some <==> lacking
            &&& told.status == "not_found"@ <==> items.len() == 0
            &&& told.status == "ready"@ <==> ready && !lacking
            &&& told.status == "target_exists"@ <==> items.len() > 0 && there
        }),
{
    reveal_strlit("unsupported");
    reveal_strlit("not_found");
    reveal_strlit("ready");
    reveal_strlit("target_exists");
    reveal_strlit("invalid");
    assert("unsupported"@.len() == 11 && "not_found"@.len() == 9 && "ready"@.len() == 5
        && "target_exists"@.len() == 13 && "invalid"@.len() == 7);
    lemma_first_lack(items);
    if items.len() > 0 && (forall|k: int|
        0 <= k < items.len() ==> (#[trigger] items[k]).state is TargetExists) {
        assert(items[0].state is TargetExists);
    }
}

/// Relationships are told as derived if and only if there are some and the memory they come from
/// can be read; then all of them are counted.
pub proof fn lemma_relationships_are_derived_from_memory(
    scope: Seq<char>,
    relationships: nat,
    present: bool,
    unsupported: bool,
)
    ensures
        ({
            let told = relationship_capability(scope, relationships, present, unsupported);
            &&& told.scope == scope && told.capability == "relationship"@
            &&& told.status == "derived"@ <==> relationships > 0 && !unsupported
            &&& told.status == "derived"@ ==> told.item_count == relationships
            &&& told.status == "unsupported"@ <==> unsupported
            &&& told.status == "not_found"@ <==> relationships == 0 && !unsupported
            &&& told.status != "derived"@ ==> told.item_count == 0
        }),
{
    reveal_strlit("derived");
    reveal_strlit("unsupported");
    reveal_strlit("not_found");
    assert("unsupported"@.len() == 11 && "not_found"@.len() == 9 && "derived"@.len() == 7);
}

/// An item that has been dealt with says what became of it, the one behind it is next, and every
/// other item stays as it is.
pub proof fn lemma_runs_go_from_item_to_item(
    run: &mut ApplyRun,
    outcome: CopyOutcome,
    r: Result<(), MigrationError>,
    k: int,
)
    requires
        old(run).done() < old(run).spec_manifest().items.len(),
        call_ensures(ApplyRun::settle, (run, outcome), r),
    ensures
        ({
            let before = old(run).spec_manifest();
            let after = final(run).spec_manifest();
            let at = old(run).done() as int;
            let item = before.items[at];
            &&& r is Err <==> item.state is Applied || item.state is RolledBack
            &&& r is Ok ==> final(run).done() == at + 1
            &&& r is Err ==> final(run).done() == at && after == before
            &&& after.items.len() == before.items.len()
            &&& k != at && 0 <= k < before.items.len() ==> after.items[k] == before.items[k]
            &&& r is Ok && item.state is Ready ==> (outcome matches CopyOutcome::Copied {
                target_bytes,
                target_fingerprint,
            } ==> after.items[at].state == (ItemStateView::Applied {
                target_bytes,
                target_fingerprint,
            }))
            &&& r is Ok && item.state is Ready && outcome is TargetAppeared
                ==> after.items[at].state is TargetExists
            &&& !(item.state is Ready) ==> after.items[at] == item
            &&& after.items[at].source == item.source && after.items[at].target == item.target
            &&& after.migration_id == before.migration_id && after.workspace_root
                == before.workspace_root
        }),
{
}

/// Undoing removes the target of an item only if it is still what was written, and says so of the
/// item; every other item stays as it is.
pub proof fn lemma_rollbacks_go_from_item_to_item(
    run: &mut RollbackRun,
    migration: SessionMigration,
    resolution: Resolution,
    content: FileContent,
    r: Result<RollbackAction, MigrationError>,
    k: int,
)
    requires
        old(run).done() < old(run).spec_manifest().items.len(),
        call_ensures(RollbackRun::settle, (run, &migration, &resolution, &content), r),
    ensures
        ({
            let before = old(run).spec_manifest();
            let after = final(run).spec_manifest();
            let at = old(run).done() as int;
            let item = before.items[at];
            &&& r is Err ==> after == before && final(run).done() == at
            &&& r is Ok ==> final(run).done() == at + 1
            &&& after.items.len() == before.items.len()
            &&& k != at && 0 <= k < before.items.len() ==> after.items[k] == before.items[k]
            &&& r is Ok && r->Ok_0 is Remove ==> {
                &&& content matches FileContent::Found { bytes, .. } && (item.state matches
                    ItemStateView::Applied { target_bytes, target_fingerprint } && bytes@.len()
                    == target_bytes && fnv1a(bytes@) == target_fingerprint)
                &&& after.items[at].state is RolledBack
                &&& !leads_out(resolution)
            }
            &&& r is Ok && content is Absent && item.state is Applied ==> r->Ok_0 is Leave
                && after.items[at].state is RolledBack
            &&& !(item.state is Applied) ==> r is Ok && r->Ok_0 is Leave && after.items[at] == item
        }),
{
    lemma_escape(resolution);
}

/// A migration that has come to its end is told as carried out, with what was done of it, and one
/// that was undone as undone; nothing else of them changes.
pub proof fn lemma_migrations_end_as_they_went(
    run: ApplyRun,
    now: u128,
    done: (MigrationManifest, MigrationReport),
    back: RollbackRun,
    undone: (MigrationManifest, RollbackReport),
)
    requires
        call_ensures(ApplyRun::finish, (run, now), done),
        call_ensures(RollbackRun::finish, (back, now), undone),
    ensures
        done.0@.state is Applied,
        undone.0@.state is RolledBack,
        done.0@.items == run.spec_manifest().items,
        undone.0@.items == back.spec_manifest().items,
        done.0@.updated_at_millis == now && undone.0@.updated_at_millis == now,
        done.0@.migration_id == run.spec_manifest().migration_id,
        undone.0@.migration_id == back.spec_manifest().migration_id,
        done.1@ == run.spec_report(),
        undone.1@ == back.spec_report(),
{
}

/// Migrations that start at the same time in the same process have different names.
pub proof fn lemma_migration_names_differ(
    now: u128,
    process: u32,
    counter: u64,
    other: u64,
    a: String,
    b: String,
)
    requires
        call_ensures(new_migration_id, (now, process, counter), a),
        call_ensures(new_migration_id, (now, process, other), b),
        a@ == b@,
    ensures
        counter == other,
{
    let c = decimal_of(counter as nat);
    let d = decimal_of(other as nat);
    let front = a@.len() - c.len();
    assert(a@.skip(front) =~= c);
    assert(b@.skip(b@.len() - d.len()) =~= d);
    assert(migration_id_of(now, process, counter).len() - c.len() == migration_id_of(
        now,
        process,
        other,
    ).len() - d.len());
    lemma_decimal_tells_numbers_apart(counter as nat, other as nat);
}

} // verus!
