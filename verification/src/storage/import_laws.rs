//! What an import of an event log does, and when it is undone.
use vstd::prelude::*;

use crate::fingerprint::{fingerprint_text, fnv1a};
use crate::grants::WorkspaceGrant;
use crate::paths::{relative_of, Location};
use crate::storage::event_import::{
    import_id_of, new_import_id, EventImportError, EventImportManifest, EventImportPlan,
    EventRollbackReport, LegacyEventLogMigration, SourceProbe, EVENT_IMPORT_SCHEMA_VERSION,
};
use crate::storage::event_log::{summary_of, EventLogError, LegacyEventLog};
use crate::text::{decimal_of, lemma_decimal_tells_numbers_apart, utf8_len};

verus! {

/// A name of letters, digits, dashes and underscores, and not too long.
pub open spec fn is_plain_id(id: Seq<char>) -> bool {
    &&& 0 < id.len()
    &&& utf8_len(id) <= 128
    &&& forall|k: int|
        0 <= k < id.len() ==> 'a' <= #[trigger] id[k] <= 'z' || 'A' <= id[k] <= 'Z' || '0' <= id[k]
            <= '9' || id[k] == '-' || id[k] == '_'
}

/// The plan is one of this importer: of its version, for its source, under a plain name, and into
/// the file of that name.
pub open spec fn is_plan_of(importer: LegacyEventLogMigration, plan: EventImportPlan) -> bool {
    &&& plan@.schema_version == EVENT_IMPORT_SCHEMA_VERSION
    &&& is_plain_id(plan@.migration_id)
    &&& Some(plan@.source) == relative_of(importer.spec_workspace(), importer.spec_source())
    &&& plan@.target == ".yunxi-next/migrations/events/"@ + plan@.migration_id + ".jsonl"@
}

/// A plan is accepted if and only if it is one of this importer.
pub proof fn lemma_own_plans_are_accepted(
    importer: LegacyEventLogMigration,
    plan: EventImportPlan,
    r: Result<(), EventImportError>,
)
    requires
        call_ensures(LegacyEventLogMigration::validate_plan, (&importer, &plan), r),
    ensures
        r is Ok <==> is_plan_of(importer, plan),
{
}

/// Whatever an importer plans under a plain name it accepts, and carries out as long as the log is
/// the same, there is something in it, and its target is free.
pub proof fn lemma_plans_can_be_carried_out(
    importer: LegacyEventLogMigration,
    log: LegacyEventLog,
    id: String,
    target_exists: bool,
    plan: EventImportPlan,
    r: Result<LegacyEventLog, EventImportError>,
)
    requires
        call_ensures(
            LegacyEventLogMigration::plan,
            (&importer, Ok::<LegacyEventLog, EventLogError>(log), id, target_exists),
            Ok::<EventImportPlan, EventImportError>(plan),
        ),
        call_ensures(
            LegacyEventLogMigration::apply,
            (&importer, &plan, Ok::<LegacyEventLog, EventLogError>(log)),
            r,
        ),
        is_plain_id(id@),
    ensures
        importer.reads(),
        is_plan_of(importer, plan),
        plan@.migration_id == id@,
        plan@.source_bytes == log.content().len(),
        plan@.event_count == summary_of(log.lines()).event_count,
        plan@.malformed_line_count == summary_of(log.lines()).malformed_line_count,
        plan@.unknown_event_count == summary_of(log.lines()).unknown_event_count,
        plan@.state is Ready <==> plan@.event_count > 0 && !target_exists,
        plan@.state is TargetExists <==> plan@.event_count > 0 && target_exists,
        r is Ok <==> importer.writes() && plan@.state is Ready,
        r matches Ok(given) ==> given == log,
{
}

/// A log is imported only if it is the one that was planned: as long, and with the same
/// fingerprint.
pub proof fn lemma_only_the_planned_log_is_imported(
    importer: LegacyEventLogMigration,
    plan: EventImportPlan,
    log: Result<LegacyEventLog, EventLogError>,
    r: Result<LegacyEventLog, EventImportError>,
)
    requires
        call_ensures(LegacyEventLogMigration::apply, (&importer, &plan, log), r),
    ensures
        r is Ok <==> {
            &&& importer.writes()
            &&& is_plan_of(importer, plan)
            &&& plan@.state is Ready
            &&& log matches Ok(given) && given.content().len() == plan@.source_bytes
                && fingerprint_text(fnv1a(given.content())) == plan@.source_fingerprint
        },
        r matches Ok(given) ==> log == Ok::<LegacyEventLog, EventLogError>(given),
{
}

/// An import is undone if what it wrote is still there and still the same, and otherwise what is
/// there stays. What a manifest was made of counts as what was written.
pub proof fn lemma_imports_are_undone_if_unchanged(
    importer: LegacyEventLogMigration,
    plan: EventImportPlan,
    written: Vec<u8>,
    manifest: EventImportManifest,
    id: &str,
    current: Option<Vec<u8>>,
    r: Result<EventRollbackReport, EventImportError>,
)
    requires
        call_ensures(EventImportManifest::new, (plan, &written), manifest),
        call_ensures(LegacyEventLogMigration::rollback, (&importer, id, &manifest, current), r),
    ensures
        r is Ok <==> importer.writes() && is_plain_id(id@) && is_plan_of(importer, plan),
        r matches Ok(report) ==> {
            &&& report.spec_id() == id@
            &&& current is None ==> !report.removes()
            &&& current is Some && current->0@ == written@ ==> report.removes()
            &&& current is Some && current->0@.len() != written@.len() ==> !report.removes()
            &&& current is Some && fnv1a(current->0@) != fnv1a(written@) ==> !report.removes()
        },
{
}

/// A log is imported only from the directory of sessions, as the file system resolves it where it
/// does.
pub proof fn lemma_sources_lie_among_the_sessions(
    grant: WorkspaceGrant,
    workspace: Location,
    is_directory: bool,
    probe: SourceProbe,
    source: Location,
    importer: LegacyEventLogMigration,
)
    requires
        call_ensures(
            LegacyEventLogMigration::from_grant,
            (&grant, workspace, is_directory, &probe, source),
            Ok::<LegacyEventLogMigration, EventImportError>(importer),
        ),
    ensures
        is_directory,
        importer.spec_workspace() == workspace && importer.spec_source() == source,
        importer.reads() == grant.reads() && importer.writes() == grant.writes(),
        probe.resolved_root is Some && probe.resolved_source is Some
            ==> probe.resolved_root->0.parts().is_prefix_of(probe.resolved_source->0.parts()),
        probe.resolved_root is None ==> probe.written_root.parts().is_prefix_of(
            probe.written_source.parts(),
        ),
{
    if probe.resolved_root is Some && probe.resolved_source is Some {
        let root = probe.resolved_root->0;
        let path = probe.resolved_source->0;
        assert(path.parts().take(root.parts().len() as int) =~= path.parts().subrange(
            0,
            root.parts().len() as int,
        ));
    }
    if probe.resolved_root is None {
        let root = probe.written_root;
        let path = probe.written_source;
        assert(path.parts().take(root.parts().len() as int) =~= path.parts().subrange(
            0,
            root.parts().len() as int,
        ));
    }
}

/// Imports that start at the same time in the same process have different names.
pub proof fn lemma_import_names_differ(
    now: u128,
    process: u32,
    counter: u64,
    other: u64,
    a: String,
    b: String,
)
    requires
        call_ensures(new_import_id, (now, process, counter), a),
        call_ensures(new_import_id, (now, process, other), b),
        a@ == b@,
    ensures
        counter == other,
{
    let front = "events-"@ + decimal_of(now as nat) + "-"@ + decimal_of(process as nat) + "-"@;
    assert(a@.skip(front.len() as int) =~= decimal_of(counter as nat));
    assert(b@.skip(front.len() as int) =~= decimal_of(other as nat));
    assert(import_id_of(now, process, counter) == front + decimal_of(counter as nat));
    lemma_decimal_tells_numbers_apart(counter as nat, other as nat);
}

} // verus!
