//! The migration of legacy sessions, memory and user-home files, on files held in memory.
use std::collections::BTreeMap;

use yunxi::grants::WorkspaceGrant;
use yunxi::paths::{components, Location};
use yunxi::storage::memory::{
    looks_like_json_memory_file, memory_lines, normalize_line, normalize_memory_content,
    normalize_memory_jsonl, normalize_memory_record, LineReading, MemoryInvalidation, MemoryKind,
    MemoryLayer, MemoryRecord, MemoryScope, MemorySensitivity, MemoryStatus, MemoryTemporal,
    NormalizedMemory,
};
use yunxi::storage::migration::facade::{
    HomeEnvironment, MigrationPlan, SessionMigration, WorkspaceRoots,
};
use yunxi::storage::migration::model::{
    check_file_length, check_manifest_length, new_migration_id, validate_migration_id,
    validate_relative_path, MigrationError, MigrationItem, MigrationItemState, MigrationScope,
    Resolution, MANIFEST_MAX_BYTES,
};
use yunxi::storage::migration::plan::{
    FileContent, HomeProbe, KnownProbe, MemoryProbe, PlanProbe, ProfileEntry, ProfilesProbe,
    SessionEntry, SessionFile,
};
use yunxi::storage::migration::run::{
    check_copy_length, check_manifest, conclude_copy, manifest_file, CopyContent, CopyOutcome,
    MigrationManifest, MigrationReport, MigrationState, RollbackAction, RollbackReport, RollbackStart,
};
use yunxi::storage::migration::validate::{ItemProbe, PathsProbe};
use yunxi::storage::store::MAX_SESSION_FILE_BYTES;

const ROOT: &str = "/work";

type Files = BTreeMap<String, Vec<u8>>;

fn place(path: &str) -> Location {
    Location { display: path.to_string(), components: components(path) }
}

fn inside() -> Resolution {
    Resolution { root: Some(place(ROOT)), path: Some(place(ROOT)) }
}

fn outside() -> Resolution {
    Resolution { root: Some(place(ROOT)), path: Some(place("/elsewhere")) }
}

fn content(files: &Files, path: &str) -> FileContent {
    match files.get(path) {
        Some(bytes) => FileContent::Found { length: bytes.len() as u64, bytes: bytes.clone() },
        None => FileContent::Absent,
    }
}

/// Reads a memory record the way a host does: the scores and the defaults are its own affair.
fn read_record(line: &str) -> Result<MemoryRecord, String> {
    let value: serde_json::Value =
        serde_json::from_str(line).map_err(|error| error.to_string())?;
    let text = |name: &str| value[name].as_str().map(str::to_string);
    let scope = match &value["scope"] {
        serde_json::Value::String(name) if name == "global_user" => MemoryScope::GlobalUser,
        serde_json::Value::String(name) if name == "relationship" => MemoryScope::Relationship,
        _ => return Err("unknown scope".to_string()),
    };
    let kind = match value["kind"].as_str() {
        Some("preference") => MemoryKind::Preference,
        Some("relationship_note") => MemoryKind::RelationshipNote,
        _ => return Err("unknown kind".to_string()),
    };
    Ok(MemoryRecord {
        id: text("id").ok_or("missing id")?,
        schema_version: value["schema_version"].as_u64().unwrap_or(1) as u32,
        scope,
        kind,
        content: text("content").ok_or("missing content")?,
        source_session_id: None,
        sensitivity: MemorySensitivity::Low,
        status: MemoryStatus::Active,
        created_at_millis: value["created_at_millis"].as_u64().unwrap_or(0) as u128,
        updated_at_millis: value["updated_at_millis"].as_u64().unwrap_or(0) as u128,
        dedup_key: String::new(),
        revision: 1,
        merged_count: 1,
        layer: MemoryLayer::Unknown,
        temporal: MemoryTemporal {
            observed_at_millis: 0,
            event_at_millis: None,
            valid_from_millis: None,
            expires_at_millis: None,
        },
        invalidation: MemoryInvalidation {
            supersedes: Vec::new(),
            superseded_by: None,
            conflicts_with: Vec::new(),
            expires_reason: None,
            invalidated_at_millis: None,
        },
    })
}

fn encode(record: &MemoryRecord) -> Vec<u8> {
    let scope = match &record.scope {
        MemoryScope::Relationship => "relationship",
        _ => "global_user",
    };
    let mut map = serde_json::Map::new();
    map.insert("id".to_string(), serde_json::Value::from(record.id.clone()));
    map.insert("schema_version".to_string(), serde_json::Value::from(record.schema_version));
    map.insert("scope".to_string(), serde_json::Value::from(scope));
    map.insert("kind".to_string(), serde_json::Value::from(record.kind.storage_key()));
    map.insert("content".to_string(), serde_json::Value::from(record.content.clone()));
    serde_json::to_vec(&serde_json::Value::Object(map)).expect("encode")
}

fn readings(bytes: &Vec<u8>) -> Vec<LineReading> {
    let mut readings = Vec::new();
    for line in memory_lines(bytes).unwrap_or_default() {
        let parsed = read_record(&line.text);
        let encoded = match normalize_line(line.number, read_record(&line.text), true) {
            Ok((record, _)) => Ok(encode(&record)),
            Err(error) => Err(error),
        };
        readings.push(LineReading { parsed, finite: true, encoded });
    }
    readings
}

fn normalize(bytes: &Vec<u8>) -> Result<NormalizedMemory, String> {
    normalize_memory_jsonl(bytes, &readings(bytes))
}

fn memory_probe(files: &Files, source: &str, target: &str) -> MemoryProbe {
    MemoryProbe {
        source: inside(),
        content: content(files, source),
        readings: files.get(source).map(readings).unwrap_or_default(),
        target: inside(),
        target_exists: files.contains_key(target),
    }
}

fn known_probe(files: &Files, source: &str, target: &str) -> KnownProbe {
    KnownProbe {
        source: inside(),
        content: content(files, source),
        target: inside(),
        target_exists: files.contains_key(target),
    }
}

fn home_probe(files: &Files, legacy: &str, next: &str) -> HomeProbe {
    let known = |name: &str| {
        known_probe(files, &format!("{legacy}/{name}"), &format!("{next}/{name}"))
    };
    let memory = |name: &str| {
        let source = format!("{legacy}/{name}");
        if files.contains_key(&source) {
            Some(memory_probe(files, &source, &format!("{next}/{name}")))
        } else {
            None
        }
    };
    let prefix = format!("{legacy}/persona/profiles/");
    let profiles: Vec<ProfileEntry> = files
        .keys()
        .filter(|path| path.starts_with(&prefix))
        .map(|path| {
            let name = path[prefix.len()..].to_string();
            ProfileEntry::File { probe: known(&format!("persona/profiles/{name}")), name }
        })
        .collect();
    HomeProbe {
        legacy_location: place(legacy),
        next_location: place(next),
        config: known("persona/config.toml"),
        soul: known("persona/soul.txt"),
        profiles: if profiles.is_empty() {
            ProfilesProbe::Absent
        } else {
            ProfilesProbe::Entries(profiles)
        },
        settings: known("settings.json"),
        global_memory: memory("memory/global-memory.jsonl"),
        pending_memory: memory("memory/pending.jsonl"),
        workspace_memory: memory("memory/workspace-memory.jsonl"),
        mailbox_present: false,
    }
}

fn probe(files: &Files, migration: &SessionMigration) -> PlanProbe {
    let prefix = format!("{ROOT}/.yunxi/sessions/");
    let mut entries = Vec::new();
    for path in files.keys().filter(|path| path.starts_with(&prefix)) {
        let name = path[prefix.len()..].to_string();
        let found = content(files, path);
        let target = migration.session_destination(&name, &found);
        entries.push(SessionEntry::File(SessionFile {
            name,
            source: inside(),
            content: found,
            target: inside(),
            target_exists: target.is_some_and(|target| files.contains_key(&target)),
        }));
    }
    let memory = |name: &str| {
        memory_probe(
            files,
            &format!("{ROOT}/.yunxi/memory/{name}"),
            &format!("{ROOT}/.yunxi-next/memory/{name}"),
        )
    };
    PlanProbe {
        legacy_root: inside(),
        next_root: inside(),
        manifest: inside(),
        entries: Ok(entries),
        workspace_memory: memory("workspace-memory.jsonl"),
        pending_memory: memory("pending.jsonl"),
        global_memory: memory("global-memory.jsonl"),
        home: home_probe(
            files,
            migration.legacy_home().unwrap_or("/none/legacy"),
            migration.next_home().unwrap_or("/none/next"),
        ),
    }
}

fn roots() -> WorkspaceRoots {
    WorkspaceRoots { legacy: inside(), next: inside(), manifests: inside() }
}

fn migration(grant: WorkspaceGrant, legacy: Option<&str>, next: Option<&str>) -> SessionMigration {
    SessionMigration::from_grant_with_homes(&grant, ROOT, true, &roots(), legacy, next)
        .expect("migration")
}

fn plan(migration: &SessionMigration, files: &Files, id: &str) -> MigrationPlan {
    migration.plan(id, &probe(files, migration)).expect("plan")
}

fn paths(plan: &MigrationPlan) -> PathsProbe {
    PathsProbe {
        legacy_root: inside(),
        next_root: inside(),
        items: plan
            .items()
            .iter()
            .map(|_| ItemProbe { source: inside(), target: inside() })
            .collect(),
    }
}

fn below(migration: &SessionMigration, item: &MigrationItem, source: bool) -> String {
    let home = if source { migration.legacy_home() } else { migration.next_home() };
    let root = match item.scope() {
        MigrationScope::Workspace => ROOT,
        MigrationScope::LegacyUserHome => home.expect("home"),
    };
    format!("{root}/{}", if source { item.source() } else { item.target() })
}

/// Carries a plan out on files in memory.
fn apply(
    migration: &SessionMigration,
    plan: &MigrationPlan,
    files: &mut Files,
    manifests: &mut BTreeMap<String, MigrationManifest>,
) -> Result<MigrationReport, MigrationError> {
    let exists = manifests.contains_key(plan.migration_id());
    let mut run = migration.apply(plan, &paths(plan), &inside(), exists, 1)?;
    while let Some(item) = run.pending() {
        let outcome = if item.is_ready() {
            let source = below(migration, item, true);
            let target = below(migration, item, false);
            let found = content(files, &source);
            let lines = files.get(&source).map(readings).unwrap_or_default();
            let probe = ItemProbe { source: inside(), target: inside() };
            let copy = migration.copy_content(item, &probe, &found, &lines)?;
            let bytes = match copy {
                CopyContent::Session(session) => format!("session {}", session.id()).into_bytes(),
                CopyContent::Bytes(bytes) => bytes,
            };
            check_copy_length(&target, bytes.len() as u64)?;
            if files.contains_key(&target) {
                CopyOutcome::TargetAppeared
            } else {
                let outcome = CopyOutcome::copied(&bytes);
                files.insert(target, bytes);
                outcome
            }
        } else {
            CopyOutcome::TargetAppeared
        };
        run.settle(outcome)?;
    }
    let (manifest, report) = run.finish(2);
    manifests.insert(plan.migration_id().to_string(), manifest);
    Ok(report)
}

fn rollback(
    migration: &SessionMigration,
    id: &str,
    files: &mut Files,
    manifests: &mut BTreeMap<String, MigrationManifest>,
) -> Result<RollbackReport, MigrationError> {
    migration.manifest_path(id, &inside())?;
    let manifest = manifests.remove(id).expect("manifest");
    let manifest = check_manifest(manifest)?;
    let mut run = match migration.rollback(id, manifest)? {
        RollbackStart::AlreadyRolledBack(report) => return Ok(report),
        RollbackStart::Run(run) => run,
    };
    while let Some(item) = run.pending() {
        let target = below(migration, item, false);
        let found = content(files, &target);
        if run.settle(migration, &inside(), &found)? == RollbackAction::Remove {
            files.remove(&target);
        }
    }
    let (manifest, report) = run.finish(3);
    assert_eq!(*manifest.state(), MigrationState::RolledBack);
    manifests.insert(id.to_string(), manifest);
    Ok(report)
}

fn one_session(content: &str) -> Files {
    let mut files = Files::new();
    files.insert(format!("{ROOT}/.yunxi/sessions/legacy.json"), content.as_bytes().to_vec());
    files
}

const OLD: &str = r#"{"id":"legacy","cwd":".","prompt":"old"}"#;

#[test]
fn plan_is_read_only_and_apply_preserves_legacy() {
    let source = r#"{"id":"legacy","cwd":".","prompt":"hello","final_response":"reply","created_at_millis":1}"#;
    let mut files = one_session(source);
    let migration = migration(WorkspaceGrant::read_write(ROOT), None, None);
    let plan = plan(&migration, &files, "sessions-1-1-1");
    assert_eq!(plan.ready_count(), 1);
    let mut manifests = BTreeMap::new();
    let report = apply(&migration, &plan, &mut files, &mut manifests).expect("apply");
    assert_eq!(report.copied, 1);
    assert_eq!(files[&format!("{ROOT}/.yunxi/sessions/legacy.json")], source.as_bytes());
    assert!(files.contains_key(&format!("{ROOT}/.yunxi-next/sessions/legacy.json")));
    assert_eq!(plan.manifest_path(), ".yunxi-next/migrations/sessions/sessions-1-1-1.json");
    assert!(manifests.contains_key("sessions-1-1-1"));
    assert!(matches!(
        apply(&migration, &plan, &mut files, &mut manifests),
        Err(MigrationError::ManifestExists(_))
    ));
}

#[test]
fn apply_never_overwrites_existing_next_data() {
    let mut files = one_session(OLD);
    let next = format!("{ROOT}/.yunxi-next/sessions/legacy.json");
    files.insert(next.clone(), b"existing-next-data".to_vec());
    let migration = migration(WorkspaceGrant::read_write(ROOT), None, None);
    let plan = plan(&migration, &files, "m");
    assert_eq!(plan.ready_count(), 0);
    let report = apply(&migration, &plan, &mut files, &mut BTreeMap::new()).expect("apply");
    assert_eq!(report.skipped_existing, 1);
    assert_eq!(files[&next], b"existing-next-data");
}

#[test]
fn rollback_removes_only_unchanged_outputs() {
    let mut files = one_session(OLD);
    let migration = migration(WorkspaceGrant::read_write(ROOT), None, None);
    let plan = plan(&migration, &files, "m");
    let mut manifests = BTreeMap::new();
    apply(&migration, &plan, &mut files, &mut manifests).expect("apply");
    let target = format!("{ROOT}/.yunxi-next/sessions/legacy.json");
    files.insert(target.clone(), b"user changed this".to_vec());
    let report = rollback(&migration, "m", &mut files, &mut manifests).expect("rollback");
    assert_eq!(report.removed, 0);
    assert_eq!(report.preserved, 1);
    assert!(files.contains_key(&target));
}

#[test]
fn rollback_gives_back_the_files_as_they_were() {
    let mut files = one_session(OLD);
    let before = files.clone();
    let migration = migration(WorkspaceGrant::read_write(ROOT), None, None);
    let plan = plan(&migration, &files, "m");
    let mut manifests = BTreeMap::new();
    apply(&migration, &plan, &mut files, &mut manifests).expect("apply");
    assert_ne!(files, before);
    let report = rollback(&migration, "m", &mut files, &mut manifests).expect("rollback");
    assert_eq!(report.removed, 1);
    assert_eq!(files, before);
    let again = rollback(&migration, "m", &mut files, &mut manifests).expect("again");
    assert!(again.already_rolled_back);
    assert_eq!(again.removed, 0);
    assert_eq!(again.preserved, 0);
}

#[test]
fn every_item_counts_once() {
    let mut files = Files::new();
    for id in ["edited", "gone", "kept"] {
        files.insert(
            format!("{ROOT}/.yunxi/sessions/{id}.json"),
            format!(r#"{{"id":"{id}","cwd":".","prompt":"old"}}"#).into_bytes(),
        );
    }
    files.insert(format!("{ROOT}/.yunxi/sessions/broken.json"), b"not json".to_vec());
    let migration = migration(WorkspaceGrant::read_write(ROOT), None, None);
    let plan = plan(&migration, &files, "m");
    let mut manifests = BTreeMap::new();
    let report = apply(&migration, &plan, &mut files, &mut manifests).expect("apply");
    assert_eq!(report.copied, 3);
    assert_eq!(report.invalid, 1);
    assert_eq!(report.copied + report.skipped_existing + report.invalid, plan.items().len());

    let target = |id: &str| format!("{ROOT}/.yunxi-next/sessions/{id}.json");
    files.insert(target("edited"), b"edited".to_vec());
    files.remove(&target("gone"));
    let report = rollback(&migration, "m", &mut files, &mut manifests).expect("rollback");
    assert_eq!(report.removed, 1);
    assert_eq!(report.preserved, 1);
    assert_eq!(report.warnings.len(), 2);
    assert!(files.contains_key(&target("edited")));
    assert!(!files.contains_key(&target("kept")));
}

#[test]
fn read_only_grant_can_plan_but_cannot_apply_or_rollback() {
    let mut files = one_session(OLD);
    let migration = migration(WorkspaceGrant::read_only(ROOT), None, None);
    let plan = plan(&migration, &files, "m");
    assert!(matches!(
        apply(&migration, &plan, &mut files, &mut BTreeMap::new()),
        Err(MigrationError::NextWriteNotGranted)
    ));
    assert!(matches!(
        migration.manifest_path("m", &inside()),
        Err(MigrationError::NextWriteNotGranted)
    ));
}

#[test]
fn rollback_recovers_manifest_left_in_backup_after_interrupted_replace() {
    assert_eq!(
        manifest_file("m.json", false, "m.json.bak", true).expect("backup"),
        "m.json.bak"
    );
    assert_eq!(manifest_file("m.json", true, "m.json.bak", true).expect("own"), "m.json");
    assert!(matches!(
        manifest_file("m.json", false, "m.json.bak", false),
        Err(MigrationError::ManifestMissing(_))
    ));
}

#[test]
fn user_home_files_are_scoped_and_source_fingerprint_is_required() {
    let mut files = Files::new();
    files.insert("/legacy/persona/soul.txt".to_string(), b"original".to_vec());
    files.insert("/legacy/settings.json".to_string(), b"{\"version\":1}".to_vec());
    let migration =
        migration(WorkspaceGrant::read_write(ROOT), Some("/legacy"), Some("/next"));
    let plan = plan(&migration, &files, "m");
    assert!(plan.items().iter().any(|item| {
        item.capability() == "persona"
            && item.scope() == MigrationScope::LegacyUserHome
            && item.source() == "persona/soul.txt"
    }));
    assert_eq!(
        plan.capabilities()
            .iter()
            .find(|capability| capability.capability() == "memory")
            .expect("memory capability")
            .status(),
        "not_found"
    );
    files.insert("/legacy/persona/soul.txt".to_string(), b"changed after plan".to_vec());
    let result = apply(&migration, &plan, &mut files, &mut BTreeMap::new());
    assert!(matches!(result, Err(MigrationError::SourceChanged(_))));
    assert!(!files.contains_key("/next/persona/soul.txt"));
    assert_eq!(files["/legacy/persona/soul.txt"], b"changed after plan");
}

#[test]
fn missing_user_home_is_explicitly_unsupported_without_writing() {
    let migration = migration(WorkspaceGrant::read_write(ROOT), None, None);
    let plan = plan(&migration, &Files::new(), "m");
    assert_eq!(plan.legacy_user_home(), None);
    for name in ["persona", "memory", "controls", "mailbox", "relationship"] {
        let capability = plan
            .capabilities()
            .iter()
            .find(|capability| capability.capability() == name)
            .expect("capability");
        assert_eq!(capability.status(), "unsupported");
        assert_eq!(capability.scope(), "legacy_user_home");
    }
}

#[test]
fn memory_jsonl_is_normalized_and_relationships_are_reported() {
    let first = r#"{"id":"legacy-preference","schema_version":1,"scope":"global_user","kind":"preference","content":"用户偏好使用中文回答。","confidence":0.9,"importance":0.7,"sensitivity":"low","status":"active","created_at_millis":1,"updated_at_millis":2,"entities":[{"id":"ignored-by-next"}]}"#;
    let relationship = r#"{"id":"legacy-relationship","schema_version":2,"scope":"relationship","kind":"relationship_note","content":"用户希望保持直接沟通。","confidence":0.8,"importance":0.6,"sensitivity":"low","status":"active","created_at_millis":3,"updated_at_millis":3}"#;
    let source = format!("{first}\n{relationship}\n");
    let path = format!("{ROOT}/.yunxi/memory/workspace-memory.jsonl");
    let mut files = Files::new();
    files.insert(path.clone(), source.as_bytes().to_vec());
    let migration = migration(WorkspaceGrant::read_write(ROOT), None, None);
    let plan = plan(&migration, &files, "m");
    let item = plan
        .items()
        .iter()
        .find(|item| item.capability() == "memory")
        .expect("memory item");
    assert_eq!(item.state(), &MigrationItemState::Ready);
    assert_eq!(
        plan.capabilities()
            .iter()
            .find(|capability| {
                capability.capability() == "relationship" && capability.scope() == "workspace"
            })
            .expect("relationship capability")
            .status(),
        "derived"
    );
    let mut manifests = BTreeMap::new();
    let report = apply(&migration, &plan, &mut files, &mut manifests).expect("apply");
    assert_eq!(report.copied, 1);
    assert_eq!(files[&path], source.as_bytes());

    let target = format!("{ROOT}/.yunxi-next/memory/workspace-memory.jsonl");
    let text = String::from_utf8(files[&target].clone()).expect("normalized target");
    let values = text
        .lines()
        .map(|line| serde_json::from_str::<serde_json::Value>(line).expect("target JSON"))
        .collect::<Vec<_>>();
    assert_eq!(values.len(), 2);
    assert!(values.iter().all(|value| value["schema_version"] == 3));
    assert!(values.iter().all(|value| value.get("entities").is_none()));
    assert!(values.iter().any(|value| value["scope"] == "relationship"));

    let report = rollback(&migration, "m", &mut files, &mut manifests).expect("rollback");
    assert_eq!(report.removed, 1);
    assert!(!files.contains_key(&target));
}

#[test]
fn invalid_memory_jsonl_is_reported_without_partial_output() {
    let source = "{\"id\":\"valid\",\"scope\":\"global_user\",\"kind\":\"preference\",\"content\":\"中文\",\"status\":\"active\"}\nnot-json\n";
    let path = format!("{ROOT}/.yunxi/memory/global-memory.jsonl");
    let mut files = Files::new();
    files.insert(path.clone(), source.as_bytes().to_vec());
    let migration = migration(WorkspaceGrant::read_write(ROOT), None, None);
    let plan = plan(&migration, &files, "m");
    assert!(plan.items().iter().any(|item| {
        item.capability() == "memory"
            && matches!(item.state(), MigrationItemState::Invalid { .. })
    }));
    let report =
        apply(&migration, &plan, &mut files, &mut BTreeMap::new()).expect("apply reports item");
    assert_eq!(report.invalid, 1);
    assert!(!files.contains_key(&format!("{ROOT}/.yunxi-next/memory/global-memory.jsonl")));
    assert_eq!(files[&path], source.as_bytes());
}

#[test]
fn memory_of_an_unknown_format_is_left_for_review() {
    let path = format!("{ROOT}/.yunxi/memory/pending.jsonl");
    let mut files = Files::new();
    files.insert(path, b"plain notes".to_vec());
    let migration = migration(WorkspaceGrant::read_write(ROOT), None, None);
    let plan = plan(&migration, &files, "m");
    let memory = plan
        .capabilities()
        .iter()
        .find(|capability| capability.capability() == "memory" && capability.scope() == "workspace")
        .expect("capability");
    assert_eq!(memory.status(), "unsupported");
    assert!(memory.reason().expect("reason").starts_with("legacy memory format requires privacy review"));
    assert_eq!(plan.warnings().len(), 1);
    assert!(looks_like_json_memory_file(&b" \n{}".to_vec()));
    assert!(!looks_like_json_memory_file(&b"plain".to_vec()));
}

#[test]
fn two_files_of_one_session_are_not_both_copied() {
    let mut files = one_session(OLD);
    files.insert(format!("{ROOT}/.yunxi/sessions/other.json"), OLD.as_bytes().to_vec());
    files.insert(format!("{ROOT}/.yunxi/sessions/broken.json"), b"{".to_vec());
    files.insert(format!("{ROOT}/.yunxi/sessions/notes.txt"), b"x".to_vec());
    let migration = migration(WorkspaceGrant::read_write(ROOT), None, None);
    let plan = plan(&migration, &files, "m");
    assert_eq!(plan.items().len(), 3);
    assert_eq!(plan.ready_count(), 1);
    let sessions = &plan.capabilities()[0];
    assert_eq!(sessions.status(), "ready");
    assert_eq!(sessions.item_count(), 3);
}

#[test]
fn homes_that_overlap_are_left_alone() {
    let mut files = Files::new();
    files.insert("/legacy/persona/soul.txt".to_string(), b"soul".to_vec());
    let migration =
        migration(WorkspaceGrant::read_write(ROOT), Some("/legacy"), Some("/legacy/next"));
    let plan = plan(&migration, &files, "m");
    assert!(plan.items().is_empty());
    assert!(plan.capabilities().iter().any(|capability| {
        capability.capability() == "persona"
            && capability.reason()
                == Some("legacy and Next user homes overlap; refusing to write into the legacy directory")
    }));
}

#[test]
fn plans_of_other_workspaces_and_paths_that_escape_are_refused() {
    let files = one_session(OLD);
    let migration = migration(WorkspaceGrant::read_write(ROOT), None, None);
    let mut plan = plan(&migration, &files, "m");
    assert!(migration.validate_plan(&plan, &paths(&plan)).is_ok());
    let mut escaping = paths(&plan);
    escaping.items[0].target = outside();
    assert_eq!(
        migration.validate_plan(&plan, &escaping).expect_err("escape").to_string(),
        "invalid migration plan: canonical path escapes root: /work/.yunxi-next/sessions/legacy.json"
    );
    plan.items[0].target = "../legacy.json".to_string();
    assert!(migration.validate_plan(&plan, &paths(&plan)).is_err());
    plan.items[0].target = "legacy.txt".to_string();
    assert!(migration.validate_plan(&plan, &paths(&plan)).is_err());
    plan.workspace_root = "/other".to_string();
    assert_eq!(
        migration.validate_plan(&plan, &paths(&plan)).expect_err("elsewhere").to_string(),
        "invalid migration plan: migration plan belongs to a different workspace"
    );
    plan.schema_version = 2;
    assert_eq!(
        migration.validate_plan(&plan, &paths(&plan)).expect_err("version").to_string(),
        "invalid migration plan: unsupported migration plan schema_version=2"
    );
}

#[test]
fn homes_come_from_the_environment() {
    let some = |text: &str| Some(text.to_string());
    let environment = HomeEnvironment {
        migration_legacy_home: some(""),
        home: some("/home"),
        state_root: None,
        next_home: some("/next"),
    };
    let migration = SessionMigration::from_grant(
        &WorkspaceGrant::read_write(ROOT),
        ROOT,
        true,
        &roots(),
        &environment,
    )
    .expect("migration");
    assert_eq!(migration.legacy_home(), Some("/home"));
    assert_eq!(migration.next_home(), Some("/next"));
    assert_eq!(migration.workspace_root(), ROOT);
    assert_eq!(migration.directories().0, "/work/.yunxi/sessions");
    assert!(SessionMigration::from_grant_with_homes(
        &WorkspaceGrant::read_write(ROOT),
        ROOT,
        true,
        &roots(),
        Some(""),
        None,
    )
    .is_err());
}

#[test]
fn identifiers_paths_and_sizes_are_checked() {
    assert_eq!(new_migration_id(1, 2, 3), "sessions-1-2-3");
    assert!(validate_migration_id("sessions-1-2-3").is_ok());
    assert!(validate_migration_id("../up").is_err());
    assert!(validate_migration_id("").is_err());
    assert!(validate_relative_path("a/b").is_ok());
    assert!(validate_relative_path("").is_err());
    assert!(validate_relative_path("/a").is_err());
    assert!(validate_relative_path("a/../b").is_err());
    assert!(check_file_length("a", 5, 4).is_err());
    assert!(check_manifest_length(MANIFEST_MAX_BYTES + 1).is_err());
    assert!(check_copy_length("a", MAX_SESSION_FILE_BYTES + 1).is_err());
}

#[test]
fn records_are_completed_and_stay_as_they_are_after_that() {
    let line = r#"{"id":"a","scope":"global_user","kind":"preference","content":"Hello,  World 你好","created_at_millis":7}"#;
    let record = read_record(line).expect("record");
    let (normalized, relationship) = normalize_memory_record(record, true).expect("normalized");
    assert!(!relationship);
    assert_eq!(normalized.schema_version, 3);
    assert_eq!(normalized.updated_at_millis, 7);
    assert_eq!(normalized.temporal.observed_at_millis, 7);
    assert_eq!(normalized.temporal.valid_from_millis, Some(7));
    assert_eq!(normalized.layer, MemoryLayer::Preference);
    assert_eq!(normalized.dedup_key, "global_user|preference|hello world 你好");
    let again = normalized.clone();
    let (twice, _) = normalize_memory_record(again, true).expect("normalized twice");
    assert_eq!(twice, normalized);
    assert_eq!(normalize_memory_content("  A-B\tC  "), "ab c");
}

#[test]
fn records_that_break_the_rules_are_refused() {
    let record = || {
        read_record(r#"{"id":"a","scope":"global_user","kind":"preference","content":"text"}"#)
            .expect("record")
    };
    let message = |record: MemoryRecord, finite: bool| {
        normalize_memory_record(record, finite).expect_err("refused")
    };
    let mut future = record();
    future.schema_version = 4;
    assert_eq!(message(future, true), "unsupported future schema_version=4");
    assert_eq!(message(record(), false), "confidence and importance must be finite");
    let mut blank = record();
    blank.id = " ".to_string();
    assert_eq!(message(blank, true), "id must not be empty");
    let mut spaced = record();
    spaced.id = "a b".to_string();
    assert_eq!(message(spaced, true), "id contains whitespace");
    let mut long = record();
    long.id = "x".repeat(257);
    assert_eq!(message(long, true), "id exceeds 256 characters");
    let mut control = record();
    control.content = "a\u{7}b".to_string();
    assert_eq!(message(control, true), "content contains a control character");
    let mut many = record();
    many.invalidation.supersedes = vec!["x".to_string(); 257];
    assert_eq!(message(many, true), "invalidation reference count exceeds 256");
}

#[test]
fn a_copy_never_takes_a_place_that_is_taken() {
    let bytes = b"copy".to_vec();
    let refused = || Err("refused".to_string());
    assert_eq!(
        conclude_copy(&bytes, true, refused(), true, "/work/t").expect("outcome"),
        CopyOutcome::TargetAppeared
    );
    assert_eq!(
        conclude_copy(&bytes, false, refused(), true, "/work/t").expect("outcome"),
        CopyOutcome::TargetAppeared
    );
    assert_eq!(
        conclude_copy(&bytes, false, Ok(()), true, "/work/t").expect("outcome"),
        CopyOutcome::copied(&bytes)
    );
    assert!(matches!(
        conclude_copy(&bytes, false, refused(), false, "/work/t"),
        Err(MigrationError::Io { path, message }) if path == "/work/t" && message == "refused"
    ));
}

#[test]
fn plans_write_only_new_state_and_no_place_twice() {
    let record = br#"{"id":"same","cwd":".","prompt":"old"}"#.to_vec();
    let mut files = Files::new();
    files.insert(format!("{ROOT}/.yunxi/sessions/a.json"), record.clone());
    files.insert(format!("{ROOT}/.yunxi/sessions/b.json"), record);
    files.insert(format!("{ROOT}/.yunxi/sessions/broken.json"), b"{".to_vec());
    let memory = br#"{"id":"m","scope":"global_user","kind":"preference","content":"tea"}"#;
    files.insert(format!("{ROOT}/.yunxi/memory/pending.jsonl"), memory.to_vec());
    let migration = migration(WorkspaceGrant::read_write(ROOT), None, None);
    let plan = plan(&migration, &files, "m-1");
    assert!(plan.manifest_path().starts_with(".yunxi-next/"));
    assert_eq!(plan.items().len(), 4);
    assert_eq!(plan.ready_count(), 2);
    for (index, item) in plan.items().iter().enumerate() {
        assert!(item.target().is_empty() || item.target().starts_with(".yunxi-next/"));
        for other in &plan.items()[..index] {
            assert!(!item.is_ready() || other.target() != item.target());
        }
    }
    let grant = WorkspaceGrant::read_write(ROOT);
    let overlapping = self::migration(grant, Some("/old"), Some("/old/x"));
    let mut home = Files::new();
    home.insert("/old/settings.json".to_string(), b"{}".to_vec());
    assert!(self::plan(&overlapping, &home, "m-2").items().is_empty());
}

#[test]
fn a_memory_file_is_normalized_whole_and_only_once() {
    let text = "\n{\"id\":\"a\",\"scope\":\"relationship\",\"kind\":\"preference\",\"content\":\"tea\"}\n  \n{\"id\":\"b\",\"scope\":\"global_user\",\"kind\":\"preference\",\"content\":\"milk\"}";
    let first = normalize(&text.as_bytes().to_vec()).expect("normalized");
    let lines = String::from_utf8(first.bytes().clone()).expect("text");
    assert!(lines.ends_with('\n'));
    assert_eq!(lines.lines().count(), 2);
    assert!(lines.lines().next().expect("line").contains("\"id\":\"a\""));
    assert_eq!(first.relationship_count(), 1);
    let again = normalize(first.bytes()).expect("normalized again");
    assert_eq!(again, first);
    let spoiled = format!("{lines}not-json\n").into_bytes();
    assert!(normalize(&spoiled).is_err());
}
