//! The legacy event log and its import.
use yunxi::fingerprint::stable_fingerprint;
use yunxi::grants::WorkspaceGrant;
use yunxi::paths::{components, Location};
use yunxi::storage::event_import::{
    check_manifest, check_manifest_length, check_normalized_length, new_import_id,
    EventImportManifest, EventImportState, LegacyEventLogMigration, SourceProbe, MAX_IMPORT_MANIFEST_BYTES,
};
use yunxi::storage::event_log::{EventLogError, LegacyEventLog};
use yunxi::storage::events::LegacyEventKind;

fn place(path: &str) -> Location {
    Location { display: path.to_string(), components: components(path) }
}

fn importer(grant: &WorkspaceGrant) -> LegacyEventLogMigration {
    let probe = SourceProbe {
        resolved_root: Some(place("/work/.yunxi/sessions")),
        resolved_source: Some(place("/work/.yunxi/sessions/session.jsonl")),
        written_root: place("/work/.yunxi/sessions"),
        written_source: place("/work/.yunxi/sessions/session.jsonl"),
    };
    LegacyEventLogMigration::from_grant(
        grant,
        place("/work"),
        true,
        &probe,
        place("/work/.yunxi/sessions/session.jsonl"),
    )
    .expect("migration")
}

fn log(content: &[u8]) -> LegacyEventLog {
    LegacyEventLog::open("/work/.yunxi/sessions/session.jsonl", Some(content.to_vec()))
        .expect("open")
}

#[test]
fn replay_preserves_event_kinds_and_uses_physical_cursor() {
    let content = concat_lines(&[
        r#"{"type":"session_meta","session_id":"s-1","cwd":"ignored"}"#,
        r#"{"type":"user","message":{"content":"hello"}}"#,
        r#"{"type":"assistant","message":{"content":"hi"}}"#,
        r#"{"type":"function_call","call_id":"c-1","name":"shell","arguments":{"token":"must drop"}}"#,
        r#"{"type":"turn_completed","status":"completed"}"#,
    ]);
    let log = log(content.as_bytes());
    let first = log.replay(0, 2).expect("first page");
    assert_eq!(first.events().len(), 2);
    assert_eq!(first.events()[0].kind(), LegacyEventKind::Session);
    assert_eq!(first.events()[1].kind(), LegacyEventKind::Session);
    assert!(first.has_more());
    let second = log.replay(first.next_cursor(), 8).expect("second page");
    assert_eq!(second.events().len(), 3);
    assert_eq!(second.events()[0].kind(), LegacyEventKind::Assistant);
    assert_eq!(second.events()[1].kind(), LegacyEventKind::Tool);
    assert!(second.events()[1].redacted_fields().contains(&"arguments".to_string()));
    assert_eq!(second.events()[2].kind(), LegacyEventKind::Lifecycle);
}

fn concat_lines(lines: &[&str]) -> String {
    let mut out = lines.join("\n");
    out.push('\n');
    out
}

#[test]
fn malformed_lines_are_isolated_and_do_not_repeat() {
    let log = LegacyEventLog::open(
        "events.jsonl",
        Some(b"not-json\n{\"type\":\"assistant\",\"text\":\"ok\"}\n".to_vec()),
    )
    .expect("open");
    let page = log.replay(0, 10).expect("replay");
    assert_eq!(page.events().len(), 1);
    assert_eq!(page.events()[0].source_line(), 2);
    assert_eq!(page.warnings().len(), 1);
    assert!(!page.has_more());
    let empty = log.replay(page.next_cursor(), 10).expect("replay end");
    assert!(empty.events().is_empty());
    assert_eq!(empty.next_cursor(), 2);
}

#[test]
fn import_is_read_only_non_overwriting_and_reversible() {
    let source = b"{\"type\":\"user\",\"message\":\"hello\"}\n";
    let migration = importer(&WorkspaceGrant::read_write("/work"));
    let plan = migration
        .plan(Ok(log(source)), new_import_id(5, 7, 1), false)
        .expect("plan");
    assert_eq!(plan.event_count(), 1);
    assert_eq!(plan.migration_id(), "events-5-7-1");
    assert!(migration.apply(&plan, Ok(log(source))).is_ok());
    let written = b"normalized\n".to_vec();
    let report = migration.report(&plan);
    assert_eq!(report.imported_events(), 1);
    assert_eq!(report.target(), "/work/.yunxi-next/migrations/events/events-5-7-1.jsonl");
    let second = migration
        .plan(Ok(log(source)), new_import_id(5, 7, 2), false)
        .expect("new plan");
    assert_ne!(plan.target(), second.target());
    let manifest = EventImportManifest::new(plan, &written);
    let edited = migration
        .rollback("events-5-7-1", &manifest, Some(b"user changed imported event".to_vec()))
        .expect("rollback");
    assert!(!edited.removed());
    assert!(edited.preserved());
    let untouched = migration
        .rollback("events-5-7-1", &manifest, Some(written.clone()))
        .expect("rollback");
    assert!(untouched.removed());
    assert_eq!(untouched.target(), "/work/.yunxi-next/migrations/events/events-5-7-1.jsonl");
    assert!(manifest.is_withdrawn(&Some(written)));
    assert!(!manifest.is_withdrawn(&Some(b"changed".to_vec())));
    assert!(!manifest.is_withdrawn(&None));
}

#[test]
fn unsupported_formats_and_read_only_grants_are_explicit() {
    assert!(matches!(
        LegacyEventLog::open("/work/.yunxi/sessions/session.json", Some(b"{}".to_vec())),
        Err(EventLogError::UnsupportedFormat(_))
    ));
    let reader = importer(&WorkspaceGrant::read_only("/work"));
    let plan = reader.plan(Ok(log(b"{}\n")), new_import_id(1, 1, 1), false).expect("plan");
    assert!(reader.apply(&plan, Ok(log(b"{}\n"))).is_err());
}

#[test]
fn changed_sources_and_existing_targets_stop_an_import() {
    let migration = importer(&WorkspaceGrant::read_write("/work"));
    let plan = migration
        .plan(Ok(log(b"{\"type\":\"user\"}\n")), new_import_id(1, 1, 1), false)
        .expect("plan");
    assert!(matches!(plan.state(), EventImportState::Ready));
    assert!(migration.apply(&plan, Ok(log(b"{\"type\":\"other\"}\n"))).is_err());
    let taken = migration
        .plan(Ok(log(b"{\"type\":\"user\"}\n")), new_import_id(1, 1, 2), true)
        .expect("plan");
    assert!(matches!(taken.state(), EventImportState::TargetExists));
}

#[test]
fn fingerprints_follow_the_bytes() {
    assert_eq!(stable_fingerprint(&Vec::new()), 0xcbf29ce484222325);
    assert_eq!(stable_fingerprint(&b"a".to_vec()), 0xaf63dc4c8601ec8c);
    let log = log(b"a");
    assert_eq!(log.byte_count(), 1);
    assert!(log.source_fingerprint().contains("af63dc4c8601ec8c"));
}

#[test]
fn manifests_are_bounded_and_versioned() {
    assert!(check_manifest_length(MAX_IMPORT_MANIFEST_BYTES).is_ok());
    assert!(check_manifest_length(MAX_IMPORT_MANIFEST_BYTES + 1).is_err());
    let migration = importer(&WorkspaceGrant::read_write("/work"));
    let plan = migration
        .plan(Ok(log(b"{}\n")), new_import_id(1, 1, 1), false)
        .expect("plan");
    let mut manifest = EventImportManifest::new(plan, &b"x".to_vec());
    manifest.schema_version = 9;
    assert_eq!(
        check_manifest(manifest).expect_err("version").to_string(),
        "invalid event import manifest: unsupported manifest schema version"
    );
    assert!(migration.manifest_path("../up").is_err());
}

#[test]
fn secrets_in_events_are_never_copied() {
    let log = log(b"{\"type\":\"user\",\"text\":\"hi\",\"api_key\":\"TOP-SECRET\",\"token\":\"T\"}\n");
    let page = log.replay(0, 1).expect("page");
    let event = &page.events()[0];
    assert!(!format!("{event:?}").contains("TOP-SECRET"));
    let summary = log.summary().expect("summary");
    assert_eq!(summary.line_count(), 1);
    assert_eq!(summary.event_count(), 1);
    assert_eq!(summary.malformed_line_count(), 0);
}

#[test]
fn every_event_is_handed_out_once_and_in_order() {
    let mut text = String::new();
    for index in 0..300 {
        text.push_str(&format!("{{\"type\":\"user\",\"message\":\"m{index}\"}}\n"));
        text.push_str("broken\n");
    }
    let events = log(text.as_bytes()).normalized_events();
    assert_eq!(events.len(), 300);
    for (index, event) in events.iter().enumerate() {
        assert_eq!(event.source_line(), 2 * index as u64 + 1);
    }
    assert!(log(b"broken\n").normalized_events().is_empty());
}

#[test]
fn an_imported_log_is_bounded() {
    assert!(check_normalized_length(8 * 1024 * 1024).is_ok());
    assert_eq!(
        check_normalized_length(8 * 1024 * 1024 + 1).expect_err("too long").to_string(),
        "invalid event import plan: normalized event log exceeds the storage limit"
    );
}
