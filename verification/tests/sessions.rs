//! Stored sessions, the store that keeps them and how they are listed.
use yunxi::grants::WorkspaceGrant;
use yunxi::json::parse_json;
use yunxi::plugin::dispatch::{dispatch, HostAction, HostMessage, Reply};
use yunxi::storage::listing::{
    collect_scan, scan_root, DirectoryEntry, ScanOutcome, ScanStep,
};
use yunxi::storage::plugin::{contract, respond, StoragePluginError};
use yunxi::storage::record::{
    generate_id, preview_title, validate_session_id, ChatRole, StoredSession, MAX_MESSAGES,
};
use yunxi::storage::store::{
    accept_record, check_length, choose_content, choose_record, read_legacy_record, FoundRecord,
    SessionMutation, SessionStore, StorageError, MAX_SESSION_FILE_BYTES,
};

const LEGACY: &str = r#"{"id":"yunxi-old","cwd":".","prompt":"old","final_response":"reply","created_at_millis":1}"#;

fn store() -> SessionStore {
    SessionStore::from_grant(&WorkspaceGrant::read_write("/work"), "/work", true).expect("store")
}

#[test]
fn legacy_record_projects_to_chat_messages() {
    let value = parse_json(
        br#"{"id":"yunxi-1-1","cwd":".","prompt":"hello","final_response":"hi","created_at_millis":1,"updated_at_millis":2}"#,
    )
    .expect("JSON");
    let record = StoredSession::from_legacy(&value).expect("project legacy record");
    let snapshot = record.snapshot(true);
    assert_eq!(snapshot.session.messages.len(), 2);
    assert!(snapshot.legacy);
}

#[test]
fn unsafe_session_ids_are_rejected() {
    assert!(validate_session_id("../outside").is_err());
    assert!(validate_session_id("valid-session_1").is_ok());
}

#[test]
fn writes_next_namespace_and_only_reads_legacy_namespace() {
    let store = store();
    let (next, legacy) = store.candidates("yunxi-old").expect("candidates");
    assert_eq!(next, "/work/.yunxi-next/sessions/yunxi-old.json");
    assert_eq!(legacy.as_deref(), Some("/work/.yunxi/sessions/yunxi-old.json"));

    let record = read_legacy_record(&legacy.expect("legacy"), &LEGACY.as_bytes().to_vec())
        .expect("legacy record");
    let found = FoundRecord { session: record, legacy: true };
    let (snapshot, warnings) = store.load(Ok(Some(found))).expect("load legacy");
    assert!(snapshot.expect("legacy session").legacy);
    assert!(warnings.is_empty());

    let saved = store
        .append(None, None, "new", "reply", None, None, 5, 1)
        .expect("append session");
    assert_eq!(
        store.save_target(&saved, 100).expect("target"),
        format!("/work/.yunxi-next/sessions/{}.json", saved.id())
    );
}

#[test]
fn missing_target_is_read_from_interrupted_replacement_backup() {
    let entries = vec![
        DirectoryEntry::File { name: "a.json".to_string(), original_exists: true },
        DirectoryEntry::File { name: "a.json.bak".to_string(), original_exists: true },
        DirectoryEntry::File { name: "b.json.bak".to_string(), original_exists: false },
        DirectoryEntry::File { name: "notes.txt".to_string(), original_exists: true },
        DirectoryEntry::Unreadable("gone".to_string()),
    ];
    let steps = scan_root("/work/.yunxi-next/sessions", false, &entries);
    assert_eq!(
        steps.iter().filter(|step| matches!(step, ScanStep::ReadNext(_))).count(),
        2
    );
    assert!(steps.contains(&ScanStep::ReadNext("b.json".to_string())));
}

#[test]
fn sessions_of_another_workspace_need_leave_to_write() {
    let reader =
        SessionStore::from_grant(&WorkspaceGrant::read_only("/work"), "/work", true).expect("store");
    let error = reader
        .append(None, None, "new", "reply", None, None, 5, 1)
        .expect_err("no leave to write");
    assert!(matches!(error, StorageError::WriteNotGranted));
    assert_eq!(error.code(), "write_not_granted");
    assert!(matches!(
        SessionStore::from_grant(&WorkspaceGrant::read_only("/work"), "/work", false),
        Err(StorageError::NotDirectory(_))
    ));
}

#[test]
fn appending_to_a_session_keeps_what_was_said() {
    let store = store();
    let first = store
        .append(None, None, "hello", "hi", Some("provider"), Some("model"), 5, 1)
        .expect("first");
    assert_eq!(first.messages.len(), 2);
    assert_eq!(first.messages[0].role, ChatRole::User);
    assert_eq!(first.title, "hello");
    let id = first.id().to_string();
    let second = store
        .append(
            Some(&id),
            Some(FoundRecord { session: first, legacy: false }),
            "more",
            "yes",
            None,
            None,
            9,
            2,
        )
        .expect("second");
    assert_eq!(second.id(), id);
    assert_eq!(second.messages.len(), 4);
    assert_eq!(second.provider.as_deref(), Some("provider"));
    assert_eq!(second.updated_at_millis, 9);
    assert_eq!(second.created_at_millis, 5);
    assert!(matches!(
        store.append(Some("missing"), None, "a", "b", None, None, 9, 3),
        Err(StorageError::NotFound(_))
    ));
}

#[test]
fn legacy_sessions_are_changed_only_as_forks() {
    let store = store();
    let record =
        read_legacy_record("old.json", &LEGACY.as_bytes().to_vec()).expect("legacy record");
    let again =
        read_legacy_record("old.json", &LEGACY.as_bytes().to_vec()).expect("legacy record");
    assert!(matches!(
        store.mutate(
            "yunxi-old",
            Some(FoundRecord { session: record, legacy: true }),
            SessionMutation::Archive,
            9,
            1,
        ),
        Err(StorageError::LegacyReadOnly(_))
    ));
    let fork = store
        .mutate(
            "yunxi-old",
            Some(FoundRecord { session: again, legacy: true }),
            SessionMutation::Fork,
            9,
            1,
        )
        .expect("fork")
        .expect("a new session");
    assert_eq!(fork.parent_id.as_deref(), Some("yunxi-old"));
    assert_ne!(fork.id(), "yunxi-old");
}

#[test]
fn sessions_are_pinned_and_archived() {
    let store = store();
    let session = store.create(5, 1).expect("create");
    let id = session.id().to_string();
    let pinned = store
        .mutate(
            &id,
            Some(FoundRecord { session, legacy: false }),
            SessionMutation::Pin,
            6,
            2,
        )
        .expect("pin")
        .expect("changed");
    assert!(pinned.pinned);
    let archived = store
        .mutate(
            &id,
            Some(FoundRecord { session: pinned, legacy: false }),
            SessionMutation::Archive,
            7,
            3,
        )
        .expect("archive")
        .expect("changed");
    assert!(archived.archived && archived.pinned);
    assert!(store.mutate("missing", None, SessionMutation::Pin, 7, 3).expect("nothing").is_none());
}

#[test]
fn lists_hide_archived_sessions_and_keep_their_limit() {
    let store = store();
    let mut outcomes = Vec::new();
    for index in 0..5u64 {
        let mut session = store.create(index as u128, index).expect("create");
        session.set_archived(index == 0, index as u128);
        session.set_pinned(index == 1, index as u128);
        outcomes.push(ScanOutcome::Record(session));
    }
    outcomes.push(ScanOutcome::Missing);
    outcomes.push(ScanOutcome::Failed(StorageError::WriteNotGranted));
    let (sessions, warnings) = collect_scan(&outcomes, false);
    assert_eq!(sessions.len(), 5);
    assert_eq!(warnings.len(), 1);
    let result = store.list(&outcomes, &Vec::new(), false, 3);
    let shown = result.sessions;
    assert_eq!(shown.len(), 3);
    assert!(result.truncated);
    assert_eq!(result.warnings, warnings);
    assert!(shown[0].session.pinned);
    assert_eq!(shown[1].session.updated_at_millis, 4);
    assert!(shown.iter().all(|snapshot| !snapshot.session.archived));
}

#[test]
fn records_are_checked_when_they_are_read() {
    assert!(matches!(
        accept_record("a.json", Err("no JSON".to_string())),
        Err(StorageError::InvalidRecord(message))
            if message == "failed to parse session a.json: no JSON"
    ));
    let mut session = StoredSession::new(".", "a", "b", 1, 1).expect("session");
    session.id = "../up".to_string();
    assert!(accept_record("a.json", Ok(session)).is_err());
    assert!(read_legacy_record("a.json", &b"[]".to_vec()).is_err());
    assert!(read_legacy_record("a.json", &b"{\"id\":\"x\"}".to_vec()).is_err());
    let error = check_length("a.json", MAX_SESSION_FILE_BYTES + 1).expect_err("too large");
    assert_eq!(error.to_string(), "session file a.json exceeds 8388608 bytes");
}

#[test]
fn identifiers_and_titles_are_made_from_what_is_given() {
    assert_eq!(generate_id(12, 3), "yn-12-3");
    assert!(validate_session_id(&generate_id(u128::MAX, u64::MAX)).is_ok());
    assert_eq!(preview_title("  hello  "), "hello");
}

#[test]
fn sessions_hold_a_bounded_number_of_messages() {
    let mut session = StoredSession::new(".", "a", "b", 1, 1).expect("session");
    let mut appended = 0;
    while session.append("a", "b", None, None, 2).is_ok() {
        appended += 1;
        assert!(appended < 1_000);
    }
    assert!(session.messages.len() <= MAX_MESSAGES);
    assert!(session.validate().is_ok());
}

#[test]
fn storage_plugin_tells_capabilities_from_operations() {
    let contract = contract("storage.sessions", 1, vec!["list".to_string()]);
    let invoke = |capability: &str, operation: &str| HostMessage::Invoke {
        request_id: 3,
        capability: capability.to_string(),
        version: 1,
        operation: operation.to_string(),
    };
    assert!(matches!(
        dispatch(&contract, invoke("other", "list")),
        HostAction::Refuse { code: "unsupported_capability", .. }
    ));
    assert!(matches!(
        dispatch(&contract, invoke("storage.sessions", "other")),
        HostAction::Refuse { code: "unsupported_operation", .. }
    ));
    assert!(matches!(
        dispatch(&contract, invoke("storage.sessions", "list")),
        HostAction::Run { request_id: 3, .. }
    ));
    let failed: Reply<u8> = respond(
        3,
        Err(StoragePluginError::Storage(StorageError::NotFound("x".to_string()))),
    );
    assert!(matches!(
        failed,
        Reply::Failed { request_id: 3, code: "session_not_found", message, retryable: false }
            if message == "session `x` was not found"
    ));
    let done = respond(4, Ok(7u8));
    assert!(matches!(done, Reply::Completed { request_id: 4, result: 7 }));
}

#[test]
fn a_legacy_session_is_copied_and_its_file_is_left_alone() {
    let store = store();
    let legacy = StoredSession::new("/work", "hello", "hi", 1, 1).expect("session");
    let legacy_id = legacy.id().to_string();
    let found = FoundRecord { session: legacy, legacy: true };
    let session = store
        .append(Some(&legacy_id), Some(found), "more", "sure", None, None, 9, 2)
        .expect("append");
    assert_eq!(session.messages.len(), 4);
    assert_eq!(session.messages[0].content, "hello");
    assert_eq!(session.messages[2].content, "more");
    assert_ne!(session.id(), legacy_id);
    assert_eq!(session.parent_id.as_deref(), Some(legacy_id.as_str()));
    let (next, older) = store.candidates(&legacy_id).expect("candidates");
    assert_eq!(next, format!("/work/.yunxi-next/sessions/{legacy_id}.json"));
    assert_eq!(older, Some(format!("/work/.yunxi/sessions/{legacy_id}.json")));
    let target = store.save_target(&session, 1).expect("target");
    assert_eq!(target, format!("/work/.yunxi-next/sessions/{}.json", session.id()));
}

#[test]
fn records_are_looked_for_in_their_order() {
    let session = |title: &str| {
        let mut session = StoredSession::new("/work", "a", "b", 1, 1).expect("session");
        session.title = title.to_string();
        session
    };
    let found = choose_record(Ok(Some(session("new"))), Some(Ok(Some(session("old")))))
        .expect("record")
        .expect("record");
    assert!(!found.legacy && found.session.title == "new");
    let found = choose_record(Ok(None), Some(Ok(Some(session("old")))))
        .expect("record")
        .expect("record");
    assert!(found.legacy && found.session.title == "old");
    assert!(choose_record(Ok(None), None).expect("nothing").is_none());
    assert!(choose_record(Ok(None), Some(Ok(None))).expect("nothing").is_none());
    let broken = || Err(StorageError::InvalidRecord("broken".to_string()));
    assert!(choose_record(broken(), Some(Ok(Some(session("old"))))).is_err());
    assert!(choose_record(Ok(None), Some(broken())).is_err());

    let refused = || Err(StorageError::WriteNotGranted);
    let content = |byte: u8| Ok(Some(vec![byte]));
    assert_eq!(choose_content(content(1), content(2)).expect("content"), Some((vec![1], false)));
    assert_eq!(choose_content(Ok(None), content(2)).expect("content"), Some((vec![2], true)));
    assert_eq!(choose_content(Ok(None), Ok(None)).expect("content"), None);
    assert!(choose_content(refused(), content(2)).is_err());
    assert!(choose_content(Ok(None), refused()).is_err());
}
