//! The secret broker, its model, its audit and its stores.
use yunxi::secret_broker::audit::{AuditOperation, AuditOutcome};
use yunxi::secret_broker::broker::SecretBroker;
use yunxi::secret_broker::error::{BoundedItem, InputField, SecretError, SecretStoreError};
use yunxi::secret_broker::model::{PluginId, SecretKey, SecretRef, SecretValue};
use yunxi::secret_broker::snapshot::{
    check_existing_file, decode_snapshot, encode_snapshot, FileSecretStore, StoredFile,
};
use yunxi::secret_broker::store::{
    EnvironmentSecretStore, EnvironmentValue, MemorySecretStore, SecretStore,
};
use yunxi::secret_broker::{
    MASTER_KEY_BYTES, MAX_AUDIT_EVENTS, MAX_PLUGIN_ID_BYTES, MAX_SECRET_KEY_BYTES, MAX_SECRET_REFS,
    MAX_SECRET_STORE_ENTRIES, MAX_SECRET_VALUE_BYTES,
};

fn fixture() -> (SecretBroker<MemorySecretStore>, PluginId, SecretKey) {
    let mut store = MemorySecretStore::new();
    let key = SecretKey::new("provider-token").expect("valid key");
    store.insert(&key, b"TOP-SECRET-VALUE").expect("insert succeeds");
    let plugin = PluginId::new("model-openai").expect("valid plugin");
    (SecretBroker::new(1, store), plugin, key)
}

#[test]
fn authorization_is_scoped_and_references_are_one_shot() {
    let (mut broker, plugin, key) = fixture();
    let other = PluginId::new("untrusted-plugin").expect("valid plugin");
    let reference = broker.issue(&plugin, &key).expect("issue succeeds");
    assert!(matches!(broker.resolve_once(reference.clone(), &other), Err(SecretError::Denied)));
    let value = broker
        .resolve_once(reference.clone(), &plugin)
        .expect("the wrong requester cannot burn the grant");
    assert!(value.with_bytes(|bytes: &[u8]| bytes == b"TOP-SECRET-VALUE"));
    assert!(matches!(
        broker.resolve_once(reference, &plugin),
        Err(SecretError::AlreadyResolved)
    ));
}

#[test]
fn disabled_plugin_cannot_use_an_already_issued_reference() {
    let (mut broker, plugin, key) = fixture();
    let reference = broker.issue(&plugin, &key).expect("issue succeeds");
    broker.set_plugin_enabled(&plugin, false).expect("toggle succeeds");
    assert!(matches!(
        broker.resolve_once(reference, &plugin),
        Err(SecretError::InvalidReference)
    ));
}

#[test]
fn callback_gets_bytes_and_value_is_not_returned_by_injection() {
    let (mut broker, plugin, key) = fixture();
    let reference = broker.issue(&plugin, &key).expect("issue succeeds");
    let length = broker
        .with_secret(reference, &plugin, |bytes: &[u8]| bytes.len())
        .expect("injection succeeds");
    assert_eq!(length, 16);
}

#[test]
fn missing_secret_is_explicit_and_audit_is_metadata_only() {
    let store = MemorySecretStore::new();
    let key = SecretKey::new("missing-key").expect("valid key");
    let plugin = PluginId::new("test-plugin").expect("valid plugin");
    let mut broker = SecretBroker::new(1, store);
    let reference = broker.issue(&plugin, &key).expect("issue succeeds");
    assert!(matches!(broker.resolve_once(reference, &plugin), Err(SecretError::Missing)));
    let audit = broker.audit_snapshot().expect("audit succeeds");
    assert_eq!(audit[0].outcome, AuditOutcome::Missing);
    assert_eq!(audit[0].value_len, None);
}

#[test]
fn bounds_are_enforced_without_echoing_inputs() {
    let oversized = "x".repeat(MAX_SECRET_VALUE_BYTES + 1);
    let error = SecretValue::new(oversized.as_bytes()).err().expect("value must be bounded");
    assert!(error.to_string().contains("secret value"));
    assert!(!error.to_string().contains("x".repeat(32).as_str()));

    let error = PluginId::new("").expect_err("plugin must be non-empty");
    assert_eq!(error, SecretError::EmptyInput { field: InputField::PluginId });
}

#[test]
fn outstanding_reference_count_is_bounded() {
    let (mut broker, plugin, key) = fixture();
    let mut references = Vec::with_capacity(MAX_SECRET_REFS);
    for _ in 0..MAX_SECRET_REFS {
        references.push(broker.issue(&plugin, &key).expect("reference fits bound"));
    }
    assert!(matches!(
        broker.issue(&plugin, &key),
        Err(SecretError::TooManyReferences { .. })
    ));
    drop(references);
}

#[test]
fn disabling_a_plugin_releases_pending_grant_capacity() {
    let (mut broker, plugin, key) = fixture();
    let mut references = Vec::new();
    for _ in 0..MAX_SECRET_REFS {
        references.push(broker.issue(&plugin, &key).expect("reference fits bound"));
    }
    broker.set_plugin_enabled(&plugin, false).expect("disable plugin");
    broker.set_plugin_enabled(&plugin, true).expect("re-enable plugin");

    assert!(matches!(
        broker.resolve_once(references[0].clone(), &plugin),
        Err(SecretError::InvalidReference)
    ));
    assert!(broker.issue(&plugin, &key).is_ok());
}

#[test]
fn json_debug_display_and_errors_do_not_contain_secret_bytes() {
    let secret = "TOP-SECRET-VALUE";
    let (mut broker, plugin, key) = fixture();
    let reference = broker.issue(&plugin, &key).expect("issue succeeds");
    let value = broker.resolve_once(reference, &plugin).expect("resolve succeeds");
    let events = broker.audit_snapshot().expect("audit succeeds");
    let json = events[0].to_json();
    assert!(!json.contains(secret));
    assert!(!format!("{:?}", events[0]).contains(secret));
    assert!(!events[0].to_string().contains(secret));
    assert!(!value.to_string().contains(secret));
    assert!(!value.to_debug_string().contains(secret));
    assert!(!SecretError::Denied.to_string().contains(secret));
    assert!(!SecretError::Missing.to_string().contains(secret));
}

#[test]
fn secret_value_debug_and_display_are_redacted() {
    let secret = "json-debug-display-secret";
    let value = SecretValue::new(secret.as_bytes()).expect("value is within bounds");
    assert!(!value.to_debug_string().contains(secret));
    assert!(!value.to_string().contains(secret));
    assert_eq!(value.with_bytes(|bytes: &[u8]| bytes.len()), secret.len());
}

#[test]
fn secret_ref_debug_and_display_are_redacted() {
    let reference = SecretRef::new(7, 11);
    assert!(!reference.to_debug_string().contains("7"));
    assert!(!reference.to_debug_string().contains("11"));
    assert_eq!(reference.to_string(), "<secret-ref>");
}

#[test]
fn memory_store_returns_a_copy_without_exposing_its_contents() {
    let mut store = MemorySecretStore::new();
    let key = SecretKey::new("test-key").expect("valid key");
    store.insert(&key, b"value").expect("insert succeeds");
    let first = store.get(&key).expect("secret exists");
    let second = store.get(&key).expect("secret still exists");
    assert!(first.with_bytes(|bytes: &[u8]| bytes == b"value"));
    assert_eq!(second.len(), 5);
}

#[test]
fn environment_store_reports_missing_without_value_data() {
    let store = EnvironmentSecretStore::new("YUNXI_SECRET_BROKER_MISSING_").expect("valid prefix");
    let key = SecretKey::new("definitely-not-set").expect("valid key");
    assert!(matches!(
        store.get(&key, EnvironmentValue::Unset),
        Err(SecretStoreError::Missing)
    ));
}

#[test]
fn callback_panic_is_audited_and_reference_is_consumed() {
    let (mut broker, plugin, key) = fixture();
    let reference = broker.issue(&plugin, &key).expect("issue succeeds");
    assert!(broker.begin(AuditOperation::Inject, reference.clone(), &plugin).is_ok());
    broker.callback_panicked(&plugin, 1);
    assert!(matches!(
        broker.with_secret(reference, &plugin, |_: &[u8]| ()),
        Err(SecretError::AlreadyResolved)
    ));
    let audit = broker.audit_snapshot().expect("audit succeeds");
    assert_eq!(audit[0].outcome, AuditOutcome::CallbackPanicked);
    assert_eq!(audit[0].value_len, None);
}

#[test]
fn file_store_round_trips_without_plaintext_on_disk() {
    let key = SecretKey::new("provider-token").expect("valid key");
    let secret = b"TOP-SECRET-FILE-VALUE";
    let store = FileSecretStore::new("secrets.bin", &[7_u8; MASTER_KEY_BYTES], &None)
        .expect("open store");
    let bytes = store.put(&None, &key, secret).expect("write secret");
    assert!(!bytes.windows(secret.len()).any(|window| window == secret));
    drop(store);
    let file = Some(bytes);
    let reopened =
        FileSecretStore::new("secrets.bin", &[7_u8; MASTER_KEY_BYTES], &file).expect("reopen");
    let value = reopened.get(&file, &key).expect("read secret");
    assert!(value.with_bytes(|bytes: &[u8]| bytes == secret));
}

#[test]
fn malformed_and_tampered_files_are_rejected_without_detail() {
    let malformed = Some(b"not-a-secret-store".to_vec());
    let error = FileSecretStore::new("secrets.bin", &[1_u8; MASTER_KEY_BYTES], &malformed)
        .err()
        .expect("malformed file must fail");
    assert_eq!(error, SecretStoreError::Corrupt);
    assert!(!error.to_string().contains("not-a-secret-store"));

    let key = SecretKey::new("key").expect("valid key");
    let store = FileSecretStore::new("secrets.bin", &[2_u8; MASTER_KEY_BYTES], &None)
        .expect("open store");
    let mut bytes = store.put(&None, &key, b"tamper-me").expect("write secret");
    let last = bytes.len() - 1;
    bytes[last] ^= 1;
    let file = Some(bytes);
    let error = FileSecretStore::new("secrets.bin", &[2_u8; MASTER_KEY_BYTES], &file)
        .err()
        .expect("tamper must fail authentication");
    assert_eq!(error, SecretStoreError::Corrupt);
}

#[test]
fn wrong_key_is_indistinguishable_from_tamper() {
    let key = SecretKey::new("key").expect("valid key");
    let store = FileSecretStore::new("secrets.bin", &[3_u8; MASTER_KEY_BYTES], &None)
        .expect("open store");
    let bytes = store.put(&None, &key, b"secret").expect("write secret");
    let error = FileSecretStore::new("secrets.bin", &[4_u8; MASTER_KEY_BYTES], &Some(bytes))
        .err()
        .expect("wrong key must not decrypt");
    assert_eq!(error, SecretStoreError::Corrupt);
}

#[test]
fn failed_update_rolls_back_without_overwriting_previous_snapshot() {
    let key = SecretKey::new("key").expect("valid key");
    let store = FileSecretStore::new("secrets.bin", &[5_u8; MASTER_KEY_BYTES], &None)
        .expect("open store");
    let before = store.put(&None, &key, b"old-value").expect("write old value");
    let oversized = vec![b'x'; MAX_SECRET_VALUE_BYTES + 1];
    assert!(matches!(
        store.put(&Some(before.clone()), &key, &oversized),
        Err(SecretError::TooLarge { .. })
    ));
    let value = store.get(&Some(before), &key).expect("old value remains");
    assert!(value.with_bytes(|bytes: &[u8]| bytes == b"old-value"));
}

#[test]
fn file_store_updates_keep_what_was_stored_before() {
    let store = FileSecretStore::new("secrets.bin", &[6_u8; MASTER_KEY_BYTES], &None)
        .expect("open store");
    let mut file: Option<Vec<u8>> = None;
    for index in 0..8 {
        let key = SecretKey::new(&format!("key-{index}")).expect("valid key");
        let value = format!("value-{index}");
        file = Some(store.put(&file, &key, value.as_bytes()).expect("write value"));
    }
    for index in 0..8 {
        let key = SecretKey::new(&format!("key-{index}")).expect("valid key");
        let expected = format!("value-{index}");
        let value = store.get(&file, &key).expect("value was preserved");
        assert!(value.with_bytes(|bytes: &[u8]| bytes == expected.as_bytes()));
    }
    let (revision, _) = store.load(&file).expect("load");
    assert_eq!(revision, 8);
    let gone = SecretKey::new("key-3").expect("valid key");
    let after = store.remove(&file, &gone).expect("remove").expect("there was a value");
    assert!(matches!(store.get(&Some(after.clone()), &gone), Err(SecretStoreError::Missing)));
    assert!(store.remove(&Some(after), &gone).expect("remove again").is_none());
}

#[test]
fn file_store_sets_limits_on_paths_and_keys() {
    assert!(matches!(
        FileSecretStore::new("", &[1_u8; MASTER_KEY_BYTES], &None).err(),
        Some(SecretStoreError::InvalidPath)
    ));
    assert!(matches!(
        FileSecretStore::new("secrets.bin", &[1_u8; 16], &None).err(),
        Some(SecretStoreError::InvalidMasterKey { expected: MASTER_KEY_BYTES, actual: 16 })
    ));
    let store = FileSecretStore::new("secrets.bin", &[1_u8; MASTER_KEY_BYTES], &None)
        .expect("open store");
    assert_eq!(store.path(), "secrets.bin");
    let missing = SecretKey::new("nothing").expect("valid key");
    assert!(matches!(store.get(&None, &missing), Err(SecretStoreError::Missing)));
}

#[test]
fn audit_keeps_the_newest_events_and_counts_on() {
    let (mut broker, plugin, key) = fixture();
    for _ in 0..MAX_AUDIT_EVENTS + 3 {
        let reference = broker.issue(&plugin, &key).expect("issue");
        broker.resolve_once(reference, &plugin).expect("resolve");
    }
    let events = broker.audit_snapshot().expect("audit");
    assert_eq!(events.len(), MAX_AUDIT_EVENTS);
    assert_eq!(events[0].outcome, AuditOutcome::Success);
    assert_eq!(events[0].operation, AuditOperation::Resolve);
    assert_eq!(events[0].value_len, Some(16));
    let first = events[0].sequence;
    assert_eq!(events[events.len() - 1].sequence, first + (MAX_AUDIT_EVENTS as u64) - 1);
}

#[test]
fn plugins_are_on_until_they_are_switched_off() {
    let (mut broker, plugin, key) = fixture();
    assert!(broker.is_plugin_enabled(&plugin).expect("enabled"));
    broker.set_plugin_enabled(&plugin, false).expect("disable");
    assert!(!broker.is_plugin_enabled(&plugin).expect("disabled"));
    assert!(matches!(broker.issue(&plugin, &key), Err(SecretError::Denied)));
    let other = PluginId::new("other").expect("plugin");
    let reference = broker.issue(&other, &key).expect("others are not affected");
    assert!(broker.resolve_once(reference, &other).is_ok());
}

#[test]
fn references_of_another_broker_are_not_accepted() {
    let (mut broker, plugin, key) = fixture();
    let reference = broker.issue(&plugin, &key).expect("issue");
    let mut other = SecretBroker::new(2, MemorySecretStore::new());
    assert!(matches!(
        other.resolve_once(reference, &plugin),
        Err(SecretError::InvalidReference)
    ));
}

#[test]
fn broker_passes_changes_on_to_its_store() {
    let (mut broker, plugin, key) = fixture();
    broker.put(&key, b"next").expect("put");
    let reference = broker.issue(&plugin, &key).expect("issue");
    let value = broker.resolve_once(reference, &plugin).expect("resolve");
    assert!(value.with_bytes(|bytes: &[u8]| bytes == b"next"));
    assert!(broker.remove(&key).expect("remove"));
    assert!(!broker.remove(&key).expect("remove again"));
}

#[test]
fn identifiers_and_keys_are_bounded() {
    let long = "p".repeat(MAX_PLUGIN_ID_BYTES + 1);
    assert!(matches!(
        PluginId::new(&long),
        Err(SecretError::TooLarge { item: BoundedItem::PluginId, max: MAX_PLUGIN_ID_BYTES })
    ));
    let long = "k".repeat(MAX_SECRET_KEY_BYTES + 1);
    assert!(matches!(
        SecretKey::new(&long).err(),
        Some(SecretError::TooLarge { item: BoundedItem::SecretKey, max: MAX_SECRET_KEY_BYTES })
    ));
    assert!(matches!(
        SecretKey::new("a\nb").err(),
        Some(SecretError::InvalidInput { field: InputField::SecretKey })
    ));
    assert_eq!(PluginId::new("abc").expect("plugin").as_str(), "abc");
    assert_eq!(PluginId::new("abc").expect("plugin").to_string(), "abc");
}

#[test]
fn memory_store_is_bounded_in_entries() {
    let mut store = MemorySecretStore::new();
    for index in 0..MAX_SECRET_STORE_ENTRIES {
        let key = SecretKey::new(&format!("k{index}")).expect("key");
        store.insert(&key, b"v").expect("fits");
    }
    let one_more = SecretKey::new("one-more").expect("key");
    assert!(store.insert(&one_more, b"v").is_err());
    let known = SecretKey::new("k0").expect("key");
    store.insert(&known, b"w").expect("replacing fits");
    assert!(store.get(&known).expect("value").with_bytes(|bytes: &[u8]| bytes == b"w"));
}

#[test]
fn environment_store_names_variables_and_reads_values() {
    let store = EnvironmentSecretStore::new("YUNXI_").expect("prefix");
    assert_eq!(store.prefix(), "YUNXI_");
    let key = SecretKey::new("API_TOKEN").expect("key");
    assert_eq!(store.environment_name(&key).expect("name"), "YUNXI_API_TOKEN");
    let value = store
        .get(&key, EnvironmentValue::Text("value".to_string()))
        .expect("value");
    assert!(value.with_bytes(|bytes: &[u8]| bytes == b"value"));
    assert!(store.get(&key, EnvironmentValue::NotUnicode).is_err());
}

#[test]
fn links_and_directories_are_no_stores() {
    assert!(check_existing_file(StoredFile::Absent).is_ok());
    assert!(check_existing_file(StoredFile::RegularFile).is_ok());
    assert_eq!(check_existing_file(StoredFile::Link), Err(SecretStoreError::InvalidPath));
    assert_eq!(check_existing_file(StoredFile::Other), Err(SecretStoreError::InvalidPath));
}

#[test]
fn the_audit_keeps_the_newest_uses() {
    let (mut broker, plugin, key) = fixture();
    let uses = MAX_AUDIT_EVENTS as u64 + 6;
    for index in 0..uses / 2 {
        let reference = broker.issue(&plugin, &key).expect("issue");
        broker.resolve_once(reference, &plugin).expect("resolve");
        assert!(broker.resolve_once(reference, &plugin).is_err(), "use {index}");
    }
    let events = broker.audit_snapshot().expect("audit");
    assert_eq!(events.len(), MAX_AUDIT_EVENTS);
    for (index, event) in events.iter().enumerate() {
        assert_eq!(event.sequence, 7 + index as u64);
        assert_eq!(event.value_len.is_some(), event.outcome == AuditOutcome::Success);
    }
    assert_eq!(events.last().expect("event").sequence, uses);
}

#[test]
fn a_message_that_was_cut_or_extended_is_corrupt() {
    let mut store = MemorySecretStore::new();
    let key = SecretKey::new("k").expect("key");
    store.insert(&key, b"value").expect("insert");
    let message = encode_snapshot(&store);
    assert!(decode_snapshot(&message).is_ok());
    for kept in 0..message.len() {
        let cut = message[..kept].to_vec();
        assert!(matches!(decode_snapshot(&cut), Err(SecretStoreError::Corrupt)));
    }
    let mut longer = message;
    longer.push(0);
    assert!(matches!(decode_snapshot(&longer), Err(SecretStoreError::Corrupt)));
}
