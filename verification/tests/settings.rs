//! Capability switches and the settings document.
use std::collections::BTreeMap;

use yunxi::settings::capabilities::{
    switch_with, CapabilityOverrides, CapabilitySetting, CapabilitySwitches,
};
use yunxi::settings::error::CapabilitySettingsError;
use yunxi::settings::sections::{overrides_of, section_key, KNOWN_FIELDS};
use yunxi::settings::store::{
    check_document, check_length, next_state_root, CapabilityEdit, CapabilitySettingsStore,
    PluginEdit, SettingsDocument, MAX_PLUGIN_OVERRIDES, MAX_SETTINGS_FILE_BYTES,
    SETTINGS_DOCUMENT_VERSION,
};
use yunxi::text_map::TextMap;

fn section(raw: &str) -> Result<CapabilityOverrides, CapabilitySettingsError> {
    let value: serde_json::Value = serde_json::from_str(raw).expect("JSON");
    CapabilitySettingsStore::parse_section(&value)
}

fn plugin_section(raw: &str) -> Result<TextMap<bool>, CapabilitySettingsError> {
    let value: serde_json::Value = serde_json::from_str(raw).expect("JSON");
    CapabilitySettingsStore::parse_plugins(&value)
}

fn fresh() -> CapabilitySettingsStore {
    CapabilitySettingsStore::load("settings.json", Ok(None), Ok(None))
}

/// Applies a proposal, as a host does once the document is written.
fn persist(
    store: &mut CapabilitySettingsStore,
    proposal: Result<Option<SettingsDocument>, CapabilitySettingsError>,
) -> bool {
    match proposal.expect("proposal") {
        Some(document) => {
            store.commit(document);
            true
        }
        None => false,
    }
}

#[test]
fn defaults_keep_optional_tools_off_and_core_context_on() {
    let switches = CapabilitySwitches::default();
    assert!(switches.context);
    assert!(switches.persona);
    assert!(switches.storage);
    assert!(!switches.memory);
    assert!(!switches.companion);
    assert!(!switches.shell);
}

#[test]
fn companion_supplies_mailbox_and_scheduler_defaults_only_when_unset() {
    let mut overrides = CapabilityOverrides::default();
    overrides.set(CapabilitySetting::Companion, true);
    let switches = CapabilitySwitches::from_overrides(&overrides);
    assert!(switches.mailbox);
    assert!(switches.scheduler);

    overrides.set(CapabilitySetting::Mailbox, false);
    let switches = CapabilitySwitches::from_overrides(&overrides);
    assert!(!switches.mailbox);
    assert!(switches.scheduler);
}

#[test]
fn explicit_next_environment_values_override_file_and_legacy_values() {
    let mut overrides = CapabilityOverrides::default();
    overrides.set(CapabilitySetting::Persona, false);
    overrides.set(CapabilitySetting::Shell, true);
    let values = BTreeMap::from([
        ("YUNXI_PERSONA_ENABLED", "false"),
        ("YUNXI_NEXT_PERSONA_ENABLED", "true"),
        ("YUNXI_NEXT_SHELL_ENABLED", "false"),
    ]);
    let switches = CapabilitySwitches::from_overrides(&overrides)
        .with_environment(|name: &str| values.get(name).map(|value| (*value).to_string()));
    assert!(switches.persona);
    assert!(!switches.shell);
}

#[test]
fn revisioned_updates_round_trip_through_the_bounded_document() {
    let mut store = fresh();
    let patch = section(r#"{"memory": true, "shell": true}"#).expect("patch");
    let proposal = store.update(patch, Some(0)).expect("proposal").expect("a change");
    assert_eq!(proposal.version, SETTINGS_DOCUMENT_VERSION);
    let written = check_document("settings.json", proposal).expect("document");
    let loaded = CapabilitySettingsStore::load("settings.json", Ok(Some(written)), Ok(None));
    assert_eq!(loaded.revision(), 1);
    assert!(loaded.resolved().memory);
    assert!(loaded.resolved().shell);
    let same = section(r#"{"memory": true, "shell": true}"#).expect("patch");
    assert!(loaded.update(same, Some(1)).expect("proposal").is_none());
    let changed = section(r#"{"memory": true}"#).expect("patch");
    assert!(persist(&mut store, Ok(Some(SettingsDocument {
        version: 1,
        revision: 1,
        capabilities: changed,
        plugins: TextMap::new(),
    }))));
    assert_eq!(store.revision(), 1);
}

#[test]
fn legacy_document_without_voice_or_weixin_loads_with_external_capabilities_off() {
    let document = SettingsDocument {
        version: SETTINGS_DOCUMENT_VERSION,
        revision: 3,
        capabilities: section(
            r#"{"context": true, "persona": true, "storage": true, "memory": true}"#,
        )
        .expect("section"),
        plugins: TextMap::new(),
    };
    let loaded = CapabilitySettingsStore::load("settings.json", Ok(Some(document)), Ok(None));
    assert_eq!(loaded.revision(), 3);
    assert!(loaded.resolved().memory);
    assert!(!loaded.resolved().voice);
    assert!(!loaded.resolved().weixin);
}

#[test]
fn plugin_switches_persist_even_when_the_plugin_is_not_installed() {
    let mut store = fresh();
    let proposal = store.set_plugin("not-installed".to_string(), true, Some(0));
    assert!(persist(&mut store, proposal));
    assert!(store.plugin_enabled("not-installed", false));
    assert!(!store.plugin_enabled("missing", false));
    assert_eq!(store.plugin_overrides().get("not-installed"), Some(&true));
}

#[test]
fn plugin_switch_can_be_disabled_and_removed_with_revision_fencing() {
    let mut store = fresh();
    let id = "optional.plugin".to_string();
    let proposal = store.set_plugin(id.clone(), true, Some(0));
    assert!(persist(&mut store, proposal));
    assert!(store.plugin_enabled("optional.plugin", false));
    let proposal = store.set_plugin(id.clone(), false, Some(1));
    assert!(persist(&mut store, proposal));
    assert!(!store.plugin_enabled("optional.plugin", true));
    let proposal = store.unset_plugin(id, Some(2));
    assert!(persist(&mut store, proposal));
    assert!(store.plugin_enabled("optional.plugin", true));
}

#[test]
fn stale_revision_is_rejected_before_the_document_changes() {
    let store = fresh();
    let patch = section(r#"{"memory": true}"#).expect("patch");
    let error = store.update(patch, Some(9)).expect_err("conflict");
    assert!(matches!(error, CapabilitySettingsError::Conflict { expected: 9, current: 0 }));
    assert_eq!(error.to_string(), "settings revision conflict: expected 9, current 0");
}

#[test]
fn malformed_or_unknown_sections_are_rejected() {
    assert!(section("[]").is_err());
    assert!(section(r#"{"unknown": true}"#).is_err());
    assert!(section(r#"{"memory": "yes"}"#).is_err());
    assert!(plugin_section(r#"{"bad id": true}"#).is_err());
    assert!(plugin_section(r#"{"unknown.plugin": false}"#).is_ok());
    assert!(plugin_section("[]").is_err());
}

#[test]
fn sections_may_leave_a_capability_open() {
    let overrides = section(r#"{"memory": null, "files": true, "shell": false}"#).expect("section");
    assert_eq!(overrides.get(CapabilitySetting::Memory), None);
    assert_eq!(overrides.get(CapabilitySetting::Files), Some(true));
    assert_eq!(overrides.get(CapabilitySetting::Shell), Some(false));
    assert_eq!(overrides.get(CapabilitySetting::Mcp), None);
}

#[test]
fn refused_sections_say_why() {
    let message = |raw: &str| section(raw).err().expect("refused").to_string();
    assert!(message("[]").contains("capability settings section must be an object"));
    assert!(message(r#"{"unknown": true}"#)
        .contains("capability settings section is invalid: unknown field `unknown`"));
    assert!(message(r#"{"unknown": true}"#).contains("expected one of `context`, `persona`"));
    assert!(message(r#"{"memory": "yes"}"#).contains("invalid type: string \"yes\""));
    assert!(message(r#"{"aaa": true, "memory": "yes"}"#).contains("unknown field `aaa`"));
    assert!(message(r#"{"memory": "yes", "zzz": true}"#).contains("invalid type"));
    let plugin = |raw: &str| plugin_section(raw).err().expect("refused").to_string();
    assert!(plugin("[]").contains("must be an object"));
    assert!(plugin(r#"{"some.plugin": null}"#).contains("invalid type: null"));
    assert!(matches!(
        plugin_section(r#"{"bad id": true}"#),
        Err(CapabilitySettingsError::InvalidPluginId { .. })
    ));
    let chosen = plugin_section(r#"{"b.plugin": false, "a.plugin": true}"#).expect("plugins");
    assert_eq!(chosen.len(), 2);
    assert_eq!(chosen.key_at(0), "a.plugin");
    assert_eq!(chosen.get("b.plugin"), Some(&false));
}

#[test]
fn entries_of_a_section_are_taken_in_order() {
    let entry = |key: &str, choice: Option<bool>| (key.to_string(), Ok(choice));
    let chosen = overrides_of(&vec![entry("files", Some(true)), entry("shell", None)])
        .expect("overrides");
    assert_eq!(chosen.get(CapabilitySetting::Files), Some(true));
    assert_eq!(chosen.get(CapabilitySetting::Shell), None);
    assert_eq!(
        overrides_of(&vec![entry("files", None), entry("files", Some(true))]).err(),
        Some("duplicate field `files`".to_string())
    );
    let broken = ("memory".to_string(), Err("no choice".to_string()));
    assert_eq!(
        overrides_of(&vec![broken, entry("other", None)]).err(),
        Some("no choice".to_string())
    );
    assert!(section_key(&Vec::new(), "files").is_ok());
    let names: Vec<String> = CapabilitySetting::all()
        .into_iter()
        .map(|setting| format!("`{}`", setting.as_str()))
        .collect();
    assert_eq!(KNOWN_FIELDS, format!("`, expected one of {}", names.join(", ")));
}

#[test]
fn committed_documents_load_as_they_were_committed() {
    let mut store = fresh();
    let patch = section(r#"{"files": true}"#).expect("section");
    let document = store.update(patch, Some(0)).expect("proposal").expect("document");
    let read = SettingsDocument {
        version: document.version,
        revision: document.revision,
        capabilities: document.capabilities,
        plugins: document.plugins.duplicate(),
    };
    store.commit(document);
    let read = check_document("settings.json", read).expect("valid");
    let mut loaded = CapabilitySettingsStore::load("settings.json", Ok(Some(read)), Ok(None));
    assert_eq!(loaded.revision(), store.revision());
    assert_eq!(loaded.overrides(), store.overrides());
    assert_eq!(loaded.take_warnings().len(), 0);
}

#[test]
fn malformed_target_recovers_from_a_valid_backup() {
    let mut plugins = TextMap::new();
    plugins.insert("recovered.plugin".to_string(), true);
    let backup = SettingsDocument {
        version: SETTINGS_DOCUMENT_VERSION,
        revision: 7,
        capabilities: section(r#"{"files": true}"#).expect("section"),
        plugins,
    };
    let target = Err(CapabilitySettingsError::InvalidDocument {
        path: "settings.json".to_string(),
        message: "expected ident at line 1 column 2".to_string(),
    });
    let mut store = CapabilitySettingsStore::load("settings.json", target, Ok(Some(backup)));
    assert_eq!(store.revision(), 7);
    assert!(store.resolved().files);
    assert!(store.plugin_enabled("recovered.plugin", false));
    assert_eq!(store.take_warnings().len(), 2);
    assert_eq!(store.take_warnings().len(), 0);
}

#[test]
fn oversized_files_fall_back_to_defaults_without_unbounded_reads() {
    let error = check_length("settings.json", MAX_SETTINGS_FILE_BYTES as u64 + 1)
        .expect_err("too large");
    let mut store = CapabilitySettingsStore::load("settings.json", Err(error), Ok(None));
    assert_eq!(store.resolved(), CapabilitySwitches::default());
    assert_eq!(store.take_warnings().len(), 1);
}

#[test]
fn other_versions_of_the_document_are_refused() {
    let document = SettingsDocument {
        version: 2,
        revision: 1,
        capabilities: CapabilityOverrides::default(),
        plugins: TextMap::new(),
    };
    let error = check_document("settings.json", document).expect_err("version");
    assert_eq!(
        error.to_string(),
        "settings document settings.json uses unsupported version 2"
    );
}

#[test]
fn edits_and_replacements_are_proposed_as_a_whole() {
    let mut store = fresh();
    let proposal = store.mutate(
        vec![
            CapabilityEdit::Assign(CapabilitySetting::Files, true),
            CapabilityEdit::Assign(CapabilitySetting::Shell, true),
            CapabilityEdit::Unset(CapabilitySetting::Shell),
        ],
        None,
    );
    assert!(persist(&mut store, proposal));
    assert!(store.resolved().files);
    assert!(!store.resolved().shell);
    assert_eq!(store.overrides().get(CapabilitySetting::Shell), None);
    let proposal = store.replace(CapabilityOverrides::default(), Some(1));
    assert!(persist(&mut store, proposal));
    assert!(!store.resolved().files);
    let proposal = store.mutate_plugins(
        vec![
            PluginEdit::Assign("a.plugin".to_string(), true),
            PluginEdit::Unset("b.plugin".to_string()),
        ],
        Some(2),
    );
    assert!(persist(&mut store, proposal));
    assert_eq!(store.revision(), 3);
    assert!(store.plugin_enabled("a.plugin", false));
    let error = store
        .set_plugin("bad id".to_string(), true, None)
        .expect_err("not an identifier");
    assert!(matches!(error, CapabilitySettingsError::InvalidPluginId { .. }));
}

#[test]
fn plugin_choices_are_bounded() {
    let mut plugins = TextMap::new();
    for index in 0..MAX_PLUGIN_OVERRIDES {
        plugins.insert(format!("plugin-{index}"), true);
    }
    let mut store = fresh();
    let proposal = store.replace_plugins(plugins, None);
    assert!(persist(&mut store, proposal));
    let error = store
        .set_plugin("one.more".to_string(), true, None)
        .expect_err("too many");
    assert!(matches!(error, CapabilitySettingsError::TooManyPluginOverrides { count: 257, maximum: 256 }));
    let mut patch = TextMap::new();
    patch.insert("plugin-0".to_string(), false);
    let proposal = store.update_plugins(patch, None);
    assert!(persist(&mut store, proposal));
    assert!(!store.plugin_enabled("plugin-0", true));
}

#[test]
fn state_root_follows_the_environment() {
    let some = |text: &str| Some(text.to_string());
    assert_eq!(next_state_root(some("/next"), some("/profile"), some("/home")), "/next");
    assert_eq!(next_state_root(None, some("/profile"), some("/home")), "/profile/.yunxi-next");
    assert_eq!(next_state_root(None, None, some("/home")), "/home/.yunxi-next");
    assert_eq!(next_state_root(None, None, None), ".yunxi-next");
    let store =
        CapabilitySettingsStore::from_environment(some("/next"), None, None, Ok(None), Ok(None));
    assert_eq!(store.path(), "/next/settings.json");
    assert!(store.effective_from_environment(|_: &str| None).context);
    assert!(!store.effective_from_environment(|_: &str| Some("off".to_string())).context);
}

#[test]
fn every_setting_has_a_name_and_a_switch() {
    for setting in CapabilitySetting::all() {
        assert_eq!(CapabilitySetting::parse(setting.as_str()), Some(setting));
        let mut overrides = CapabilityOverrides::default();
        overrides.set(setting, true);
        assert!(CapabilitySwitches::from_overrides(&overrides).get(setting));
        overrides.unset(setting);
        assert_eq!(overrides.get(setting), None);
        assert!(setting.environment_names().0.starts_with("YUNXI_NEXT_"));
    }
    assert_eq!(CapabilitySetting::parse("nothing"), None);
}

#[test]
fn a_variable_that_says_nothing_leaves_the_word_to_the_next() {
    let text = |value: &str| Some(value.to_string());
    assert!(switch_with(false, &text(" ON "), &text("off")));
    assert!(!switch_with(true, &text("perhaps"), &text("0")));
    assert!(switch_with(true, &None, &text("")));
    assert!(!switch_with(false, &None, &None));
}

#[test]
fn fifteen_capabilities_have_keys_of_their_own() {
    let all = CapabilitySetting::all();
    assert_eq!(all.len(), 15);
    for setting in &all {
        assert_eq!(CapabilitySetting::parse(setting.as_str()), Some(*setting));
    }
    assert_eq!(CapabilitySetting::parse("voice"), Some(CapabilitySetting::Voice));
    assert_eq!(CapabilitySetting::parse("weixin"), Some(CapabilitySetting::Weixin));
    assert_eq!(CapabilitySetting::parse("multi_agent"), Some(CapabilitySetting::MultiAgent));
    assert_eq!(CapabilitySetting::parse("multi agent"), None);
    assert!(!CapabilitySwitches::default().multi_agent);
    let mut overrides = CapabilityOverrides::default();
    overrides.set(CapabilitySetting::MultiAgent, true);
    let switches = CapabilitySwitches::from_overrides(&overrides);
    assert!(switches.multi_agent && switches.get(CapabilitySetting::MultiAgent));
    let quiet = switches.with_environment(|name: &str| {
        (name == "YUNXI_NEXT_MULTI_AGENT_ENABLED").then(|| "off".to_string())
    });
    assert!(!quiet.multi_agent);
}
