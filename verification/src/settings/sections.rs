//! Sections of settings as `serde_json` holds them, and the choices that they make.
use vstd::prelude::*;

use crate::json::{
    entries_content, from_value, value_content, value_entries, Fields, JsonView,
};
use crate::settings::capabilities::{
    lemma_keys_are_distinct, CapabilityOverrides, CapabilitySetting,
};
use crate::settings::error::{CapabilitySettingsError, SettingsErrorView};
use crate::settings::store::{
    entries_problem, valid_choices, validate_plugin_overrides, CapabilitySettingsStore,
};
use crate::text::{str_eq, text2, text3, texts};
use crate::text_map::{with_entry, TextMap};

verus! {

/// What follows a key that a section may not hold: the keys that it may.
pub const KNOWN_FIELDS: &'static str = "`, expected one of `context`, `persona`, `memory`, `companion`, `storage`, `mailbox`, `scheduler`, `shell`, `patch`, `files`, `mcp`, `skills`, `voice`, `weixin`, `multi_agent`";

// ---------------------------------------------------------------------------
// Outside calls
// ---------------------------------------------------------------------------
pub open spec fn switches_view(entries: Seq<(String, bool)>) -> Seq<(Seq<char>, bool)> {
    Seq::new(entries.len(), |k: int| (entries[k].0@, entries[k].1))
}

/// The fields of an object that has nothing but switches.
pub open spec fn switches_of(value: JsonView) -> Option<Seq<(Seq<char>, bool)>> {
    match value {
        JsonView::Object(fields) => if forall|k: int|
            0 <= k < fields.len() ==> (#[trigger] fields[k]).1 is Bool {
            Some(Seq::new(fields.len(), |k: int| (fields[k].0, fields[k].1->Bool_0)))
        } else {
            None
        },
        _ => None,
    }
}

/// How `serde_json::from_value` explains that a value is no map of switches.
pub uninterp spec fn switches_problem(value: JsonView) -> Seq<char>;

/// `serde_json::from_value` into a `BTreeMap<String, bool>`: the fields of an object in the order
/// of their names, if all of them are switches. How it explains a failure is left to it.
#[verifier::external_body]
fn read_switches(value: &serde_json::Value) -> (r: Result<Vec<(String, bool)>, String>)
    ensures
        match r {
            Ok(entries) => switches_of(value_content(*value)) == Some(switches_view(entries@)),
            Err(message) => switches_of(value_content(*value)) is None && message@
                == switches_problem(value_content(*value)),
        },
{
    serde_json::from_value::<std::collections::BTreeMap<String, bool>>(value.clone())
        .map(|entries| entries.into_iter().collect())
        .map_err(|error| error.to_string())
}

/// How `serde_json::from_value` explains that a value is neither a switch nor null.
pub uninterp spec fn choice_problem(value: JsonView) -> Seq<char>;

/// `serde_json::from_value` into an `Option<bool>`: a switch, or null. How it explains a failure
/// is left to it.
#[verifier::external_body]
fn read_choice(value: &serde_json::Value) -> (r: Result<Option<bool>, String>)
    ensures
        match value_content(*value) {
            JsonView::Null => r == Ok::<Option<bool>, String>(None),
            JsonView::Bool(b) => r == Ok::<Option<bool>, String>(Some(b)),
            other => r is Err && r->Err_0@ == choice_problem(other),
        },
{
    serde_json::from_value::<Option<bool>>(value.clone()).map_err(|error| error.to_string())
}

// ---------------------------------------------------------------------------
// Capabilities
// ---------------------------------------------------------------------------
/// An entry of a section: its key, and the choice that was read, or why none could be read.
pub type SectionEntry = (Seq<char>, Result<Option<bool>, Seq<char>>);

pub open spec fn choices_view(entries: Seq<(String, Result<Option<bool>, String>)>) -> Seq<
    SectionEntry,
> {
    Seq::new(
        entries.len(),
        |k: int|
            (
                entries[k].0@,
                match entries[k].1 {
                    Ok(choice) => Ok(choice),
                    Err(message) => Err(message@),
                },
            ),
    )
}

/// What a value chooses. Null leaves the choice open.
pub open spec fn choice_of(value: JsonView) -> Result<Option<bool>, Seq<char>> {
    match value {
        JsonView::Null => Ok(None),
        JsonView::Bool(b) => Ok(Some(b)),
        _ => Err(choice_problem(value)),
    }
}

/// The entries of a section that is an object with these fields.
pub open spec fn section_entries(fields: Fields) -> Seq<SectionEntry> {
    Seq::new(fields.len(), |k: int| (fields[k].0, choice_of(fields[k].1)))
}

/// The key belongs to a capability.
pub open spec fn is_capability_key(key: Seq<char>) -> bool {
    exists|setting: CapabilitySetting| #[trigger] setting.key() == key
}

/// What is said of a key that belongs to no capability.
pub open spec fn unknown_field(key: Seq<char>) -> Seq<char> {
    "unknown field `"@ + key + KNOWN_FIELDS@
}

/// What is said of a key that stands in a section twice.
pub open spec fn duplicate_field(key: Seq<char>) -> Seq<char> {
    "duplicate field `"@ + key + "`"@
}

/// What is wrong with a key that comes after these.
pub open spec fn key_problem(seen: Seq<Seq<char>>, key: Seq<char>) -> Option<Seq<char>> {
    if !is_capability_key(key) {
        Some(unknown_field(key))
    } else if seen.contains(key) {
        Some(duplicate_field(key))
    } else {
        None
    }
}

/// The capability that a key stands for, unless it belongs to none or was seen before.
pub fn section_key(seen: &Vec<String>, key: &str) -> (r: Result<CapabilitySetting, String>)
    ensures
        match key_problem(texts(seen@), key@) {
            Some(message) => r is Err && r->Err_0@ == message,
            None => r is Ok && r->Ok_0.key() == key@,
        },
{
    let setting = match CapabilitySetting::parse(key) {
        Some(setting) => setting,
        None => {
            return Err(
                text3("unknown field `", key, KNOWN_FIELDS),
            );
        },
    };
    let mut i: usize = 0;
    while i < seen.len()
        invariant
            i <= seen@.len(),
            setting.key() == key@,
            forall|k: int| 0 <= k < i ==> (#[trigger] seen@[k])@ != key@,
        decreases seen@.len() - i,
    {
        if str_eq(seen[i].as_str(), key) {
            assert(texts(seen@)[i as int] == key@);
            return Err(text3("duplicate field `", key, "`"));
        }
        i += 1;
    }
    assert(!texts(seen@).contains(key@)) by {
        assert forall|k: int| 0 <= k < texts(seen@).len() implies texts(seen@)[k] != key@ by {
            assert(seen@[k]@ != key@);
        }
    }
    Ok(setting)
}

/// The keys of the first `n` entries.
pub open spec fn keys_before(entries: Seq<SectionEntry>, n: int) -> Seq<Seq<char>> {
    Seq::new(n as nat, |k: int| entries[k].0)
}

/// What is wrong with the entries from the `i`th on: the first with a wrong key, or whose choice
/// could not be read.
pub open spec fn section_problem(entries: Seq<SectionEntry>, i: int) -> Option<Seq<char>>
    decreases entries.len() - i,
{
    if i >= entries.len() {
        None
    } else if let Some(message) = key_problem(keys_before(entries, i), entries[i].0) {
        Some(message)
    } else if let Err(message) = entries[i].1 {
        Some(message)
    } else {
        section_problem(entries, i + 1)
    }
}

/// What the first `n` entries choose for a capability.
pub open spec fn chosen_in(
    entries: Seq<SectionEntry>,
    n: int,
    setting: CapabilitySetting,
) -> Option<bool>
    decreases n,
{
    if n <= 0 {
        None
    } else if entries[n - 1].0 == setting.key() {
        entries[n - 1].1->Ok_0
    } else {
        chosen_in(entries, n - 1, setting)
    }
}

/// What the entries of a section come to.
pub open spec fn section_choices(
    entries: Seq<SectionEntry>,
    r: Result<CapabilityOverrides, CapabilitySettingsError>,
) -> bool {
    match section_problem(entries, 0) {
        Some(message) => r is Err && r->Err_0@ == invalid_section(message),
        None => r is Ok && forall|setting: CapabilitySetting| #[trigger]
            r->Ok_0.at(setting) == chosen_in(entries, entries.len() as int, setting),
    }
}

/// The choices that the entries of a section make.
pub fn overrides_of(entries: &Vec<(String, Result<Option<bool>, String>)>) -> (r: Result<
    CapabilityOverrides,
    String,
>)
    ensures
        match section_problem(choices_view(entries@), 0) {
            Some(message) => r is Err && r->Err_0@ == message,
            None => r is Ok && forall|setting: CapabilitySetting| #[trigger]
                r->Ok_0.at(setting) == chosen_in(
                    choices_view(entries@),
                    entries@.len() as int,
                    setting,
                ),
        },
{
    let ghost all = choices_view(entries@);
    let mut overrides = CapabilityOverrides::default();
    let mut seen: Vec<String> = Vec::new();
    let n: usize = entries.len();
    let mut i: usize = 0;
    assert(texts(seen@) =~= keys_before(all, 0));
    while i < n
        invariant
            n == entries@.len(),
            all == choices_view(entries@),
            i <= n,
            texts(seen@) == keys_before(all, i as int),
            section_problem(all, 0) == section_problem(all, i as int),
            forall|setting: CapabilitySetting| #[trigger]
                overrides.at(setting) == chosen_in(all, i as int, setting),
        decreases n - i,
    {
        let ghost before = overrides;
        let key = entries[i].0.as_str();
        assert(all[i as int].0 == key@);
        let setting = match section_key(&seen, key) {
            Ok(setting) => setting,
            Err(message) => return Err(message),
        };
        match &entries[i].1 {
            Ok(Some(enabled)) => overrides.set(setting, *enabled),
            Ok(None) => overrides.unset(setting),
            Err(message) => return Err(message.clone()),
        }
        proof {
            assert forall|other: CapabilitySetting| #[trigger]
                overrides.at(other) == chosen_in(all, i + 1, other) by {
                assert(before.at(other) == chosen_in(all, i as int, other));
                lemma_keys_are_distinct(setting, other);
            }
        }
        let ghost earlier = seen@;
        seen.push(key.to_owned());
        assert(texts(seen@) =~= texts(earlier).push(key@));
        assert(texts(seen@) =~= keys_before(all, i + 1));
        i += 1;
    }
    Ok(overrides)
}

pub open spec fn invalid_section(message: Seq<char>) -> SettingsErrorView {
    SettingsErrorView::InvalidSection("capability settings section is invalid: "@ + message)
}

/// The choices of a section with these entries.
pub fn accept_section(entries: &Vec<(String, Result<Option<bool>, String>)>) -> (r: Result<
    CapabilityOverrides,
    CapabilitySettingsError,
>)
    ensures
        section_choices(choices_view(entries@), r),
{
    match overrides_of(entries) {
        Ok(overrides) => Ok(overrides),
        Err(message) => Err(
            CapabilitySettingsError::InvalidSection(
                text2("capability settings section is invalid: ", message.as_str()),
            ),
        ),
    }
}

// ---------------------------------------------------------------------------
// Plugins
// ---------------------------------------------------------------------------
/// The entries put into a map, one after the other.
pub open spec fn inserted(entries: Seq<(Seq<char>, bool)>) -> Seq<(Seq<char>, bool)>
    decreases entries.len(),
{
    if entries.len() == 0 {
        Seq::empty()
    } else {
        with_entry(inserted(entries.drop_last()), entries.last().0, entries.last().1)
    }
}

pub fn plugin_map(entries: &Vec<(String, bool)>) -> (r: TextMap<bool>)
    ensures
        r.entries() == inserted(switches_view(entries@)),
{
    let ghost all = switches_view(entries@);
    let mut map: TextMap<bool> = TextMap::new();
    let n: usize = entries.len();
    let mut i: usize = 0;
    assert(all.take(0) =~= Seq::<(Seq<char>, bool)>::empty());
    while i < n
        invariant
            n == entries@.len(),
            all == switches_view(entries@),
            i <= n,
            map.entries() == inserted(all.take(i as int)),
        decreases n - i,
    {
        proof {
            assert(all.take(i + 1).drop_last() =~= all.take(i as int));
            assert(all.take(i + 1).last() == (entries@[i as int].0@, entries@[i as int].1));
        }
        map.insert(entries[i].0.clone(), entries[i].1);
        i += 1;
    }
    assert(all.take(n as int) =~= all);
    map
}

pub open spec fn invalid_plugin_section(message: Seq<char>) -> SettingsErrorView {
    SettingsErrorView::InvalidPluginSection("plugin settings section is invalid: "@ + message)
}

/// What the entries of a plugin section come to: all of them, if they keep the rules.
pub open spec fn plugin_choices(
    entries: Seq<(Seq<char>, bool)>,
    r: Result<TextMap<bool>, CapabilitySettingsError>,
) -> bool {
    match entries_problem(inserted(entries)) {
        None => {
            &&& r is Ok
            &&& r->Ok_0.entries() == inserted(entries)
            &&& valid_choices(r->Ok_0@)
        },
        Some(error) => r is Err && r->Err_0@ == error,
    }
}

/// The plugin choices of a section that was read, if it is an object and can be read.
pub fn accept_plugins(is_object: bool, read: Result<Vec<(String, bool)>, String>) -> (r: Result<
    TextMap<bool>,
    CapabilitySettingsError,
>)
    ensures
        if !is_object {
            r is Err && r->Err_0@ == SettingsErrorView::InvalidPluginSection(
                "plugin settings section must be an object"@,
            )
        } else {
            match read {
                Err(message) => r is Err && r->Err_0@ == invalid_plugin_section(message@),
                Ok(entries) => plugin_choices(switches_view(entries@), r),
            }
        },
{
    if !is_object {
        return Err(
            CapabilitySettingsError::InvalidPluginSection(
                "plugin settings section must be an object".to_owned(),
            ),
        );
    }
    match read {
        Err(message) => Err(
            CapabilitySettingsError::InvalidPluginSection(
                text2("plugin settings section is invalid: ", message.as_str()),
            ),
        ),
        Ok(entries) => {
            let plugins = plugin_map(&entries);
            match validate_plugin_overrides(&plugins) {
                Ok(()) => Ok(plugins),
                Err(error) => Err(error),
            }
        },
    }
}

impl CapabilitySettingsStore {
    /// The choices that a section of a request makes.
    pub fn parse_section(value: &serde_json::Value) -> (r: Result<
        CapabilityOverrides,
        CapabilitySettingsError,
    >)
        ensures
            match value_content(*value) {
                JsonView::Object(fields) => section_choices(section_entries(fields), r),
                _ => r is Err && r->Err_0@ == SettingsErrorView::InvalidSection(
                    "capability settings section must be an object"@,
                ),
            },
    {
        let fields = match value_entries(value) {
            Some(fields) => fields,
            None => {
                return Err(
                    CapabilitySettingsError::InvalidSection(
                        "capability settings section must be an object".to_owned(),
                    ),
                );
            },
        };
        let ghost wanted = section_entries(entries_content(fields@));
        let mut entries: Vec<(String, Result<Option<bool>, String>)> = Vec::new();
        let n: usize = fields.len();
        let mut i: usize = 0;
        assert(choices_view(entries@) =~= wanted.take(0));
        while i < n
            invariant
                n == fields@.len(),
                i <= n,
                wanted == section_entries(entries_content(fields@)),
                choices_view(entries@) == wanted.take(i as int),
            decreases n - i,
        {
            let ghost before = entries@;
            let (name, field) = fields[i];
            let choice = read_choice(field);
            entries.push((name.clone(), choice));
            assert(entries_content(fields@)[i as int] == (name@, value_content(*field)));
            assert(choices_view(entries@) =~= choices_view(before).push(wanted[i as int]));
            assert(choices_view(entries@) =~= wanted.take(i + 1));
            i += 1;
        }
        assert(wanted.take(n as int) =~= wanted);
        accept_section(&entries)
    }

    /// The plugin choices that a section of a request makes.
    pub fn parse_plugins(value: &serde_json::Value) -> (r: Result<
        TextMap<bool>,
        CapabilitySettingsError,
    >)
        ensures
            ({
                let section = value_content(*value);
                if !(section is Object) {
                    r is Err && r->Err_0@ == SettingsErrorView::InvalidPluginSection(
                        "plugin settings section must be an object"@,
                    )
                } else {
                    match switches_of(section) {
                        None => r is Err && r->Err_0@ == invalid_plugin_section(
                            switches_problem(section),
                        ),
                        Some(entries) => plugin_choices(entries, r),
                    }
                }
            }),
    {
        accept_plugins(from_value(value).is_object(), read_switches(value))
    }
}

} // verus!
