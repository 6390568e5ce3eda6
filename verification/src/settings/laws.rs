//! What settings come to.
use vstd::prelude::*;

use crate::json::{value_content, JsonView};
use crate::settings::capabilities::{
    switch_with, truth_value, CapabilityOverrides, CapabilitySetting, CapabilitySwitches,
};
use crate::settings::error::{CapabilitySettingsError, SettingsErrorView};
use crate::settings::sections::{
    accept_plugins, choice_of, chosen_in, inserted, is_capability_key, keys_before,
    section_entries, section_problem, switches_view, SectionEntry,
};
use crate::settings::store::{
    edited, is_plugin_id, is_plugin_id_char, next_state_root, validate_plugin_id, CapabilityEdit,
    CapabilitySettingsStore, Proposal, MAX_PLUGIN_ID_BYTES, MAX_PLUGIN_OVERRIDES,
};
use crate::text::{all_space, lemma_trim_of_padded, lower, lower_of, trim_of, utf8_len};
use crate::text_map::{lemma_one_more_entry, sorted, TextMap};

verus! {

// ---------------------------------------------------------------------------
// Switches
// ---------------------------------------------------------------------------
/// What the user has chosen is what counts. Where nothing was chosen the core is on, the mailbox
/// and the scheduler follow the companion, and everything else is off.
pub proof fn lemma_switches_follow_the_choices(
    overrides: CapabilityOverrides,
    r: CapabilitySwitches,
    setting: CapabilitySetting,
)
    requires
        call_ensures(CapabilitySwitches::from_overrides, (&overrides,), r),
    ensures
        overrides.at(setting) matches Some(value) ==> r.at(setting) == value,
        overrides.at(setting) is None ==> {
            &&& setting is Context || setting is Persona || setting is Storage ==> r.at(setting)
            &&& setting is Mailbox || setting is Scheduler ==> r.at(setting) == r.at(
                CapabilitySetting::Companion,
            )
            &&& !(setting is Context || setting is Persona || setting is Storage || setting is
                Mailbox || setting is Scheduler) ==> !r.at(setting)
        },
{
}

/// Each switch is that of its capability.
pub proof fn lemma_switches_have_their_names(switches: CapabilitySwitches)
    ensures
        switches.at(CapabilitySetting::Context) == switches.context,
        switches.at(CapabilitySetting::Persona) == switches.persona,
        switches.at(CapabilitySetting::Storage) == switches.storage,
        switches.at(CapabilitySetting::Mailbox) == switches.mailbox,
        switches.at(CapabilitySetting::Scheduler) == switches.scheduler,
        switches.at(CapabilitySetting::Memory) == switches.memory,
        switches.at(CapabilitySetting::Companion) == switches.companion,
        switches.at(CapabilitySetting::Shell) == switches.shell,
        switches.at(CapabilitySetting::Patch) == switches.patch,
        switches.at(CapabilitySetting::Files) == switches.files,
        switches.at(CapabilitySetting::Mcp) == switches.mcp,
        switches.at(CapabilitySetting::Skills) == switches.skills,
        switches.at(CapabilitySetting::Voice) == switches.voice,
        switches.at(CapabilitySetting::Weixin) == switches.weixin,
        switches.at(CapabilitySetting::MultiAgent) == switches.multi_agent,
{
}

/// The text spells the word: in whatever case, and with white space around it.
pub open spec fn spells(text: Seq<char>, word: Seq<char>) -> bool {
    exists|before: Seq<char>, core: Seq<char>, after: Seq<char>|
        text == #[trigger] (before + core + after) && all_space(before) && all_space(after)
            && lower_of(core) == word
}

proof fn lemma_spelled_word(text: Seq<char>, word: Seq<char>)
    requires
        spells(text, word),
        word.len() > 0,
        forall|k: int| 0 <= k < word.len() ==> 'a' <= #[trigger] word[k] <= 'z' || word[k] == '0'
            || word[k] == '1',
    ensures
        lower_of(trim_of(text)) == word,
{
    let (before, core, after) = choose|before: Seq<char>, core: Seq<char>, after: Seq<char>|
        text == #[trigger] (before + core + after) && all_space(before) && all_space(after)
            && lower_of(core) == word;
    assert(core.len() == word.len());
    assert(lower(core[0]) == word[0]);
    assert(lower(core.last()) == word[word.len() - 1]);
    lemma_trim_of_padded(before, core, after);
}

/// A variable switches on with `1`, `true`, `yes` and `on`, and off with `0`, `false`, `no` and
/// `off`, however they are written.
pub proof fn lemma_truth_values_are_understood(value: Option<String>, r: Option<bool>)
    requires
        call_ensures(truth_value, (&value,), r),
    ensures
        value is None ==> r is None,
        value matches Some(text) ==> (spells(text@, "1"@) || spells(text@, "true"@) || spells(
            text@,
            "yes"@,
        ) || spells(text@, "on"@) ==> r == Some(true)),
        value matches Some(text) ==> (spells(text@, "0"@) || spells(text@, "false"@) || spells(
            text@,
            "no"@,
        ) || spells(text@, "off"@) ==> r == Some(false)),
{
    reveal_strlit("1");
    reveal_strlit("true");
    reveal_strlit("yes");
    reveal_strlit("on");
    reveal_strlit("0");
    reveal_strlit("false");
    reveal_strlit("no");
    reveal_strlit("off");
    if let Some(text) = value {
        if spells(text@, "1"@) {
            lemma_spelled_word(text@, "1"@);
        }
        if spells(text@, "true"@) {
            lemma_spelled_word(text@, "true"@);
        }
        if spells(text@, "yes"@) {
            lemma_spelled_word(text@, "yes"@);
        }
        if spells(text@, "on"@) {
            lemma_spelled_word(text@, "on"@);
        }
        let word = lower_of(trim_of(text@));
        if spells(text@, "0"@) {
            lemma_spelled_word(text@, "0"@);
            assert(word[0] == '0');
        }
        if spells(text@, "false"@) {
            lemma_spelled_word(text@, "false"@);
            assert(word.len() == 5);
        }
        if spells(text@, "no"@) {
            lemma_spelled_word(text@, "no"@);
            assert(word[0] == 'n');
            assert("on"@[0] == 'o');
        }
        if spells(text@, "off"@) {
            lemma_spelled_word(text@, "off"@);
            assert(word[0] == 'o');
            assert("yes"@[0] == 'y');
        }
    }
}

/// The environment counts before what was there, and the variable before the older one.
pub proof fn lemma_newer_variable_counts_first(
    before: bool,
    primary: Option<String>,
    legacy: Option<String>,
    first: Option<bool>,
    second: Option<bool>,
    r: bool,
)
    requires
        call_ensures(switch_with, (before, &primary, &legacy), r),
        call_ensures(truth_value, (&primary,), first),
        call_ensures(truth_value, (&legacy,), second),
    ensures
        first matches Some(value) ==> r == value,
        first is None ==> (second matches Some(value) ==> r == value),
        first is None && second is None ==> r == before,
{
}

// ---------------------------------------------------------------------------
// Proposals
// ---------------------------------------------------------------------------
/// A change of the choices is refused if somebody else came first, and otherwise made: what the
/// patch chooses is chosen, and what it leaves open stays. Nothing is proposed exactly if nothing
/// would change.
pub proof fn lemma_update_makes_the_choices_of_the_patch(
    store: CapabilitySettingsStore,
    patch: CapabilityOverrides,
    expected: Option<u64>,
    r: Proposal,
    setting: CapabilitySetting,
)
    requires
        call_ensures(CapabilitySettingsStore::update, (&store, patch, expected), r),
    ensures
        expected matches Some(revision) ==> (revision != store.spec_revision() ==> r is Err
            && r->Err_0@ == (SettingsErrorView::Conflict {
            expected: revision,
            current: store.spec_revision(),
        })),
        (expected is None || expected == Some(store.spec_revision())) && store.spec_revision()
            < u64::MAX ==> r is Ok,
        r matches Ok(Some(document)) ==> {
            &&& document.revision == store.spec_revision() + 1
            &&& patch.at(setting) is Some ==> document.capabilities.at(setting)
                == patch.at(setting)
            &&& patch.at(setting) is None ==> document.capabilities.at(setting)
                == store.spec_overrides().at(setting)
            &&& document.plugins@ == store.plugins()
        },
        r matches Ok(None) ==> (patch.at(setting) is Some ==> store.spec_overrides().at(setting)
            == patch.at(setting)),
{
}

/// Replacing the choices leaves those of the section and no others.
pub proof fn lemma_replace_leaves_the_section(
    store: CapabilitySettingsStore,
    section: CapabilityOverrides,
    expected: Option<u64>,
    r: Proposal,
    setting: CapabilitySetting,
)
    requires
        call_ensures(CapabilitySettingsStore::replace, (&store, section, expected), r),
    ensures
        (expected is None || expected == Some(store.spec_revision())) && store.spec_revision()
            < u64::MAX ==> r is Ok,
        expected matches Some(revision) ==> (revision != store.spec_revision() ==> r is Err),
        r matches Ok(Some(document)) ==> document.capabilities.at(setting) == section.at(setting)
            && document.plugins@ == store.plugins() && document.revision == store.spec_revision()
            + 1,
        r matches Ok(None) ==> store.spec_overrides().at(setting) == section.at(setting),
{
}

/// The edit is about this capability.
pub open spec fn is_about(edit: CapabilityEdit, setting: CapabilitySetting) -> bool {
    edit == CapabilityEdit::Unset(setting) || edit == CapabilityEdit::Assign(setting, true) || edit
        == CapabilityEdit::Assign(setting, false)
}

proof fn lemma_last_edit_counts(
    choice: Option<bool>,
    edits: Seq<CapabilityEdit>,
    setting: CapabilitySetting,
    k: int,
)
    requires
        0 <= k < edits.len(),
        is_about(edits[k], setting),
        forall|j: int| k < j < edits.len() ==> !is_about(#[trigger] edits[j], setting),
    ensures
        edited(choice, edits, setting) == match edits[k] {
            CapabilityEdit::Assign(_, value) => Some(value),
            CapabilityEdit::Unset(_) => None,
        },
    decreases edits.len(),
{
    if k < edits.len() - 1 {
        let rest = edits.drop_last();
        assert(!is_about(edits[edits.len() - 1], setting));
        assert forall|j: int| k < j < rest.len() implies !is_about(#[trigger] rest[j], setting) by {
            assert(rest[j] == edits[j]);
        }
        assert(rest[k] == edits[k]);
        lemma_last_edit_counts(choice, rest, setting, k);
        match edits.last() {
            CapabilityEdit::Assign(other, value) => {
                assert(other != setting);
            },
            CapabilityEdit::Unset(other) => {
                assert(other != setting);
            },
        }
    }
}

proof fn lemma_other_edits_change_nothing(
    choice: Option<bool>,
    edits: Seq<CapabilityEdit>,
    setting: CapabilitySetting,
)
    requires
        forall|j: int| 0 <= j < edits.len() ==> !is_about(#[trigger] edits[j], setting),
    ensures
        edited(choice, edits, setting) == choice,
    decreases edits.len(),
{
    if edits.len() > 0 {
        let rest = edits.drop_last();
        assert(!is_about(edits[edits.len() - 1], setting));
        assert forall|j: int| 0 <= j < rest.len() implies !is_about(#[trigger] rest[j], setting) by {
            assert(rest[j] == edits[j]);
        }
        lemma_other_edits_change_nothing(choice, rest, setting);
        match edits.last() {
            CapabilityEdit::Assign(other, value) => {
                assert(other != setting);
            },
            CapabilityEdit::Unset(other) => {
                assert(other != setting);
            },
        }
    }
}

/// Of several edits of one capability the last one counts, and a capability that none of them is
/// about stays as it is.
pub proof fn lemma_edits_are_made_in_order(
    store: CapabilitySettingsStore,
    edits: Vec<CapabilityEdit>,
    expected: Option<u64>,
    r: Proposal,
    setting: CapabilitySetting,
    k: int,
)
    requires
        call_ensures(CapabilitySettingsStore::mutate, (&store, edits, expected), r),
        r matches Ok(Some(_)),
    ensures
        0 <= k < edits@.len() && is_about(edits@[k], setting) && (forall|j: int|
            k < j < edits@.len() ==> !is_about(#[trigger] edits@[j], setting))
            ==> r->Ok_0->0.capabilities.at(setting) == (match edits@[k] {
            CapabilityEdit::Assign(_, value) => Some(value),
            CapabilityEdit::Unset(_) => None,
        }),
        (forall|j: int| 0 <= j < edits@.len() ==> !is_about(#[trigger] edits@[j], setting))
            ==> r->Ok_0->0.capabilities.at(setting) == store.spec_overrides().at(setting),
        r->Ok_0->0.plugins@ == store.plugins(),
        r->Ok_0->0.revision == store.spec_revision() + 1,
{
    let choice = store.spec_overrides().at(setting);
    if 0 <= k < edits@.len() && is_about(edits@[k], setting) && (forall|j: int|
        k < j < edits@.len() ==> !is_about(#[trigger] edits@[j], setting)) {
        lemma_last_edit_counts(choice, edits@, setting, k);
    }
    if forall|j: int| 0 <= j < edits@.len() ==> !is_about(#[trigger] edits@[j], setting) {
        lemma_other_edits_change_nothing(choice, edits@, setting);
    }
}

/// Choosing for one plugin chooses for that plugin, and for no other.
pub proof fn lemma_plugin_is_set(
    store: CapabilitySettingsStore,
    id: String,
    enabled: bool,
    expected: Option<u64>,
    r: Proposal,
    other: Seq<char>,
)
    requires
        call_ensures(CapabilitySettingsStore::set_plugin, (&store, id, enabled, expected), r),
        store.wf(),
    ensures
        (expected is None || expected == Some(store.spec_revision())) && store.spec_revision()
            < u64::MAX && is_plugin_id(id@) && store.plugins().dom().len() < MAX_PLUGIN_OVERRIDES
            ==> r is Ok,
        r matches Ok(Some(document)) ==> {
            &&& document.plugins@.dom().contains(id@) && document.plugins@[id@] == enabled
            &&& other != id@ ==> (document.plugins@.dom().contains(other)
                <==> store.plugins().dom().contains(other))
            &&& other != id@ && store.plugins().dom().contains(other) ==> document.plugins@[other]
                == store.plugins()[other]
            &&& forall|setting: CapabilitySetting| #[trigger]
                document.capabilities.at(setting) == store.spec_overrides().at(setting)
        },
        r matches Ok(None) ==> store.plugins().dom().contains(id@) && store.plugins()[id@]
            == enabled,
        !is_plugin_id(id@) ==> r is Err,
{
    if r matches Ok(None) {
        assert(store.plugins() == store.plugins().insert(id@, enabled));
        assert(store.plugins().insert(id@, enabled).dom().contains(id@));
    }
}

/// Taking the choice for a plugin back takes back that choice, and no other.
pub proof fn lemma_plugin_is_unset(
    store: CapabilitySettingsStore,
    id: String,
    expected: Option<u64>,
    r: Proposal,
    other: Seq<char>,
)
    requires
        call_ensures(CapabilitySettingsStore::unset_plugin, (&store, id, expected), r),
        store.wf(),
    ensures
        r matches Ok(Some(document)) ==> {
            &&& !document.plugins@.dom().contains(id@)
            &&& other != id@ ==> (document.plugins@.dom().contains(other)
                <==> store.plugins().dom().contains(other))
            &&& other != id@ && store.plugins().dom().contains(other) ==> document.plugins@[other]
                == store.plugins()[other]
        },
        r matches Ok(None) ==> !store.plugins().dom().contains(id@),
{
    if r matches Ok(None) {
        assert(store.plugins() == store.plugins().remove(id@));
        assert(!store.plugins().remove(id@).dom().contains(id@));
    }
}

/// Updating plugins makes the choices of the patch and keeps all others; replacing them keeps
/// none.
pub proof fn lemma_plugins_are_updated_and_replaced(
    store: CapabilitySettingsStore,
    patch: TextMap<bool>,
    expected: Option<u64>,
    updated: Proposal,
    replaced: Proposal,
    id: Seq<char>,
)
    requires
        call_ensures(CapabilitySettingsStore::update_plugins, (&store, patch, expected), updated),
        call_ensures(CapabilitySettingsStore::replace_plugins, (&store, patch, expected), replaced),
        store.wf(),
    ensures
        updated matches Ok(Some(document)) ==> {
            &&& patch@.dom().contains(id) ==> document.plugins@.dom().contains(id)
                && document.plugins@[id] == patch@[id]
            &&& !patch@.dom().contains(id) && store.plugins().dom().contains(id)
                ==> document.plugins@.dom().contains(id) && document.plugins@[id]
                == store.plugins()[id]
            &&& document.plugins@.dom().contains(id) ==> patch@.dom().contains(id)
                || store.plugins().dom().contains(id)
        },
        replaced matches Ok(Some(document)) ==> {
            &&& document.plugins@.dom().contains(id) <==> patch@.dom().contains(id)
            &&& patch@.dom().contains(id) ==> document.plugins@[id] == patch@[id]
        },
{
}

/// A plugin that was chosen is on or off as it was chosen, and any other as it is by itself.
pub proof fn lemma_plugin_choice_counts(
    store: CapabilitySettingsStore,
    id: &str,
    default: bool,
    r: bool,
)
    requires
        call_ensures(CapabilitySettingsStore::plugin_enabled, (&store, id, default), r),
    ensures
        store.plugins().dom().contains(id@) ==> r == store.plugins()[id@],
        !store.plugins().dom().contains(id@) ==> r == default,
{
}

// ---------------------------------------------------------------------------
// Sections
// ---------------------------------------------------------------------------
proof fn lemma_entry_is_chosen(
    entries: Seq<SectionEntry>,
    n: int,
    setting: CapabilitySetting,
    k: int,
)
    requires
        0 <= k < n <= entries.len(),
        entries[k].0 == setting.key(),
        forall|i: int, j: int|
            0 <= i < j < entries.len() ==> (#[trigger] entries[i]).0 != (#[trigger] entries[j]).0,
    ensures
        chosen_in(entries, n, setting) == entries[k].1->Ok_0,
    decreases n,
{
    if k < n - 1 {
        assert(entries[k].0 != entries[n - 1].0);
        lemma_entry_is_chosen(entries, n - 1, setting, k);
    }
}

proof fn lemma_no_entry_no_choice(entries: Seq<SectionEntry>, n: int, setting: CapabilitySetting)
    requires
        0 <= n <= entries.len(),
        forall|i: int| 0 <= i < entries.len() ==> (#[trigger] entries[i]).0 != setting.key(),
    ensures
        chosen_in(entries, n, setting) is None,
    decreases n,
{
    if n > 0 {
        assert(entries[n - 1].0 != setting.key());
        lemma_no_entry_no_choice(entries, n - 1, setting);
    }
}

proof fn lemma_good_entries(entries: Seq<SectionEntry>, i: int)
    requires
        0 <= i <= entries.len(),
        forall|k: int|
            0 <= k < entries.len() ==> is_capability_key((#[trigger] entries[k]).0)
                && entries[k].1 is Ok,
        forall|j: int, k: int|
            0 <= j < k < entries.len() ==> (#[trigger] entries[j]).0 != (#[trigger] entries[k]).0,
    ensures
        section_problem(entries, i) is None,
    decreases entries.len() - i,
{
    if i < entries.len() {
        let seen = keys_before(entries, i);
        if seen.contains(entries[i].0) {
            let j = choose|j: int| 0 <= j < seen.len() && seen[j] == entries[i].0;
            assert(entries[j].0 != entries[i].0);
        }
        lemma_good_entries(entries, i + 1);
    }
}

proof fn lemma_bad_entry(entries: Seq<SectionEntry>, i: int, k: int)
    requires
        0 <= i <= k < entries.len(),
        !is_capability_key(entries[k].0) || entries[k].1 is Err,
    ensures
        section_problem(entries, i) is Some,
    decreases entries.len() - i,
{
    if i < k {
        lemma_bad_entry(entries, i + 1, k);
    }
}

/// A section chooses what stands in it: a switch for each capability that it names, nothing for
/// one that it sets to null or leaves out. It is accepted exactly if it names nothing but
/// capabilities, and gives each a switch or null.
pub proof fn lemma_sections_choose_what_they_say(
    value: serde_json::Value,
    r: Result<CapabilityOverrides, CapabilitySettingsError>,
    setting: CapabilitySetting,
    b: bool,
)
    requires
        call_ensures(CapabilitySettingsStore::parse_section, (&value,), r),
        value_content(value).names_once(),
    ensures
        r is Ok <==> forall|name: Seq<char>, given: JsonView| #[trigger]
            value_content(value).has(name, given) ==> is_capability_key(name) && (given is Bool
                || given is Null),
        r is Ok && value_content(value).has(setting.key(), JsonView::Bool(b)) ==> r->Ok_0.at(
            setting,
        ) == Some(b),
        r is Ok && value_content(value).has(setting.key(), JsonView::Null) ==> r->Ok_0.at(setting)
            is None,
        r is Ok && value_content(value).lacks(setting.key()) ==> r->Ok_0.at(setting) is None,
{
    let section = value_content(value);
    let fields = section->Object_0;
    let entries = section_entries(fields);
    assert(section == JsonView::Object(fields));
    assert forall|i: int, j: int| 0 <= i < j < entries.len() implies (#[trigger] entries[i]).0 != (
    #[trigger] entries[j]).0 by {
        assert(fields[i].0 != fields[j].0);
    }
    if forall|name: Seq<char>, given: JsonView| #[trigger]
        section.has(name, given) ==> is_capability_key(name) && (given is Bool || given is Null) {
        assert forall|k: int| 0 <= k < entries.len() implies is_capability_key(
            (#[trigger] entries[k]).0,
        ) && entries[k].1 is Ok by {
            assert(fields[k] == (fields[k].0, fields[k].1));
            assert(section.has(fields[k].0, fields[k].1));
        }
        lemma_good_entries(entries, 0);
    } else {
        let (name, given) = choose|name: Seq<char>, given: JsonView|
            #[trigger] section.has(name, given) && !(is_capability_key(name) && (given is Bool
                || given is Null));
        let k = choose|k: int| 0 <= k < fields.len() && #[trigger] fields[k] == (name, given);
        assert(entries[k] == (name, choice_of(given)));
        lemma_bad_entry(entries, 0, k);
    }
    if section.has(setting.key(), JsonView::Bool(b)) {
        let k = choose|k: int|
            0 <= k < fields.len() && #[trigger] fields[k] == (setting.key(), JsonView::Bool(b));
        assert(entries[k] == (setting.key(), choice_of(JsonView::Bool(b))));
        lemma_entry_is_chosen(entries, entries.len() as int, setting, k);
    }
    if section.has(setting.key(), JsonView::Null) {
        let k = choose|k: int|
            0 <= k < fields.len() && #[trigger] fields[k] == (setting.key(), JsonView::Null);
        assert(entries[k] == (setting.key(), choice_of(JsonView::Null)));
        lemma_entry_is_chosen(entries, entries.len() as int, setting, k);
    }
    if section.lacks(setting.key()) {
        assert forall|i: int| 0 <= i < entries.len() implies (#[trigger] entries[i]).0
            != setting.key() by {
            if fields[i].0 == setting.key() {
                assert(fields[i] == (setting.key(), fields[i].1));
                assert(section.has(setting.key(), fields[i].1));
            }
        }
        lemma_no_entry_no_choice(entries, entries.len() as int, setting);
    }
}

// ---------------------------------------------------------------------------
// Plugins and places
// ---------------------------------------------------------------------------
/// A name without white space and control characters, of plain letters and signs, that is not too
/// long, is the name of a plugin, and nothing else is.
pub proof fn lemma_plain_names_are_plugin_names(id: &str, r: Result<(), CapabilitySettingsError>)
    requires
        call_ensures(validate_plugin_id, (id,), r),
    ensures
        r is Ok <==> 0 < id@.len() && utf8_len(id@) <= MAX_PLUGIN_ID_BYTES && forall|k: int|
            0 <= k < id@.len() ==> '\u{21}' <= #[trigger] id@[k] <= '\u{7e}',
{
    if r is Ok {
        assert forall|k: int| 0 <= k < id@.len() implies '\u{21}' <= #[trigger] id@[k]
            <= '\u{7e}' by {
            assert(is_plugin_id_char(id@[k]));
        }
    }
}

/// The state lives where it is said to live, or else in a directory of its own below the home of
/// the user, or else below the working directory.
pub proof fn lemma_state_lives_where_it_is_said_to(
    next_home: Option<String>,
    user_profile: Option<String>,
    home: Option<String>,
    r: String,
)
    requires
        call_ensures(next_state_root, (next_home, user_profile, home), r),
    ensures
        next_home is Some ==> r@ == next_home->0@,
        next_home is None ==> ".yunxi-next"@.is_suffix_of(r@),
        next_home is None && user_profile is Some ==> user_profile->0@.is_prefix_of(r@),
        next_home is None && user_profile is None && home is Some ==> home->0@.is_prefix_of(r@),
        next_home is None && user_profile is None && home is None ==> r@ == ".yunxi-next"@,
{
    let name = ".yunxi-next"@;
    if next_home is None {
        assert(name =~= r@.subrange(r@.len() - name.len(), r@.len() as int));
        if user_profile is Some {
            assert(user_profile->0@ =~= r@.subrange(0, user_profile->0@.len() as int));
        } else if home is Some {
            assert(home->0@ =~= r@.subrange(0, home->0@.len() as int));
        }
    }
}

proof fn lemma_switches_are_taken(entries: Seq<(Seq<char>, bool)>, k: int, other: (Seq<char>, bool))
    ensures
        sorted(inserted(entries)),
        0 <= k < entries.len() && (forall|j: int|
            k < j < entries.len() ==> (#[trigger] entries[j]).0 != entries[k].0) ==> inserted(
            entries,
        ).contains(entries[k]),
        inserted(entries).contains(other) ==> entries.contains(other),
    decreases entries.len(),
{
    if entries.len() > 0 {
        let front = entries.drop_last();
        let last = entries.last();
        assert(entries[entries.len() - 1] == last);
        lemma_switches_are_taken(front, k, other);
        lemma_one_more_entry(inserted(front), last.0, last.1, other);
        if inserted(entries).contains(other) && other.0 != last.0 {
            let j = choose|j: int| 0 <= j < front.len() && front[j] == other;
            assert(entries[j] == other);
        }
        if inserted(entries).contains(other) && other.0 == last.0 {
            assert(other == last);
        }
        if 0 <= k < front.len() && (forall|j: int|
            k < j < entries.len() ==> (#[trigger] entries[j]).0 != entries[k].0) {
            assert(front[k] == entries[k]);
            assert forall|j: int| k < j < front.len() implies (#[trigger] front[j]).0
                != front[k].0 by {
                assert(front[j] == entries[j]);
            }
            lemma_one_more_entry(inserted(front), last.0, last.1, entries[k]);
        }
    }
}

/// The plugins of a section are switched as it says, the last time that it names them, and no
/// other plugin is.
pub proof fn lemma_sections_switch_the_plugins_they_name(
    entries: Vec<(String, bool)>,
    r: Result<TextMap<bool>, CapabilitySettingsError>,
    k: int,
    other: (Seq<char>, bool),
)
    requires
        call_ensures(accept_plugins, (true, Ok::<Vec<(String, bool)>, String>(entries)), r),
        r is Ok,
    ensures
        0 <= k < entries@.len() && (forall|j: int|
            k < j < entries@.len() ==> (#[trigger] entries@[j]).0@ != entries@[k].0@)
            ==> r->Ok_0.entries().contains((entries@[k].0@, entries@[k].1)),
        r->Ok_0.entries().contains(other) ==> exists|j: int|
            0 <= j < entries@.len() && (#[trigger] entries@[j]).0@ == other.0 && entries@[j].1
                == other.1,
{
    let all = switches_view(entries@);
    if 0 <= k < entries@.len() && (forall|j: int|
        k < j < entries@.len() ==> (#[trigger] entries@[j]).0@ != entries@[k].0@) {
        assert forall|j: int| k < j < all.len() implies (#[trigger] all[j]).0 != all[k].0 by {
            assert(entries@[j].0@ != entries@[k].0@);
        }
        lemma_switches_are_taken(all, k, other);
        assert(all[k] == (entries@[k].0@, entries@[k].1));
    }
    lemma_switches_are_taken(all, -1, other);
    if r->Ok_0.entries().contains(other) {
        let j = choose|j: int| 0 <= j < all.len() && all[j] == other;
        assert(entries@[j].0@ == other.0 && entries@[j].1 == other.1);
    }
}

} // verus!
