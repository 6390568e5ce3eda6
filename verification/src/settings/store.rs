//! Versioned, bounded capability and plugin settings.
//!
//! A change is proposed as the next document; it takes effect once that document has been
//! written.
use vstd::prelude::*;

use crate::paths::{joined, joined_of};
use crate::settings::capabilities::{
    answered, merged, switch_of, CapabilityOverrides, CapabilitySetting, CapabilitySwitches,
};
use crate::settings::error::{CapabilitySettingsError, SettingsErrorView};
use crate::text::{
    byte_len, char_is_control, char_is_space, is_control, is_space, texts, to_chars, utf8_len,
};
use crate::text_map::TextMap;

verus! {

pub const SETTINGS_FILE_NAME: &'static str = "settings.json";

pub const MAX_SETTINGS_FILE_BYTES: usize = 64 * 1024;

pub const MAX_PLUGIN_ID_BYTES: usize = 128;

pub const MAX_PLUGIN_OVERRIDES: usize = 256;

pub const SETTINGS_DOCUMENT_VERSION: u32 = 1;

#[derive(Clone, Copy, Debug, PartialEq, Eq, Structural)]
pub enum CapabilityEdit {
    Assign(CapabilitySetting, bool),
    Unset(CapabilitySetting),
}

#[derive(Clone, Debug, PartialEq, Eq)]
pub enum PluginEdit {
    Assign(String, bool),
    Unset(String),
}

/// The choices per plugin.
pub type PluginChoices = Map<Seq<char>, bool>;

/// The persisted form of the settings.
#[derive(Debug)]
pub struct SettingsDocument {
    pub version: u32,
    pub revision: u64,
    pub capabilities: CapabilityOverrides,
    pub plugins: TextMap<bool>,
}

// ---------------------------------------------------------------------------
// Plugin identifiers
// ---------------------------------------------------------------------------
pub open spec fn is_plugin_id_char(c: char) -> bool {
    c <= '\u{7f}' && !is_control(c) && !is_space(c)
}

/// A plugin identifier is printable ASCII without white space, and not too long.
pub open spec fn is_plugin_id(id: Seq<char>) -> bool {
    &&& id.len() > 0
    &&& utf8_len(id) <= MAX_PLUGIN_ID_BYTES
    &&& forall|k: int| 0 <= k < id.len() ==> is_plugin_id_char(#[trigger] id[k])
}

pub fn validate_plugin_id(id: &str) -> (r: Result<(), CapabilitySettingsError>)
    ensures
        match r {
            Ok(_) => is_plugin_id(id@),
            Err(error) => !is_plugin_id(id@) && error@ == (SettingsErrorView::InvalidPluginId {
                id: id@,
            }),
        },
{
    if id.is_empty() || byte_len(id) > MAX_PLUGIN_ID_BYTES {
        return Err(CapabilitySettingsError::InvalidPluginId { id: id.to_owned() });
    }
    let chars = to_chars(id);
    let mut i: usize = 0;
    while i < chars.len()
        invariant
            chars@ == id@,
            i <= chars@.len(),
            forall|k: int| 0 <= k < i ==> is_plugin_id_char(#[trigger] id@[k]),
        decreases chars@.len() - i,
    {
        let c = chars[i];
        if c > '\u{7f}' || char_is_control(c) || char_is_space(c) {
            assert(!is_plugin_id_char(id@[i as int]));
            return Err(CapabilitySettingsError::InvalidPluginId { id: id.to_owned() });
        }
        i += 1;
    }
    Ok(())
}

/// The first identifier from `k` on, in the order of the keys, that is not one.
pub open spec fn first_invalid_id(entries: Seq<(Seq<char>, bool)>, k: int) -> Option<Seq<char>>
    decreases entries.len() - k,
{
    if k >= entries.len() {
        None
    } else if !is_plugin_id(entries[k].0) {
        Some(entries[k].0)
    } else {
        first_invalid_id(entries, k + 1)
    }
}

/// What is wrong with plugin choices, in the order of their identifiers.
pub open spec fn entries_problem(entries: Seq<(Seq<char>, bool)>) -> Option<SettingsErrorView> {
    if entries.len() > MAX_PLUGIN_OVERRIDES {
        Some(
            SettingsErrorView::TooManyPluginOverrides {
                count: entries.len(),
                maximum: MAX_PLUGIN_OVERRIDES as nat,
            },
        )
    } else if let Some(id) = first_invalid_id(entries, 0) {
        Some(SettingsErrorView::InvalidPluginId { id })
    } else {
        None
    }
}

/// What is wrong with a set of plugin choices.
pub open spec fn plugins_problem(plugins: TextMap<bool>) -> Option<SettingsErrorView> {
    entries_problem(plugins.entries())
}

/// Every key is an identifier, and there are not too many.
pub open spec fn valid_choices(plugins: PluginChoices) -> bool {
    &&& plugins.dom().finite()
    &&& plugins.dom().len() <= MAX_PLUGIN_OVERRIDES
    &&& forall|id: Seq<char>| #[trigger] plugins.dom().contains(id) ==> is_plugin_id(id)
}

proof fn lemma_no_invalid_id(entries: Seq<(Seq<char>, bool)>, k: int)
    requires
        0 <= k,
        first_invalid_id(entries, k) is None,
    ensures
        forall|i: int| k <= i < entries.len() ==> is_plugin_id((#[trigger] entries[i]).0),
    decreases entries.len() - k,
{
    if k < entries.len() {
        lemma_no_invalid_id(entries, k + 1);
    }
}

pub fn validate_plugin_overrides(plugins: &TextMap<bool>) -> (r: Result<
    (),
    CapabilitySettingsError,
>)
    ensures
        match r {
            Ok(_) => plugins_problem(*plugins) is None && valid_choices(plugins@),
            Err(error) => plugins_problem(*plugins) == Some(error@),
        },
{
    let count: usize = plugins.len();
    if count > MAX_PLUGIN_OVERRIDES {
        return Err(
            CapabilitySettingsError::TooManyPluginOverrides {
                count,
                maximum: MAX_PLUGIN_OVERRIDES,
            },
        );
    }
    let mut i: usize = 0;
    while i < count
        invariant
            count == plugins.entries().len(),
            count <= MAX_PLUGIN_OVERRIDES,
            i <= count,
            first_invalid_id(plugins.entries(), 0) == first_invalid_id(
                plugins.entries(),
                i as int,
            ),
        decreases count - i,
    {
        match validate_plugin_id(plugins.key_at(i)) {
            Ok(()) => {},
            Err(error) => return Err(error),
        }
        i += 1;
    }
    proof {
        lemma_no_invalid_id(plugins.entries(), 0);
        assert forall|id: Seq<char>| #[trigger] plugins@.dom().contains(id) implies is_plugin_id(
            id,
        ) by {
            let k = crate::text_map::key_index(plugins.entries(), id);
            assert(crate::text_map::has_key(plugins.entries(), id));
            assert(plugins.entries()[k].0 == id);
        }
    }
    Ok(())
}

// ---------------------------------------------------------------------------
// Documents
// ---------------------------------------------------------------------------
/// A file that is read as a document is not larger than [`MAX_SETTINGS_FILE_BYTES`].
pub fn check_length(path: &str, length: u64) -> (r: Result<(), CapabilitySettingsError>)
    ensures
        r is Ok == (length <= MAX_SETTINGS_FILE_BYTES),
        r is Err ==> r->Err_0@ == (SettingsErrorView::TooLarge {
            path: path@,
            maximum: MAX_SETTINGS_FILE_BYTES as nat,
        }),
{
    if length > MAX_SETTINGS_FILE_BYTES as u64 {
        Err(
            CapabilitySettingsError::TooLarge {
                path: path.to_owned(),
                maximum: MAX_SETTINGS_FILE_BYTES,
            },
        )
    } else {
        Ok(())
    }
}

/// What is wrong with a document.
pub open spec fn document_problem(path: Seq<char>, document: SettingsDocument) -> Option<
    SettingsErrorView,
> {
    if let Some(problem) = plugins_problem(document.plugins) {
        Some(problem)
    } else if document.version != SETTINGS_DOCUMENT_VERSION {
        Some(SettingsErrorView::UnsupportedVersion { path, version: document.version })
    } else {
        None
    }
}

/// A document that was read is used only if it keeps the rules.
pub fn check_document(path: &str, document: SettingsDocument) -> (r: Result<
    SettingsDocument,
    CapabilitySettingsError,
>)
    ensures
        match r {
            Ok(accepted) => document_problem(path@, document) is None && accepted == document
                && valid_choices(document.plugins@),
            Err(error) => document_problem(path@, document) == Some(error@),
        },
{
    match validate_plugin_overrides(&document.plugins) {
        Ok(()) => {},
        Err(error) => return Err(error),
    }
    if document.version != SETTINGS_DOCUMENT_VERSION {
        return Err(
            CapabilitySettingsError::UnsupportedVersion {
                path: path.to_owned(),
                version: document.version,
            },
        );
    }
    Ok(document)
}

// ---------------------------------------------------------------------------
// The store
// ---------------------------------------------------------------------------
/// The settings in effect.
#[derive(Debug)]
pub struct CapabilitySettingsStore {
    path: String,
    overrides: CapabilityOverrides,
    plugin_overrides: TextMap<bool>,
    revision: u64,
    warnings: Vec<String>,
}

/// A proposed change, or why there is none.
pub type Proposal = Result<Option<SettingsDocument>, CapabilitySettingsError>;

impl CapabilitySettingsStore {
    pub closed spec fn spec_path(self) -> Seq<char> {
        self.path@
    }

    pub closed spec fn spec_revision(self) -> u64 {
        self.revision
    }

    pub closed spec fn spec_overrides(self) -> CapabilityOverrides {
        self.overrides
    }

    pub closed spec fn plugins(self) -> PluginChoices {
        self.plugin_overrides@
    }

    pub closed spec fn spec_warnings(self) -> Seq<Seq<char>> {
        texts(self.warnings@)
    }

    /// The plugin choices keep the rules.
    pub open spec fn wf(self) -> bool {
        valid_choices(self.plugins())
    }

    /// The settings with everything at its default.
    fn empty(path: String, warnings: Vec<String>) -> (r: Self)
        ensures
            r.wf(),
            r.spec_path() == path@,
            r.spec_revision() == 0,
            forall|setting: CapabilitySetting| #[trigger]
                r.spec_overrides().at(setting) is None,
            r.plugins() == Map::<Seq<char>, bool>::empty(),
            r.spec_warnings() == texts(warnings@),
    {
        CapabilitySettingsStore {
            path,
            overrides: CapabilityOverrides::default(),
            plugin_overrides: TextMap::new(),
            revision: 0,
            warnings,
        }
    }

    /// The settings of a document.
    fn from_document(path: String, document: SettingsDocument, warnings: Vec<String>) -> (r: Self)
        requires
            valid_choices(document.plugins@),
        ensures
            r.wf(),
            r.spec_path() == path@,
            r.spec_revision() == document.revision,
            r.spec_overrides() == document.capabilities,
            r.plugins() == document.plugins@,
            r.spec_warnings() == texts(warnings@),
    {
        CapabilitySettingsStore {
            path,
            overrides: document.capabilities,
            plugin_overrides: document.plugins,
            revision: document.revision,
            warnings,
        }
    }

    /// The settings, given what was found at the path and at the backup beside it. The backup
    /// counts only where the path holds no usable document; without either, everything is at
    /// its default. What was passed over is kept as a warning.
    pub fn load(
        path: &str,
        target: Result<Option<SettingsDocument>, CapabilitySettingsError>,
        backup: Result<Option<SettingsDocument>, CapabilitySettingsError>,
    ) -> (r: Self)
        requires
            target matches Ok(Some(document)) ==> valid_choices(document.plugins@),
            backup matches Ok(Some(document)) ==> valid_choices(document.plugins@),
        ensures
            r.wf(),
            r.spec_path() == path@,
            match loaded_document(target, backup) {
                Some(document) => r.spec_revision() == document.revision && r.spec_overrides()
                    == document.capabilities && r.plugins() == document.plugins@,
                None => r.spec_revision() == 0 && r.plugins() == Map::<Seq<char>, bool>::empty()
                    && forall|setting: CapabilitySetting| #[trigger]
                    r.spec_overrides().at(setting) is None,
            },
            r.spec_warnings() == load_warnings(target, backup),
    {
        let mut warnings: Vec<String> = Vec::new();
        let ghost none: Seq<Seq<char>> = seq![];
        assert(texts(warnings@) =~= none);
        let ghost first = target;
        match target {
            Ok(Some(document)) => {
                return CapabilitySettingsStore::from_document(path.to_owned(), document, warnings);
            },
            Ok(None) => {},
            Err(error) => {
                let text = error.to_string();
                warnings.push(text);
                assert(texts(warnings@) =~= seq![text@]);
            },
        }
        let ghost so_far = texts(warnings@);
        match backup {
            Ok(Some(document)) => {
                let ghost before = warnings@;
                let text =
                    "capability settings recovered from an interrupted-write backup".to_owned();
                warnings.push(text);
                assert(texts(warnings@) =~= texts(before).push(text@));
                CapabilitySettingsStore::from_document(path.to_owned(), document, warnings)
            },
            Ok(None) => CapabilitySettingsStore::empty(path.to_owned(), warnings),
            Err(error) => {
                let ghost before = warnings@;
                let text = error.to_string();
                warnings.push(text);
                assert(texts(warnings@) =~= texts(before).push(text@));
                CapabilitySettingsStore::empty(path.to_owned(), warnings)
            },
        }
    }

    /// The settings of the host, given `YUNXI_NEXT_HOME`, `USERPROFILE` and `HOME`, and what was
    /// found where these put the settings file, and at the backup beside it.
    pub fn from_environment(
        next_home: Option<String>,
        user_profile: Option<String>,
        home: Option<String>,
        target: Result<Option<SettingsDocument>, CapabilitySettingsError>,
        backup: Result<Option<SettingsDocument>, CapabilitySettingsError>,
    ) -> (r: Self)
        requires
            target matches Ok(Some(document)) ==> valid_choices(document.plugins@),
            backup matches Ok(Some(document)) ==> valid_choices(document.plugins@),
        ensures
            r.wf(),
            r.spec_path() == joined_of(
                state_root_of(next_home, user_profile, home),
                SETTINGS_FILE_NAME@,
            ),
            match loaded_document(target, backup) {
                Some(document) => r.spec_revision() == document.revision && r.spec_overrides()
                    == document.capabilities && r.plugins() == document.plugins@,
                None => r.spec_revision() == 0 && r.plugins() == Map::<Seq<char>, bool>::empty()
                    && forall|setting: CapabilitySetting| #[trigger]
                    r.spec_overrides().at(setting) is None,
            },
            r.spec_warnings() == load_warnings(target, backup),
    {
        let root = next_state_root(next_home, user_profile, home);
        Self::load(joined(root.as_str(), SETTINGS_FILE_NAME).as_str(), target, backup)
    }

    pub fn path(&self) -> (r: &str)
        ensures
            r@ == self.spec_path(),
    {
        self.path.as_str()
    }

    pub fn revision(&self) -> (r: u64)
        ensures
            r == self.spec_revision(),
    {
        self.revision
    }

    pub fn overrides(&self) -> (r: &CapabilityOverrides)
        ensures
            *r == self.spec_overrides(),
    {
        &self.overrides
    }

    /// Returns persisted user choices keyed by plugin id.
    pub fn plugin_overrides(&self) -> (r: &TextMap<bool>)
        ensures
            r@ == self.plugins(),
    {
        &self.plugin_overrides
    }

    /// Resolves a plugin choice without assuming that the plugin is installed.
    pub fn plugin_enabled(&self, id: &str, default: bool) -> (r: bool)
        ensures
            r == if self.plugins().dom().contains(id@) {
                self.plugins()[id@]
            } else {
                default
            },
    {
        match self.plugin_overrides.get(id) {
            Some(enabled) => *enabled,
            None => default,
        }
    }

    /// The switches that the choices and the defaults make.
    pub fn resolved(&self) -> (r: CapabilitySwitches)
        ensures
            forall|setting: CapabilitySetting| #[trigger]
                r.at(setting) == switch_of(self.spec_overrides(), setting),
    {
        CapabilitySwitches::from_overrides(&self.overrides)
    }

    /// The switches once the environment has had its say.
    pub fn effective_from_environment<F: Fn(&str) -> Option<String>>(&self, read: F) -> (r:
        CapabilitySwitches)
        requires
            forall|name: &str| #[trigger] call_requires(read, (name,)),
        ensures
            forall|setting: CapabilitySetting|
                answered(
                    read,
                    setting,
                    switch_of(self.spec_overrides(), setting),
                    #[trigger] r.at(setting),
                ),
    {
        self.resolved().with_environment(read)
    }

    /// Hands out the warnings that have gathered.
    pub fn take_warnings(&mut self) -> (r: Vec<String>)
        ensures
            texts(r@) == old(self).spec_warnings(),
            final(self).spec_warnings() == Seq::<Seq<char>>::empty(),
            final(self).spec_path() == old(self).spec_path(),
            final(self).spec_revision() == old(self).spec_revision(),
            final(self).spec_overrides() == old(self).spec_overrides(),
            final(self).plugins() == old(self).plugins(),
    {
        let mut taken: Vec<String> = Vec::new();
        std::mem::swap(&mut self.warnings, &mut taken);
        assert(texts(self.warnings@) =~= Seq::<Seq<char>>::empty());
        taken
    }

    /// The expected revision, where one is given, is not the current one.
    pub open spec fn conflicts(self, expected: Option<u64>) -> bool {
        expected is Some && expected->0 != self.spec_revision()
    }

    pub open spec fn conflict(self, expected: Option<u64>) -> SettingsErrorView {
        SettingsErrorView::Conflict { expected: expected->0, current: self.spec_revision() }
    }

    fn check_revision(&self, expected: Option<u64>) -> (r: Result<(), CapabilitySettingsError>)
        ensures
            r is Err == self.conflicts(expected),
            r is Err ==> r->Err_0@ == self.conflict(expected),
    {
        match expected {
            Some(expected) if expected != self.revision => Err(
                CapabilitySettingsError::Conflict { expected, current: self.revision },
            ),
            _ => Ok(()),
        }
    }

    /// The document proposes exactly these choices as the next revision; there is none where
    /// nothing would change.
    pub open spec fn proposes(
        self,
        proposal: Proposal,
        choices: spec_fn(CapabilitySetting) -> Option<bool>,
        plugins: PluginChoices,
    ) -> bool {
        match proposal {
            Ok(None) => self.has(choices, plugins),
            Ok(Some(document)) => {
                &&& !self.has(choices, plugins)
                &&& self.spec_revision() < u64::MAX
                &&& document.version == SETTINGS_DOCUMENT_VERSION
                &&& document.revision == self.spec_revision() + 1
                &&& forall|setting: CapabilitySetting| #[trigger]
                    document.capabilities.at(setting) == choices(setting)
                &&& document.plugins@ == plugins
            },
            Err(error) => {
                &&& !self.has(choices, plugins)
                &&& self.spec_revision() == u64::MAX
                &&& error@ == SettingsErrorView::RevisionExhausted
            },
        }
    }

    /// These choices are already in effect.
    pub open spec fn has(
        self,
        choices: spec_fn(CapabilitySetting) -> Option<bool>,
        plugins: PluginChoices,
    ) -> bool {
        &&& forall|setting: CapabilitySetting| #[trigger]
            self.spec_overrides().at(setting) == choices(setting)
        &&& self.plugins() == plugins
    }

    fn propose(&self, next: CapabilityOverrides, next_plugins: TextMap<bool>) -> (r: Proposal)
        ensures
            self.proposes(r, |setting: CapabilitySetting| next.at(setting), next_plugins@),
    {
        let ghost choices = |setting: CapabilitySetting| next.at(setting);
        if next == self.overrides && next_plugins.same(&self.plugin_overrides) {
            return Ok(None);
        }
        proof {
            if self.has(choices, next_plugins@) {
                assert forall|setting: CapabilitySetting| #[trigger]
                    next.at(setting) == self.overrides.at(setting) by {
                    assert(self.spec_overrides().at(setting) == choices(setting));
                }
                next.lemma_same_choices(self.overrides);
            }
        }
        match self.revision.checked_add(1) {
            Some(revision) => Ok(
                Some(
                    SettingsDocument {
                        version: SETTINGS_DOCUMENT_VERSION,
                        revision,
                        capabilities: next,
                        plugins: next_plugins,
                    },
                ),
            ),
            None => Err(CapabilitySettingsError::RevisionExhausted),
        }
    }

    /// Proposes to take over every choice of `patch`.
    pub fn update(&self, patch: CapabilityOverrides, expected_revision: Option<u64>) -> (r:
        Proposal)
        ensures
            if self.conflicts(expected_revision) {
                r is Err && r->Err_0@ == self.conflict(expected_revision)
            } else {
                self.proposes(
                    r,
                    |setting: CapabilitySetting|
                        merged(self.spec_overrides().at(setting), patch.at(setting)),
                    self.plugins(),
                )
            },
    {
        match self.check_revision(expected_revision) {
            Ok(()) => {},
            Err(error) => return Err(error),
        }
        let mut next = self.overrides;
        next.merge(&patch);
        let r = self.propose(next, self.plugin_overrides.duplicate());
        proof {
            let given = |setting: CapabilitySetting| next.at(setting);
            let wanted = |setting: CapabilitySetting|
                merged(self.spec_overrides().at(setting), patch.at(setting));
            self.lemma_same_proposal(r, given, wanted, self.plugins());
        }
        r
    }

    /// A proposal depends on nothing but what is proposed.
    proof fn lemma_same_proposal(
        self,
        proposal: Proposal,
        given: spec_fn(CapabilitySetting) -> Option<bool>,
        wanted: spec_fn(CapabilitySetting) -> Option<bool>,
        plugins: PluginChoices,
    )
        requires
            self.proposes(proposal, given, plugins),
            forall|setting: CapabilitySetting| #[trigger] given(setting) == wanted(setting),
        ensures
            self.proposes(proposal, wanted, plugins),
    {
        if self.has(given, plugins) {
            assert forall|setting: CapabilitySetting| #[trigger]
                self.spec_overrides().at(setting) == wanted(setting) by {
                assert(given(setting) == wanted(setting));
            }
        }
        if self.has(wanted, plugins) {
            assert forall|setting: CapabilitySetting| #[trigger]
                self.spec_overrides().at(setting) == given(setting) by {
                assert(given(setting) == wanted(setting));
            }
        }
        if let Ok(Some(document)) = proposal {
            assert forall|setting: CapabilitySetting| #[trigger]
                document.capabilities.at(setting) == wanted(setting) by {
                assert(given(setting) == wanted(setting));
            }
        }
    }

    /// Proposes to replace every choice.
    pub fn replace(&self, section: CapabilityOverrides, expected_revision: Option<u64>) -> (r:
        Proposal)
        ensures
            if self.conflicts(expected_revision) {
                r is Err && r->Err_0@ == self.conflict(expected_revision)
            } else {
                self.proposes(
                    r,
                    |setting: CapabilitySetting| section.at(setting),
                    self.plugins(),
                )
            },
    {
        match self.check_revision(expected_revision) {
            Ok(()) => {},
            Err(error) => return Err(error),
        }
        self.propose(section, self.plugin_overrides.duplicate())
    }

    /// Proposes a list of edits, made in order.
    pub fn mutate(&self, edits: Vec<CapabilityEdit>, expected_revision: Option<u64>) -> (r:
        Proposal)
        ensures
            if self.conflicts(expected_revision) {
                r is Err && r->Err_0@ == self.conflict(expected_revision)
            } else {
                self.proposes(
                    r,
                    |setting: CapabilitySetting|
                        edited(self.spec_overrides().at(setting), edits@, setting),
                    self.plugins(),
                )
            },
    {
        match self.check_revision(expected_revision) {
            Ok(()) => {},
            Err(error) => return Err(error),
        }
        let mut next = self.overrides;
        let mut i: usize = 0;
        while i < edits.len()
            invariant
                i <= edits@.len(),
                forall|setting: CapabilitySetting| #[trigger]
                    next.at(setting) == edited(
                        self.spec_overrides().at(setting),
                        edits@.take(i as int),
                        setting,
                    ),
            decreases edits@.len() - i,
        {
            let ghost before = next;
            match edits[i] {
                CapabilityEdit::Assign(setting, value) => next.set(setting, value),
                CapabilityEdit::Unset(setting) => next.unset(setting),
            }
            proof {
                let grown = edits@.take(i + 1);
                assert(grown.drop_last() =~= edits@.take(i as int));
                assert(grown.last() == edits@[i as int]);
                assert forall|setting: CapabilitySetting| #[trigger]
                    next.at(setting) == edited(
                        self.spec_overrides().at(setting),
                        grown,
                        setting,
                    ) by {
                    assert(before.at(setting) == before.at(setting));
                }
            }
            i += 1;
        }
        assert(edits@.take(i as int) =~= edits@);
        let r = self.propose(next, self.plugin_overrides.duplicate());
        proof {
            let given = |setting: CapabilitySetting| next.at(setting);
            let wanted = |setting: CapabilitySetting|
                edited(self.spec_overrides().at(setting), edits@, setting);
            self.lemma_same_proposal(r, given, wanted, self.plugins());
        }
        r
    }

    /// Proposes a choice for one plugin.
    pub fn set_plugin(&self, id: String, enabled: bool, expected_revision: Option<u64>) -> (r:
        Proposal)
        requires
            self.wf(),
        ensures
            if self.conflicts(expected_revision) {
                r is Err && r->Err_0@ == self.conflict(expected_revision)
            } else {
                match plugin_set(self.plugins(), id@, enabled) {
                    Err(error) => r is Err && r->Err_0@ == error,
                    Ok(plugins) => valid_choices(plugins) && self.proposes(
                        r,
                        |setting: CapabilitySetting| self.spec_overrides().at(setting),
                        plugins,
                    ),
                }
            },
    {
        let mut edits: Vec<PluginEdit> = Vec::new();
        edits.push(PluginEdit::Assign(id, enabled));
        proof {
            lemma_single_edit(self.plugins(), edits@);
        }
        self.mutate_plugins(edits, expected_revision)
    }

    /// Proposes to drop the choice for one plugin.
    pub fn unset_plugin(&self, id: String, expected_revision: Option<u64>) -> (r: Proposal)
        requires
            self.wf(),
        ensures
            if self.conflicts(expected_revision) {
                r is Err && r->Err_0@ == self.conflict(expected_revision)
            } else {
                match plugin_unset(self.plugins(), id@) {
                    Err(error) => r is Err && r->Err_0@ == error,
                    Ok(plugins) => valid_choices(plugins) && self.proposes(
                        r,
                        |setting: CapabilitySetting| self.spec_overrides().at(setting),
                        plugins,
                    ),
                }
            },
    {
        let mut edits: Vec<PluginEdit> = Vec::new();
        edits.push(PluginEdit::Unset(id));
        proof {
            lemma_single_edit(self.plugins(), edits@);
        }
        self.mutate_plugins(edits, expected_revision)
    }

    /// Proposes to take over every plugin choice of `patch`.
    pub fn update_plugins(&self, patch: TextMap<bool>, expected_revision: Option<u64>) -> (r:
        Proposal)
        requires
            self.wf(),
        ensures
            if self.conflicts(expected_revision) {
                r is Err && r->Err_0@ == self.conflict(expected_revision)
            } else if plugins_problem(patch) is Some {
                r is Err && Some(r->Err_0@) == plugins_problem(patch)
            } else {
                let plugins = self.plugins().union_prefer_right(patch@);
                if plugins.dom().len() > MAX_PLUGIN_OVERRIDES {
                    r is Err && r->Err_0@ == (SettingsErrorView::TooManyPluginOverrides {
                        count: plugins.dom().len(),
                        maximum: MAX_PLUGIN_OVERRIDES as nat,
                    })
                } else {
                    valid_choices(plugins) && self.proposes(
                        r,
                        |setting: CapabilitySetting| self.spec_overrides().at(setting),
                        plugins,
                    )
                }
            },
    {
        match self.check_revision(expected_revision) {
            Ok(()) => {},
            Err(error) => return Err(error),
        }
        match validate_plugin_overrides(&patch) {
            Ok(()) => {},
            Err(error) => return Err(error),
        }
        let ghost wanted = self.plugins().union_prefer_right(patch@);
        let mut next = self.plugin_overrides.duplicate();
        let count: usize = patch.len();
        let mut i: usize = 0;
        while i < count
            invariant
                count == patch.entries().len(),
                i <= count,
                wanted == self.plugins().union_prefer_right(patch@),
                forall|id: Seq<char>| #[trigger]
                    next@.dom().contains(id) ==> wanted.dom().contains(id),
                forall|id: Seq<char>| #[trigger]
                    self.plugins().dom().contains(id) ==> next@.dom().contains(id),
                forall|k: int|
                    0 <= k < i ==> next@.dom().contains((#[trigger] patch.entries()[k]).0)
                        && next@[patch.entries()[k].0] == patch@[patch.entries()[k].0],
                forall|id: Seq<char>| #[trigger]
                    next@.dom().contains(id) ==> next@[id] == wanted[id] || (next@[id]
                        == self.plugins()[id] && self.plugins().dom().contains(id)),
            decreases count - i,
        {
            let key = patch.key_at(i).to_owned();
            let value = *patch.value_at(i);
            next.insert(key, value);
            i += 1;
        }
        proof {
            assert(patch@ == crate::text_map::entry_map(patch.entries()));
            assert forall|id: Seq<char>| patch@.dom().contains(id) implies next@.dom().contains(id)
                && next@[id] == patch@[id] by {
                let k = crate::text_map::key_index(patch.entries(), id);
                assert(crate::text_map::has_key(patch.entries(), id));
                assert(patch.entries()[k].0 == id);
            }
            assert(next@ =~= wanted);
        }
        let total: usize = next.len();
        assert(total == next@.dom().len());
        match validate_plugin_overrides(&next) {
            Ok(()) => {},
            Err(error) => {
                proof {
                    lemma_only_count_fails(next, self.plugins(), patch@);
                }
                return Err(error);
            },
        }
        self.propose(self.overrides, next)
    }

    /// Proposes to replace every plugin choice.
    pub fn replace_plugins(&self, plugins: TextMap<bool>, expected_revision: Option<u64>) -> (r:
        Proposal)
        ensures
            if self.conflicts(expected_revision) {
                r is Err && r->Err_0@ == self.conflict(expected_revision)
            } else if plugins_problem(plugins) is Some {
                r is Err && Some(r->Err_0@) == plugins_problem(plugins)
            } else {
                valid_choices(plugins@) && self.proposes(
                    r,
                    |setting: CapabilitySetting| self.spec_overrides().at(setting),
                    plugins@,
                )
            },
    {
        match self.check_revision(expected_revision) {
            Ok(()) => {},
            Err(error) => return Err(error),
        }
        match validate_plugin_overrides(&plugins) {
            Ok(()) => {},
            Err(error) => return Err(error),
        }
        self.propose(self.overrides, plugins)
    }

    /// Proposes a list of plugin edits, made in order; the first one that fails is the error.
    pub fn mutate_plugins(&self, edits: Vec<PluginEdit>, expected_revision: Option<u64>) -> (r:
        Proposal)
        requires
            self.wf(),
        ensures
            if self.conflicts(expected_revision) {
                r is Err && r->Err_0@ == self.conflict(expected_revision)
            } else {
                match plugins_edited_from(self.plugins(), edits@, 0) {
                    Err(error) => r is Err && r->Err_0@ == error,
                    Ok(plugins) => valid_choices(plugins) && self.proposes(
                        r,
                        |setting: CapabilitySetting| self.spec_overrides().at(setting),
                        plugins,
                    ),
                }
            },
    {
        match self.check_revision(expected_revision) {
            Ok(()) => {},
            Err(error) => return Err(error),
        }
        let mut next = self.plugin_overrides.duplicate();
        let mut i: usize = 0;
        while i < edits.len()
            invariant
                i <= edits@.len(),
                !self.conflicts(expected_revision),
                valid_choices(next@),
                plugins_edited_from(self.plugins(), edits@, 0) == plugins_edited_from(
                    next@,
                    edits@,
                    i as int,
                ),
            decreases edits@.len() - i,
        {
            let ghost before = next@;
            match &edits[i] {
                PluginEdit::Assign(id, enabled) => {
                    match validate_plugin_id(id.as_str()) {
                        Ok(()) => {},
                        Err(error) => return Err(error),
                    }
                    if !next.contains_key(id.as_str()) && next.len() >= MAX_PLUGIN_OVERRIDES {
                        return Err(
                            CapabilitySettingsError::TooManyPluginOverrides {
                                count: next.len().saturating_add(1),
                                maximum: MAX_PLUGIN_OVERRIDES,
                            },
                        );
                    }
                    next.insert(id.clone(), *enabled);
                    proof {
                        lemma_set_is_valid(before, id@, *enabled);
                    }
                },
                PluginEdit::Unset(id) => {
                    match validate_plugin_id(id.as_str()) {
                        Ok(()) => {},
                        Err(error) => return Err(error),
                    }
                    next.remove(id.as_str());
                    proof {
                        assert(next@.dom() =~= before.dom().remove(id@));
                    }
                },
            }
            i += 1;
        }
        self.propose(self.overrides, next)
    }

    /// A document that was written takes effect.
    pub fn commit(&mut self, document: SettingsDocument)
        requires
            valid_choices(document.plugins@),
        ensures
            final(self).wf(),
            final(self).spec_revision() == document.revision,
            final(self).spec_overrides() == document.capabilities,
            final(self).plugins() == document.plugins@,
            final(self).spec_path() == old(self).spec_path(),
            final(self).spec_warnings() == old(self).spec_warnings(),
    {
        self.overrides = document.capabilities;
        self.plugin_overrides = document.plugins;
        self.revision = document.revision;
    }
}

/// The document that counts.
pub open spec fn loaded_document(target: Proposal, backup: Proposal) -> Option<SettingsDocument> {
    match target {
        Ok(Some(document)) => Some(document),
        _ => match backup {
            Ok(Some(document)) => Some(document),
            _ => None,
        },
    }
}

/// What was passed over while loading.
pub open spec fn load_warnings(target: Proposal, backup: Proposal) -> Seq<Seq<char>> {
    let first = match target {
        Err(error) => seq![error@.text()],
        _ => seq![],
    };
    match target {
        Ok(Some(_)) => seq![],
        _ => match backup {
            Ok(Some(_)) => first.push(
                "capability settings recovered from an interrupted-write backup"@,
            ),
            Ok(None) => first,
            Err(error) => first.push(error@.text()),
        },
    }
}

/// The choice for a capability after a list of edits.
pub open spec fn edited(
    choice: Option<bool>,
    edits: Seq<CapabilityEdit>,
    setting: CapabilitySetting,
) -> Option<bool>
    decreases edits.len(),
{
    if edits.len() == 0 {
        choice
    } else {
        match edits.last() {
            CapabilityEdit::Assign(other, value) if other == setting => Some(value),
            CapabilityEdit::Unset(other) if other == setting => None,
            _ => edited(choice, edits.drop_last(), setting),
        }
    }
}

/// The plugin choices with one more, or why there cannot be one.
pub open spec fn plugin_set(plugins: PluginChoices, id: Seq<char>, enabled: bool) -> Result<
    PluginChoices,
    SettingsErrorView,
> {
    if !is_plugin_id(id) {
        Err(SettingsErrorView::InvalidPluginId { id })
    } else if !plugins.dom().contains(id) && plugins.dom().len() >= MAX_PLUGIN_OVERRIDES {
        Err(
            SettingsErrorView::TooManyPluginOverrides {
                count: plugins.dom().len() + 1,
                maximum: MAX_PLUGIN_OVERRIDES as nat,
            },
        )
    } else {
        Ok(plugins.insert(id, enabled))
    }
}

/// The plugin choices without one.
pub open spec fn plugin_unset(plugins: PluginChoices, id: Seq<char>) -> Result<
    PluginChoices,
    SettingsErrorView,
> {
    if !is_plugin_id(id) {
        Err(SettingsErrorView::InvalidPluginId { id })
    } else {
        Ok(plugins.remove(id))
    }
}

pub open spec fn plugin_edited(plugins: PluginChoices, edit: PluginEdit) -> Result<
    PluginChoices,
    SettingsErrorView,
> {
    match edit {
        PluginEdit::Assign(id, enabled) => plugin_set(plugins, id@, enabled),
        PluginEdit::Unset(id) => plugin_unset(plugins, id@),
    }
}

/// The plugin choices after the edits from `k` on.
pub open spec fn plugins_edited_from(
    plugins: PluginChoices,
    edits: Seq<PluginEdit>,
    k: int,
) -> Result<PluginChoices, SettingsErrorView>
    decreases edits.len() - k,
{
    if k >= edits.len() {
        Ok(plugins)
    } else {
        match plugin_edited(plugins, edits[k]) {
            Err(error) => Err(error),
            Ok(next) => plugins_edited_from(next, edits, k + 1),
        }
    }
}

proof fn lemma_single_edit(plugins: PluginChoices, edits: Seq<PluginEdit>)
    requires
        edits.len() == 1,
    ensures
        plugins_edited_from(plugins, edits, 0) == plugin_edited(plugins, edits[0]),
{
    reveal_with_fuel(plugins_edited_from, 2);
}

proof fn lemma_set_is_valid(plugins: PluginChoices, id: Seq<char>, enabled: bool)
    requires
        valid_choices(plugins),
        plugin_set(plugins, id, enabled) is Ok,
    ensures
        valid_choices(plugins.insert(id, enabled)),
{
    let next = plugins.insert(id, enabled);
    if plugins.dom().contains(id) {
        assert(next.dom() =~= plugins.dom());
    } else {
        assert(next.dom() =~= plugins.dom().insert(id));
    }
}

proof fn lemma_only_count_fails(next: TextMap<bool>, plugins: PluginChoices, patch: PluginChoices)
    requires
        valid_choices(plugins),
        valid_choices(patch),
        next@ == plugins.union_prefer_right(patch),
        plugins_problem(next) is Some,
        next.entries().len() == next@.dom().len(),
        next@ == crate::text_map::entry_map(next.entries()),
    ensures
        next@.dom().len() > MAX_PLUGIN_OVERRIDES,
{
    if next.entries().len() <= MAX_PLUGIN_OVERRIDES {
        assert forall|k: int| 0 <= k < next.entries().len() implies is_plugin_id(
            (#[trigger] next.entries()[k]).0,
        ) by {
            let id = next.entries()[k].0;
            assert(crate::text_map::has_key(next.entries(), id));
            assert(next@.dom().contains(id));
            assert(plugins.dom().contains(id) || patch.dom().contains(id));
        }
        lemma_all_valid_ids(next.entries(), 0);
    }
}

proof fn lemma_all_valid_ids(entries: Seq<(Seq<char>, bool)>, k: int)
    requires
        0 <= k,
        forall|i: int| 0 <= i < entries.len() ==> is_plugin_id((#[trigger] entries[i]).0),
    ensures
        first_invalid_id(entries, k) is None,
    decreases entries.len() - k,
{
    if k < entries.len() {
        lemma_all_valid_ids(entries, k + 1);
    }
}

/// Where the state of the host lives: the explicit home, or a directory below the user's home,
/// or below the working directory.
pub open spec fn state_root_of(
    next_home: Option<String>,
    user_profile: Option<String>,
    home: Option<String>,
) -> Seq<char> {
    if let Some(path) = next_home {
        path@
    } else if let Some(path) = user_profile {
        joined_of(path@, ".yunxi-next"@)
    } else if let Some(path) = home {
        joined_of(path@, ".yunxi-next"@)
    } else {
        ".yunxi-next"@
    }
}

/// Where the state of the host lives, given `YUNXI_NEXT_HOME`, `USERPROFILE` and `HOME`.
pub fn next_state_root(
    next_home: Option<String>,
    user_profile: Option<String>,
    home: Option<String>,
) -> (r: String)
    ensures
        r@ == state_root_of(next_home, user_profile, home),
{
    if let Some(path) = next_home {
        path
    } else if let Some(path) = user_profile {
        joined(path.as_str(), ".yunxi-next")
    } else if let Some(path) = home {
        joined(path.as_str(), ".yunxi-next")
    } else {
        ".yunxi-next".to_owned()
    }
}

/// Once a proposed document is in effect, proposing the same again changes nothing.
pub proof fn lemma_committed_change_is_not_proposed_again(
    before: CapabilitySettingsStore,
    after: CapabilitySettingsStore,
    document: SettingsDocument,
    choices: spec_fn(CapabilitySetting) -> Option<bool>,
    plugins: PluginChoices,
    again: Proposal,
)
    requires
        before.proposes(Ok(Some(document)), choices, plugins),
        after.spec_overrides() == document.capabilities,
        after.plugins() == document.plugins@,
        after.proposes(again, choices, plugins),
    ensures
        again == Ok::<Option<SettingsDocument>, CapabilitySettingsError>(None),
{
    assert(after.has(choices, plugins));
}

/// Every proposed document is the next revision, so a revision never names two documents.
pub proof fn lemma_proposals_advance_the_revision(
    store: CapabilitySettingsStore,
    document: SettingsDocument,
    choices: spec_fn(CapabilitySetting) -> Option<bool>,
    plugins: PluginChoices,
)
    requires
        store.proposes(Ok(Some(document)), choices, plugins),
    ensures
        document.revision == store.spec_revision() + 1,
        document.revision > 0,
        document.version == SETTINGS_DOCUMENT_VERSION,
{
}

/// A proposed document keeps the rules for documents that are read, whatever path it is read
/// from; and loading it gives the revision and the choices that it was proposed with, without a
/// warning and whatever the backup holds.
pub proof fn lemma_committed_document_is_loaded_again(
    store: CapabilitySettingsStore,
    document: SettingsDocument,
    choices: spec_fn(CapabilitySetting) -> Option<bool>,
    plugins: PluginChoices,
    path: Seq<char>,
    backup: Proposal,
)
    requires
        store.proposes(Ok(Some(document)), choices, plugins),
        valid_choices(plugins),
        document.plugins.wf(),
    ensures
        document_problem(path, document) is None,
        loaded_document(Ok(Some(document)), backup) == Some(document),
        load_warnings(Ok(Some(document)), backup) == Seq::<Seq<char>>::empty(),
        document.revision == store.spec_revision() + 1,
        forall|setting: CapabilitySetting| #[trigger]
            document.capabilities.at(setting) == choices(setting),
        document.plugins@ == plugins,
{
    document.plugins.lemma_entries();
    lemma_all_valid_ids(document.plugins.entries(), 0);
}

} // verus!
