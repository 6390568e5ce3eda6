//! The explicit configuration of the skills of a workspace.
use vstd::prelude::*;

use crate::paths::{joined, joined_of};
use crate::skills::error::{SkillsConfigError, SkillsConfigErrorView};
use crate::text::{
    any_control, byte_len, has_control, is_ascii_digit, is_ascii_lower, split, split_of, str_eq,
    texts, to_chars, trim, trim_of, utf8_len,
};
use crate::text_map::{with_entry, TextMap};

verus! {

pub const SKILLS_ROOT_ENV: &'static str = "YUNXI_NEXT_SKILLS_ROOT";

pub const SKILLS_DISABLED_ENV: &'static str = "YUNXI_NEXT_SKILLS_DISABLED";

pub const SKILLS_MODE_ENV: &'static str = "YUNXI_NEXT_SKILLS_MODE";

pub const SKILLS_ACTIONS_ENABLED_ENV: &'static str = "YUNXI_NEXT_SKILLS_ACTIONS_ENABLED";

pub const MAX_ROOT_BYTES: usize = 512;

// ---------------------------------------------------------------------------
// Fields
// ---------------------------------------------------------------------------
/// The characters of skill identifiers.
pub open spec fn is_skill_char(c: char) -> bool {
    is_ascii_lower(c) || is_ascii_digit(c) || c == '-' || c == '_'
}

/// Skill identifiers start with a letter and end in a letter or a digit.
pub open spec fn is_skill_id(id: Seq<char>) -> bool {
    &&& id.len() > 0
    &&& is_ascii_lower(id[0])
    &&& id.last() != '-'
    &&& id.last() != '_'
    &&& forall|k: int| 0 <= k < id.len() ==> is_skill_char(#[trigger] id[k])
}

pub fn validate_skill_id(id: &str) -> (r: Result<(), SkillsConfigError>)
    ensures
        r is Ok == is_skill_id(id@),
        r is Err ==> r->Err_0@ == (SkillsConfigErrorView::InvalidSkillId { id: id@ }),
{
    let chars = to_chars(id);
    let n: usize = chars.len();
    let mut fits = n > 0 && 'a' <= chars[0] && chars[0] <= 'z' && chars[n - 1] != '-' && chars[n
        - 1] != '_';
    let mut i: usize = 0;
    while i < n && fits
        invariant
            chars@ == id@,
            n == chars@.len(),
            i <= n,
            fits ==> n > 0 && is_ascii_lower(id@[0]) && id@.last() != '-' && id@.last() != '_',
            fits ==> forall|k: int| 0 <= k < i ==> is_skill_char(#[trigger] id@[k]),
            !fits ==> !is_skill_id(id@),
        decreases n - i,
    {
        let c = chars[i];
        if !('a' <= c && c <= 'z') && !('0' <= c && c <= '9') && c != '-' && c != '_' {
            assert(!is_skill_char(id@[i as int]));
            fits = false;
        }
        i += 1;
    }
    if fits {
        Ok(())
    } else {
        Err(SkillsConfigError::InvalidSkillId { id: id.to_owned() })
    }
}

/// An identifier never leads out of the directory it names.
pub proof fn lemma_skill_id_is_a_plain_name(id: Seq<char>)
    requires
        is_skill_id(id),
    ensures
        !id.contains('/'),
        !id.contains('.'),
        !id.contains('\\'),
{
    assert forall|k: int| 0 <= k < id.len() implies id[k] != '/' && id[k] != '.' && id[k]
        != '\\' by {
        assert(is_skill_char(id[k]));
    }
}

/// The identifiers of a list that is parted by commas, from the `i`th piece on.
pub open spec fn listed_ids(pieces: Seq<Seq<char>>, i: int, ids: Seq<Seq<char>>) -> Result<
    Seq<Seq<char>>,
    SkillsConfigErrorView,
>
    decreases pieces.len() - i,
{
    if i >= pieces.len() {
        Ok(ids)
    } else {
        let id = trim_of(pieces[i]);
        if id.len() == 0 {
            listed_ids(pieces, i + 1, ids)
        } else if is_skill_id(id) {
            listed_ids(pieces, i + 1, ids.push(id))
        } else {
            Err(SkillsConfigErrorView::InvalidSkillId { id })
        }
    }
}

/// The identifiers that a variable lists.
pub open spec fn disabled_ids(value: Option<Seq<char>>) -> Result<
    Seq<Seq<char>>,
    SkillsConfigErrorView,
> {
    match value {
        None => Ok(Seq::empty()),
        Some(text) => listed_ids(split_of(text, ','), 0, Seq::empty()),
    }
}

pub open spec fn given(value: Option<&str>) -> Option<Seq<char>> {
    match value {
        Some(text) => Some(text@),
        None => None,
    }
}

pub fn parse_disabled(value: Option<&str>) -> (r: Result<Vec<String>, SkillsConfigError>)
    ensures
        match disabled_ids(given(value)) {
            Ok(ids) => r is Ok && texts(r->Ok_0@) == ids,
            Err(error) => r is Err && r->Err_0@ == error,
        },
{
    let mut ids: Vec<String> = Vec::new();
    assert(texts(ids@) =~= Seq::<Seq<char>>::empty());
    let text = match value {
        None => return Ok(ids),
        Some(text) => text,
    };
    let pieces = split(text, ',');
    let ghost all = texts(pieces@);
    let n: usize = pieces.len();
    let mut i: usize = 0;
    while i < n
        invariant
            n == pieces@.len(),
            i <= n,
            all == texts(pieces@),
            disabled_ids(given(value)) == listed_ids(all, i as int, texts(ids@)),
        decreases n - i,
    {
        assert(all[i as int] == pieces@[i as int]@);
        let id = trim(pieces[i].as_str());
        if !id.is_empty() {
            validate_skill_id(id)?;
            let ghost before = ids@;
            ids.push(id.to_owned());
            assert(texts(ids@) =~= texts(before).push(id@));
        }
        i += 1;
    }
    Ok(ids)
}

/// What a switch is set to.
pub open spec fn switch_value(value: Option<Seq<char>>) -> Result<bool, SkillsConfigErrorView> {
    match value {
        None => Ok(false),
        Some(text) => {
            let text = trim_of(text);
            if text.len() == 0 || text == "0"@ || text == "false"@ || text == "FALSE"@ || text
                == "no"@ || text == "off"@ {
                Ok(false)
            } else if text == "1"@ || text == "true"@ || text == "TRUE"@ || text == "yes"@ || text
                == "on"@ {
                Ok(true)
            } else {
                Err(SkillsConfigErrorView::InvalidActionsEnabled { value: text })
            }
        },
    }
}

pub fn parse_bool(value: Option<&str>) -> (r: Result<bool, SkillsConfigError>)
    ensures
        match switch_value(given(value)) {
            Ok(on) => r is Ok && r->Ok_0 == on,
            Err(error) => r is Err && r->Err_0@ == error,
        },
{
    let text = match value {
        None => return Ok(false),
        Some(text) => trim(text),
    };
    proof {
        reveal_strlit("0");
        reveal_strlit("1");
        reveal_strlit("true");
        reveal_strlit("TRUE");
        reveal_strlit("yes");
        reveal_strlit("on");
        reveal_strlit("false");
        reveal_strlit("FALSE");
        reveal_strlit("no");
        reveal_strlit("off");
    }
    if text.is_empty() || str_eq(text, "0") || str_eq(text, "false") || str_eq(text, "FALSE")
        || str_eq(text, "no") || str_eq(text, "off") {
        return Ok(false);
    }
    if str_eq(text, "1") || str_eq(text, "true") || str_eq(text, "TRUE") || str_eq(text, "yes")
        || str_eq(text, "on") {
        return Ok(true);
    }
    Err(SkillsConfigError::InvalidActionsEnabled { value: text.to_owned() })
}

/// Why a directory does not do.
pub open spec fn root_problem(root: Seq<char>) -> Option<SkillsConfigErrorView> {
    if trim_of(root).len() == 0 {
        Some(SkillsConfigErrorView::EmptyRoot)
    } else if utf8_len(root) > MAX_ROOT_BYTES {
        Some(
            SkillsConfigErrorView::RootTooLong {
                length: utf8_len(root),
                maximum: MAX_ROOT_BYTES as nat,
            },
        )
    } else if has_control(root) {
        Some(SkillsConfigErrorView::RootControlCharacter)
    } else {
        None
    }
}

fn validate_root(root: &str) -> (r: Result<(), SkillsConfigError>)
    ensures
        match root_problem(root@) {
            None => r is Ok,
            Some(error) => r is Err && r->Err_0@ == error,
        },
{
    if trim(root).is_empty() {
        return Err(SkillsConfigError::EmptyRoot);
    }
    let length: usize = byte_len(root);
    if length > MAX_ROOT_BYTES {
        return Err(SkillsConfigError::RootTooLong { length, maximum: MAX_ROOT_BYTES });
    }
    if any_control(root) {
        return Err(SkillsConfigError::RootControlCharacter);
    }
    Ok(())
}

// ---------------------------------------------------------------------------
// Configurations
// ---------------------------------------------------------------------------
/// The identifiers in their order, each once.
pub open spec fn once_each(ids: Seq<Seq<char>>) -> Seq<(Seq<char>, ())>
    decreases ids.len(),
{
    if ids.len() == 0 {
        Seq::empty()
    } else {
        with_entry(once_each(ids.drop_last()), ids.last(), ())
    }
}

/// The first of the identifiers, from the `i`th on, that is none.
pub open spec fn bad_id(ids: Seq<(Seq<char>, ())>, i: int) -> Option<SkillsConfigErrorView>
    decreases ids.len() - i,
{
    if i >= ids.len() {
        None
    } else if is_skill_id(ids[i].0) {
        bad_id(ids, i + 1)
    } else {
        Some(SkillsConfigErrorView::InvalidSkillId { id: ids[i].0 })
    }
}

/// Where skills are, which of them are off, and whether their actions may be run.
#[derive(Debug)]
pub struct SkillsConfig {
    root: String,
    disabled: TextMap<()>,
    actions_enabled: bool,
}

pub struct SkillsConfigView {
    pub root: Seq<char>,
    pub disabled: Seq<(Seq<char>, ())>,
    pub actions_enabled: bool,
}

impl View for SkillsConfig {
    type V = SkillsConfigView;

    closed spec fn view(&self) -> SkillsConfigView {
        SkillsConfigView {
            root: self.root@,
            disabled: self.disabled.entries(),
            actions_enabled: self.actions_enabled,
        }
    }
}

/// A path below the current directory, unless it is a path of its own.
pub open spec fn resolved_root(root: Seq<char>, current: Result<String, String>) -> Result<
    Seq<char>,
    SkillsConfigErrorView,
> {
    if root.len() > 0 && root[0] == '/' {
        Ok(root)
    } else {
        match current {
            Ok(directory) => Ok(joined_of(directory@, root)),
            Err(message) => Err(SkillsConfigErrorView::CurrentDirectory(message@)),
        }
    }
}

fn resolve_root(root: &str, current: &Result<String, String>) -> (r: Result<
    String,
    SkillsConfigError,
>)
    ensures
        match resolved_root(root@, *current) {
            Ok(path) => r is Ok && r->Ok_0@ == path,
            Err(error) => r is Err && r->Err_0@ == error,
        },
{
    let chars = to_chars(root);
    if chars.len() > 0 && chars[0] == '/' {
        return Ok(root.to_owned());
    }
    match current {
        Ok(directory) => Ok(joined(directory.as_str(), root)),
        Err(message) => Err(SkillsConfigError::CurrentDirectory(message.clone())),
    }
}

/// The configuration of a root with some skills off; no action may be run.
pub open spec fn config_of(
    root: Seq<char>,
    current: Result<String, String>,
    disabled: Seq<Seq<char>>,
) -> Result<SkillsConfigView, SkillsConfigErrorView> {
    match resolved_root(root, current) {
        Err(error) => Err(error),
        Ok(path) => match root_problem(path) {
            Some(error) => Err(error),
            None => match bad_id(once_each(disabled), 0) {
                Some(error) => Err(error),
                None => Ok(
                    SkillsConfigView {
                        root: path,
                        disabled: once_each(disabled),
                        actions_enabled: false,
                    },
                ),
            },
        },
    }
}

/// The variables that configure skills.
#[derive(Clone, Debug)]
pub struct SkillsVariables {
    pub root: Option<String>,
    pub disabled: Option<String>,
    pub actions_enabled: Option<String>,
}

pub open spec fn held(value: Option<String>) -> Option<Seq<char>> {
    match value {
        Some(text) => Some(text@),
        None => None,
    }
}

fn borrow(value: &Option<String>) -> (r: Option<&str>)
    ensures
        given(r) == held(*value),
{
    match value {
        Some(text) => Some(text.as_str()),
        None => None,
    }
}

/// The configuration of a root under the variables.
pub open spec fn configured_root(
    root: Seq<char>,
    current: Result<String, String>,
    variables: SkillsVariables,
) -> Result<SkillsConfigView, SkillsConfigErrorView> {
    match disabled_ids(held(variables.disabled)) {
        Err(error) => Err(error),
        Ok(ids) => match switch_value(held(variables.actions_enabled)) {
            Err(error) => Err(error),
            Ok(enabled) => match config_of(root, current, ids) {
                Err(error) => Err(error),
                Ok(config) => Ok(SkillsConfigView { actions_enabled: enabled, ..config }),
            },
        },
    }
}

/// The root that the variables name, or else `skills` in the current directory.
pub open spec fn named_root(variables: SkillsVariables) -> Seq<char> {
    match held(variables.root) {
        Some(root) => if root.len() > 0 {
            root
        } else {
            "skills"@
        },
        None => "skills"@,
    }
}

impl SkillsConfig {
    /// The configuration that the environment gives. `current` is the current directory, or
    /// why it cannot be told.
    pub fn from_env(variables: &SkillsVariables, current: &Result<String, String>) -> (r: Result<
        Self,
        SkillsConfigError,
    >)
        ensures
            match current {
                Err(message) => r is Err && r->Err_0@ == SkillsConfigErrorView::CurrentDirectory(
                    message@,
                ),
                Ok(_) => match configured_root(named_root(*variables), *current, *variables) {
                    Ok(config) => r is Ok && r->Ok_0@ == config,
                    Err(error) => r is Err && r->Err_0@ == error,
                },
            },
    {
        if let Err(message) = current {
            return Err(SkillsConfigError::CurrentDirectory(message.clone()));
        }
        let root = match &variables.root {
            Some(root) => {
                if root.as_str().is_empty() {
                    "skills"
                } else {
                    root.as_str()
                }
            },
            None => "skills",
        };
        Self::for_root_from_env(root, variables, current)
    }

    /// The configuration that the environment gives for a root that the host has resolved.
    pub fn for_root_from_env(
        root: &str,
        variables: &SkillsVariables,
        current: &Result<String, String>,
    ) -> (r: Result<Self, SkillsConfigError>)
        ensures
            match configured_root(root@, *current, *variables) {
                Ok(config) => r is Ok && r->Ok_0@ == config,
                Err(error) => r is Err && r->Err_0@ == error,
            },
    {
        let disabled = parse_disabled(borrow(&variables.disabled))?;
        let enabled = parse_bool(borrow(&variables.actions_enabled))?;
        let config = Self::new(root, disabled, current)?;
        Ok(config.with_actions_enabled(enabled))
    }

    pub fn new(root: &str, disabled: Vec<String>, current: &Result<String, String>) -> (r: Result<
        Self,
        SkillsConfigError,
    >)
        ensures
            match config_of(root@, *current, texts(disabled@)) {
                Ok(config) => r is Ok && r->Ok_0@ == config,
                Err(error) => r is Err && r->Err_0@ == error,
            },
    {
        let path = resolve_root(root, current)?;
        validate_root(path.as_str())?;
        let mut ids: TextMap<()> = TextMap::new();
        let ghost all = texts(disabled@);
        let n: usize = disabled.len();
        let mut i: usize = 0;
        assert(all.take(0) =~= Seq::<Seq<char>>::empty());
        assert(ids.entries() =~= Seq::<(Seq<char>, ())>::empty());
        while i < n
            invariant
                n == disabled@.len(),
                i <= n,
                all == texts(disabled@),
                ids.entries() == once_each(all.take(i as int)),
            decreases n - i,
        {
            proof {
                assert(all.take(i + 1).drop_last() =~= all.take(i as int));
                assert(all.take(i + 1).last() == disabled@[i as int]@);
            }
            ids.insert(disabled[i].clone(), ());
            i += 1;
        }
        assert(all.take(n as int) =~= all);
        let ghost entries = ids.entries();
        let count: usize = ids.len();
        let mut k: usize = 0;
        while k < count
            invariant
                count == entries.len(),
                entries == ids.entries(),
                entries == once_each(texts(disabled@)),
                resolved_root(root@, *current) == Ok::<Seq<char>, SkillsConfigErrorView>(path@),
                root_problem(path@) is None,
                k <= count,
                bad_id(entries, 0) == bad_id(entries, k as int),
            decreases count - k,
        {
            validate_skill_id(ids.key_at(k))?;
            k += 1;
        }
        Ok(SkillsConfig { root: path, disabled: ids, actions_enabled: false })
    }

    /// Actions are run only where this is switched on.
    pub fn with_actions_enabled(self, enabled: bool) -> (r: Self)
        ensures
            r@ == (SkillsConfigView { actions_enabled: enabled, ..self@ }),
    {
        SkillsConfig { root: self.root, disabled: self.disabled, actions_enabled: enabled }
    }

    pub fn root(&self) -> (r: &str)
        ensures
            r@ == self@.root,
    {
        self.root.as_str()
    }

    pub fn is_disabled(&self, id: &str) -> (r: bool)
        ensures
            r == is_off(self@, id@),
    {
        let n: usize = self.disabled.len();
        let mut i: usize = 0;
        while i < n
            invariant
                n == self.disabled.entries().len(),
                self@.disabled == self.disabled.entries(),
                i <= n,
                forall|k: int| 0 <= k < i ==> (#[trigger] self@.disabled[k]).0 != id@,
            decreases n - i,
        {
            if str_eq(self.disabled.key_at(i), id) {
                assert(self@.disabled[i as int].0 == id@);
                return true;
            }
            i += 1;
        }
        false
    }

    pub fn disabled(&self) -> (r: &TextMap<()>)
        ensures
            r.entries() == self@.disabled,
    {
        &self.disabled
    }

    pub fn actions_enabled(&self) -> (r: bool)
        ensures
            r == self@.actions_enabled,
    {
        self.actions_enabled
    }
}

/// The skill is off.
pub open spec fn is_off(config: SkillsConfigView, id: Seq<char>) -> bool {
    exists|k: int| 0 <= k < config.disabled.len() && (#[trigger] config.disabled[k]).0 == id
}

/// Actions stay off unless a variable switches them on.
pub proof fn lemma_actions_are_off_by_default(
    root: Seq<char>,
    current: Result<String, String>,
    variables: SkillsVariables,
)
    requires
        variables.actions_enabled is None,
    ensures
        configured_root(root, current, variables) is Ok ==> !configured_root(
            root,
            current,
            variables,
        )->Ok_0.actions_enabled,
{
}

} // verus!
