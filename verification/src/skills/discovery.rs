//! Finding skills below a root, within limits.
use vstd::prelude::*;
use vstd::utf8::{decode_utf8, valid_utf8};

use crate::paths::Location;
use crate::skills::config::{is_off, SkillsConfig, SkillsConfigView};
use crate::skills::document::{bound_warnings, bounded_warnings, document_of, split_document, SkillText};
use crate::skills::error::{
    DiscoveryError, DiscoveryErrorView, SkillLoadError, SkillLoadErrorView,
};
use crate::text::{
    byte_len, lower_of, str_eq, text2, text3, text4, texts, to_ascii_lowercase, utf8_len,
    utf8_text,
};
use crate::text_sort::{by_name, sort_by_name};

verus! {

pub const SKILL_FILE_NAME: &'static str = "SKILL.md";

pub const TOOLS_FILE_NAME: &'static str = "tools.json";

pub const ACTIONS_FILE_NAME: &'static str = "actions.json";

pub const MAX_ACTIONS_FILE_BYTES: usize = 128 * 1024;

/// The room for a header in front of a skill's instructions.
pub const SKILL_HEADER_BYTES: usize = 8 * 1024;

/// The limits that the host sets.
#[derive(Clone, Copy, Debug)]
pub struct SkillLimits {
    pub skills: usize,
    pub tool_declarations: usize,
    pub actions: usize,
    pub path_bytes: usize,
    pub context_bytes: usize,
}

// ---------------------------------------------------------------------------
// Skills
// ---------------------------------------------------------------------------
/// A tool that a skill describes.
#[derive(Clone, Debug, PartialEq, Eq)]
pub struct SkillToolDescriptor {
    pub name: String,
    pub description: String,
    pub input_schema: String,
}

/// An action that a skill declares for one of its tools.
#[derive(Clone, Debug, PartialEq, Eq)]
pub struct SkillActionSpec {
    pub tool_name: String,
    pub program: String,
    pub arguments: Vec<String>,
    pub timeout_millis: u64,
    pub max_output_bytes: usize,
    pub requires_workspace_write: bool,
}

#[derive(Clone, Debug, PartialEq, Eq)]
pub struct SkillMetadata {
    pub id: String,
    pub name: String,
    pub description: String,
    pub path: String,
    pub instruction_bytes: usize,
    pub tools: Vec<SkillToolDescriptor>,
}

pub struct MetadataView {
    pub id: Seq<char>,
    pub name: Seq<char>,
    pub description: Seq<char>,
    pub path: Seq<char>,
    pub instruction_bytes: usize,
    pub tools: Seq<(Seq<char>, Seq<char>, Seq<char>)>,
}

impl View for SkillMetadata {
    type V = MetadataView;

    open spec fn view(&self) -> MetadataView {
        MetadataView {
            id: self.id@,
            name: self.name@,
            description: self.description@,
            path: self.path@,
            instruction_bytes: self.instruction_bytes,
            tools: Seq::new(
                self.tools@.len(),
                |k: int|
                    (self.tools@[k].name@, self.tools@[k].description@, self.tools@[k].input_schema@),
            ),
        }
    }
}

impl SkillMetadata {
    pub fn duplicate(&self) -> (r: Self)
        ensures
            r@ == self@,
    {
        let mut tools: Vec<SkillToolDescriptor> = Vec::new();
        let n: usize = self.tools.len();
        let mut i: usize = 0;
        while i < n
            invariant
                n == self.tools@.len(),
                i <= n,
                tools@.len() == i,
                forall|k: int|
                    0 <= k < i ==> (#[trigger] tools@[k]).name@ == self.tools@[k].name@
                        && tools@[k].description@ == self.tools@[k].description@
                        && tools@[k].input_schema@ == self.tools@[k].input_schema@,
            decreases n - i,
        {
            let tool = &self.tools[i];
            tools.push(
                SkillToolDescriptor {
                    name: tool.name.clone(),
                    description: tool.description.clone(),
                    input_schema: tool.input_schema.clone(),
                },
            );
            i += 1;
        }
        let r = SkillMetadata {
            id: self.id.clone(),
            name: self.name.clone(),
            description: self.description.clone(),
            path: self.path.clone(),
            instruction_bytes: self.instruction_bytes,
            tools,
        };
        assert(r@.tools =~= self@.tools);
        r
    }
}

#[derive(Debug)]
pub struct DiscoveredSkill {
    pub metadata: SkillMetadata,
    pub instructions: String,
    pub directory: Location,
    pub actions: Vec<SkillActionSpec>,
}

/// What is known of a skill once its text was read.
#[derive(Clone, Debug)]
pub struct SkillDocument {
    pub id: String,
    pub name: String,
    pub description: String,
    pub path: String,
    pub instructions: String,
}

pub struct SkillDocumentView {
    pub id: Seq<char>,
    pub name: Seq<char>,
    pub description: Seq<char>,
    pub path: Seq<char>,
    pub instructions: Seq<char>,
}

impl View for SkillDocument {
    type V = SkillDocumentView;

    open spec fn view(&self) -> SkillDocumentView {
        SkillDocumentView {
            id: self.id@,
            name: self.name@,
            description: self.description@,
            path: self.path@,
            instructions: self.instructions@,
        }
    }
}

/// What the text of a skill says. Its directory gives it its identifier, and its name where
/// the text gives none. A directory without a name in Unicode holds no skill.
pub open spec fn skill_document(directory: Option<Seq<char>>, bytes: Seq<u8>) -> Result<
    SkillDocumentView,
    SkillLoadErrorView,
> {
    if !valid_utf8(bytes) {
        Err(SkillLoadErrorView::NotUtf8)
    } else {
        let text = document_of(decode_utf8(bytes));
        match directory {
            None => Err(SkillLoadErrorView::InvalidDirectoryName),
            Some(directory) => {
                let name = match text.name {
                    Some(name) => name,
                    None => directory,
                };
                Ok(
                    SkillDocumentView {
                        id: lower_of(directory),
                        name,
                        description: match text.description {
                            Some(description) => description,
                            None => "Instructions for "@ + name,
                        },
                        path: directory + "/SKILL.md"@,
                        instructions: text.instructions,
                    },
                )
            },
        }
    }
}

pub fn read_document(directory: Option<&str>, bytes: &Vec<u8>) -> (r: Result<
    SkillDocument,
    SkillLoadError,
>)
    ensures
        match skill_document(
            match directory {
                Some(name) => Some(name@),
                None => None,
            },
            bytes@,
        ) {
            Ok(document) => r is Ok && r->Ok_0@ == document,
            Err(error) => r is Err && r->Err_0@ == error,
        },
{
    let content = match utf8_text(bytes.clone()) {
        Ok(content) => content,
        Err(_) => return Err(SkillLoadError::NotUtf8),
    };
    let SkillText { name, description, instructions } = split_document(content.as_str());
    let directory = match directory {
        Some(directory) => directory,
        None => return Err(SkillLoadError::InvalidDirectoryName),
    };
    let name = match name {
        Some(name) => name,
        None => directory.to_owned(),
    };
    let description = match description {
        Some(description) => description,
        None => text2("Instructions for ", name.as_str()),
    };
    Ok(
        SkillDocument {
            id: to_ascii_lowercase(directory),
            name,
            description,
            path: text2(directory, "/SKILL.md"),
            instructions,
        },
    )
}

/// No file of a skill is larger than its kind allows.
pub fn check_file_length(path: &str, size: usize, maximum: usize) -> (r: Result<
    (),
    SkillLoadError,
>)
    ensures
        r is Ok == (size <= maximum),
        r is Err ==> r->Err_0@ == (SkillLoadErrorView::TooLarge {
            path: path@,
            size: size as nat,
            maximum: maximum as nat,
        }),
{
    if size > maximum {
        return Err(SkillLoadError::TooLarge { path: path.to_owned(), size, maximum });
    }
    Ok(())
}

/// No file of a skill lies outside the root.
pub fn check_contained(root: &Location, path: &Location) -> (r: Result<(), SkillLoadError>)
    ensures
        r is Ok == path.within(*root),
        r is Err ==> r->Err_0@ == SkillLoadErrorView::PathEscape,
{
    if path.is_within(root) {
        Ok(())
    } else {
        Err(SkillLoadError::PathEscape)
    }
}

/// The actions up to the `n`th have one of these names.
pub open spec fn named_before(actions: Seq<SkillActionSpec>, n: int, name: Seq<char>) -> bool {
    exists|k: int| 0 <= k < n && (#[trigger] actions[k]).tool_name@ == name
}

/// What is wrong with the actions from the `i`th on. A verdict says what the host's own rules
/// have against an action.
pub open spec fn actions_problem_from(
    actions: Seq<SkillActionSpec>,
    verdicts: Seq<Result<(), String>>,
    i: int,
) -> Option<SkillLoadErrorView>
    decreases actions.len() - i,
{
    if i >= actions.len() {
        None
    } else {
        match verdicts[i] {
            Err(message) => Some(SkillLoadErrorView::Protocol(message@)),
            Ok(_) => if named_before(actions, i, actions[i].tool_name@) {
                Some(SkillLoadErrorView::DuplicateAction { tool_name: actions[i].tool_name@ })
            } else {
                actions_problem_from(actions, verdicts, i + 1)
            },
        }
    }
}

pub open spec fn actions_problem(
    actions: Seq<SkillActionSpec>,
    verdicts: Seq<Result<(), String>>,
    maximum: nat,
) -> Option<SkillLoadErrorView> {
    if actions.len() > maximum {
        Some(SkillLoadErrorView::TooManyActions { count: actions.len(), maximum })
    } else {
        actions_problem_from(actions, verdicts, 0)
    }
}

/// Checks the actions of a skill: not too many, each as the host wants it, one for each tool.
pub fn check_actions(
    actions: &Vec<SkillActionSpec>,
    verdicts: &Vec<Result<(), String>>,
    maximum: usize,
) -> (r: Result<(), SkillLoadError>)
    requires
        verdicts@.len() == actions@.len(),
    ensures
        match actions_problem(actions@, verdicts@, maximum as nat) {
            None => r is Ok,
            Some(error) => r is Err && r->Err_0@ == error,
        },
{
    let n: usize = actions.len();
    if n > maximum {
        return Err(SkillLoadError::TooManyActions { count: n, maximum });
    }
    let mut i: usize = 0;
    while i < n
        invariant
            n == actions@.len(),
            n == verdicts@.len(),
            n <= maximum,
            i <= n,
            actions_problem(actions@, verdicts@, maximum as nat) == actions_problem_from(
                actions@,
                verdicts@,
                i as int,
            ),
        decreases n - i,
    {
        if let Err(message) = &verdicts[i] {
            return Err(SkillLoadError::Protocol(message.clone()));
        }
        let mut k: usize = 0;
        while k < i
            invariant
                k <= i < n,
                n == actions@.len(),
                n == verdicts@.len(),
                n <= maximum,
                verdicts@[i as int] is Ok,
                forall|j: int|
                    0 <= j < k ==> (#[trigger] actions@[j]).tool_name@
                        != actions@[i as int].tool_name@,
                actions_problem(actions@, verdicts@, maximum as nat) == actions_problem_from(
                    actions@,
                    verdicts@,
                    i as int,
                ),
            decreases i - k,
        {
            if str_eq(actions[k].tool_name.as_str(), actions[i].tool_name.as_str()) {
                assert(actions@[k as int].tool_name@ == actions@[i as int].tool_name@);
                assert(named_before(actions@, i as int, actions@[i as int].tool_name@));
                return Err(
                    SkillLoadError::DuplicateAction { tool_name: actions[i].tool_name.clone() },
                );
            }
            k += 1;
        }
        assert(!named_before(actions@, i as int, actions@[i as int].tool_name@));
        i += 1;
    }
    Ok(())
}

/// Some tool has this name.
pub open spec fn describes(tools: Seq<SkillToolDescriptor>, name: Seq<char>) -> bool {
    exists|k: int| 0 <= k < tools.len() && (#[trigger] tools[k]).name@ == name
}

/// Every action is for a tool that the skill describes.
pub open spec fn all_described(
    actions: Seq<SkillActionSpec>,
    tools: Seq<SkillToolDescriptor>,
) -> bool {
    forall|k: int| 0 <= k < actions.len() ==> describes(tools, (#[trigger] actions[k]).tool_name@)
}

fn has_tool(tools: &Vec<SkillToolDescriptor>, name: &str) -> (r: bool)
    ensures
        r == describes(tools@, name@),
{
    let n: usize = tools.len();
    let mut i: usize = 0;
    while i < n
        invariant
            n == tools@.len(),
            i <= n,
            forall|k: int| 0 <= k < i ==> (#[trigger] tools@[k]).name@ != name@,
        decreases n - i,
    {
        if str_eq(tools[i].name.as_str(), name) {
            assert(tools@[i as int].name@ == name@);
            return true;
        }
        i += 1;
    }
    false
}

fn check_described(actions: &Vec<SkillActionSpec>, tools: &Vec<SkillToolDescriptor>) -> (r: bool)
    ensures
        r == all_described(actions@, tools@),
{
    let n: usize = actions.len();
    let mut i: usize = 0;
    while i < n
        invariant
            n == actions@.len(),
            i <= n,
            forall|k: int|
                0 <= k < i ==> describes(tools@, (#[trigger] actions@[k]).tool_name@),
        decreases n - i,
    {
        if !has_tool(tools, actions[i].tool_name.as_str()) {
            assert(!describes(tools@, actions@[i as int].tool_name@));
            return false;
        }
        i += 1;
    }
    true
}

/// What a skill is made of besides its text: what the host's rules say of its instructions and
/// of its metadata, its tools and actions, and its directory.
pub struct SkillParts {
    pub instructions_verdict: Result<(), String>,
    pub tools: Result<Vec<SkillToolDescriptor>, SkillLoadError>,
    pub actions: Result<Vec<SkillActionSpec>, SkillLoadError>,
    pub metadata_verdict: Result<(), String>,
    pub directory: Result<Location, SkillLoadError>,
}

/// Why a skill is left out.
pub open spec fn parts_problem(parts: SkillParts) -> Option<SkillLoadErrorView> {
    if let Err(message) = parts.instructions_verdict {
        Some(SkillLoadErrorView::Protocol(message@))
    } else if let Err(error) = parts.tools {
        Some(error@)
    } else if let Err(error) = parts.actions {
        Some(error@)
    } else if !all_described(parts.actions->Ok_0@, parts.tools->Ok_0@) {
        Some(SkillLoadErrorView::ActionToolNotDeclared)
    } else if let Err(message) = parts.metadata_verdict {
        Some(SkillLoadErrorView::Protocol(message@))
    } else if let Err(error) = parts.directory {
        Some(error@)
    } else {
        None
    }
}

/// Puts a skill together.
pub fn complete_skill(document: SkillDocument, parts: SkillParts) -> (r: Result<
    DiscoveredSkill,
    SkillLoadError,
>)
    ensures
        match parts_problem(parts) {
            Some(error) => r is Err && r->Err_0@ == error,
            None => {
                &&& r is Ok
                &&& r->Ok_0.metadata.id@ == document@.id
                &&& r->Ok_0.metadata.name@ == document@.name
                &&& r->Ok_0.metadata.description@ == document@.description
                &&& r->Ok_0.metadata.path@ == document@.path
                &&& r->Ok_0.metadata.instruction_bytes == utf8_len(document@.instructions)
                &&& r->Ok_0.metadata.tools == parts.tools->Ok_0
                &&& r->Ok_0.instructions@ == document@.instructions
                &&& r->Ok_0.directory == parts.directory->Ok_0
                &&& r->Ok_0.actions == parts.actions->Ok_0
            },
        },
{
    if let Err(message) = parts.instructions_verdict {
        return Err(SkillLoadError::Protocol(message));
    }
    let tools = parts.tools?;
    let actions = parts.actions?;
    if !check_described(&actions, &tools) {
        return Err(SkillLoadError::ActionToolNotDeclared);
    }
    if let Err(message) = parts.metadata_verdict {
        return Err(SkillLoadError::Protocol(message));
    }
    let directory = parts.directory?;
    let instruction_bytes: usize = byte_len(document.instructions.as_str());
    Ok(
        DiscoveredSkill {
            metadata: SkillMetadata {
                id: document.id,
                name: document.name,
                description: document.description,
                path: document.path,
                instruction_bytes,
                tools,
            },
            instructions: document.instructions,
            directory,
            actions,
        },
    )
}

// ---------------------------------------------------------------------------
// Discovery
// ---------------------------------------------------------------------------
/// What is found behind an entry of the root.
pub struct SkillEntry {
    pub path: String,
    pub is_directory: Result<bool, String>,
    pub directory: Result<Location, String>,
    pub has_file: bool,
    pub file_path: String,
    pub file: Result<Location, String>,
    pub loaded: Result<DiscoveredSkill, SkillLoadError>,
}

/// What listing the root gives.
pub enum SkillListing {
    Unreadable(String),
    BadEntry(String),
    Entries(Vec<(String, SkillEntry)>),
}

/// What is found at the root.
pub struct RootProbe {
    pub exists: bool,
    pub is_directory: bool,
    pub resolved: Result<Location, String>,
    pub listing: SkillListing,
}

#[derive(Debug)]
pub struct DiscoverySnapshot {
    pub root: String,
    pub skills: Vec<DiscoveredSkill>,
    pub warnings: Vec<String>,
    pub truncated: bool,
}

/// What has been found so far.
pub struct FoundView {
    pub skills: Seq<DiscoveredSkill>,
    pub seen: Seq<Seq<char>>,
    pub warnings: Seq<Seq<char>>,
    pub truncated: bool,
    pub tools: nat,
}

pub open spec fn nothing_found() -> FoundView {
    FoundView {
        skills: Seq::empty(),
        seen: Seq::empty(),
        warnings: Seq::empty(),
        truncated: false,
        tools: 0,
    }
}

pub open spec fn warned(found: FoundView, warning: Seq<char>) -> FoundView {
    FoundView { warnings: found.warnings.push(warning), ..found }
}

/// What a skill that was read adds: itself, unless there are too many skills or tools, or it
/// is off, or another one has its identifier.
pub open spec fn after_skill(
    config: SkillsConfigView,
    limits: SkillLimits,
    skill: DiscoveredSkill,
    before: FoundView,
) -> FoundView {
    let id = skill.metadata.id@;
    if before.skills.len() >= limits.skills {
        FoundView { truncated: true, ..before }
    } else if is_off(config, id) {
        before
    } else if before.seen.contains(id) {
        warned(before, "ignored duplicate Skill id `"@ + id + "`"@)
    } else {
        let seen = FoundView { seen: before.seen.push(id), ..before };
        let tools = before.tools + skill.metadata.tools@.len();
        if tools > limits.tool_declarations {
            FoundView { truncated: true, ..seen }
        } else {
            FoundView { skills: before.skills.push(skill), tools, ..seen }
        }
    }
}

/// What an entry of the root adds.
pub open spec fn after_entry(
    config: SkillsConfigView,
    limits: SkillLimits,
    root: Location,
    entry: SkillEntry,
    before: FoundView,
) -> Result<FoundView, DiscoveryErrorView> {
    match entry.is_directory {
        Err(message) => Err(DiscoveryErrorView::ReadDirectoryEntry { message: message@ }),
        Ok(false) => Ok(before),
        Ok(true) => match entry.directory {
            Err(message) => Ok(
                warned(before, "ignored Skill directory "@ + entry.path@ + ": "@ + message@),
            ),
            Ok(directory) => if !directory.within(root) {
                Ok(
                    warned(
                        before,
                        "ignored Skill directory outside configured root: "@ + entry.path@,
                    ),
                )
            } else if !entry.has_file {
                Ok(before)
            } else {
                match entry.file {
                    Err(message) => Ok(
                        warned(
                            before,
                            "ignored Skill file "@ + entry.file_path@ + ": "@ + message@,
                        ),
                    ),
                    Ok(file) => if !file.within(root) {
                        Ok(
                            warned(
                                before,
                                "ignored Skill file outside configured root: "@ + entry.file_path@,
                            ),
                        )
                    } else {
                        match entry.loaded {
                            Err(error) => Ok(
                                warned(
                                    before,
                                    "ignored Skill "@ + entry.path@ + ": "@ + error@.text(),
                                ),
                            ),
                            Ok(skill) => Ok(after_skill(config, limits, skill, before)),
                        }
                    },
                }
            },
        },
    }
}

/// What the entries from the `i`th on add.
pub open spec fn after_entries(
    config: SkillsConfigView,
    limits: SkillLimits,
    root: Location,
    entries: Seq<(String, SkillEntry)>,
    i: int,
    before: FoundView,
) -> Result<FoundView, DiscoveryErrorView>
    decreases entries.len() - i,
{
    if i >= entries.len() {
        Ok(before)
    } else {
        match after_entry(config, limits, root, entries[i].1, before) {
            Err(error) => Err(error),
            Ok(next) => after_entries(config, limits, root, entries, i + 1, next),
        }
    }
}

struct Found {
    skills: Vec<DiscoveredSkill>,
    seen: Vec<String>,
    warnings: Vec<String>,
    truncated: bool,
    tools: usize,
}

impl Found {
    spec fn shown(self) -> FoundView {
        FoundView {
            skills: self.skills@,
            seen: texts(self.seen@),
            warnings: texts(self.warnings@),
            truncated: self.truncated,
            tools: self.tools as nat,
        }
    }

    fn warn(&mut self, warning: String)
        ensures
            final(self).shown() == warned(old(self).shown(), warning@),
    {
        let ghost before = self.warnings@;
        self.warnings.push(warning);
        assert(texts(self.warnings@) =~= texts(before).push(warning@));
    }

    fn has_seen(&self, id: &str) -> (r: bool)
        ensures
            r == self.shown().seen.contains(id@),
    {
        let n: usize = self.seen.len();
        let mut i: usize = 0;
        while i < n
            invariant
                n == self.seen@.len(),
                i <= n,
                forall|k: int| 0 <= k < i ==> (#[trigger] texts(self.seen@)[k]) != id@,
            decreases n - i,
        {
            if str_eq(self.seen[i].as_str(), id) {
                assert(texts(self.seen@)[i as int] == id@);
                return true;
            }
            i += 1;
        }
        false
    }

    fn add_skill(&mut self, config: &SkillsConfig, limits: SkillLimits, skill: DiscoveredSkill)
        requires
            old(self).tools <= limits.tool_declarations,
        ensures
            final(self).shown() == after_skill(config@, limits, skill, old(self).shown()),
            final(self).tools <= limits.tool_declarations,
    {
        if self.skills.len() >= limits.skills {
            self.truncated = true;
            return;
        }
        if config.is_disabled(skill.metadata.id.as_str()) {
            return;
        }
        if self.has_seen(skill.metadata.id.as_str()) {
            self.warn(text3("ignored duplicate Skill id `", skill.metadata.id.as_str(), "`"));
            return;
        }
        let ghost before = self.seen@;
        self.seen.push(skill.metadata.id.clone());
        assert(texts(self.seen@) =~= texts(before).push(skill.metadata.id@));
        let more: usize = skill.metadata.tools.len();
        if more > limits.tool_declarations - self.tools {
            self.truncated = true;
            return;
        }
        self.tools = self.tools + more;
        self.skills.push(skill);
    }

    fn add_entry(
        &mut self,
        config: &SkillsConfig,
        limits: SkillLimits,
        root: &Location,
        entry: SkillEntry,
    ) -> (r: Result<(), DiscoveryError>)
        requires
            old(self).tools <= limits.tool_declarations,
        ensures
            match after_entry(config@, limits, *root, entry, old(self).shown()) {
                Ok(next) => r is Ok && final(self).shown() == next,
                Err(error) => r is Err && r->Err_0@ == error,
            },
            final(self).tools <= limits.tool_declarations,
    {
        match entry.is_directory {
            Err(message) => return Err(DiscoveryError::ReadDirectoryEntry { message }),
            Ok(is_directory) => {
                if !is_directory {
                    return Ok(());
                }
            },
        }
        match &entry.directory {
            Err(message) => {
                self.warn(
                    text4(
                        "ignored Skill directory ",
                        entry.path.as_str(),
                        ": ",
                        message.as_str(),
                    ),
                );
                return Ok(());
            },
            Ok(directory) => {
                if !directory.is_within(root) {
                    self.warn(
                        text2(
                            "ignored Skill directory outside configured root: ",
                            entry.path.as_str(),
                        ),
                    );
                    return Ok(());
                }
            },
        }
        if !entry.has_file {
            return Ok(());
        }
        match &entry.file {
            Err(message) => {
                self.warn(
                    text4(
                        "ignored Skill file ",
                        entry.file_path.as_str(),
                        ": ",
                        message.as_str(),
                    ),
                );
                return Ok(());
            },
            Ok(file) => {
                if !file.is_within(root) {
                    self.warn(
                        text2(
                            "ignored Skill file outside configured root: ",
                            entry.file_path.as_str(),
                        ),
                    );
                    return Ok(());
                }
            },
        }
        match entry.loaded {
            Err(error) => {
                self.warn(
                    text4(
                        "ignored Skill ",
                        entry.path.as_str(),
                        ": ",
                        error.to_string().as_str(),
                    ),
                );
            },
            Ok(skill) => {
                self.add_skill(config, limits, skill);
            },
        }
        Ok(())
    }
}

/// What there is to find.
pub open spec fn discovered(config: SkillsConfigView, limits: SkillLimits, probe: RootProbe) -> Result<
    FoundView,
    DiscoveryErrorView,
> {
    let root = config.root;
    if utf8_len(root) > limits.path_bytes {
        Err(
            DiscoveryErrorView::RootTooLong {
                length: utf8_len(root),
                maximum: limits.path_bytes as nat,
            },
        )
    } else if !probe.exists {
        Ok(warned(nothing_found(), "Skills root does not exist: "@ + root))
    } else if !probe.is_directory {
        Err(DiscoveryErrorView::RootNotDirectory { path: root })
    } else {
        match probe.resolved {
            Err(message) => Err(
                DiscoveryErrorView::CanonicalizeRoot { path: root, message: message@ },
            ),
            Ok(resolved) => match probe.listing {
                SkillListing::Unreadable(message) => Err(
                    DiscoveryErrorView::ReadDirectory { path: root, message: message@ },
                ),
                SkillListing::BadEntry(message) => Err(
                    DiscoveryErrorView::ReadDirectoryEntry { message: message@ },
                ),
                SkillListing::Entries(entries) => match after_entries(
                    config,
                    limits,
                    resolved,
                    by_name(entries@),
                    0,
                    nothing_found(),
                ) {
                    Err(error) => Err(error),
                    Ok(found) => Ok(
                        FoundView { warnings: bounded_warnings(found.warnings), ..found },
                    ),
                },
            },
        }
    }
}

/// Finds the skills below the root of a configuration.
pub fn discover(config: &SkillsConfig, limits: SkillLimits, probe: RootProbe) -> (r: Result<
    DiscoverySnapshot,
    DiscoveryError,
>)
    ensures
        match discovered(config@, limits, probe) {
            Err(error) => r is Err && r->Err_0@ == error,
            Ok(found) => {
                &&& r is Ok
                &&& r->Ok_0.root@ == config@.root
                &&& r->Ok_0.skills@ == found.skills
                &&& texts(r->Ok_0.warnings@) == found.warnings
                &&& r->Ok_0.truncated == found.truncated
            },
        },
{
    let root = config.root();
    let length: usize = byte_len(root);
    if length > limits.path_bytes {
        return Err(DiscoveryError::RootTooLong { length, maximum: limits.path_bytes });
    }
    if !probe.exists {
        let warnings = vec![text2("Skills root does not exist: ", root)];
        assert(texts(warnings@) =~= nothing_found().warnings.push(
            "Skills root does not exist: "@ + root@,
        ));
        let skills: Vec<DiscoveredSkill> = Vec::new();
        assert(skills@ =~= Seq::<DiscoveredSkill>::empty());
        return Ok(
            DiscoverySnapshot { root: root.to_owned(), skills, warnings, truncated: false },
        );
    }
    if !probe.is_directory {
        return Err(DiscoveryError::RootNotDirectory { path: root.to_owned() });
    }
    let resolved = match probe.resolved {
        Ok(resolved) => resolved,
        Err(message) => {
            return Err(DiscoveryError::CanonicalizeRoot { path: root.to_owned(), message });
        },
    };
    let entries = match probe.listing {
        SkillListing::Unreadable(message) => {
            return Err(DiscoveryError::ReadDirectory { path: root.to_owned(), message });
        },
        SkillListing::BadEntry(message) => {
            return Err(DiscoveryError::ReadDirectoryEntry { message });
        },
        SkillListing::Entries(entries) => entries,
    };
    let mut rest = sort_by_name(entries);
    let ghost all = rest@;
    let mut found = Found {
        skills: Vec::new(),
        seen: Vec::new(),
        warnings: Vec::new(),
        truncated: false,
        tools: 0,
    };
    let ghost mut i: int = 0;
    proof {
        assert(found.shown().skills =~= nothing_found().skills);
        assert(found.shown().seen =~= nothing_found().seen);
        assert(found.shown().warnings =~= nothing_found().warnings);
        assert(all.skip(0) =~= all);
    }
    let ghost goal = after_entries(config@, limits, resolved, all, 0, nothing_found());
    while rest.len() > 0
        invariant
            0 <= i <= all.len(),
            rest@ == all.skip(i),
            found.tools <= limits.tool_declarations,
            goal == after_entries(config@, limits, resolved, all, i, found.shown()),
            discovered(config@, limits, probe) == match goal {
                Err(error) => Err::<FoundView, DiscoveryErrorView>(error),
                Ok(done) => Ok(FoundView { warnings: bounded_warnings(done.warnings), ..done }),
            },
        decreases rest@.len(),
    {
        let (_, entry) = rest.remove(0);
        proof {
            assert(entry == all[i].1);
            assert(rest@ =~= all.skip(i + 1));
            i = i + 1;
        }
        found.add_entry(config, limits, &resolved, entry)?;
    }
    let warnings = bound_warnings(&found.warnings);
    Ok(
        DiscoverySnapshot {
            root: root.to_owned(),
            skills: found.skills,
            warnings,
            truncated: found.truncated,
        },
    )
}

// ---------------------------------------------------------------------------
// What discovery keeps to
// ---------------------------------------------------------------------------
/// How many tools skills describe.
pub open spec fn tool_count(skills: Seq<DiscoveredSkill>) -> nat
    decreases skills.len(),
{
    if skills.len() == 0 {
        0
    } else {
        tool_count(skills.drop_last()) + skills.last().metadata.tools@.len()
    }
}

/// The limits hold, no skill is off, and no two skills have the same identifier.
pub open spec fn in_bounds(config: SkillsConfigView, limits: SkillLimits, found: FoundView) -> bool {
    &&& found.skills.len() <= limits.skills
    &&& found.tools == tool_count(found.skills)
    &&& found.tools <= limits.tool_declarations
    &&& forall|k: int|
        0 <= k < found.skills.len() ==> !is_off(
            config,
            (#[trigger] found.skills[k]).metadata.id@,
        ) && found.seen.contains(found.skills[k].metadata.id@)
    &&& forall|j: int, k: int|
        0 <= j < k < found.skills.len() ==> (#[trigger] found.skills[j]).metadata.id@ != (
        #[trigger] found.skills[k]).metadata.id@
}

proof fn lemma_skill_stays_in_bounds(
    config: SkillsConfigView,
    limits: SkillLimits,
    skill: DiscoveredSkill,
    before: FoundView,
)
    requires
        in_bounds(config, limits, before),
    ensures
        in_bounds(config, limits, after_skill(config, limits, skill, before)),
{
    let id = skill.metadata.id@;
    let after = after_skill(config, limits, skill, before);
    if before.skills.len() < limits.skills && !is_off(config, id) && !before.seen.contains(id) {
        assert(after.seen =~= before.seen.push(id));
        assert(after.seen[before.seen.len() as int] == id);
        assert forall|k: int| 0 <= k < before.skills.len() implies after.seen.contains(
            (#[trigger] before.skills[k]).metadata.id@,
        ) by {
            let held = before.skills[k].metadata.id@;
            let at = choose|at: int| 0 <= at < before.seen.len() && before.seen[at] == held;
            assert(after.seen[at] == held);
        }
        if after.skills.len() > before.skills.len() {
            assert(after.skills.drop_last() =~= before.skills);
        }
    }
}

proof fn lemma_entries_stay_in_bounds(
    config: SkillsConfigView,
    limits: SkillLimits,
    root: Location,
    entries: Seq<(String, SkillEntry)>,
    i: int,
    before: FoundView,
)
    requires
        0 <= i,
        in_bounds(config, limits, before),
    ensures
        after_entries(config, limits, root, entries, i, before) is Ok ==> in_bounds(
            config,
            limits,
            after_entries(config, limits, root, entries, i, before)->Ok_0,
        ),
    decreases entries.len() - i,
{
    if i < entries.len() {
        if let Ok(skill) = entries[i].1.loaded {
            lemma_skill_stays_in_bounds(config, limits, skill, before);
        }
        if let Ok(next) = after_entry(config, limits, root, entries[i].1, before) {
            assert(in_bounds(config, limits, next));
            lemma_entries_stay_in_bounds(config, limits, root, entries, i + 1, next);
        }
    }
}

/// However many entries there are, what is found stays within the limits, leaves out every
/// skill that is off, and has no identifier twice.
pub proof fn lemma_discovery_stays_in_bounds(
    config: SkillsConfigView,
    limits: SkillLimits,
    probe: RootProbe,
)
    requires
        discovered(config, limits, probe) is Ok,
    ensures
        in_bounds(config, limits, discovered(config, limits, probe)->Ok_0),
{
    if probe.exists {
        lemma_entries_stay_in_bounds(
            config,
            limits,
            probe.resolved->Ok_0,
            by_name(probe.listing->Entries_0@),
            0,
            nothing_found(),
        );
    }
}

} // verus!
