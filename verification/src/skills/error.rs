//! What can go wrong with skills and their actions.
use vstd::prelude::*;

use crate::grants::{ActionGrantError, GrantErrorView};
use crate::text::{decimal, decimal_of, text2, text3, text4, text5, text6};

verus! {

#[derive(Clone, Debug)]
pub enum SkillsConfigError {
    CurrentDirectory(String),
    EmptyRoot,
    RootTooLong { length: usize, maximum: usize },
    RootControlCharacter,
    InvalidSkillId { id: String },
    InvalidActionsEnabled { value: String },
}

/// The error with its texts as character sequences.
pub enum SkillsConfigErrorView {
    CurrentDirectory(Seq<char>),
    EmptyRoot,
    RootTooLong { length: nat, maximum: nat },
    RootControlCharacter,
    InvalidSkillId { id: Seq<char> },
    InvalidActionsEnabled { value: Seq<char> },
}

impl View for SkillsConfigError {
    type V = SkillsConfigErrorView;

    open spec fn view(&self) -> SkillsConfigErrorView {
        match *self {
            SkillsConfigError::CurrentDirectory(message) =>
                SkillsConfigErrorView::CurrentDirectory(message@),
            SkillsConfigError::EmptyRoot => SkillsConfigErrorView::EmptyRoot,
            SkillsConfigError::RootTooLong { length, maximum } =>
                SkillsConfigErrorView::RootTooLong { length: length as nat, maximum: maximum as nat },
            SkillsConfigError::RootControlCharacter => SkillsConfigErrorView::RootControlCharacter,
            SkillsConfigError::InvalidSkillId { id } =>
                SkillsConfigErrorView::InvalidSkillId { id: id@ },
            SkillsConfigError::InvalidActionsEnabled { value } =>
                SkillsConfigErrorView::InvalidActionsEnabled { value: value@ },
        }
    }
}

impl SkillsConfigErrorView {
    /// The sentence shown to people.
    pub open spec fn text(self) -> Seq<char> {
        match self {
            SkillsConfigErrorView::CurrentDirectory(message) =>
                "failed to resolve Skills working directory: "@
                + message,
            SkillsConfigErrorView::EmptyRoot => "Skills root cannot be empty"@,
            SkillsConfigErrorView::RootTooLong { length, maximum } => "Skills root is "@
                + decimal_of(length) + " bytes; maximum is "@ + decimal_of(maximum),
            SkillsConfigErrorView::RootControlCharacter =>
                "Skills root contains a control character"@,
            SkillsConfigErrorView::InvalidSkillId { id } => "Skills id `"@ + id
                + "` is not a valid lowercase identifier"@,
            SkillsConfigErrorView::InvalidActionsEnabled { value } =>
                "invalid YUNXI_NEXT_SKILLS_ACTIONS_ENABLED value `"@
                + value + "`"@,
        }
    }
}

impl SkillsConfigError {
    /// The sentence shown to people.
    pub fn to_string(&self) -> (r: String)
        ensures
            r@ == self@.text(),
    {
        match self {
            SkillsConfigError::CurrentDirectory(message) => text2(
                "failed to resolve Skills working directory: ",
                message.as_str(),
            ),
            SkillsConfigError::EmptyRoot => "Skills root cannot be empty".to_owned(),
            SkillsConfigError::RootTooLong { length, maximum } => text4(
                "Skills root is ",
                decimal(*length as u64).as_str(),
                " bytes; maximum is ",
                decimal(*maximum as u64).as_str(),
            ),
            SkillsConfigError::RootControlCharacter =>
                "Skills root contains a control character".to_owned(),
            SkillsConfigError::InvalidSkillId { id } => text3(
                "Skills id `",
                id.as_str(),
                "` is not a valid lowercase identifier",
            ),
            SkillsConfigError::InvalidActionsEnabled { value } => text3(
                "invalid YUNXI_NEXT_SKILLS_ACTIONS_ENABLED value `",
                value.as_str(),
                "`",
            ),
        }
    }
}

/// Why one skill is left out.
#[derive(Clone, Debug)]
pub enum SkillLoadError {
    Io { path: String, message: String },
    TooLarge { path: String, size: usize, maximum: usize },
    NotUtf8,
    InvalidDirectoryName,
    PathEscape,
    Json { path: String, message: String },
    Protocol(String),
    ActionToolNotDeclared,
    TooManyActions { count: usize, maximum: usize },
    DuplicateAction { tool_name: String },
}

/// The error with its texts as character sequences.
pub enum SkillLoadErrorView {
    Io { path: Seq<char>, message: Seq<char> },
    TooLarge { path: Seq<char>, size: nat, maximum: nat },
    NotUtf8,
    InvalidDirectoryName,
    PathEscape,
    Json { path: Seq<char>, message: Seq<char> },
    Protocol(Seq<char>),
    ActionToolNotDeclared,
    TooManyActions { count: nat, maximum: nat },
    DuplicateAction { tool_name: Seq<char> },
}

impl View for SkillLoadError {
    type V = SkillLoadErrorView;

    open spec fn view(&self) -> SkillLoadErrorView {
        match *self {
            SkillLoadError::Io { path, message } =>
                SkillLoadErrorView::Io { path: path@, message: message@ },
            SkillLoadError::TooLarge { path, size, maximum } =>
                SkillLoadErrorView::TooLarge { path: path@, size: size as nat, maximum: maximum as nat },
            SkillLoadError::NotUtf8 => SkillLoadErrorView::NotUtf8,
            SkillLoadError::InvalidDirectoryName => SkillLoadErrorView::InvalidDirectoryName,
            SkillLoadError::PathEscape => SkillLoadErrorView::PathEscape,
            SkillLoadError::Json { path, message } =>
                SkillLoadErrorView::Json { path: path@, message: message@ },
            SkillLoadError::Protocol(message) => SkillLoadErrorView::Protocol(message@),
            SkillLoadError::ActionToolNotDeclared => SkillLoadErrorView::ActionToolNotDeclared,
            SkillLoadError::TooManyActions { count, maximum } =>
                SkillLoadErrorView::TooManyActions { count: count as nat, maximum: maximum as nat },
            SkillLoadError::DuplicateAction { tool_name } =>
                SkillLoadErrorView::DuplicateAction { tool_name: tool_name@ },
        }
    }
}

impl SkillLoadErrorView {
    /// The sentence shown to people.
    pub open spec fn text(self) -> Seq<char> {
        match self {
            SkillLoadErrorView::Io { path, message } => "cannot read "@ + path + ": "@ + message,
            SkillLoadErrorView::TooLarge { path, size, maximum } => path + " is "@
                + decimal_of(size) + " bytes; maximum is "@ + decimal_of(maximum),
            SkillLoadErrorView::NotUtf8 => "SKILL.md is not valid UTF-8"@,
            SkillLoadErrorView::InvalidDirectoryName => "Skill directory name is not valid UTF-8"@,
            SkillLoadErrorView::PathEscape => "Skill path escaped the configured root"@,
            SkillLoadErrorView::Json { path, message } => "invalid "@ + path + ": "@ + message,
            SkillLoadErrorView::Protocol(message) => message,
            SkillLoadErrorView::ActionToolNotDeclared =>
                "Skill action must reference a declared metadata tool"@,
            SkillLoadErrorView::TooManyActions { count, maximum } => "Skill declares "@
                + decimal_of(count) + " actions; maximum is "@ + decimal_of(maximum),
            SkillLoadErrorView::DuplicateAction { tool_name } => "Skill action tool `"@ + tool_name
                + "` is duplicated"@,
        }
    }
}

impl SkillLoadError {
    /// The sentence shown to people.
    pub fn to_string(&self) -> (r: String)
        ensures
            r@ == self@.text(),
    {
        match self {
            SkillLoadError::Io { path, message } => text4(
                "cannot read ",
                path.as_str(),
                ": ",
                message.as_str(),
            ),
            SkillLoadError::TooLarge { path, size, maximum } => text5(
                path.as_str(),
                " is ",
                decimal(*size as u64).as_str(),
                " bytes; maximum is ",
                decimal(*maximum as u64).as_str(),
            ),
            SkillLoadError::NotUtf8 => "SKILL.md is not valid UTF-8".to_owned(),
            SkillLoadError::InvalidDirectoryName =>
                "Skill directory name is not valid UTF-8".to_owned(),
            SkillLoadError::PathEscape => "Skill path escaped the configured root".to_owned(),
            SkillLoadError::Json { path, message } => text4(
                "invalid ",
                path.as_str(),
                ": ",
                message.as_str(),
            ),
            SkillLoadError::Protocol(message) => message.clone(),
            SkillLoadError::ActionToolNotDeclared =>
                "Skill action must reference a declared metadata tool".to_owned(),
            SkillLoadError::TooManyActions { count, maximum } => text4(
                "Skill declares ",
                decimal(*count as u64).as_str(),
                " actions; maximum is ",
                decimal(*maximum as u64).as_str(),
            ),
            SkillLoadError::DuplicateAction { tool_name } => text3(
                "Skill action tool `",
                tool_name.as_str(),
                "` is duplicated",
            ),
        }
    }
}

#[derive(Clone, Debug)]
pub enum DiscoveryError {
    RootTooLong { length: usize, maximum: usize },
    RootNotDirectory { path: String },
    CanonicalizeRoot { path: String, message: String },
    ReadDirectory { path: String, message: String },
    ReadDirectoryEntry { message: String },
}

/// The error with its texts as character sequences.
pub enum DiscoveryErrorView {
    RootTooLong { length: nat, maximum: nat },
    RootNotDirectory { path: Seq<char> },
    CanonicalizeRoot { path: Seq<char>, message: Seq<char> },
    ReadDirectory { path: Seq<char>, message: Seq<char> },
    ReadDirectoryEntry { message: Seq<char> },
}

impl View for DiscoveryError {
    type V = DiscoveryErrorView;

    open spec fn view(&self) -> DiscoveryErrorView {
        match *self {
            DiscoveryError::RootTooLong { length, maximum } =>
                DiscoveryErrorView::RootTooLong { length: length as nat, maximum: maximum as nat },
            DiscoveryError::RootNotDirectory { path } =>
                DiscoveryErrorView::RootNotDirectory { path: path@ },
            DiscoveryError::CanonicalizeRoot { path, message } =>
                DiscoveryErrorView::CanonicalizeRoot { path: path@, message: message@ },
            DiscoveryError::ReadDirectory { path, message } =>
                DiscoveryErrorView::ReadDirectory { path: path@, message: message@ },
            DiscoveryError::ReadDirectoryEntry { message } =>
                DiscoveryErrorView::ReadDirectoryEntry { message: message@ },
        }
    }
}

impl DiscoveryErrorView {
    /// The sentence shown to people.
    pub open spec fn text(self) -> Seq<char> {
        match self {
            DiscoveryErrorView::RootTooLong { length, maximum } => "Skills root is "@
                + decimal_of(length) + " bytes; maximum is "@ + decimal_of(maximum),
            DiscoveryErrorView::RootNotDirectory { path } => "Skills root is not a directory: "@
                + path,
            DiscoveryErrorView::CanonicalizeRoot { path, message } => "cannot resolve Skills root "@
                + path + ": "@ + message,
            DiscoveryErrorView::ReadDirectory { path, message } => "cannot read Skills root "@
                + path + ": "@ + message,
            DiscoveryErrorView::ReadDirectoryEntry { message } =>
                "cannot read a Skills directory entry: "@
                + message,
        }
    }
}

impl DiscoveryError {
    /// The sentence shown to people.
    pub fn to_string(&self) -> (r: String)
        ensures
            r@ == self@.text(),
    {
        match self {
            DiscoveryError::RootTooLong { length, maximum } => text4(
                "Skills root is ",
                decimal(*length as u64).as_str(),
                " bytes; maximum is ",
                decimal(*maximum as u64).as_str(),
            ),
            DiscoveryError::RootNotDirectory { path } => text2(
                "Skills root is not a directory: ",
                path.as_str(),
            ),
            DiscoveryError::CanonicalizeRoot { path, message } => text4(
                "cannot resolve Skills root ",
                path.as_str(),
                ": ",
                message.as_str(),
            ),
            DiscoveryError::ReadDirectory { path, message } => text4(
                "cannot read Skills root ",
                path.as_str(),
                ": ",
                message.as_str(),
            ),
            DiscoveryError::ReadDirectoryEntry { message } => text2(
                "cannot read a Skills directory entry: ",
                message.as_str(),
            ),
        }
    }
}

#[derive(Clone, Debug)]
pub enum SkillActionError {
    ActionsDisabled,
    Grant(ActionGrantError),
    ForbiddenGrant,
    WorkspaceWriteRequired,
    Request(String),
    Discovery(DiscoveryError),
    Config(SkillsConfigError),
    SkillNotFound { skill_id: String },
    ActionNotDeclared { skill_id: String, tool_name: String },
    Path { label: &'static str, path: String, message: String },
    NotDirectory { label: &'static str, path: String },
    NotFile { path: String },
    OutOfScope { label: &'static str, path: String },
    Serialize(String),
    Spawn { program: String, message: String },
    Wait { message: String },
    Io { operation: &'static str, message: String },
    MissingPipe(&'static str),
    WorkerPanicked(&'static str),
    InvalidUtf8,
    FrameTooLarge { size: usize, maximum: usize },
    BadResponse(String),
    OutputLimit { maximum: usize },
}

/// The error with its texts as character sequences.
pub enum SkillActionErrorView {
    ActionsDisabled,
    Grant(GrantErrorView),
    ForbiddenGrant,
    WorkspaceWriteRequired,
    Request(Seq<char>),
    Discovery(DiscoveryErrorView),
    Config(SkillsConfigErrorView),
    SkillNotFound { skill_id: Seq<char> },
    ActionNotDeclared { skill_id: Seq<char>, tool_name: Seq<char> },
    Path { label: Seq<char>, path: Seq<char>, message: Seq<char> },
    NotDirectory { label: Seq<char>, path: Seq<char> },
    NotFile { path: Seq<char> },
    OutOfScope { label: Seq<char>, path: Seq<char> },
    Serialize(Seq<char>),
    Spawn { program: Seq<char>, message: Seq<char> },
    Wait { message: Seq<char> },
    Io { operation: Seq<char>, message: Seq<char> },
    MissingPipe(Seq<char>),
    WorkerPanicked(Seq<char>),
    InvalidUtf8,
    FrameTooLarge { size: nat, maximum: nat },
    BadResponse(Seq<char>),
    OutputLimit { maximum: nat },
}

impl View for SkillActionError {
    type V = SkillActionErrorView;

    open spec fn view(&self) -> SkillActionErrorView {
        match *self {
            SkillActionError::ActionsDisabled => SkillActionErrorView::ActionsDisabled,
            SkillActionError::Grant(error) => SkillActionErrorView::Grant(error@),
            SkillActionError::ForbiddenGrant => SkillActionErrorView::ForbiddenGrant,
            SkillActionError::WorkspaceWriteRequired =>
                SkillActionErrorView::WorkspaceWriteRequired,
            SkillActionError::Request(message) => SkillActionErrorView::Request(message@),
            SkillActionError::Discovery(error) => SkillActionErrorView::Discovery(error@),
            SkillActionError::Config(error) => SkillActionErrorView::Config(error@),
            SkillActionError::SkillNotFound { skill_id } =>
                SkillActionErrorView::SkillNotFound { skill_id: skill_id@ },
            SkillActionError::ActionNotDeclared { skill_id, tool_name } =>
                SkillActionErrorView::ActionNotDeclared { skill_id: skill_id@, tool_name: tool_name@ },
            SkillActionError::Path { label, path, message } =>
                SkillActionErrorView::Path { label: label@, path: path@, message: message@ },
            SkillActionError::NotDirectory { label, path } =>
                SkillActionErrorView::NotDirectory { label: label@, path: path@ },
            SkillActionError::NotFile { path } => SkillActionErrorView::NotFile { path: path@ },
            SkillActionError::OutOfScope { label, path } =>
                SkillActionErrorView::OutOfScope { label: label@, path: path@ },
            SkillActionError::Serialize(message) => SkillActionErrorView::Serialize(message@),
            SkillActionError::Spawn { program, message } =>
                SkillActionErrorView::Spawn { program: program@, message: message@ },
            SkillActionError::Wait { message } => SkillActionErrorView::Wait { message: message@ },
            SkillActionError::Io { operation, message } =>
                SkillActionErrorView::Io { operation: operation@, message: message@ },
            SkillActionError::MissingPipe(pipe) => SkillActionErrorView::MissingPipe(pipe@),
            SkillActionError::WorkerPanicked(pipe) => SkillActionErrorView::WorkerPanicked(pipe@),
            SkillActionError::InvalidUtf8 => SkillActionErrorView::InvalidUtf8,
            SkillActionError::FrameTooLarge { size, maximum } =>
                SkillActionErrorView::FrameTooLarge { size: size as nat, maximum: maximum as nat },
            SkillActionError::BadResponse(message) => SkillActionErrorView::BadResponse(message@),
            SkillActionError::OutputLimit { maximum } =>
                SkillActionErrorView::OutputLimit { maximum: maximum as nat },
        }
    }
}

impl SkillActionErrorView {
    /// The sentence shown to people.
    pub open spec fn text(self) -> Seq<char> {
        match self {
            SkillActionErrorView::ActionsDisabled => "executable Skill actions are disabled"@,
            SkillActionErrorView::Grant(error) => error.text(),
            SkillActionErrorView::ForbiddenGrant =>
                "Skill actions cannot receive network or secret authority"@,
            SkillActionErrorView::WorkspaceWriteRequired =>
                "Skill action requires an approved workspace write grant"@,
            SkillActionErrorView::Request(message) => message,
            SkillActionErrorView::Discovery(error) => error.text(),
            SkillActionErrorView::Config(error) => error.text(),
            SkillActionErrorView::SkillNotFound { skill_id } => "Skill `"@ + skill_id
                + "` was not found"@,
            SkillActionErrorView::ActionNotDeclared { skill_id, tool_name } => "Skill `"@ + skill_id
                + "` has no executable declaration for `"@ + tool_name + "`"@,
            SkillActionErrorView::Path { label, path, message } => "cannot resolve "@ + label + " "@
                + path + ": "@ + message,
            SkillActionErrorView::NotDirectory { label, path } => label + " is not a directory: "@
                + path,
            SkillActionErrorView::NotFile { path } => "Skill action program is not a file: "@
                + path,
            SkillActionErrorView::OutOfScope { label, path } => label
                + " is outside the approved scope: "@ + path,
            SkillActionErrorView::Serialize(message) => "cannot encode Skill action request: "@
                + message,
            SkillActionErrorView::Spawn { program, message } => "cannot start Skill action "@
                + program + ": "@ + message,
            SkillActionErrorView::Wait { message } => "cannot wait for Skill action: "@ + message,
            SkillActionErrorView::Io { operation, message } => "cannot "@ + operation + ": "@
                + message,
            SkillActionErrorView::MissingPipe(pipe) => "Skill action did not provide "@ + pipe
                + " pipe"@,
            SkillActionErrorView::WorkerPanicked(pipe) => "Skill action "@ + pipe
                + " reader failed"@,
            SkillActionErrorView::InvalidUtf8 => "Skill action response is not UTF-8"@,
            SkillActionErrorView::FrameTooLarge { size, maximum } => "Skill action frame is "@
                + decimal_of(size) + " bytes; maximum is "@ + decimal_of(maximum),
            SkillActionErrorView::BadResponse(message) => "invalid Skill action response: "@
                + message,
            SkillActionErrorView::OutputLimit { maximum } => "Skill action output exceeded "@
                + decimal_of(maximum) + " bytes"@,
        }
    }
}

impl SkillActionError {
    /// The sentence shown to people.
    pub fn to_string(&self) -> (r: String)
        ensures
            r@ == self@.text(),
    {
        match self {
            SkillActionError::ActionsDisabled => "executable Skill actions are disabled".to_owned(),
            SkillActionError::Grant(error) => error.to_string(),
            SkillActionError::ForbiddenGrant =>
                "Skill actions cannot receive network or secret authority".to_owned(),
            SkillActionError::WorkspaceWriteRequired =>
                "Skill action requires an approved workspace write grant".to_owned(),
            SkillActionError::Request(message) => message.clone(),
            SkillActionError::Discovery(error) => error.to_string(),
            SkillActionError::Config(error) => error.to_string(),
            SkillActionError::SkillNotFound { skill_id } => text3(
                "Skill `",
                skill_id.as_str(),
                "` was not found",
            ),
            SkillActionError::ActionNotDeclared { skill_id, tool_name } => text5(
                "Skill `",
                skill_id.as_str(),
                "` has no executable declaration for `",
                tool_name.as_str(),
                "`",
            ),
            SkillActionError::Path { label, path, message } => text6(
                "cannot resolve ",
                label,
                " ",
                path.as_str(),
                ": ",
                message.as_str(),
            ),
            SkillActionError::NotDirectory { label, path } => text3(
                label,
                " is not a directory: ",
                path.as_str(),
            ),
            SkillActionError::NotFile { path } => text2(
                "Skill action program is not a file: ",
                path.as_str(),
            ),
            SkillActionError::OutOfScope { label, path } => text3(
                label,
                " is outside the approved scope: ",
                path.as_str(),
            ),
            SkillActionError::Serialize(message) => text2(
                "cannot encode Skill action request: ",
                message.as_str(),
            ),
            SkillActionError::Spawn { program, message } => text4(
                "cannot start Skill action ",
                program.as_str(),
                ": ",
                message.as_str(),
            ),
            SkillActionError::Wait { message } => text2(
                "cannot wait for Skill action: ",
                message.as_str(),
            ),
            SkillActionError::Io { operation, message } => text4(
                "cannot ",
                operation,
                ": ",
                message.as_str(),
            ),
            SkillActionError::MissingPipe(pipe) => text3(
                "Skill action did not provide ",
                pipe,
                " pipe",
            ),
            SkillActionError::WorkerPanicked(pipe) => text3(
                "Skill action ",
                pipe,
                " reader failed",
            ),
            SkillActionError::InvalidUtf8 => "Skill action response is not UTF-8".to_owned(),
            SkillActionError::FrameTooLarge { size, maximum } => text4(
                "Skill action frame is ",
                decimal(*size as u64).as_str(),
                " bytes; maximum is ",
                decimal(*maximum as u64).as_str(),
            ),
            SkillActionError::BadResponse(message) => text2(
                "invalid Skill action response: ",
                message.as_str(),
            ),
            SkillActionError::OutputLimit { maximum } => text3(
                "Skill action output exceeded ",
                decimal(*maximum as u64).as_str(),
                " bytes",
            ),
        }
    }
}

} // verus!
