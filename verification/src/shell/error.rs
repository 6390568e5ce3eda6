//! What can go wrong with a shell command.
use vstd::prelude::*;

use crate::grants::{ActionGrantError, GrantErrorView};
use crate::text::{decimal, decimal_of, text2, text4};

verus! {

#[derive(Clone, Debug)]
pub enum ShellError {
    InvalidGrant(ActionGrantError),
    ReadNotGranted,
    WriteNotGranted,
    NetworkNotGranted,
    EmptyCommand,
    CommandTooLong { length: usize, maximum: usize },
    NulInCommand,
    Workspace { path: String, message: String },
    OutsideWorkspace { cwd: String, root: String },
    Spawn(String),
    Wait(String),
    Io(String),
}

/// The error with its texts as character sequences.
pub enum ShellErrorView {
    InvalidGrant(GrantErrorView),
    ReadNotGranted,
    WriteNotGranted,
    NetworkNotGranted,
    EmptyCommand,
    CommandTooLong { length: nat, maximum: nat },
    NulInCommand,
    Workspace { path: Seq<char>, message: Seq<char> },
    OutsideWorkspace { cwd: Seq<char>, root: Seq<char> },
    Spawn(Seq<char>),
    Wait(Seq<char>),
    Io(Seq<char>),
}

impl View for ShellError {
    type V = ShellErrorView;

    open spec fn view(&self) -> ShellErrorView {
        match *self {
            ShellError::InvalidGrant(error) => ShellErrorView::InvalidGrant(error@),
            ShellError::ReadNotGranted => ShellErrorView::ReadNotGranted,
            ShellError::WriteNotGranted => ShellErrorView::WriteNotGranted,
            ShellError::NetworkNotGranted => ShellErrorView::NetworkNotGranted,
            ShellError::EmptyCommand => ShellErrorView::EmptyCommand,
            ShellError::CommandTooLong { length, maximum } =>
                ShellErrorView::CommandTooLong { length: length as nat, maximum: maximum as nat },
            ShellError::NulInCommand => ShellErrorView::NulInCommand,
            ShellError::Workspace { path, message } =>
                ShellErrorView::Workspace { path: path@, message: message@ },
            ShellError::OutsideWorkspace { cwd, root } =>
                ShellErrorView::OutsideWorkspace { cwd: cwd@, root: root@ },
            ShellError::Spawn(message) => ShellErrorView::Spawn(message@),
            ShellError::Wait(message) => ShellErrorView::Wait(message@),
            ShellError::Io(message) => ShellErrorView::Io(message@),
        }
    }
}

impl ShellErrorView {
    /// The sentence shown to people.
    pub open spec fn text(self) -> Seq<char> {
        match self {
            ShellErrorView::InvalidGrant(error) => "invalid action grant: "@ + error.text(),
            ShellErrorView::ReadNotGranted => "workspace read permission was not granted"@,
            ShellErrorView::WriteNotGranted =>
                "command appears to write but write permission was not granted"@,
            ShellErrorView::NetworkNotGranted =>
                "command appears to use the network but network permission was not granted"@,
            ShellErrorView::EmptyCommand => "shell command cannot be empty"@,
            ShellErrorView::CommandTooLong { length, maximum } => "shell command is "@
                + decimal_of(length) + " bytes; maximum is "@ + decimal_of(maximum),
            ShellErrorView::NulInCommand => "shell command contains a NUL byte"@,
            ShellErrorView::Workspace { path, message } => "workspace path "@ + path
                + " is unavailable: "@ + message,
            ShellErrorView::OutsideWorkspace { cwd, root } => "working directory "@ + cwd
                + " is outside workspace "@ + root,
            ShellErrorView::Spawn(message) => "failed to start shell: "@ + message,
            ShellErrorView::Wait(message) => "shell wait failed: "@ + message,
            ShellErrorView::Io(message) => "shell output failed: "@ + message,
        }
    }

    /// The stable code reported to the host.
    pub open spec fn code(self) -> Seq<char> {
        match self {
            ShellErrorView::InvalidGrant(_) => "grant_denied"@,
            ShellErrorView::ReadNotGranted => "grant_denied"@,
            ShellErrorView::WriteNotGranted => "write_not_granted"@,
            ShellErrorView::NetworkNotGranted => "network_not_granted"@,
            ShellErrorView::EmptyCommand => "invalid_command"@,
            ShellErrorView::CommandTooLong { .. } => "invalid_command"@,
            ShellErrorView::NulInCommand => "invalid_command"@,
            ShellErrorView::Workspace { .. } => "workspace_denied"@,
            ShellErrorView::OutsideWorkspace { .. } => "workspace_denied"@,
            ShellErrorView::Spawn(_) => "spawn_failed"@,
            ShellErrorView::Wait(_) => "execution_failed"@,
            ShellErrorView::Io(_) => "output_failed"@,
        }
    }
}

impl ShellError {
    /// The sentence shown to people.
    pub fn to_string(&self) -> (r: String)
        ensures
            r@ == self@.text(),
    {
        match self {
            ShellError::InvalidGrant(error) => text2(
                "invalid action grant: ",
                error.to_string().as_str(),
            ),
            ShellError::ReadNotGranted => "workspace read permission was not granted".to_owned(),
            ShellError::WriteNotGranted =>
                "command appears to write but write permission was not granted".to_owned(),
            ShellError::NetworkNotGranted =>
                "command appears to use the network but network permission was not granted".to_owned(),
            ShellError::EmptyCommand => "shell command cannot be empty".to_owned(),
            ShellError::CommandTooLong { length, maximum } => text4(
                "shell command is ",
                decimal(*length as u64).as_str(),
                " bytes; maximum is ",
                decimal(*maximum as u64).as_str(),
            ),
            ShellError::NulInCommand => "shell command contains a NUL byte".to_owned(),
            ShellError::Workspace { path, message } => text4(
                "workspace path ",
                path.as_str(),
                " is unavailable: ",
                message.as_str(),
            ),
            ShellError::OutsideWorkspace { cwd, root } => text4(
                "working directory ",
                cwd.as_str(),
                " is outside workspace ",
                root.as_str(),
            ),
            ShellError::Spawn(message) => text2("failed to start shell: ", message.as_str()),
            ShellError::Wait(message) => text2("shell wait failed: ", message.as_str()),
            ShellError::Io(message) => text2("shell output failed: ", message.as_str()),
        }
    }

    /// The stable code reported to the host.
    pub fn code(&self) -> (r: &'static str)
        ensures
            r@ == self@.code(),
    {
        match self {
            ShellError::InvalidGrant(_) => "grant_denied",
            ShellError::ReadNotGranted => "grant_denied",
            ShellError::WriteNotGranted => "write_not_granted",
            ShellError::NetworkNotGranted => "network_not_granted",
            ShellError::EmptyCommand => "invalid_command",
            ShellError::CommandTooLong { .. } => "invalid_command",
            ShellError::NulInCommand => "invalid_command",
            ShellError::Workspace { .. } => "workspace_denied",
            ShellError::OutsideWorkspace { .. } => "workspace_denied",
            ShellError::Spawn(_) => "spawn_failed",
            ShellError::Wait(_) => "execution_failed",
            ShellError::Io(_) => "output_failed",
        }
    }
}

} // verus!
