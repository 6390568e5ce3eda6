//! Everything that can keep a patch from being applied.
use vstd::prelude::*;
use vstd::string::StringExecFns;

use crate::grants::{ActionGrantError, GrantErrorView};
use crate::text::{decimal, decimal_of};

verus! {

#[derive(Clone, Debug)]
pub enum PatchError {
    InvalidGrant(ActionGrantError),
    ReadNotGranted,
    WriteNotGranted,
    EmptyPatch,
    PatchTooLarge { length: usize, maximum: usize },
    TooManyFiles { count: usize, maximum: usize },
    InvalidPatch(String),
    Unsupported(String),
    InvalidPath(String),
    DuplicatePath(String),
    AlreadyExists(String),
    Workspace { path: String, message: String },
    OutsideWorkspace { path: String, root: String },
    FileTooLarge { path: String, maximum: u64 },
    InvalidUtf8(String),
    HunkContextNotFound,
    AmbiguousHunk,
    Transaction(String),
}

/// A patch error with its texts as character sequences.
pub enum PatchErrorView {
    InvalidGrant(GrantErrorView),
    ReadNotGranted,
    WriteNotGranted,
    EmptyPatch,
    PatchTooLarge { length: nat, maximum: nat },
    TooManyFiles { count: nat, maximum: nat },
    InvalidPatch(Seq<char>),
    Unsupported(Seq<char>),
    InvalidPath(Seq<char>),
    DuplicatePath(Seq<char>),
    AlreadyExists(Seq<char>),
    Workspace { path: Seq<char>, message: Seq<char> },
    OutsideWorkspace { path: Seq<char>, root: Seq<char> },
    FileTooLarge { path: Seq<char>, maximum: nat },
    InvalidUtf8(Seq<char>),
    HunkContextNotFound,
    AmbiguousHunk,
    Transaction(Seq<char>),
}

impl View for PatchError {
    type V = PatchErrorView;

    open spec fn view(&self) -> PatchErrorView {
        match *self {
            PatchError::InvalidGrant(error) => PatchErrorView::InvalidGrant(error@),
            PatchError::ReadNotGranted => PatchErrorView::ReadNotGranted,
            PatchError::WriteNotGranted => PatchErrorView::WriteNotGranted,
            PatchError::EmptyPatch => PatchErrorView::EmptyPatch,
            PatchError::PatchTooLarge { length, maximum } => PatchErrorView::PatchTooLarge {
                length: length as nat,
                maximum: maximum as nat,
            },
            PatchError::TooManyFiles { count, maximum } => PatchErrorView::TooManyFiles {
                count: count as nat,
                maximum: maximum as nat,
            },
            PatchError::InvalidPatch(text) => PatchErrorView::InvalidPatch(text@),
            PatchError::Unsupported(text) => PatchErrorView::Unsupported(text@),
            PatchError::InvalidPath(text) => PatchErrorView::InvalidPath(text@),
            PatchError::DuplicatePath(text) => PatchErrorView::DuplicatePath(text@),
            PatchError::AlreadyExists(text) => PatchErrorView::AlreadyExists(text@),
            PatchError::Workspace { path, message } => PatchErrorView::Workspace {
                path: path@,
                message: message@,
            },
            PatchError::OutsideWorkspace { path, root } => PatchErrorView::OutsideWorkspace {
                path: path@,
                root: root@,
            },
            PatchError::FileTooLarge { path, maximum } => PatchErrorView::FileTooLarge {
                path: path@,
                maximum: maximum as nat,
            },
            PatchError::InvalidUtf8(text) => PatchErrorView::InvalidUtf8(text@),
            PatchError::HunkContextNotFound => PatchErrorView::HunkContextNotFound,
            PatchError::AmbiguousHunk => PatchErrorView::AmbiguousHunk,
            PatchError::Transaction(text) => PatchErrorView::Transaction(text@),
        }
    }
}

impl PatchErrorView {
    /// The stable code reported to the host.
    pub open spec fn code(self) -> Seq<char> {
        match self {
            PatchErrorView::InvalidGrant(_)
            | PatchErrorView::ReadNotGranted
            | PatchErrorView::WriteNotGranted => "grant_denied"@,
            PatchErrorView::EmptyPatch
            | PatchErrorView::PatchTooLarge { .. }
            | PatchErrorView::TooManyFiles { .. }
            | PatchErrorView::InvalidPatch(_) => "invalid_patch"@,
            PatchErrorView::Unsupported(_) => "unsupported_patch"@,
            PatchErrorView::InvalidPath(_)
            | PatchErrorView::OutsideWorkspace { .. } => "path_denied"@,
            PatchErrorView::DuplicatePath(_) | PatchErrorView::AlreadyExists(_) => "conflict"@,
            PatchErrorView::Workspace { .. }
            | PatchErrorView::FileTooLarge { .. }
            | PatchErrorView::InvalidUtf8(_) => "file_error"@,
            PatchErrorView::HunkContextNotFound
            | PatchErrorView::AmbiguousHunk => "hunk_mismatch"@,
            PatchErrorView::Transaction(_) => "transaction_failed"@,
        }
    }

    /// The sentence shown to people.
    pub open spec fn text(self) -> Seq<char> {
        match self {
            PatchErrorView::InvalidGrant(error) => "invalid action grant: "@ + error.text(),
            PatchErrorView::ReadNotGranted => "workspace read permission was not granted"@,
            PatchErrorView::WriteNotGranted => "workspace write permission was not granted"@,
            PatchErrorView::EmptyPatch => "patch cannot be empty"@,
            PatchErrorView::PatchTooLarge { length, maximum } => "patch is "@ + decimal_of(length)
                + " bytes; maximum is "@ + decimal_of(maximum),
            PatchErrorView::TooManyFiles { count, maximum } => "patch contains "@ + decimal_of(
                count,
            ) + " files; maximum is "@ + decimal_of(maximum),
            PatchErrorView::InvalidPatch(message) => message,
            PatchErrorView::Unsupported(message) => message,
            PatchErrorView::InvalidPath(path) =>
                "patch path is not a safe workspace-relative path: `"@ + path + "`"@,
            PatchErrorView::DuplicatePath(path) => "patch contains duplicate path `"@ + path
                + "`"@,
            PatchErrorView::AlreadyExists(path) => "add-file target already exists: `"@ + path
                + "`"@,
            PatchErrorView::Workspace { path, message } => "file "@ + path + " is unavailable: "@
                + message,
            PatchErrorView::OutsideWorkspace { path, root } => "file "@ + path
                + " is outside workspace "@ + root,
            PatchErrorView::FileTooLarge { path, maximum } => "file "@ + path + " exceeds "@
                + decimal_of(maximum) + " bytes"@,
            PatchErrorView::InvalidUtf8(message) => message,
            PatchErrorView::HunkContextNotFound => "patch hunk context was not found"@,
            PatchErrorView::AmbiguousHunk => "patch hunk context matched more than once"@,
            PatchErrorView::Transaction(message) => "patch transaction rolled back: "@ + message,
        }
    }
}

impl PatchError {
    /// The stable code reported to the host.
    pub fn code(&self) -> (r: &'static str)
        ensures
            r@ == self@.code(),
    {
        match self {
            PatchError::InvalidGrant(_)
            | PatchError::ReadNotGranted
            | PatchError::WriteNotGranted => "grant_denied",
            PatchError::EmptyPatch
            | PatchError::PatchTooLarge { .. }
            | PatchError::TooManyFiles { .. }
            | PatchError::InvalidPatch(_) => "invalid_patch",
            PatchError::Unsupported(_) => "unsupported_patch",
            PatchError::InvalidPath(_) | PatchError::OutsideWorkspace { .. } => "path_denied",
            PatchError::DuplicatePath(_) | PatchError::AlreadyExists(_) => "conflict",
            PatchError::Workspace { .. }
            | PatchError::FileTooLarge { .. }
            | PatchError::InvalidUtf8(_) => "file_error",
            PatchError::HunkContextNotFound | PatchError::AmbiguousHunk => "hunk_mismatch",
            PatchError::Transaction(_) => "transaction_failed",
        }
    }

    /// The sentence shown to people.
    pub fn to_string(&self) -> (r: String)
        ensures
            r@ == self@.text(),
    {
        match self {
            PatchError::InvalidGrant(error) => {
                let mut out = "invalid action grant: ".to_owned();
                out.append(error.to_string().as_str());
                out
            },
            PatchError::ReadNotGranted => "workspace read permission was not granted".to_owned(),
            PatchError::WriteNotGranted => "workspace write permission was not granted".to_owned(),
            PatchError::EmptyPatch => "patch cannot be empty".to_owned(),
            PatchError::PatchTooLarge { length, maximum } => {
                let mut out = "patch is ".to_owned();
                out.append(decimal(*length as u64).as_str());
                out.append(" bytes; maximum is ");
                out.append(decimal(*maximum as u64).as_str());
                out
            },
            PatchError::TooManyFiles { count, maximum } => {
                let mut out = "patch contains ".to_owned();
                out.append(decimal(*count as u64).as_str());
                out.append(" files; maximum is ");
                out.append(decimal(*maximum as u64).as_str());
                out
            },
            PatchError::InvalidPatch(message) => message.clone(),
            PatchError::Unsupported(message) => message.clone(),
            PatchError::InvalidPath(path) => {
                let mut out = "patch path is not a safe workspace-relative path: `".to_owned();
                out.append(path.as_str());
                out.append("`");
                out
            },
            PatchError::DuplicatePath(path) => {
                let mut out = "patch contains duplicate path `".to_owned();
                out.append(path.as_str());
                out.append("`");
                out
            },
            PatchError::AlreadyExists(path) => {
                let mut out = "add-file target already exists: `".to_owned();
                out.append(path.as_str());
                out.append("`");
                out
            },
            PatchError::Workspace { path, message } => {
                let mut out = "file ".to_owned();
                out.append(path.as_str());
                out.append(" is unavailable: ");
                out.append(message.as_str());
                out
            },
            PatchError::OutsideWorkspace { path, root } => {
                let mut out = "file ".to_owned();
                out.append(path.as_str());
                out.append(" is outside workspace ");
                out.append(root.as_str());
                out
            },
            PatchError::FileTooLarge { path, maximum } => {
                let mut out = "file ".to_owned();
                out.append(path.as_str());
                out.append(" exceeds ");
                out.append(decimal(*maximum).as_str());
                out.append(" bytes");
                out
            },
            PatchError::InvalidUtf8(message) => message.clone(),
            PatchError::HunkContextNotFound => "patch hunk context was not found".to_owned(),
            PatchError::AmbiguousHunk => "patch hunk context matched more than once".to_owned(),
            PatchError::Transaction(message) => {
                let mut out = "patch transaction rolled back: ".to_owned();
                out.append(message.as_str());
                out
            },
        }
    }
}

} // verus!
