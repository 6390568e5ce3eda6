//! What can go wrong with reading and searching files.
use vstd::prelude::*;

use crate::text::{decimal, decimal_of, text2, text4};

verus! {

#[derive(Clone, Debug)]
pub enum FileToolError {
    Read { path: String, message: String },
    Path { path: String, message: String },
    OutsideWorkspace(String),
    NotUtf8(String),
    EmptyQuery,
    QueryTooLong { length: usize, maximum: usize },
    InvalidLimit,
    InvalidGrant,
    ReadNotGranted,
}

/// The error with its texts as character sequences.
pub enum FileErrorView {
    Read { path: Seq<char>, message: Seq<char> },
    Path { path: Seq<char>, message: Seq<char> },
    OutsideWorkspace(Seq<char>),
    NotUtf8(Seq<char>),
    EmptyQuery,
    QueryTooLong { length: nat, maximum: nat },
    InvalidLimit,
    InvalidGrant,
    ReadNotGranted,
}

impl View for FileToolError {
    type V = FileErrorView;

    open spec fn view(&self) -> FileErrorView {
        match *self {
            FileToolError::Read { path, message } =>
                FileErrorView::Read { path: path@, message: message@ },
            FileToolError::Path { path, message } =>
                FileErrorView::Path { path: path@, message: message@ },
            FileToolError::OutsideWorkspace(path) => FileErrorView::OutsideWorkspace(path@),
            FileToolError::NotUtf8(path) => FileErrorView::NotUtf8(path@),
            FileToolError::EmptyQuery => FileErrorView::EmptyQuery,
            FileToolError::QueryTooLong { length, maximum } =>
                FileErrorView::QueryTooLong { length: length as nat, maximum: maximum as nat },
            FileToolError::InvalidLimit => FileErrorView::InvalidLimit,
            FileToolError::InvalidGrant => FileErrorView::InvalidGrant,
            FileToolError::ReadNotGranted => FileErrorView::ReadNotGranted,
        }
    }
}

impl FileErrorView {
    /// The sentence shown to people.
    pub open spec fn text(self) -> Seq<char> {
        match self {
            FileErrorView::Read { path, message } => "failed to read "@ + path + ": "@ + message,
            FileErrorView::Path { path, message } => "failed to resolve "@ + path + ": "@ + message,
            FileErrorView::OutsideWorkspace(path) => "path is outside the workspace: "@ + path,
            FileErrorView::NotUtf8(path) => "file is not UTF-8 text: "@ + path,
            FileErrorView::EmptyQuery => "file search query cannot be empty"@,
            FileErrorView::QueryTooLong { length, maximum } => "file search query is "@
                + decimal_of(length) + " bytes; maximum is "@ + decimal_of(maximum),
            FileErrorView::InvalidLimit => "file tool limit is invalid"@,
            FileErrorView::InvalidGrant => "file tool received an invalid workspace grant"@,
            FileErrorView::ReadNotGranted => "workspace read permission was not granted"@,
        }
    }

    /// The stable code reported to the host.
    pub open spec fn code(self) -> Seq<char> {
        match self {
            FileErrorView::Read { .. } => "file_read_error"@,
            FileErrorView::Path { .. } => "file_path_error"@,
            FileErrorView::OutsideWorkspace(_) => "outside_workspace"@,
            FileErrorView::NotUtf8(_) => "file_not_utf8"@,
            FileErrorView::EmptyQuery => "empty_search_query"@,
            FileErrorView::QueryTooLong { .. } => "search_query_too_long"@,
            FileErrorView::InvalidLimit => "invalid_file_limit"@,
            FileErrorView::InvalidGrant => "invalid_grant"@,
            FileErrorView::ReadNotGranted => "read_not_granted"@,
        }
    }
}

impl FileToolError {
    /// The sentence shown to people.
    pub fn to_string(&self) -> (r: String)
        ensures
            r@ == self@.text(),
    {
        match self {
            FileToolError::Read { path, message } => text4(
                "failed to read ",
                path.as_str(),
                ": ",
                message.as_str(),
            ),
            FileToolError::Path { path, message } => text4(
                "failed to resolve ",
                path.as_str(),
                ": ",
                message.as_str(),
            ),
            FileToolError::OutsideWorkspace(path) => text2(
                "path is outside the workspace: ",
                path.as_str(),
            ),
            FileToolError::NotUtf8(path) => text2("file is not UTF-8 text: ", path.as_str()),
            FileToolError::EmptyQuery => "file search query cannot be empty".to_owned(),
            FileToolError::QueryTooLong { length, maximum } => text4(
                "file search query is ",
                decimal(*length as u64).as_str(),
                " bytes; maximum is ",
                decimal(*maximum as u64).as_str(),
            ),
            FileToolError::InvalidLimit => "file tool limit is invalid".to_owned(),
            FileToolError::InvalidGrant =>
                "file tool received an invalid workspace grant".to_owned(),
            FileToolError::ReadNotGranted => "workspace read permission was not granted".to_owned(),
        }
    }

    /// The stable code reported to the host.
    pub fn code(&self) -> (r: &'static str)
        ensures
            r@ == self@.code(),
    {
        match self {
            FileToolError::Read { .. } => "file_read_error",
            FileToolError::Path { .. } => "file_path_error",
            FileToolError::OutsideWorkspace(_) => "outside_workspace",
            FileToolError::NotUtf8(_) => "file_not_utf8",
            FileToolError::EmptyQuery => "empty_search_query",
            FileToolError::QueryTooLong { .. } => "search_query_too_long",
            FileToolError::InvalidLimit => "invalid_file_limit",
            FileToolError::InvalidGrant => "invalid_grant",
            FileToolError::ReadNotGranted => "read_not_granted",
        }
    }
}

} // verus!
