//! The plugin that reads and searches files.
use vstd::prelude::*;

use crate::plugin::dispatch::{PluginContract, Reply};
use crate::plugin::requirement::{GrantKind, GrantRequirement};
use crate::files::error::{FileErrorView, FileToolError};
use crate::text::text2;

verus! {

pub const FILES_PLUGIN_ID: &'static str = "yunxi.tool.files";

/// What the file tool plugin offers.
pub fn contract(capability: &str, version: u32, operations: Vec<String>) -> (r: PluginContract)
    ensures
        r.capability@ == capability@,
        r.version == version,
        r.operations == operations,
        r.unknown_capability is None,
        r.unknown_operation@ == "file tool plugin does not support the requested operation"@,
{
    PluginContract {
        capability: capability.to_owned(),
        version,
        operations,
        unknown_capability: None,
        unknown_operation: "file tool plugin does not support the requested operation".to_owned(),
    }
}

/// What the file tools ask the host for: nothing but reading the workspace.
pub open spec fn grants_wanted() -> Seq<GrantRequirement> {
    seq![
        GrantRequirement { kind: GrantKind::WorkspaceRead, required: true },
    ]
}

pub fn required_grants() -> (r: Vec<GrantRequirement>)
    ensures
        r@ == grants_wanted(),
{
    let r = vec![
        GrantRequirement { kind: GrantKind::WorkspaceRead, required: true },
    ];
    assert(r@ =~= grants_wanted());
    r
}

/// Why the plugin cannot go on, or why a request failed.
#[derive(Clone, Debug)]
pub enum FileToolPluginError {
    Capability(String),
    Execution(FileToolError),
    Invocation(String),
    Protocol(String),
    UnexpectedHostMessage(String),
}

/// The error with its texts as character sequences.
pub enum FilePluginErrorView {
    Capability(Seq<char>),
    Execution(FileErrorView),
    Invocation(Seq<char>),
    Protocol(Seq<char>),
    UnexpectedHostMessage(Seq<char>),
}

impl View for FileToolPluginError {
    type V = FilePluginErrorView;

    open spec fn view(&self) -> FilePluginErrorView {
        match *self {
            FileToolPluginError::Capability(message) => FilePluginErrorView::Capability(message@),
            FileToolPluginError::Execution(error) => FilePluginErrorView::Execution(error@),
            FileToolPluginError::Invocation(message) => FilePluginErrorView::Invocation(message@),
            FileToolPluginError::Protocol(message) => FilePluginErrorView::Protocol(message@),
            FileToolPluginError::UnexpectedHostMessage(message) =>
                FilePluginErrorView::UnexpectedHostMessage(message@),
        }
    }
}

impl FilePluginErrorView {
    /// The sentence shown to people.
    pub open spec fn text(self) -> Seq<char> {
        match self {
            FilePluginErrorView::Capability(message) => "invalid capability: "@ + message,
            FilePluginErrorView::Execution(error) => error.text(),
            FilePluginErrorView::Invocation(message) => message,
            FilePluginErrorView::Protocol(message) => message,
            FilePluginErrorView::UnexpectedHostMessage(message) => message,
        }
    }

    /// The stable code reported to the host.
    pub open spec fn code(self) -> Seq<char> {
        match self {
            FilePluginErrorView::Capability(_) => "plugin_error"@,
            FilePluginErrorView::Execution(error) => error.code(),
            FilePluginErrorView::Invocation(_) => "invalid_request"@,
            FilePluginErrorView::Protocol(_) => "plugin_error"@,
            FilePluginErrorView::UnexpectedHostMessage(_) => "plugin_error"@,
        }
    }
}

impl FileToolPluginError {
    /// The sentence shown to people.
    pub fn to_string(&self) -> (r: String)
        ensures
            r@ == self@.text(),
    {
        match self {
            FileToolPluginError::Capability(message) => text2(
                "invalid capability: ",
                message.as_str(),
            ),
            FileToolPluginError::Execution(error) => error.to_string(),
            FileToolPluginError::Invocation(message) => message.clone(),
            FileToolPluginError::Protocol(message) => message.clone(),
            FileToolPluginError::UnexpectedHostMessage(message) => message.clone(),
        }
    }

    /// The stable code reported to the host.
    pub fn code(&self) -> (r: &'static str)
        ensures
            r@ == self@.code(),
    {
        match self {
            FileToolPluginError::Capability(_) => "plugin_error",
            FileToolPluginError::Execution(error) => error.code(),
            FileToolPluginError::Invocation(_) => "invalid_request",
            FileToolPluginError::Protocol(_) => "plugin_error",
            FileToolPluginError::UnexpectedHostMessage(_) => "plugin_error",
        }
    }
}

/// The answer to a request.
pub fn respond<R>(request_id: u64, outcome: Result<R, FileToolPluginError>) -> (r: Reply<R>)
    ensures
        match outcome {
            Ok(result) => r == (Reply::<R>::Completed { request_id, result }),
            Err(error) => {
                &&& r is Failed
                &&& r->Failed_request_id == request_id
                &&& r->code@ == error@.code()
                &&& r->message@ == error@.text()
                &&& !r->retryable
            },
        },
{
    match outcome {
        Ok(result) => Reply::Completed { request_id, result },
        Err(error) => Reply::Failed {
            request_id,
            code: error.code(),
            message: error.to_string(),
            retryable: false,
        },
    }
}

} // verus!
