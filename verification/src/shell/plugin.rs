//! The plugin that runs shell commands.
use vstd::prelude::*;

use crate::plugin::dispatch::{PluginContract, Reply};
use crate::plugin::requirement::{GrantKind, GrantRequirement};
use crate::grants::{ActionGrantError, GrantErrorView};
use crate::shell::error::{ShellError, ShellErrorView};
use crate::text::text2;

verus! {

pub const SHELL_PLUGIN_ID: &'static str = "yunxi.tool.shell";

/// What the shell plugin offers.
pub fn contract(capability: &str, version: u32, operations: Vec<String>) -> (r: PluginContract)
    ensures
        r.capability@ == capability@,
        r.version == version,
        r.operations == operations,
        r.unknown_capability is None,
        r.unknown_operation@ == "shell plugin does not support the requested operation"@,
{
    PluginContract {
        capability: capability.to_owned(),
        version,
        operations,
        unknown_capability: None,
        unknown_operation: "shell plugin does not support the requested operation".to_owned(),
    }
}

/// What the shell asks the host for: it runs nothing without approval, and uses writing and the
/// network only where they are given.
pub open spec fn grants_wanted() -> Seq<GrantRequirement> {
    seq![
        GrantRequirement { kind: GrantKind::Approval, required: true },
        GrantRequirement { kind: GrantKind::WorkspaceRead, required: true },
        GrantRequirement { kind: GrantKind::WorkspaceWrite, required: false },
        GrantRequirement { kind: GrantKind::Network, required: false },
    ]
}

pub fn required_grants() -> (r: Vec<GrantRequirement>)
    ensures
        r@ == grants_wanted(),
{
    let r = vec![
        GrantRequirement { kind: GrantKind::Approval, required: true },
        GrantRequirement { kind: GrantKind::WorkspaceRead, required: true },
        GrantRequirement { kind: GrantKind::WorkspaceWrite, required: false },
        GrantRequirement { kind: GrantKind::Network, required: false },
    ];
    assert(r@ =~= grants_wanted());
    r
}

/// Why the plugin cannot go on, or why a request failed.
#[derive(Clone, Debug)]
pub enum ShellPluginError {
    Capability(String),
    Grant(ActionGrantError),
    Invocation(String),
    Execution(ShellError),
    Protocol(String),
    UnexpectedHostMessage(String),
}

/// The error with its texts as character sequences.
pub enum ShellPluginErrorView {
    Capability(Seq<char>),
    Grant(GrantErrorView),
    Invocation(Seq<char>),
    Execution(ShellErrorView),
    Protocol(Seq<char>),
    UnexpectedHostMessage(Seq<char>),
}

impl View for ShellPluginError {
    type V = ShellPluginErrorView;

    open spec fn view(&self) -> ShellPluginErrorView {
        match *self {
            ShellPluginError::Capability(message) => ShellPluginErrorView::Capability(message@),
            ShellPluginError::Grant(error) => ShellPluginErrorView::Grant(error@),
            ShellPluginError::Invocation(message) => ShellPluginErrorView::Invocation(message@),
            ShellPluginError::Execution(error) => ShellPluginErrorView::Execution(error@),
            ShellPluginError::Protocol(message) => ShellPluginErrorView::Protocol(message@),
            ShellPluginError::UnexpectedHostMessage(message) =>
                ShellPluginErrorView::UnexpectedHostMessage(message@),
        }
    }
}

impl ShellPluginErrorView {
    /// The sentence shown to people.
    pub open spec fn text(self) -> Seq<char> {
        match self {
            ShellPluginErrorView::Capability(message) => "invalid capability: "@ + message,
            ShellPluginErrorView::Grant(error) => error.text(),
            ShellPluginErrorView::Invocation(message) => message,
            ShellPluginErrorView::Execution(error) => error.text(),
            ShellPluginErrorView::Protocol(message) => message,
            ShellPluginErrorView::UnexpectedHostMessage(message) => message,
        }
    }

    /// The stable code reported to the host.
    pub open spec fn code(self) -> Seq<char> {
        match self {
            ShellPluginErrorView::Capability(_) => "plugin_error"@,
            ShellPluginErrorView::Grant(_) => "grant_denied"@,
            ShellPluginErrorView::Invocation(_) => "invalid_request"@,
            ShellPluginErrorView::Execution(error) => error.code(),
            ShellPluginErrorView::Protocol(_) => "plugin_error"@,
            ShellPluginErrorView::UnexpectedHostMessage(_) => "plugin_error"@,
        }
    }
}

impl ShellPluginError {
    /// The sentence shown to people.
    pub fn to_string(&self) -> (r: String)
        ensures
            r@ == self@.text(),
    {
        match self {
            ShellPluginError::Capability(message) => text2(
                "invalid capability: ",
                message.as_str(),
            ),
            ShellPluginError::Grant(error) => error.to_string(),
            ShellPluginError::Invocation(message) => message.clone(),
            ShellPluginError::Execution(error) => error.to_string(),
            ShellPluginError::Protocol(message) => message.clone(),
            ShellPluginError::UnexpectedHostMessage(message) => message.clone(),
        }
    }

    /// The stable code reported to the host.
    pub fn code(&self) -> (r: &'static str)
        ensures
            r@ == self@.code(),
    {
        match self {
            ShellPluginError::Capability(_) => "plugin_error",
            ShellPluginError::Grant(_) => "grant_denied",
            ShellPluginError::Invocation(_) => "invalid_request",
            ShellPluginError::Execution(error) => error.code(),
            ShellPluginError::Protocol(_) => "plugin_error",
            ShellPluginError::UnexpectedHostMessage(_) => "plugin_error",
        }
    }
}

/// The answer to a request.
pub fn respond<R>(request_id: u64, outcome: Result<R, ShellPluginError>) -> (r: Reply<R>)
    ensures
        match outcome {
            Ok(result) => r == (Reply::<R>::Completed { request_id, result }),
            Err(error) => {
                &&& r is Failed
                &&& r->Failed_request_id == request_id
                &&& r->code@ == error@.code()
                &&& r->message@ == error@.text()
                &&& !r->retryable
            },
        },
{
    match outcome {
        Ok(result) => Reply::Completed { request_id, result },
        Err(error) => Reply::Failed {
            request_id,
            code: error.code(),
            message: error.to_string(),
            retryable: false,
        },
    }
}

} // verus!
