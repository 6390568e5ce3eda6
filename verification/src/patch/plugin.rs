//! The plugin that applies patches.
use vstd::prelude::*;

use crate::plugin::dispatch::{PluginContract, Reply};
use crate::grants::{ActionGrantError, GrantErrorView};
use crate::patch::error::{PatchError, PatchErrorView};
use crate::text::text2;

verus! {

pub const PATCH_PLUGIN_ID: &'static str = "yunxi.tool.patch";

/// What the patch plugin offers.
pub fn contract(capability: &str, version: u32, operations: Vec<String>) -> (r: PluginContract)
    ensures
        r.capability@ == capability@,
        r.version == version,
        r.operations == operations,
        r.unknown_capability is None,
        r.unknown_operation@ == "patch plugin does not support the requested operation"@,
{
    PluginContract {
        capability: capability.to_owned(),
        version,
        operations,
        unknown_capability: None,
        unknown_operation: "patch plugin does not support the requested operation".to_owned(),
    }
}

/// Why the plugin cannot go on, or why a request failed.
#[derive(Clone, Debug)]
pub enum PatchPluginError {
    Capability(String),
    Grant(ActionGrantError),
    Invocation(String),
    Apply(PatchError),
    Protocol(String),
    UnexpectedHostMessage(String),
}

/// The error with its texts as character sequences.
pub enum PatchPluginErrorView {
    Capability(Seq<char>),
    Grant(GrantErrorView),
    Invocation(Seq<char>),
    Apply(PatchErrorView),
    Protocol(Seq<char>),
    UnexpectedHostMessage(Seq<char>),
}

impl View for PatchPluginError {
    type V = PatchPluginErrorView;

    open spec fn view(&self) -> PatchPluginErrorView {
        match *self {
            PatchPluginError::Capability(message) => PatchPluginErrorView::Capability(message@),
            PatchPluginError::Grant(error) => PatchPluginErrorView::Grant(error@),
            PatchPluginError::Invocation(message) => PatchPluginErrorView::Invocation(message@),
            PatchPluginError::Apply(error) => PatchPluginErrorView::Apply(error@),
            PatchPluginError::Protocol(message) => PatchPluginErrorView::Protocol(message@),
            PatchPluginError::UnexpectedHostMessage(message) =>
                PatchPluginErrorView::UnexpectedHostMessage(message@),
        }
    }
}

impl PatchPluginErrorView {
    /// The sentence shown to people.
    pub open spec fn text(self) -> Seq<char> {
        match self {
            PatchPluginErrorView::Capability(message) => "invalid capability: "@ + message,
            PatchPluginErrorView::Grant(error) => error.text(),
            PatchPluginErrorView::Invocation(message) => message,
            PatchPluginErrorView::Apply(error) => error.text(),
            PatchPluginErrorView::Protocol(message) => message,
            PatchPluginErrorView::UnexpectedHostMessage(message) => message,
        }
    }

    /// The stable code reported to the host.
    pub open spec fn code(self) -> Seq<char> {
        match self {
            PatchPluginErrorView::Capability(_) => "plugin_error"@,
            PatchPluginErrorView::Grant(_) => "grant_denied"@,
            PatchPluginErrorView::Invocation(_) => "invalid_request"@,
            PatchPluginErrorView::Apply(error) => error.code(),
            PatchPluginErrorView::Protocol(_) => "plugin_error"@,
            PatchPluginErrorView::UnexpectedHostMessage(_) => "plugin_error"@,
        }
    }
}

impl PatchPluginError {
    /// The sentence shown to people.
    pub fn to_string(&self) -> (r: String)
        ensures
            r@ == self@.text(),
    {
        match self {
            PatchPluginError::Capability(message) => text2(
                "invalid capability: ",
                message.as_str(),
            ),
            PatchPluginError::Grant(error) => error.to_string(),
            PatchPluginError::Invocation(message) => message.clone(),
            PatchPluginError::Apply(error) => error.to_string(),
            PatchPluginError::Protocol(message) => message.clone(),
            PatchPluginError::UnexpectedHostMessage(message) => message.clone(),
        }
    }

    /// The stable code reported to the host.
    pub fn code(&self) -> (r: &'static str)
        ensures
            r@ == self@.code(),
    {
        match self {
            PatchPluginError::Capability(_) => "plugin_error",
            PatchPluginError::Grant(_) => "grant_denied",
            PatchPluginError::Invocation(_) => "invalid_request",
            PatchPluginError::Apply(error) => error.code(),
            PatchPluginError::Protocol(_) => "plugin_error",
            PatchPluginError::UnexpectedHostMessage(_) => "plugin_error",
        }
    }
}

/// The answer to a request.
pub fn respond<R>(request_id: u64, outcome: Result<R, PatchPluginError>) -> (r: Reply<R>)
    ensures
        match outcome {
            Ok(result) => r == (Reply::<R>::Completed { request_id, result }),
            Err(error) => {
                &&& r is Failed
                &&& r->Failed_request_id == request_id
                &&& r->code@ == error@.code()
                &&& r->message@ == error@.text()
                &&& !r->retryable
            },
        },
{
    match outcome {
        Ok(result) => Reply::Completed { request_id, result },
        Err(error) => Reply::Failed {
            request_id,
            code: error.code(),
            message: error.to_string(),
            retryable: false,
        },
    }
}

} // verus!
