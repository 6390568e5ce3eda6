//! The plugin that keeps sessions.
use vstd::prelude::*;

use crate::plugin::dispatch::{PluginContract, Reply};
use crate::storage::store::{StorageError, StorageErrorView};
use crate::text::text2;

verus! {

pub const STORAGE_PLUGIN_ID: &'static str = "yunxi.storage";

/// What the storage plugin offers.
pub fn contract(capability: &str, version: u32, operations: Vec<String>) -> (r: PluginContract)
    ensures
        r.capability@ == capability@,
        r.version == version,
        r.operations == operations,
        r.unknown_capability is Some,
        r.unknown_capability->0@ == "storage plugin does not support the requested capability"@,
        r.unknown_operation@ == "storage plugin does not support the requested operation"@,
{
    PluginContract {
        capability: capability.to_owned(),
        version,
        operations,
        unknown_capability: Some("storage plugin does not support the requested capability".to_owned()),
        unknown_operation: "storage plugin does not support the requested operation".to_owned(),
    }
}

/// Why the plugin cannot go on, or why a request failed.
#[derive(Clone, Debug)]
pub enum StoragePluginError {
    Capability(String),
    Invocation(String),
    Storage(StorageError),
    Protocol(String),
    UnexpectedHostMessage(String),
}

/// The error with its texts as character sequences.
pub enum StoragePluginErrorView {
    Capability(Seq<char>),
    Invocation(Seq<char>),
    Storage(StorageErrorView),
    Protocol(Seq<char>),
    UnexpectedHostMessage(Seq<char>),
}

impl View for StoragePluginError {
    type V = StoragePluginErrorView;

    open spec fn view(&self) -> StoragePluginErrorView {
        match *self {
            StoragePluginError::Capability(message) => StoragePluginErrorView::Capability(message@),
            StoragePluginError::Invocation(message) => StoragePluginErrorView::Invocation(message@),
            StoragePluginError::Storage(error) => StoragePluginErrorView::Storage(error@),
            StoragePluginError::Protocol(message) => StoragePluginErrorView::Protocol(message@),
            StoragePluginError::UnexpectedHostMessage(message) =>
                StoragePluginErrorView::UnexpectedHostMessage(message@),
        }
    }
}

impl StoragePluginErrorView {
    /// The sentence shown to people.
    pub open spec fn text(self) -> Seq<char> {
        match self {
            StoragePluginErrorView::Capability(message) => "invalid capability: "@ + message,
            StoragePluginErrorView::Invocation(message) => message,
            StoragePluginErrorView::Storage(error) => error.text(),
            StoragePluginErrorView::Protocol(message) => message,
            StoragePluginErrorView::UnexpectedHostMessage(message) => message,
        }
    }

    /// The stable code reported to the host.
    pub open spec fn code(self) -> Seq<char> {
        match self {
            StoragePluginErrorView::Capability(_) => "plugin_error"@,
            StoragePluginErrorView::Invocation(_) => "invalid_request"@,
            StoragePluginErrorView::Storage(error) => error.code(),
            StoragePluginErrorView::Protocol(_) => "plugin_error"@,
            StoragePluginErrorView::UnexpectedHostMessage(_) => "plugin_error"@,
        }
    }
}

impl StoragePluginError {
    /// The sentence shown to people.
    pub fn to_string(&self) -> (r: String)
        ensures
            r@ == self@.text(),
    {
        match self {
            StoragePluginError::Capability(message) => text2(
                "invalid capability: ",
                message.as_str(),
            ),
            StoragePluginError::Invocation(message) => message.clone(),
            StoragePluginError::Storage(error) => error.to_string(),
            StoragePluginError::Protocol(message) => message.clone(),
            StoragePluginError::UnexpectedHostMessage(message) => message.clone(),
        }
    }

    /// The stable code reported to the host.
    pub fn code(&self) -> (r: &'static str)
        ensures
            r@ == self@.code(),
    {
        match self {
            StoragePluginError::Capability(_) => "plugin_error",
            StoragePluginError::Invocation(_) => "invalid_request",
            StoragePluginError::Storage(error) => error.code(),
            StoragePluginError::Protocol(_) => "plugin_error",
            StoragePluginError::UnexpectedHostMessage(_) => "plugin_error",
        }
    }
}

/// The answer to a request.
pub fn respond<R>(request_id: u64, outcome: Result<R, StoragePluginError>) -> (r: Reply<R>)
    ensures
        match outcome {
            Ok(result) => r == (Reply::<R>::Completed { request_id, result }),
            Err(error) => {
                &&& r is Failed
                &&& r->Failed_request_id == request_id
                &&& r->code@ == error@.code()
                &&& r->message@ == error@.text()
                &&& !r->retryable
            },
        },
{
    match outcome {
        Ok(result) => Reply::Completed { request_id, result },
        Err(error) => Reply::Failed {
            request_id,
            code: error.code(),
            message: error.to_string(),
            retryable: false,
        },
    }
}

} // verus!
