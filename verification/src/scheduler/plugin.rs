//! The plugin that decides on proactive suggestions.
use vstd::prelude::*;

use crate::plugin::dispatch::{PluginContract, Reply};
use crate::scheduler::policy::{
    decision, evaluate, reports_decision, ProactiveSchedulerRequest, ProactiveSchedulerResult,
};
use crate::text::text2;

verus! {

pub const SCHEDULER_PLUGIN_ID: &'static str = "yunxi.scheduler";

/// What the scheduler plugin offers.
pub fn contract(capability: &str, version: u32, operations: Vec<String>) -> (r: PluginContract)
    ensures
        r.capability@ == capability@,
        r.version == version,
        r.operations == operations,
        r.unknown_capability is None,
        r.unknown_operation@ == "scheduler plugin does not support the requested operation"@,
{
    PluginContract {
        capability: capability.to_owned(),
        version,
        operations,
        unknown_capability: None,
        unknown_operation: "scheduler plugin does not support the requested operation".to_owned(),
    }
}

/// Why the plugin cannot go on, or why a request failed.
#[derive(Clone, Debug)]
pub enum SchedulerPluginError {
    Capability(String),
    Invocation(String),
    Protocol(String),
    UnexpectedHostMessage(String),
}

/// The error with its texts as character sequences.
pub enum SchedulerPluginErrorView {
    Capability(Seq<char>),
    Invocation(Seq<char>),
    Protocol(Seq<char>),
    UnexpectedHostMessage(Seq<char>),
}

impl View for SchedulerPluginError {
    type V = SchedulerPluginErrorView;

    open spec fn view(&self) -> SchedulerPluginErrorView {
        match *self {
            SchedulerPluginError::Capability(message) =>
                SchedulerPluginErrorView::Capability(message@),
            SchedulerPluginError::Invocation(message) =>
                SchedulerPluginErrorView::Invocation(message@),
            SchedulerPluginError::Protocol(message) => SchedulerPluginErrorView::Protocol(message@),
            SchedulerPluginError::UnexpectedHostMessage(message) =>
                SchedulerPluginErrorView::UnexpectedHostMessage(message@),
        }
    }
}

impl SchedulerPluginErrorView {
    /// The sentence shown to people.
    pub open spec fn text(self) -> Seq<char> {
        match self {
            SchedulerPluginErrorView::Capability(message) => "invalid capability: "@ + message,
            SchedulerPluginErrorView::Invocation(message) => message,
            SchedulerPluginErrorView::Protocol(message) => message,
            SchedulerPluginErrorView::UnexpectedHostMessage(message) => message,
        }
    }
}

impl SchedulerPluginError {
    /// The sentence shown to people.
    pub fn to_string(&self) -> (r: String)
        ensures
            r@ == self@.text(),
    {
        match self {
            SchedulerPluginError::Capability(message) => text2(
                "invalid capability: ",
                message.as_str(),
            ),
            SchedulerPluginError::Invocation(message) => message.clone(),
            SchedulerPluginError::Protocol(message) => message.clone(),
            SchedulerPluginError::UnexpectedHostMessage(message) => message.clone(),
        }
    }
}

/// The answer to a request for a decision: the decision, or why the request cannot be read.
pub fn respond(request_id: u64, payload: Result<ProactiveSchedulerRequest, String>) -> (r: Reply<
    ProactiveSchedulerResult,
>)
    ensures
        match payload {
            Ok(request) => {
                &&& r is Completed
                &&& r->Completed_request_id == request_id
                &&& reports_decision(r->result, decision(request))
            },
            Err(message) => {
                &&& r is Failed
                &&& r->Failed_request_id == request_id
                &&& r->code@ == "invalid_request"@
                &&& r->message == message
                &&& !r->retryable
            },
        },
{
    match payload {
        Ok(request) => Reply::Completed { request_id, result: evaluate(&request) },
        Err(message) => Reply::Failed {
            request_id,
            code: "invalid_request",
            message,
            retryable: false,
        },
    }
}

} // verus!
