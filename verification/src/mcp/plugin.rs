//! The plugin that bridges to an MCP server.
use vstd::prelude::*;

use crate::grants::{ActionGrantError, GrantErrorView};
use crate::mcp::client_error::{ClientErrorView, McpClientError};
use crate::mcp::config::McpTransportKind;
use crate::mcp::config_error::{ConfigErrorView, McpConfigError};
use crate::plugin::dispatch::{PluginContract, Reply};
use crate::plugin::requirement::{GrantKind, GrantRequirement};
use crate::text::{str_eq, text2, text3};

verus! {

pub const MCP_PLUGIN_ID: &'static str = "yunxi.tool.mcp";

pub const DISCOVERY_TIMEOUT_MILLIS: u64 = 10_000;

/// What the MCP plugin offers.
pub fn contract(capability: &str, version: u32, operations: Vec<String>) -> (r: PluginContract)
    ensures
        r.capability@ == capability@,
        r.version == version,
        r.operations == operations,
        r.unknown_capability is None,
        r.unknown_operation@ == "MCP bridge does not support the requested operation"@,
{
    PluginContract {
        capability: capability.to_owned(),
        version,
        operations,
        unknown_capability: None,
        unknown_operation: "MCP bridge does not support the requested operation".to_owned(),
    }
}

// ---------------------------------------------------------------------------
// Grants
// ---------------------------------------------------------------------------
/// What the bridge asks the host for: approval in any case, and the network where the server
/// is reached over it.
pub open spec fn grants_for(transport: McpTransportKind) -> Seq<GrantRequirement> {
    seq![
        GrantRequirement { kind: GrantKind::Approval, required: true },
        GrantRequirement { kind: GrantKind::WorkspaceRead, required: false },
        GrantRequirement { kind: GrantKind::WorkspaceWrite, required: false },
        GrantRequirement { kind: GrantKind::Secret, required: false },
        GrantRequirement { kind: GrantKind::Network, required: transport is Http },
    ]
}

pub fn required_grants(transport: McpTransportKind) -> (r: Vec<GrantRequirement>)
    ensures
        r@ == grants_for(transport),
{
    let network = match transport {
        McpTransportKind::Http => true,
        McpTransportKind::Stdio => false,
    };
    let r = vec![
        GrantRequirement { kind: GrantKind::Approval, required: true },
        GrantRequirement { kind: GrantKind::WorkspaceRead, required: false },
        GrantRequirement { kind: GrantKind::WorkspaceWrite, required: false },
        GrantRequirement { kind: GrantKind::Secret, required: false },
        GrantRequirement { kind: GrantKind::Network, required: network },
    ];
    assert(r@ =~= grants_for(transport));
    r
}

// ---------------------------------------------------------------------------
// Errors
// ---------------------------------------------------------------------------
/// The stable code of a failure of the bridge.
pub open spec fn client_code(error: ClientErrorView) -> Seq<char> {
    match error {
        ClientErrorView::Remote { .. } => "mcp_remote_error"@,
        ClientErrorView::UnknownTool { .. } => "unknown_tool"@,
        ClientErrorView::NetworkDenied { .. } => "network_denied"@,
        ClientErrorView::SecretDenied { .. } => "secret_denied"@,
        ClientErrorView::HttpStatus { .. } => "mcp_http_error"@,
        ClientErrorView::HttpConfiguration { .. } => "mcp_http_error"@,
        _ => "mcp_protocol_error"@,
    }
}

fn code_of(error: &McpClientError) -> (r: &'static str)
    ensures
        r@ == client_code(error@),
{
    match error {
        McpClientError::Remote { .. } => "mcp_remote_error",
        McpClientError::UnknownTool { .. } => "unknown_tool",
        McpClientError::NetworkDenied { .. } => "network_denied",
        McpClientError::SecretDenied { .. } => "secret_denied",
        McpClientError::HttpStatus { .. } => "mcp_http_error",
        McpClientError::HttpConfiguration { .. } => "mcp_http_error",
        _ => "mcp_protocol_error",
    }
}

/// Why the bridge cannot go on, or why a request failed.
#[derive(Clone, Debug)]
pub enum McpPluginError {
    Config(McpConfigError),
    Client(McpClientError),
    Capability(String),
    Grant(ActionGrantError),
    Invocation(String),
    ProtocolPayload(String),
    Protocol(String),
    UnexpectedHostMessage(String),
}

/// The error with its texts as character sequences.
pub enum McpPluginErrorView {
    Config(ConfigErrorView),
    Client(ClientErrorView),
    Capability(Seq<char>),
    Grant(GrantErrorView),
    Invocation(Seq<char>),
    ProtocolPayload(Seq<char>),
    Protocol(Seq<char>),
    UnexpectedHostMessage(Seq<char>),
}

impl View for McpPluginError {
    type V = McpPluginErrorView;

    open spec fn view(&self) -> McpPluginErrorView {
        match *self {
            McpPluginError::Config(error) => McpPluginErrorView::Config(error@),
            McpPluginError::Client(error) => McpPluginErrorView::Client(error@),
            McpPluginError::Capability(message) => McpPluginErrorView::Capability(message@),
            McpPluginError::Grant(error) => McpPluginErrorView::Grant(error@),
            McpPluginError::Invocation(message) => McpPluginErrorView::Invocation(message@),
            McpPluginError::ProtocolPayload(message) =>
                McpPluginErrorView::ProtocolPayload(message@),
            McpPluginError::Protocol(message) => McpPluginErrorView::Protocol(message@),
            McpPluginError::UnexpectedHostMessage(message) =>
                McpPluginErrorView::UnexpectedHostMessage(message@),
        }
    }
}

impl McpPluginErrorView {
    /// The sentence shown to people.
    pub open spec fn text(self) -> Seq<char> {
        match self {
            McpPluginErrorView::Config(error) => error.text(),
            McpPluginErrorView::Client(error) => error.text(),
            McpPluginErrorView::Capability(message) => "invalid capability: "@ + message,
            McpPluginErrorView::Grant(error) => error.text(),
            McpPluginErrorView::Invocation(message) => message,
            McpPluginErrorView::ProtocolPayload(message) => message,
            McpPluginErrorView::Protocol(message) => message,
            McpPluginErrorView::UnexpectedHostMessage(message) => message,
        }
    }

    /// The stable code reported to the host.
    pub open spec fn code(self) -> Seq<char> {
        match self {
            McpPluginErrorView::Config(_) => "plugin_error"@,
            McpPluginErrorView::Client(error) => client_code(error),
            McpPluginErrorView::Capability(_) => "plugin_error"@,
            McpPluginErrorView::Grant(_) => "grant_denied"@,
            McpPluginErrorView::Invocation(_) => "invalid_request"@,
            McpPluginErrorView::ProtocolPayload(_) => "invalid_request"@,
            McpPluginErrorView::Protocol(_) => "plugin_error"@,
            McpPluginErrorView::UnexpectedHostMessage(_) => "plugin_error"@,
        }
    }
}

impl McpPluginError {
    /// The sentence shown to people.
    pub fn to_string(&self) -> (r: String)
        ensures
            r@ == self@.text(),
    {
        match self {
            McpPluginError::Config(error) => error.to_string(),
            McpPluginError::Client(error) => error.to_string(),
            McpPluginError::Capability(message) => text2("invalid capability: ", message.as_str()),
            McpPluginError::Grant(error) => error.to_string(),
            McpPluginError::Invocation(message) => message.clone(),
            McpPluginError::ProtocolPayload(message) => message.clone(),
            McpPluginError::Protocol(message) => message.clone(),
            McpPluginError::UnexpectedHostMessage(message) => message.clone(),
        }
    }

    /// The stable code reported to the host.
    pub fn code(&self) -> (r: &'static str)
        ensures
            r@ == self@.code(),
    {
        match self {
            McpPluginError::Config(_) => "plugin_error",
            McpPluginError::Client(error) => code_of(error),
            McpPluginError::Capability(_) => "plugin_error",
            McpPluginError::Grant(_) => "grant_denied",
            McpPluginError::Invocation(_) => "invalid_request",
            McpPluginError::ProtocolPayload(_) => "invalid_request",
            McpPluginError::Protocol(_) => "plugin_error",
            McpPluginError::UnexpectedHostMessage(_) => "plugin_error",
        }
    }
}

impl McpPluginErrorView {
    /// The connection to the server is of no use after this.
    pub open spec fn fatal(self) -> bool {
        match self {
            McpPluginErrorView::Client(error) => error.fatal(),
            _ => false,
        }
    }
}

impl McpPluginError {
    pub fn is_fatal_client_error(&self) -> (r: bool)
        ensures
            r == self@.fatal(),
    {
        match self {
            McpPluginError::Client(error) => error.is_fatal(),
            _ => false,
        }
    }
}

// ---------------------------------------------------------------------------
// Requests
// ---------------------------------------------------------------------------
/// What the host asks of the bridge.
#[derive(Clone, Debug)]
pub enum McpCall {
    List { refresh: bool },
    Call { server_name: String },
    Cancel { server_name: String },
    Status { server_name: String },
}

/// What the bridge does about it.
#[derive(Clone, Debug, PartialEq, Eq)]
pub enum McpStep {
    /// Connect to the server, and look at the request again.
    Connect,
    /// Answer that no such server is registered.
    UnknownServer { message: String },
    /// Ask the server for its tools.
    Discover,
    /// Give back the tools that are known.
    ShowKnown,
    /// Call a tool.
    CallTool,
    /// Take a request back at the server.
    ForwardCancel,
    /// Answer that there was nothing to take back.
    NothingToCancel,
    /// Answer that the server is ready.
    ReportReady,
}

pub enum McpStepView {
    Connect,
    UnknownServer { message: Seq<char> },
    Discover,
    ShowKnown,
    CallTool,
    ForwardCancel,
    NothingToCancel,
    ReportReady,
}

impl View for McpStep {
    type V = McpStepView;

    open spec fn view(&self) -> McpStepView {
        match *self {
            McpStep::Connect => McpStepView::Connect,
            McpStep::UnknownServer { message } => McpStepView::UnknownServer {
                message: message@,
            },
            McpStep::Discover => McpStepView::Discover,
            McpStep::ShowKnown => McpStepView::ShowKnown,
            McpStep::CallTool => McpStepView::CallTool,
            McpStep::ForwardCancel => McpStepView::ForwardCancel,
            McpStep::NothingToCancel => McpStepView::NothingToCancel,
            McpStep::ReportReady => McpStepView::ReportReady,
        }
    }
}

pub open spec fn unknown_server(name: Seq<char>) -> McpStepView {
    McpStepView::UnknownServer { message: "MCP server `"@ + name + "` is not registered"@ }
}

/// What the bridge does about a request. `connected` is the name of the server that it is
/// connected to, if it is. Taking a request back never connects to a server.
pub open spec fn step_for(call: McpCall, connected: Option<Seq<char>>) -> McpStepView {
    match call {
        McpCall::Cancel { server_name } => match connected {
            None => McpStepView::NothingToCancel,
            Some(name) => if server_name@ == name {
                McpStepView::ForwardCancel
            } else {
                unknown_server(server_name@)
            },
        },
        McpCall::List { refresh } => match connected {
            None => McpStepView::Connect,
            Some(_) => if refresh {
                McpStepView::Discover
            } else {
                McpStepView::ShowKnown
            },
        },
        McpCall::Call { server_name } => match connected {
            None => McpStepView::Connect,
            Some(name) => if server_name@ == name {
                McpStepView::CallTool
            } else {
                unknown_server(server_name@)
            },
        },
        McpCall::Status { server_name } => match connected {
            None => McpStepView::Connect,
            Some(name) => if server_name@ == name {
                McpStepView::ReportReady
            } else {
                unknown_server(server_name@)
            },
        },
    }
}

fn say_unknown(name: &str) -> (r: McpStep)
    ensures
        r@ == unknown_server(name@),
{
    McpStep::UnknownServer { message: text3("MCP server `", name, "` is not registered") }
}

pub fn next_step(call: &McpCall, connected: Option<&str>) -> (r: McpStep)
    ensures
        r@ == step_for(
            *call,
            match connected {
                Some(name) => Some(name@),
                None => None,
            },
        ),
{
    match call {
        McpCall::Cancel { server_name } => match connected {
            None => McpStep::NothingToCancel,
            Some(name) => {
                if str_eq(server_name.as_str(), name) {
                    McpStep::ForwardCancel
                } else {
                    say_unknown(server_name.as_str())
                }
            },
        },
        McpCall::List { refresh } => match connected {
            None => McpStep::Connect,
            Some(_) => {
                if *refresh {
                    McpStep::Discover
                } else {
                    McpStep::ShowKnown
                }
            },
        },
        McpCall::Call { server_name } => match connected {
            None => McpStep::Connect,
            Some(name) => {
                if str_eq(server_name.as_str(), name) {
                    McpStep::CallTool
                } else {
                    say_unknown(server_name.as_str())
                }
            },
        },
        McpCall::Status { server_name } => match connected {
            None => McpStep::Connect,
            Some(name) => {
                if str_eq(server_name.as_str(), name) {
                    McpStep::ReportReady
                } else {
                    say_unknown(server_name.as_str())
                }
            },
        },
    }
}

/// Once the bridge is connected, every request is dealt with in one step; none but those for
/// the server it is connected to reach that server.
pub proof fn lemma_only_the_registered_server_is_asked(call: McpCall, name: Seq<char>)
    ensures
        ({
            let step = step_for(call, Some(name));
            &&& !(step is Connect)
            &&& step is CallTool ==> call is Call && call->Call_server_name@ == name
            &&& step is ForwardCancel ==> call is Cancel && call->Cancel_server_name@ == name
            &&& step is ReportReady ==> call is Status && call->Status_server_name@ == name
        }),
{
}

/// How the bridge goes on after a request: with an answer, or not at all.
#[derive(Debug)]
pub enum McpConclusion<R> {
    Answer(Reply<R>),
    Stop(McpPluginError),
}

/// A failure that makes the connection useless ends the bridge; any other is the answer.
pub fn conclude<R>(request_id: u64, outcome: Result<R, McpPluginError>) -> (r: McpConclusion<R>)
    ensures
        match outcome {
            Ok(result) => r == McpConclusion::<R>::Answer(
                Reply::<R>::Completed { request_id, result },
            ),
            Err(error) => if error@.fatal() {
                r == McpConclusion::<R>::Stop(error)
            } else {
                &&& r is Answer
                &&& r->Answer_0 is Failed
                &&& r->Answer_0->Failed_request_id == request_id
                &&& r->Answer_0->code@ == error@.code()
                &&& r->Answer_0->message@ == error@.text()
                &&& !r->Answer_0->retryable
            },
        },
{
    match outcome {
        Ok(result) => McpConclusion::Answer(Reply::Completed { request_id, result }),
        Err(error) => {
            if error.is_fatal_client_error() {
                McpConclusion::Stop(error)
            } else {
                McpConclusion::Answer(
                    Reply::Failed {
                        request_id,
                        code: error.code(),
                        message: error.to_string(),
                        retryable: false,
                    },
                )
            }
        },
    }
}

/// The answer to a request for another server.
pub fn refuse_server<R>(request_id: u64, message: String) -> (r: Reply<R>)
    ensures
        r is Failed,
        r->Failed_request_id == request_id,
        r->code@ == "unknown_server"@,
        r->message == message,
        !r->retryable,
{
    Reply::Failed { request_id, code: "unknown_server", message, retryable: false }
}

/// The answer to a request to take another one back.
#[derive(Clone, Debug, PartialEq, Eq)]
pub struct McpToolCancelResult {
    pub server_name: String,
    pub request_id: u64,
    pub forwarded: bool,
    pub accepted: bool,
}

/// What is said of a request that was taken back, or that could not be for want of a server.
pub fn cancel_result(server_name: &str, request_id: u64, forwarded: bool) -> (r: McpToolCancelResult)
    ensures
        r.server_name@ == server_name@,
        r.request_id == request_id,
        r.forwarded == forwarded,
        r.accepted,
{
    McpToolCancelResult {
        server_name: server_name.to_owned(),
        request_id,
        forwarded,
        accepted: true,
    }
}

} // verus!
