//! What can go wrong between the bridge and an MCP server.
use vstd::prelude::*;

use crate::text::{
    decimal, decimal_of, signed_decimal, signed_decimal_of, text2, text3, text4, text5,
};

verus! {

/// A failure of the bridge. What a transport or a codec reports is kept as text; so is an
/// identifier that was not expected.
#[derive(Clone, Debug, PartialEq, Eq)]
pub enum McpClientError {
    Spawn { command: String, message: String },
    Io { message: String },
    HttpTransport { message: String },
    HttpBodyRead { message: String },
    HttpStatus { status: u16 },
    HttpResponseTooLarge { maximum: usize },
    HttpConfiguration { message: String },
    NetworkDenied { endpoint: String },
    SecretDenied { reference: String },
    InvalidCancellation { message: String },
    Read { message: String },
    Encode { message: String },
    MalformedJson { message: String },
    InvalidResponse { method: &'static str, message: String },
    UnexpectedResponseId { expected: u64, received: String },
    Remote { code: i64, message: String },
    UnknownTool { name: String },
    Timeout { method: &'static str, timeout_millis: u64 },
    ChildStopped,
    FrameTooLarge { size: usize, maximum: usize },
}

/// A failure with its texts as character sequences.
pub enum ClientErrorView {
    Spawn { command: Seq<char>, message: Seq<char> },
    Io { message: Seq<char> },
    HttpTransport { message: Seq<char> },
    HttpBodyRead { message: Seq<char> },
    HttpStatus { status: nat },
    HttpResponseTooLarge { maximum: nat },
    HttpConfiguration { message: Seq<char> },
    NetworkDenied { endpoint: Seq<char> },
    SecretDenied { reference: Seq<char> },
    InvalidCancellation { message: Seq<char> },
    Read { message: Seq<char> },
    Encode { message: Seq<char> },
    MalformedJson { message: Seq<char> },
    InvalidResponse { method: Seq<char>, message: Seq<char> },
    UnexpectedResponseId { expected: nat, received: Seq<char> },
    Remote { code: i64, message: Seq<char> },
    UnknownTool { name: Seq<char> },
    Timeout { method: Seq<char>, timeout_millis: nat },
    ChildStopped,
    FrameTooLarge { size: nat, maximum: nat },
}

impl View for McpClientError {
    type V = ClientErrorView;

    open spec fn view(&self) -> ClientErrorView {
        match *self {
            McpClientError::Spawn { command, message } => ClientErrorView::Spawn {
                command: command@,
                message: message@,
            },
            McpClientError::Io { message } => ClientErrorView::Io { message: message@ },
            McpClientError::HttpTransport { message } => ClientErrorView::HttpTransport {
                message: message@,
            },
            McpClientError::HttpBodyRead { message } => ClientErrorView::HttpBodyRead {
                message: message@,
            },
            McpClientError::HttpStatus { status } => ClientErrorView::HttpStatus {
                status: status as nat,
            },
            McpClientError::HttpResponseTooLarge { maximum } =>
                ClientErrorView::HttpResponseTooLarge { maximum: maximum as nat },
            McpClientError::HttpConfiguration { message } => ClientErrorView::HttpConfiguration {
                message: message@,
            },
            McpClientError::NetworkDenied { endpoint } => ClientErrorView::NetworkDenied {
                endpoint: endpoint@,
            },
            McpClientError::SecretDenied { reference } => ClientErrorView::SecretDenied {
                reference: reference@,
            },
            McpClientError::InvalidCancellation { message } =>
                ClientErrorView::InvalidCancellation { message: message@ },
            McpClientError::Read { message } => ClientErrorView::Read { message: message@ },
            McpClientError::Encode { message } => ClientErrorView::Encode { message: message@ },
            McpClientError::MalformedJson { message } => ClientErrorView::MalformedJson {
                message: message@,
            },
            McpClientError::InvalidResponse { method, message } =>
                ClientErrorView::InvalidResponse { method: method@, message: message@ },
            McpClientError::UnexpectedResponseId { expected, received } =>
                ClientErrorView::UnexpectedResponseId {
                    expected: expected as nat,
                    received: received@,
                },
            McpClientError::Remote { code, message } => ClientErrorView::Remote {
                code,
                message: message@,
            },
            McpClientError::UnknownTool { name } => ClientErrorView::UnknownTool { name: name@ },
            McpClientError::Timeout { method, timeout_millis } => ClientErrorView::Timeout {
                method: method@,
                timeout_millis: timeout_millis as nat,
            },
            McpClientError::ChildStopped => ClientErrorView::ChildStopped,
            McpClientError::FrameTooLarge { size, maximum } => ClientErrorView::FrameTooLarge {
                size: size as nat,
                maximum: maximum as nat,
            },
        }
    }
}

impl ClientErrorView {
    /// The sentence shown to people.
    pub open spec fn text(self) -> Seq<char> {
        match self {
            ClientErrorView::Spawn { command, message } => "failed to start MCP command `"@
                + command + "`: "@ + message,
            ClientErrorView::Io { message } => "MCP stdio I/O failed: "@ + message,
            ClientErrorView::HttpTransport { message } => "MCP HTTP transport failed: "@ + message,
            ClientErrorView::HttpBodyRead { message } => "MCP HTTP response read failed: "@
                + message,
            ClientErrorView::HttpStatus { status } => "MCP HTTP endpoint returned status "@
                + decimal_of(status),
            ClientErrorView::HttpResponseTooLarge { maximum } => "MCP HTTP response exceeded "@
                + decimal_of(maximum) + " bytes"@,
            ClientErrorView::HttpConfiguration { message } => "MCP HTTP configuration is invalid: "@
                + message,
            ClientErrorView::NetworkDenied { endpoint } => "MCP network grant does not allow `"@
                + endpoint + "`"@,
            ClientErrorView::SecretDenied { reference } => "MCP secret grant does not allow `"@
                + reference + "`"@,
            ClientErrorView::InvalidCancellation { message } => "MCP cancellation is invalid: "@
                + message,
            ClientErrorView::Read { message } => "MCP stdio reader failed: "@ + message,
            ClientErrorView::Encode { message } => "MCP JSON-RPC encoding failed: "@ + message,
            ClientErrorView::MalformedJson { message } =>
                "MCP Server returned malformed JSON-RPC: "@
                + message,
            ClientErrorView::InvalidResponse { method, message } => "MCP method `"@ + method
                + "` returned an invalid response: "@ + message,
            ClientErrorView::UnexpectedResponseId { expected, received } =>
                "MCP JSON-RPC response id did not match request "@
                + decimal_of(expected) + ": "@ + received,
            ClientErrorView::Remote { code, message } => "MCP Server rejected the request ("@
                + signed_decimal_of(code as int) + "): "@ + message,
            ClientErrorView::UnknownTool { name } => "MCP tool `"@ + name + "` was not discovered"@,
            ClientErrorView::Timeout { method, timeout_millis } => "MCP method `"@ + method
                + "` timed out after "@ + decimal_of(timeout_millis) + " ms"@,
            ClientErrorView::ChildStopped => "MCP Server stopped before responding"@,
            ClientErrorView::FrameTooLarge { size, maximum } => "MCP JSON-RPC frame is "@
                + decimal_of(size) + " bytes; maximum is "@ + decimal_of(maximum),
        }
    }

    /// The connection to the server is of no use after this.
    pub open spec fn fatal(self) -> bool {
        match self {
            ClientErrorView::HttpStatus { .. } => false,
            ClientErrorView::HttpConfiguration { .. } => false,
            ClientErrorView::NetworkDenied { .. } => false,
            ClientErrorView::SecretDenied { .. } => false,
            ClientErrorView::InvalidCancellation { .. } => false,
            ClientErrorView::Remote { .. } => false,
            ClientErrorView::UnknownTool { .. } => false,
            _ => true,
        }
    }
}

impl McpClientError {
    /// The sentence shown to people.
    pub fn to_string(&self) -> (r: String)
        ensures
            r@ == self@.text(),
    {
        match self {
            McpClientError::Spawn { command, message } => text4(
                "failed to start MCP command `",
                command.as_str(),
                "`: ",
                message.as_str(),
            ),
            McpClientError::Io { message } => text2("MCP stdio I/O failed: ", message.as_str()),
            McpClientError::HttpTransport { message } => text2(
                "MCP HTTP transport failed: ",
                message.as_str(),
            ),
            McpClientError::HttpBodyRead { message } => text2(
                "MCP HTTP response read failed: ",
                message.as_str(),
            ),
            McpClientError::HttpStatus { status } => text2(
                "MCP HTTP endpoint returned status ",
                decimal(*status as u64).as_str(),
            ),
            McpClientError::HttpResponseTooLarge { maximum } => text3(
                "MCP HTTP response exceeded ",
                decimal(*maximum as u64).as_str(),
                " bytes",
            ),
            McpClientError::HttpConfiguration { message } => text2(
                "MCP HTTP configuration is invalid: ",
                message.as_str(),
            ),
            McpClientError::NetworkDenied { endpoint } => text3(
                "MCP network grant does not allow `",
                endpoint.as_str(),
                "`",
            ),
            McpClientError::SecretDenied { reference } => text3(
                "MCP secret grant does not allow `",
                reference.as_str(),
                "`",
            ),
            McpClientError::InvalidCancellation { message } => text2(
                "MCP cancellation is invalid: ",
                message.as_str(),
            ),
            McpClientError::Read { message } => text2(
                "MCP stdio reader failed: ",
                message.as_str(),
            ),
            McpClientError::Encode { message } => text2(
                "MCP JSON-RPC encoding failed: ",
                message.as_str(),
            ),
            McpClientError::MalformedJson { message } => text2(
                "MCP Server returned malformed JSON-RPC: ",
                message.as_str(),
            ),
            McpClientError::InvalidResponse { method, message } => text4(
                "MCP method `",
                method,
                "` returned an invalid response: ",
                message.as_str(),
            ),
            McpClientError::UnexpectedResponseId { expected, received } => text4(
                "MCP JSON-RPC response id did not match request ",
                decimal(*expected).as_str(),
                ": ",
                received.as_str(),
            ),
            McpClientError::Remote { code, message } => text4(
                "MCP Server rejected the request (",
                signed_decimal(*code).as_str(),
                "): ",
                message.as_str(),
            ),
            McpClientError::UnknownTool { name } => text3(
                "MCP tool `",
                name.as_str(),
                "` was not discovered",
            ),
            McpClientError::Timeout { method, timeout_millis } => text5(
                "MCP method `",
                method,
                "` timed out after ",
                decimal(*timeout_millis).as_str(),
                " ms",
            ),
            McpClientError::ChildStopped => "MCP Server stopped before responding".to_owned(),
            McpClientError::FrameTooLarge { size, maximum } => text4(
                "MCP JSON-RPC frame is ",
                decimal(*size as u64).as_str(),
                " bytes; maximum is ",
                decimal(*maximum as u64).as_str(),
            ),
        }
    }

    /// Whether the connection to the server is of no use after this.
    pub fn is_fatal(&self) -> (r: bool)
        ensures
            r == self@.fatal(),
    {
        match self {
            McpClientError::HttpStatus { .. } => false,
            McpClientError::HttpConfiguration { .. } => false,
            McpClientError::NetworkDenied { .. } => false,
            McpClientError::SecretDenied { .. } => false,
            McpClientError::InvalidCancellation { .. } => false,
            McpClientError::Remote { .. } => false,
            McpClientError::UnknownTool { .. } => false,
            _ => true,
        }
    }
}

} // verus!
