//! What can be wrong with the configuration of an MCP server.
use vstd::prelude::*;

use crate::text::{decimal, decimal_of, text2, text3, text4, text5};

verus! {

#[derive(Clone, Debug, PartialEq, Eq)]
pub enum McpConfigError {
    InvalidTransport { value: String },
    MissingEnvironment { name: &'static str },
    InvalidEnvironment { name: &'static str, message: String },
    InvalidJson { field: &'static str, message: String },
    EmptyField { field: &'static str },
    FieldTooLong { field: &'static str, length: usize, maximum: usize },
    ControlCharacter { field: &'static str },
    TooManyArguments { count: usize, maximum: usize },
    TooManyEnvironmentEntries { count: usize, maximum: usize },
    InvalidServerName { value: String },
    InvalidEnvironmentKey { value: String },
    InvalidEndpoint { value: String },
    TooManyHeaders { count: usize, maximum: usize },
    InvalidHeaderName { value: String },
    ForbiddenHeader { value: String },
    SecretHeaderMustUseReference { value: String },
    TooManySecretValues { count: usize, maximum: usize },
    InvalidSecretReference { value: String },
    MissingSecretValue { reference: String },
}

/// A configuration error with its texts as character sequences.
pub enum ConfigErrorView {
    InvalidTransport { value: Seq<char> },
    MissingEnvironment { name: Seq<char> },
    InvalidEnvironment { name: Seq<char>, message: Seq<char> },
    InvalidJson { field: Seq<char>, message: Seq<char> },
    EmptyField { field: Seq<char> },
    FieldTooLong { field: Seq<char>, length: nat, maximum: nat },
    ControlCharacter { field: Seq<char> },
    TooManyArguments { count: nat, maximum: nat },
    TooManyEnvironmentEntries { count: nat, maximum: nat },
    InvalidServerName { value: Seq<char> },
    InvalidEnvironmentKey { value: Seq<char> },
    InvalidEndpoint { value: Seq<char> },
    TooManyHeaders { count: nat, maximum: nat },
    InvalidHeaderName { value: Seq<char> },
    ForbiddenHeader { value: Seq<char> },
    SecretHeaderMustUseReference { value: Seq<char> },
    TooManySecretValues { count: nat, maximum: nat },
    InvalidSecretReference { value: Seq<char> },
    MissingSecretValue { reference: Seq<char> },
}

impl View for McpConfigError {
    type V = ConfigErrorView;

    open spec fn view(&self) -> ConfigErrorView {
        match *self {
            McpConfigError::InvalidTransport { value } => ConfigErrorView::InvalidTransport {
                value: value@,
            },
            McpConfigError::MissingEnvironment { name } => ConfigErrorView::MissingEnvironment {
                name: name@,
            },
            McpConfigError::InvalidEnvironment { name, message } =>
                ConfigErrorView::InvalidEnvironment { name: name@, message: message@ },
            McpConfigError::InvalidJson { field, message } => ConfigErrorView::InvalidJson {
                field: field@,
                message: message@,
            },
            McpConfigError::EmptyField { field } => ConfigErrorView::EmptyField { field: field@ },
            McpConfigError::FieldTooLong { field, length, maximum } =>
                ConfigErrorView::FieldTooLong {
                    field: field@,
                    length: length as nat,
                    maximum: maximum as nat,
                },
            McpConfigError::ControlCharacter { field } => ConfigErrorView::ControlCharacter {
                field: field@,
            },
            McpConfigError::TooManyArguments { count, maximum } =>
                ConfigErrorView::TooManyArguments { count: count as nat, maximum: maximum as nat },
            McpConfigError::TooManyEnvironmentEntries { count, maximum } =>
                ConfigErrorView::TooManyEnvironmentEntries {
                    count: count as nat,
                    maximum: maximum as nat,
                },
            McpConfigError::InvalidServerName { value } => ConfigErrorView::InvalidServerName {
                value: value@,
            },
            McpConfigError::InvalidEnvironmentKey { value } =>
                ConfigErrorView::InvalidEnvironmentKey { value: value@ },
            McpConfigError::InvalidEndpoint { value } => ConfigErrorView::InvalidEndpoint {
                value: value@,
            },
            McpConfigError::TooManyHeaders { count, maximum } => ConfigErrorView::TooManyHeaders {
                count: count as nat,
                maximum: maximum as nat,
            },
            McpConfigError::InvalidHeaderName { value } => ConfigErrorView::InvalidHeaderName {
                value: value@,
            },
            McpConfigError::ForbiddenHeader { value } => ConfigErrorView::ForbiddenHeader {
                value: value@,
            },
            McpConfigError::SecretHeaderMustUseReference { value } =>
                ConfigErrorView::SecretHeaderMustUseReference { value: value@ },
            McpConfigError::TooManySecretValues { count, maximum } =>
                ConfigErrorView::TooManySecretValues {
                    count: count as nat,
                    maximum: maximum as nat,
                },
            McpConfigError::InvalidSecretReference { value } =>
                ConfigErrorView::InvalidSecretReference { value: value@ },
            McpConfigError::MissingSecretValue { reference } =>
                ConfigErrorView::MissingSecretValue { reference: reference@ },
        }
    }
}

impl ConfigErrorView {
    /// The sentence shown to people.
    pub open spec fn text(self) -> Seq<char> {
        match self {
            ConfigErrorView::InvalidTransport { value } => "MCP transport `"@ + value
                + "` is unsupported; expected `stdio` or `http`"@,
            ConfigErrorView::MissingEnvironment { name } => "required environment variable "@
                + name + " is missing"@,
            ConfigErrorView::InvalidEnvironment { name, message } => "environment variable "@
                + name + " is invalid: "@ + message,
            ConfigErrorView::InvalidJson { field, message } => field + " contains invalid JSON: "@
                + message,
            ConfigErrorView::EmptyField { field } => field + " cannot be empty"@,
            ConfigErrorView::FieldTooLong { field, length, maximum } => field + " is "@
                + decimal_of(length) + " bytes; maximum is "@ + decimal_of(maximum),
            ConfigErrorView::ControlCharacter { field } => field + " contains a control character"@,
            ConfigErrorView::TooManyArguments { count, maximum } => "MCP command has "@
                + decimal_of(count) + " arguments; maximum is "@ + decimal_of(maximum),
            ConfigErrorView::TooManyEnvironmentEntries { count, maximum } =>
                "MCP child environment has "@
                + decimal_of(count) + " entries; maximum is "@ + decimal_of(maximum),
            ConfigErrorView::InvalidServerName { value } => "MCP server name `"@ + value
                + "` must contain only lowercase letters, digits, `-`, or `_`"@,
            ConfigErrorView::InvalidEnvironmentKey { value } => "MCP environment key `"@ + value
                + "` is invalid"@,
            ConfigErrorView::InvalidEndpoint { value } => "MCP HTTP endpoint is invalid: "@ + value,
            ConfigErrorView::TooManyHeaders { count, maximum } => "MCP HTTP configuration has "@
                + decimal_of(count) + " headers; maximum is "@ + decimal_of(maximum),
            ConfigErrorView::InvalidHeaderName { value } => "MCP HTTP header name `"@ + value
                + "` is invalid"@,
            ConfigErrorView::ForbiddenHeader { value } => "MCP HTTP header `"@ + value
                + "` cannot be overridden"@,
            ConfigErrorView::SecretHeaderMustUseReference { value } => "MCP HTTP header `"@
                + value + "` must use a secret reference"@,
            ConfigErrorView::TooManySecretValues { count, maximum } => "MCP configuration has "@
                + decimal_of(count) + " secret values; maximum is "@ + decimal_of(maximum),
            ConfigErrorView::InvalidSecretReference { value } => "MCP secret reference `"@ + value
                + "` is invalid"@,
            ConfigErrorView::MissingSecretValue { reference } => "MCP header references secret `"@
                + reference + "`, but no value was configured"@,
        }
    }
}

impl McpConfigError {
    /// The sentence shown to people.
    pub fn to_string(&self) -> (r: String)
        ensures
            r@ == self@.text(),
    {
        match self {
            McpConfigError::InvalidTransport { value } => text3(
                "MCP transport `",
                value.as_str(),
                "` is unsupported; expected `stdio` or `http`",
            ),
            McpConfigError::MissingEnvironment { name } => text3(
                "required environment variable ",
                name,
                " is missing",
            ),
            McpConfigError::InvalidEnvironment { name, message } => text4(
                "environment variable ",
                name,
                " is invalid: ",
                message.as_str(),
            ),
            McpConfigError::InvalidJson { field, message } => text3(
                field,
                " contains invalid JSON: ",
                message.as_str(),
            ),
            McpConfigError::EmptyField { field } => text2(field, " cannot be empty"),
            McpConfigError::FieldTooLong { field, length, maximum } => text5(
                field,
                " is ",
                decimal(*length as u64).as_str(),
                " bytes; maximum is ",
                decimal(*maximum as u64).as_str(),
            ),
            McpConfigError::ControlCharacter { field } => text2(
                field,
                " contains a control character",
            ),
            McpConfigError::TooManyArguments { count, maximum } => text4(
                "MCP command has ",
                decimal(*count as u64).as_str(),
                " arguments; maximum is ",
                decimal(*maximum as u64).as_str(),
            ),
            McpConfigError::TooManyEnvironmentEntries { count, maximum } => text4(
                "MCP child environment has ",
                decimal(*count as u64).as_str(),
                " entries; maximum is ",
                decimal(*maximum as u64).as_str(),
            ),
            McpConfigError::InvalidServerName { value } => text3(
                "MCP server name `",
                value.as_str(),
                "` must contain only lowercase letters, digits, `-`, or `_`",
            ),
            McpConfigError::InvalidEnvironmentKey { value } => text3(
                "MCP environment key `",
                value.as_str(),
                "` is invalid",
            ),
            McpConfigError::InvalidEndpoint { value } => text2(
                "MCP HTTP endpoint is invalid: ",
                value.as_str(),
            ),
            McpConfigError::TooManyHeaders { count, maximum } => text4(
                "MCP HTTP configuration has ",
                decimal(*count as u64).as_str(),
                " headers; maximum is ",
                decimal(*maximum as u64).as_str(),
            ),
            McpConfigError::InvalidHeaderName { value } => text3(
                "MCP HTTP header name `",
                value.as_str(),
                "` is invalid",
            ),
            McpConfigError::ForbiddenHeader { value } => text3(
                "MCP HTTP header `",
                value.as_str(),
                "` cannot be overridden",
            ),
            McpConfigError::SecretHeaderMustUseReference { value } => text3(
                "MCP HTTP header `",
                value.as_str(),
                "` must use a secret reference",
            ),
            McpConfigError::TooManySecretValues { count, maximum } => text4(
                "MCP configuration has ",
                decimal(*count as u64).as_str(),
                " secret values; maximum is ",
                decimal(*maximum as u64).as_str(),
            ),
            McpConfigError::InvalidSecretReference { value } => text3(
                "MCP secret reference `",
                value.as_str(),
                "` is invalid",
            ),
            McpConfigError::MissingSecretValue { reference } => text3(
                "MCP header references secret `",
                reference.as_str(),
                "`, but no value was configured",
            ),
        }
    }
}

} // verus!
