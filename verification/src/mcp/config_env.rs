//! The configuration of an MCP server as the environment gives it.
use vstd::prelude::*;
use vstd::utf8::encode_utf8;

use crate::json::{parse_json, parsed_json, Fields, Json, JsonView};
use crate::mcp::config::{
    checked, http_config, stdio_config, ConfigView, McpConfig, ARGS_ENV, CHILD_ENV_ENV,
    COMMAND_ENV, DEFAULT_SERVER_NAME, HTTP_ENDPOINT_ENV, HTTP_HEADERS_ENV, HTTP_SECRETS_ENV,
};
use crate::mcp::config_error::{ConfigErrorView, McpConfigError};
use crate::mcp::config_rules::{has_name, names, scope_problem, Entries};
use crate::text::{
    lower_of, str_eq, text3, texts, to_ascii_lowercase, to_bytes, trim, trim_of,
};
use crate::text_map::{lemma_text_entries, text_entries, with_entry, TextMap};

verus! {

/// An environment variable: not set, not readable as text, or a text.
#[derive(Clone, Debug)]
pub enum Variable {
    Absent,
    Invalid(String),
    Text(String),
}

/// The variables that configure a server.
#[derive(Clone, Debug)]
pub struct McpVariables {
    pub transport: Variable,
    pub command: Variable,
    pub arguments: Variable,
    pub name: Variable,
    pub child_environment: Variable,
    pub endpoint: Variable,
    pub headers: Variable,
    pub secrets: Variable,
    pub path: Variable,
}

// ---------------------------------------------------------------------------
// Values
// ---------------------------------------------------------------------------
/// The texts of an array of texts.
pub open spec fn arguments_of(value: JsonView) -> Result<Seq<Seq<char>>, Seq<char>> {
    match value {
        JsonView::Array(items) => if forall|k: int|
            0 <= k < items.len() ==> (#[trigger] items[k]) is Text {
            Ok(Seq::new(items.len(), |k: int| items[k]->Text_0))
        } else {
            Err("every argument must be a string"@)
        },
        _ => Err("expected a JSON array of strings"@),
    }
}

/// Reads an array of texts.
pub fn read_arguments(value: &Json) -> (r: Result<Vec<String>, String>)
    ensures
        match arguments_of(value@) {
            Ok(arguments) => r is Ok && texts(r->Ok_0@) == arguments,
            Err(message) => r is Err && r->Err_0@ == message,
        },
{
    let items = match value {
        Json::Array(items) => items,
        _ => return Err("expected a JSON array of strings".to_owned()),
    };
    let ghost all = value@->Array_0;
    let n: usize = items.len();
    let mut out: Vec<String> = Vec::new();
    let mut i: usize = 0;
    while i < n
        invariant
            *value == Json::Array(*items),
            all == value@->Array_0,
            n == items@.len(),
            i <= n,
            out@.len() == i,
            forall|k: int|
                0 <= k < i ==> (#[trigger] all[k]) is Text && out@[k]@ == all[k]->Text_0,
        decreases n - i,
    {
        assert(all[i as int] == items@[i as int]@);
        match &items[i] {
            Json::Text(text) => {
                out.push(text.clone());
            },
            _ => {
                assert(!(all[i as int] is Text));
                return Err("every argument must be a string".to_owned());
            },
        }
        i += 1;
    }
    assert(texts(out@) =~= Seq::new(all.len(), |k: int| all[k]->Text_0));
    Ok(out)
}

/// The entries that the fields from the `i`th on add.
pub open spec fn entries_from(fields: Fields, i: int, entries: Entries) -> Result<Entries, Seq<char>>
    decreases fields.len() - i,
{
    if i >= fields.len() {
        Ok(entries)
    } else {
        match fields[i].1 {
            JsonView::Text(text) => entries_from(
                fields,
                i + 1,
                with_entry(entries, fields[i].0, text),
            ),
            _ => Err("environment value `"@ + fields[i].0 + "` must be a string"@),
        }
    }
}

/// The entries of an object of texts.
pub open spec fn entries_of(value: JsonView) -> Result<Entries, Seq<char>> {
    match value {
        JsonView::Object(fields) => entries_from(fields, 0, Seq::empty()),
        _ => Err("expected a JSON object mapping names to strings"@),
    }
}

/// Reads an object of texts.
pub fn read_entries(value: &Json) -> (r: Result<TextMap<String>, String>)
    ensures
        match entries_of(value@) {
            Ok(entries) => r is Ok && text_entries(r->Ok_0) == entries,
            Err(message) => r is Err && r->Err_0@ == message,
        },
{
    let fields = match value {
        Json::Object(fields) => fields,
        _ => return Err("expected a JSON object mapping names to strings".to_owned()),
    };
    let ghost all = value@->Object_0;
    let n: usize = fields.len();
    let mut out: TextMap<String> = TextMap::new();
    let mut i: usize = 0;
    assert(text_entries(out) =~= Seq::<(Seq<char>, Seq<char>)>::empty());
    while i < n
        invariant
            *value == Json::Object(*fields),
            all == value@->Object_0,
            n == fields@.len(),
            i <= n,
            entries_of(value@) == entries_from(all, i as int, text_entries(out)),
        decreases n - i,
    {
        assert(all[i as int] == (fields@[i as int].0@, fields@[i as int].1@));
        match &fields[i].1 {
            Json::Text(text) => {
                let ghost before = out.entries();
                let value = text.clone();
                out.insert(fields[i].0.clone(), value);
                proof {
                    lemma_text_entries(before, fields@[i as int].0@, value);
                }
            },
            _ => {
                return Err(
                    text3("environment value `", fields[i].0.as_str(), "` must be a string"),
                );
            },
        }
        i += 1;
    }
    Ok(out)
}

pub open spec fn parsed_arguments(raw: Seq<char>) -> Result<Seq<Seq<char>>, ConfigErrorView> {
    match parsed_json(encode_utf8(raw)) {
        Err(message) => Err(ConfigErrorView::InvalidJson { field: ARGS_ENV@, message }),
        Ok(value) => match arguments_of(value) {
            Ok(arguments) => Ok(arguments),
            Err(message) => Err(ConfigErrorView::InvalidJson { field: ARGS_ENV@, message }),
        },
    }
}

pub fn parse_arguments(raw: &str) -> (r: Result<Vec<String>, McpConfigError>)
    ensures
        match parsed_arguments(raw@) {
            Ok(arguments) => r is Ok && texts(r->Ok_0@) == arguments,
            Err(error) => r is Err && r->Err_0@ == error,
        },
{
    let bytes = to_bytes(raw);
    let value = match parse_json(bytes.as_slice()) {
        Ok(value) => value,
        Err(message) => return Err(McpConfigError::InvalidJson { field: ARGS_ENV, message }),
    };
    match read_arguments(&value) {
        Ok(arguments) => Ok(arguments),
        Err(message) => Err(McpConfigError::InvalidJson { field: ARGS_ENV, message }),
    }
}

pub open spec fn parsed_entries(raw: Seq<char>, field: Seq<char>) -> Result<
    Entries,
    ConfigErrorView,
> {
    match parsed_json(encode_utf8(raw)) {
        Err(message) => Err(ConfigErrorView::InvalidJson { field, message }),
        Ok(value) => match entries_of(value) {
            Ok(entries) => Ok(entries),
            Err(message) => Err(ConfigErrorView::InvalidJson { field, message }),
        },
    }
}

pub fn parse_string_map(raw: &str, field: &'static str) -> (r: Result<
    TextMap<String>,
    McpConfigError,
>)
    ensures
        match parsed_entries(raw@, field@) {
            Ok(entries) => r is Ok && text_entries(r->Ok_0) == entries,
            Err(error) => r is Err && r->Err_0@ == error,
        },
{
    let bytes = to_bytes(raw);
    let value = match parse_json(bytes.as_slice()) {
        Ok(value) => value,
        Err(message) => return Err(McpConfigError::InvalidJson { field, message }),
    };
    match read_entries(&value) {
        Ok(entries) => Ok(entries),
        Err(message) => Err(McpConfigError::InvalidJson { field, message }),
    }
}

pub fn parse_environment(raw: &str) -> (r: Result<TextMap<String>, McpConfigError>)
    ensures
        match parsed_entries(raw@, CHILD_ENV_ENV@) {
            Ok(entries) => r is Ok && text_entries(r->Ok_0) == entries,
            Err(error) => r is Err && r->Err_0@ == error,
        },
{
    parse_string_map(raw, CHILD_ENV_ENV)
}

// ---------------------------------------------------------------------------
// Variables
// ---------------------------------------------------------------------------
/// The text of a variable, or else another text.
pub open spec fn text_or(variable: Variable, otherwise: Seq<char>) -> Seq<char> {
    match variable {
        Variable::Text(text) => text@,
        _ => otherwise,
    }
}

fn read_or(variable: &Variable, otherwise: &str) -> (r: String)
    ensures
        r@ == text_or(*variable, otherwise@),
{
    match variable {
        Variable::Text(text) => text.clone(),
        _ => otherwise.to_owned(),
    }
}

/// The text of a variable that has to be set.
pub open spec fn required(variable: Variable, name: Seq<char>) -> Result<
    Seq<char>,
    ConfigErrorView,
> {
    match variable {
        Variable::Text(text) => Ok(text@),
        _ => Err(ConfigErrorView::MissingEnvironment { name }),
    }
}

fn read_required(variable: &Variable, name: &'static str) -> (r: Result<String, McpConfigError>)
    ensures
        match required(*variable, name@) {
            Ok(text) => r is Ok && r->Ok_0@ == text,
            Err(error) => r is Err && r->Err_0@ == error,
        },
{
    match variable {
        Variable::Text(text) => Ok(text.clone()),
        _ => Err(McpConfigError::MissingEnvironment { name }),
    }
}

/// The arguments that a variable gives; a variable that is not set or blank gives none.
pub open spec fn arguments_in(variable: Variable) -> Result<Seq<Seq<char>>, ConfigErrorView> {
    match variable {
        Variable::Absent => Ok(Seq::empty()),
        Variable::Invalid(message) => Err(
            ConfigErrorView::InvalidEnvironment { name: ARGS_ENV@, message: message@ },
        ),
        Variable::Text(text) => if trim_of(text@).len() == 0 {
            Ok(Seq::empty())
        } else {
            parsed_arguments(text@)
        },
    }
}

fn arguments_from(variable: &Variable) -> (r: Result<Vec<String>, McpConfigError>)
    ensures
        match arguments_in(*variable) {
            Ok(arguments) => r is Ok && texts(r->Ok_0@) == arguments,
            Err(error) => r is Err && r->Err_0@ == error,
        },
{
    let none: Vec<String> = Vec::new();
    assert(texts(none@) =~= Seq::<Seq<char>>::empty());
    match variable {
        Variable::Absent => Ok(none),
        Variable::Invalid(message) => Err(
            McpConfigError::InvalidEnvironment { name: ARGS_ENV, message: message.clone() },
        ),
        Variable::Text(text) => {
            if trim(text.as_str()).is_empty() {
                Ok(none)
            } else {
                parse_arguments(text.as_str())
            }
        },
    }
}

/// The entries that a variable gives; a variable that is not set or blank gives none.
pub open spec fn entries_in(variable: Variable, name: Seq<char>) -> Result<
    Entries,
    ConfigErrorView,
> {
    match variable {
        Variable::Absent => Ok(Seq::empty()),
        Variable::Invalid(message) => Err(
            ConfigErrorView::InvalidEnvironment { name, message: message@ },
        ),
        Variable::Text(text) => if trim_of(text@).len() == 0 {
            Ok(Seq::empty())
        } else {
            parsed_entries(text@, name)
        },
    }
}

fn entries_from_variable(variable: &Variable, name: &'static str) -> (r: Result<
    TextMap<String>,
    McpConfigError,
>)
    ensures
        match entries_in(*variable, name@) {
            Ok(entries) => r is Ok && text_entries(r->Ok_0) == entries,
            Err(error) => r is Err && r->Err_0@ == error,
        },
{
    let none: TextMap<String> = TextMap::new();
    assert(text_entries(none) =~= Seq::<(Seq<char>, Seq<char>)>::empty());
    match variable {
        Variable::Absent => Ok(none),
        Variable::Invalid(message) => Err(
            McpConfigError::InvalidEnvironment { name, message: message.clone() },
        ),
        Variable::Text(text) => {
            if trim(text.as_str()).is_empty() {
                Ok(none)
            } else {
                parse_string_map(text.as_str(), name)
            }
        },
    }
}

/// The child's variables: those that are configured, and the search path unless they have it.
pub open spec fn with_path(environment: Entries, path: Variable) -> Entries {
    match path {
        Variable::Text(text) => if names(environment, "PATH"@) {
            environment
        } else {
            with_entry(environment, "PATH"@, text@)
        },
        _ => environment,
    }
}

/// The configuration that the variables of a child process add up to.
pub open spec fn stdio_variables(variables: McpVariables) -> Result<ConfigView, ConfigErrorView> {
    match required(variables.command, COMMAND_ENV@) {
        Err(error) => Err(error),
        Ok(command) => match arguments_in(variables.arguments) {
            Err(error) => Err(error),
            Ok(arguments) => match entries_in(variables.child_environment, CHILD_ENV_ENV@) {
                Err(error) => Err(error),
                Ok(environment) => Ok(
                    stdio_config(
                        command,
                        arguments,
                        text_or(variables.name, DEFAULT_SERVER_NAME@),
                        with_path(environment, variables.path),
                    ),
                ),
            },
        },
    }
}

/// The configuration that the variables of an HTTP endpoint add up to.
pub open spec fn http_variables(variables: McpVariables) -> Result<ConfigView, ConfigErrorView> {
    match required(variables.endpoint, HTTP_ENDPOINT_ENV@) {
        Err(error) => Err(error),
        Ok(endpoint) => match entries_in(variables.headers, HTTP_HEADERS_ENV@) {
            Err(error) => Err(error),
            Ok(headers) => match entries_in(variables.secrets, HTTP_SECRETS_ENV@) {
                Err(error) => Err(error),
                Ok(secrets) => Ok(
                    http_config(
                        endpoint,
                        text_or(variables.name, DEFAULT_SERVER_NAME@),
                        headers,
                        secrets,
                    ),
                ),
            },
        },
    }
}

/// The configuration that the variables add up to.
pub open spec fn configured(variables: McpVariables) -> Result<ConfigView, ConfigErrorView> {
    let transport = text_or(variables.transport, "stdio"@);
    let kind = lower_of(trim_of(transport));
    if kind == "stdio"@ {
        stdio_variables(variables)
    } else if kind == "http"@ || kind == "https"@ || kind == "streamable-http"@ {
        http_variables(variables)
    } else {
        Err(ConfigErrorView::InvalidTransport { value: transport })
    }
}

impl McpConfig {
    /// The configuration that the environment gives. `scope` tells whether a network scope
    /// could be had from an HTTP endpoint, and why not.
    pub fn from_env(variables: &McpVariables, scope: Result<(), String>) -> (r: Result<
        Self,
        McpConfigError,
    >)
        ensures
            match configured(*variables) {
                Ok(config) => checked(r, config, scope_problem(scope)),
                Err(error) => r is Err && r->Err_0@ == error,
            },
    {
        let transport = read_or(&variables.transport, "stdio");
        let kind = to_ascii_lowercase(trim(transport.as_str()));
        let kind = kind.as_str();
        if str_eq(kind, "stdio") {
            Self::from_stdio_env(variables)
        } else if str_eq(kind, "http") || str_eq(kind, "https") || str_eq(kind, "streamable-http") {
            Self::from_http_env(variables, scope)
        } else {
            Err(McpConfigError::InvalidTransport { value: transport })
        }
    }

    fn from_stdio_env(variables: &McpVariables) -> (r: Result<Self, McpConfigError>)
        ensures
            match stdio_variables(*variables) {
                Ok(config) => checked(r, config, None),
                Err(error) => r is Err && r->Err_0@ == error,
            },
    {
        let command = read_required(&variables.command, COMMAND_ENV)?;
        let arguments = arguments_from(&variables.arguments)?;
        let server_name = read_or(&variables.name, DEFAULT_SERVER_NAME);
        let mut environment = entries_from_variable(&variables.child_environment, CHILD_ENV_ENV)?;
        let ghost given = text_entries(environment);
        let known = has_name(&environment, "PATH");
        if !known {
            if let Variable::Text(path) = &variables.path {
                let ghost before = environment.entries();
                let value = path.clone();
                environment.insert("PATH".to_owned(), value);
                proof {
                    lemma_text_entries(before, "PATH"@, value);
                }
            }
        }
        assert(text_entries(environment) == with_path(given, variables.path));
        Self::new(command.as_str(), arguments, server_name.as_str(), environment)
    }

    fn from_http_env(variables: &McpVariables, scope: Result<(), String>) -> (r: Result<
        Self,
        McpConfigError,
    >)
        ensures
            match http_variables(*variables) {
                Ok(config) => checked(r, config, scope_problem(scope)),
                Err(error) => r is Err && r->Err_0@ == error,
            },
    {
        let endpoint = read_required(&variables.endpoint, HTTP_ENDPOINT_ENV)?;
        let server_name = read_or(&variables.name, DEFAULT_SERVER_NAME);
        let headers = entries_from_variable(&variables.headers, HTTP_HEADERS_ENV)?;
        let secrets = entries_from_variable(&variables.secrets, HTTP_SECRETS_ENV)?;
        Self::http_with_secrets(
            endpoint.as_str(),
            scope,
            server_name.as_str(),
            headers,
            secrets,
        )
    }
}

} // verus!
