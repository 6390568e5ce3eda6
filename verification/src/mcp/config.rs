//! The explicit configuration of one external MCP server.
use vstd::prelude::*;
use vstd::string::StringExecFns;

use crate::mcp::config_error::{ConfigErrorView, McpConfigError};
use crate::mcp::config_rules::{
    arguments_problem, endpoint_problem, environment_problem, find_missing_secret, find_value,
    header_problem,
    headers_problem, headers_problem_from, is_credential_header, missing_secret, names, reference_of, scope_problem, secret_reference, secrets_problem,
    server_name_problem, text_problem, validate_arguments, validate_endpoint, validate_environment,
    validate_headers, validate_secret_values, validate_server_name, validate_text, value_of, Entries,
    MAX_ARGUMENTS, MAX_COMMAND_BYTES,
};
use crate::text::{join, join_of, quoted, quoted_text, texts};
use crate::text_map::{text_entries, TextMap};

verus! {

pub const TRANSPORT_ENV: &'static str = "YUNXI_NEXT_MCP_TRANSPORT";

pub const COMMAND_ENV: &'static str = "YUNXI_NEXT_MCP_COMMAND";

pub const ARGS_ENV: &'static str = "YUNXI_NEXT_MCP_ARGS_JSON";

pub const NAME_ENV: &'static str = "YUNXI_NEXT_MCP_NAME";

pub const CHILD_ENV_ENV: &'static str = "YUNXI_NEXT_MCP_ENV_JSON";

pub const HTTP_ENDPOINT_ENV: &'static str = "YUNXI_NEXT_MCP_URL";

pub const HTTP_HEADERS_ENV: &'static str = "YUNXI_NEXT_MCP_HEADERS_JSON";

pub const HTTP_SECRETS_ENV: &'static str = "YUNXI_NEXT_MCP_SECRETS_JSON";

pub const NETWORK_GRANT_ENV: &'static str = "YUNXI_NEXT_MCP_NETWORK_GRANT_JSON";

pub const SECRET_GRANT_ENV: &'static str = "YUNXI_NEXT_MCP_SECRET_GRANT_JSON";

pub const SECRET_REFERENCE_PREFIX: &'static str = "secret://";

pub const DEFAULT_SERVER_NAME: &'static str = "default";

#[derive(Clone, Copy, Debug, PartialEq, Eq, Structural)]
pub enum McpTransportKind {
    Stdio,
    Http,
}

#[derive(Debug)]
enum McpTransportConfig {
    Stdio,
    Http { endpoint: String, headers: TextMap<String>, secret_values: TextMap<String> },
}

pub enum TransportView {
    Stdio,
    Http { endpoint: Seq<char>, headers: Entries, secret_values: Entries },
}

/// How one server is reached: as a child process, or over HTTP.
pub struct McpConfig {
    command: String,
    arguments: Vec<String>,
    server_name: String,
    environment: TextMap<String>,
    transport: McpTransportConfig,
}

pub struct ConfigView {
    pub command: Seq<char>,
    pub arguments: Seq<Seq<char>>,
    pub server_name: Seq<char>,
    pub environment: Entries,
    pub transport: TransportView,
}

impl View for McpConfig {
    type V = ConfigView;

    closed spec fn view(&self) -> ConfigView {
        ConfigView {
            command: self.command@,
            arguments: texts(self.arguments@),
            server_name: self.server_name@,
            environment: text_entries(self.environment),
            transport: match self.transport {
                McpTransportConfig::Stdio => TransportView::Stdio,
                McpTransportConfig::Http { endpoint, headers, secret_values } =>
                    TransportView::Http {
                        endpoint: endpoint@,
                        headers: text_entries(headers),
                        secret_values: text_entries(secret_values),
                    },
            },
        }
    }
}

/// What is wrong with a configuration. `scope` says why no network scope could be had from an
/// HTTP endpoint.
pub open spec fn config_problem(config: ConfigView, scope: Option<Seq<char>>) -> Option<
    ConfigErrorView,
> {
    match server_name_problem(config.server_name) {
        Some(error) => Some(error),
        None => match config.transport {
            TransportView::Stdio => match text_problem(
                "MCP command"@,
                config.command,
                MAX_COMMAND_BYTES as nat,
                true,
            ) {
                Some(error) => Some(error),
                None => if config.arguments.len() > MAX_ARGUMENTS {
                    Some(
                        ConfigErrorView::TooManyArguments {
                            count: config.arguments.len(),
                            maximum: MAX_ARGUMENTS as nat,
                        },
                    )
                } else {
                    match arguments_problem(config.arguments, 0) {
                        Some(error) => Some(error),
                        None => environment_problem(config.environment),
                    }
                },
            },
            TransportView::Http { endpoint, headers, secret_values } => match endpoint_problem(
                endpoint,
                scope,
            ) {
                Some(error) => Some(error),
                None => match headers_problem(headers) {
                    Some(error) => Some(error),
                    None => match secrets_problem(secret_values) {
                        Some(error) => Some(error),
                        None => missing_secret(headers, secret_values, 0),
                    },
                },
            },
        },
    }
}

/// The configuration of a child process.
pub open spec fn stdio_config(
    command: Seq<char>,
    arguments: Seq<Seq<char>>,
    server_name: Seq<char>,
    environment: Entries,
) -> ConfigView {
    ConfigView { command, arguments, server_name, environment, transport: TransportView::Stdio }
}

/// The configuration of an HTTP endpoint.
pub open spec fn http_config(
    endpoint: Seq<char>,
    server_name: Seq<char>,
    headers: Entries,
    secret_values: Entries,
) -> ConfigView {
    ConfigView {
        command: Seq::empty(),
        arguments: Seq::empty(),
        server_name,
        environment: Seq::empty(),
        transport: TransportView::Http { endpoint, headers, secret_values },
    }
}

/// A checked configuration, or what is wrong with it.
pub open spec fn checked(
    r: Result<McpConfig, McpConfigError>,
    config: ConfigView,
    scope: Option<Seq<char>>,
) -> bool {
    match config_problem(config, scope) {
        Some(error) => r is Err && r->Err_0@ == error,
        None => r is Ok && r->Ok_0@ == config,
    }
}

impl McpConfig {
    pub fn new(
        command: &str,
        arguments: Vec<String>,
        server_name: &str,
        environment: TextMap<String>,
    ) -> (r: Result<Self, McpConfigError>)
        ensures
            checked(
                r,
                stdio_config(
                    command@,
                    texts(arguments@),
                    server_name@,
                    text_entries(environment),
                ),
                None,
            ),
    {
        let config = McpConfig {
            command: command.to_owned(),
            arguments,
            server_name: server_name.to_owned(),
            environment,
            transport: McpTransportConfig::Stdio,
        };
        config.validate(&Ok(()))?;
        Ok(config)
    }

    /// A server at an endpoint. `scope` tells whether a network scope could be had from the
    /// endpoint, and why not.
    pub fn http(
        endpoint: &str,
        scope: Result<(), String>,
        server_name: &str,
        headers: TextMap<String>,
    ) -> (r: Result<Self, McpConfigError>)
        ensures
            checked(
                r,
                http_config(endpoint@, server_name@, text_entries(headers), Seq::empty()),
                scope_problem(scope),
            ),
    {
        let secret_values: TextMap<String> = TextMap::new();
        assert(text_entries(secret_values) =~= Seq::<(Seq<char>, Seq<char>)>::empty());
        Self::http_with_secrets(endpoint, scope, server_name, headers, secret_values)
    }

    /// A server at an endpoint, with the values of the secrets that its headers refer to.
    pub fn http_with_secrets(
        endpoint: &str,
        scope: Result<(), String>,
        server_name: &str,
        headers: TextMap<String>,
        secret_values: TextMap<String>,
    ) -> (r: Result<Self, McpConfigError>)
        ensures
            checked(
                r,
                http_config(
                    endpoint@,
                    server_name@,
                    text_entries(headers),
                    text_entries(secret_values),
                ),
                scope_problem(scope),
            ),
    {
        let config = McpConfig {
            command: String::new(),
            arguments: Vec::new(),
            server_name: server_name.to_owned(),
            environment: TextMap::new(),
            transport: McpTransportConfig::Http {
                endpoint: endpoint.to_owned(),
                headers,
                secret_values,
            },
        };
        assert(config@.arguments =~= Seq::<Seq<char>>::empty());
        assert(config@.environment =~= Seq::<(Seq<char>, Seq<char>)>::empty());
        config.validate(&scope)?;
        Ok(config)
    }

    fn validate(&self, scope: &Result<(), String>) -> (r: Result<(), McpConfigError>)
        ensures
            match config_problem(self@, scope_problem(*scope)) {
                None => r is Ok,
                Some(error) => r is Err && r->Err_0@ == error,
            },
    {
        validate_server_name(self.server_name.as_str())?;
        match &self.transport {
            McpTransportConfig::Stdio => {
                validate_text("MCP command", self.command.as_str(), MAX_COMMAND_BYTES, true)?;
                if self.arguments.len() > MAX_ARGUMENTS {
                    return Err(
                        McpConfigError::TooManyArguments {
                            count: self.arguments.len(),
                            maximum: MAX_ARGUMENTS,
                        },
                    );
                }
                validate_arguments(&self.arguments)?;
                validate_environment(&self.environment)
            },
            McpTransportConfig::Http { endpoint, headers, secret_values } => {
                validate_endpoint(endpoint.as_str(), scope)?;
                validate_headers(headers)?;
                validate_secret_values(secret_values)?;
                find_missing_secret(headers, secret_values)
            },
        }
    }

    pub fn command(&self) -> (r: &str)
        ensures
            r@ == self@.command,
    {
        self.command.as_str()
    }

    pub fn arguments(&self) -> (r: &Vec<String>)
        ensures
            texts(r@) == self@.arguments,
    {
        &self.arguments
    }

    pub fn server_name(&self) -> (r: &str)
        ensures
            r@ == self@.server_name,
    {
        self.server_name.as_str()
    }

    pub fn environment(&self) -> (r: &TextMap<String>)
        ensures
            text_entries(*r) == self@.environment,
    {
        &self.environment
    }

    pub fn transport_kind(&self) -> (r: McpTransportKind)
        ensures
            r == kind_of(self@.transport),
    {
        match &self.transport {
            McpTransportConfig::Stdio => McpTransportKind::Stdio,
            McpTransportConfig::Http { .. } => McpTransportKind::Http,
        }
    }

    pub fn endpoint(&self) -> (r: Option<&str>)
        ensures
            match self@.transport {
                TransportView::Stdio => r is None,
                TransportView::Http { endpoint, .. } => r is Some && r->0@ == endpoint,
            },
    {
        match &self.transport {
            McpTransportConfig::Stdio => None,
            McpTransportConfig::Http { endpoint, .. } => Some(endpoint.as_str()),
        }
    }

    pub fn http_headers(&self) -> (r: Option<&TextMap<String>>)
        ensures
            match self@.transport {
                TransportView::Stdio => r is None,
                TransportView::Http { headers, .. } => r is Some && text_entries(*r->0) == headers,
            },
    {
        match &self.transport {
            McpTransportConfig::Stdio => None,
            McpTransportConfig::Http { headers, .. } => Some(headers),
        }
    }

    /// The value of a secret, if one is configured.
    pub fn secret_value(&self, reference: &str) -> (r: Option<&str>)
        ensures
            match self@.transport {
                TransportView::Stdio => r is None,
                TransportView::Http { secret_values, .. } => match value_of(
                    secret_values,
                    reference@,
                ) {
                    Some(value) => r is Some && r->0@ == value,
                    None => r is None,
                },
            },
    {
        match &self.transport {
            McpTransportConfig::Stdio => None,
            McpTransportConfig::Http { secret_values, .. } => find_value(secret_values, reference),
        }
    }

    /// The secrets that the headers refer to, in the order of the headers.
    pub fn secret_references(&self) -> (r: Vec<String>)
        ensures
            texts(r@) == match self@.transport {
                TransportView::Stdio => Seq::empty(),
                TransportView::Http { headers, .. } => references_in(headers),
            },
    {
        let mut out: Vec<String> = Vec::new();
        assert(texts(out@) =~= Seq::<Seq<char>>::empty());
        if let McpTransportConfig::Http { headers, .. } = &self.transport {
            let n: usize = headers.len();
            let ghost entries = text_entries(*headers);
            let mut i: usize = 0;
            assert(entries.take(0) =~= Seq::<(Seq<char>, Seq<char>)>::empty());
            while i < n
                invariant
                    n == headers.entries().len(),
                    i <= n,
                    entries == text_entries(*headers),
                    texts(out@) == references_in(entries.take(i as int)),
                decreases n - i,
            {
                proof {
                    assert(entries.take(i + 1).drop_last() =~= entries.take(i as int));
                    assert(entries.take(i + 1).last() == entries[i as int]);
                }
                if let Some(reference) = secret_reference(headers.value_at(i).as_str()) {
                    let ghost before = out@;
                    out.push(reference.to_owned());
                    assert(texts(out@) =~= texts(before).push(reference@));
                }
                i += 1;
            }
            assert(entries.take(n as int) =~= entries);
        }
        out
    }
}

pub open spec fn kind_of(transport: TransportView) -> McpTransportKind {
    match transport {
        TransportView::Stdio => McpTransportKind::Stdio,
        TransportView::Http { .. } => McpTransportKind::Http,
    }
}

/// The references that headers hold, in their order.
pub open spec fn references_in(headers: Entries) -> Seq<Seq<char>>
    decreases headers.len(),
{
    if headers.len() == 0 {
        Seq::empty()
    } else {
        match reference_of(headers.last().1) {
            Some(reference) => references_in(headers.drop_last()).push(reference),
            None => references_in(headers.drop_last()),
        }
    }
}

// ---------------------------------------------------------------------------
// How a configuration is shown
// ---------------------------------------------------------------------------
/// The names, in quotes and parted by commas.
pub open spec fn quoted_names(entries: Entries) -> Seq<Seq<char>> {
    Seq::new(entries.len(), |k: int| quoted_text(entries[k].0))
}

pub open spec fn quoted_texts(items: Seq<Seq<char>>) -> Seq<Seq<char>> {
    Seq::new(items.len(), |k: int| quoted_text(items[k]))
}

/// How a configuration is shown: the names of its variables, headers and secrets, and none of
/// their values.
pub open spec fn debug_of(config: ConfigView) -> Seq<char> {
    match config.transport {
        TransportView::Stdio => "McpConfig { transport: Stdio, server_name: "@ + quoted_text(
            config.server_name,
        ) + ", command: "@ + quoted_text(config.command) + ", arguments: ["@ + join_of(
            quoted_texts(config.arguments),
            ", "@,
        ) + "], environment_keys: ["@ + join_of(quoted_names(config.environment), ", "@) + "] }"@,
        TransportView::Http { endpoint, headers, .. } =>
            "McpConfig { transport: Http, server_name: "@ + quoted_text(config.server_name)
            + ", endpoint: "@ + quoted_text(endpoint) + ", header_names: ["@ + join_of(
            quoted_names(headers),
            ", "@,
        ) + "], secret_values: \"<redacted>\" }"@,
    }
}

fn show_names(values: &TextMap<String>) -> (r: String)
    ensures
        r@ == join_of(quoted_names(text_entries(*values)), ", "@),
{
    let n: usize = values.len();
    let ghost entries = text_entries(*values);
    let mut shown: Vec<String> = Vec::new();
    let mut i: usize = 0;
    while i < n
        invariant
            n == values.entries().len(),
            i <= n,
            entries == text_entries(*values),
            shown@.len() == i,
            forall|k: int| 0 <= k < i ==> (#[trigger] shown@[k])@ == quoted_text(entries[k].0),
        decreases n - i,
    {
        shown.push(quoted(values.key_at(i)));
        i += 1;
    }
    assert(texts(shown@) =~= quoted_names(entries));
    join(shown.as_slice(), ", ")
}

fn show_texts(items: &Vec<String>) -> (r: String)
    ensures
        r@ == join_of(quoted_texts(texts(items@)), ", "@),
{
    let n: usize = items.len();
    let mut shown: Vec<String> = Vec::new();
    let mut i: usize = 0;
    while i < n
        invariant
            n == items@.len(),
            i <= n,
            shown@.len() == i,
            forall|k: int| 0 <= k < i ==> (#[trigger] shown@[k])@ == quoted_text(items@[k]@),
        decreases n - i,
    {
        shown.push(quoted(items[i].as_str()));
        i += 1;
    }
    assert(texts(shown@) =~= quoted_texts(texts(items@)));
    join(shown.as_slice(), ", ")
}

impl McpConfig {
    /// The configuration without the values that may be secret.
    pub fn to_debug_string(&self) -> (r: String)
        ensures
            r@ == debug_of(self@),
    {
        match &self.transport {
            McpTransportConfig::Stdio => {
                let mut out = "McpConfig { transport: Stdio, server_name: ".to_owned();
                out.append(quoted(self.server_name.as_str()).as_str());
                out.append(", command: ");
                out.append(quoted(self.command.as_str()).as_str());
                out.append(", arguments: [");
                out.append(show_texts(&self.arguments).as_str());
                out.append("], environment_keys: [");
                out.append(show_names(&self.environment).as_str());
                out.append("] }");
                out
            },
            McpTransportConfig::Http { endpoint, headers, .. } => {
                let mut out = "McpConfig { transport: Http, server_name: ".to_owned();
                out.append(quoted(self.server_name.as_str()).as_str());
                out.append(", endpoint: ");
                out.append(quoted(endpoint.as_str()).as_str());
                out.append(", header_names: [");
                out.append(show_names(headers).as_str());
                out.append("], secret_values: \"<redacted>\" }");
                out
            },
        }
    }
}

/// The entries have the same names, in the same order.
pub open spec fn same_names(a: Entries, b: Entries) -> bool {
    &&& a.len() == b.len()
    &&& forall|k: int| 0 <= k < a.len() ==> (#[trigger] a[k]).0 == b[k].0
}

/// Two configurations that differ only in the values of variables, headers and secrets are
/// shown alike: nothing of those values is shown.
pub proof fn lemma_values_are_not_shown(a: ConfigView, b: ConfigView)
    requires
        a.command == b.command,
        a.arguments == b.arguments,
        a.server_name == b.server_name,
        same_names(a.environment, b.environment),
        match (a.transport, b.transport) {
            (TransportView::Stdio, TransportView::Stdio) => true,
            (
                TransportView::Http { endpoint, headers, .. },
                TransportView::Http { endpoint: other, headers: others, .. },
            ) => endpoint == other && same_names(headers, others),
            _ => false,
        },
    ensures
        debug_of(a) == debug_of(b),
{
    assert(quoted_names(a.environment) =~= quoted_names(b.environment));
    if let TransportView::Http { headers, .. } = a.transport {
        assert(quoted_names(headers) =~= quoted_names(b.transport->headers));
    }
}

/// Every credential that an accepted configuration sends comes from a secret: such a header
/// holds a reference, and the reference has a value.
pub proof fn lemma_credentials_are_references(config: ConfigView, scope: Option<Seq<char>>, k: int)
    requires
        config_problem(config, scope) is None,
        config.transport is Http,
        0 <= k < config.transport->headers.len(),
        is_credential_header(config.transport->headers[k].0),
    ensures
        ({
            let reference = reference_of(config.transport->headers[k].1);
            &&& reference is Some
            &&& names(config.transport->secret_values, reference->0)
        }),
{
    let headers = config.transport->headers;
    let secrets = config.transport->secret_values;
    lemma_accepted_header(headers, 0, k);
    lemma_no_missing_secret(headers, secrets, 0, k);
}

proof fn lemma_accepted_header(headers: Entries, i: int, k: int)
    requires
        headers_problem_from(headers, i) is None,
        0 <= i <= k < headers.len(),
    ensures
        header_problem(headers[k].0, headers[k].1) is None,
    decreases k - i,
{
    if i < k {
        lemma_accepted_header(headers, i + 1, k);
    }
}

proof fn lemma_no_missing_secret(headers: Entries, secrets: Entries, i: int, k: int)
    requires
        missing_secret(headers, secrets, i) is None,
        0 <= i <= k < headers.len(),
    ensures
        reference_of(headers[k].1) is Some ==> names(secrets, reference_of(headers[k].1)->0),
    decreases k - i,
{
    if i < k {
        lemma_no_missing_secret(headers, secrets, i + 1, k);
    }
}

} // verus!
