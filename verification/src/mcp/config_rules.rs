//! The rules that every field of a server configuration keeps.
use vstd::prelude::*;

use crate::mcp::config_error::{ConfigErrorView, McpConfigError};
use crate::text::{
    any_control, byte_len, char_is_ascii_alnum, contains_char, has_control, is_ascii_alnum,
    is_ascii_digit, is_ascii_lower, lower_of, str_eq, strip_prefix,
    strip_prefix_of, texts, to_ascii_lowercase, to_chars, trim, trim_of,
    utf8_len,
};
use crate::text_map::{text_entries, TextMap};

verus! {

pub const MAX_COMMAND_BYTES: usize = 4096;

pub const MAX_ARGUMENTS: usize = 64;

pub const MAX_ARGUMENT_BYTES: usize = 16 * 1024;

pub const MAX_ENV_ENTRIES: usize = 64;

pub const MAX_ENV_KEY_BYTES: usize = 256;

pub const MAX_ENV_VALUE_BYTES: usize = 64 * 1024;

pub const MAX_ENDPOINT_BYTES: usize = 4096;

pub const MAX_HEADERS: usize = 64;

pub const MAX_HEADER_NAME_BYTES: usize = 256;

pub const MAX_HEADER_VALUE_BYTES: usize = 64 * 1024;

pub const MAX_SECRET_VALUES: usize = 64;

pub const MAX_SECRET_REFERENCE_BYTES: usize = 128;

pub const MAX_SERVER_NAME_BYTES: usize = 64;

/// Names and texts.
pub type Entries = Seq<(Seq<char>, Seq<char>)>;

// ---------------------------------------------------------------------------
// Single fields
// ---------------------------------------------------------------------------
/// Why a text does not do for a field: it is blank where it must not be, too long, or holds a
/// control character.
pub open spec fn text_problem(
    field: Seq<char>,
    value: Seq<char>,
    maximum: nat,
    reject_empty: bool,
) -> Option<ConfigErrorView> {
    if reject_empty && trim_of(value).len() == 0 {
        Some(ConfigErrorView::EmptyField { field })
    } else if utf8_len(value) > maximum {
        Some(ConfigErrorView::FieldTooLong { field, length: utf8_len(value), maximum })
    } else if has_control(value) {
        Some(ConfigErrorView::ControlCharacter { field })
    } else {
        None
    }
}

pub(crate) fn validate_text(field: &'static str, value: &str, maximum: usize, reject_empty: bool) -> (r:
    Result<(), McpConfigError>)
    ensures
        match text_problem(field@, value@, maximum as nat, reject_empty) {
            None => r is Ok,
            Some(error) => r is Err && r->Err_0@ == error,
        },
{
    if reject_empty && trim(value).is_empty() {
        return Err(McpConfigError::EmptyField { field });
    }
    let length: usize = byte_len(value);
    if length > maximum {
        return Err(McpConfigError::FieldTooLong { field, length, maximum });
    }
    if any_control(value) {
        return Err(McpConfigError::ControlCharacter { field });
    }
    Ok(())
}

/// Server names are made of these.
pub open spec fn is_server_name_char(c: char) -> bool {
    is_ascii_lower(c) || is_ascii_digit(c) || c == '-' || c == '_'
}

pub open spec fn server_name_problem(value: Seq<char>) -> Option<ConfigErrorView> {
    match text_problem("MCP server name"@, value, MAX_SERVER_NAME_BYTES as nat, true) {
        Some(error) => Some(error),
        None => if forall|k: int| 0 <= k < value.len() ==> is_server_name_char(#[trigger] value[k]) {
            None
        } else {
            Some(ConfigErrorView::InvalidServerName { value })
        },
    }
}

pub(crate) fn validate_server_name(value: &str) -> (r: Result<(), McpConfigError>)
    ensures
        match server_name_problem(value@) {
            None => r is Ok,
            Some(error) => r is Err && r->Err_0@ == error,
        },
{
    validate_text("MCP server name", value, MAX_SERVER_NAME_BYTES, true)?;
    let chars = to_chars(value);
    let mut i: usize = 0;
    while i < chars.len()
        invariant
            chars@ == value@,
            i <= chars@.len(),
            forall|k: int| 0 <= k < i ==> is_server_name_char(#[trigger] value@[k]),
            text_problem("MCP server name"@, value@, MAX_SERVER_NAME_BYTES as nat, true) is None,
        decreases chars@.len() - i,
    {
        let c = chars[i];
        if !('a' <= c && c <= 'z') && !('0' <= c && c <= '9') && c != '-' && c != '_' {
            assert(!is_server_name_char(value@[i as int]));
            return Err(McpConfigError::InvalidServerName { value: value.to_owned() });
        }
        i += 1;
    }
    Ok(())
}

pub open spec fn environment_key_problem(value: Seq<char>) -> Option<ConfigErrorView> {
    match text_problem("MCP environment key"@, value, MAX_ENV_KEY_BYTES as nat, true) {
        Some(error) => Some(error),
        None => if value.contains('=') {
            Some(ConfigErrorView::InvalidEnvironmentKey { value })
        } else {
            None
        },
    }
}

fn validate_environment_key(value: &str) -> (r: Result<(), McpConfigError>)
    ensures
        match environment_key_problem(value@) {
            None => r is Ok,
            Some(error) => r is Err && r->Err_0@ == error,
        },
{
    validate_text("MCP environment key", value, MAX_ENV_KEY_BYTES, true)?;
    if contains_char(value, '=') {
        return Err(McpConfigError::InvalidEnvironmentKey { value: value.to_owned() });
    }
    Ok(())
}

/// The characters of an HTTP token.
pub open spec fn is_header_char(c: char) -> bool {
    ||| is_ascii_alnum(c)
    ||| c == '!' || c == '#' || c == '$' || c == '%' || c == '&' || c == '\'' || c == '*' || c == '+'
    ||| c == '-' || c == '.' || c == '^' || c == '_' || c == '`' || c == '|' || c == '~'
}

fn is_header_name_character(c: char) -> (r: bool)
    ensures
        r == is_header_char(c),
{
    char_is_ascii_alnum(c) || c == '!' || c == '#' || c == '$' || c == '%' || c == '&' || c == '\''
        || c == '*' || c == '+' || c == '-' || c == '.' || c == '^' || c == '_' || c == '`' || c
        == '|' || c == '~'
}

/// Headers that belong to the transport.
pub open spec fn is_transport_header(name: Seq<char>) -> bool {
    let name = lower_of(name);
    name == "host"@ || name == "content-length"@ || name == "transfer-encoding"@
}

/// Headers whose values are credentials.
pub open spec fn is_credential_header(name: Seq<char>) -> bool {
    let name = lower_of(name);
    ||| name == "authorization"@
    ||| name == "cookie"@
    ||| name == "proxy-authorization"@
    ||| name == "set-cookie"@
    ||| name == "x-api-key"@
}

fn is_secret_header_name(value: &str) -> (r: bool)
    ensures
        r == is_credential_header(value@),
{
    let name = to_ascii_lowercase(value);
    let name = name.as_str();
    str_eq(name, "authorization") || str_eq(name, "cookie") || str_eq(name, "proxy-authorization")
        || str_eq(name, "set-cookie") || str_eq(name, "x-api-key")
}

pub open spec fn header_name_problem(value: Seq<char>) -> Option<ConfigErrorView> {
    match text_problem("MCP HTTP header name"@, value, MAX_HEADER_NAME_BYTES as nat, true) {
        Some(error) => Some(error),
        None => if !(forall|k: int| 0 <= k < value.len() ==> is_header_char(#[trigger] value[k])) {
            Some(ConfigErrorView::InvalidHeaderName { value })
        } else if is_transport_header(value) {
            Some(ConfigErrorView::ForbiddenHeader { value })
        } else {
            None
        },
    }
}

fn validate_header_name(value: &str) -> (r: Result<(), McpConfigError>)
    ensures
        match header_name_problem(value@) {
            None => r is Ok,
            Some(error) => r is Err && r->Err_0@ == error,
        },
{
    validate_text("MCP HTTP header name", value, MAX_HEADER_NAME_BYTES, true)?;
    let chars = to_chars(value);
    let mut i: usize = 0;
    while i < chars.len()
        invariant
            chars@ == value@,
            i <= chars@.len(),
            forall|k: int| 0 <= k < i ==> is_header_char(#[trigger] value@[k]),
            text_problem(
                "MCP HTTP header name"@,
                value@,
                MAX_HEADER_NAME_BYTES as nat,
                true,
            ) is None,
        decreases chars@.len() - i,
    {
        if !is_header_name_character(chars[i]) {
            assert(!is_header_char(value@[i as int]));
            return Err(McpConfigError::InvalidHeaderName { value: value.to_owned() });
        }
        i += 1;
    }
    let name = to_ascii_lowercase(value);
    let name = name.as_str();
    if str_eq(name, "host") || str_eq(name, "content-length") || str_eq(name, "transfer-encoding") {
        return Err(McpConfigError::ForbiddenHeader { value: value.to_owned() });
    }
    Ok(())
}

/// Secret references are made of these.
pub open spec fn is_reference_char(c: char) -> bool {
    is_ascii_alnum(c) || c == '.' || c == '_' || c == '-' || c == ':' || c == '/'
}

/// References start with a letter or a digit and are not too long.
pub open spec fn is_reference(value: Seq<char>) -> bool {
    &&& trim_of(value).len() > 0
    &&& utf8_len(value) <= MAX_SECRET_REFERENCE_BYTES
    &&& forall|k: int| 0 <= k < value.len() ==> is_reference_char(#[trigger] value[k])
    &&& value.len() > 0
    &&& is_ascii_alnum(value[0])
}

fn validate_secret_reference(value: &str) -> (r: Result<(), McpConfigError>)
    ensures
        r is Ok == is_reference(value@),
        r is Err ==> r->Err_0@ == (ConfigErrorView::InvalidSecretReference { value: value@ }),
{
    let mut fits = !trim(value).is_empty() && byte_len(value) <= MAX_SECRET_REFERENCE_BYTES;
    let chars = to_chars(value);
    let mut i: usize = 0;
    while i < chars.len() && fits
        invariant
            chars@ == value@,
            i <= chars@.len(),
            fits ==> trim_of(value@).len() > 0 && utf8_len(value@) <= MAX_SECRET_REFERENCE_BYTES,
            fits ==> forall|k: int| 0 <= k < i ==> is_reference_char(#[trigger] value@[k]),
            !fits ==> !is_reference(value@),
        decreases chars@.len() - i,
    {
        let c = chars[i];
        if !char_is_ascii_alnum(c) && c != '.' && c != '_' && c != '-' && c != ':' && c != '/' {
            assert(!is_reference_char(value@[i as int]));
            fits = false;
        }
        i += 1;
    }
    if fits && chars.len() > 0 && char_is_ascii_alnum(chars[0]) {
        Ok(())
    } else {
        Err(McpConfigError::InvalidSecretReference { value: value.to_owned() })
    }
}

/// The reference that a header value is, if it is one.
pub open spec fn reference_of(value: Seq<char>) -> Option<Seq<char>> {
    match strip_prefix_of(value, "secret://"@) {
        Some(reference) => if reference.len() > 0 {
            Some(reference)
        } else {
            None
        },
        None => None,
    }
}

pub fn secret_reference(value: &str) -> (r: Option<&str>)
    ensures
        match reference_of(value@) {
            Some(reference) => r is Some && r->0@ == reference,
            None => r is None,
        },
{
    match strip_prefix(value, "secret://") {
        Some(reference) => {
            if reference.is_empty() {
                None
            } else {
                Some(reference)
            }
        },
        None => None,
    }
}

/// Why an endpoint does not do. `scope` says why no network scope could be had from it.
pub open spec fn endpoint_problem(value: Seq<char>, scope: Option<Seq<char>>) -> Option<
    ConfigErrorView,
> {
    if utf8_len(value) > MAX_ENDPOINT_BYTES {
        Some(
            ConfigErrorView::FieldTooLong {
                field: "MCP HTTP endpoint"@,
                length: utf8_len(value),
                maximum: MAX_ENDPOINT_BYTES as nat,
            },
        )
    } else if value.contains('?') || value.contains('#') || value.contains('@') {
        Some(ConfigErrorView::InvalidEndpoint { value })
    } else {
        match scope {
            Some(message) => Some(ConfigErrorView::InvalidEndpoint { value: message }),
            None => None,
        }
    }
}

/// Why the network scope of an endpoint cannot be told, if it cannot.
pub open spec fn scope_problem(scope: Result<(), String>) -> Option<Seq<char>> {
    match scope {
        Ok(_) => None,
        Err(message) => Some(message@),
    }
}

pub(crate) fn validate_endpoint(value: &str, scope: &Result<(), String>) -> (r: Result<(), McpConfigError>)
    ensures
        match endpoint_problem(value@, scope_problem(*scope)) {
            None => r is Ok,
            Some(error) => r is Err && r->Err_0@ == error,
        },
{
    let length: usize = byte_len(value);
    if length > MAX_ENDPOINT_BYTES {
        return Err(
            McpConfigError::FieldTooLong {
                field: "MCP HTTP endpoint",
                length,
                maximum: MAX_ENDPOINT_BYTES,
            },
        );
    }
    if contains_char(value, '?') || contains_char(value, '#') || contains_char(value, '@') {
        return Err(McpConfigError::InvalidEndpoint { value: value.to_owned() });
    }
    match scope {
        Ok(_) => Ok(()),
        Err(message) => Err(McpConfigError::InvalidEndpoint { value: message.clone() }),
    }
}

// ---------------------------------------------------------------------------
// Lists and maps of fields
// ---------------------------------------------------------------------------
/// What is wrong with the arguments from the `i`th on.
pub open spec fn arguments_problem(arguments: Seq<Seq<char>>, i: int) -> Option<ConfigErrorView>
    decreases arguments.len() - i,
{
    if i >= arguments.len() {
        None
    } else {
        match text_problem("MCP argument"@, arguments[i], MAX_ARGUMENT_BYTES as nat, true) {
            Some(error) => Some(error),
            None => arguments_problem(arguments, i + 1),
        }
    }
}

pub(crate) fn validate_arguments(arguments: &Vec<String>) -> (r: Result<(), McpConfigError>)
    ensures
        match arguments_problem(texts(arguments@), 0) {
            None => r is Ok,
            Some(error) => r is Err && r->Err_0@ == error,
        },
{
    let n: usize = arguments.len();
    let mut i: usize = 0;
    while i < n
        invariant
            n == arguments@.len(),
            i <= n,
            arguments_problem(texts(arguments@), 0) == arguments_problem(
                texts(arguments@),
                i as int,
            ),
        decreases n - i,
    {
        validate_text("MCP argument", arguments[i].as_str(), MAX_ARGUMENT_BYTES, true)?;
        i += 1;
    }
    Ok(())
}

/// What is wrong with the variables from the `i`th on.
pub open spec fn variables_problem(entries: Entries, i: int) -> Option<ConfigErrorView>
    decreases entries.len() - i,
{
    if i >= entries.len() {
        None
    } else {
        match environment_key_problem(entries[i].0) {
            Some(error) => Some(error),
            None => match text_problem(
                "MCP environment value"@,
                entries[i].1,
                MAX_ENV_VALUE_BYTES as nat,
                false,
            ) {
                Some(error) => Some(error),
                None => variables_problem(entries, i + 1),
            },
        }
    }
}

pub open spec fn environment_problem(entries: Entries) -> Option<ConfigErrorView> {
    if entries.len() > MAX_ENV_ENTRIES {
        Some(
            ConfigErrorView::TooManyEnvironmentEntries {
                count: entries.len(),
                maximum: MAX_ENV_ENTRIES as nat,
            },
        )
    } else {
        variables_problem(entries, 0)
    }
}

pub(crate) fn validate_environment(environment: &TextMap<String>) -> (r: Result<(), McpConfigError>)
    ensures
        match environment_problem(text_entries(*environment)) {
            None => r is Ok,
            Some(error) => r is Err && r->Err_0@ == error,
        },
{
    let n: usize = environment.len();
    if n > MAX_ENV_ENTRIES {
        return Err(
            McpConfigError::TooManyEnvironmentEntries { count: n, maximum: MAX_ENV_ENTRIES },
        );
    }
    let ghost entries = text_entries(*environment);
    let mut i: usize = 0;
    while i < n
        invariant
            n == environment.entries().len(),
            i <= n,
            entries == text_entries(*environment),
            environment_problem(entries) == variables_problem(entries, i as int),
        decreases n - i,
    {
        validate_environment_key(environment.key_at(i))?;
        validate_text(
            "MCP environment value",
            environment.value_at(i).as_str(),
            MAX_ENV_VALUE_BYTES,
            false,
        )?;
        i += 1;
    }
    Ok(())
}

/// What is wrong with a header: its name, its value, or that it holds a credential as it is.
pub open spec fn header_problem(name: Seq<char>, value: Seq<char>) -> Option<ConfigErrorView> {
    match header_name_problem(name) {
        Some(error) => Some(error),
        None => match text_problem(
            "MCP HTTP header value"@,
            value,
            MAX_HEADER_VALUE_BYTES as nat,
            false,
        ) {
            Some(error) => Some(error),
            None => match reference_of(value) {
                Some(reference) => if is_reference(reference) {
                    None
                } else {
                    Some(ConfigErrorView::InvalidSecretReference { value: reference })
                },
                None => if is_credential_header(name) {
                    Some(ConfigErrorView::SecretHeaderMustUseReference { value: name })
                } else {
                    None
                },
            },
        },
    }
}

fn validate_header(name: &str, value: &str) -> (r: Result<(), McpConfigError>)
    ensures
        match header_problem(name@, value@) {
            None => r is Ok,
            Some(error) => r is Err && r->Err_0@ == error,
        },
{
    validate_header_name(name)?;
    validate_text("MCP HTTP header value", value, MAX_HEADER_VALUE_BYTES, false)?;
    match secret_reference(value) {
        Some(reference) => validate_secret_reference(reference),
        None => {
            if is_secret_header_name(name) {
                return Err(
                    McpConfigError::SecretHeaderMustUseReference { value: name.to_owned() },
                );
            }
            Ok(())
        },
    }
}

pub open spec fn headers_problem_from(entries: Entries, i: int) -> Option<ConfigErrorView>
    decreases entries.len() - i,
{
    if i >= entries.len() {
        None
    } else {
        match header_problem(entries[i].0, entries[i].1) {
            Some(error) => Some(error),
            None => headers_problem_from(entries, i + 1),
        }
    }
}

pub open spec fn headers_problem(entries: Entries) -> Option<ConfigErrorView> {
    if entries.len() > MAX_HEADERS {
        Some(
            ConfigErrorView::TooManyHeaders { count: entries.len(), maximum: MAX_HEADERS as nat },
        )
    } else {
        headers_problem_from(entries, 0)
    }
}

pub(crate) fn validate_headers(headers: &TextMap<String>) -> (r: Result<(), McpConfigError>)
    ensures
        match headers_problem(text_entries(*headers)) {
            None => r is Ok,
            Some(error) => r is Err && r->Err_0@ == error,
        },
{
    let n: usize = headers.len();
    if n > MAX_HEADERS {
        return Err(McpConfigError::TooManyHeaders { count: n, maximum: MAX_HEADERS });
    }
    let ghost entries = text_entries(*headers);
    let mut i: usize = 0;
    while i < n
        invariant
            n == headers.entries().len(),
            i <= n,
            entries == text_entries(*headers),
            headers_problem(entries) == headers_problem_from(entries, i as int),
        decreases n - i,
    {
        validate_header(headers.key_at(i), headers.value_at(i).as_str())?;
        i += 1;
    }
    Ok(())
}

pub open spec fn secrets_problem_from(entries: Entries, i: int) -> Option<ConfigErrorView>
    decreases entries.len() - i,
{
    if i >= entries.len() {
        None
    } else if !is_reference(entries[i].0) {
        Some(ConfigErrorView::InvalidSecretReference { value: entries[i].0 })
    } else {
        match text_problem("MCP secret value"@, entries[i].1, MAX_ENV_VALUE_BYTES as nat, true) {
            Some(error) => Some(error),
            None => secrets_problem_from(entries, i + 1),
        }
    }
}

pub open spec fn secrets_problem(entries: Entries) -> Option<ConfigErrorView> {
    if entries.len() > MAX_SECRET_VALUES {
        Some(
            ConfigErrorView::TooManySecretValues {
                count: entries.len(),
                maximum: MAX_SECRET_VALUES as nat,
            },
        )
    } else {
        secrets_problem_from(entries, 0)
    }
}

pub(crate) fn validate_secret_values(values: &TextMap<String>) -> (r: Result<(), McpConfigError>)
    ensures
        match secrets_problem(text_entries(*values)) {
            None => r is Ok,
            Some(error) => r is Err && r->Err_0@ == error,
        },
{
    let n: usize = values.len();
    if n > MAX_SECRET_VALUES {
        return Err(McpConfigError::TooManySecretValues { count: n, maximum: MAX_SECRET_VALUES });
    }
    let ghost entries = text_entries(*values);
    let mut i: usize = 0;
    while i < n
        invariant
            n == values.entries().len(),
            i <= n,
            entries == text_entries(*values),
            secrets_problem(entries) == secrets_problem_from(entries, i as int),
        decreases n - i,
    {
        validate_secret_reference(values.key_at(i))?;
        validate_text(
            "MCP secret value",
            values.value_at(i).as_str(),
            MAX_ENV_VALUE_BYTES,
            true,
        )?;
        i += 1;
    }
    Ok(())
}

/// The entries have this name among theirs.
pub open spec fn names(entries: Entries, name: Seq<char>) -> bool {
    exists|k: int| 0 <= k < entries.len() && (#[trigger] entries[k]).0 == name
}

/// The first reference, from the `i`th header on, that no value is given for.
pub open spec fn missing_secret(headers: Entries, secrets: Entries, i: int) -> Option<
    ConfigErrorView,
>
    decreases headers.len() - i,
{
    if i >= headers.len() {
        None
    } else {
        match reference_of(headers[i].1) {
            Some(reference) => if names(secrets, reference) {
                missing_secret(headers, secrets, i + 1)
            } else {
                Some(ConfigErrorView::MissingSecretValue { reference })
            },
            None => missing_secret(headers, secrets, i + 1),
        }
    }
}

pub(crate) fn has_name(values: &TextMap<String>, name: &str) -> (r: bool)
    ensures
        r == names(text_entries(*values), name@),
{
    let n: usize = values.len();
    let ghost entries = text_entries(*values);
    let mut i: usize = 0;
    while i < n
        invariant
            n == values.entries().len(),
            i <= n,
            entries == text_entries(*values),
            forall|k: int| 0 <= k < i ==> (#[trigger] entries[k]).0 != name@,
        decreases n - i,
    {
        if str_eq(values.key_at(i), name) {
            assert(entries[i as int].0 == name@);
            return true;
        }
        i += 1;
    }
    false
}

pub(crate) fn find_missing_secret(headers: &TextMap<String>, secrets: &TextMap<String>) -> (r: Result<
    (),
    McpConfigError,
>)
    ensures
        match missing_secret(text_entries(*headers), text_entries(*secrets), 0) {
            None => r is Ok,
            Some(error) => r is Err && r->Err_0@ == error,
        },
{
    let n: usize = headers.len();
    let ghost entries = text_entries(*headers);
    let ghost values = text_entries(*secrets);
    let mut i: usize = 0;
    while i < n
        invariant
            n == headers.entries().len(),
            i <= n,
            entries == text_entries(*headers),
            values == text_entries(*secrets),
            missing_secret(entries, values, 0) == missing_secret(entries, values, i as int),
        decreases n - i,
    {
        if let Some(reference) = secret_reference(headers.value_at(i).as_str()) {
            if !has_name(secrets, reference) {
                return Err(
                    McpConfigError::MissingSecretValue { reference: reference.to_owned() },
                );
            }
        }
        i += 1;
    }
    Ok(())
}

/// The value that entries have under a name.
pub open spec fn value_of(entries: Entries, name: Seq<char>) -> Option<Seq<char>>
    decreases entries.len(),
{
    if entries.len() == 0 {
        None
    } else if entries[0].0 == name {
        Some(entries[0].1)
    } else {
        value_of(entries.skip(1), name)
    }
}

pub(crate) fn find_value<'a>(values: &'a TextMap<String>, name: &str) -> (r: Option<&'a str>)
    ensures
        match value_of(text_entries(*values), name@) {
            Some(value) => r is Some && r->0@ == value,
            None => r is None,
        },
{
    let n: usize = values.len();
    let ghost entries = text_entries(*values);
    let mut i: usize = 0;
    assert(entries.skip(0) =~= entries);
    while i < n
        invariant
            n == values.entries().len(),
            i <= n,
            entries == text_entries(*values),
            value_of(entries, name@) == value_of(entries.skip(i as int), name@),
        decreases n - i,
    {
        assert(entries.skip(i as int)[0] == entries[i as int]);
        assert(entries.skip(i as int).skip(1) =~= entries.skip(i + 1));
        if str_eq(values.key_at(i), name) {
            return Some(values.value_at(i).as_str());
        }
        i += 1;
    }
    None
}

} // verus!
