//! The HTTP transport: which headers are sent, and what a response holds.
use vstd::prelude::*;
use vstd::string::StringExecFns;
use vstd::utf8::encode_utf8;

use crate::grants::SecretGrant;
use crate::json::{parse_json, parsed_json, Json, JsonView};
use crate::mcp::client_error::{ClientErrorView, McpClientError};
use crate::mcp::config::{references_in, ConfigView, McpConfig, TransportView};
use crate::mcp::config_rules::{find_value, value_of, Entries};
use crate::mcp::rpc::{malformed, without_cr, MAX_MCP_FRAME_BYTES, MAX_MCP_RESULT_BYTES};
use crate::text::{
    any_control, byte_len, has_control, lower_of, occurs_at, starts_with, strip_prefix,
    strip_prefix_of, text4, texts, to_ascii_lowercase, utf8_len,
};
use crate::text_map::{copy_texts, lemma_text_entries, text_entries, with_entry, TextMap};

verus! {

pub const MAX_HTTP_RESPONSE_BYTES: usize = MAX_MCP_RESULT_BYTES;

pub const CANCEL_GRACE_TIMEOUT_MILLIS: u64 = 250;

pub const MAX_SESSION_ID_BYTES: usize = 256;

// ---------------------------------------------------------------------------
// Outside rules for headers
// ---------------------------------------------------------------------------
/// A byte that the name of a header may hold.
pub open spec fn is_name_byte(b: u8) -> bool {
    ||| 48 <= b <= 57 || 65 <= b <= 90 || 94 <= b <= 122
    ||| b == 33 || 35 <= b <= 39 || b == 42 || b == 43 || b == 45 || b == 46 || b == 124 || b == 126
}

/// A byte that the value of a header may hold.
pub open spec fn is_value_byte(b: u8) -> bool {
    b == 9 || b >= 32 && b != 127
}

/// What can be the name of a header.
pub open spec fn is_header_name(name: Seq<char>) -> bool {
    let bytes = encode_utf8(name);
    &&& 0 < bytes.len() <= 65535
    &&& forall|k: int| 0 <= k < bytes.len() ==> is_name_byte(#[trigger] bytes[k])
}

/// What can be the value of a header.
pub open spec fn is_header_value(value: Seq<char>) -> bool {
    let bytes = encode_utf8(value);
    forall|k: int| 0 <= k < bytes.len() ==> is_value_byte(#[trigger] bytes[k])
}

/// `HeaderName::from_bytes`: whether a text can be the name of a header.
#[verifier::external_body]
fn accepts_header_name(name: &str) -> (r: bool)
    ensures
        r == is_header_name(name@),
{
    reqwest::header::HeaderName::from_bytes(name.as_bytes()).is_ok()
}

/// `HeaderValue::from_str`: whether a text can be the value of a header.
#[verifier::external_body]
fn accepts_header_value(value: &str) -> (r: bool)
    ensures
        r == is_header_value(value@),
{
    reqwest::header::HeaderValue::from_str(value).is_ok()
}

// ---------------------------------------------------------------------------
// The transport
// ---------------------------------------------------------------------------
/// What is sent along with every request to one endpoint.
pub struct HttpTransport {
    endpoint: String,
    headers: TextMap<String>,
    secret_values: TextMap<String>,
    session_id: Option<String>,
}

/// A header that is sent.
#[derive(Clone, Debug)]
pub struct Header {
    pub name: String,
    pub value: String,
}

pub open spec fn headers_view(headers: Seq<Header>) -> Entries {
    Seq::new(headers.len(), |k: int| (headers[k].name@, headers[k].value@))
}

/// What is sent for a configured header: itself, or the secret that it refers to, if that may
/// be used and has a value.
pub open spec fn sent_value(configured: Seq<char>, secrets: Entries, granted: Seq<Seq<char>>) -> Result<
    Seq<char>,
    ClientErrorView,
> {
    match strip_prefix_of(configured, "secret://"@) {
        None => Ok(configured),
        Some(reference) => if !granted.contains(reference) {
            Err(ClientErrorView::SecretDenied { reference })
        } else {
            match value_of(secrets, reference) {
                Some(value) => Ok(value),
                None => Err(
                    ClientErrorView::HttpConfiguration {
                        message: "configured secret reference has no local value"@,
                    },
                ),
            }
        },
    }
}

/// What is sent for the headers from the `i`th on, behind what comes before them.
pub open spec fn sent_headers(
    headers: Entries,
    secrets: Entries,
    granted: Seq<Seq<char>>,
    i: int,
    sent: Entries,
) -> Result<Entries, ClientErrorView>
    decreases headers.len() - i,
{
    if i >= headers.len() {
        Ok(sent)
    } else {
        match sent_value(headers[i].1, secrets, granted) {
            Err(error) => Err(error),
            Ok(value) => if !is_header_name(headers[i].0) {
                Err(
                    ClientErrorView::HttpConfiguration {
                        message: "configured HTTP header name is invalid"@,
                    },
                )
            } else if !is_header_value(value) {
                Err(
                    ClientErrorView::HttpConfiguration {
                        message: "configured HTTP header value is invalid"@,
                    },
                )
            } else {
                sent_headers(headers, secrets, granted, i + 1, sent.push((headers[i].0, value)))
            },
        }
    }
}

/// All that is sent with a request: the configured headers, and the session if there is one.
pub open spec fn request_headers(
    headers: Entries,
    secrets: Entries,
    granted: Seq<Seq<char>>,
    session: Option<Seq<char>>,
) -> Result<Entries, ClientErrorView> {
    match sent_headers(headers, secrets, granted, 0, Seq::empty()) {
        Err(error) => Err(error),
        Ok(sent) => match session {
            None => Ok(sent),
            Some(id) => if is_header_value(id) {
                Ok(sent.push(("mcp-session-id"@, id)))
            } else {
                Err(
                    ClientErrorView::HttpConfiguration { message: "MCP session id is invalid"@ },
                )
            },
        },
    }
}

fn bad_configuration(message: &str) -> (r: McpClientError)
    ensures
        r@ == (ClientErrorView::HttpConfiguration { message: message@ }),
{
    McpClientError::HttpConfiguration { message: message.to_owned() }
}

/// The secrets that the headers of a configuration refer to, each with its value.
pub open spec fn used_secrets(references: Seq<Seq<char>>, secrets: Entries) -> Entries
    decreases references.len(),
{
    if references.len() == 0 {
        Seq::empty()
    } else {
        let before = used_secrets(references.drop_last(), secrets);
        match value_of(secrets, references.last()) {
            Some(value) => with_entry(before, references.last(), value),
            None => before,
        }
    }
}

/// Why a transport cannot be had.
pub open spec fn transport_problem(config: ConfigView, network_allows: bool) -> Option<
    ClientErrorView,
> {
    match config.transport {
        TransportView::Stdio => Some(
            ClientErrorView::HttpConfiguration { message: "HTTP endpoint is missing"@ },
        ),
        TransportView::Http { endpoint, .. } => if network_allows {
            None
        } else {
            Some(ClientErrorView::NetworkDenied { endpoint })
        },
    }
}

/// Whether the endpoint of a session may be used as one.
pub open spec fn is_session_id(id: Seq<char>) -> bool {
    id.len() > 0 && utf8_len(id) <= MAX_SESSION_ID_BYTES && !has_control(id)
}

impl HttpTransport {
    pub closed spec fn spec_endpoint(self) -> Seq<char> {
        self.endpoint@
    }

    pub closed spec fn spec_headers(self) -> Entries {
        text_entries(self.headers)
    }

    pub closed spec fn secrets(self) -> Entries {
        text_entries(self.secret_values)
    }

    pub closed spec fn session(self) -> Option<Seq<char>> {
        match self.session_id {
            Some(id) => Some(id@),
            None => None,
        }
    }

    /// The transport of a configuration whose endpoint the network grant allows.
    pub fn new(config: &McpConfig, network_allows: bool) -> (r: Result<Self, McpClientError>)
        ensures
            match transport_problem(config@, network_allows) {
                Some(error) => r is Err && r->Err_0@ == error,
                None => {
                    &&& r is Ok
                    &&& r->Ok_0.spec_endpoint() == config@.transport->endpoint
                    &&& r->Ok_0.spec_headers() == config@.transport->headers
                    &&& r->Ok_0.secrets() == used_secrets(
                        references_in(config@.transport->headers),
                        config@.transport->secret_values,
                    )
                    &&& r->Ok_0.session() is None
                },
            },
    {
        let endpoint = match config.endpoint() {
            Some(endpoint) => endpoint,
            None => return Err(bad_configuration("HTTP endpoint is missing")),
        };
        if !network_allows {
            return Err(McpClientError::NetworkDenied { endpoint: endpoint.to_owned() });
        }
        let headers = match config.http_headers() {
            Some(headers) => copy_texts(headers),
            None => TextMap::new(),
        };
        let references = config.secret_references();
        let ghost all = texts(references@);
        let ghost given = config@.transport->secret_values;
        let mut used: TextMap<String> = TextMap::new();
        let n: usize = references.len();
        let mut i: usize = 0;
        assert(all.take(0) =~= Seq::<Seq<char>>::empty());
        assert(text_entries(used) =~= Seq::<(Seq<char>, Seq<char>)>::empty());
        while i < n
            invariant
                n == references@.len(),
                i <= n,
                all == texts(references@),
                config@.transport is Http,
                given == config@.transport->secret_values,
                text_entries(used) == used_secrets(all.take(i as int), given),
            decreases n - i,
        {
            proof {
                assert(all.take(i + 1).drop_last() =~= all.take(i as int));
                assert(all.take(i + 1).last() == references@[i as int]@);
            }
            if let Some(value) = config.secret_value(references[i].as_str()) {
                let ghost before = used.entries();
                let value = value.to_owned();
                proof {
                    lemma_text_entries(before, references@[i as int]@, value);
                }
                used.insert(references[i].clone(), value);
            }
            i += 1;
        }
        assert(all.take(n as int) =~= all);
        Ok(
            HttpTransport {
                endpoint: endpoint.to_owned(),
                headers,
                secret_values: used,
                session_id: None,
            },
        )
    }

    pub fn endpoint(&self) -> (r: &str)
        ensures
            r@ == self.spec_endpoint(),
    {
        self.endpoint.as_str()
    }

    /// Nothing is sent to an endpoint that the network grant does not allow.
    pub fn check_network(&self, network_allows: bool) -> (r: Result<(), McpClientError>)
        ensures
            r is Ok == network_allows,
            r is Err ==> r->Err_0@ == (ClientErrorView::NetworkDenied {
                endpoint: self.spec_endpoint(),
            }),
    {
        if network_allows {
            Ok(())
        } else {
            Err(McpClientError::NetworkDenied { endpoint: self.endpoint.clone() })
        }
    }

    fn resolve_headers(&self, secret_grant: &SecretGrant) -> (r: Result<
        Vec<Header>,
        McpClientError,
    >)
        ensures
            match sent_headers(
                self.spec_headers(),
                self.secrets(),
                secret_grant.references(),
                0,
                Seq::empty(),
            ) {
                Ok(sent) => r is Ok && headers_view(r->Ok_0@) == sent,
                Err(error) => r is Err && r->Err_0@ == error,
            },
    {
        let ghost headers = self.spec_headers();
        let ghost secrets = self.secrets();
        let ghost granted = secret_grant.references();
        let mut out: Vec<Header> = Vec::new();
        let n: usize = self.headers.len();
        let mut i: usize = 0;
        assert(headers_view(out@) =~= Seq::<(Seq<char>, Seq<char>)>::empty());
        while i < n
            invariant
                n == self.headers.entries().len(),
                i <= n,
                headers == text_entries(self.headers),
                headers == self.spec_headers(),
                secrets == self.secrets(),
                granted == secret_grant.references(),
                sent_headers(headers, secrets, granted, 0, Seq::empty()) == sent_headers(
                    headers,
                    secrets,
                    granted,
                    i as int,
                    headers_view(out@),
                ),
            decreases n - i,
        {
            let name = self.headers.key_at(i);
            let configured = self.headers.value_at(i).as_str();
            let value = match strip_prefix(configured, "secret://") {
                None => configured,
                Some(reference) => {
                    if !secret_grant.allows(reference) {
                        return Err(
                            McpClientError::SecretDenied { reference: reference.to_owned() },
                        );
                    }
                    match find_value(&self.secret_values, reference) {
                        Some(value) => value,
                        None => {
                            return Err(
                                bad_configuration("configured secret reference has no local value"),
                            );
                        },
                    }
                },
            };
            if !accepts_header_name(name) {
                return Err(bad_configuration("configured HTTP header name is invalid"));
            }
            if !accepts_header_value(value) {
                return Err(bad_configuration("configured HTTP header value is invalid"));
            }
            let ghost before = out@;
            out.push(Header { name: name.to_owned(), value: value.to_owned() });
            assert(headers_view(out@) =~= headers_view(before).push((name@, value@)));
            i += 1;
        }
        Ok(out)
    }

    /// The headers that are sent with a request under a grant.
    pub fn request_headers(&self, secret_grant: &SecretGrant) -> (r: Result<
        Vec<Header>,
        McpClientError,
    >)
        ensures
            match request_headers(
                self.spec_headers(),
                self.secrets(),
                secret_grant.references(),
                self.session(),
            ) {
                Ok(sent) => r is Ok && headers_view(r->Ok_0@) == sent,
                Err(error) => r is Err && r->Err_0@ == error,
            },
    {
        let mut headers = self.resolve_headers(secret_grant)?;
        if let Some(id) = &self.session_id {
            if !accepts_header_value(id.as_str()) {
                return Err(bad_configuration("MCP session id is invalid"));
            }
            let ghost before = headers@;
            headers.push(Header { name: "mcp-session-id".to_owned(), value: id.clone() });
            assert(headers_view(headers@) =~= headers_view(before).push(
                ("mcp-session-id"@, id@),
            ));
        }
        Ok(headers)
    }

    /// Takes over the session that a response names.
    pub fn accept_session(&mut self, session_id: Option<String>) -> (r: Result<(), McpClientError>)
        ensures
            final(self).spec_endpoint() == old(self).spec_endpoint(),
            final(self).spec_headers() == old(self).spec_headers(),
            final(self).secrets() == old(self).secrets(),
            match session_id {
                None => r is Ok && final(self).session() == old(self).session(),
                Some(id) => if is_session_id(id@) {
                    r is Ok && final(self).session() == Some(id@)
                } else {
                    &&& r is Err
                    &&& r->Err_0@ == (ClientErrorView::HttpConfiguration {
                        message: "MCP response session id is invalid"@,
                    })
                    &&& final(self).session() == old(self).session()
                },
            },
    {
        if let Some(id) = session_id {
            if id.as_str().is_empty() || byte_len(id.as_str()) > MAX_SESSION_ID_BYTES || any_control(
                id.as_str(),
            ) {
                return Err(bad_configuration("MCP response session id is invalid"));
            }
            self.session_id = Some(id);
        }
        Ok(())
    }

    /// What is taken out of all that the endpoint says: the values of the secrets.
    pub fn redactions(&self) -> (r: Vec<String>)
        ensures
            texts(r@) == Seq::new(self.secrets().len(), |k: int| self.secrets()[k].1),
    {
        let n: usize = self.secret_values.len();
        let mut out: Vec<String> = Vec::new();
        let mut i: usize = 0;
        while i < n
            invariant
                n == self.secret_values.entries().len(),
                i <= n,
                out@.len() == i,
                forall|k: int| 0 <= k < i ==> (#[trigger] out@[k])@ == self.secrets()[k].1,
            decreases n - i,
        {
            out.push(self.secret_values.value_at(i).clone());
            i += 1;
        }
        assert(texts(out@) =~= Seq::new(self.secrets().len(), |k: int| self.secrets()[k].1));
        out
    }
}

/// A request is not longer than a frame may be.
pub fn check_request_length(length: usize) -> (r: Result<(), McpClientError>)
    ensures
        r is Ok == (length <= MAX_MCP_FRAME_BYTES),
        r is Err ==> r->Err_0@ == (ClientErrorView::FrameTooLarge {
            size: length as nat,
            maximum: MAX_MCP_FRAME_BYTES as nat,
        }),
{
    if length > MAX_MCP_FRAME_BYTES {
        return Err(McpClientError::FrameTooLarge { size: length, maximum: MAX_MCP_FRAME_BYTES });
    }
    Ok(())
}

/// A response is not longer than [`MAX_HTTP_RESPONSE_BYTES`], neither as it is announced nor as
/// it is read.
pub fn check_response_length(announced: Option<u64>, read: usize) -> (r: Result<(), McpClientError>)
    ensures
        r is Err == (announced is Some && announced->0 > MAX_HTTP_RESPONSE_BYTES || read
            > MAX_HTTP_RESPONSE_BYTES),
        r is Err ==> r->Err_0@ == (ClientErrorView::HttpResponseTooLarge {
            maximum: MAX_HTTP_RESPONSE_BYTES as nat,
        }),
{
    let too_long = match announced {
        Some(length) => length > MAX_HTTP_RESPONSE_BYTES as u64,
        None => false,
    };
    if too_long || read > MAX_HTTP_RESPONSE_BYTES {
        return Err(McpClientError::HttpResponseTooLarge { maximum: MAX_HTTP_RESPONSE_BYTES });
    }
    Ok(())
}

// ---------------------------------------------------------------------------
// Event streams
// ---------------------------------------------------------------------------
/// The lines of a body.
pub open spec fn byte_lines(bytes: Seq<u8>) -> Seq<Seq<u8>>
    decreases bytes.len(),
{
    if bytes.len() == 0 {
        seq![Seq::empty()]
    } else {
        let before = byte_lines(bytes.drop_last());
        if bytes.last() == 10 {
            before.push(Seq::empty())
        } else {
            before.update(before.len() - 1, before.last().push(bytes.last()))
        }
    }
}

pub open spec fn data_prefix() -> Seq<u8> {
    seq![100u8, 97, 116, 97, 58]
}

pub open spec fn done_mark() -> Seq<u8> {
    seq![91u8, 68, 79, 78, 69, 93]
}

/// What a line of an event stream carries, if it carries data that is of interest.
pub open spec fn line_data(line: Seq<u8>) -> Option<Seq<u8>> {
    let line = without_cr(line);
    if line.len() >= 5 && line.take(5) == data_prefix() {
        let data = if line.len() > 5 && line[5] == 32 {
            line.skip(6)
        } else {
            line.skip(5)
        };
        if data == done_mark() || data.len() == 0 {
            None
        } else {
            Some(data)
        }
    } else {
        None
    }
}

/// The data of an event stream, in its order.
pub open spec fn stream_data(lines: Seq<Seq<u8>>) -> Seq<Seq<u8>>
    decreases lines.len(),
{
    if lines.len() == 0 {
        Seq::empty()
    } else {
        match line_data(lines.last()) {
            Some(data) => stream_data(lines.drop_last()).push(data),
            None => stream_data(lines.drop_last()),
        }
    }
}

/// The first event, from the `i`th on, that is an object.
pub open spec fn first_event(events: Seq<Seq<u8>>, i: int, method: Seq<char>) -> Result<
    JsonView,
    ClientErrorView,
>
    decreases events.len() - i,
{
    if i >= events.len() {
        Err(
            ClientErrorView::InvalidResponse {
                method,
                message: "MCP SSE response contained no JSON-RPC event"@,
            },
        )
    } else {
        match parsed_json(events[i]) {
            Err(error) => Err(
                malformed("MCP SSE event for `"@ + method + "` is invalid: "@ + error),
            ),
            Ok(value) => if value is Object {
                Ok(value)
            } else {
                first_event(events, i + 1, method)
            },
        }
    }
}

fn split_lines(body: &Vec<u8>) -> (r: Vec<Vec<u8>>)
    ensures
        lines_view(r@) == byte_lines(body@),
{
    let mut done: Vec<Vec<u8>> = Vec::new();
    let mut line: Vec<u8> = Vec::new();
    let n: usize = body.len();
    let mut i: usize = 0;
    assert(body@.take(0) =~= Seq::<u8>::empty());
    assert(lines_view(done@).push(line@) =~= seq![Seq::<u8>::empty()]);
    while i < n
        invariant
            n == body@.len(),
            i <= n,
            lines_view(done@).push(line@) == byte_lines(body@.take(i as int)),
        decreases n - i,
    {
        let ghost before = lines_view(done@).push(line@);
        let ghost was = done@;
        let ghost open = line@;
        proof {
            assert(body@.take(i + 1).drop_last() =~= body@.take(i as int));
            assert(body@.take(i + 1).last() == body@[i as int]);
            assert(before.last() == line@);
        }
        let byte: u8 = body[i];
        if byte == 10 {
            let mut next: Vec<u8> = Vec::new();
            std::mem::swap(&mut line, &mut next);
            done.push(next);
            assert(lines_view(done@) =~= lines_view(was).push(open));
            assert(line@ =~= Seq::<u8>::empty());
        } else {
            line.push(byte);
            assert(lines_view(done@).push(line@) =~= before.update(
                before.len() - 1,
                open.push(byte),
            ));
        }
        i += 1;
    }
    assert(body@.take(n as int) =~= body@);
    let ghost was = done@;
    let ghost open = line@;
    done.push(line);
    assert(lines_view(done@) =~= lines_view(was).push(open));
    done
}

pub open spec fn lines_view(lines: Seq<Vec<u8>>) -> Seq<Seq<u8>> {
    Seq::new(lines.len(), |k: int| lines[k]@)
}

fn data_of(line: &Vec<u8>) -> (r: Option<Vec<u8>>)
    ensures
        match line_data(line@) {
            Some(data) => r is Some && r->0@ == data,
            None => r is None,
        },
{
    let mut n: usize = line.len();
    if n > 0 && line[n - 1] == 13 {
        n = n - 1;
    }
    let ghost whole = without_cr(line@);
    assert(whole =~= line@.take(n as int));
    if n < 5 || line[0] != 100 || line[1] != 97 || line[2] != 116 || line[3] != 97 || line[4]
        != 58 {
        proof {
            if whole.len() >= 5 && whole.take(5) == data_prefix() {
                assert(forall|k: int| 0 <= k < 5 ==> whole.take(5)[k] == whole[k]);
                assert(whole[0] == 100 && whole[1] == 97 && whole[2] == 116 && whole[3] == 97
                    && whole[4] == 58);
            }
        }
        return None;
    }
    assert(whole.take(5) =~= data_prefix());
    let from: usize = if n > 5 && line[5] == 32 {
        6
    } else {
        5
    };
    let mut data: Vec<u8> = Vec::new();
    let mut i: usize = from;
    while i < n
        invariant
            n <= line@.len(),
            from <= i <= n,
            data@ == line@.subrange(from as int, i as int),
        decreases n - i,
    {
        data.push(line[i]);
        assert(data@ =~= line@.subrange(from as int, i + 1));
        i += 1;
    }
    assert(data@ =~= whole.skip(from as int));
    let done = data.len() == 6 && data[0] == 91 && data[1] == 68 && data[2] == 79 && data[3] == 78
        && data[4] == 69 && data[5] == 93;
    assert(done == (data@ == done_mark())) by {
        if done {
            assert(data@ =~= done_mark());
        }
    }
    if done || data.len() == 0 {
        None
    } else {
        Some(data)
    }
}

/// The data that an event stream carries, in its order.
pub fn sse_data(body: &Vec<u8>) -> (r: Vec<Vec<u8>>)
    ensures
        lines_view(r@) == stream_data(byte_lines(body@)),
{
    let lines = split_lines(body);
    let ghost all = lines_view(lines@);
    let mut out: Vec<Vec<u8>> = Vec::new();
    let n: usize = lines.len();
    let mut i: usize = 0;
    assert(all.take(0) =~= Seq::<Seq<u8>>::empty());
    assert(lines_view(out@) =~= Seq::<Seq<u8>>::empty());
    while i < n
        invariant
            n == lines@.len(),
            i <= n,
            all == lines_view(lines@),
            lines_view(out@) == stream_data(all.take(i as int)),
        decreases n - i,
    {
        proof {
            assert(all.take(i + 1).drop_last() =~= all.take(i as int));
            assert(all.take(i + 1).last() == lines@[i as int]@);
        }
        if let Some(data) = data_of(&lines[i]) {
            let ghost before = out@;
            let ghost added = data@;
            out.push(data);
            assert(lines_view(out@) =~= lines_view(before).push(added));
        }
        i += 1;
    }
    assert(all.take(n as int) =~= all);
    out
}

/// The first JSON-RPC message of an event stream.
pub fn parse_sse(body: &Vec<u8>, method: &'static str) -> (r: Result<Json, McpClientError>)
    ensures
        match first_event(stream_data(byte_lines(body@)), 0, method@) {
            Ok(value) => r is Ok && r->Ok_0@ == value,
            Err(error) => r is Err && r->Err_0@ == error,
        },
{
    let events = sse_data(body);
    let ghost all = lines_view(events@);
    let n: usize = events.len();
    let mut i: usize = 0;
    while i < n
        invariant
            n == events@.len(),
            i <= n,
            all == lines_view(events@),
            all == stream_data(byte_lines(body@)),
            first_event(all, 0, method@) == first_event(all, i as int, method@),
        decreases n - i,
    {
        assert(all[i as int] == events@[i as int]@);
        match parse_json(events[i].as_slice()) {
            Err(error) => {
                return Err(
                    McpClientError::MalformedJson {
                        message: text4(
                            "MCP SSE event for `",
                            method,
                            "` is invalid: ",
                            error.as_str(),
                        ),
                    },
                );
            },
            Ok(value) => {
                if value.is_object() {
                    return Ok(value);
                }
            },
        }
        i += 1;
    }
    Err(
        McpClientError::InvalidResponse {
            method,
            message: "MCP SSE response contained no JSON-RPC event".to_owned(),
        },
    )
}

/// The body is to be read as an event stream.
pub open spec fn is_event_stream(content_type: Option<Seq<char>>) -> bool {
    match content_type {
        Some(text) => occurs_at(lower_of(text), "text/event-stream"@, 0),
        None => false,
    }
}

/// A response that says that all is well, but nothing else.
pub open spec fn says_nothing(status: u16, body: Seq<u8>) -> bool {
    body.len() == 0 || status == 202 || status == 204
}

/// What a response comes to.
pub open spec fn response_value(
    status: u16,
    body: Seq<u8>,
    content_type: Option<Seq<char>>,
    method: Seq<char>,
) -> Result<JsonView, ClientErrorView> {
    if status < 200 || status > 299 {
        Err(ClientErrorView::HttpStatus { status: status as nat })
    } else if says_nothing(status, body) {
        Ok(JsonView::Null)
    } else if is_event_stream(content_type) {
        first_event(stream_data(byte_lines(body)), 0, method)
    } else {
        match parsed_json(body) {
            Ok(value) => Ok(value),
            Err(message) => Err(malformed(message)),
        }
    }
}

/// What a response holds.
pub fn parse_response(
    status: u16,
    body: &Vec<u8>,
    content_type: Option<&str>,
    method: &'static str,
) -> (r: Result<Json, McpClientError>)
    ensures
        match response_value(
            status,
            body@,
            match content_type {
                Some(text) => Some(text@),
                None => None,
            },
            method@,
        ) {
            Ok(value) => r is Ok && r->Ok_0@ == value,
            Err(error) => r is Err && r->Err_0@ == error,
        },
{
    if status < 200 || status > 299 {
        return Err(McpClientError::HttpStatus { status });
    }
    if body.len() == 0 || status == 202 || status == 204 {
        return Ok(Json::Null);
    }
    let stream = match content_type {
        Some(text) => starts_with(to_ascii_lowercase(text).as_str(), "text/event-stream"),
        None => false,
    };
    if stream {
        return parse_sse(body, method);
    }
    match parse_json(body.as_slice()) {
        Ok(value) => Ok(value),
        Err(message) => Err(McpClientError::MalformedJson { message }),
    }
}

// ---------------------------------------------------------------------------
// A request and its response
// ---------------------------------------------------------------------------
/// What came back for a request; the body is read up to one byte more than may be accepted.
#[derive(Debug)]
pub struct HttpReply {
    pub status: u16,
    pub session_id: Option<String>,
    pub content_type: Option<String>,
    pub announced: Option<u64>,
    pub body: Result<Vec<u8>, String>,
}

impl HttpReply {
    /// The value that the reply holds, once its session has been accepted.
    pub open spec fn value(self, method: Seq<char>) -> Result<JsonView, ClientErrorView> {
        let too_large = Err::<JsonView, ClientErrorView>(
            ClientErrorView::HttpResponseTooLarge { maximum: MAX_HTTP_RESPONSE_BYTES as nat },
        );
        if self.announced is Some && self.announced->0 > MAX_HTTP_RESPONSE_BYTES {
            too_large
        } else {
            match self.body {
                Err(message) => Err(ClientErrorView::HttpBodyRead { message: message@ }),
                Ok(body) => if body@.len() > MAX_HTTP_RESPONSE_BYTES {
                    too_large
                } else {
                    response_value(
                        self.status,
                        body@,
                        match self.content_type {
                            Some(text) => Some(text@),
                            None => None,
                        },
                        method,
                    )
                },
            }
        }
    }
}

impl HttpTransport {
    /// The headers of a request, given how long its body is; nothing is sent that the grants do
    /// not allow, and nothing that is too long.
    pub fn prepare_request(
        &self,
        network_allows: bool,
        secret_grant: &SecretGrant,
        length: usize,
    ) -> (r: Result<Vec<Header>, McpClientError>)
        ensures
            if !network_allows {
                r is Err && r->Err_0@ == (ClientErrorView::NetworkDenied {
                    endpoint: self.spec_endpoint(),
                })
            } else {
                match request_headers(
                    self.spec_headers(),
                    self.secrets(),
                    secret_grant.references(),
                    self.session(),
                ) {
                    Err(error) => r is Err && r->Err_0@ == error,
                    Ok(sent) => if length > MAX_MCP_FRAME_BYTES {
                        r is Err && r->Err_0@ == (ClientErrorView::FrameTooLarge {
                            size: length as nat,
                            maximum: MAX_MCP_FRAME_BYTES as nat,
                        })
                    } else {
                        r is Ok && headers_view(r->Ok_0@) == sent
                    },
                }
            },
    {
        match self.check_network(network_allows) {
            Ok(()) => {},
            Err(error) => return Err(error),
        }
        let headers = match self.request_headers(secret_grant) {
            Ok(headers) => headers,
            Err(error) => return Err(error),
        };
        match check_request_length(length) {
            Ok(()) => Ok(headers),
            Err(error) => Err(error),
        }
    }

    /// Takes a reply: its session first, and then what it holds.
    pub fn accept_reply(&mut self, reply: HttpReply, method: &'static str) -> (r: Result<
        Json,
        McpClientError,
    >)
        ensures
            final(self).spec_endpoint() == old(self).spec_endpoint(),
            final(self).spec_headers() == old(self).spec_headers(),
            final(self).secrets() == old(self).secrets(),
            if reply.session_id is Some && !is_session_id(reply.session_id->0@) {
                &&& r is Err
                &&& r->Err_0@ == (ClientErrorView::HttpConfiguration {
                    message: "MCP response session id is invalid"@,
                })
                &&& final(self).session() == old(self).session()
            } else {
                &&& final(self).session() == match reply.session_id {
                    Some(id) => Some(id@),
                    None => old(self).session(),
                }
                &&& match reply.value(method@) {
                    Ok(value) => r is Ok && r->Ok_0@ == value,
                    Err(error) => r is Err && r->Err_0@ == error,
                }
            },
    {
        match self.accept_session(reply.session_id) {
            Ok(()) => {},
            Err(error) => return Err(error),
        }
        match check_response_length(reply.announced, 0) {
            Ok(()) => {},
            Err(error) => return Err(error),
        }
        let body = match reply.body {
            Ok(body) => body,
            Err(message) => return Err(McpClientError::HttpBodyRead { message }),
        };
        match check_response_length(reply.announced, body.len()) {
            Ok(()) => {},
            Err(error) => return Err(error),
        }
        let content_type = match &reply.content_type {
            Some(text) => Some(text.as_str()),
            None => None,
        };
        parse_response(reply.status, &body, content_type, method)
    }
}

// ---------------------------------------------------------------------------
// What is sent
// ---------------------------------------------------------------------------
/// Without a grant for the secret that a header refers to, nothing is sent.
pub proof fn lemma_ungranted_secret_stops_the_request(
    headers: Entries,
    secrets: Entries,
    granted: Seq<Seq<char>>,
    session: Option<Seq<char>>,
    k: int,
)
    requires
        0 <= k < headers.len(),
        strip_prefix_of(headers[k].1, "secret://"@) is Some,
        !granted.contains(strip_prefix_of(headers[k].1, "secret://"@)->0),
    ensures
        request_headers(headers, secrets, granted, session) is Err,
{
    lemma_stopped(headers, secrets, granted, 0, Seq::empty(), k);
}

proof fn lemma_stopped(
    headers: Entries,
    secrets: Entries,
    granted: Seq<Seq<char>>,
    i: int,
    sent: Entries,
    k: int,
)
    requires
        0 <= i <= k < headers.len(),
        strip_prefix_of(headers[k].1, "secret://"@) is Some,
        !granted.contains(strip_prefix_of(headers[k].1, "secret://"@)->0),
    ensures
        sent_headers(headers, secrets, granted, i, sent) is Err,
    decreases headers.len() - i,
{
    if i < k {
        if let Ok(value) = sent_value(headers[i].1, secrets, granted) {
            lemma_stopped(
                headers,
                secrets,
                granted,
                i + 1,
                sent.push((headers[i].0, value)),
                k,
            );
        }
    }
}

} // verus!
