//! What is sent to a server, and what its answers mean.
use vstd::prelude::*;
use vstd::utf8::encode_utf8;

use crate::grants::SecretGrant;
use crate::json::{lemma_field_is_found, parsed_json, Json, JsonNumberView, JsonView};
use crate::mcp::client_error::{ClientErrorView, McpClientError};
use crate::mcp::config::{references_in, McpConfig, TransportView};
use crate::mcp::config_env::{entries_from, parse_arguments, read_arguments, read_entries, McpVariables, Variable};
use crate::mcp::config_error::McpConfigError;
use crate::mcp::config_rules::{names, reference_of, value_of, Entries};
use crate::mcp::fixture::{answer_request, FixtureStep, FixtureStepView};
use crate::mcp::http::{
    byte_lines, check_response_length, data_prefix, done_mark, first_event, headers_view, line_data, parse_response,
    sent_headers, sent_value, stream_data, Header, HttpTransport,
    MAX_HTTP_RESPONSE_BYTES, MAX_SESSION_ID_BYTES,
};
use crate::mcp::plugin::{next_step, McpCall, McpStep};
use crate::mcp::redact::{redacted, redacted_text};
use crate::mcp::rpc::{
    after_event, check_cancellation, check_response, check_tool, check_tools_result, first_frame,
    line_end, next_request_id, outgoing_frame, read_message, redactions, sensitive_values,
    tool_failed, validate_initialize_result, validate_response, without_cr, FrameBuffer, FrameStep,
    Incoming,
    JsonRpcResponse, ReaderEvent, StreamView, MAX_CANCEL_REASON_BYTES, MAX_MCP_FRAME_BYTES,
    MAX_MCP_RESULT_BYTES,
};
use crate::text::{has_control, lower_of, occurs_at, occurs_in, texts, trim_of, upper_of, utf8_len};
use crate::text_map::{lemma_one_more_entry, sorted, text_entries, with_entry, TextMap};

verus! {

// ---------------------------------------------------------------------------
// Messages
// ---------------------------------------------------------------------------
/// An object with a method and without an identifier asks for nothing; any other object is a
/// message as it stands; what is no object is no message.
pub proof fn lemma_messages_are_told_apart(frame: Vec<u8>, r: Result<Incoming, McpClientError>, value: JsonView)
    requires
        call_ensures(read_message, (&frame,), r),
        parsed_json(frame@) == Ok::<JsonView, Seq<char>>(value),
        value is Object ==> value.names_once(),
    ensures
        r is Ok <==> value is Object,
        value is Object ==> (r matches Ok(Incoming::Notification) <==> !value.lacks("method"@)
            && value.lacks("id"@)),
        r matches Ok(Incoming::Message(message)) ==> message@ == value,
{
    if value is Object {
        lemma_field_is_found(value, "method"@);
        lemma_field_is_found(value, "id"@);
    }
}

/// A response is taken only from the one it was asked of: of the right version, to the request
/// that was made, without an error. Its result is given back without secrets, and an error with
/// its own code.
pub proof fn lemma_responses_are_taken_for_their_request(
    response: JsonRpcResponse,
    expected: u64,
    method: &'static str,
    secrets: Vec<String>,
    r: Result<Json, McpClientError>,
)
    requires
        call_ensures(validate_response, (response, expected, method, &secrets), r),
    ensures
        r matches Ok(value) ==> {
            &&& response.jsonrpc@ == "2.0"@
            &&& response.id matches Some(id) && id.value@ == JsonView::Number(
                JsonNumberView::Unsigned(expected),
            )
            &&& response.error is None
            &&& response.result matches Some(bytes) && (parsed_json(bytes@) matches Ok(result)
                && value@ == redacted(result, texts(secrets@)))
        },
        response.jsonrpc@ == "2.0"@ && (response.id matches Some(id) && id.value@
            == JsonView::Number(JsonNumberView::Unsigned(expected))) ==> {
            &&& response.error matches Some(error) ==> r is Err && r->Err_0@
                == (ClientErrorView::Remote {
                code: error.code,
                message: redacted_text(error.message@, texts(secrets@)),
            })
            &&& response.error is None && (response.result matches Some(bytes) && bytes@.len()
                <= MAX_MCP_RESULT_BYTES && parsed_json(bytes@) is Ok) ==> r is Ok
        },
{
}

/// A server is taken as one if it names the version of its protocol.
pub proof fn lemma_servers_name_their_protocol(value: Json, r: Result<(), McpClientError>)
    requires
        call_ensures(validate_initialize_result, (&value,), r),
        value@.names_once(),
    ensures
        r is Ok <==> exists|version: Seq<char>|
            #[trigger] value@.has("protocolVersion"@, JsonView::Text(version)) && trim_of(
                version,
            ).len() > 0 && utf8_len(version) <= 64,
{
    lemma_field_is_found(value@, "protocolVersion"@);
    if r is Ok {
        let version = crate::json::text_field(value@, "protocolVersion"@)->0;
        assert(value@.field("protocolVersion"@) == Some(JsonView::Text(version)));
        assert(value@.has("protocolVersion"@, JsonView::Text(version)));
    }
    if exists|version: Seq<char>|
        #[trigger] value@.has("protocolVersion"@, JsonView::Text(version)) && trim_of(version).len()
            > 0 && utf8_len(version) <= 64 {
        let version = choose|version: Seq<char>|
            #[trigger] value@.has("protocolVersion"@, JsonView::Text(version)) && trim_of(
                version,
            ).len() > 0 && utf8_len(version) <= 64;
        assert(value@.field("protocolVersion"@) == Some(JsonView::Text(version)));
    }
}

/// A list of tools is one if it has tools, and it is incomplete if it names where it goes on; a
/// tool has failed if it says so.
pub proof fn lemma_tool_answers_are_read(value: Json, listed: Result<bool, McpClientError>, failed: bool)
    requires
        call_ensures(check_tools_result, (&value,), listed),
        call_ensures(tool_failed, (&value,), failed),
        value@.names_once(),
    ensures
        listed is Ok <==> !value@.lacks("tools"@),
        listed is Ok ==> (listed->Ok_0 <==> !value@.lacks("nextCursor"@) && !value@.has(
            "nextCursor"@,
            JsonView::Null,
        )),
        failed <==> value@.has("isError"@, JsonView::Bool(true)),
{
    lemma_field_is_found(value@, "tools"@);
    lemma_field_is_found(value@, "nextCursor"@);
    lemma_field_is_found(value@, "isError"@);
}

// ---------------------------------------------------------------------------
// Secrets of a child process
// ---------------------------------------------------------------------------
/// The name says that its value is secret, in whatever case it is written.
pub open spec fn names_a_secret(name: Seq<char>) -> bool {
    ||| occurs_in(upper_of(name), "KEY"@)
    ||| occurs_in(upper_of(name), "TOKEN"@)
    ||| occurs_in(upper_of(name), "SECRET"@)
    ||| occurs_in(upper_of(name), "PASSWORD"@)
    ||| occurs_in(upper_of(name), "AUTH"@)
}

proof fn lemma_sensitive_value_is_kept(entries: Entries, k: int)
    requires
        0 <= k < entries.len(),
        names_a_secret(entries[k].0),
        entries[k].1.len() > 0,
    ensures
        sensitive_values(entries).contains(entries[k].1),
    decreases entries.len(),
{
    let rest = entries.drop_last();
    let before = sensitive_values(rest);
    let all = sensitive_values(entries);
    if k < rest.len() {
        assert(rest[k] == entries[k]);
        lemma_sensitive_value_is_kept(rest, k);
        let i = choose|i: int| 0 <= i < before.len() && before[i] == entries[k].1;
        assert(all[i] == before[i]);
    } else {
        assert(all[before.len() as int] == entries[k].1);
    }
}

proof fn lemma_kept_value_is_sensitive(entries: Entries, i: int)
    requires
        0 <= i < sensitive_values(entries).len(),
    ensures
        exists|k: int|
            0 <= k < entries.len() && names_a_secret((#[trigger] entries[k]).0) && entries[k].1
                == sensitive_values(entries)[i],
    decreases entries.len(),
{
    let rest = entries.drop_last();
    let before = sensitive_values(rest);
    if i < before.len() {
        lemma_kept_value_is_sensitive(rest, i);
        let k = choose|k: int|
            0 <= k < rest.len() && names_a_secret((#[trigger] rest[k]).0) && rest[k].1 == before[i];
        assert(entries[k] == rest[k]);
    } else {
        assert(names_a_secret(entries[entries.len() - 1].0));
    }
}

/// Every value of a variable that is named like a secret is taken out of what the child says, and
/// no other value is.
pub proof fn lemma_secret_variables_are_hidden(environment: TextMap<String>, r: Vec<String>, k: int)
    requires
        call_ensures(redactions, (&environment,), r),
    ensures
        0 <= k < text_entries(environment).len() && names_a_secret(text_entries(environment)[k].0)
            && text_entries(environment)[k].1.len() > 0 ==> texts(r@).contains(
            text_entries(environment)[k].1,
        ),
        0 <= k < r@.len() ==> exists|j: int|
            0 <= j < text_entries(environment).len() && names_a_secret(
                (#[trigger] text_entries(environment)[j]).0,
            ) && text_entries(environment)[j].1 == r@[k]@,
{
    let entries = text_entries(environment);
    if 0 <= k < entries.len() && names_a_secret(entries[k].0) && entries[k].1.len() > 0 {
        lemma_sensitive_value_is_kept(entries, k);
    }
    if 0 <= k < r@.len() {
        assert(texts(r@)[k] == r@[k]@);
        lemma_kept_value_is_sensitive(entries, k);
    }
}

// ---------------------------------------------------------------------------
// Requests over HTTP
// ---------------------------------------------------------------------------
proof fn lemma_value_is_an_entry(entries: Entries, name: Seq<char>)
    ensures
        value_of(entries, name) matches Some(value) ==> exists|k: int|
            0 <= k < entries.len() && #[trigger] entries[k] == (name, value),
        value_of(entries, name) is None ==> !names(entries, name),
    decreases entries.len(),
{
    if entries.len() > 0 && entries[0].0 != name {
        let rest = entries.skip(1);
        lemma_value_is_an_entry(rest, name);
        if let Some(value) = value_of(rest, name) {
            let k = choose|k: int| 0 <= k < rest.len() && #[trigger] rest[k] == (name, value);
            assert(entries[k + 1] == (name, value));
        } else {
            assert forall|k: int| 0 <= k < entries.len() implies (#[trigger] entries[k]).0
                != name by {
                if k > 0 {
                    assert(entries[k] == rest[k - 1]);
                }
            }
        }
    } else if entries.len() > 0 {
        assert(entries[0] == (name, entries[0].1));
    }
}

proof fn lemma_sent_headers(
    headers: Entries,
    secrets: Entries,
    granted: Seq<Seq<char>>,
    i: int,
    sent: Entries,
)
    requires
        0 <= i <= headers.len(),
        sent_headers(headers, secrets, granted, i, sent) is Ok,
    ensures
        ({
            let all = sent_headers(headers, secrets, granted, i, sent)->Ok_0;
            &&& all.len() == sent.len() + headers.len() - i
            &&& forall|k: int| 0 <= k < sent.len() ==> #[trigger] all[k] == sent[k]
            &&& forall|k: int|
                i <= k < headers.len() ==> (#[trigger] all[sent.len() + k - i]).0 == headers[k].0
                    && sent_value(headers[k].1, secrets, granted) == Ok::<
                    Seq<char>,
                    ClientErrorView,
                >(all[sent.len() + k - i].1)
        }),
    decreases headers.len() - i,
{
    if i < headers.len() {
        let value = sent_value(headers[i].1, secrets, granted)->Ok_0;
        let more = sent.push((headers[i].0, value));
        lemma_sent_headers(headers, secrets, granted, i + 1, more);
        let all = sent_headers(headers, secrets, granted, i, sent)->Ok_0;
        assert forall|k: int| 0 <= k < sent.len() implies #[trigger] all[k] == sent[k] by {
            assert(all[k] == more[k]);
        }
        assert forall|k: int| i <= k < headers.len() implies (#[trigger] all[sent.len() + k - i]).0
            == headers[k].0 && sent_value(headers[k].1, secrets, granted) == Ok::<
            Seq<char>,
            ClientErrorView,
        >(all[sent.len() + k - i].1) by {
            if k == i {
                assert(all[sent.len() as int] == more[sent.len() as int]);
            } else {
                assert(sent.len() + k - i == more.len() + k - (i + 1));
                assert(all[more.len() + k - (i + 1)].0 == headers[k].0);
            }
        }
    }
}

/// Each configured header is sent, in its order and under its name: with the value that it has,
/// or with that of the secret it refers to, and then only if the grant names the secret. The
/// session follows where there is one.
pub proof fn lemma_headers_are_sent_as_configured(
    transport: HttpTransport,
    grant: SecretGrant,
    r: Result<Vec<Header>, McpClientError>,
    k: int,
)
    requires
        call_ensures(HttpTransport::request_headers, (&transport, &grant), r),
        r is Ok,
        0 <= k < transport.spec_headers().len(),
    ensures
        r->Ok_0@.len() == transport.spec_headers().len() + if transport.session() is Some {
            1int
        } else {
            0int
        },
        r->Ok_0@[k].name@ == transport.spec_headers()[k].0,
        !occurs_at(transport.spec_headers()[k].1, "secret://"@, 0) ==> r->Ok_0@[k].value@
            == transport.spec_headers()[k].1,
        occurs_at(transport.spec_headers()[k].1, "secret://"@, 0) ==> {
            let reference = transport.spec_headers()[k].1.skip(9);
            &&& grant.references().contains(reference)
            &&& exists|j: int|
                0 <= j < transport.secrets().len() && #[trigger] transport.secrets()[j] == (
                    reference,
                    r->Ok_0@[k].value@,
                )
        },
        transport.session() matches Some(id) ==> r->Ok_0@[r->Ok_0@.len() - 1].value@ == id
            && r->Ok_0@[r->Ok_0@.len() - 1].name@ == "mcp-session-id"@,
{
    reveal_strlit("secret://");
    let headers = transport.spec_headers();
    let secrets = transport.secrets();
    let granted = grant.references();
    let none: Entries = Seq::empty();
    lemma_sent_headers(headers, secrets, granted, 0, none);
    let all = sent_headers(headers, secrets, granted, 0, none)->Ok_0;
    let sent = headers_view(r->Ok_0@);
    assert(sent.len() == r->Ok_0@.len());
    assert(all[none.len() + k - 0].0 == headers[k].0);
    assert(sent[k] == all[k]);
    assert(sent[k] == (r->Ok_0@[k].name@, r->Ok_0@[k].value@));
    if occurs_at(headers[k].1, "secret://"@, 0) {
        lemma_value_is_an_entry(secrets, headers[k].1.skip(9));
    }
    if let Some(id) = transport.session() {
        let last = sent.len() - 1;
        assert(sent[last] == ("mcp-session-id"@, id));
        assert(sent[last] == (r->Ok_0@[last].name@, r->Ok_0@[last].value@));
    }
}

// ---------------------------------------------------------------------------
// Answers over HTTP
// ---------------------------------------------------------------------------
/// A body is cut at its line feeds, and nothing of it is lost.
pub proof fn lemma_bodies_are_cut_at_line_feeds(line: Seq<u8>, rest: Seq<u8>)
    requires
        !line.contains(10u8),
    ensures
        byte_lines(line) == seq![line],
        byte_lines(line.push(10u8) + rest) == seq![line] + byte_lines(rest),
    decreases rest.len(),
{
    lemma_one_line(line);
    let start = line.push(10u8);
    assert(start.drop_last() =~= line);
    assert(byte_lines(start) =~= seq![line, Seq::empty()]);
    if rest.len() == 0 {
        assert(start + rest =~= start);
        assert(seq![line] + byte_lines(rest) =~= seq![line, Seq::empty()]);
    } else {
        let shorter = rest.drop_last();
        lemma_bodies_are_cut_at_line_feeds(line, shorter);
        assert((start + rest).drop_last() =~= start + shorter);
        assert((start + rest).last() == rest.last());
        let before = byte_lines(start + shorter);
        let inner = byte_lines(shorter);
        lemma_some_line(shorter);
        assert(before == seq![line] + inner);
        assert(before.last() == inner.last());
        if rest.last() == 10 {
            assert(before.push(Seq::empty()) =~= seq![line] + inner.push(Seq::empty()));
        } else {
            assert(before.update(before.len() - 1, before.last().push(rest.last())) =~= seq![line]
                + inner.update(inner.len() - 1, inner.last().push(rest.last())));
        }
    }
}

proof fn lemma_some_line(bytes: Seq<u8>)
    ensures
        byte_lines(bytes).len() > 0,
    decreases bytes.len(),
{
    if bytes.len() > 0 {
        lemma_some_line(bytes.drop_last());
    }
}

proof fn lemma_one_line(line: Seq<u8>)
    requires
        !line.contains(10u8),
    ensures
        byte_lines(line) == seq![line],
    decreases line.len(),
{
    if line.len() > 0 {
        let rest = line.drop_last();
        assert(line.contains(line[line.len() - 1]));
        assert(!rest.contains(10u8)) by {
            if rest.contains(10u8) {
                let k = choose|k: int| 0 <= k < rest.len() && rest[k] == 10u8;
                assert(line[k] == 10u8);
            }
        }
        lemma_one_line(rest);
        assert(rest.push(line.last()) =~= line);
        assert(byte_lines(line) =~= seq![line]);
    } else {
        assert(line =~= Seq::<u8>::empty());
        assert(byte_lines(line) =~= seq![line]);
    }
}

/// A line of an event stream carries what stands behind `data:` and one blank, whatever ends the
/// line; the mark of the end carries nothing, and neither does any other line.
pub proof fn lemma_data_lines_carry_their_data(data: Seq<u8>, line: Seq<u8>)
    requires
        data.len() > 0,
        data.last() != 13,
        data != seq![91u8, 68, 79, 78, 69, 93],
        data[0] != 32,
    ensures
        line_data(seq![100u8, 97, 116, 97, 58, 32] + data) == Some(data),
        line_data((seq![100u8, 97, 116, 97, 58, 32] + data).push(13u8)) == Some(data),
        line_data(seq![100u8, 97, 116, 97, 58] + data) == Some(data),
        line_data(seq![100u8, 97, 116, 97, 58, 32, 91, 68, 79, 78, 69, 93]) is None,
        line.len() > 0 && line[0] != 100 ==> line_data(line) is None,
{
    let spaced = seq![100u8, 97, 116, 97, 58, 32] + data;
    let plain = seq![100u8, 97, 116, 97, 58] + data;
    assert(spaced.last() == data.last());
    assert(plain.last() == data.last());
    assert(spaced.take(5) =~= data_prefix());
    assert(plain.take(5) =~= data_prefix());
    assert(spaced.skip(6) =~= data);
    assert(plain.skip(5) =~= data);
    assert(plain[5] == data[0]);
    assert(spaced.push(13u8).drop_last() =~= spaced);
    let done = seq![100u8, 97, 116, 97, 58, 32, 91, 68, 79, 78, 69, 93];
    assert(done.take(5) =~= data_prefix());
    assert(done.skip(6) =~= done_mark());
    if line.len() > 0 && line[0] != 100 {
        let body = without_cr(line);
        if body.len() >= 5 && body.take(5) == data_prefix() {
            assert(body.take(5)[0] == body[0]);
            assert(data_prefix()[0] == 100);
            assert(body[0] == line[0]);
        }
    }
}

proof fn lemma_data_is_in_the_stream(lines: Seq<Seq<u8>>, k: int)
    requires
        0 <= k < lines.len(),
    ensures
        line_data(lines[k]) matches Some(data) ==> stream_data(lines).contains(data),
    decreases lines.len(),
{
    let rest = lines.drop_last();
    let before = stream_data(rest);
    let all = stream_data(lines);
    if let Some(data) = line_data(lines[k]) {
        if k < rest.len() {
            assert(rest[k] == lines[k]);
            lemma_data_is_in_the_stream(rest, k);
            let i = choose|i: int| 0 <= i < before.len() && before[i] == data;
            assert(all[i] == before[i]);
        } else {
            assert(all[before.len() as int] == data);
        }
    }
}

/// The answer of an event stream is the first of its events that is an object.
pub proof fn lemma_first_object_is_the_answer(
    events: Seq<Seq<u8>>,
    i: int,
    method: Seq<char>,
    k: int,
    value: JsonView,
)
    requires
        0 <= i <= k < events.len(),
        forall|j: int|
            i <= j < k ==> (parsed_json(#[trigger] events[j]) matches Ok(other) && !(other is Object)),
        parsed_json(events[k]) == Ok::<JsonView, Seq<char>>(value),
        value is Object,
    ensures
        first_event(events, i, method) == Ok::<JsonView, ClientErrorView>(value),
    decreases k - i,
{
    if i < k {
        assert(parsed_json(events[i]) is Ok);
        lemma_first_object_is_the_answer(events, i + 1, method, k, value);
    }
}

/// An answer over HTTP counts by its status: one that is no success is an error, and one that
/// says nothing is nothing. Otherwise its body is the answer, or for an event stream what the
/// stream carries.
pub proof fn lemma_answers_count_by_their_status(
    status: u16,
    body: Vec<u8>,
    content_type: Option<&str>,
    method: &'static str,
    r: Result<Json, McpClientError>,
)
    requires
        call_ensures(parse_response, (status, &body, content_type, method), r),
    ensures
        !(200 <= status <= 299) ==> r is Err && r->Err_0@ == (ClientErrorView::HttpStatus {
            status: status as nat,
        }),
        200 <= status <= 299 && (body@.len() == 0 || status == 202 || status == 204) ==> r is Ok
            && r->Ok_0@ == JsonView::Null,
        200 <= status <= 299 && body@.len() > 0 && status != 202 && status != 204 ==> {
            &&& content_type is None ==> (r is Ok <==> parsed_json(body@) is Ok) && (r is Ok
                ==> Ok::<JsonView, Seq<char>>(r->Ok_0@) == parsed_json(body@))
            &&& (content_type matches Some(text) && lower_of(text@) == "application/json"@) ==> (
            r is Ok <==> parsed_json(body@) is Ok) && (r is Ok ==> Ok::<JsonView, Seq<char>>(
                r->Ok_0@,
            ) == parsed_json(body@))
            &&& (content_type matches Some(text) && lower_of(text@) == "text/event-stream"@)
                ==> match first_event(stream_data(byte_lines(body@)), 0, method@) {
                Ok(value) => r is Ok && r->Ok_0@ == value,
                Err(_) => r is Err,
            }
        },
{
    reveal_strlit("application/json");
    reveal_strlit("text/event-stream");
    if let Some(text) = content_type {
        let kind = lower_of(text@);
        if kind == "application/json"@ {
            if occurs_at(kind, "text/event-stream"@, 0) {
                assert(kind.len() == 16);
            }
        }
        if kind == "text/event-stream"@ {
            assert(kind.subrange(0, 17) =~= "text/event-stream"@);
        }
    }
}

// ---------------------------------------------------------------------------
// Configuration
// ---------------------------------------------------------------------------
/// A configuration holds what it was made of: the command with its arguments and variables, or
/// the endpoint with its headers and secrets.
pub proof fn lemma_configurations_hold_what_they_are_made_of(
    command: &str,
    arguments: Vec<String>,
    endpoint: &str,
    scope: Result<(), String>,
    server_name: &str,
    environment: TextMap<String>,
    headers: TextMap<String>,
    secrets: TextMap<String>,
    child: Result<McpConfig, McpConfigError>,
    remote: Result<McpConfig, McpConfigError>,
)
    requires
        call_ensures(McpConfig::new, (command, arguments, server_name, environment), child),
        call_ensures(
            McpConfig::http_with_secrets,
            (endpoint, scope, server_name, headers, secrets),
            remote,
        ),
    ensures
        child matches Ok(config) ==> {
            &&& config@.command == command@
            &&& config@.arguments == texts(arguments@)
            &&& config@.server_name == server_name@
            &&& config@.environment == text_entries(environment)
            &&& config@.transport is Stdio
        },
        remote matches Ok(config) ==> {
            &&& config@.server_name == server_name@
            &&& config@.transport == (TransportView::Http {
                endpoint: endpoint@,
                headers: text_entries(headers),
                secret_values: text_entries(secrets),
            })
        },
        scope is Err ==> remote is Err,
{
}

/// The arguments of a child process are the texts of the array that names them.
pub proof fn lemma_arguments_are_read_in_order(
    raw: &str,
    r: Result<Vec<String>, McpConfigError>,
    items: Seq<JsonView>,
    k: int,
)
    requires
        call_ensures(parse_arguments, (raw,), r),
        parsed_json(encode_utf8(raw@)) == Ok::<JsonView, Seq<char>>(JsonView::Array(items)),
    ensures
        r is Ok <==> forall|j: int| 0 <= j < items.len() ==> (#[trigger] items[j]) is Text,
        r is Ok ==> r->Ok_0@.len() == items.len(),
        r is Ok && 0 <= k < items.len() ==> items[k] == JsonView::Text(r->Ok_0@[k]@),
{
    if r is Ok {
        assert(texts(r->Ok_0@).len() == r->Ok_0@.len());
        if 0 <= k < items.len() {
            assert(texts(r->Ok_0@)[k] == r->Ok_0@[k]@);
            assert(items[k] is Text);
        }
    }
}

/// The environment configures a child process unless it asks for HTTP; the child is the command
/// that it names, and runs under the name that it gives, or else under the usual one.
pub proof fn lemma_environment_configures_what_it_names(
    variables: McpVariables,
    scope: Result<(), String>,
    r: Result<McpConfig, McpConfigError>,
)
    requires
        call_ensures(McpConfig::from_env, (&variables, scope), r),
        r is Ok,
    ensures
        variables.transport is Absent ==> r->Ok_0@.transport is Stdio,
        r->Ok_0@.transport is Stdio ==> (variables.command matches Variable::Text(command)
            && r->Ok_0@.command == command@),
        r->Ok_0@.transport matches TransportView::Http { endpoint, .. } ==> (
        variables.endpoint matches Variable::Text(text) && endpoint == text@),
        variables.name matches Variable::Text(name) ==> r->Ok_0@.server_name == name@,
        !(variables.name is Text) ==> r->Ok_0@.server_name == "default"@,
        r->Ok_0@.transport is Stdio && variables.arguments is Absent ==> r->Ok_0@.arguments.len()
            == 0,
{
    reveal_strlit("stdio");
    let word = "stdio"@;
    assert(crate::text::trim_start_of(word) == word);
    assert(crate::text::trim_end_of(word) == word);
    assert(lower_of(word) =~= word);
}

/// A request goes to the server that it names or nowhere: while there is no connection one is
/// made, unless there is only something to take back; a request for another server is refused.
pub proof fn lemma_requests_go_where_they_are_meant(
    call: McpCall,
    connected: Option<&str>,
    r: McpStep,
)
    requires
        call_ensures(next_step, (&call, connected), r),
    ensures
        call matches McpCall::Call { server_name } ==> {
            &&& connected is None ==> r is Connect
            &&& connected matches Some(name) ==> (r is CallTool <==> server_name@ == name@) && (
            r is UnknownServer <==> server_name@ != name@)
        },
        call matches McpCall::Status { server_name } ==> {
            &&& connected is None ==> r is Connect
            &&& connected matches Some(name) ==> (r is ReportReady <==> server_name@ == name@) && (
            r is UnknownServer <==> server_name@ != name@)
        },
        call matches McpCall::Cancel { server_name } ==> {
            &&& connected is None ==> r is NothingToCancel
            &&& connected matches Some(name) ==> (r is ForwardCancel <==> server_name@ == name@) && (
            r is UnknownServer <==> server_name@ != name@)
        },
        call matches McpCall::List { refresh } ==> {
            &&& connected is None ==> r is Connect
            &&& connected is Some ==> (r is Discover <==> refresh) && (r is ShowKnown <==> !refresh)
        },
{
}

// ---------------------------------------------------------------------------
// Frames
// ---------------------------------------------------------------------------
proof fn lemma_first_line_feed(line: Seq<u8>, rest: Seq<u8>)
    requires
        !line.contains(10u8),
    ensures
        line_end(line + seq![10u8] + rest) == Some(line.len() as int),
        line_end(line) is None,
    decreases line.len(),
{
    let all = line + seq![10u8] + rest;
    if line.len() > 0 {
        let next = line.skip(1);
        assert(line.contains(line[0]));
        assert(!next.contains(10u8)) by {
            if next.contains(10u8) {
                let k = choose|k: int| 0 <= k < next.len() && next[k] == 10u8;
                assert(line[k + 1] == 10u8);
            }
        }
        lemma_first_line_feed(next, rest);
        assert(all.skip(1) =~= next + seq![10u8] + rest);
        assert(all[0] == line[0]);
    } else {
        assert(all[0] == 10u8);
    }
}

/// A frame is what stands in front of the first line feed, whatever follows; as long as there is
/// none and there is room, there is no frame yet.
pub proof fn lemma_frames_end_at_line_feeds(line: Seq<u8>, rest: Seq<u8>)
    requires
        !line.contains(10u8),
    ensures
        line.len() < MAX_MCP_FRAME_BYTES && (line.len() == 0 || line.last() != 13) ==> first_frame(
            line + seq![10u8] + rest,
        ) == (StreamView::Frame { frame: line, length: (line.len() + 1) as nat }),
        line.len() < MAX_MCP_FRAME_BYTES && line.len() > 0 && line.last() == 13 ==> first_frame(
            line + seq![10u8] + rest,
        ) == (StreamView::Frame { frame: line.drop_last(), length: (line.len() + 1) as nat }),
        line.len() >= MAX_MCP_FRAME_BYTES ==> first_frame(line + seq![10u8] + rest) is TooLarge,
        line.len() >= MAX_MCP_FRAME_BYTES ==> first_frame(line) is TooLarge,
        line.len() < MAX_MCP_FRAME_BYTES ==> first_frame(line) is Incomplete,
{
    lemma_first_line_feed(line, rest);
    assert((line + seq![10u8] + rest).take(line.len() as int) =~= line);
}

/// A message is sent as a line of its own, unless it is too long.
pub proof fn lemma_messages_are_sent_as_lines(message: Vec<u8>, r: Result<Vec<u8>, McpClientError>)
    requires
        call_ensures(outgoing_frame, (message,), r),
    ensures
        r is Ok <==> message@.len() < MAX_MCP_FRAME_BYTES,
        r matches Ok(frame) ==> frame@ == message@ + seq![10u8],
{
    if let Ok(frame) = r {
        assert(frame@ =~= message@ + seq![10u8]);
    }
}

/// Requests that follow each other have different numbers, and no number is zero.
pub proof fn lemma_requests_are_numbered(id: u64, r: u64)
    requires
        call_ensures(next_request_id, (id,), r),
    ensures
        r != 0,
        r != id,
        id < u64::MAX ==> r == id + 1,
{
}

/// A child that went silent has timed out, and one that is gone has stopped.
pub proof fn lemma_events_are_reported(
    event: ReaderEvent,
    method: &'static str,
    timeout_millis: u64,
    r: Result<Incoming, McpClientError>,
)
    requires
        call_ensures(after_event, (event, method, timeout_millis), r),
    ensures
        event is Silence ==> r is Err && r->Err_0@ is Timeout,
        event is Eof || event is Gone ==> r is Err && r->Err_0@ is ChildStopped,
        event matches ReaderEvent::Error(message) ==> r is Err && r->Err_0@
            == (ClientErrorView::Read { message: message@ }),
        event matches ReaderEvent::Frame(frame) ==> (parsed_json(frame@) matches Ok(value) && !(
        value is Object) ==> r is Err),
        r is Ok ==> event is Frame,
{
}

/// A tool is called if and only if the server has it.
pub proof fn lemma_only_known_tools_are_called(
    tools: Vec<String>,
    name: &str,
    r: Result<(), McpClientError>,
)
    requires
        call_ensures(check_tool, (&tools, name), r),
    ensures
        r is Ok <==> exists|k: int| 0 <= k < tools@.len() && (#[trigger] tools@[k])@ == name@,
        r matches Err(error) ==> error@ == (ClientErrorView::UnknownTool { name: name@ }),
{
    let names = texts(tools@);
    if names.contains(name@) {
        let k = choose|k: int| 0 <= k < names.len() && names[k] == name@;
        assert(tools@[k]@ == name@);
    }
    if exists|k: int| 0 <= k < tools@.len() && (#[trigger] tools@[k])@ == name@ {
        let k = choose|k: int| 0 <= k < tools@.len() && (#[trigger] tools@[k])@ == name@;
        assert(names[k] == name@);
    }
}

/// A request is taken back if and only if it can have been made and the reason can be passed on.
pub proof fn lemma_requests_are_taken_back(id: u64, reason: &str, r: Result<(), McpClientError>)
    requires
        call_ensures(check_cancellation, (id, reason), r),
    ensures
        r is Ok <==> id > 0 && utf8_len(reason@) <= MAX_CANCEL_REASON_BYTES && !has_control(
            reason@,
        ),
        r matches Err(error) ==> error@ is InvalidCancellation,
{
}

/// What a response to a request comes to is its own result, if it is a response to that request
/// and reports no error.
pub proof fn lemma_results_are_taken_as_they_are(
    response: JsonRpcResponse,
    expected: u64,
    method: &'static str,
    secrets: Vec<String>,
    r: Result<Vec<u8>, McpClientError>,
)
    requires
        call_ensures(check_response, (response, expected, method, &secrets), r),
    ensures
        r is Ok <==> {
            &&& response.jsonrpc@ == "2.0"@
            &&& response.id matches Some(id) && id.value@ == JsonView::Number(
                JsonNumberView::Unsigned(expected),
            )
            &&& response.error is None
            &&& response.result matches Some(result) && result@.len() <= MAX_MCP_RESULT_BYTES
        },
        r matches Ok(result) ==> result@ == response.result->0@,
{
}

/// A response is refused if it is said to be, or turns out to be, longer than may be read.
pub proof fn lemma_long_responses_are_refused(
    announced: Option<u64>,
    read: usize,
    r: Result<(), McpClientError>,
)
    requires
        call_ensures(check_response_length, (announced, read), r),
    ensures
        r is Ok <==> read <= MAX_HTTP_RESPONSE_BYTES && (announced is None || announced->0
            <= MAX_HTTP_RESPONSE_BYTES),
{
}

// ---------------------------------------------------------------------------
// Secrets of headers
// ---------------------------------------------------------------------------
/// The header refers to this secret.
pub open spec fn refers_to(value: Seq<char>, reference: Seq<char>) -> bool {
    reference.len() > 0 && value == "secret://"@ + reference
}

proof fn lemma_reference_is_read(value: Seq<char>, reference: Seq<char>)
    ensures
        reference_of(value) == Some(reference) <==> refers_to(value, reference),
{
    let mark = "secret://"@;
    if refers_to(value, reference) {
        assert(value.subrange(0, mark.len() as int) =~= mark);
        assert(value.take(mark.len() as int) =~= mark);
        assert(value.skip(mark.len() as int) =~= reference);
        assert(mark.is_prefix_of(value));
    }
    if reference_of(value) == Some(reference) {
        assert(value =~= mark + reference);
    }
}

proof fn lemma_references_are_those(headers: Entries, reference: Seq<char>)
    ensures
        references_in(headers).contains(reference) <==> exists|k: int|
            0 <= k < headers.len() && refers_to((#[trigger] headers[k]).1, reference),
    decreases headers.len(),
{
    if headers.len() > 0 {
        let front = headers.drop_last();
        let last = headers.last();
        lemma_references_are_those(front, reference);
        lemma_reference_is_read(last.1, reference);
        assert(headers[headers.len() - 1] == last);
        assert(forall|k: int| 0 <= k < front.len() ==> front[k] == headers[k]);
        if references_in(headers).contains(reference) {
            let k = choose|k: int|
                0 <= k < references_in(headers).len() && references_in(headers)[k] == reference;
            if k < references_in(front).len() {
                assert(references_in(front)[k] == reference);
                let j = choose|j: int|
                    0 <= j < front.len() && refers_to((#[trigger] front[j]).1, reference);
                assert(refers_to(headers[j].1, reference));
            } else {
                assert(refers_to(headers[headers.len() - 1].1, reference));
            }
        }
        if exists|k: int|
            0 <= k < headers.len() && refers_to((#[trigger] headers[k]).1, reference) {
            let k = choose|k: int|
                0 <= k < headers.len() && refers_to((#[trigger] headers[k]).1, reference);
            if k < front.len() {
                assert(refers_to(front[k].1, reference));
                let j = choose|j: int|
                    0 <= j < references_in(front).len() && references_in(front)[j] == reference;
                assert(references_in(headers)[j] == reference);
            } else {
                assert(references_in(headers)[references_in(front).len() as int] == reference);
            }
        }
    }
}

/// A configuration asks for the secrets that its headers refer to, and for no others; one of a
/// child process asks for none.
pub proof fn lemma_referred_secrets_are_asked_for(
    config: McpConfig,
    r: Vec<String>,
    reference: Seq<char>,
)
    requires
        call_ensures(McpConfig::secret_references, (&config,), r),
    ensures
        config@.transport is Stdio ==> r@.len() == 0,
        config@.transport matches TransportView::Http { headers, .. } ==> (texts(r@).contains(
            reference,
        ) <==> exists|k: int|
            0 <= k < headers.len() && refers_to((#[trigger] headers[k]).1, reference)),
{
    assert(texts(r@).len() == r@.len());
    if let TransportView::Http { headers, .. } = config@.transport {
        lemma_references_are_those(headers, reference);
    }
}

// ---------------------------------------------------------------------------
// Maps of texts
// ---------------------------------------------------------------------------
proof fn lemma_fields_are_taken(
    fields: Seq<(Seq<char>, JsonView)>,
    i: int,
    before: Entries,
    other: (Seq<char>, Seq<char>),
)
    requires
        0 <= i <= fields.len(),
        sorted(before),
    ensures
        entries_from(fields, i, before) is Ok <==> forall|k: int|
            i <= k < fields.len() ==> (#[trigger] fields[k]).1 is Text,
        entries_from(fields, i, before) is Ok && (forall|k: int|
            i <= k < fields.len() ==> (#[trigger] fields[k]).0 != other.0) ==> (entries_from(
            fields,
            i,
            before,
        )->Ok_0.contains(other) <==> before.contains(other)),
    decreases fields.len() - i,
{
    if i < fields.len() {
        if let JsonView::Text(text) = fields[i].1 {
            lemma_one_more_entry(before, fields[i].0, text, other);
            lemma_fields_are_taken(fields, i + 1, with_entry(before, fields[i].0, text), other);
        }
    }
}

proof fn lemma_field_is_taken(
    fields: Seq<(Seq<char>, JsonView)>,
    i: int,
    before: Entries,
    at: int,
    text: Seq<char>,
)
    requires
        0 <= i <= at < fields.len(),
        sorted(before),
        entries_from(fields, i, before) is Ok,
        fields[at].1 == JsonView::Text(text),
        forall|k: int| at < k < fields.len() ==> (#[trigger] fields[k]).0 != fields[at].0,
    ensures
        entries_from(fields, i, before)->Ok_0.contains((fields[at].0, text)),
    decreases fields.len() - i,
{
    let here = fields[i].1->Text_0;
    lemma_one_more_entry(before, fields[i].0, here, (fields[at].0, text));
    if i < at {
        lemma_field_is_taken(fields, i + 1, with_entry(before, fields[i].0, here), at, text);
    } else {
        lemma_fields_are_taken(
            fields,
            i + 1,
            with_entry(before, fields[i].0, here),
            (fields[at].0, text),
        );
    }
}

/// An object of texts is read as it stands; one with anything else in it is refused.
pub proof fn lemma_objects_of_texts_are_read(
    value: Json,
    r: Result<TextMap<String>, String>,
    fields: Seq<(Seq<char>, JsonView)>,
    at: int,
    text: Seq<char>,
)
    requires
        call_ensures(read_entries, (&value,), r),
        value@ == JsonView::Object(fields),
    ensures
        r is Ok <==> forall|k: int| 0 <= k < fields.len() ==> (#[trigger] fields[k]).1 is Text,
        r is Ok && 0 <= at < fields.len() && fields[at].1 == JsonView::Text(text) && (forall|k: int|
            at < k < fields.len() ==> (#[trigger] fields[k]).0 != fields[at].0) ==> text_entries(
            r->Ok_0,
        ).contains((fields[at].0, text)),
        r is Ok && (forall|k: int| 0 <= k < fields.len() ==> (#[trigger] fields[k]).0 != text)
            ==> forall|entry: (Seq<char>, Seq<char>)| #[trigger]
            text_entries(r->Ok_0).contains(entry) ==> entry.0 != text,
{
    let nothing = Seq::<(Seq<char>, Seq<char>)>::empty();
    lemma_fields_are_taken(fields, 0, nothing, (text, text));
    if r is Ok && 0 <= at < fields.len() && fields[at].1 == JsonView::Text(text) && (forall|k: int|
        at < k < fields.len() ==> (#[trigger] fields[k]).0 != fields[at].0) {
        lemma_field_is_taken(fields, 0, nothing, at, text);
    }
    if r is Ok && (forall|k: int| 0 <= k < fields.len() ==> (#[trigger] fields[k]).0 != text) {
        assert forall|entry: (Seq<char>, Seq<char>)| #[trigger]
            text_entries(r->Ok_0).contains(entry) implies entry.0 != text by {
            lemma_fields_are_taken(fields, 0, nothing, entry);
        }
    }
}

/// A server that names a session is asked within it from then on, and one that names none stays
/// in the session that it is in; a name that cannot be passed on is refused.
pub proof fn lemma_sessions_are_kept(
    transport: &mut HttpTransport,
    session: Option<String>,
    r: Result<(), McpClientError>,
)
    requires
        call_ensures(HttpTransport::accept_session, (transport, session), r),
    ensures
        session is None ==> r is Ok && final(transport).session() == old(transport).session(),
        session matches Some(id) ==> (r is Ok <==> 0 < id@.len() && utf8_len(id@)
            <= MAX_SESSION_ID_BYTES && !has_control(id@)),
        session is Some && r is Ok ==> final(transport).session() == Some(session->0@),
        r is Err ==> final(transport).session() == old(transport).session(),
        final(transport).spec_endpoint() == old(transport).spec_endpoint(),
        final(transport).spec_headers() == old(transport).spec_headers(),
{
}

/// Whatever a stream is cut into, a frame comes of it as soon as its line feed does, and what has
/// been read of it so far is held until then.
pub proof fn lemma_frames_come_of_any_parts(
    buffer: &mut FrameBuffer,
    available: Vec<u8>,
    r: FrameStep,
    line: Seq<u8>,
    rest: Seq<u8>,
)
    requires
        call_ensures(FrameBuffer::feed, (buffer, &available), r),
        !line.contains(10u8),
        line.len() < MAX_MCP_FRAME_BYTES,
        line.len() == 0 || line.last() != 13,
        old(buffer).held() + available@ == line || old(buffer).held() + available@ == line
            + seq![10u8] + rest,
    ensures
        old(buffer).held() + available@ == line ==> r is More && final(buffer).held() == line
            && r->More_consumed == available@.len(),
        old(buffer).held() + available@ == line + seq![10u8] + rest ==> r is Frame && r->frame@
            == line && final(buffer).held().len() == 0 && r->Frame_consumed + old(buffer).held().len() == line.len() + 1,
{
    lemma_frames_end_at_line_feeds(line, rest);
    if old(buffer).held() + available@ == line {
        let all = line + seq![10u8] + rest;
        assert(line.len() < all.len());
    }
}

/// Nothing is sent without leave to use the network, and nothing that is too long; what is sent
/// are the headers of the configuration.
pub proof fn lemma_requests_need_leave(
    transport: HttpTransport,
    allowed: bool,
    grant: SecretGrant,
    length: usize,
    r: Result<Vec<Header>, McpClientError>,
)
    requires
        call_ensures(HttpTransport::prepare_request, (&transport, allowed, &grant, length), r),
    ensures
        r is Ok ==> allowed && length <= MAX_MCP_FRAME_BYTES,
        !allowed ==> r is Err && r->Err_0@ is NetworkDenied,
{
}

/// The arguments of a child process are the texts of a list, in their order; anything else is
/// refused.
pub proof fn lemma_lists_of_texts_are_read(
    value: Json,
    r: Result<Vec<String>, String>,
    items: Seq<JsonView>,
    k: int,
)
    requires
        call_ensures(read_arguments, (&value,), r),
        value@ == JsonView::Array(items),
    ensures
        r is Ok <==> forall|j: int| 0 <= j < items.len() ==> (#[trigger] items[j]) is Text,
        r is Ok ==> r->Ok_0@.len() == items.len(),
        r is Ok && 0 <= k < items.len() ==> items[k] == JsonView::Text(r->Ok_0@[k]@),
{
    if r is Ok {
        assert(texts(r->Ok_0@).len() == r->Ok_0@.len());
        if 0 <= k < items.len() {
            assert(texts(r->Ok_0@)[k] == r->Ok_0@[k]@);
            assert(items[k] is Text);
        }
    }
}

/// Every answer is to the request that it answers: it carries the identifier of the request and
/// either a result or an error, and a method that is not known is answered with an error.
pub proof fn lemma_answers_are_to_their_request(
    mode: &str,
    method: &str,
    id: Json,
    said: &str,
    r: FixtureStep,
)
    requires
        call_ensures(answer_request, (mode, Some(method), id, said), r),
    ensures
        r@ matches FixtureStepView::Answer(answer) ==> {
            &&& answer.has("id"@, id@)
            &&& answer.has("jsonrpc"@, JsonView::Text("2.0"@))
            &&& answer.lacks("result"@) <==> !answer.lacks("error"@)
            &&& method@ != "initialize"@ && method@ != "tools/list"@ && method@ != "tools/call"@
                ==> answer.lacks("result"@)
            &&& method@ == "initialize"@ || method@ == "tools/list"@ ==> !answer.lacks("result"@)
        },
        method@ == "notifications/initialized"@ ==> r@ is Skip,
{
    if let FixtureStepView::Answer(answer) = r@ {
        reveal_strlit("id");
        reveal_strlit("jsonrpc");
        reveal_strlit("result");
        reveal_strlit("error");
        assert("id"@.len() == 2 && "jsonrpc"@.len() == 7 && "result"@.len() == 6 && "error"@.len()
            == 5);
        let fields = answer->Object_0;
        assert(fields.len() == 3);
        if fields[0].0 == "id"@ {
            assert(fields[0] == ("id"@, id@));
            assert(fields[1] == ("jsonrpc"@, JsonView::Text("2.0"@)));
            assert(fields[2].0 == "result"@);
            assert(answer.has("result"@, fields[2].1));
            assert forall|value: JsonView| !answer.has("error"@, value) by {
                if answer.has("error"@, value) {
                    let k = choose|k: int|
                        0 <= k < fields.len() && #[trigger] fields[k] == ("error"@, value);
                    assert(k == 0 || k == 1 || k == 2);
                }
            }
        } else {
            assert(fields[0].0 == "error"@);
            assert(fields[1] == ("id"@, id@));
            assert(fields[2] == ("jsonrpc"@, JsonView::Text("2.0"@)));
            assert(answer.has("error"@, fields[0].1));
            assert forall|value: JsonView| !answer.has("result"@, value) by {
                if answer.has("result"@, value) {
                    let k = choose|k: int|
                        0 <= k < fields.len() && #[trigger] fields[k] == ("result"@, value);
                    assert(k == 0 || k == 1 || k == 2);
                }
            }
        }
    }
}

} // verus!
