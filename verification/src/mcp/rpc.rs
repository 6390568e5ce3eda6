//! The JSON-RPC messages that are exchanged with a server.
use vstd::prelude::*;

use crate::json::{
    bool_field, get_bool, get_text, parse_json, parsed_json, text_field, Json, JsonNumberView,
    JsonView,
};
use crate::mcp::client_error::{ClientErrorView, McpClientError};
use crate::mcp::config_rules::Entries;
use crate::mcp::redact::{redact_text, redact_value, redacted, redacted_text};
use crate::text::{
    any_control, byte_len, contains, has_control, occurs_in, str_eq, text3, texts,
    to_ascii_uppercase,
    trim, trim_of, upper_of, utf8_len,
};
use crate::text_map::{text_entries, TextMap};

verus! {

pub const MAX_MCP_FRAME_BYTES: usize = 1024 * 1024;

pub const MAX_MCP_RESULT_BYTES: usize = 1024 * 1024;

pub const MAX_CANCEL_REASON_BYTES: usize = 1024;

pub const INITIALIZE_METHOD: &'static str = "initialize";

pub const INITIALIZED_NOTIFICATION: &'static str = "notifications/initialized";

pub const TOOLS_LIST_METHOD: &'static str = "tools/list";

pub const TOOLS_CALL_METHOD: &'static str = "tools/call";

pub const CANCELLED_NOTIFICATION: &'static str = "notifications/cancelled";

// ---------------------------------------------------------------------------
// Frames
// ---------------------------------------------------------------------------
/// Where the first line feed stands.
pub open spec fn line_end(bytes: Seq<u8>) -> Option<int>
    decreases bytes.len(),
{
    if bytes.len() == 0 {
        None
    } else if bytes[0] == 10 {
        Some(0)
    } else {
        match line_end(bytes.skip(1)) {
            Some(at) => Some(at + 1),
            None => None,
        }
    }
}

/// A line without the carriage return that ends it.
pub open spec fn without_cr(line: Seq<u8>) -> Seq<u8> {
    if line.len() > 0 && line.last() == 13 {
        line.drop_last()
    } else {
        line
    }
}

/// What the bytes of a stream amount to.
pub enum StreamView {
    Incomplete,
    TooLarge,
    Frame { frame: Seq<u8>, length: nat },
}

/// The first frame of a stream: the line up to its line feed, unless it is too long.
pub open spec fn first_frame(stream: Seq<u8>) -> StreamView {
    match line_end(stream) {
        Some(at) => if at + 1 > MAX_MCP_FRAME_BYTES {
            StreamView::TooLarge
        } else {
            StreamView::Frame { frame: without_cr(stream.take(at)), length: (at + 1) as nat }
        },
        None => if stream.len() >= MAX_MCP_FRAME_BYTES {
            StreamView::TooLarge
        } else {
            StreamView::Incomplete
        },
    }
}

/// How much of the bytes behind a frame that is too long is used up: up to its line feed, or
/// else up to the limit.
pub open spec fn overrun(held: Seq<u8>, available: Seq<u8>) -> int {
    match line_end(held + available) {
        Some(at) => at + 1 - held.len(),
        None => if MAX_MCP_FRAME_BYTES - held.len() < available.len() {
            MAX_MCP_FRAME_BYTES - held.len()
        } else {
            available.len() as int
        },
    }
}

/// What came of some more bytes. `consumed` tells how many of them were used up.
pub enum FrameStep {
    More { consumed: usize },
    Frame { frame: Vec<u8>, consumed: usize },
    TooLarge { consumed: usize },
}

/// The part of a frame that has been read.
pub struct FrameBuffer {
    bytes: Vec<u8>,
}

proof fn lemma_line_end(bytes: Seq<u8>, at: int)
    requires
        0 <= at <= bytes.len(),
        forall|k: int| 0 <= k < at ==> bytes[k] != 10,
    ensures
        at < bytes.len() && bytes[at] == 10 ==> line_end(bytes) == Some(at),
        at == bytes.len() ==> line_end(bytes) is None,
    decreases at,
{
    if at > 0 {
        let rest = bytes.skip(1);
        assert forall|k: int| 0 <= k < at - 1 implies rest[k] != 10 by {
            assert(rest[k] == bytes[k + 1]);
        }
        lemma_line_end(rest, at - 1);
    }
}

/// The line feed that ends a line is the first one.
pub proof fn lemma_line_end_is_first(bytes: Seq<u8>)
    ensures
        match line_end(bytes) {
            Some(at) => {
                &&& 0 <= at < bytes.len()
                &&& bytes[at] == 10
                &&& forall|k: int| 0 <= k < at ==> bytes[k] != 10
            },
            None => forall|k: int| 0 <= k < bytes.len() ==> bytes[k] != 10,
        },
    decreases bytes.len(),
{
    if bytes.len() > 0 && bytes[0] != 10 {
        let rest = bytes.skip(1);
        lemma_line_end_is_first(rest);
        assert forall|k: int| 1 <= k < bytes.len() implies bytes[k] == rest[k - 1] by {}
    }
}

impl FrameBuffer {
    pub closed spec fn held(self) -> Seq<u8> {
        self.bytes@
    }

    /// What is held is a line that has not ended and may still grow.
    #[verifier::type_invariant]
    spec fn open_line(self) -> bool {
        &&& self.bytes@.len() < MAX_MCP_FRAME_BYTES
        &&& forall|k: int| 0 <= k < self.bytes@.len() ==> self.bytes@[k] != 10
    }

    pub fn new() -> (r: Self)
        ensures
            r.held() == Seq::<u8>::empty(),
    {
        let r = FrameBuffer { bytes: Vec::new() };
        assert(r.held() =~= Seq::<u8>::empty());
        r
    }

    /// Nothing of a frame has been read yet.
    pub fn is_empty(&self) -> (r: bool)
        ensures
            r == (self.held().len() == 0),
    {
        self.bytes.len() == 0
    }

    /// Takes in more bytes of a stream. What comes of them depends on all bytes so far, and
    /// not on how they were parted.
    pub fn feed(&mut self, available: &Vec<u8>) -> (r: FrameStep)
        ensures
            match first_frame(old(self).held() + available@) {
                StreamView::Incomplete => {
                    &&& r is More
                    &&& r->More_consumed == available@.len()
                    &&& final(self).held() == old(self).held() + available@
                },
                StreamView::TooLarge => {
                    &&& r is TooLarge
                    &&& r->TooLarge_consumed == overrun(old(self).held(), available@)
                    &&& final(self).held().len() == 0
                },
                StreamView::Frame { frame, length } => {
                    &&& r is Frame
                    &&& r->frame@ == frame
                    &&& r->Frame_consumed == length - old(self).held().len()
                    &&& final(self).held().len() == 0
                },
            },
    {
        proof {
            use_type_invariant(&*self);
        }
        let mut bytes: Vec<u8> = Vec::new();
        std::mem::swap(&mut self.bytes, &mut bytes);
        let ghost stream = bytes@ + available@;
        let start: usize = bytes.len();
        let n: usize = available.len();
        let mut at: usize = 0;
        while at < n && available[at] != 10
            invariant
                n == available@.len(),
                at <= n,
                start == bytes@.len(),
                stream == bytes@ + available@,
                forall|k: int| 0 <= k < start + at ==> stream[k] != 10,
            decreases n - at,
        {
            assert(stream[start + at] == available@[at as int]);
            at += 1;
        }
        proof {
            assert(at < n ==> stream[start + at] == available@[at as int]);
            lemma_line_end(stream, start + at);
        }
        if at < n {
            if at >= MAX_MCP_FRAME_BYTES - start {
                return FrameStep::TooLarge { consumed: at + 1 };
            }
            let mut i: usize = 0;
            while i < at
                invariant
                    at < n,
                    n == available@.len(),
                    i <= at,
                    stream.take(start as int) + available@.take(i as int) == bytes@,
                    start <= stream.len(),
                decreases at - i,
            {
                bytes.push(available[i]);
                assert(stream.take(start as int) + available@.take(i + 1) =~= (stream.take(
                    start as int,
                ) + available@.take(i as int)).push(available@[i as int]));
                i += 1;
            }
            assert(bytes@ =~= stream.take(start + at));
            if bytes.len() > 0 && bytes[bytes.len() - 1] == 13 {
                let _ = bytes.pop();
                assert(bytes@ =~= without_cr(stream.take(start + at)));
            }
            return FrameStep::Frame { frame: bytes, consumed: at + 1 };
        }
        if n >= MAX_MCP_FRAME_BYTES - start {
            let rest: usize = MAX_MCP_FRAME_BYTES - start;
            return FrameStep::TooLarge {
                consumed: if rest < n {
                    rest
                } else {
                    n
                },
            };
        }
        bytes.extend_from_slice(available.as_slice());
        assert(bytes@ =~= stream);
        self.bytes = bytes;
        FrameStep::More { consumed: n }
    }
}

/// The sentence about a frame that is too long.
pub fn frame_too_large_message() -> (r: &'static str)
    ensures
        r@ == "MCP JSON-RPC frame exceeds the maximum size"@,
{
    "MCP JSON-RPC frame exceeds the maximum size"
}

/// What the end of a stream means: the server is done, or it stopped within a frame.
pub fn at_end_of_stream(buffer: &FrameBuffer) -> (r: Result<(), String>)
    ensures
        r is Ok == (buffer.held().len() == 0),
        r is Err ==> r->Err_0@ == "MCP Server closed stdout before a JSON-RPC newline"@,
{
    if buffer.is_empty() {
        Ok(())
    } else {
        Err("MCP Server closed stdout before a JSON-RPC newline".to_owned())
    }
}

/// An encoded message with the line feed that ends its frame, unless that is too long.
pub fn outgoing_frame(message: Vec<u8>) -> (r: Result<Vec<u8>, McpClientError>)
    requires
        message@.len() < usize::MAX,
    ensures
        if message@.len() + 1 > MAX_MCP_FRAME_BYTES {
            r is Err && r->Err_0@ == (ClientErrorView::FrameTooLarge {
                size: message@.len() + 1,
                maximum: MAX_MCP_FRAME_BYTES as nat,
            })
        } else {
            r is Ok && r->Ok_0@ == message@.push(10u8)
        },
{
    let size: usize = message.len() + 1;
    if size > MAX_MCP_FRAME_BYTES {
        return Err(McpClientError::FrameTooLarge { size, maximum: MAX_MCP_FRAME_BYTES });
    }
    let mut frame = message;
    frame.push(10);
    Ok(frame)
}

/// A frame of its own is read back as it was written, as long as it is one line and does not
/// end in a carriage return.
pub proof fn lemma_frames_round_trip(message: Seq<u8>)
    requires
        message.len() + 1 <= MAX_MCP_FRAME_BYTES,
        forall|k: int| 0 <= k < message.len() ==> message[k] != 10,
        message.len() > 0 ==> message.last() != 13,
    ensures
        first_frame(message.push(10u8)) == (StreamView::Frame {
            frame: message,
            length: message.len() + 1,
        }),
{
    let stream = message.push(10u8);
    lemma_line_end(stream, message.len() as int);
    assert(stream.take(message.len() as int) =~= message);
}

// ---------------------------------------------------------------------------
// Requests and responses
// ---------------------------------------------------------------------------
/// Requests are numbered from one; after the last number comes the first one.
pub open spec fn id_after(id: u64) -> u64 {
    if id == u64::MAX {
        1
    } else {
        (id + 1) as u64
    }
}

pub fn next_request_id(id: u64) -> (r: u64)
    ensures
        r == id_after(id),
{
    match id.checked_add(1) {
        Some(next) => next,
        None => 1,
    }
}

/// No request is ever numbered zero, and two requests in a row have different numbers.
pub proof fn lemma_request_ids(id: u64)
    ensures
        id_after(id) > 0,
        id_after(id) != id,
{
}

/// A message of the server: one that asks for nothing, or one that may be a response.
pub enum Incoming {
    Notification,
    Message(Json),
}

pub open spec fn malformed(message: Seq<char>) -> ClientErrorView {
    ClientErrorView::MalformedJson { message }
}

/// What a frame means as a message.
pub open spec fn frame_means(r: Result<Incoming, McpClientError>, frame: Seq<u8>) -> bool {
    match parsed_json(frame) {
        Err(message) => r is Err && r->Err_0@ == malformed(message),
        Ok(value) => incoming(r, value),
    }
}

/// What a frame holds.
pub fn read_message(frame: &Vec<u8>) -> (r: Result<Incoming, McpClientError>)
    ensures
        frame_means(r, frame@),
{
    match parse_json(frame.as_slice()) {
        Err(message) => Err(McpClientError::MalformedJson { message }),
        Ok(value) => classify_message(value),
    }
}

/// What a value means as a message.
pub open spec fn incoming(r: Result<Incoming, McpClientError>, value: JsonView) -> bool {
    if !(value is Object) {
        r is Err && r->Err_0@ == malformed("JSON-RPC message must be an object"@)
    } else if value.field("method"@) is Some && value.field("id"@) is None {
        r is Ok && r->Ok_0 is Notification
    } else {
        r is Ok && r->Ok_0 is Message && r->Ok_0->Message_0@ == value
    }
}

pub fn classify_message(value: Json) -> (r: Result<Incoming, McpClientError>)
    ensures
        incoming(r, value@),
{
    if !value.is_object() {
        return Err(
            McpClientError::MalformedJson {
                message: "JSON-RPC message must be an object".to_owned(),
            },
        );
    }
    if value.get("method").is_some() && value.get("id").is_none() {
        return Ok(Incoming::Notification);
    }
    Ok(Incoming::Message(value))
}

/// What waiting for a message came to: a frame, a reader that failed or reached the end, no
/// event in time, or no reader any more.
#[derive(Clone, Debug, PartialEq, Eq)]
pub enum ReaderEvent {
    Frame(Vec<u8>),
    Error(String),
    Eof,
    Silence,
    Gone,
}

/// How much longer a response is waited for, in nanoseconds; not at all once the time is up.
pub fn time_left(elapsed_nanos: u128, timeout_nanos: u128) -> (r: Option<u128>)
    ensures
        r == if elapsed_nanos < timeout_nanos {
            Some((timeout_nanos - elapsed_nanos) as u128)
        } else {
            None
        },
{
    if elapsed_nanos < timeout_nanos {
        Some(timeout_nanos - elapsed_nanos)
    } else {
        None
    }
}

/// What an event means to a request that waits for its response. After a notification the
/// request goes on waiting.
pub fn after_event(event: ReaderEvent, method: &'static str, timeout_millis: u64) -> (r: Result<
    Incoming,
    McpClientError,
>)
    ensures
        match event {
            ReaderEvent::Frame(frame) => frame_means(r, frame@),
            ReaderEvent::Error(message) => r is Err && r->Err_0@ == (ClientErrorView::Read {
                message: message@,
            }),
            ReaderEvent::Eof | ReaderEvent::Gone => r is Err && r->Err_0@
                == ClientErrorView::ChildStopped,
            ReaderEvent::Silence => r is Err && r->Err_0@ == (ClientErrorView::Timeout {
                method: method@,
                timeout_millis: timeout_millis as nat,
            }),
        },
{
    match event {
        ReaderEvent::Frame(frame) => read_message(&frame),
        ReaderEvent::Error(message) => Err(McpClientError::Read { message }),
        ReaderEvent::Eof => Err(McpClientError::ChildStopped),
        ReaderEvent::Gone => Err(McpClientError::ChildStopped),
        ReaderEvent::Silence => Err(McpClientError::Timeout { method, timeout_millis }),
    }
}

/// The identifier of a response, and how it is shown.
#[derive(Debug)]
pub struct ResponseId {
    pub value: Json,
    pub shown: String,
}

#[derive(Clone, Debug)]
pub struct JsonRpcError {
    pub code: i64,
    pub message: String,
}

/// A response; its result is the encoded value.
#[derive(Debug)]
pub struct JsonRpcResponse {
    pub jsonrpc: String,
    pub id: Option<ResponseId>,
    pub result: Option<Vec<u8>>,
    pub error: Option<JsonRpcError>,
}

impl JsonRpcResponse {
    /// The response is to this request.
    pub open spec fn answers(self, id: u64) -> bool {
        match self.id {
            Some(received) => received.value@ == JsonView::Number(JsonNumberView::Unsigned(id)),
            None => false,
        }
    }

    /// How the identifier is shown.
    pub open spec fn shown_id(self) -> Seq<char> {
        match self.id {
            Some(received) => "Some("@ + received.shown@ + ")"@,
            None => "None"@,
        }
    }
}

/// What a response to a request comes to: the encoded result, or why there is none.
pub open spec fn response_outcome(
    response: JsonRpcResponse,
    expected: u64,
    method: Seq<char>,
    secrets: Seq<Seq<char>>,
) -> Result<Seq<u8>, ClientErrorView> {
    if response.jsonrpc@ != "2.0"@ {
        Err(
            ClientErrorView::InvalidResponse { method, message: "JSON-RPC version must be 2.0"@ },
        )
    } else if !response.answers(expected) {
        Err(
            ClientErrorView::UnexpectedResponseId {
                expected: expected as nat,
                received: response.shown_id(),
            },
        )
    } else if let Some(error) = response.error {
        Err(
            ClientErrorView::Remote {
                code: error.code,
                message: redacted_text(error.message@, secrets),
            },
        )
    } else {
        match response.result {
            None => Err(
                ClientErrorView::InvalidResponse {
                    method,
                    message: "JSON-RPC response has neither result nor error"@,
                },
            ),
            Some(result) => if result@.len() > MAX_MCP_RESULT_BYTES {
                Err(
                    ClientErrorView::FrameTooLarge {
                        size: result@.len(),
                        maximum: MAX_MCP_RESULT_BYTES as nat,
                    },
                )
            } else {
                Ok(result@)
            },
        }
    }
}

/// The encoded result of a response to a request.
pub fn check_response(
    response: JsonRpcResponse,
    expected: u64,
    method: &'static str,
    secrets: &Vec<String>,
) -> (r: Result<Vec<u8>, McpClientError>)
    ensures
        match response_outcome(response, expected, method@, texts(secrets@)) {
            Ok(result) => r is Ok && r->Ok_0@ == result,
            Err(error) => r is Err && r->Err_0@ == error,
        },
{
    if !str_eq(response.jsonrpc.as_str(), "2.0") {
        return Err(
            McpClientError::InvalidResponse {
                method,
                message: "JSON-RPC version must be 2.0".to_owned(),
            },
        );
    }
    let answers = match &response.id {
        Some(received) => match received.value.as_u64() {
            Some(id) => id == expected,
            None => false,
        },
        None => false,
    };
    if !answers {
        let received = match &response.id {
            Some(received) => text3("Some(", received.shown.as_str(), ")"),
            None => "None".to_owned(),
        };
        return Err(McpClientError::UnexpectedResponseId { expected, received });
    }
    if let Some(error) = &response.error {
        return Err(
            McpClientError::Remote {
                code: error.code,
                message: redact_text(error.message.as_str(), secrets),
            },
        );
    }
    match response.result {
        None => Err(
            McpClientError::InvalidResponse {
                method,
                message: "JSON-RPC response has neither result nor error".to_owned(),
            },
        ),
        Some(result) => {
            if result.len() > MAX_MCP_RESULT_BYTES {
                return Err(
                    McpClientError::FrameTooLarge {
                        size: result.len(),
                        maximum: MAX_MCP_RESULT_BYTES,
                    },
                );
            }
            Ok(result)
        },
    }
}

/// The result of a response to a request, without the secrets that are known.
pub fn validate_response(
    response: JsonRpcResponse,
    expected: u64,
    method: &'static str,
    secrets: &Vec<String>,
) -> (r: Result<Json, McpClientError>)
    ensures
        match response_outcome(response, expected, method@, texts(secrets@)) {
            Err(error) => r is Err && r->Err_0@ == error,
            Ok(result) => match parsed_json(result) {
                Ok(value) => r is Ok && r->Ok_0@ == redacted(value, texts(secrets@)),
                Err(message) => r is Err && r->Err_0@ == malformed(message),
            },
        },
{
    let result = check_response(response, expected, method, secrets)?;
    match parse_json(result.as_slice()) {
        Ok(value) => Ok(redact_value(&value, secrets)),
        Err(message) => Err(McpClientError::MalformedJson { message }),
    }
}

// ---------------------------------------------------------------------------
// What the methods give back
// ---------------------------------------------------------------------------
fn invalid_response(method: &'static str, message: &str) -> (r: McpClientError)
    ensures
        r@ == (ClientErrorView::InvalidResponse { method: method@, message: message@ }),
{
    McpClientError::InvalidResponse { method, message: message.to_owned() }
}

/// Why a server's answer to `initialize` does not do.
pub open spec fn initialize_problem(value: JsonView) -> Option<Seq<char>> {
    if !(value is Object) {
        Some("initialize result must be an object"@)
    } else {
        match text_field(value, "protocolVersion"@) {
            Some(version) => if trim_of(version).len() == 0 {
                Some("initialize result has no protocolVersion"@)
            } else if utf8_len(version) > 64 {
                Some("initialize protocolVersion is too long"@)
            } else {
                None
            },
            None => Some("initialize result has no protocolVersion"@),
        }
    }
}

pub fn validate_initialize_result(value: &Json) -> (r: Result<(), McpClientError>)
    ensures
        match initialize_problem(value@) {
            None => r is Ok,
            Some(message) => r is Err && r->Err_0@ == (ClientErrorView::InvalidResponse {
                method: INITIALIZE_METHOD@,
                message,
            }),
        },
{
    if !value.is_object() {
        return Err(invalid_response(INITIALIZE_METHOD, "initialize result must be an object"));
    }
    let version = match get_text(value, "protocolVersion") {
        Some(version) => version,
        None => {
            return Err(
                invalid_response(INITIALIZE_METHOD, "initialize result has no protocolVersion"),
            );
        },
    };
    if trim(version).is_empty() {
        return Err(
            invalid_response(INITIALIZE_METHOD, "initialize result has no protocolVersion"),
        );
    }
    if byte_len(version) > 64 {
        return Err(invalid_response(INITIALIZE_METHOD, "initialize protocolVersion is too long"));
    }
    Ok(())
}

/// Whether a server's answer to `tools/list` leaves tools out, if it is such an answer.
pub open spec fn tools_outcome(value: JsonView) -> Result<bool, Seq<char>> {
    if !(value is Object) {
        Err("tools/list result must be an object"@)
    } else if value.field("tools"@) is None {
        Err("tools/list result has no tools array"@)
    } else {
        Ok(value.field("nextCursor"@) is Some && !(value.field("nextCursor"@)->0 is Null))
    }
}

pub fn check_tools_result(value: &Json) -> (r: Result<bool, McpClientError>)
    ensures
        match tools_outcome(value@) {
            Ok(truncated) => r is Ok && r->Ok_0 == truncated,
            Err(message) => r is Err && r->Err_0@ == (ClientErrorView::InvalidResponse {
                method: TOOLS_LIST_METHOD@,
                message,
            }),
        },
{
    if !value.is_object() {
        return Err(invalid_response(TOOLS_LIST_METHOD, "tools/list result must be an object"));
    }
    if value.get("tools").is_none() {
        return Err(invalid_response(TOOLS_LIST_METHOD, "tools/list result has no tools array"));
    }
    match value.get("nextCursor") {
        Some(cursor) => Ok(!cursor.is_null()),
        None => Ok(false),
    }
}

/// A tool is called only if the server has named it.
pub fn check_tool(tools: &Vec<String>, name: &str) -> (r: Result<(), McpClientError>)
    ensures
        r is Ok == texts(tools@).contains(name@),
        r is Err ==> r->Err_0@ == (ClientErrorView::UnknownTool { name: name@ }),
{
    let n: usize = tools.len();
    let mut i: usize = 0;
    while i < n
        invariant
            n == tools@.len(),
            i <= n,
            forall|k: int| 0 <= k < i ==> (#[trigger] texts(tools@)[k]) != name@,
        decreases n - i,
    {
        if str_eq(tools[i].as_str(), name) {
            assert(texts(tools@)[i as int] == name@);
            return Ok(());
        }
        i += 1;
    }
    Err(McpClientError::UnknownTool { name: name.to_owned() })
}

/// A tool says of itself that it failed.
pub fn tool_failed(value: &Json) -> (r: bool)
    ensures
        r == (bool_field(value@, "isError"@) == Some(true)),
{
    match get_bool(value, "isError") {
        Some(failed) => failed,
        None => false,
    }
}

/// Why a request cannot be taken back.
pub open spec fn cancellation_problem(id: u64, reason: Seq<char>) -> Option<Seq<char>> {
    if id == 0 {
        Some("request id must be greater than zero"@)
    } else if utf8_len(reason) > MAX_CANCEL_REASON_BYTES || has_control(reason) {
        Some("cancellation reason is invalid or too long"@)
    } else {
        None
    }
}

pub fn check_cancellation(id: u64, reason: &str) -> (r: Result<(), McpClientError>)
    ensures
        match cancellation_problem(id, reason@) {
            None => r is Ok,
            Some(message) => r is Err && r->Err_0@ == (ClientErrorView::InvalidCancellation {
                message,
            }),
        },
{
    if id == 0 {
        return Err(
            McpClientError::InvalidCancellation {
                message: "request id must be greater than zero".to_owned(),
            },
        );
    }
    if byte_len(reason) > MAX_CANCEL_REASON_BYTES || any_control(reason) {
        return Err(
            McpClientError::InvalidCancellation {
                message: "cancellation reason is invalid or too long".to_owned(),
            },
        );
    }
    Ok(())
}

/// A request that was given up in time is taken back at the server; nothing else is.
pub fn is_taken_back(error: &McpClientError) -> (r: bool)
    ensures
        r == (error@ is Timeout),
{
    match error {
        McpClientError::Timeout { .. } => true,
        _ => false,
    }
}

// ---------------------------------------------------------------------------
// What is kept secret of a child process
// ---------------------------------------------------------------------------
/// The name of a variable tells that its value is secret.
pub open spec fn is_sensitive_name(name: Seq<char>) -> bool {
    let name = upper_of(name);
    ||| occurs_in(name, "KEY"@)
    ||| occurs_in(name, "TOKEN"@)
    ||| occurs_in(name, "SECRET"@)
    ||| occurs_in(name, "PASSWORD"@)
    ||| occurs_in(name, "AUTH"@)
}

pub fn is_sensitive_environment_key(key: &str) -> (r: bool)
    ensures
        r == is_sensitive_name(key@),
{
    let key = to_ascii_uppercase(key);
    let key = key.as_str();
    contains(key, "KEY") || contains(key, "TOKEN") || contains(key, "SECRET") || contains(
        key,
        "PASSWORD",
    ) || contains(key, "AUTH")
}

/// The values of sensitive variables, in their order.
pub open spec fn sensitive_values(environment: Entries) -> Seq<Seq<char>>
    decreases environment.len(),
{
    if environment.len() == 0 {
        Seq::empty()
    } else {
        let last = environment.last();
        let before = sensitive_values(environment.drop_last());
        if is_sensitive_name(last.0) && last.1.len() > 0 {
            before.push(last.1)
        } else {
            before
        }
    }
}

/// What is taken out of all that a child process says.
pub fn redactions(environment: &TextMap<String>) -> (r: Vec<String>)
    ensures
        texts(r@) == sensitive_values(text_entries(*environment)),
{
    let n: usize = environment.len();
    let ghost entries = text_entries(*environment);
    let mut out: Vec<String> = Vec::new();
    let mut i: usize = 0;
    assert(entries.take(0) =~= Seq::<(Seq<char>, Seq<char>)>::empty());
    assert(texts(out@) =~= Seq::<Seq<char>>::empty());
    while i < n
        invariant
            n == environment.entries().len(),
            i <= n,
            entries == text_entries(*environment),
            texts(out@) == sensitive_values(entries.take(i as int)),
        decreases n - i,
    {
        proof {
            assert(entries.take(i + 1).drop_last() =~= entries.take(i as int));
            assert(entries.take(i + 1).last() == entries[i as int]);
        }
        let value = environment.value_at(i).as_str();
        if is_sensitive_environment_key(environment.key_at(i)) && !value.is_empty() {
            let ghost before = out@;
            out.push(value.to_owned());
            assert(texts(out@) =~= texts(before).push(value@));
        }
        i += 1;
    }
    assert(entries.take(n as int) =~= entries);
    out
}

} // verus!
