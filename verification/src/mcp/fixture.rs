//! A server that answers in a fixed way, for trials of the client.
use vstd::prelude::*;

use crate::json::{
    from_value, json_text, parsed_json, read_value, value_field, value_text, Json, JsonNumber,
    JsonNumberView, JsonView,
};
use crate::text::str_eq;

verus! {

/// What the server does about a line.
#[derive(Debug, PartialEq, Eq)]
pub enum FixtureStep {
    /// End.
    Stop,
    /// Read the next line.
    Skip,
    /// Write a line that is no JSON, and end.
    Garble,
    /// Write this answer, and read the next line.
    Answer(Json),
}

pub enum FixtureStepView {
    Stop,
    Skip,
    Garble,
    Answer(JsonView),
}

impl View for FixtureStep {
    type V = FixtureStepView;

    open spec fn view(&self) -> FixtureStepView {
        match *self {
            FixtureStep::Stop => FixtureStepView::Stop,
            FixtureStep::Skip => FixtureStepView::Skip,
            FixtureStep::Garble => FixtureStepView::Garble,
            FixtureStep::Answer(answer) => FixtureStepView::Answer(answer@),
        }
    }
}

// ---------------------------------------------------------------------------
// Values
// ---------------------------------------------------------------------------
/// An object of one field.
pub open spec fn one(name: Seq<char>, value: JsonView) -> JsonView {
    JsonView::Object(seq![(name, value)])
}

/// An object of two fields.
pub open spec fn two(
    name: Seq<char>,
    value: JsonView,
    name2: Seq<char>,
    value2: JsonView,
) -> JsonView {
    JsonView::Object(seq![(name, value), (name2, value2)])
}

/// An object of three fields.
pub open spec fn three(
    name: Seq<char>,
    value: JsonView,
    name2: Seq<char>,
    value2: JsonView,
    name3: Seq<char>,
    value3: JsonView,
) -> JsonView {
    JsonView::Object(seq![(name, value), (name2, value2), (name3, value3)])
}

fn object1(name: &str, value: Json) -> (r: Json)
    ensures
        r@ == one(name@, value@),
{
    let r = Json::Object(vec![(name.to_owned(), value)]);
    assert(r@->Object_0 =~= one(name@, value@)->Object_0);
    r
}

fn object2(name: &str, value: Json, name2: &str, value2: Json) -> (r: Json)
    ensures
        r@ == two(name@, value@, name2@, value2@),
{
    let r = Json::Object(vec![(name.to_owned(), value), (name2.to_owned(), value2)]);
    assert(r@->Object_0 =~= two(name@, value@, name2@, value2@)->Object_0);
    r
}

fn object3(name: &str, value: Json, name2: &str, value2: Json, name3: &str, value3: Json) -> (r:
    Json)
    ensures
        r@ == three(name@, value@, name2@, value2@, name3@, value3@),
{
    let r = Json::Object(
        vec![
            (name.to_owned(), value),
            (name2.to_owned(), value2),
            (name3.to_owned(), value3),
        ],
    );
    assert(r@->Object_0 =~= three(name@, value@, name2@, value2@, name3@, value3@)->Object_0);
    r
}

fn list1(value: Json) -> (r: Json)
    ensures
        r@ == JsonView::Array(seq![value@]),
{
    let r = Json::Array(vec![value]);
    assert(r@->Array_0 =~= seq![value@]);
    r
}

fn text(value: &str) -> (r: Json)
    ensures
        r@ == JsonView::Text(value@),
{
    Json::Text(value.to_owned())
}

fn empty() -> (r: Json)
    ensures
        r@ == JsonView::Object(Seq::empty()),
{
    let r = Json::Object(Vec::new());
    assert(r@->Object_0 =~= Seq::<(Seq<char>, JsonView)>::empty());
    r
}

// ---------------------------------------------------------------------------
// Answers
// ---------------------------------------------------------------------------
pub open spec fn result_answer(id: JsonView, result: JsonView) -> JsonView {
    three("id"@, id, "jsonrpc"@, JsonView::Text("2.0"@), "result"@, result)
}

pub open spec fn error_answer(id: JsonView, code: i64, message: Seq<char>) -> JsonView {
    three(
        "error"@,
        two(
            "code"@,
            JsonView::Number(JsonNumberView::Negative(code)),
            "message"@,
            JsonView::Text(message),
        ),
        "id"@,
        id,
        "jsonrpc"@,
        JsonView::Text("2.0"@),
    )
}

/// What the server says of itself.
pub open spec fn greeting() -> JsonView {
    three(
        "capabilities"@,
        one("tools"@, JsonView::Object(Seq::empty())),
        "protocolVersion"@,
        JsonView::Text("2024-11-05"@),
        "serverInfo"@,
        two("name"@, JsonView::Text("fixture"@), "version"@, JsonView::Text("1.0.0"@)),
    )
}

/// The one tool of the server.
pub open spec fn tool_list() -> JsonView {
    one(
        "tools"@,
        JsonView::Array(
            seq![
                three(
                    "description"@,
                    JsonView::Text("Return the provided arguments."@),
                    "inputSchema"@,
                    two(
                        "additionalProperties"@,
                        JsonView::Bool(true),
                        "type"@,
                        JsonView::Text("object"@),
                    ),
                    "name"@,
                    JsonView::Text("echo"@),
                ),
            ],
        ),
    )
}

/// The arguments of a call as text.
pub open spec fn echoed(request: JsonView) -> Seq<char> {
    match request.field("params"@) {
        Some(params) => match params.field("arguments"@) {
            Some(arguments) => json_text(arguments),
            None => "{}"@,
        },
        None => "{}"@,
    }
}

/// What a call gives back: its arguments.
pub open spec fn echo(said: Seq<char>) -> JsonView {
    two(
        "content"@,
        JsonView::Array(seq![two("text"@, JsonView::Text(said), "type"@, JsonView::Text("text"@))]),
        "isError"@,
        JsonView::Bool(false),
    )
}

/// The identifier of a request, or null.
pub open spec fn request_id(request: JsonView) -> JsonView {
    match request.field("id"@) {
        Some(id) => id,
        None => JsonView::Null,
    }
}

/// The answer to a request.
pub open spec fn fixture_answer(
    mode: Seq<char>,
    method: Seq<char>,
    id: JsonView,
    said: Seq<char>,
) -> JsonView {
    if method == "initialize"@ {
        result_answer(id, greeting())
    } else if method == "tools/list"@ {
        result_answer(id, tool_list())
    } else if method == "tools/call"@ && mode == "rpc-error"@ {
        error_answer(id, (-32001) as i64, "fixture rejected the call"@)
    } else if method == "tools/call"@ {
        result_answer(id, echo(said))
    } else {
        error_answer(id, (-32601) as i64, "method not found"@)
    }
}

/// What the server does about a request, in one of its modes.
pub open spec fn request_step(
    mode: Seq<char>,
    method: Option<Seq<char>>,
    id: JsonView,
    said: Seq<char>,
) -> FixtureStepView {
    match method {
        None => FixtureStepView::Skip,
        Some(method) => if method == "notifications/initialized"@ {
            FixtureStepView::Skip
        } else if mode == "crash"@ && method == "tools/list"@ {
            FixtureStepView::Stop
        } else if mode == "call-crash"@ && method == "tools/call"@ {
            FixtureStepView::Stop
        } else if mode == "malformed"@ && method == "tools/list"@ {
            FixtureStepView::Garble
        } else {
            FixtureStepView::Answer(fixture_answer(mode, method, id, said))
        },
    }
}

/// What the server does about a line, given what the line spells.
pub open spec fn fixture_step(
    mode: Seq<char>,
    line: Result<JsonView, Seq<char>>,
) -> FixtureStepView {
    match line {
        Err(_) => FixtureStepView::Stop,
        Ok(request) => request_step(
            mode,
            match request.field("method"@) {
                Some(method) => method.as_text(),
                None => None,
            },
            request_id(request),
            echoed(request),
        ),
    }
}

fn succeed(id: Json, result: Json) -> (r: Json)
    ensures
        r@ == result_answer(id@, result@),
{
    object3("id", id, "jsonrpc", text("2.0"), "result", result)
}

fn fail(id: Json, code: i64, message: &str) -> (r: Json)
    ensures
        r@ == error_answer(id@, code, message@),
{
    let number = Json::Number(JsonNumber::Negative(code));
    let error = object2("code", number, "message", text(message));
    object3("error", error, "id", id, "jsonrpc", text("2.0"))
}

fn greet() -> (r: Json)
    ensures
        r@ == greeting(),
{
    object3(
        "capabilities",
        object1("tools", empty()),
        "protocolVersion",
        text("2024-11-05"),
        "serverInfo",
        object2("name", text("fixture"), "version", text("1.0.0")),
    )
}

fn list_tools() -> (r: Json)
    ensures
        r@ == tool_list(),
{
    let schema = object2("additionalProperties", Json::Bool(true), "type", text("object"));
    let tool = object3(
        "description",
        text("Return the provided arguments."),
        "inputSchema",
        schema,
        "name",
        text("echo"),
    );
    object1("tools", list1(tool))
}

fn echo_back(said: &str) -> (r: Json)
    ensures
        r@ == echo(said@),
{
    let item = object2("text", text(said), "type", text("text"));
    object2("content", list1(item), "isError", Json::Bool(false))
}

/// What the server does about a request of this method. `said` is the text of its arguments.
pub fn answer_request(mode: &str, method: Option<&str>, id: Json, said: &str) -> (r: FixtureStep)
    ensures
        r@ == request_step(
            mode@,
            match method {
                Some(method) => Some(method@),
                None => None,
            },
            id@,
            said@,
        ),
{
    let method = match method {
        Some(method) => method,
        None => return FixtureStep::Skip,
    };
    if str_eq(method, "notifications/initialized") {
        return FixtureStep::Skip;
    }
    let lists = str_eq(method, "tools/list");
    let calls = str_eq(method, "tools/call");
    if (str_eq(mode, "crash") && lists) || (str_eq(mode, "call-crash") && calls) {
        return FixtureStep::Stop;
    }
    if str_eq(mode, "malformed") && lists {
        return FixtureStep::Garble;
    }
    FixtureStep::Answer(
        if str_eq(method, "initialize") {
            succeed(id, greet())
        } else if lists {
            succeed(id, list_tools())
        } else if calls && str_eq(mode, "rpc-error") {
            fail(id, -32001, "fixture rejected the call")
        } else if calls {
            succeed(id, echo_back(said))
        } else {
            fail(id, -32601, "method not found")
        },
    )
}

/// What the server does about a line.
pub fn answer_line(mode: &str, line: &[u8]) -> (r: FixtureStep)
    ensures
        r@ == fixture_step(mode@, parsed_json(line@)),
{
    let request = match read_value(line) {
        Ok(request) => request,
        Err(_) => return FixtureStep::Stop,
    };
    let said = match value_field(&request, "params") {
        Some(params) => match value_field(params, "arguments") {
            Some(arguments) => value_text(arguments),
            None => "{}".to_owned(),
        },
        None => "{}".to_owned(),
    };
    let id = match value_field(&request, "id") {
        Some(id) => from_value(id),
        None => Json::Null,
    };
    let whole = from_value(&request);
    let method = match whole.get("method") {
        Some(method) => method.as_str(),
        None => None,
    };
    answer_request(mode, method, id, said.as_str())
}

} // verus!
