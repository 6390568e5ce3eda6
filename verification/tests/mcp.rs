//! The MCP bridge: configuration, messages, transport and dispatch.
use yunxi::grants::SecretGrant;
use yunxi::json::{parse_json, Json};
use yunxi::mcp::client_error::McpClientError;
use yunxi::mcp::config::{McpConfig, McpTransportKind, ARGS_ENV, CHILD_ENV_ENV, COMMAND_ENV};
use yunxi::mcp::config_env::{parse_arguments, parse_environment, McpVariables, Variable};
use yunxi::mcp::config_error::McpConfigError;
use yunxi::mcp::fixture::{answer_line, FixtureStep};
use yunxi::mcp::http::{
    check_request_length, check_response_length, parse_response, parse_sse, sse_data,
    HttpReply, HttpTransport, MAX_HTTP_RESPONSE_BYTES,
};
use yunxi::mcp::plugin::{
    cancel_result, conclude, next_step, refuse_server, required_grants, McpCall,
    McpConclusion, McpPluginError, McpStep,
};
use yunxi::mcp::redact::{redact_text, redact_value};
use yunxi::mcp::rpc::{
    after_event, at_end_of_stream, check_cancellation, check_tool, check_tools_result,
    frame_too_large_message, is_taken_back, next_request_id, outgoing_frame, read_message,
    redactions, time_left, tool_failed, validate_initialize_result, validate_response, FrameBuffer,
    FrameStep, Incoming, JsonRpcError, JsonRpcResponse, ReaderEvent, ResponseId,
    MAX_MCP_FRAME_BYTES, TOOLS_CALL_METHOD,
};
use yunxi::plugin::dispatch::Reply;
use yunxi::plugin::requirement::GrantKind;
use yunxi::text_map::TextMap;

fn map(entries: &[(&str, &str)]) -> TextMap<String> {
    let mut out = TextMap::new();
    for (name, value) in entries {
        out.insert(name.to_string(), value.to_string());
    }
    out
}

fn json(raw: &str) -> Json {
    parse_json(raw.as_bytes()).expect("JSON")
}

fn response(id: u64, result: Option<&str>, error: Option<(i64, &str)>) -> JsonRpcResponse {
    JsonRpcResponse {
        jsonrpc: "2.0".to_string(),
        id: Some(ResponseId { value: json(&id.to_string()), shown: format!("Number({id})") }),
        result: result.map(|raw| raw.as_bytes().to_vec()),
        error: error.map(|(code, message)| JsonRpcError { code, message: message.to_string() }),
    }
}

fn secret_config() -> McpConfig {
    McpConfig::http_with_secrets(
        "http://127.0.0.1:43123/mcp",
        Ok(()),
        "fixture",
        map(&[("Authorization", "secret://fixture/token"), ("X-Fixture", "yes")]),
        map(&[("fixture/token", "fixture-secret-value")]),
    )
    .expect("HTTP config")
}

#[test]
fn config_accepts_direct_command_and_explicit_environment() {
    let config = McpConfig::new(
        "fixture",
        vec!["--stdio".to_string()],
        "fixture",
        map(&[("TOKEN", "explicit")]),
    )
    .ok()
    .expect("valid config");
    assert_eq!(config.arguments().as_slice(), ["--stdio"]);
    assert_eq!(config.environment().get("TOKEN"), Some(&"explicit".to_string()));
}

#[test]
fn argument_and_environment_shapes_are_fail_closed() {
    assert!(matches!(
        parse_arguments(r#"{"not":"an array"}"#),
        Err(McpConfigError::InvalidJson { field, .. }) if field == ARGS_ENV
    ));
    assert!(matches!(
        parse_environment(r#"["not", "an object"]"#),
        Err(McpConfigError::InvalidJson { field, .. }) if field == CHILD_ENV_ENV
    ));
    assert!(McpConfig::new("fixture", Vec::new(), "Fixture", TextMap::new()).is_err());
}

#[test]
fn http_configuration_requires_a_bounded_endpoint_and_redacts_values() {
    let config = McpConfig::http_with_secrets(
        "http://127.0.0.1:43123/mcp",
        Ok(()),
        "fixture",
        map(&[("Authorization", "secret://fixture/token")]),
        map(&[("fixture/token", "top-secret")]),
    )
    .ok()
    .expect("valid HTTP config");
    assert_eq!(config.transport_kind(), McpTransportKind::Http);
    assert_eq!(config.secret_references(), ["fixture/token"]);
    let debug = config.to_debug_string();
    assert!(!debug.contains("top-secret"));
    assert!(!debug.contains("secret://fixture/token"));
    assert!(debug.contains("Authorization"));
    assert_eq!(
        debug,
        "McpConfig { transport: Http, server_name: \"fixture\", endpoint: \"http://127.0.0.1:43123/mcp\", header_names: [\"Authorization\"], secret_values: \"<redacted>\" }"
    );
}

#[test]
fn http_configuration_fails_closed_for_missing_secret_and_forbidden_headers() {
    let missing = McpConfig::http(
        "https://api.example.test/mcp",
        Ok(()),
        "fixture",
        map(&[("Authorization", "secret://fixture/token")]),
    )
    .err()
    .expect("missing secret value must fail");
    assert!(matches!(missing, McpConfigError::MissingSecretValue { .. }));

    let forbidden = McpConfig::http(
        "https://api.example.test/mcp",
        Ok(()),
        "fixture",
        map(&[("Host", "evil.example.test")]),
    )
    .err()
    .expect("Host override must fail");
    assert!(matches!(forbidden, McpConfigError::ForbiddenHeader { .. }));

    let literal_secret = McpConfig::http(
        "https://api.example.test/mcp",
        Ok(()),
        "fixture",
        map(&[("Authorization", "Bearer raw-value")]),
    )
    .err()
    .expect("literal credentials must fail");
    assert!(matches!(literal_secret, McpConfigError::SecretHeaderMustUseReference { .. }));
}

#[test]
fn configuration_errors_are_told_apart() {
    let problem = |endpoint: &str, scope: Result<(), String>, headers: &[(&str, &str)]| {
        McpConfig::http(endpoint, scope, "fixture", map(headers)).err().expect("problem")
    };
    assert!(matches!(
        problem("https://a.test/x?y", Ok(()), &[]),
        McpConfigError::InvalidEndpoint { .. }
    ));
    assert!(matches!(
        problem("ftp://a.test", Err("unsupported scheme".to_string()), &[]),
        McpConfigError::InvalidEndpoint { value } if value == "unsupported scheme"
    ));
    assert!(matches!(
        problem(&"x".repeat(4097), Ok(()), &[]),
        McpConfigError::FieldTooLong { length: 4097, maximum: 4096, .. }
    ));
    assert!(matches!(
        problem("https://a.test", Ok(()), &[("bad name", "x")]),
        McpConfigError::InvalidHeaderName { .. }
    ));
    assert!(matches!(
        problem("https://a.test", Ok(()), &[("X-A", "secret://-bad")]),
        McpConfigError::InvalidSecretReference { .. }
    ));
    let new = |command: &str, arguments: Vec<String>, environment: TextMap<String>| {
        McpConfig::new(command, arguments, "fixture", environment).err().expect("problem")
    };
    assert!(matches!(
        new(" ", Vec::new(), TextMap::new()),
        McpConfigError::EmptyField { field: "MCP command" }
    ));
    assert!(matches!(
        new("x", vec!["a".to_string(); 65], TextMap::new()),
        McpConfigError::TooManyArguments { count: 65, maximum: 64 }
    ));
    assert!(matches!(
        new("x", vec!["a\n".to_string()], TextMap::new()),
        McpConfigError::ControlCharacter { field: "MCP argument" }
    ));
    assert!(matches!(
        new("x", Vec::new(), map(&[("A=B", "x")])),
        McpConfigError::InvalidEnvironmentKey { .. }
    ));
    assert_eq!(
        new("x", vec!["a".to_string(); 65], TextMap::new()).to_string(),
        "MCP command has 65 arguments; maximum is 64"
    );
}

fn variables() -> McpVariables {
    McpVariables {
        transport: Variable::Absent,
        command: Variable::Absent,
        arguments: Variable::Absent,
        name: Variable::Absent,
        child_environment: Variable::Absent,
        endpoint: Variable::Absent,
        headers: Variable::Absent,
        secrets: Variable::Absent,
        path: Variable::Absent,
    }
}

#[test]
fn configuration_comes_from_the_environment() {
    let text = |value: &str| Variable::Text(value.to_string());
    assert!(matches!(
        McpConfig::from_env(&variables(), Ok(())),
        Err(McpConfigError::MissingEnvironment { name }) if name == COMMAND_ENV
    ));
    let mut stdio = variables();
    stdio.command = text("server");
    stdio.arguments = text(r#"["--a","--b"]"#);
    stdio.child_environment = text(r#"{"TOKEN":"t"}"#);
    stdio.path = text("/bin");
    let config = McpConfig::from_env(&stdio, Ok(())).ok().expect("config");
    assert_eq!(config.command(), "server");
    assert_eq!(config.server_name(), "default");
    assert_eq!(config.arguments().len(), 2);
    assert_eq!(config.environment().get("PATH"), Some(&"/bin".to_string()));
    assert_eq!(redactions(config.environment()), vec!["t".to_string()]);
    let mut http = variables();
    http.transport = text(" HTTP ");
    http.endpoint = text("https://a.test/mcp");
    http.headers = text(r#"{"X-A":"1"}"#);
    let config = McpConfig::from_env(&http, Ok(())).ok().expect("config");
    assert_eq!(config.endpoint(), Some("https://a.test/mcp"));
    assert_eq!(config.http_headers().expect("headers").len(), 1);
    http.headers = Variable::Invalid("not unicode".to_string());
    assert!(matches!(
        McpConfig::from_env(&http, Ok(())),
        Err(McpConfigError::InvalidEnvironment { .. })
    ));
    http.transport = text("carrier pigeon");
    assert!(matches!(
        McpConfig::from_env(&http, Ok(())),
        Err(McpConfigError::InvalidTransport { .. })
    ));
}

#[test]
fn http_transport_discovers_calls_and_supports_sse() {
    let body = b"event: message\r\ndata: [DONE]\r\ndata:1\r\ndata: {\"jsonrpc\":\"2.0\",\"id\":3,\"result\":{}}\r\n\r\n";
    let value = parse_response(200, &body.to_vec(), Some("Text/Event-Stream; charset=utf-8"), "m")
        .expect("event");
    assert!(value.get("result").is_some());
    assert_eq!(sse_data(&body.to_vec()).len(), 2);
    assert!(matches!(
        parse_sse(&b"data: {".to_vec(), "m"),
        Err(McpClientError::MalformedJson { .. })
    ));
    assert!(matches!(
        parse_sse(&b": nothing\n".to_vec(), "m"),
        Err(McpClientError::InvalidResponse { .. })
    ));
}

#[test]
fn http_transport_reuses_server_session_id_after_initialize() {
    let config = McpConfig::http("http://127.0.0.1:1/mcp", Ok(()), "fixture", TextMap::new())
        .ok()
        .expect("HTTP config");
    let mut transport = HttpTransport::new(&config, true).ok().expect("transport");
    let none = SecretGrant::empty();
    assert!(transport.request_headers(&none).ok().expect("headers").is_empty());
    transport.accept_session(Some("fixture-session".to_string())).expect("session");
    transport.accept_session(None).expect("no new session");
    let headers = transport.request_headers(&none).ok().expect("headers");
    assert_eq!(headers.len(), 1);
    assert_eq!(headers[0].name, "mcp-session-id");
    assert_eq!(headers[0].value, "fixture-session");
    assert!(transport.accept_session(Some(String::new())).is_err());
    assert!(transport.accept_session(Some("x".repeat(257))).is_err());
}

#[test]
fn http_secret_headers_require_a_per_call_secret_grant_and_never_cross_the_wire_protocol() {
    let transport = HttpTransport::new(&secret_config(), true).ok().expect("transport");
    let granted = SecretGrant::new(vec!["fixture/token".to_string()]);
    let headers = transport.request_headers(&granted).ok().expect("headers");
    assert_eq!(headers[0].name, "Authorization");
    assert_eq!(headers[0].value, "fixture-secret-value");
    assert_eq!(headers[1].value, "yes");
    assert_eq!(transport.redactions(), vec!["fixture-secret-value".to_string()]);
}

#[test]
fn http_scope_and_secret_denials_happen_before_a_request_is_sent() {
    let config = secret_config();
    assert!(matches!(
        HttpTransport::new(&config, false).err(),
        Some(McpClientError::NetworkDenied { .. })
    ));
    let transport = HttpTransport::new(&config, true).ok().expect("transport");
    assert!(matches!(
        transport.request_headers(&SecretGrant::empty()),
        Err(McpClientError::SecretDenied { .. })
    ));
    assert!(transport.check_network(false).is_err());
    assert!(transport.check_network(true).is_ok());
}

#[test]
fn http_malformed_and_oversized_responses_are_fatal_boundaries() {
    let error = parse_response(200, &b"{malformed".to_vec(), Some("application/json"), "m")
        .expect_err("malformed HTTP response must fail");
    assert!(matches!(error, McpClientError::MalformedJson { .. }));
    assert!(error.is_fatal());
    let error = check_response_length(Some(MAX_HTTP_RESPONSE_BYTES as u64 + 1), 0)
        .expect_err("oversized HTTP response must fail");
    assert!(matches!(error, McpClientError::HttpResponseTooLarge { .. }));
    assert!(error.is_fatal());
    assert!(check_response_length(None, MAX_HTTP_RESPONSE_BYTES + 1).is_err());
    assert!(check_response_length(None, MAX_HTTP_RESPONSE_BYTES).is_ok());
}

#[test]
fn http_remote_error_diagnostics_redact_configured_secret_values() {
    let transport = HttpTransport::new(&secret_config(), true).ok().expect("transport");
    let error = validate_response(
        response(1, None, Some((-32000, "bad token fixture-secret-value"))),
        1,
        TOOLS_CALL_METHOD,
        &transport.redactions(),
    )
    .expect_err("fixture remote error");
    let message = error.to_string();
    assert!(!message.contains("fixture-secret-value"));
    assert!(message.contains("<redacted>"));
    assert!(message.contains("(-32000)"));
}

#[test]
fn http_status_errors_keep_the_status_code_without_becoming_protocol_fatal() {
    let error = parse_response(401, &b"{}".to_vec(), None, "m")
        .expect_err("HTTP status error must fail startup");
    assert!(matches!(error, McpClientError::HttpStatus { status: 401 }));
    assert!(!error.is_fatal());
    assert!(parse_response(202, &b"ignored".to_vec(), None, "m").expect("empty").is_null());
    assert!(parse_response(200, &Vec::new(), None, "m").expect("empty").is_null());
}

#[test]
fn http_timeout_sends_mcp_cancellation_notification() {
    let timeout = McpClientError::Timeout { method: "tools/call", timeout_millis: 100 };
    assert!(is_taken_back(&timeout));
    assert!(!is_taken_back(&McpClientError::ChildStopped));
    assert_eq!(timeout.to_string(), "MCP method `tools/call` timed out after 100 ms");
    assert!(check_cancellation(1, "request timed out").is_ok());
    assert!(check_cancellation(0, "request timed out").is_err());
    assert!(check_cancellation(1, &"x".repeat(1025)).is_err());
    assert!(check_cancellation(1, "a\nb").is_err());
}

#[test]
fn initialize_discover_and_call_follow_mcp_stdio_lifecycle() {
    assert!(validate_initialize_result(&json(r#"{"protocolVersion":"2024-11-05"}"#)).is_ok());
    assert!(validate_initialize_result(&json(r#"{"protocolVersion":" "}"#)).is_err());
    assert!(validate_initialize_result(&json("[]")).is_err());
    let list = json(r#"{"tools":[{"name":"echo"}],"nextCursor":"more"}"#);
    assert!(check_tools_result(&list).expect("tools"));
    assert!(!check_tools_result(&json(r#"{"tools":[],"nextCursor":null}"#)).expect("tools"));
    assert!(check_tools_result(&json("{}")).is_err());
    let tools = vec!["echo".to_string()];
    assert!(check_tool(&tools, "echo").is_ok());
    assert!(matches!(check_tool(&tools, "rm"), Err(McpClientError::UnknownTool { .. })));
    assert!(tool_failed(&json(r#"{"isError":true}"#)));
    assert!(!tool_failed(&json("{}")));
    let value = validate_response(response(7, Some(r#"{"ok":true}"#), None), 7, "m", &Vec::new())
        .expect("result");
    assert!(value.get("ok").is_some());
    assert_eq!(next_request_id(1), 2);
    assert_eq!(next_request_id(u64::MAX), 1);
}

#[test]
fn malformed_json_is_a_fatal_protocol_boundary() {
    let error = read_message(&b"this is not json".to_vec()).err().expect("malformed");
    assert!(matches!(error, McpClientError::MalformedJson { .. }));
    assert!(error.is_fatal());
    assert!(read_message(&b"[]".to_vec()).is_err());
    assert!(matches!(
        read_message(&br#"{"method":"notifications/x"}"#.to_vec()),
        Ok(Incoming::Notification)
    ));
    assert!(matches!(
        read_message(&br#"{"method":"x","id":1}"#.to_vec()),
        Ok(Incoming::Message(_))
    ));
}

#[test]
fn waiting_ends_with_a_message_or_a_reason() {
    assert_eq!(time_left(0, 5), Some(5));
    assert_eq!(time_left(4, 5), Some(1));
    assert_eq!(time_left(5, 5), None);
    assert_eq!(time_left(6, 5), None);
    assert!(matches!(
        after_event(ReaderEvent::Silence, "tools/list", 250),
        Err(McpClientError::Timeout { method: "tools/list", timeout_millis: 250 })
    ));
    assert!(matches!(
        after_event(ReaderEvent::Eof, "tools/list", 250),
        Err(McpClientError::ChildStopped)
    ));
    assert!(matches!(
        after_event(ReaderEvent::Gone, "tools/list", 250),
        Err(McpClientError::ChildStopped)
    ));
    assert!(matches!(
        after_event(ReaderEvent::Error("broken".to_string()), "tools/list", 250),
        Err(McpClientError::Read { message }) if message == "broken"
    ));
    assert!(matches!(
        after_event(ReaderEvent::Frame(br#"{"method":"n"}"#.to_vec()), "tools/list", 250),
        Ok(Incoming::Notification)
    ));
    assert!(matches!(
        after_event(ReaderEvent::Frame(br#"{"id":1}"#.to_vec()), "tools/list", 250),
        Ok(Incoming::Message(_))
    ));
    assert!(after_event(ReaderEvent::Frame(b"[".to_vec()), "tools/list", 250).is_err());
}

fn fixture_answer(mode: &str, line: &str) -> Json {
    match answer_line(mode, line.as_bytes()) {
        FixtureStep::Answer(answer) => answer,
        step => panic!("no answer: {step:?}"),
    }
}

#[test]
fn fixture_server_answers_by_method_and_mode() {
    let list = r#"{"jsonrpc":"2.0","id":2,"method":"tools/list"}"#;
    let call = r#"{"id":3,"method":"tools/call","params":{"arguments":{"b":1,"a":"x"}}}"#;
    assert_eq!(answer_line("normal", b"no json"), FixtureStep::Stop);
    assert_eq!(answer_line("normal", b"{}"), FixtureStep::Skip);
    assert_eq!(answer_line("normal", br#"{"method":7}"#), FixtureStep::Skip);
    let ready = br#"{"method":"notifications/initialized"}"#;
    assert_eq!(answer_line("normal", ready), FixtureStep::Skip);
    assert_eq!(answer_line("crash", list.as_bytes()), FixtureStep::Stop);
    assert_eq!(answer_line("call-crash", call.as_bytes()), FixtureStep::Stop);
    assert_eq!(answer_line("malformed", list.as_bytes()), FixtureStep::Garble);

    let greeting = fixture_answer("normal", r#"{"id":1,"method":"initialize"}"#);
    assert_eq!(
        greeting,
        json(
            r#"{"jsonrpc":"2.0","id":1,"result":{"protocolVersion":"2024-11-05",
            "capabilities":{"tools":{}},"serverInfo":{"name":"fixture","version":"1.0.0"}}}"#
        )
    );
    assert_eq!(
        fixture_answer("call-crash", list),
        json(
            r#"{"jsonrpc":"2.0","id":2,"result":{"tools":[{"name":"echo",
            "description":"Return the provided arguments.",
            "inputSchema":{"type":"object","additionalProperties":true}}]}}"#
        )
    );
    assert_eq!(
        fixture_answer("normal", call),
        json(
            r#"{"jsonrpc":"2.0","id":3,"result":{"isError":false,
            "content":[{"type":"text","text":"{\"a\":\"x\",\"b\":1}"}]}}"#
        )
    );
    assert_eq!(
        fixture_answer("normal", r#"{"id":"q","method":"tools/call"}"#),
        json(
            r#"{"jsonrpc":"2.0","id":"q","result":{"isError":false,
            "content":[{"type":"text","text":"{}"}]}}"#
        )
    );
    assert_eq!(
        fixture_answer("rpc-error", call),
        json(
            r#"{"jsonrpc":"2.0","id":3,
            "error":{"code":-32001,"message":"fixture rejected the call"}}"#
        )
    );
    assert_eq!(
        fixture_answer("normal", r#"{"method":"ping"}"#),
        json(r#"{"jsonrpc":"2.0","id":null,"error":{"code":-32601,"message":"method not found"}}"#)
    );
}

#[test]
fn server_crash_is_reported_without_hanging_the_host() {
    let mut buffer = FrameBuffer::new();
    assert!(at_end_of_stream(&buffer).is_ok());
    assert!(matches!(buffer.feed(&b"half".to_vec()), FrameStep::More { consumed: 4 }));
    assert_eq!(
        at_end_of_stream(&buffer).expect_err("stopped within a frame"),
        "MCP Server closed stdout before a JSON-RPC newline"
    );
    assert!(McpClientError::ChildStopped.is_fatal());
}

#[test]
fn responses_are_held_to_their_request() {
    let none = Vec::new();
    let error = validate_response(response(2, Some("1"), None), 1, "m", &none).expect_err("id");
    assert_eq!(
        error.to_string(),
        "MCP JSON-RPC response id did not match request 1: Some(Number(2))"
    );
    let mut other = response(1, Some("1"), None);
    other.jsonrpc = "1.0".to_string();
    assert!(matches!(
        validate_response(other, 1, "m", &none),
        Err(McpClientError::InvalidResponse { .. })
    ));
    assert!(matches!(
        validate_response(response(1, None, None), 1, "m", &none),
        Err(McpClientError::InvalidResponse { .. })
    ));
    let mut large = response(1, None, None);
    large.result = Some(vec![b'1'; 1024 * 1024 + 1]);
    assert!(matches!(
        validate_response(large, 1, "m", &none),
        Err(McpClientError::FrameTooLarge { .. })
    ));
}

#[test]
fn frames_do_not_depend_on_how_they_arrive() {
    let mut whole = FrameBuffer::new();
    let FrameStep::Frame { frame, consumed } = whole.feed(&b"{\"a\":1}\r\nrest".to_vec()) else {
        panic!("a frame");
    };
    assert_eq!(frame, b"{\"a\":1}".to_vec());
    assert_eq!(consumed, 9);
    let mut parts = FrameBuffer::new();
    assert!(matches!(parts.feed(&b"{\"a\"".to_vec()), FrameStep::More { .. }));
    let FrameStep::Frame { frame: again, consumed } = parts.feed(&b":1}\r\n".to_vec()) else {
        panic!("a frame");
    };
    assert_eq!(again, frame);
    assert_eq!(consumed, 5);
    let mut flood = FrameBuffer::new();
    assert!(matches!(
        flood.feed(&vec![b'x'; MAX_MCP_FRAME_BYTES + 5]),
        FrameStep::TooLarge { consumed: MAX_MCP_FRAME_BYTES }
    ));
    assert_eq!(outgoing_frame(b"{}".to_vec()).expect("frame"), b"{}\n".to_vec());
    assert!(outgoing_frame(vec![b'x'; MAX_MCP_FRAME_BYTES]).is_err());
    assert!(check_request_length(MAX_MCP_FRAME_BYTES + 1).is_err());
    assert_eq!(frame_too_large_message(), "MCP JSON-RPC frame exceeds the maximum size");
}

#[test]
fn secrets_are_taken_out_of_texts_and_values() {
    let secrets = vec!["abc".to_string(), String::new(), "xyz".to_string()];
    assert_eq!(redact_text("abc-xyz-abcabc", &secrets), "<redacted>-<redacted>-<redacted><redacted>");
    assert_eq!(redact_text("nothing here", &secrets), "nothing here");
    let value = redact_value(&json(r#"{"k":["abc",1,null,{"t":"an xyz"}]}"#), &secrets);
    assert_eq!(value, json(r#"{"k":["<redacted>",1,null,{"t":"an <redacted>"}]}"#));
}

#[test]
fn header_values_are_what_the_transport_can_send() {
    let config = McpConfig::http(
        "https://a.test",
        Ok(()),
        "fixture",
        map(&[("X-Text", "grüße")]),
    )
    .ok()
    .expect("config");
    let transport = HttpTransport::new(&config, true).ok().expect("transport");
    let headers = transport.request_headers(&SecretGrant::empty()).ok().expect("headers");
    assert_eq!(headers[0].value, "grüße");
    let stdio = McpConfig::new("x", Vec::new(), "fixture", TextMap::new()).ok().expect("config");
    assert!(matches!(
        HttpTransport::new(&stdio, true).err(),
        Some(McpClientError::HttpConfiguration { .. })
    ));
}

#[test]
fn requests_reach_only_the_registered_server() {
    let call = McpCall::Call { server_name: "fixture".to_string() };
    assert_eq!(next_step(&call, None), McpStep::Connect);
    assert_eq!(next_step(&call, Some("fixture")), McpStep::CallTool);
    let McpStep::UnknownServer { message } = next_step(&call, Some("other")) else {
        panic!("another server");
    };
    assert_eq!(message, "MCP server `fixture` is not registered");
    let refused: Reply<u8> = refuse_server(4, message);
    assert!(matches!(refused, Reply::Failed { request_id: 4, code: "unknown_server", .. }));
    let cancel = McpCall::Cancel { server_name: "fixture".to_string() };
    assert_eq!(next_step(&cancel, None), McpStep::NothingToCancel);
    assert_eq!(next_step(&cancel, Some("fixture")), McpStep::ForwardCancel);
    assert_eq!(next_step(&McpCall::List { refresh: true }, Some("x")), McpStep::Discover);
    assert_eq!(next_step(&McpCall::List { refresh: false }, Some("x")), McpStep::ShowKnown);
    let status = McpCall::Status { server_name: "x".to_string() };
    assert_eq!(next_step(&status, Some("x")), McpStep::ReportReady);
    assert!(cancel_result("fixture", 9, false).accepted);
}

#[test]
fn fatal_failures_end_the_bridge_and_others_are_answered() {
    let fatal: McpConclusion<u8> =
        conclude(1, Err(McpPluginError::Client(McpClientError::ChildStopped)));
    assert!(matches!(fatal, McpConclusion::Stop(_)));
    let answered: McpConclusion<u8> = conclude(
        1,
        Err(McpPluginError::Client(McpClientError::UnknownTool { name: "rm".to_string() })),
    );
    assert!(matches!(
        answered,
        McpConclusion::Answer(Reply::Failed { code: "unknown_tool", .. })
    ));
    let payload: McpConclusion<u8> =
        conclude(1, Err(McpPluginError::ProtocolPayload("bad".to_string())));
    assert!(matches!(
        payload,
        McpConclusion::Answer(Reply::Failed { code: "invalid_request", .. })
    ));
    assert!(matches!(
        conclude(2, Ok(5u8)),
        McpConclusion::Answer(Reply::Completed { request_id: 2, result: 5 })
    ));
    let network = |kind: McpTransportKind| {
        required_grants(kind)
            .into_iter()
            .find(|grant| grant.kind == GrantKind::Network)
            .expect("network")
            .required
    };
    assert!(network(McpTransportKind::Http));
    assert!(!network(McpTransportKind::Stdio));
}

#[test]
fn requests_are_prepared_and_replies_accepted_in_order() {
    let mut transport = HttpTransport::new(&secret_config(), true).ok().expect("transport");
    let granted = SecretGrant::new(vec!["fixture/token".to_string()]);
    assert_eq!(transport.prepare_request(true, &granted, 10).ok().expect("headers").len(), 2);
    assert!(matches!(
        transport.prepare_request(false, &SecretGrant::empty(), MAX_MCP_FRAME_BYTES + 1),
        Err(McpClientError::NetworkDenied { .. })
    ));
    assert!(matches!(
        transport.prepare_request(true, &SecretGrant::empty(), MAX_MCP_FRAME_BYTES + 1),
        Err(McpClientError::SecretDenied { .. })
    ));
    assert!(matches!(
        transport.prepare_request(true, &granted, MAX_MCP_FRAME_BYTES + 1),
        Err(McpClientError::FrameTooLarge { .. })
    ));
    let reply = |status: u16, session: Option<&str>, body: Result<Vec<u8>, String>| HttpReply {
        status,
        session_id: session.map(str::to_string),
        content_type: Some("text/event-stream".to_string()),
        announced: None,
        body,
    };
    let stream = b"data: {\"id\":1}\n\n".to_vec();
    let value = transport.accept_reply(reply(200, Some("s"), Ok(stream)), "m").expect("value");
    assert_eq!(value.get("id").and_then(Json::as_u64), Some(1));
    let headers = transport.prepare_request(true, &granted, 1).ok().expect("headers");
    assert_eq!(headers[2].value, "s");
    assert!(matches!(
        transport.accept_reply(reply(500, Some(""), Ok(Vec::new())), "m"),
        Err(McpClientError::HttpConfiguration { .. })
    ));
    assert!(matches!(
        transport.accept_reply(reply(500, None, Ok(Vec::new())), "m"),
        Err(McpClientError::HttpStatus { status: 500 })
    ));
    assert!(matches!(
        transport.accept_reply(reply(200, None, Err("reset".to_string())), "m"),
        Err(McpClientError::HttpBodyRead { .. })
    ));
    assert!(matches!(
        transport.accept_reply(reply(500, None, Ok(vec![0; MAX_HTTP_RESPONSE_BYTES + 1])), "m"),
        Err(McpClientError::HttpResponseTooLarge { .. })
    ));
}
