//! One connection: discovery, telling HTTP apart, dispatching and framing, and the clients.
use remo::cdp_client::{
    answer, captured, closed, devtools_url, invoked, listed, receive, CallStep, CdpClient,
};
use remo::dispatcher::{CdpReply, CdpRequest, Dispatcher, EventSink};
use remo::discovery::{
    console_url, debugger_url, device_target, host_header, list, version, DiscoveryConfig,
    REMO_PROTOCOL_VERSION,
};
use remo::domain_remo::{CapabilityInvoker, RemoDomain};
use remo::domains::{build_dispatcher, DOM_DOMAIN, PAGE_DOMAIN, REMO_DOMAIN, STORAGE_DOMAIN};
use remo::dual_stack::{looks_like_http, peeked, Verdict};
use remo::json::Json;
use remo::json_text::{parse_json, to_text};
use remo::mcp::{
    call_remo, invoke_capability, list_capabilities, resolve_ws_url, tell, Received, ToolStep,
    DEFAULT_WS_URL,
};
use remo::remote_object::{preview, remote_object};
use remo::transport::{envelope, finish_request, next_step, parse_request, Incoming, NextStep};
use std::sync::Arc;

fn json(text: &str) -> Json {
    parse_json(text).expect("test JSON")
}

#[test]
fn detects_a_real_http_request_line() {
    assert!(looks_like_http(b"GET /json/version HTTP/1.1\r\nHost: x\r\n\r\n"));
    assert!(looks_like_http(b"HEAD / HTTP/1.1"));
    assert!(looks_like_http(b"POST / HTTP/1.1"));
}

#[test]
fn does_not_misdetect_the_legacy_length_prefixed_frame() {
    let mut frame = vec![0u8, 0, 0, 42, 0x00];
    frame.extend_from_slice(br#"{"type":"request"}"#);
    assert!(!looks_like_http(&frame));
    assert_eq!(peeked(&frame), Verdict::NotHttp);
}

#[test]
fn a_silent_connection_is_treated_as_legacy_not_hung_forever() {
    assert_eq!(peeked(b""), Verdict::Undecided);
    assert!(!looks_like_http(b""));
}

#[test]
fn a_verdict_comes_as_soon_as_the_bytes_tell() {
    assert_eq!(peeked(b"GE"), Verdict::Undecided);
    assert_eq!(peeked(b"GET "), Verdict::Http);
    assert_eq!(peeked(b"GEX"), Verdict::NotHttp);
    assert_eq!(peeked(b"POST"), Verdict::Undecided);
}

#[test]
fn the_largest_frame_is_not_taken_for_http() {
    assert_eq!(peeked(&67_108_864u32.to_be_bytes()), Verdict::NotHttp);
}

#[test]
fn discovery_names_the_host_that_was_asked() {
    let config = DiscoveryConfig { page_title: "Remo iPhone".to_string(), page_id: "1".to_string() };
    assert_eq!(
        version(&config, "127.0.0.1:50000"),
        json(
            r#"{"Browser": "Remo/Remo iPhone", "Protocol-Version": "1.3",
                "remoProtocolVersion": "1.0",
                "webSocketDebuggerUrl": "ws://127.0.0.1:50000/devtools/page/1",
                "remoConsoleUrl": "http://127.0.0.1:50000/console"}"#
        )
    );
    assert_eq!(
        list(&config, "127.0.0.1:50000"),
        json(
            r#"[{"id": "1", "type": "page", "title": "Remo iPhone", "description": "",
                 "url": "remo://app",
                 "devtoolsFrontendUrl":
                    "/devtools/inspector.html?ws=127.0.0.1:50000/devtools/page/1",
                 "webSocketDebuggerUrl": "ws://127.0.0.1:50000/devtools/page/1"}]"#
        )
    );
    assert_eq!(REMO_PROTOCOL_VERSION, "1.0");
    assert_eq!(debugger_url("h", "2"), "ws://h/devtools/page/2");
    assert_eq!(console_url("h"), "http://h/console");
}

#[test]
fn a_host_that_cannot_be_read_is_the_loopback_address() {
    assert_eq!(host_header(Some(b"localhost:9930")), "localhost:9930");
    assert_eq!(host_header(None), "127.0.0.1");
    assert_eq!(host_header(Some(&[0x68, 0xc3])), "127.0.0.1");
}

#[test]
fn a_device_is_one_target() {
    let config = device_target("iPhone");
    assert_eq!(config.page_title, "Remo iPhone");
    assert_eq!(config.page_id, "1");
}

#[test]
fn methods_are_routed_to_the_domain_that_claims_them() {
    let dispatcher = build_dispatcher();
    assert_eq!(dispatcher.domain_of("Remo.invoke"), Some(REMO_DOMAIN));
    assert_eq!(dispatcher.domain_of("Page.captureScreenshot"), Some(PAGE_DOMAIN));
    assert_eq!(dispatcher.domain_of("DOM.getDocument"), Some(DOM_DOMAIN));
    assert_eq!(dispatcher.domain_of("DOMStorage.clear"), Some(STORAGE_DOMAIN));
    assert_eq!(dispatcher.domain_of("Network.enable"), None);
}

#[test]
fn a_method_cannot_be_claimed_twice() {
    let mut dispatcher = Dispatcher::default();
    let methods = vec!["A.a".to_string(), "A.b".to_string()];
    assert!(dispatcher.claims_are_free(&methods));
    assert_eq!(dispatcher.register(&methods), 0);
    assert!(!dispatcher.claims_are_free(&vec!["A.b".to_string()]));
    assert!(!dispatcher.claims_are_free(&vec!["B.a".to_string(), "B.a".to_string()]));
    assert_eq!(dispatcher.register(&vec!["B.a".to_string()]), 1);
}

#[test]
fn synthetic_ids_count_up() {
    let mut dispatcher = Dispatcher::new();
    assert_eq!(dispatcher.next_synthetic_id(), 1);
    assert_eq!(dispatcher.next_synthetic_id(), 2);
}

#[test]
fn a_session_is_reported_with_its_costliest_methods_first() {
    let mut dispatcher = Dispatcher::new();
    assert!(dispatcher.session_report().is_none());
    assert!(dispatcher.has_room(10));
    assert!(!dispatcher.record("A.fast", 1_000));
    assert!(dispatcher.record("A.slow", 60_000));
    assert!(!dispatcher.record("A.fast", 3_000));
    let report = dispatcher.session_report().unwrap();
    assert_eq!(report.requests, 3);
    assert_eq!(report.total_ms, 64);
    assert_eq!(report.methods[0].method, "A.slow");
    assert_eq!(report.methods[1].method, "A.fast");
    assert_eq!(report.methods[1].count, 2);
    assert_eq!(report.methods[1].total_ms, 4);
    assert_eq!(report.methods[1].max_ms, 3);
}

#[test]
fn requests_are_read_and_everything_else_is_passed_over() {
    match next_step(&Incoming::Text(r#"{"id": 3, "method": "A.b"}"#.to_string())) {
        NextStep::Answer(request) => {
            assert_eq!(request.id, 3);
            assert_eq!(request.method, "A.b");
            assert_eq!(request.params, Json::empty());
        }
        other => panic!("unexpected: {other:?}"),
    }
    for text in ["no json", r#"{"method": "A.b"}"#, r#"{"id": -1, "method": "A.b"}"#] {
        assert!(matches!(
            next_step(&Incoming::Text(text.to_string())),
            NextStep::Ignore { unreadable: true }
        ));
    }
    assert!(matches!(next_step(&Incoming::Other), NextStep::Ignore { unreadable: false }));
    assert!(matches!(next_step(&Incoming::Closed), NextStep::Finish));
    assert!(matches!(next_step(&Incoming::Failed), NextStep::Finish));
}

#[test]
fn replies_bear_the_id_of_their_request() {
    assert_eq!(
        envelope(4, Some(CdpReply::ok(Json::unsigned(1)))),
        json(r#"{"id": 4, "result": 1}"#)
    );
    assert_eq!(envelope(4, None), json(r#"{"id": 4, "result": {}}"#));
    assert_eq!(
        envelope(4, Some(CdpReply::error("bad".to_string()))),
        json(r#"{"id": 4, "error": {"code": -32000, "message": "bad"}}"#)
    );
}

#[test]
fn a_reply_comes_after_the_events_of_its_request() {
    let mut events = EventSink::new();
    events.emit("A.changed", Json::empty());
    finish_request(9, Some(CdpReply::empty()), &mut events);
    assert_eq!(
        events.frames,
        vec![json(r#"{"method": "A.changed", "params": {}}"#), json(r#"{"id": 9, "result": {}}"#)]
    );
}

#[test]
fn a_request_is_read_as_it_was_sent() {
    let mut client = CdpClient::new();
    assert!(client.can_call());
    let call = client.invoke_capability("kv.get", json(r#"{"key": "k"}"#));
    assert_eq!(call.id, 1);
    let request = parse_request(&call.frame).unwrap();
    assert_eq!(request.id, 1);
    assert_eq!(request.method, "Remo.invoke");
    assert_eq!(request.params, json(r#"{"name": "kv.get", "args": {"key": "k"}}"#));
    assert_eq!(client.list_capabilities().id, 2);
    let call = client.capture_screenshot("jpeg", 80);
    let request = parse_request(&call.frame).unwrap();
    assert_eq!(request.method, "Page.captureScreenshot");
    assert_eq!(request.params, json(r#"{"format": "jpeg", "quality": 80}"#));
}

#[test]
fn a_call_takes_only_its_own_reply() {
    assert!(matches!(receive(2, r#"{"method": "A.changed", "params": {}}"#), CallStep::Wait));
    assert!(matches!(receive(2, r#"{"id": 1, "result": {}}"#), CallStep::Wait));
    match receive(2, r#"{"id": 2, "result": {"a": 1}}"#) {
        CallStep::Done(value) => assert_eq!(value, json(r#"{"a": 1}"#)),
        other => panic!("unexpected: {other:?}"),
    }
    match receive(2, r#"{"id": 2, "error": {"message": "bad"}}"#) {
        CallStep::Failed(chain) => assert_eq!(chain, vec!["bad"]),
        other => panic!("unexpected: {other:?}"),
    }
    match receive(2, r#"{"id": 2, "error": {}}"#) {
        CallStep::Failed(chain) => assert_eq!(chain, vec!["unknown CDP error"]),
        other => panic!("unexpected: {other:?}"),
    }
    match receive(2, "{nonsense") {
        CallStep::Failed(chain) => {
            assert_eq!(chain[0], "unparseable CDP frame: {nonsense");
            assert_eq!(chain.len(), 2);
            assert!(chain[1].contains("line 1"), "{chain:?}");
        }
        other => panic!("unexpected: {other:?}"),
    }
    assert_eq!(closed(), vec!["CDP connection closed before a reply arrived"]);
}

#[test]
fn what_a_call_came_to_is_unwrapped() {
    assert_eq!(invoked("a", Ok(json(r#"{"result": 5}"#))), Ok(Json::unsigned(5)));
    assert_eq!(
        invoked("a", Err(vec!["bad".to_string()])),
        Err(vec!["capability 'a' failed".to_string(), "bad".to_string()])
    );
    assert_eq!(
        listed(&json(r#"{"names": ["a", 1, "b"]}"#)),
        Ok(vec!["a".to_string(), "b".to_string()])
    );
    assert_eq!(
        listed(&Json::empty()),
        Err("Remo.listCapabilities reply missing \"names\" array".to_string())
    );
    assert_eq!(captured(&json(r#"{"data": "AQI="}"#)), Ok(vec![1, 2]));
    assert_eq!(
        captured(&json(r#"{"data": "?"}"#)),
        Err(vec![
            "screenshot data was not valid base64".to_string(),
            "Invalid symbol 63, offset 0.".to_string(),
        ])
    );
    assert_eq!(
        captured(&Json::empty()),
        Err(vec!["Page.captureScreenshot reply missing \"data\"".to_string()])
    );
    assert_eq!(devtools_url("127.0.0.1:9930"), DEFAULT_WS_URL);
}

struct Echo;

impl CapabilityInvoker for Echo {
    fn invoke(&self, name: &str, params: Json) -> Option<Result<Json, String>> {
        match name {
            "echo" => Some(Ok(Json::empty().with("echoed", params))),
            "add" => {
                let a = params.field_or_null("a").as_i64().unwrap_or(0);
                let b = params.field_or_null("b").as_i64().unwrap_or(0);
                Some(Ok(Json::empty().with("sum", Json::signed(a + b))))
            }
            "__ping" => Some(Ok(Json::empty().with("pong", Json::Bool(true)))),
            _ => None,
        }
    }

    fn list(&self) -> Vec<String> {
        vec!["echo".to_string(), "add".to_string(), "__ping".to_string()]
    }
}

/// Answers a frame as the server does, and gives the frames that it sends.
fn serve(domain: &RemoDomain<Echo>, frame: &str) -> Vec<String> {
    let request: CdpRequest = match next_step(&Incoming::Text(frame.to_string())) {
        NextStep::Answer(request) => request,
        other => panic!("unexpected: {other:?}"),
    };
    let mut events = EventSink::new();
    let reply = match build_dispatcher().dispatch(&request) {
        Some(REMO_DOMAIN) => Some(domain.respond(&request, &mut events)),
        _ => None,
    };
    finish_request(request.id, reply, &mut events);
    events.frames.iter().map(to_text).collect()
}

fn invoke(
    client: &mut CdpClient,
    domain: &RemoDomain<Echo>,
    name: &str,
    args: Json,
) -> Result<Json, Vec<String>> {
    let call = client.invoke_capability(name, args);
    for frame in serve(domain, &call.frame) {
        match receive(call.id, &frame) {
            CallStep::Wait => {}
            CallStep::Done(value) => return invoked(name, Ok(value)),
            CallStep::Failed(chain) => return invoked(name, Err(chain)),
        }
    }
    invoked(name, Err(closed()))
}

#[test]
fn full_roundtrip_over_cdp() {
    let domain = RemoDomain::new(Arc::new(Echo));
    let mut client = CdpClient::new();
    assert_eq!(
        invoke(&mut client, &domain, "echo", json(r#"{"hello": "world"}"#)),
        Ok(json(r#"{"echoed": {"hello": "world"}}"#))
    );
    assert_eq!(
        invoke(&mut client, &domain, "add", json(r#"{"a": 17, "b": 25}"#)),
        Ok(json(r#"{"sum": 42}"#))
    );
    assert_eq!(
        invoke(&mut client, &domain, "__ping", Json::empty()),
        Ok(json(r#"{"pong": true}"#))
    );
    let call = client.list_capabilities();
    let frames = serve(&domain, &call.frame);
    match receive(call.id, &frames[0]) {
        CallStep::Done(reply) => {
            let names = listed(&reply).unwrap();
            for name in ["echo", "add", "__ping"] {
                assert!(names.iter().any(|n| n == name), "{name}");
            }
        }
        other => panic!("unexpected: {other:?}"),
    }
    let failed = invoke(&mut client, &domain, "no_such_thing", Json::empty()).unwrap_err();
    assert_eq!(
        failed,
        vec!["capability 'no_such_thing' failed", "no such capability: no_such_thing"]
    );
}

#[test]
fn a_tool_finds_its_target() {
    let named = |text: &str| Some(text.to_string());
    assert_eq!(resolve_ws_url(named("ws://a"), named("ws://b")), "ws://a");
    assert_eq!(resolve_ws_url(None, named("ws://b")), "ws://b");
    assert_eq!(resolve_ws_url(None, None), "ws://127.0.0.1:9930/devtools/page/1");
}

#[test]
fn a_tool_sends_one_request() {
    let request = parse_request(&list_capabilities().frame).unwrap();
    assert_eq!(request.method, "Remo.listCapabilities");
    assert_eq!(request.id, 1);
    let request = parse_request(&invoke_capability("ping", None).frame).unwrap();
    assert_eq!(request.params, json(r#"{"name": "ping", "args": {}}"#));
    let request =
        parse_request(&invoke_capability("ping", Some(Json::unsigned(3))).frame).unwrap();
    assert_eq!(request.params, json(r#"{"name": "ping", "args": 3}"#));
}

fn tool(received: Received) -> ToolStep {
    call_remo("ws://t", "Remo.invoke", &received)
}

fn tool_fault(received: Received) -> String {
    match tool(received) {
        ToolStep::Failed(message) => message,
        other => panic!("unexpected: {other:?}"),
    }
}

#[test]
fn a_tool_waits_for_the_reply_to_its_call() {
    assert!(matches!(
        tool(Received::Text(r#"{"method": "A.changed"}"#.to_string())),
        ToolStep::Wait
    ));
    match tool(Received::Text(r#"{"id": 1, "result": {"b": 1, "a": 2}}"#.to_string())) {
        ToolStep::Done(text) => assert_eq!(text, r#"{"a":2,"b":1}"#),
        other => panic!("unexpected: {other:?}"),
    }
    match tool(Received::Text(r#"{"id": 1}"#.to_string())) {
        ToolStep::Done(text) => assert_eq!(text, "null"),
        other => panic!("unexpected: {other:?}"),
    }
}

#[test]
fn a_tool_says_what_went_wrong() {
    assert_eq!(
        tool_fault(Received::Text(r#"{"id": 1, "error": {"message": "bad"}}"#.to_string())),
        r#"Remo.invoke failed: {"message":"bad"}"#
    );
    let message = tool_fault(Received::Text("{x".to_string()));
    assert!(message.starts_with("reply was not valid JSON ("), "{message}");
    assert!(message.ends_with("): {x"), "{message}");
    assert_eq!(
        tool_fault(Received::NotConnected("e".to_string())),
        "failed to connect to ws://t: e"
    );
    assert_eq!(
        tool_fault(Received::NotSent("e".to_string())),
        "failed to send Remo.invoke to ws://t: e"
    );
    assert_eq!(
        tool_fault(Received::NotText("Binary".to_string())),
        "expected a text frame, got: Binary"
    );
    assert_eq!(
        tool_fault(Received::Failed("e".to_string())),
        "websocket error reading reply: e"
    );
    assert_eq!(
        tool_fault(Received::Closed),
        "connection to ws://t closed before a reply arrived"
    );
    assert_eq!(
        tool_fault(Received::TimedOut),
        "timed out waiting for a reply to Remo.invoke"
    );
}

#[test]
fn values_are_shown_as_remote_objects() {
    assert_eq!(remote_object(&Json::Bool(true)).str_field("type"), Some("boolean"));
    assert_eq!(remote_object(&Json::unsigned(5)).str_field("description"), Some("5"));
    let list = Json::array((0..12).map(Json::unsigned).collect());
    let shown = preview(&list);
    assert_eq!(shown.get("properties").and_then(|p| p.as_array()).map(|p| p.len()), Some(10));
    assert_eq!(shown.bool_field("overflow"), Some(true));
}

#[test]
fn a_message_that_was_read_is_taken_by_its_id() {
    let reply = json(r#"{"id": 1, "result": {"a": [1]}}"#);
    assert!(matches!(answer(2, &reply), CallStep::Wait));
    match answer(1, &reply) {
        CallStep::Done(value) => assert_eq!(value, json(r#"{"a": [1]}"#)),
        other => panic!("expected a result, got: {other:?}"),
    }
    match tell("Remo.invoke", &reply) {
        ToolStep::Done(text) => assert_eq!(text, r#"{"a":[1]}"#),
        other => panic!("expected a result, got: {other:?}"),
    }
    match tell("Remo.invoke", &json(r#"{"id": 1, "error": {"message": "bad"}}"#)) {
        ToolStep::Failed(message) => {
            assert_eq!(message, r#"Remo.invoke failed: {"message":"bad"}"#);
        }
        other => panic!("expected a failure, got: {other:?}"),
    }
    assert!(matches!(tell("Remo.invoke", &json(r#"{"id": 2}"#)), ToolStep::Wait));
}
