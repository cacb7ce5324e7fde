//! The `Remo` domain, over capabilities held in memory.
use remo::capabilities::{children_of, classify, ChildKind, Node};
use remo::console_expr::{
    make_call, parse_console_expr, parse_shape, split_top_level_args, ConsoleExpr, ConsoleShape,
};
use remo::dispatcher::{CdpReply, CdpRequest, EventSink};
use remo::domain_remo::{
    evaluate_exception, evaluate_success, finish, function_remote_object, namespace_remote_object,
    side_effect_exception, CapabilityInvoker, RemoDomain,
};
use remo::json::Json;
use remo::json_text::parse_json;
use remo::registry::{InMemoryCapabilities, SyncHandler};
use std::cell::Cell;
use std::collections::BTreeSet;
use std::rc::Rc;
use std::sync::Arc;

struct Handler(Box<dyn Fn(Json) -> Result<Json, String>>);

impl SyncHandler for Handler {
    fn call(&self, params: Json) -> Result<Json, String> {
        (self.0)(params)
    }
}

fn json(text: &str) -> Json {
    parse_json(text).expect("test JSON")
}

fn register(
    capabilities: &mut InMemoryCapabilities<Handler>,
    name: &str,
    handler: impl Fn(Json) -> Result<Json, String> + 'static,
) {
    capabilities.register(name.to_string(), Handler(Box::new(handler)));
}

fn request(method: &str, params: Json) -> CdpRequest {
    CdpRequest { id: 1, method: method.to_string(), params }
}

fn domain_with_ping() -> RemoDomain<InMemoryCapabilities<Handler>> {
    let mut capabilities = InMemoryCapabilities::new();
    register(&mut capabilities, "ping", |_args| Ok(json(r#"{"pong": true}"#)));
    RemoDomain::new(Arc::new(capabilities))
}

fn domain_with_capabilities() -> RemoDomain<InMemoryCapabilities<Handler>> {
    let mut capabilities = InMemoryCapabilities::new();
    register(&mut capabilities, "echo", |args| Ok(Json::empty().with("echoed", args)));
    register(&mut capabilities, "ping", |_args| Ok(json(r#"{"pong": true}"#)));
    register(&mut capabilities, "kv.delete", |args| {
        Ok(Json::empty().with("deleted", args.field_or_null("key")))
    });
    register(&mut capabilities, "kv.get", |args| {
        Ok(Json::empty().with("value", args.field_or_null("key")))
    });
    RemoDomain::new(Arc::new(capabilities))
}

fn respond(
    domain: &RemoDomain<InMemoryCapabilities<Handler>>,
    method: &str,
    params: Json,
) -> CdpReply {
    let mut events = EventSink::new();
    domain.respond(&request(method, params), &mut events)
}

fn expect_ok_result(reply: CdpReply) -> Json {
    match reply {
        CdpReply::Result(value) => value,
        CdpReply::Error { message, .. } => panic!("expected a result, got an error: {message}"),
    }
}

fn expect_error(reply: CdpReply) -> String {
    match reply {
        CdpReply::Error { message, .. } => message,
        CdpReply::Result(value) => panic!("expected error, got result: {value:?}"),
    }
}

fn at<'a>(value: &'a Json, keys: &[&str]) -> &'a Json {
    let mut found = value;
    for key in keys {
        found = found.get(key).expect("key of a reply");
    }
    found
}

fn evaluate(domain: &RemoDomain<InMemoryCapabilities<Handler>>, expression: &str) -> Json {
    expect_ok_result(respond(
        domain,
        "Runtime.evaluate",
        Json::empty().with("expression", Json::text(expression)),
    ))
}

fn names_in(list: &Json) -> BTreeSet<String> {
    list.as_array()
        .unwrap()
        .iter()
        .map(|p| p.str_field("name").unwrap().to_string())
        .collect()
}

fn set_of(names: &[&str]) -> BTreeSet<String> {
    names.iter().map(|n| n.to_string()).collect()
}

fn thrown(value: &Json) -> String {
    at(value, &["exceptionDetails", "exception", "description"]).as_str().unwrap().to_string()
}

#[test]
fn invoke_known_capability_returns_wrapped_result() {
    let reply =
        respond(&domain_with_ping(), "Remo.invoke", json(r#"{"name": "ping", "args": {}}"#));
    assert_eq!(expect_ok_result(reply), json(r#"{"result": {"pong": true}}"#));
}

#[test]
fn invoke_unknown_capability_is_an_error() {
    let reply = respond(
        &domain_with_ping(),
        "Remo.invoke",
        json(r#"{"name": "does.not.exist", "args": {}}"#),
    );
    let message = expect_error(reply);
    assert!(message.contains("does.not.exist"), "message was: {message}");
    assert_eq!(message, "no such capability: does.not.exist");
}

#[test]
fn invoke_propagates_handler_error() {
    let mut capabilities = InMemoryCapabilities::new();
    register(&mut capabilities, "boom", |_args| Err("kaboom".to_string()));
    let domain = RemoDomain::new(Arc::new(capabilities));
    let reply = respond(&domain, "Remo.invoke", json(r#"{"name": "boom", "args": {}}"#));
    assert_eq!(expect_error(reply), "kaboom");
}

#[test]
fn list_capabilities_reflects_registered_names() {
    let mut capabilities = InMemoryCapabilities::new();
    register(&mut capabilities, "a", |_| Ok(Json::Null));
    register(&mut capabilities, "b", |_| Ok(Json::Null));
    let domain = RemoDomain::new(Arc::new(capabilities));
    let value = expect_ok_result(respond(&domain, "Remo.listCapabilities", Json::Null));
    let mut names: Vec<String> = at(&value, &["names"])
        .as_array()
        .expect("names should be an array")
        .iter()
        .map(|v| v.as_str().unwrap().to_string())
        .collect();
    names.sort();
    assert_eq!(names, vec!["a".to_string(), "b".to_string()]);
}

#[test]
fn invoke_with_missing_name_is_a_clear_error_not_a_panic() {
    let message =
        expect_error(respond(&domain_with_ping(), "Remo.invoke", json(r#"{"args": {}}"#)));
    assert!(message.contains("name"), "message was: {message}");
}

#[test]
fn invoke_with_non_string_name_is_a_clear_error_not_a_panic() {
    let message = expect_error(respond(
        &domain_with_ping(),
        "Remo.invoke",
        json(r#"{"name": 42, "args": {}}"#),
    ));
    assert!(message.contains("name"), "message was: {message}");
}

#[test]
fn invoke_with_missing_args_defaults_to_null() {
    let mut capabilities = InMemoryCapabilities::new();
    register(&mut capabilities, "echo", |args| Ok(Json::empty().with("echoed", args)));
    let domain = RemoDomain::new(Arc::new(capabilities));
    let value = expect_ok_result(respond(&domain, "Remo.invoke", json(r#"{"name": "echo"}"#)));
    assert_eq!(value, json(r#"{"result": {"echoed": null}}"#));
}

#[test]
fn evaluate_dotted_call_reaches_the_real_capability() {
    let value = evaluate(&domain_with_capabilities(), r#"remo.kv.delete({"key": "foo"})"#);
    assert!(value.get("exceptionDetails").is_none(), "value: {value:?}");
    let properties = at(&value, &["result", "preview", "properties"]).as_array().unwrap();
    assert_eq!(properties[0].str_field("name"), Some("deleted"));
}

#[test]
fn evaluate_call_without_args_defaults_to_empty_object() {
    let value = evaluate(&domain_with_capabilities(), "remo.ping()");
    assert!(value.get("exceptionDetails").is_none(), "value: {value:?}");
}

#[test]
fn evaluate_bare_remo_is_a_namespace_object_listing_top_level_children() {
    let value = evaluate(&domain_with_capabilities(), "remo");
    assert!(value.get("exceptionDetails").is_none(), "value: {value:?}");
    assert_eq!(at(&value, &["result", "objectId"]).as_str(), Some("remo:"));
    assert_eq!(
        names_in(at(&value, &["result", "preview", "properties"])),
        set_of(&["echo", "ping", "kv"])
    );
}

#[test]
fn evaluate_dotted_namespace_reference_lists_its_own_children() {
    let value = evaluate(&domain_with_capabilities(), "remo.kv");
    assert!(value.get("exceptionDetails").is_none(), "value: {value:?}");
    assert_eq!(at(&value, &["result", "objectId"]).as_str(), Some("remo:kv"));
    assert_eq!(
        names_in(at(&value, &["result", "preview", "properties"])),
        set_of(&["delete", "get"])
    );
}

#[test]
fn evaluate_bare_leaf_capability_reference_is_a_function_not_a_call() {
    let value = evaluate(&domain_with_capabilities(), "remo.ping");
    assert!(value.get("exceptionDetails").is_none(), "value: {value:?}");
    assert_eq!(at(&value, &["result", "type"]).as_str(), Some("function"));
    assert!(at(&value, &["result"]).field_or_null("objectId").is_null(), "value: {value:?}");
}

#[test]
fn evaluate_reference_to_nothing_registered_is_an_exception() {
    let message = thrown(&evaluate(&domain_with_capabilities(), "remo.nope"));
    assert!(message.contains("remo.nope"), "message: {message}");
}

#[test]
fn evaluate_unknown_capability_call_is_an_exception_not_a_protocol_error() {
    let message = thrown(&evaluate(&domain_with_capabilities(), r#"remo.no.such.thing({})"#));
    assert!(message.contains("no.such.thing"), "message: {message}");
}

#[test]
fn evaluate_rejects_non_json_args_with_a_helpful_message_not_a_panic() {
    let message =
        thrown(&evaluate(&domain_with_capabilities(), r#"remo.echo({hello: "console"})"#));
    assert!(message.contains("strict JSON"), "message: {message}");
}

#[test]
fn evaluate_rejects_arbitrary_js_expressions_gracefully() {
    let value = evaluate(&domain_with_capabilities(), "1 + 1");
    assert!(value.get("exceptionDetails").is_some(), "value: {value:?}");
}

#[test]
fn evaluate_rejects_a_trailing_expression_after_the_call() {
    let value = evaluate(&domain_with_capabilities(), r#"remo.ping(); remo.echo({})"#);
    assert!(value.get("exceptionDetails").is_some(), "value: {value:?}");
}

#[test]
fn evaluate_under_throw_on_side_effect_never_actually_invokes() {
    let called = Rc::new(Cell::new(false));
    let seen = Rc::clone(&called);
    let mut capabilities = InMemoryCapabilities::new();
    register(&mut capabilities, "kv.delete", move |args| {
        seen.set(true);
        Ok(Json::empty().with("deleted", args.field_or_null("key")))
    });
    let domain = RemoDomain::new(Arc::new(capabilities));
    let value = expect_ok_result(respond(
        &domain,
        "Runtime.evaluate",
        json(r#"{"expression": "remo.kv.delete({\"key\": \"foo\"})", "throwOnSideEffect": true}"#),
    ));
    assert_eq!(
        at(&value, &["exceptionDetails", "exception", "className"]).as_str(),
        Some("EvalError")
    );
    assert!(!called.get(), "a call under throwOnSideEffect must never reach the capability");
}

#[test]
fn evaluate_under_throw_on_side_effect_still_allows_bare_references() {
    let value = expect_ok_result(respond(
        &domain_with_capabilities(),
        "Runtime.evaluate",
        json(r#"{"expression": "remo.kv", "throwOnSideEffect": true}"#),
    ));
    assert!(value.get("exceptionDetails").is_none(), "value: {value:?}");
}

#[test]
fn get_properties_on_the_root_lists_top_level_children() {
    let value = expect_ok_result(respond(
        &domain_with_capabilities(),
        "Runtime.getProperties",
        json(r#"{"objectId": "remo:"}"#),
    ));
    let result = at(&value, &["result"]);
    assert_eq!(names_in(result), set_of(&["echo", "ping", "kv"]));
    let kv = result
        .as_array()
        .unwrap()
        .iter()
        .find(|p| p.str_field("name") == Some("kv"))
        .unwrap();
    assert_eq!(at(kv, &["value", "objectId"]).as_str(), Some("remo:kv"));
}

#[test]
fn get_properties_on_a_namespace_lists_its_leaves_as_functions() {
    let value = expect_ok_result(respond(
        &domain_with_capabilities(),
        "Runtime.getProperties",
        json(r#"{"objectId": "remo:kv"}"#),
    ));
    let entries = at(&value, &["result"]).as_array().unwrap();
    assert_eq!(entries.len(), 2);
    for entry in entries {
        assert_eq!(at(entry, &["value", "type"]).as_str(), Some("function"));
    }
}

#[test]
fn get_properties_rejects_an_unrecognized_object_id() {
    let reply = respond(
        &domain_with_capabilities(),
        "Runtime.getProperties",
        json(r#"{"objectId": "not-ours"}"#),
    );
    expect_error(reply);
}

#[test]
fn split_top_level_args_respects_nested_braces_and_strings() {
    let parts = split_top_level_args(r#""a", {"x": [1, 2], "y": "a, b"}"#).unwrap();
    assert_eq!(parts, vec![r#""a""#, r#" {"x": [1, 2], "y": "a, b"}"#]);
}

#[test]
fn split_top_level_args_rejects_unbalanced_brackets() {
    assert!(split_top_level_args(r#""a", {"x": 1"#).is_none());
}

#[test]
fn split_top_level_args_rejects_unterminated_strings() {
    assert!(split_top_level_args(r#""a"#).is_none());
}

#[test]
fn arguments_joined_by_commas_are_the_text() {
    let text = r#"{"a": "x,y"}, [1,2],"#;
    let parts = split_top_level_args(text).unwrap();
    assert_eq!(parts.join(","), text);
}

#[test]
fn escaped_quotes_do_not_end_a_string() {
    let parts = split_top_level_args(r#""a\",b", 2"#).unwrap();
    assert_eq!(parts, vec![r#""a\",b""#, " 2"]);
}

#[test]
fn a_call_holds_its_argument() {
    match parse_console_expr(r#" remo.kv.get({"key": "k"}) ; "#) {
        Some(ConsoleExpr::Invoke { name, args }) => {
            assert_eq!(name, "kv.get");
            assert_eq!(args, json(r#"{"key": "k"}"#));
        }
        other => panic!("unexpected: {other:?}"),
    }
}

#[test]
fn an_argument_has_to_be_an_object() {
    assert!(parse_console_expr("remo.echo(42)").is_none());
    assert!(parse_console_expr(r#"remo.echo("text")"#).is_none());
    assert!(parse_console_expr("remo.echo([1])").is_none());
    assert!(parse_console_expr("remo.echo({})").is_some());
}

#[test]
fn a_call_takes_at_most_one_argument() {
    assert!(parse_console_expr("remo.echo({}, {})").is_none());
    assert!(parse_console_expr(r#"remo.invoke("echo", {"a": 1})"#).is_none());
    assert!(parse_console_expr("remo({})").is_none());
}

#[test]
fn a_reference_is_a_path() {
    match parse_console_expr("remo.kv") {
        Some(ConsoleExpr::Reference(path)) => assert_eq!(path, "kv"),
        other => panic!("unexpected: {other:?}"),
    }
    match parse_shape("remo") {
        Some(ConsoleShape::Reference(path)) => assert_eq!(path, ""),
        other => panic!("unexpected: {other:?}"),
    }
}

#[test]
fn a_call_is_made_from_what_its_argument_reads_as() {
    assert!(make_call("a".to_string(), Some(None)).is_none());
    match make_call("a".to_string(), None) {
        Some(ConsoleExpr::Invoke { name, args }) => {
            assert_eq!(name, "a");
            assert_eq!(args, Json::empty());
        }
        other => panic!("unexpected: {other:?}"),
    }
}

#[test]
fn children_are_the_next_segments_in_order() {
    let names: Vec<String> =
        ["b.x", "a", "b.y.z", "ab"].iter().map(|n| n.to_string()).collect();
    let children = children_of("", &names);
    let listed: Vec<(&str, bool)> = children
        .iter()
        .map(|(name, kind)| (name.as_str(), matches!(kind, ChildKind::Namespace)))
        .collect();
    assert_eq!(listed, vec![("a", false), ("ab", false), ("b", true)]);
    assert!(matches!(classify("b", &names), Node::Namespace(_)));
    assert!(matches!(classify("b.x", &names), Node::Capability));
    assert!(matches!(classify("c", &names), Node::Missing));
}

#[test]
fn children_do_not_depend_on_the_order_of_the_listing() {
    let names: Vec<String> = ["b.x", "a", "b.y"].iter().map(|n| n.to_string()).collect();
    let mut turned = names.clone();
    turned.reverse();
    assert_eq!(format!("{:?}", children_of("", &names)), format!("{:?}", children_of("", &turned)));
}

#[test]
fn an_unhandled_method_is_an_error() {
    let message = expect_error(respond(&domain_with_ping(), "DOM.getDocument", Json::empty()));
    assert_eq!(message, "Remo domain does not handle DOM.getDocument");
}

#[test]
fn enabling_the_runtime_announces_one_context() {
    let mut events = EventSink::new();
    let reply =
        domain_with_ping().respond(&request("Runtime.enable", Json::empty()), &mut events);
    assert_eq!(expect_ok_result(reply), Json::empty());
    assert_eq!(events.frames.len(), 1);
    assert_eq!(events.frames[0].str_field("method"), Some("Runtime.executionContextCreated"));
    assert_eq!(at(&events.frames[0], &["params", "context", "name"]).as_str(), Some("remo"));
}

#[test]
fn the_domain_claims_its_five_methods() {
    assert_eq!(
        domain_with_ping().methods(),
        vec![
            "Remo.invoke",
            "Remo.listCapabilities",
            "Runtime.enable",
            "Runtime.evaluate",
            "Runtime.getProperties",
        ]
    );
}

#[test]
fn exceptions_are_results_with_details() {
    let value = evaluate_exception("went wrong");
    assert_eq!(thrown(&value), "went wrong");
    assert!(value.get("result").is_some());
    let value = side_effect_exception();
    assert_eq!(
        at(&value, &["exceptionDetails", "exception", "className"]).as_str(),
        Some("EvalError")
    );
    let value = evaluate_success(&Json::Bool(true));
    assert_eq!(at(&value, &["result", "type"]).as_str(), Some("boolean"));
}

#[test]
fn replies_follow_what_a_capability_gave() {
    assert_eq!(expect_error(finish("x", false, None)), "no such capability: x");
    assert_eq!(thrown(&expect_ok_result(finish("x", true, None))), "no such capability: x");
    assert_eq!(
        expect_ok_result(finish("x", false, Some(Ok(Json::unsigned(7))))),
        json(r#"{"result": 7}"#)
    );
    assert_eq!(
        thrown(&expect_ok_result(finish("x", true, Some(Err("no".to_string()))))),
        "no"
    );
}

#[test]
fn objects_describe_what_they_stand_for() {
    let function = function_remote_object("kv.get");
    assert_eq!(function.str_field("type"), Some("function"));
    assert!(function.str_field("description").unwrap().contains("get"));
    let children = vec![("get".to_string(), ChildKind::Capability)];
    let namespace = namespace_remote_object("kv", &children);
    assert_eq!(namespace.str_field("objectId"), Some("remo:kv"));
}

#[test]
fn registering_again_replaces_a_capability() {
    let mut capabilities = InMemoryCapabilities::new();
    register(&mut capabilities, "a", |_| Ok(Json::unsigned(1)));
    register(&mut capabilities, "a", |_| Ok(Json::unsigned(2)));
    assert_eq!(capabilities.list(), vec!["a"]);
    assert_eq!(capabilities.invoke("a", Json::Null), Some(Ok(Json::unsigned(2))));
    assert!(capabilities.invoke("b", Json::Null).is_none());
}
