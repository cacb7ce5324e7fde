//! The `Page` domain.
use remo::dispatcher::{CdpReply, CdpRequest, EventSink};
use remo::domain_page::{
    capture_settings, CaptureSettings, PageDomain, PageStep, Screenshot, DEFAULT_QUALITY_PERCENT,
};
use remo::json::Json;
use remo::json_text::parse_json;

fn json(text: &str) -> Json {
    parse_json(text).expect("test JSON")
}

fn begin(domain: &mut PageDomain, method: &str, params: Json) -> PageStep {
    domain.begin(&CdpRequest { id: 1, method: method.to_string(), params })
}

fn assert_ok(step: PageStep) -> Json {
    match step {
        PageStep::Reply(CdpReply::Result(value)) => value,
        other => panic!("expected a result, got: {other:?}"),
    }
}

#[test]
fn emulate_network_conditions_returns_rule_ids_array() {
    let step =
        begin(&mut PageDomain::new(), "Network.emulateNetworkConditionsByRule", Json::empty());
    assert_eq!(assert_ok(step), json(r#"{"ruleIds": []}"#));
}

#[test]
fn call_function_on_returns_shaped_remote_object() {
    let value = assert_ok(begin(&mut PageDomain::new(), "Runtime.callFunctionOn", Json::empty()));
    let result = value.get("result").expect("reply must hold a result");
    assert_eq!(result.str_field("type"), Some("object"));
}

#[test]
fn get_platform_fonts_for_node_returns_empty_fonts() {
    let step = begin(&mut PageDomain::new(), "CSS.getPlatformFontsForNode", Json::empty());
    assert_eq!(assert_ok(step), json(r#"{"fonts": []}"#));
}

#[test]
fn get_environment_variables_returns_empty_map() {
    let step = begin(&mut PageDomain::new(), "CSS.getEnvironmentVariables", Json::empty());
    assert_eq!(assert_ok(step), json(r#"{"environmentVariables": {}}"#));
}

#[test]
fn take_computed_style_updates_is_stable_across_repeated_polls() {
    let mut domain = PageDomain::new();
    for _ in 0..3 {
        let step = begin(&mut domain, "CSS.takeComputedStyleUpdates", Json::empty());
        assert_eq!(assert_ok(step), json(r#"{"nodeIds": []}"#));
    }
}

#[test]
fn domain_page_methods_list_matches_exactly_what_this_domain_claims() {
    assert_eq!(
        PageDomain::new().methods(),
        vec![
            "Page.captureScreenshot",
            "Page.startScreencast",
            "Page.stopScreencast",
            "Network.emulateNetworkConditionsByRule",
            "Runtime.callFunctionOn",
            "CSS.getPlatformFontsForNode",
            "CSS.getEnvironmentVariables",
            "CSS.takeComputedStyleUpdates",
        ]
    );
}

#[test]
fn a_capture_asks_for_its_format_and_quality() {
    match begin(
        &mut PageDomain::new(),
        "Page.captureScreenshot",
        json(r#"{"format": "png", "quality": 50}"#),
    ) {
        PageStep::Capture(settings) => assert_eq!(
            settings,
            CaptureSettings { format: "png".to_string(), quality_percent: 50 }
        ),
        other => panic!("unexpected: {other:?}"),
    }
    assert_eq!(capture_settings(&Json::empty()).quality_percent, DEFAULT_QUALITY_PERCENT);
}

#[test]
fn captured_bytes_are_replied_in_base64() {
    match PageDomain::finish_capture(Some(vec![1, 2])) {
        CdpReply::Result(value) => assert_eq!(value, json(r#"{"data": "AQI="}"#)),
        other => panic!("unexpected: {other:?}"),
    }
    match PageDomain::finish_capture(None) {
        CdpReply::Error { message, .. } => assert_eq!(message, "screenshot capture failed"),
        other => panic!("unexpected: {other:?}"),
    }
}

#[test]
fn a_new_screencast_stops_the_one_before_it() {
    let mut domain = PageDomain::new();
    let first = match begin(&mut domain, "Page.startScreencast", Json::empty()) {
        PageStep::Start { stopped, session, .. } => {
            assert_eq!(stopped, None);
            session
        }
        other => panic!("unexpected: {other:?}"),
    };
    let second = match begin(&mut domain, "Page.startScreencast", Json::empty()) {
        PageStep::Start { stopped, session, .. } => {
            assert_eq!(stopped, Some(first));
            session
        }
        other => panic!("unexpected: {other:?}"),
    };
    assert_ne!(first, second);
    match begin(&mut domain, "Page.stopScreencast", Json::empty()) {
        PageStep::Stop { stopped } => assert_eq!(stopped, Some(second)),
        other => panic!("unexpected: {other:?}"),
    }
    assert_eq!(domain.reset(), None);
}

#[test]
fn a_frame_of_a_screencast_is_an_event() {
    let mut events = EventSink::new();
    PageDomain::screencast_frame(3, None, &mut events);
    assert!(events.frames.is_empty());
    let shot = Screenshot {
        bytes: vec![1, 2],
        width: Json::unsigned(390),
        height: Json::unsigned(844),
    };
    PageDomain::screencast_frame(3, Some(shot), &mut events);
    assert_eq!(
        events.frames,
        vec![json(
            r#"{"method": "Page.screencastFrame",
                "params": {"data": "AQI=", "sessionId": 3,
                           "metadata": {"deviceWidth": 390, "deviceHeight": 844}}}"#
        )]
    );
}

#[test]
fn an_unhandled_page_method_is_an_error() {
    match begin(&mut PageDomain::default(), "Page.unknown", Json::empty()) {
        PageStep::Reply(CdpReply::Error { message, .. }) => {
            assert_eq!(message, "Page domain does not handle Page.unknown")
        }
        other => panic!("unexpected: {other:?}"),
    }
}
