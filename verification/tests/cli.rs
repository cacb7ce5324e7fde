//! What the command line prints.
use remo::cli::{
    calling_line, capabilities_text, dial, info_lines, log_filter, result_text, saved_line,
    service_lines, usb_lines, Dial, Service,
};
use remo::json::Json;
use remo::json_text::parse_json;

fn json(text: &str) -> Json {
    parse_json(text).expect("test JSON")
}

#[test]
fn default_logging_is_quiet() {
    assert_eq!(log_filter(0), "remo=warn");
}

#[test]
fn verbose_flags_increase_logging_detail() {
    assert_eq!(log_filter(1), "remo=info");
    assert_eq!(log_filter(2), "remo=debug");
    assert_eq!(log_filter(3), "remo=trace");
}

#[test]
fn more_flags_than_there_are_levels_ask_for_everything() {
    assert_eq!(log_filter(255), "remo=trace");
}

#[test]
fn a_named_device_goes_before_the_address() {
    assert!(matches!(dial(Some(7), "127.0.0.1:9930".to_string()), Dial::Usb(7)));
    match dial(None, "127.0.0.1:9930".to_string()) {
        Dial::Tcp(address) => assert_eq!(address, "127.0.0.1:9930"),
        other => panic!("unexpected: {other:?}"),
    }
}

#[test]
fn devices_on_cables_are_listed_with_how_to_dial_them() {
    assert_eq!(
        usb_lines(&Ok(vec![(3, "SERIAL".to_string())])),
        vec!["  [3] SERIAL (dial with `remo <command> --device 3`)"]
    );
    assert_eq!(usb_lines(&Ok(vec![])), vec!["  (none found)"]);
    assert_eq!(
        usb_lines(&Err("no socket".to_string())),
        vec!["  usbmuxd unavailable: no socket"]
    );
}

#[test]
fn services_are_listed_with_their_address() {
    let services = vec![
        Service {
            name: "Sim".to_string(),
            address: Some("127.0.0.1:50123".to_string()),
            host: "sim.local".to_string(),
            port: 50123,
        },
        Service {
            name: "Gone".to_string(),
            address: None,
            host: "gone.local".to_string(),
            port: 9,
        },
    ];
    assert_eq!(
        service_lines(&Ok(services)),
        vec![
            "  Sim -> ws://127.0.0.1:50123/devtools/page/1 (dial with --addr 127.0.0.1:50123)",
            "  Gone -> could not resolve gone.local:9",
        ]
    );
    assert_eq!(service_lines(&Ok(vec![])), vec!["  (none found)"]);
    assert_eq!(service_lines(&Err("off".to_string())), vec!["  Bonjour unavailable: off"]);
}

#[test]
fn capabilities_are_printed_in_order() {
    let names = vec!["b".to_string(), "a".to_string()];
    assert_eq!(capabilities_text(&names), "[\n  \"a\",\n  \"b\"\n]");
    assert_eq!(capabilities_text(&vec![]), "[]");
}

#[test]
fn results_are_printed_over_several_lines() {
    assert_eq!(result_text(&json(r#"{"pong":true}"#)), "{\n  \"pong\": true\n}");
    assert_eq!(calling_line("grid.reset"), "Calling 'grid.reset'...");
    assert_eq!(saved_line("shot.png", 1234), "Screenshot saved to shot.png (1234 bytes)");
}

#[test]
fn info_falls_back_where_something_is_unknown() {
    let device = json(r#"{"name": "iPhone", "model": "iPhone", "system_name": "iOS"}"#);
    let app = json(r#"{"bundle_id": "com.example", "version": "1.2", "build": "34"}"#);
    assert_eq!(
        info_lines(&device, &app, "390x844 @3x"),
        vec![
            "=== Device ===",
            "  Name:    iPhone",
            "  Model:   iPhone",
            "  OS:      iOS ?",
            "  Screen:  390x844 @3x",
            "",
            "=== App ===",
            "  Name:    unknown",
            "  Bundle:  com.example",
            "  Version: 1.2 (34)",
        ]
    );
}
