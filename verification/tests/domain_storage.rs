//! The `Storage` domain, over user defaults held in memory.
use remo::dispatcher::{CdpReply, CdpRequest, EventSink};
use remo::domain_dom::MAIN_ORIGIN;
use remo::domain_storage::{
    display_value, is_local_storage, is_userdefaults_bucket, json_or_text, parse_value,
    storage_id_json, storage_key, StorageDomain, StorageStep, USERDEFAULTS_ORIGIN,
};
use remo::json::Json;
use remo::json_text::parse_json;
use std::collections::BTreeMap;

fn json(text: &str) -> Json {
    parse_json(text).expect("test JSON")
}

/// The domain with a store of its own.
#[derive(Default)]
struct Host {
    store: BTreeMap<String, Json>,
    events: Vec<Json>,
}

impl Host {
    fn entries(&self) -> Vec<(String, Json)> {
        self.store.iter().map(|(key, value)| (key.clone(), value.copy())).collect()
    }

    fn respond(&mut self, method: &str, params: Json) -> CdpReply {
        let domain = StorageDomain::new();
        let mut events = EventSink::new();
        let request = CdpRequest { id: 1, method: method.to_string(), params };
        let reply = match domain.begin(&request) {
            StorageStep::Reply(reply) => reply,
            StorageStep::List => StorageDomain::finish_list(&self.entries()),
            StorageStep::Store { key, value } => {
                self.store.insert(key.clone(), value.copy());
                StorageDomain::finish_store(&key, &value, Ok(()), &mut events)
            }
            StorageStep::Remove { key } => {
                self.store.remove(&key);
                StorageDomain::finish_remove(&key, &mut events)
            }
            StorageStep::Clear => {
                for key in StorageDomain::keys_to_clear(&self.entries()) {
                    self.store.remove(&key);
                }
                StorageDomain::finish_clear(&mut events)
            }
        };
        self.events.extend(events.frames);
        reply
    }

    fn items(&mut self) -> Vec<Json> {
        let value = assert_ok(self.respond("DOMStorage.getDOMStorageItems", in_bucket()));
        match value.get("entries") {
            Some(Json::Array(items)) => items.iter().map(|item| item.copy()).collect(),
            other => panic!("unexpected: {other:?}"),
        }
    }
}

fn assert_ok(reply: CdpReply) -> Json {
    match reply {
        CdpReply::Result(value) => value,
        CdpReply::Error { message, .. } => panic!("expected a result, got an error: {message}"),
    }
}

fn assert_err(reply: CdpReply) -> String {
    match reply {
        CdpReply::Result(value) => panic!("expected an error, got: {value:?}"),
        CdpReply::Error { message, .. } => message,
    }
}

fn userdefaults_storage_id() -> Json {
    Json::empty()
        .with("securityOrigin", Json::text(USERDEFAULTS_ORIGIN))
        .with("storageKey", Json::text(&format!("{USERDEFAULTS_ORIGIN}/")))
        .with("isLocalStorage", Json::Bool(true))
}

fn in_bucket() -> Json {
    Json::empty().with("storageId", userdefaults_storage_id())
}

fn item(key: &str, value: &str) -> Json {
    in_bucket().with("key", Json::text(key)).with("value", Json::text(value))
}

fn pair(key: &str, value: &str) -> Json {
    Json::array(vec![Json::text(key), Json::text(value)])
}

#[test]
fn enable_and_disable_are_bare_acks() {
    for method in ["DOMStorage.enable", "DOMStorage.disable"] {
        assert_eq!(assert_ok(Host::default().respond(method, Json::empty())), Json::empty());
    }
}

#[test]
fn get_dom_storage_items_rejects_unknown_bucket() {
    assert_err(Host::default().respond(
        "DOMStorage.getDOMStorageItems",
        json(r#"{"storageId": {"securityOrigin": "mmkv://whatever", "isLocalStorage": true}}"#),
    ));
}

#[test]
fn get_dom_storage_items_returns_empty_entries_for_session_storage() {
    let storage_id = userdefaults_storage_id().with("isLocalStorage", Json::Bool(false));
    let reply = Host::default().respond(
        "DOMStorage.getDOMStorageItems",
        Json::empty().with("storageId", storage_id),
    );
    assert_eq!(assert_ok(reply), json(r#"{"entries": []}"#));
}

#[test]
fn get_dom_storage_items_accepts_security_origin_fallback() {
    let storage_id = Json::empty()
        .with("securityOrigin", Json::text(USERDEFAULTS_ORIGIN))
        .with("isLocalStorage", Json::Bool(true));
    let value = assert_ok(Host::default().respond(
        "DOMStorage.getDOMStorageItems",
        Json::empty().with("storageId", storage_id),
    ));
    assert!(value.get("entries").unwrap().as_array().is_some());
}

#[test]
fn set_then_get_round_trips_a_string() {
    let mut host = Host::default();
    let key = "remo.cdp-tests.set_then_get_round_trips_a_string";
    let reply = host.respond("DOMStorage.setDOMStorageItem", item(key, "hello"));
    assert_eq!(assert_ok(reply), Json::empty());
    let event = &host.events[0];
    assert_eq!(event.str_field("method"), Some("DOMStorage.domStorageItemAdded"));
    let params = event.get("params").unwrap();
    assert_eq!(params.str_field("key"), Some(key));
    assert_eq!(params.str_field("newValue"), Some("hello"));
    assert!(host.items().contains(&pair(key, "hello")));
}

#[test]
fn non_string_values_round_trip_json_encoded() {
    let mut host = Host::default();
    let key = "remo.cdp-tests.non_string_values_round_trip_json_encoded";
    host.respond("DOMStorage.setDOMStorageItem", item(key, "42"));
    assert_eq!(host.store[key], Json::unsigned(42));
    assert!(host.items().contains(&pair(key, "42")));
}

#[test]
fn remove_dom_storage_item_deletes_and_emits_event() {
    let mut host = Host::default();
    let key = "remo.cdp-tests.remove_dom_storage_item_deletes_and_emits_event";
    host.respond("DOMStorage.setDOMStorageItem", item(key, "x"));
    host.events.clear();
    let reply = host.respond(
        "DOMStorage.removeDOMStorageItem",
        in_bucket().with("key", Json::text(key)),
    );
    assert_eq!(assert_ok(reply), Json::empty());
    let event = &host.events[0];
    assert_eq!(event.str_field("method"), Some("DOMStorage.domStorageItemRemoved"));
    assert_eq!(event.get("params").unwrap().str_field("key"), Some(key));
    assert!(!host.items().contains(&pair(key, "x")));
    assert!(!host.store.contains_key(key));
}

#[test]
fn clear_removes_everything_and_emits_event() {
    let mut host = Host::default();
    let key = "remo.cdp-tests.clear_removes_everything_and_emits_event";
    host.respond("DOMStorage.setDOMStorageItem", item(key, "x"));
    host.events.clear();
    let reply = host.respond("DOMStorage.clear", in_bucket());
    assert_eq!(assert_ok(reply), Json::empty());
    assert_eq!(host.events[0].str_field("method"), Some("DOMStorage.domStorageItemsCleared"));
    assert!(host.items().is_empty());
}

#[test]
fn get_storage_key_for_frame_maps_main_and_userdefaults_frames() {
    let mut host = Host::default();
    let reply = host.respond("Storage.getStorageKeyForFrame", json(r#"{"frameId": "1"}"#));
    assert_eq!(
        assert_ok(reply).str_field("storageKey"),
        Some(format!("{MAIN_ORIGIN}/").as_str())
    );
    let reply = host.respond(
        "Storage.getStorageKeyForFrame",
        Json::empty().with("frameId", Json::text(USERDEFAULTS_ORIGIN)),
    );
    assert_eq!(
        assert_ok(reply).str_field("storageKey"),
        Some(format!("{USERDEFAULTS_ORIGIN}/").as_str())
    );
}

#[test]
fn set_storage_bucket_tracking_is_a_bare_ack() {
    let mut host = Host::default();
    let reply = host.respond(
        "Storage.setStorageBucketTracking",
        Json::empty().with("storageKey", Json::text(&format!("{MAIN_ORIGIN}/"))),
    );
    assert_eq!(assert_ok(reply), Json::empty());
    assert!(host.events.is_empty());
}

#[test]
fn clear_data_for_origin_is_unsupported() {
    assert_err(Host::default().respond("Storage.clearDataForOrigin", Json::empty()));
    assert_err(Host::default().respond("Storage.clearDataForStorageKey", Json::empty()));
}

#[test]
fn domain_storage_methods_list_matches_exactly_what_this_domain_claims() {
    assert_eq!(
        StorageDomain::new().methods(),
        vec![
            "DOMStorage.enable",
            "DOMStorage.disable",
            "DOMStorage.getDOMStorageItems",
            "DOMStorage.setDOMStorageItem",
            "DOMStorage.removeDOMStorageItem",
            "DOMStorage.clear",
            "Storage.getStorageKeyForFrame",
            "Storage.getStorageKey",
            "Storage.setStorageBucketTracking",
            "Storage.clearDataForOrigin",
            "Storage.clearDataForStorageKey",
        ]
    );
}

#[test]
fn get_storage_key_answers_the_same_as_get_storage_key_for_frame() {
    let mut host = Host::default();
    let reply = host.respond("Storage.getStorageKey", json(r#"{"frameId": "1"}"#));
    assert_eq!(
        assert_ok(reply).str_field("storageKey"),
        Some(format!("{MAIN_ORIGIN}/").as_str())
    );
    let reply = host.respond(
        "Storage.getStorageKey",
        Json::empty().with("frameId", Json::text(USERDEFAULTS_ORIGIN)),
    );
    assert_eq!(
        assert_ok(reply).str_field("storageKey"),
        Some(format!("{USERDEFAULTS_ORIGIN}/").as_str())
    );
}

#[test]
fn requests_without_what_they_need_are_refused() {
    let mut host = Host::default();
    assert_err(host.respond("DOMStorage.getDOMStorageItems", Json::empty()));
    assert_err(host.respond("DOMStorage.setDOMStorageItem", in_bucket()));
    assert_err(host.respond("DOMStorage.removeDOMStorageItem", in_bucket()));
    assert_eq!(
        assert_err(host.respond("Storage.other", Json::empty())),
        "Storage domain does not handle Storage.other"
    );
}

#[test]
fn a_value_that_could_not_be_stored_is_an_error() {
    let mut events = EventSink::new();
    let reply = StorageDomain::finish_store(
        "k",
        &Json::Null,
        Err("cannot set null".to_string()),
        &mut events,
    );
    assert_eq!(assert_err(reply), "cannot set null");
    assert!(events.frames.is_empty());
}

#[test]
fn what_is_displayed_is_typed_back() {
    for text in ["42", "true", r#"{"a":[1,2]}"#, "null"] {
        let value = json(text);
        assert_eq!(display_value(&value), text);
        assert_eq!(parse_value(&display_value(&value)), value);
    }
    assert_eq!(display_value(&Json::text("plain")), "plain");
    assert_eq!(parse_value("plain"), Json::text("plain"));
    assert_eq!(json_or_text("raw", None), Json::text("raw"));
    assert_eq!(json_or_text("7", Some(Json::unsigned(7))), Json::unsigned(7));
}

#[test]
fn the_own_id_names_the_bucket() {
    let id = storage_id_json();
    assert!(is_userdefaults_bucket(&id));
    assert!(is_local_storage(&id));
    assert_eq!(storage_key(USERDEFAULTS_ORIGIN), format!("{USERDEFAULTS_ORIGIN}/"));
}
