//! User defaults, in a store held in memory that numbers as the system's does.
use remo::json::Json;
use remo::json_text::parse_json;
use remo::user_defaults::{
    get_user_default, json_to_object, list_user_defaults, object_to_json, set_user_default,
    NewObject, NumberObject, Plist, CHAR_CODE, DOUBLE_CODE, LONG_CODE,
};
use std::collections::BTreeMap;

fn json(text: &str) -> Json {
    parse_json(text).expect("test JSON")
}

/// What the system keeps of an object that is put into it.
fn keep(object: NewObject) -> Plist {
    match object {
        NewObject::Flag(truth) => Plist::Number(NumberObject {
            type_code: CHAR_CODE,
            truth,
            integer: Some(i64::from(truth)),
            fraction: None,
        }),
        NewObject::Integer(value) => Plist::Number(NumberObject {
            type_code: LONG_CODE,
            truth: value != 0,
            integer: Some(value),
            fraction: None,
        }),
        NewObject::Double(number) => Plist::Number(NumberObject {
            type_code: DOUBLE_CODE,
            truth: true,
            integer: None,
            fraction: Some(number),
        }),
        NewObject::Text(text) => Plist::Text(text),
        NewObject::Array(items) => Plist::Array(items.into_iter().map(keep).collect()),
        NewObject::Dictionary(entries) => {
            Plist::Dictionary(entries.into_iter().map(|(key, value)| (key, keep(value))).collect())
        }
    }
}

#[derive(Default)]
struct Store {
    held: BTreeMap<String, Plist>,
}

impl Store {
    fn set(&mut self, key: &str, value: &Json) -> Result<(), String> {
        let object = set_user_default(value)?;
        self.held.insert(key.to_string(), keep(object));
        Ok(())
    }

    fn get(&self, key: &str) -> Option<Json> {
        get_user_default(self.held.get(key).unwrap_or(&Plist::Nothing))
    }

    fn delete(&mut self, key: &str) {
        self.held.remove(key);
    }

    fn list(self) -> Vec<(String, Json)> {
        list_user_defaults(&self.held.into_iter().collect())
    }
}

fn round_trips(text: &str) {
    let mut store = Store::default();
    let value = json(text);
    store.set("key", &value).unwrap();
    assert_eq!(store.get("key"), Some(value));
}

#[test]
fn user_defaults_string_round_trips() {
    let mut store = Store::default();
    store.set("key", &Json::text("hello")).unwrap();
    assert_eq!(store.get("key"), Some(Json::text("hello")));
    store.delete("key");
    assert_eq!(store.get("key"), None);
}

#[test]
fn bool_round_trips_as_bool_not_number() {
    round_trips("true");
}

#[test]
fn integer_round_trips() {
    round_trips("42");
}

#[test]
fn float_round_trips() {
    round_trips("3.5");
}

#[test]
fn array_and_object_round_trip() {
    round_trips(r#"{"names": ["a", "b"], "count": 2}"#);
}

#[test]
fn set_null_is_rejected_not_silently_ignored() {
    let result = Store::default().set("key", &Json::Null);
    assert!(result.is_err());
    assert_eq!(result, Err("cannot set null — use delete to remove a key".to_string()));
}

#[test]
fn list_includes_a_freshly_set_key() {
    let mut store = Store::default();
    store.set("remo.visible", &Json::text("visible")).unwrap();
    let all = store.list();
    assert!(all.iter().any(|(k, v)| k == "remo.visible" && v == &Json::text("visible")));
}

#[test]
fn user_defaults_delete_then_get_is_none() {
    let mut store = Store::default();
    store.set("key", &Json::text("temp")).unwrap();
    store.delete("key");
    assert_eq!(store.get("key"), None);
}

#[test]
fn a_listing_is_in_the_order_of_keys() {
    let entries = vec![
        ("b".to_string(), Plist::Text("2".to_string())),
        ("a".to_string(), Plist::Nothing),
    ];
    assert_eq!(
        list_user_defaults(&entries),
        vec![("a".to_string(), Json::Null), ("b".to_string(), Json::text("2"))]
    );
}

#[test]
fn bytes_and_other_values_are_shown_as_text() {
    assert_eq!(object_to_json(&Plist::Data(vec![1, 2])), Json::text("AQI="));
    assert_eq!(object_to_json(&Plist::Other(Some("date".to_string()))), Json::text("date"));
    assert_eq!(object_to_json(&Plist::Other(None)), Json::Null);
}

#[test]
fn nulls_are_left_out_of_what_is_stored() {
    let kept = keep(json_to_object(&json(r#"{"a": null, "b": [1, null]}"#)).unwrap());
    assert_eq!(object_to_json(&kept), json(r#"{"b": [1]}"#));
}
