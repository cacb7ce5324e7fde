//! Keychain items, in a keychain held in memory.
use remo::json::Json;
use remo::keychain::{
    bytes_to_json, delete, delete_keychain_item, get, get_keychain_item, list, list_keychain_items,
    set_keychain_item, KeychainCall, SecError, ERR_SEC_ITEM_NOT_FOUND,
};
use std::collections::BTreeMap;

/// A keychain that behaves as the system's does: an item that is not there is an error of its own.
#[derive(Default)]
struct Keychain {
    items: BTreeMap<(String, String), Vec<u8>>,
}

fn not_found() -> SecError {
    SecError {
        code: ERR_SEC_ITEM_NOT_FOUND,
        message: "The specified item could not be found in the keychain.".to_string(),
    }
}

impl Keychain {
    fn set(&mut self, service: &str, account: &str, password: &str) -> Result<(), String> {
        match set_keychain_item(service, account, password) {
            KeychainCall::Put { service, account, password } => {
                self.items.insert((service, account), password.into_bytes());
                remo::keychain::set(Ok(()))
            }
            other => panic!("unexpected call: {other:?}"),
        }
    }

    fn get(&self, service: &str, account: &str) -> Result<Option<Json>, String> {
        match get_keychain_item(service, account) {
            KeychainCall::Get { service, account } => {
                get(self.items.get(&(service, account)).cloned().ok_or_else(not_found))
            }
            other => panic!("unexpected call: {other:?}"),
        }
    }

    fn delete(&mut self, service: &str, account: &str) -> Result<(), String> {
        match delete_keychain_item(service, account) {
            KeychainCall::Delete { service, account } => {
                delete(self.items.remove(&(service, account)).map(|_| ()).ok_or_else(not_found))
            }
            other => panic!("unexpected call: {other:?}"),
        }
    }

    fn list(&self) -> Result<Vec<Json>, String> {
        match list_keychain_items() {
            KeychainCall::List => list(Ok(self
                .items
                .keys()
                .map(|(service, account)| {
                    Some(vec![
                        ("svce".to_string(), service.clone()),
                        ("acct".to_string(), account.clone()),
                    ])
                })
                .collect())),
            other => panic!("unexpected call: {other:?}"),
        }
    }
}

fn test_service(name: &str) -> String {
    format!("remo.remo-objc-tests.{name}")
}

#[test]
fn keychain_string_round_trips() {
    let mut keychain = Keychain::default();
    let service = test_service("string_round_trips");
    keychain.set(&service, "acct", "hello").unwrap();
    assert_eq!(keychain.get(&service, "acct").unwrap(), Some(Json::text("hello")));
    keychain.delete(&service, "acct").unwrap();
    assert_eq!(keychain.get(&service, "acct").unwrap(), None);
}

#[test]
fn set_then_set_again_overwrites_not_duplicates() {
    let mut keychain = Keychain::default();
    let service = test_service("set_then_set_again_overwrites_not_duplicates");
    keychain.set(&service, "acct", "first").unwrap();
    keychain.set(&service, "acct", "second").unwrap();
    assert_eq!(keychain.get(&service, "acct").unwrap(), Some(Json::text("second")));
    keychain.delete(&service, "acct").unwrap();
}

#[test]
fn keychain_delete_then_get_is_none() {
    let mut keychain = Keychain::default();
    let service = test_service("delete_then_get_is_none");
    keychain.set(&service, "acct", "temp").unwrap();
    keychain.delete(&service, "acct").unwrap();
    assert_eq!(keychain.get(&service, "acct").unwrap(), None);
}

#[test]
fn delete_of_missing_item_is_not_an_error() {
    let mut keychain = Keychain::default();
    let service = test_service("delete_of_missing_item_is_not_an_error");
    keychain.delete(&service, "acct").unwrap();
}

#[test]
fn list_includes_a_freshly_set_item() {
    let mut keychain = Keychain::default();
    let service = test_service("list_includes_a_freshly_set_item");
    keychain.set(&service, "acct", "visible").unwrap();
    let all = keychain.list().unwrap();
    assert!(all.iter().any(|item| item.str_field("svce") == Some(service.as_str())));
    keychain.delete(&service, "acct").unwrap();
}

#[test]
fn bytes_that_are_no_text_are_shown_in_base64() {
    assert_eq!(bytes_to_json(b"hello"), Json::text("hello"));
    assert_eq!(bytes_to_json(&[0xff, 0xfe]), Json::text("//4="));
}

#[test]
fn other_failures_keep_their_message() {
    let denied = || SecError { code: -25308, message: "denied".to_string() };
    assert!(get(Err(denied())).unwrap_err().contains("denied"));
    assert!(remo::keychain::set(Err(denied())).unwrap_err().contains("denied"));
    assert!(delete(Err(denied())).unwrap_err().contains("denied"));
    assert!(list(Err(denied())).unwrap_err().contains("denied"));
}

#[test]
fn an_empty_keychain_lists_nothing() {
    assert_eq!(list(Err(not_found())), Ok(vec![]));
    assert_eq!(list(Ok(vec![None])), Ok(vec![]));
}
