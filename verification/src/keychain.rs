//! Passwords in the keychain, by service and account.
//!
//! The keychain itself is somebody else's. A function ending in `_keychain_item` or
//! `_keychain_items` says what to ask of it; `list`, `get`, `set` and `delete` say what its answer
//! means.
use crate::base64_text::{base64_of, encode_base64};
use crate::json::{no_entries, no_fields, trees, with_fields, Json, JsonView};
use crate::utf8_text::utf8_text;
use crate::view_tree::row_texts;
use vstd::prelude::*;
use vstd::utf8::{decode_utf8, encode_utf8, valid_utf8};

verus! {

/// The code with which the keychain says that there is no such item.
pub const ERR_SEC_ITEM_NOT_FOUND: i32 = -25300;

/// Why the keychain refused.
#[derive(Debug)]
pub struct SecError {
    pub code: i32,
    pub message: String,
}

/// What to ask of the keychain.
#[derive(Debug, PartialEq, Eq)]
pub enum KeychainCall {
    /// The attributes of every password, without the passwords.
    List,
    /// One password.
    Get { service: String, account: String },
    /// Set one password, new or in the place of another. The password goes in as UTF-8.
    Put { service: String, account: String, password: String },
    /// Delete one password.
    Delete { service: String, account: String },
}

/// Asks for the attributes of every password.
pub fn list_keychain_items() -> (call: KeychainCall)
    ensures
        call == KeychainCall::List,
{
    KeychainCall::List
}

/// Asks for one password.
pub fn get_keychain_item(service: &str, account: &str) -> (call: KeychainCall)
    ensures
        call matches KeychainCall::Get { service: s, account: a } && s@ == service@ && a@
            == account@,
{
    KeychainCall::Get { service: service.to_owned(), account: account.to_owned() }
}

/// Asks to set one password.
pub fn set_keychain_item(service: &str, account: &str, password: &str) -> (call: KeychainCall)
    ensures
        call matches KeychainCall::Put { service: s, account: a, password: p } && s@ == service@
            && a@ == account@ && p@ == password@,
{
    KeychainCall::Put {
        service: service.to_owned(),
        account: account.to_owned(),
        password: password.to_owned(),
    }
}

/// Asks to delete one password.
pub fn delete_keychain_item(service: &str, account: &str) -> (call: KeychainCall)
    ensures
        call matches KeychainCall::Delete { service: s, account: a } && s@ == service@ && a@
            == account@,
{
    KeychainCall::Delete { service: service.to_owned(), account: account.to_owned() }
}

/// How a password is shown: as text where it is UTF-8, else in base64.
pub open spec fn shown_password(bytes: Seq<u8>) -> JsonView {
    JsonView::Text(
        if valid_utf8(bytes) {
            decode_utf8(bytes)
        } else {
            base64_of(bytes)
        },
    )
}

/// How a password is shown: as text where it is UTF-8, else in base64.
pub fn bytes_to_json(bytes: &[u8]) -> (json: Json)
    ensures
        json@ == shown_password(bytes@),
{
    match utf8_text(bytes) {
        Some(text) => Json::Text(text),
        None => Json::Text(encode_base64(bytes)),
    }
}

/// A password that was set is shown as it was typed.
pub proof fn password_round_trips(password: Seq<char>)
    ensures
        shown_password(encode_utf8(password)) == JsonView::Text(password),
{
    broadcast use {vstd::utf8::encode_utf8_valid_utf8, vstd::utf8::encode_utf8_decode_utf8};

}

/// A keychain that does what it is asked: the bytes of each password, by service and account.
pub type Passwords = Map<(Seq<char>, Seq<char>), Seq<u8>>;

/// What such a keychain holds after it was asked for something.
pub open spec fn asked(passwords: Passwords, call: KeychainCall) -> Passwords {
    match call {
        KeychainCall::Put { service, account, password } => passwords.insert(
            (service@, account@),
            encode_utf8(password@),
        ),
        KeychainCall::Delete { service, account } => passwords.remove((service@, account@)),
        _ => passwords,
    }
}

/// Where passwords are set twice under a service and an account, the second is the one that is
/// shown. There is one item of them, and no other item changes.
pub proof fn later_password_counts(
    passwords: Passwords,
    first: KeychainCall,
    second: KeychainCall,
)
    requires
        first is Put,
        second is Put,
        first->Put_service@ == second->Put_service@,
        first->Put_account@ == second->Put_account@,
    ensures
        ({
            let key = (second->Put_service@, second->Put_account@);
            let after = asked(asked(passwords, first), second);
            &&& after.contains_key(key)
            &&& shown_password(after[key]) == JsonView::Text(second->Put_password@)
            &&& after == asked(passwords, second)
            &&& forall|other: (Seq<char>, Seq<char>)|
                other != key ==> (#[trigger] after.contains_key(other) == passwords.contains_key(
                    other,
                ) && (passwords.contains_key(other) ==> after[other] == passwords[other]))
        }),
{
    password_round_trips(second->Put_password@);
    assert(asked(asked(passwords, first), second) =~= asked(passwords, second));
}

/// A password that was deleted is gone, and no other item changes.
pub proof fn deleted_password_is_gone(passwords: Passwords, call: KeychainCall)
    requires
        call is Delete,
    ensures
        asked(passwords, call) == passwords.remove((call->Delete_service@, call->Delete_account@)),
        !asked(passwords, call).contains_key((call->Delete_service@, call->Delete_account@)),
{
}

/// Attributes as a JSON object; of attributes with the same name the last counts.
pub open spec fn attributes_view(attributes: Seq<(Seq<char>, Seq<char>)>) -> JsonView
    decreases attributes.len(),
{
    if attributes.len() == 0 {
        no_entries()
    } else {
        attributes_view(attributes.drop_last()).with(
            attributes.last().0,
            JsonView::Text(attributes.last().1),
        )
    }
}

/// The items that have attributes, as JSON objects.
pub open spec fn items_view(items: Seq<Option<Vec<(String, String)>>>) -> Seq<JsonView>
    decreases items.len(),
{
    if items.len() == 0 {
        seq![]
    } else {
        let front = items_view(items.drop_last());
        match items.last() {
            Some(attributes) => front.push(attributes_view(row_texts(attributes@))),
            None => front,
        }
    }
}

fn attributes_object(attributes: &Vec<(String, String)>) -> (object: Json)
    ensures
        object@ == attributes_view(row_texts(attributes@)),
{
    let ghost all = row_texts(attributes@);
    let mut object = Json::empty();
    let mut i: usize = 0;
    while i < attributes.len()
        invariant
            i <= attributes.len(),
            all == row_texts(attributes@),
            object@ == attributes_view(all.take(i as int)),
        decreases attributes.len() - i,
    {
        assert(all.take(i + 1).drop_last() =~= all.take(i as int));
        object = object.with(attributes[i].0.as_str(), Json::text(attributes[i].1.as_str()));
        i = i + 1;
    }
    assert(all.take(i as int) =~= all);
    object
}

/// What the answer to a list means: the attributes of every item that has any. That nothing was
/// found means that there are none.
pub fn list(outcome: Result<Vec<Option<Vec<(String, String)>>>, SecError>) -> (result: Result<
    Vec<Json>,
    String,
>)
    ensures
        outcome matches Ok(items) ==> (result matches Ok(list) && trees(list@) == items_view(
            items@,
        )),
        outcome matches Err(error) ==> if error.code == ERR_SEC_ITEM_NOT_FOUND {
            result matches Ok(list) && list@.len() == 0
        } else {
            result matches Err(message) && message@ == error.message@
        },
{
    let items = match outcome {
        Ok(items) => items,
        Err(error) => if error.code == ERR_SEC_ITEM_NOT_FOUND {
            return Ok(Vec::new());
        } else {
            return Err(error.message);
        },
    };
    let mut list: Vec<Json> = Vec::new();
    assert(trees(list@) =~= seq![]);
    let mut i: usize = 0;
    while i < items.len()
        invariant
            i <= items.len(),
            trees(list@) == items_view(items@.take(i as int)),
        decreases items.len() - i,
    {
        assert(items@.take(i + 1).drop_last() =~= items@.take(i as int));
        if let Some(attributes) = &items[i] {
            let ghost before = trees(list@);
            let object = attributes_object(attributes);
            list.push(object);
            assert(trees(list@) =~= before.push(object@));
        }
        i = i + 1;
    }
    assert(items@.take(i as int) =~= items@);
    Ok(list)
}

/// What the answer to a get means. That nothing was found means that there is no such password.
pub fn get(outcome: Result<Vec<u8>, SecError>) -> (result: Result<Option<Json>, String>)
    ensures
        outcome matches Ok(bytes) ==> (result matches Ok(Some(json)) && json@ == shown_password(
            bytes@,
        )),
        outcome matches Err(error) ==> if error.code == ERR_SEC_ITEM_NOT_FOUND {
            result == Ok::<Option<Json>, String>(None)
        } else {
            result matches Err(message) && message@ == error.message@
        },
{
    match outcome {
        Ok(bytes) => Ok(Some(bytes_to_json(bytes.as_slice()))),
        Err(error) => if error.code == ERR_SEC_ITEM_NOT_FOUND {
            Ok(None)
        } else {
            Err(error.message)
        },
    }
}

/// What the answer to a set means.
pub fn set(outcome: Result<(), SecError>) -> (result: Result<(), String>)
    ensures
        result is Ok == outcome is Ok,
        outcome matches Err(error) ==> (result matches Err(message) && message@ == error.message@),
{
    match outcome {
        Ok(_) => Ok(()),
        Err(error) => Err(error.message),
    }
}

/// What the answer to a delete means. A password that is not there is as good as deleted.
pub fn delete(outcome: Result<(), SecError>) -> (result: Result<(), String>)
    ensures
        outcome is Ok ==> result is Ok,
        outcome matches Err(error) ==> if error.code == ERR_SEC_ITEM_NOT_FOUND {
            result is Ok
        } else {
            result matches Err(message) && message@ == error.message@
        },
{
    match outcome {
        Ok(_) => Ok(()),
        Err(error) => if error.code == ERR_SEC_ITEM_NOT_FOUND {
            Ok(())
        } else {
            Err(error.message)
        },
    }
}

/// A password that is no UTF-8 is shown in base64, and one that is, as its text.
pub proof fn passwords_are_shown(bytes: Seq<u8>)
    ensures
        valid_utf8(bytes) ==> shown_password(bytes).string() == Some(decode_utf8(bytes)),
        !valid_utf8(bytes) ==> shown_password(bytes).string() == Some(base64_of(bytes)),
{
}

/// Every attribute of an item is told under its name; of two with one name the later counts.
pub proof fn attributes_are_told(
    attributes: Seq<(Seq<char>, Seq<char>)>,
    next: (Seq<char>, Seq<char>),
    name: Seq<char>,
)
    ensures
        attributes_view(seq![]).field(name) is None,
        attributes_view(attributes.push(next)).string_field(next.0) == Some(next.1),
        name != next.0 ==> attributes_view(attributes.push(next)).field(name) == attributes_view(
            attributes,
        ).field(name),
{
    broadcast use {with_fields, no_fields};
    attributes_make_an_object(attributes);
    assert(attributes.push(next).drop_last() =~= attributes);
}

proof fn attributes_make_an_object(attributes: Seq<(Seq<char>, Seq<char>)>)
    ensures
        attributes_view(attributes) is Object,
    decreases attributes.len(),
{
    if attributes.len() > 0 {
        attributes_make_an_object(attributes.drop_last());
    }
}

/// Items are listed in turn, and one without attributes is left out.
pub proof fn items_go_in_turn(
    front: Seq<Option<Vec<(String, String)>>>,
    back: Seq<Option<Vec<(String, String)>>>,
    one: Vec<(String, String)>,
)
    ensures
        items_view(front + back) == items_view(front) + items_view(back),
        items_view(seq![None]).len() == 0,
        items_view(seq![Some(one)]) == seq![attributes_view(row_texts(one@))],
    decreases back.len(),
{
    reveal_with_fuel(items_view, 2);
    assert(seq![None::<Vec<(String, String)>>].drop_last() =~= seq![]);
    assert(seq![Some(one)].drop_last() =~= seq![]);
    if back.len() == 0 {
        assert(front + back =~= front);
    } else {
        items_go_in_turn(front, back.drop_last(), one);
        assert((front + back).drop_last() =~= front + back.drop_last());
    }
}

/// That nothing was found is no failure: there is nothing to list, nothing to get and nothing left
/// to delete. Every other refusal is told by its message.
pub proof fn nothing_found_is_no_failure(
    error: SecError,
    listed: Result<Vec<Json>, String>,
    got: Result<Option<Json>, String>,
    deleted: Result<(), String>,
    put: Result<(), String>,
)
    requires
        call_ensures(list, (Err(error),), listed),
        call_ensures(get, (Err(error),), got),
        call_ensures(delete, (Err(error),), deleted),
        call_ensures(set, (Err(error),), put),
    ensures
        error.code == -25300 ==> (listed matches Ok(items) && items@.len() == 0) && (got matches Ok(
            None,
        )) && deleted is Ok,
        error.code != -25300 ==> (listed matches Err(message) && message@ == error.message@) && (
        got matches Err(message) && message@ == error.message@) && (deleted matches Err(message)
            && message@ == error.message@),
        put matches Err(message) && message@ == error.message@,
{
}

/// A password that was found is given as it is shown.
pub proof fn found_passwords_are_given(bytes: Vec<u8>, got: Result<Option<Json>, String>)
    requires
        call_ensures(get, (Ok(bytes),), got),
    ensures
        got matches Ok(Some(json)) && (valid_utf8(bytes@) ==> json@.string() == Some(
            decode_utf8(bytes@),
        )) && (!valid_utf8(bytes@) ==> json@.string() == Some(base64_of(bytes@))),
{
}

} // verus!
