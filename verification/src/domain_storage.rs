//! The `DOMStorage` and `Storage` domains: user defaults as a debugger's local storage.
//!
//! There is one bucket. Reading and writing it is somebody else's work, so answering goes in
//! steps: `begin` either replies or says what to do with the store, and a `finish` function makes
//! the reply from what came of it.
use crate::dispatcher::{event_frame, failure, CdpReply, CdpRequest, EventSink, ReplyView};
use crate::domain_dom::MAIN_ORIGIN;
use crate::json::{entry_trees, no_entries, no_fields, trees, with_fields, Json, JsonView};
use crate::json_text::{
    canonical, depth, json_of_text, json_text, orderly, orderly_is_canonical, parse_json, plain,
    to_text,
};
use crate::text::{chars_of, joined, same_text, slice_text, texts};
use crate::user_defaults::{keepable, kept, reads, write_then_read, written};
use vstd::prelude::*;

verus! {

/// The address under which user defaults are stored.
pub const USERDEFAULTS_ORIGIN: &'static str = "userdefaults://standard";

/// The storage key of an origin.
pub fn storage_key(origin: &str) -> (key: String)
    ensures
        key@ == key_of(origin@),
{
    joined(origin, "/")
}

/// The storage key of an origin.
pub open spec fn key_of(origin: Seq<char>) -> Seq<char> {
    origin + "/"@
}

/// A text without one slash at its end.
pub open spec fn without_slash(text: Seq<char>) -> Seq<char> {
    if text.len() > 0 && text.last() == '/' {
        text.drop_last()
    } else {
        text
    }
}

/// Which bucket a storage id names: by its storage key, or else by its origin.
pub open spec fn bucket(id: JsonView) -> Seq<char> {
    match id.string_field("storageKey"@) {
        Some(key) => without_slash(key),
        None => match id.string_field("securityOrigin"@) {
            Some(origin) => without_slash(origin),
            None => without_slash(""@),
        },
    }
}

/// Whether a storage id names the bucket of user defaults.
pub open spec fn names_user_defaults(id: JsonView) -> bool {
    bucket(id) == USERDEFAULTS_ORIGIN@
}

/// Whether a storage id means local storage, which it does unless it says otherwise.
pub open spec fn means_local(id: JsonView) -> bool {
    id.truth_field("isLocalStorage"@) != Some(false)
}

/// The storage id of the bucket of user defaults.
pub open spec fn user_defaults_id() -> JsonView {
    no_entries().with("securityOrigin"@, JsonView::Text(USERDEFAULTS_ORIGIN@)).with(
        "storageKey"@,
        JsonView::Text(key_of(USERDEFAULTS_ORIGIN@)),
    ).with("isLocalStorage"@, JsonView::Bool(true))
}

/// How a value is shown: a text as it is, everything else as JSON.
pub open spec fn displayed(value: JsonView) -> Seq<char> {
    match value {
        JsonView::Text(text) => text,
        _ => json_text(canonical(value)),
    }
}

/// What a typed value is, from what it was read as: a text where it is no JSON.
pub open spec fn value_or_text(raw: Seq<char>, parsed: Option<JsonView>) -> JsonView {
    match parsed {
        Some(value) => value,
        None => JsonView::Text(raw),
    }
}

/// What a typed value is: JSON where it reads as JSON, else a text.
pub open spec fn typed(raw: Seq<char>) -> JsonView {
    value_or_text(raw, json_of_text(raw))
}

fn drop_slash(text: &str) -> (result: String)
    ensures
        result@ == without_slash(text@),
{
    let chars = chars_of(text);
    if chars.len() > 0 && chars[chars.len() - 1] == '/' {
        let result = slice_text(&chars, 0, chars.len() - 1);
        assert(result@ =~= text@.drop_last());
        result
    } else {
        text.to_owned()
    }
}

/// Whether a storage id names the bucket of user defaults.
pub fn is_userdefaults_bucket(storage_id: &Json) -> (yes: bool)
    ensures
        yes == names_user_defaults(storage_id@),
{
    let key = match storage_id.str_field("storageKey") {
        Some(key) => drop_slash(key),
        None => match storage_id.str_field("securityOrigin") {
            Some(origin) => drop_slash(origin),
            None => drop_slash(""),
        },
    };
    same_text(key.as_str(), USERDEFAULTS_ORIGIN)
}

/// Whether a storage id means local storage.
pub fn is_local_storage(storage_id: &Json) -> (yes: bool)
    ensures
        yes == means_local(storage_id@),
{
    match storage_id.bool_field("isLocalStorage") {
        Some(flag) => flag,
        None => true,
    }
}

/// The storage id of the bucket of user defaults.
pub fn storage_id_json() -> (id: Json)
    ensures
        id@ == user_defaults_id(),
{
    Json::empty().with("securityOrigin", Json::text(USERDEFAULTS_ORIGIN)).with(
        "storageKey",
        Json::Text(storage_key(USERDEFAULTS_ORIGIN)),
    ).with("isLocalStorage", Json::Bool(true))
}

/// How a value is shown: a text as it is, everything else as JSON.
///
/// What is shown, typed again, is the same value: for a value other than a text whose objects are
/// ordered, that is plain and nests no deeper than 127 containers, and for a text that does not
/// itself read as JSON.
pub fn display_value(value: &Json) -> (text: String)
    ensures
        text@ == displayed(value@),
        !(value@ is Text) && orderly(value@) && plain(value@) && depth(value@) <= 127 ==> typed(
            text@,
        ) == value@,
        value@ is Text && json_of_text(text@) is None ==> typed(text@) == value@,
{
    match value {
        Json::Text(text) => text.clone(),
        other => {
            proof {
                if orderly(value@) {
                    orderly_is_canonical(value@);
                }
            }
            to_text(other)
        },
    }
}

/// A value that may be missing.
pub open spec fn optional_tree(value: Option<Json>) -> Option<JsonView> {
    match value {
        Some(json) => Some(json@),
        None => None,
    }
}

/// What a typed value is, from what it was read as.
pub fn json_or_text(raw: &str, parsed: Option<Json>) -> (value: Json)
    ensures
        value@ == value_or_text(raw@, optional_tree(parsed)),
{
    match parsed {
        Some(value) => value,
        None => Json::text(raw),
    }
}

/// What a typed value is: JSON where it reads as JSON, else a text.
pub fn parse_value(raw: &str) -> (value: Json)
    ensures
        value@ == typed(raw@),
        orderly(value@),
{
    let parsed = parse_json(raw);
    assert(optional_tree(parsed) == json_of_text(raw@));
    json_or_text(raw, parsed)
}

/// What has to be done before a request can be answered.
#[derive(Debug)]
pub enum StorageStep {
    /// Nothing: this is the reply.
    Reply(CdpReply),
    /// List the store, then `finish_list`.
    List,
    /// Put a value under a key, then `finish_store`.
    Store { key: String, value: Json },
    /// Remove a key, then `finish_remove`.
    Remove { key: String },
    /// List the store and remove every key listed, then `finish_clear`.
    Clear,
}

/// What has to be done before a request can be answered.
#[verifier::ext_equal]
pub enum StorageStepView {
    Reply(ReplyView),
    List,
    Store { key: Seq<char>, value: JsonView },
    Remove { key: Seq<char> },
    Clear,
}

impl View for StorageStep {
    type V = StorageStepView;

    open spec fn view(&self) -> StorageStepView {
        match self {
            StorageStep::Reply(reply) => StorageStepView::Reply(reply@),
            StorageStep::List => StorageStepView::List,
            StorageStep::Store { key, value } => StorageStepView::Store {
                key: key@,
                value: value@,
            },
            StorageStep::Remove { key } => StorageStepView::Remove { key: key@ },
            StorageStep::Clear => StorageStepView::Clear,
        }
    }
}

/// Why a request about a bucket is refused, if it is: for want of a storage id, or because the
/// bucket is not known.
pub open spec fn refusal(method: Seq<char>, params: JsonView) -> Option<ReplyView> {
    match params.field("storageId"@) {
        None => Some(failure(method + " requires storageId"@)),
        Some(id) => if names_user_defaults(id) {
            None
        } else {
            Some(failure("unknown storage bucket"@))
        },
    }
}

/// The first step of listing the items of a bucket.
pub open spec fn list_step(params: JsonView) -> StorageStepView {
    match refusal("getDOMStorageItems"@, params) {
        Some(reply) => StorageStepView::Reply(reply),
        None => if means_local(params.field("storageId"@)->0) {
            StorageStepView::List
        } else {
            StorageStepView::Reply(
                ReplyView::Result(no_entries().with("entries"@, JsonView::Array(seq![]))),
            )
        },
    }
}

/// The first step of setting an item.
pub open spec fn store_step(params: JsonView) -> StorageStepView {
    match refusal("setDOMStorageItem"@, params) {
        Some(reply) => StorageStepView::Reply(reply),
        None => match (params.string_field("key"@), params.string_field("value"@)) {
            (None, _) => StorageStepView::Reply(failure("setDOMStorageItem requires key"@)),
            (Some(_), None) => StorageStepView::Reply(
                failure("setDOMStorageItem requires value"@),
            ),
            (Some(key), Some(raw)) => StorageStepView::Store { key, value: typed(raw) },
        },
    }
}

/// The first step of removing an item.
pub open spec fn remove_step(params: JsonView) -> StorageStepView {
    match refusal("removeDOMStorageItem"@, params) {
        Some(reply) => StorageStepView::Reply(reply),
        None => match params.string_field("key"@) {
            None => StorageStepView::Reply(failure("removeDOMStorageItem requires key"@)),
            Some(key) => StorageStepView::Remove { key },
        },
    }
}

/// The first step of clearing a bucket.
pub open spec fn clear_step(params: JsonView) -> StorageStepView {
    match refusal("clear"@, params) {
        Some(reply) => StorageStepView::Reply(reply),
        None => StorageStepView::Clear,
    }
}

/// The storage key of a frame: a frame that is not the one of user defaults is the document's.
pub open spec fn frame_key(params: JsonView) -> JsonView {
    no_entries().with(
        "storageKey"@,
        JsonView::Text(
            key_of(
                if params.string_field("frameId"@) == Some(USERDEFAULTS_ORIGIN@) {
                    USERDEFAULTS_ORIGIN@
                } else {
                    MAIN_ORIGIN@
                },
            ),
        ),
    )
}

/// The first step of answering a request.
pub open spec fn storage_step(method: Seq<char>, params: JsonView) -> StorageStepView {
    if method == "DOMStorage.enable"@ || method == "DOMStorage.disable"@ {
        StorageStepView::Reply(ReplyView::Result(no_entries()))
    } else if method == "DOMStorage.getDOMStorageItems"@ {
        list_step(params)
    } else if method == "DOMStorage.setDOMStorageItem"@ {
        store_step(params)
    } else if method == "DOMStorage.removeDOMStorageItem"@ {
        remove_step(params)
    } else if method == "DOMStorage.clear"@ {
        clear_step(params)
    } else if method == "Storage.getStorageKeyForFrame"@ || method == "Storage.getStorageKey"@ {
        StorageStepView::Reply(ReplyView::Result(frame_key(params)))
    } else if method == "Storage.setStorageBucketTracking"@ {
        StorageStepView::Reply(ReplyView::Result(no_entries()))
    } else if method == "Storage.clearDataForOrigin"@ || method
        == "Storage.clearDataForStorageKey"@ {
        StorageStepView::Reply(failure("not supported — clear the storage bucket instead"@))
    } else {
        StorageStepView::Reply(failure("Storage domain does not handle "@ + method))
    }
}

/// An entry as it is listed: its key, and how its value is shown.
pub open spec fn listed_entry(entry: (Seq<char>, JsonView)) -> JsonView {
    JsonView::Array(seq![JsonView::Text(entry.0), JsonView::Text(displayed(entry.1))])
}

/// The items of a bucket.
pub open spec fn listed_entries(entries: Seq<(Seq<char>, JsonView)>) -> JsonView {
    no_entries().with(
        "entries"@,
        JsonView::Array(Seq::new(entries.len(), |i: int| listed_entry(entries[i]))),
    )
}

/// What is announced when an item was set.
pub open spec fn added_event(key: Seq<char>, value: JsonView) -> JsonView {
    event_frame(
        "DOMStorage.domStorageItemAdded"@,
        no_entries().with("storageId"@, user_defaults_id()).with("key"@, JsonView::Text(key)).with(
            "newValue"@,
            JsonView::Text(displayed(value)),
        ),
    )
}

/// What is announced when an item was removed.
pub open spec fn removed_event(key: Seq<char>) -> JsonView {
    event_frame(
        "DOMStorage.domStorageItemRemoved"@,
        no_entries().with("storageId"@, user_defaults_id()).with("key"@, JsonView::Text(key)),
    )
}

/// What is announced when a bucket was cleared.
pub open spec fn cleared_event() -> JsonView {
    event_frame(
        "DOMStorage.domStorageItemsCleared"@,
        no_entries().with("storageId"@, user_defaults_id()),
    )
}

/// The methods that the domain answers.
pub open spec fn storage_methods() -> Seq<Seq<char>> {
    seq![
        "DOMStorage.enable"@,
        "DOMStorage.disable"@,
        "DOMStorage.getDOMStorageItems"@,
        "DOMStorage.setDOMStorageItem"@,
        "DOMStorage.removeDOMStorageItem"@,
        "DOMStorage.clear"@,
        "Storage.getStorageKeyForFrame"@,
        "Storage.getStorageKey"@,
        "Storage.setStorageBucketTracking"@,
        "Storage.clearDataForOrigin"@,
        "Storage.clearDataForStorageKey"@,
    ]
}

/// The domain of the one bucket.
#[derive(Debug)]
pub struct StorageDomain;

impl Default for StorageDomain {
    fn default() -> (domain: StorageDomain)
        ensures
            domain == StorageDomain,
    {
        StorageDomain
    }
}

fn refuse(method: &str, params: &Json) -> (reply: Option<CdpReply>)
    ensures
        reply is Some == refusal(method@, params@) is Some,
        reply matches Some(r) ==> r@ == refusal(method@, params@)->0,
{
    match params.get("storageId") {
        None => Some(CdpReply::error(joined(method, " requires storageId"))),
        Some(id) => if is_userdefaults_bucket(id) {
            None
        } else {
            Some(CdpReply::error("unknown storage bucket".to_owned()))
        },
    }
}

fn items_reply(items: Vec<Json>) -> (json: Json)
    ensures
        json@ == no_entries().with("entries"@, JsonView::Array(trees(items@))),
{
    Json::empty().with("entries", Json::array(items))
}

impl StorageDomain {
    /// The domain.
    pub fn new() -> (domain: StorageDomain)
        ensures
            domain == StorageDomain,
    {
        StorageDomain
    }

    /// The methods that the domain answers.
    pub fn methods(&self) -> (list: Vec<String>)
        ensures
            texts(list@) == storage_methods(),
    {
        let list = vec![
            "DOMStorage.enable".to_owned(),
            "DOMStorage.disable".to_owned(),
            "DOMStorage.getDOMStorageItems".to_owned(),
            "DOMStorage.setDOMStorageItem".to_owned(),
            "DOMStorage.removeDOMStorageItem".to_owned(),
            "DOMStorage.clear".to_owned(),
            "Storage.getStorageKeyForFrame".to_owned(),
            "Storage.getStorageKey".to_owned(),
            "Storage.setStorageBucketTracking".to_owned(),
            "Storage.clearDataForOrigin".to_owned(),
            "Storage.clearDataForStorageKey".to_owned(),
        ];
        assert(texts(list@) =~= storage_methods());
        list
    }

    /// The first step of listing the items of a bucket. There is no session storage: it is empty.
    pub fn get_dom_storage_items(params: &Json) -> (step: StorageStep)
        ensures
            step@ == list_step(params@),
    {
        if let Some(reply) = refuse("getDOMStorageItems", params) {
            return StorageStep::Reply(reply);
        }
        let local = match params.get("storageId") {
            Some(id) => is_local_storage(id),
            None => false,
        };
        if local {
            StorageStep::List
        } else {
            let items: Vec<Json> = Vec::new();
            assert(trees(items@) =~= seq![]);
            StorageStep::Reply(CdpReply::ok(items_reply(items)))
        }
    }

    /// The first step of setting an item.
    pub fn set_dom_storage_item(params: &Json) -> (step: StorageStep)
        ensures
            step@ == store_step(params@),
    {
        if let Some(reply) = refuse("setDOMStorageItem", params) {
            return StorageStep::Reply(reply);
        }
        let key = match params.str_field("key") {
            Some(key) => key.to_owned(),
            None => return StorageStep::Reply(
                CdpReply::error("setDOMStorageItem requires key".to_owned()),
            ),
        };
        match params.str_field("value") {
            Some(raw) => StorageStep::Store { key, value: parse_value(raw) },
            None => StorageStep::Reply(
                CdpReply::error("setDOMStorageItem requires value".to_owned()),
            ),
        }
    }

    /// The first step of removing an item.
    pub fn remove_dom_storage_item(params: &Json) -> (step: StorageStep)
        ensures
            step@ == remove_step(params@),
    {
        if let Some(reply) = refuse("removeDOMStorageItem", params) {
            return StorageStep::Reply(reply);
        }
        match params.str_field("key") {
            Some(key) => StorageStep::Remove { key: key.to_owned() },
            None => StorageStep::Reply(
                CdpReply::error("removeDOMStorageItem requires key".to_owned()),
            ),
        }
    }

    /// The first step of clearing a bucket.
    pub fn clear(params: &Json) -> (step: StorageStep)
        ensures
            step@ == clear_step(params@),
    {
        match refuse("clear", params) {
            Some(reply) => StorageStep::Reply(reply),
            None => StorageStep::Clear,
        }
    }

    /// Answers `Storage.getStorageKeyForFrame`.
    pub fn get_storage_key_for_frame(params: &Json) -> (reply: CdpReply)
        ensures
            reply@ == ReplyView::Result(frame_key(params@)),
    {
        let origin = match params.str_field("frameId") {
            Some(id) => if same_text(id, USERDEFAULTS_ORIGIN) {
                USERDEFAULTS_ORIGIN
            } else {
                MAIN_ORIGIN
            },
            None => MAIN_ORIGIN,
        };
        CdpReply::ok(Json::empty().with("storageKey", Json::Text(storage_key(origin))))
    }

    /// Answers `Storage.getStorageKey`, which is the same question.
    pub fn get_storage_key(params: &Json) -> (reply: CdpReply)
        ensures
            reply@ == ReplyView::Result(frame_key(params@)),
    {
        StorageDomain::get_storage_key_for_frame(params)
    }

    /// The first step of answering a request.
    pub fn begin(&self, request: &CdpRequest) -> (step: StorageStep)
        ensures
            step@ == storage_step(request.method@, request.params@),
    {
        let method = request.method.as_str();
        let params = &request.params;
        if same_text(method, "DOMStorage.enable") || same_text(method, "DOMStorage.disable") {
            StorageStep::Reply(CdpReply::empty())
        } else if same_text(method, "DOMStorage.getDOMStorageItems") {
            StorageDomain::get_dom_storage_items(params)
        } else if same_text(method, "DOMStorage.setDOMStorageItem") {
            StorageDomain::set_dom_storage_item(params)
        } else if same_text(method, "DOMStorage.removeDOMStorageItem") {
            StorageDomain::remove_dom_storage_item(params)
        } else if same_text(method, "DOMStorage.clear") {
            StorageDomain::clear(params)
        } else if same_text(method, "Storage.getStorageKeyForFrame") {
            StorageStep::Reply(StorageDomain::get_storage_key_for_frame(params))
        } else if same_text(method, "Storage.getStorageKey") {
            StorageStep::Reply(StorageDomain::get_storage_key(params))
        } else if same_text(method, "Storage.setStorageBucketTracking") {
            StorageStep::Reply(CdpReply::empty())
        } else if same_text(method, "Storage.clearDataForOrigin") || same_text(
            method,
            "Storage.clearDataForStorageKey",
        ) {
            StorageStep::Reply(
                CdpReply::error("not supported — clear the storage bucket instead".to_owned()),
            )
        } else {
            StorageStep::Reply(
                CdpReply::error(joined("Storage domain does not handle ", method)),
            )
        }
    }

    /// The reply from what the store lists.
    pub fn finish_list(entries: &Vec<(String, Json)>) -> (reply: CdpReply)
        ensures
            reply@ == ReplyView::Result(listed_entries(entry_trees(entries@))),
    {
        let ghost all = entry_trees(entries@);
        let ghost goal = Seq::new(all.len(), |i: int| listed_entry(all[i]));
        let mut items: Vec<Json> = Vec::new();
        let mut i: usize = 0;
        while i < entries.len()
            invariant
                i <= entries.len(),
                all == entry_trees(entries@),
                goal == Seq::new(all.len(), |i: int| listed_entry(all[i])),
                items@.len() == i,
                forall|j: int| 0 <= j < i ==> (#[trigger] items@[j])@ == goal[j],
            decreases entries.len() - i,
        {
            let pair = vec![
                Json::text(entries[i].0.as_str()),
                Json::Text(display_value(&entries[i].1)),
            ];
            assert(trees(pair@) =~= listed_entry(all[i as int])->Array_0);
            items.push(Json::array(pair));
            i = i + 1;
        }
        assert(trees(items@) =~= goal);
        CdpReply::ok(items_reply(items))
    }

    /// The reply from whether the store took a value. Where it did, that is announced.
    pub fn finish_store(
        key: &str,
        value: &Json,
        outcome: Result<(), String>,
        events: &mut EventSink,
    ) -> (reply: CdpReply)
        ensures
            outcome matches Err(message) ==> reply@ == failure(message@) && final(events)@ == old(
                events,
            )@,
            outcome is Ok ==> reply@ == ReplyView::Result(no_entries()) && final(events)@ == old(
                events,
            )@.push(added_event(key@, value@)),
    {
        match outcome {
            Err(message) => CdpReply::error(message),
            Ok(_) => {
                events.emit(
                    "DOMStorage.domStorageItemAdded",
                    Json::empty().with("storageId", storage_id_json()).with(
                        "key",
                        Json::text(key),
                    ).with("newValue", Json::Text(display_value(value))),
                );
                CdpReply::empty()
            },
        }
    }

    /// The reply after a key was removed, which is announced.
    pub fn finish_remove(key: &str, events: &mut EventSink) -> (reply: CdpReply)
        ensures
            reply@ == ReplyView::Result(no_entries()),
            final(events)@ == old(events)@.push(removed_event(key@)),
    {
        events.emit(
            "DOMStorage.domStorageItemRemoved",
            Json::empty().with("storageId", storage_id_json()).with("key", Json::text(key)),
        );
        CdpReply::empty()
    }

    /// The reply after the keys listed were removed, which is announced.
    pub fn finish_clear(events: &mut EventSink) -> (reply: CdpReply)
        ensures
            reply@ == ReplyView::Result(no_entries()),
            final(events)@ == old(events)@.push(cleared_event()),
    {
        events.emit(
            "DOMStorage.domStorageItemsCleared",
            Json::empty().with("storageId", storage_id_json()),
        );
        CdpReply::empty()
    }

    /// The keys that clearing removes: every one that the store lists.
    pub fn keys_to_clear(entries: &Vec<(String, Json)>) -> (keys: Vec<String>)
        ensures
            texts(keys@) == Seq::new(entries@.len(), |i: int| entries@[i].0@),
    {
        let mut keys: Vec<String> = Vec::new();
        let mut i: usize = 0;
        while i < entries.len()
            invariant
                i <= entries.len(),
                keys@.len() == i,
                forall|j: int| 0 <= j < i ==> (#[trigger] keys@[j])@ == entries@[j].0@,
            decreases entries.len() - i,
        {
            keys.push(entries[i].0.clone());
            i = i + 1;
        }
        assert(texts(keys@) =~= Seq::new(entries@.len(), |i: int| entries@[i].0@));
        keys
    }
}

/// An item that was set is listed with the value that was announced: an entry of the store with
/// its key and value is listed as the key and the announced text.
pub proof fn set_item_is_listed_as_announced(
    entries: Seq<(Seq<char>, JsonView)>,
    at: int,
    key: Seq<char>,
    value: JsonView,
)
    requires
        0 <= at < entries.len(),
        entries[at] == (key, value),
    ensures
        listed_entries(entries).field("entries"@) matches Some(JsonView::Array(items))
            && items.len() == entries.len() && items[at] == JsonView::Array(
            seq![JsonView::Text(key), JsonView::Text(displayed(value))],
        ),
{
    crate::json::with_then_field(
        no_entries(),
        "entries"@,
        JsonView::Array(Seq::new(entries.len(), |i: int| listed_entry(entries[i]))),
        "entries"@,
    );
}

/// A value that was typed, put into the store and listed again is shown as the same value; a text
/// that is no JSON is shown just as it was typed.
pub proof fn typed_value_is_listed_again(
    raw: Seq<char>,
    integer_in: spec_fn(serde_json::Number) -> Option<int>,
)
    requires
        keepable(typed(raw), integer_in),
    ensures
        written(typed(raw)) matches Some(object) && displayed(reads(kept(object, integer_in)))
            == displayed(typed(raw)),
        json_of_text(raw) is None ==> displayed(typed(raw)) == raw,
{
    write_then_read(typed(raw), integer_in);
}

/// The storage key of the bucket names the bucket, and so does its origin alone.
pub proof fn own_id_names_the_bucket()
    ensures
        names_user_defaults(user_defaults_id()),
        means_local(user_defaults_id()),
        without_slash(key_of(USERDEFAULTS_ORIGIN@)) == USERDEFAULTS_ORIGIN@,
{
    reveal_strlit("/");
    assert(key_of(USERDEFAULTS_ORIGIN@).drop_last() =~= USERDEFAULTS_ORIGIN@);
    reveal_strlit("securityOrigin");
    reveal_strlit("storageKey");
    reveal_strlit("isLocalStorage");
    assert("securityOrigin"@.len() == 14);
    assert("securityOrigin"@[0] == 's');
    assert("storageKey"@.len() == 10);
    assert("isLocalStorage"@.len() == 14);
    assert("isLocalStorage"@[0] == 'i');
    let a = no_entries();
    let origin = JsonView::Text(USERDEFAULTS_ORIGIN@);
    let b = a.with("securityOrigin"@, origin);
    let key = JsonView::Text(key_of(USERDEFAULTS_ORIGIN@));
    let c = b.with("storageKey"@, key);
    let yes = JsonView::Bool(true);
    crate::json::with_then_field(b, "storageKey"@, key, "storageKey"@);
    crate::json::with_then_field(c, "isLocalStorage"@, yes, "storageKey"@);
    crate::json::with_then_field(c, "isLocalStorage"@, yes, "isLocalStorage"@);
}

/// Whether an event of a name tells of the bucket of user defaults.
pub open spec fn announces(event: JsonView, name: Seq<char>) -> bool {
    &&& event.string_field("method"@) == Some(name)
    &&& event.field("params"@) matches Some(params)
    &&& params.field("storageId"@) matches Some(id)
    &&& names_user_defaults(id)
    &&& means_local(id)
    &&& id.string_field("securityOrigin"@) == Some("userdefaults://standard"@)
    &&& id.string_field("storageKey"@) == Some("userdefaults://standard"@ + seq!['/'])
}

/// Changes are announced by name, with the bucket, the key and the new value as it is shown; a text
/// is shown as it is.
pub proof fn changes_are_announced(key: Seq<char>, value: JsonView)
    ensures
        announces(added_event(key, value), "DOMStorage.domStorageItemAdded"@),
        added_event(key, value).field("params"@) matches Some(params) && params.string_field(
            "key"@,
        ) == Some(key) && (value matches JsonView::Text(text) ==> params.string_field("newValue"@)
            == Some(text)) && (!(value is Text) ==> params.string_field("newValue"@) == Some(
            json_text(canonical(value)),
        )),
        announces(removed_event(key), "DOMStorage.domStorageItemRemoved"@),
        removed_event(key).field("params"@) matches Some(params) && params.string_field("key"@)
            == Some(key),
        announces(cleared_event(), "DOMStorage.domStorageItemsCleared"@),
{
    broadcast use {with_fields, no_fields};
    storage_names();
    own_id_names_the_bucket();
    reveal_strlit("/");
    assert("/"@ =~= seq!['/']);
}

proof fn storage_names()
    ensures
        "method"@ != "params"@,
        "storageId"@ != "key"@,
        "storageId"@ != "newValue"@,
        "key"@ != "newValue"@,
        "securityOrigin"@ != "storageKey"@,
        "securityOrigin"@ != "isLocalStorage"@,
        "storageKey"@ != "isLocalStorage"@,
        "DOMStorage.enable"@ != "DOMStorage.disable"@,
        "DOMStorage.enable"@ != "DOMStorage.getDOMStorageItems"@,
        "DOMStorage.enable"@ != "DOMStorage.setDOMStorageItem"@,
        "DOMStorage.enable"@ != "DOMStorage.removeDOMStorageItem"@,
        "DOMStorage.enable"@ != "DOMStorage.clear"@,
        "DOMStorage.disable"@ != "DOMStorage.getDOMStorageItems"@,
        "DOMStorage.disable"@ != "DOMStorage.setDOMStorageItem"@,
        "DOMStorage.disable"@ != "DOMStorage.removeDOMStorageItem"@,
        "DOMStorage.disable"@ != "DOMStorage.clear"@,
        "DOMStorage.getDOMStorageItems"@ != "DOMStorage.setDOMStorageItem"@,
        "DOMStorage.getDOMStorageItems"@ != "DOMStorage.removeDOMStorageItem"@,
        "DOMStorage.getDOMStorageItems"@ != "DOMStorage.clear"@,
        "DOMStorage.setDOMStorageItem"@ != "DOMStorage.removeDOMStorageItem"@,
        "DOMStorage.setDOMStorageItem"@ != "DOMStorage.clear"@,
        "DOMStorage.removeDOMStorageItem"@ != "DOMStorage.clear"@,
{
    reveal_strlit("method");
    reveal_strlit("params");
    reveal_strlit("storageId");
    reveal_strlit("key");
    reveal_strlit("newValue");
    reveal_strlit("securityOrigin");
    reveal_strlit("storageKey");
    reveal_strlit("isLocalStorage");
    reveal_strlit("DOMStorage.enable");
    reveal_strlit("DOMStorage.disable");
    reveal_strlit("DOMStorage.getDOMStorageItems");
    reveal_strlit("DOMStorage.setDOMStorageItem");
    reveal_strlit("DOMStorage.removeDOMStorageItem");
    reveal_strlit("DOMStorage.clear");
    assert("method"@.len() == 6);
    assert("params"@.len() == 6);
    assert("storageId"@.len() == 9);
    assert("key"@.len() == 3);
    assert("newValue"@.len() == 8);
    assert("securityOrigin"@.len() == 14);
    assert("storageKey"@.len() == 10);
    assert("isLocalStorage"@.len() == 14);
    assert("DOMStorage.enable"@.len() == 17);
    assert("DOMStorage.disable"@.len() == 18);
    assert("DOMStorage.getDOMStorageItems"@.len() == 29);
    assert("DOMStorage.setDOMStorageItem"@.len() == 28);
    assert("DOMStorage.removeDOMStorageItem"@.len() == 31);
    assert("DOMStorage.clear"@.len() == 16);
    assert("method"@[0] == 'm');
    assert("params"@[0] == 'p');
    assert("securityOrigin"@[0] == 's');
    assert("isLocalStorage"@[0] == 'i');
}


/// A storage id names the bucket by its key, with or without a slash at its end, and where it has
/// no key by its origin.
pub proof fn buckets_are_named_by_key(id: JsonView, name: Seq<char>)
    requires
        id.string_field("storageKey"@) == Some(name) || id.string_field("storageKey"@) is None
            && id.string_field("securityOrigin"@) == Some(name),
    ensures
        names_user_defaults(id) <==> name == "userdefaults://standard"@ || name
            == "userdefaults://standard"@ + seq!['/'],
{
    let origin = "userdefaults://standard"@;
    reveal_strlit("userdefaults://standard");
    assert(origin.last() == 'd');
    if name.len() > 0 && name.last() == '/' {
        assert(name =~= name.drop_last() + seq!['/']);
        if name == origin + seq!['/'] {
            assert(name.drop_last() =~= origin);
        }
    } else if name == origin + seq!['/'] {
        assert(name.last() == '/');
    }
}

/// Storage is local unless its id says that it is not.
pub proof fn storage_is_local_unless_denied(id: JsonView)
    ensures
        id.field("isLocalStorage"@) is None ==> means_local(id),
        id.field("isLocalStorage"@) matches Some(JsonView::Bool(local)) ==> means_local(id)
            == local,
{
}

/// A frame has the storage key of user defaults exactly where it is their frame, and else that of
/// the document.
pub proof fn frames_have_storage_keys(params: JsonView)
    ensures
        params.string_field("frameId"@) == Some("userdefaults://standard"@) ==> frame_key(
            params,
        ).string_field("storageKey"@) == Some("userdefaults://standard"@ + seq!['/']),
        params.string_field("frameId"@) != Some("userdefaults://standard"@) ==> frame_key(
            params,
        ).string_field("storageKey"@) == Some("remo://native"@ + seq!['/']),
{
    broadcast use {with_fields, no_fields};
    reveal_strlit("/");
    assert("/"@ =~= seq!['/']);
}

/// Where the id of a request names the bucket, the request is carried out: items are listed where
/// local storage is meant and there are none where it is not, an item is set or removed where the
/// request has what that takes, and everything is cleared.
pub proof fn known_buckets_are_served(params: JsonView, id: JsonView)
    requires
        params.field("storageId"@) == Some(id),
        names_user_defaults(id),
    ensures
        means_local(id) <==> storage_step("DOMStorage.getDOMStorageItems"@, params) is List,
        !means_local(id) ==> (storage_step(
            "DOMStorage.getDOMStorageItems"@,
            params,
        ) matches StorageStepView::Reply(ReplyView::Result(value)) && value.field("entries"@)
            == Some(JsonView::Array(seq![]))),
        storage_step("DOMStorage.setDOMStorageItem"@, params) is Store <==> (params.field(
            "key"@,
        ) matches Some(JsonView::Text(_)) && params.field("value"@) matches Some(
            JsonView::Text(_),
        )),
        storage_step("DOMStorage.setDOMStorageItem"@, params) matches StorageStepView::Store {
            key,
            value,
        } ==> params.string_field("key"@) == Some(key) && (params.string_field(
            "value"@,
        ) matches Some(raw) && (json_of_text(raw) matches Some(read) ==> value == read) && (
        json_of_text(raw) is None ==> value == JsonView::Text(raw))),
        storage_step("DOMStorage.removeDOMStorageItem"@, params) is Remove <==> params.field(
            "key"@,
        ) matches Some(JsonView::Text(_)),
        storage_step("DOMStorage.removeDOMStorageItem"@, params) matches StorageStepView::Remove {
            key,
        } ==> params.string_field("key"@) == Some(key),
        storage_step("DOMStorage.clear"@, params) is Clear,
{
    broadcast use {with_fields, no_fields};
    storage_names();
}

/// Where a request names no bucket, or one that is not known, nothing is touched and it is refused.
pub proof fn unknown_buckets_are_refused(params: JsonView)
    requires
        params.field("storageId"@) matches Some(id) ==> !names_user_defaults(id),
    ensures
        storage_step("DOMStorage.getDOMStorageItems"@, params) matches StorageStepView::Reply(reply)
            && reply is Error,
        storage_step("DOMStorage.setDOMStorageItem"@, params) matches StorageStepView::Reply(reply)
            && reply is Error,
        storage_step("DOMStorage.removeDOMStorageItem"@, params) matches StorageStepView::Reply(
            reply,
        ) && reply is Error,
        storage_step("DOMStorage.clear"@, params) matches StorageStepView::Reply(reply)
            && reply is Error,
{
    storage_names();
}

/// A method that the domain does not list is refused by name.
pub proof fn other_methods_are_refused(method: Seq<char>, params: JsonView)
    requires
        !storage_methods().contains(method),
    ensures
        storage_step(method, params) matches StorageStepView::Reply(
            ReplyView::Error { code, message },
        ) && message == "Storage domain does not handle "@ + method,
{
    let all = storage_methods();
    assert(all[0] != method && all[1] != method && all[2] != method && all[3] != method && all[4]
        != method && all[5] != method && all[6] != method && all[7] != method && all[8] != method
        && all[9] != method && all[10] != method);
}

/// What needs no answer but an acknowledgement gets the empty result, both questions for a storage
/// key get the same answer, and clearing a whole origin is refused.
pub proof fn other_requests_are_acknowledged(params: JsonView)
    ensures
        storage_step("DOMStorage.enable"@, params) == StorageStepView::Reply(
            ReplyView::Result(JsonView::Object(seq![])),
        ),
        storage_step("DOMStorage.disable"@, params) == StorageStepView::Reply(
            ReplyView::Result(JsonView::Object(seq![])),
        ),
        storage_step("Storage.setStorageBucketTracking"@, params) == StorageStepView::Reply(
            ReplyView::Result(JsonView::Object(seq![])),
        ),
        storage_step("Storage.getStorageKey"@, params) == storage_step(
            "Storage.getStorageKeyForFrame"@,
            params,
        ),
        storage_step("Storage.getStorageKey"@, params) == StorageStepView::Reply(
            ReplyView::Result(frame_key(params)),
        ),
        storage_step("Storage.clearDataForOrigin"@, params) matches StorageStepView::Reply(reply)
            && reply is Error,
        storage_step("Storage.clearDataForStorageKey"@, params) matches StorageStepView::Reply(
            reply,
        ) && reply is Error,
{
    storage_methods_differ();
}

/// A refusal says what is missing: the storage id before all else, then the key, then the value.
pub proof fn refusals_say_what_is_missing(params: JsonView)
    ensures
        params.field("storageId"@) is None ==> {
            &&& list_step(params) matches StorageStepView::Reply(ReplyView::Error { code, message })
                && message == "getDOMStorageItems requires storageId"@
            &&& store_step(params) matches StorageStepView::Reply(
                ReplyView::Error { code, message },
            ) && message == "setDOMStorageItem requires storageId"@
            &&& remove_step(params) matches StorageStepView::Reply(
                ReplyView::Error { code, message },
            ) && message == "removeDOMStorageItem requires storageId"@
            &&& clear_step(params) matches StorageStepView::Reply(
                ReplyView::Error { code, message },
            ) && message == "clear requires storageId"@
        },
        params.field("storageId"@) matches Some(id) ==> {
            &&& !names_user_defaults(id) ==> (store_step(params) matches StorageStepView::Reply(
                ReplyView::Error { code, message },
            ) && message == "unknown storage bucket"@)
            &&& names_user_defaults(id) && params.field("key"@) is None ==> (store_step(
                params,
            ) matches StorageStepView::Reply(ReplyView::Error { code, message }) && message
                == "setDOMStorageItem requires key"@) && (remove_step(
                params,
            ) matches StorageStepView::Reply(ReplyView::Error { code, message }) && message
                == "removeDOMStorageItem requires key"@)
            &&& names_user_defaults(id) && params.string_field("key"@) is Some && params.field(
                "value"@,
            ) is None ==> (store_step(params) matches StorageStepView::Reply(
                ReplyView::Error { code, message },
            ) && message == "setDOMStorageItem requires value"@)
        },
{
    reveal_strlit(" requires storageId");
    reveal_strlit("getDOMStorageItems");
    reveal_strlit("setDOMStorageItem");
    reveal_strlit("removeDOMStorageItem");
    reveal_strlit("clear");
    reveal_strlit("getDOMStorageItems requires storageId");
    reveal_strlit("setDOMStorageItem requires storageId");
    reveal_strlit("removeDOMStorageItem requires storageId");
    reveal_strlit("clear requires storageId");
    assert("getDOMStorageItems"@ + " requires storageId"@
        =~= "getDOMStorageItems requires storageId"@);
    assert("setDOMStorageItem"@ + " requires storageId"@
        =~= "setDOMStorageItem requires storageId"@);
    assert("removeDOMStorageItem"@ + " requires storageId"@
        =~= "removeDOMStorageItem requires storageId"@);
    assert("clear"@ + " requires storageId"@ =~= "clear requires storageId"@);
}

proof fn storage_methods_differ()
    ensures
        "DOMStorage.enable"@ != "DOMStorage.disable"@,
        "DOMStorage.enable"@ != "DOMStorage.getDOMStorageItems"@,
        "DOMStorage.enable"@ != "DOMStorage.setDOMStorageItem"@,
        "DOMStorage.enable"@ != "DOMStorage.removeDOMStorageItem"@,
        "DOMStorage.enable"@ != "DOMStorage.clear"@,
        "DOMStorage.enable"@ != "Storage.getStorageKeyForFrame"@,
        "DOMStorage.enable"@ != "Storage.getStorageKey"@,
        "DOMStorage.enable"@ != "Storage.setStorageBucketTracking"@,
        "DOMStorage.enable"@ != "Storage.clearDataForOrigin"@,
        "DOMStorage.enable"@ != "Storage.clearDataForStorageKey"@,
        "DOMStorage.disable"@ != "DOMStorage.getDOMStorageItems"@,
        "DOMStorage.disable"@ != "DOMStorage.setDOMStorageItem"@,
        "DOMStorage.disable"@ != "DOMStorage.removeDOMStorageItem"@,
        "DOMStorage.disable"@ != "DOMStorage.clear"@,
        "DOMStorage.disable"@ != "Storage.getStorageKeyForFrame"@,
        "DOMStorage.disable"@ != "Storage.getStorageKey"@,
        "DOMStorage.disable"@ != "Storage.setStorageBucketTracking"@,
        "DOMStorage.disable"@ != "Storage.clearDataForOrigin"@,
        "DOMStorage.disable"@ != "Storage.clearDataForStorageKey"@,
        "DOMStorage.getDOMStorageItems"@ != "DOMStorage.setDOMStorageItem"@,
        "DOMStorage.getDOMStorageItems"@ != "DOMStorage.removeDOMStorageItem"@,
        "DOMStorage.getDOMStorageItems"@ != "DOMStorage.clear"@,
        "DOMStorage.getDOMStorageItems"@ != "Storage.getStorageKeyForFrame"@,
        "DOMStorage.getDOMStorageItems"@ != "Storage.getStorageKey"@,
        "DOMStorage.getDOMStorageItems"@ != "Storage.setStorageBucketTracking"@,
        "DOMStorage.getDOMStorageItems"@ != "Storage.clearDataForOrigin"@,
        "DOMStorage.getDOMStorageItems"@ != "Storage.clearDataForStorageKey"@,
        "DOMStorage.setDOMStorageItem"@ != "DOMStorage.removeDOMStorageItem"@,
        "DOMStorage.setDOMStorageItem"@ != "DOMStorage.clear"@,
        "DOMStorage.setDOMStorageItem"@ != "Storage.getStorageKeyForFrame"@,
        "DOMStorage.setDOMStorageItem"@ != "Storage.getStorageKey"@,
        "DOMStorage.setDOMStorageItem"@ != "Storage.setStorageBucketTracking"@,
        "DOMStorage.setDOMStorageItem"@ != "Storage.clearDataForOrigin"@,
        "DOMStorage.setDOMStorageItem"@ != "Storage.clearDataForStorageKey"@,
        "DOMStorage.removeDOMStorageItem"@ != "DOMStorage.clear"@,
        "DOMStorage.removeDOMStorageItem"@ != "Storage.getStorageKeyForFrame"@,
        "DOMStorage.removeDOMStorageItem"@ != "Storage.getStorageKey"@,
        "DOMStorage.removeDOMStorageItem"@ != "Storage.setStorageBucketTracking"@,
        "DOMStorage.removeDOMStorageItem"@ != "Storage.clearDataForOrigin"@,
        "DOMStorage.removeDOMStorageItem"@ != "Storage.clearDataForStorageKey"@,
        "DOMStorage.clear"@ != "Storage.getStorageKeyForFrame"@,
        "DOMStorage.clear"@ != "Storage.getStorageKey"@,
        "DOMStorage.clear"@ != "Storage.setStorageBucketTracking"@,
        "DOMStorage.clear"@ != "Storage.clearDataForOrigin"@,
        "DOMStorage.clear"@ != "Storage.clearDataForStorageKey"@,
        "Storage.getStorageKeyForFrame"@ != "Storage.getStorageKey"@,
        "Storage.getStorageKeyForFrame"@ != "Storage.setStorageBucketTracking"@,
        "Storage.getStorageKeyForFrame"@ != "Storage.clearDataForOrigin"@,
        "Storage.getStorageKeyForFrame"@ != "Storage.clearDataForStorageKey"@,
        "Storage.getStorageKey"@ != "Storage.setStorageBucketTracking"@,
        "Storage.getStorageKey"@ != "Storage.clearDataForOrigin"@,
        "Storage.getStorageKey"@ != "Storage.clearDataForStorageKey"@,
        "Storage.setStorageBucketTracking"@ != "Storage.clearDataForOrigin"@,
        "Storage.setStorageBucketTracking"@ != "Storage.clearDataForStorageKey"@,
        "Storage.clearDataForOrigin"@ != "Storage.clearDataForStorageKey"@,
{
    reveal_strlit("DOMStorage.enable");
    reveal_strlit("DOMStorage.disable");
    reveal_strlit("DOMStorage.getDOMStorageItems");
    reveal_strlit("DOMStorage.setDOMStorageItem");
    reveal_strlit("DOMStorage.removeDOMStorageItem");
    reveal_strlit("DOMStorage.clear");
    reveal_strlit("Storage.getStorageKeyForFrame");
    reveal_strlit("Storage.getStorageKey");
    reveal_strlit("Storage.setStorageBucketTracking");
    reveal_strlit("Storage.clearDataForOrigin");
    reveal_strlit("Storage.clearDataForStorageKey");
    assert("DOMStorage.enable"@.len() == 17);
    assert("DOMStorage.disable"@.len() == 18);
    assert("DOMStorage.getDOMStorageItems"@.len() == 29);
    assert("DOMStorage.setDOMStorageItem"@.len() == 28);
    assert("DOMStorage.removeDOMStorageItem"@.len() == 31);
    assert("DOMStorage.clear"@.len() == 16);
    assert("Storage.getStorageKeyForFrame"@.len() == 29);
    assert("Storage.getStorageKey"@.len() == 21);
    assert("Storage.setStorageBucketTracking"@.len() == 32);
    assert("Storage.clearDataForOrigin"@.len() == 26);
    assert("Storage.clearDataForStorageKey"@.len() == 30);
    assert("DOMStorage.getDOMStorageItems"@[0] == 'D');
    assert("Storage.getStorageKeyForFrame"@[0] == 'S');
}

/// Clearing takes the key of every entry that the store lists, in order.
pub proof fn clearing_takes_every_key(entries: &Vec<(String, Json)>, keys: Vec<String>)
    requires
        call_ensures(StorageDomain::keys_to_clear, (entries,), keys),
    ensures
        keys@.len() == entries@.len(),
        forall|i: int| 0 <= i < keys@.len() ==> (#[trigger] keys@[i])@ == entries@[i].0@,
{
    assert(texts(keys@).len() == keys@.len());
    assert forall|i: int| 0 <= i < keys@.len() implies (#[trigger] keys@[i])@ == entries@[i].0@ by {
        assert(texts(keys@)[i] == keys@[i]@);
    }
}

} // verus!
