//! JSON as text: reading and printing through the `serde_json` crate.
use crate::json::{array_tree, entry_trees, number_view, object_tree, trees, Json, JsonView, NumberView};
use crate::order::{
    in_order, last_given, put, put_keeps_order, table_of, table_of_entries, table_of_ordered,
    text_before,
};
use vstd::prelude::*;

verus! {

/// A JSON value of the `serde_json` crate.
#[verifier::external_type_specification]
#[verifier::external_body]
pub struct ExValue(serde_json::Value);

/// An error of the `serde_json` crate.
#[verifier::external_type_specification]
#[verifier::external_body]
pub struct ExError(serde_json::Error);

/// What a `serde_json::Value` holds.
pub uninterp spec fn value_tree(value: serde_json::Value) -> JsonView;

/// What `serde_json::from_str` reads a text as, where it reads it.
pub uninterp spec fn json_of_text(text: Seq<char>) -> Option<JsonView>;

/// What `serde_json::from_str` says of a text that it does not read.
pub uninterp spec fn fault_of_text(text: Seq<char>) -> Seq<char>;

/// How `serde_json::Value`'s `Display` prints a value.
pub uninterp spec fn json_text(value: JsonView) -> Seq<char>;

/// How `serde_json::to_string_pretty` prints a value.
pub uninterp spec fn pretty_text(value: JsonView) -> Seq<char>;

/// One level of a `serde_json::Value`.
pub enum Level {
    Null,
    Bool(bool),
    Number(serde_json::Number),
    Text(String),
    Array(Vec<serde_json::Value>),
    Object(Vec<(String, serde_json::Value)>),
}

/// What the values of a sequence hold.
pub open spec fn value_trees(items: Seq<serde_json::Value>) -> Seq<JsonView> {
    Seq::new(items.len(), |i: int| value_tree(items[i]))
}

/// The keys of a sequence of entries, with what their values hold.
pub open spec fn value_entries(entries: Seq<(String, serde_json::Value)>) -> Seq<
    (Seq<char>, JsonView),
> {
    Seq::new(entries.len(), |i: int| (entries[i].0@, value_tree(entries[i].1)))
}

/// The value of one level over the values below it.
pub open spec fn level_tree(level: Level) -> JsonView {
    match level {
        Level::Null => JsonView::Null,
        Level::Bool(b) => JsonView::Bool(b),
        Level::Number(n) => JsonView::Number(number_view(n)),
        Level::Text(text) => JsonView::Text(text@),
        Level::Array(items) => JsonView::Array(value_trees(items@)),
        Level::Object(entries) => JsonView::Object(value_entries(entries@)),
    }
}

/// The value of one level, the entries of an object as a table.
pub open spec fn level_table(level: Level) -> JsonView {
    match level {
        Level::Object(entries) => JsonView::Object(table_of(value_entries(entries@))),
        _ => level_tree(level),
    }
}

/// Tells the variants of `serde_json::Value` apart. An object of it is a `BTreeMap` of keys to
/// values, as the crate's `preserve_order` feature is off, and is walked in the order of its keys.
#[verifier::external_body]
fn take_apart(value: serde_json::Value) -> (level: Level)
    ensures
        level_tree(level) == value_tree(value),
        level matches Level::Object(entries) ==> in_order(value_entries(entries@)),
{
    match value {
        serde_json::Value::Null => Level::Null,
        serde_json::Value::Bool(b) => Level::Bool(b),
        serde_json::Value::Number(n) => Level::Number(n),
        serde_json::Value::String(text) => Level::Text(text),
        serde_json::Value::Array(items) => Level::Array(items),
        serde_json::Value::Object(map) => Level::Object(map.into_iter().collect()),
    }
}

/// Makes the `serde_json::Value` of one level. Entries are put into an object, which is a
/// `BTreeMap` of keys to values, one after the other.
#[verifier::external_body]
fn put_together(level: Level) -> (value: serde_json::Value)
    ensures
        value_tree(value) == level_table(level),
{
    match level {
        Level::Null => serde_json::Value::Null,
        Level::Bool(b) => serde_json::Value::Bool(b),
        Level::Number(n) => serde_json::Value::Number(n),
        Level::Text(text) => serde_json::Value::String(text),
        Level::Array(items) => serde_json::Value::Array(items),
        Level::Object(entries) => serde_json::Value::Object(entries.into_iter().collect()),
    }
}

/// `serde_json::from_str` reads a text as a value, or refuses it with an error.
#[verifier::external_body]
fn read_value(text: &str) -> (outcome: Result<serde_json::Value, serde_json::Error>)
    ensures
        outcome is Ok == json_of_text(text@) is Some,
        outcome matches Ok(value) ==> value_tree(value) == json_of_text(text@)->0,
        outcome matches Err(error) ==> error_text(error) == fault_of_text(text@),
{
    serde_json::from_str(text)
}

/// The value that bytes begin with, as `serde_json::Deserializer::from_slice` reads it without its
/// limit on nesting.
pub uninterp spec fn json_of_bytes(bytes: Seq<u8>) -> Option<JsonView>;

/// `serde_json::Deserializer::from_slice` reads the value that bytes begin with.
/// `disable_recursion_limit` lifts its limit on nesting, and `serde_stacker::Deserializer` grows
/// the stack with the nesting.
#[verifier::external_body]
fn read_deep_value(bytes: &[u8]) -> (outcome: Result<serde_json::Value, serde_json::Error>)
    ensures
        outcome is Ok == json_of_bytes(bytes@) is Some,
        outcome matches Ok(value) ==> value_tree(value) == json_of_bytes(bytes@)->0,
{
    let mut deserializer = serde_json::Deserializer::from_slice(bytes);
    deserializer.disable_recursion_limit();
    let deserializer = serde_stacker::Deserializer::new(&mut deserializer);
    serde::Deserialize::deserialize(deserializer)
}

/// How a `serde_json::Error` is printed by its `Display`.
pub uninterp spec fn error_text(error: serde_json::Error) -> Seq<char>;

/// `serde_json::Error`'s `Display` prints the error.
#[verifier::external_body]
fn print_error(error: &serde_json::Error) -> (text: String)
    ensures
        text@ == error_text(*error),
{
    error.to_string()
}

/// `serde_json::Value`'s `Display` prints the value as JSON in one line. What it prints is read
/// back as the same value, where no number is a fraction, no object begins with the key that the
/// crate keeps for itself, and no more than 127 containers are nested.
#[verifier::external_body]
fn print_value(value: &serde_json::Value) -> (text: String)
    ensures
        text@ == json_text(value_tree(*value)),
        plain(value_tree(*value)) && depth(value_tree(*value)) <= 127 ==> json_of_text(text@)
            == Some(value_tree(*value)),
{
    value.to_string()
}

/// `serde_json::to_string_pretty` prints the value as JSON over several lines. It does not fail
/// on a `serde_json::Value`.
#[verifier::external_body]
fn print_value_pretty(value: &serde_json::Value) -> (text: String)
    ensures
        text@ == pretty_text(value_tree(*value)),
{
    serde_json::to_string_pretty(value).unwrap_or_default()
}

/// The key that `serde_json` keeps for itself: with its `raw_value` feature on, it reads an object
/// that begins with this key as the JSON in the text under it.
pub const RAW_VALUE_KEY: &'static str = "$serde_json::private::RawValue";

/// Whether no number in a value is a fraction, and no object in it begins with the key that
/// `serde_json` keeps for itself.
pub open spec fn plain(value: JsonView) -> bool
    decreases value,
{
    match value {
        JsonView::Number(NumberView::Fraction(_)) => false,
        JsonView::Array(items) => forall|i: int| 0 <= i < items.len() ==> plain(#[trigger] items[i]),
        JsonView::Object(entries) => {
            &&& entries.len() > 0 ==> entries[0].0 != RAW_VALUE_KEY@
            &&& forall|i: int| 0 <= i < entries.len() ==> plain((#[trigger] entries[i]).1)
        },
        _ => true,
    }
}

/// How many containers a value nests at most.
pub open spec fn depth(value: JsonView) -> int
    decreases value,
{
    match value {
        JsonView::Array(items) => 1 + deepest(item_depths(items)),
        JsonView::Object(entries) => 1 + deepest(entry_depths(entries)),
        _ => 0,
    }
}

/// How many containers each item nests at most.
pub open spec fn item_depths(items: Seq<JsonView>) -> Seq<int>
    decreases items,
{
    Seq::new(
        items.len(),
        |i: int|
            if 0 <= i < items.len() {
                depth(items[i])
            } else {
                0
            },
    )
}

/// How many containers the value of each entry nests at most.
pub open spec fn entry_depths(entries: Seq<(Seq<char>, JsonView)>) -> Seq<int>
    decreases entries,
{
    Seq::new(
        entries.len(),
        |i: int|
            if 0 <= i < entries.len() {
                depth(entries[i].1)
            } else {
                0
            },
    )
}

/// The greatest of a sequence of numbers, and at least zero.
pub open spec fn deepest(depths: Seq<int>) -> int
    decreases depths.len(),
{
    if depths.len() == 0 {
        0
    } else if depths.last() > deepest(depths.drop_last()) {
        depths.last()
    } else {
        deepest(depths.drop_last())
    }
}

/// The value with the entries of each object as a table: in the order of their keys, and for each
/// key the entry that was given last.
pub open spec fn canonical(value: JsonView) -> JsonView
    decreases value,
{
    match value {
        JsonView::Array(items) => JsonView::Array(
            Seq::new(
                items.len(),
                |i: int|
                    if 0 <= i < items.len() {
                        canonical(items[i])
                    } else {
                        JsonView::Null
                    },
            ),
        ),
        JsonView::Object(entries) => JsonView::Object(table_of(canonical_entries(entries))),
        _ => value,
    }
}

/// The entries with each value made canonical.
pub open spec fn canonical_entries(entries: Seq<(Seq<char>, JsonView)>) -> Seq<
    (Seq<char>, JsonView),
>
    decreases entries,
{
    Seq::new(
        entries.len(),
        |i: int|
            if 0 <= i < entries.len() {
                (entries[i].0, canonical(entries[i].1))
            } else {
                (seq![], JsonView::Null)
            },
    )
}

/// Whether the keys of every object in a value ascend.
pub open spec fn orderly(value: JsonView) -> bool
    decreases value,
{
    match value {
        JsonView::Array(items) => forall|i: int|
            0 <= i < items.len() ==> orderly(#[trigger] items[i]),
        JsonView::Object(entries) => in_order(entries) && forall|i: int|
            0 <= i < entries.len() ==> orderly((#[trigger] entries[i]).1),
        _ => true,
    }
}

/// Takes a `serde_json::Value` apart into a JSON value.
fn json_of_value(value: serde_json::Value) -> (json: Json)
    ensures
        json@ == value_tree(value),
        orderly(json@),
    decreases value_tree(value),
{
    broadcast use {array_tree, object_tree};
    let ghost tree = value_tree(value);
    match take_apart(value) {
        Level::Null => Json::Null,
        Level::Bool(b) => Json::Bool(b),
        Level::Number(n) => Json::Number(n),
        Level::Text(text) => Json::Text(text),
        Level::Array(items) => {
            let ghost all = value_trees(items@);
            let mut rest = items;
            let mut reversed: Vec<Json> = Vec::new();
            while rest.len() > 0
                invariant
                    tree == JsonView::Array(all),
                    tree == value_tree(value),
                    rest@.len() + reversed@.len() == all.len(),
                    value_trees(rest@) == all.take(rest@.len() as int),
                    forall|i: int|
                        0 <= i < reversed@.len() ==> (#[trigger] reversed@[i])@ == all[all.len() - 1
                            - i] && orderly(reversed@[i]@),
                decreases rest.len(),
            {
                let ghost before = rest@;
                let ghost at = rest@.len() - 1;
                let item = rest.pop().unwrap();
                assert(value_tree(item) == value_trees(before)[at]);
                assert(value_tree(item) == all[at]);
                assert(decreases_to!(tree => tree->Array_0));
                assert(decreases_to!(all => all[at]));
                reversed.push(json_of_value(item));
                assert(value_trees(rest@) =~= all.take(at));
            }
            let mut list: Vec<Json> = Vec::new();
            while reversed.len() > 0
                invariant
                    reversed@.len() + list@.len() == all.len(),
                    forall|i: int|
                        0 <= i < reversed@.len() ==> (#[trigger] reversed@[i])@ == all[all.len() - 1
                            - i] && orderly(reversed@[i]@),
                    forall|i: int|
                        0 <= i < list@.len() ==> (#[trigger] list@[i])@ == all[i] && orderly(
                            list@[i]@,
                        ),
                decreases reversed.len(),
            {
                let ghost at = reversed@.len() - 1;
                let item = reversed.pop().unwrap();
                list.push(item);
            }
            assert(trees(list@) =~= all);
            Json::Array(list)
        },
        Level::Object(entries) => {
            let ghost all = value_entries(entries@);
            let mut rest = entries;
            let mut reversed: Vec<(String, Json)> = Vec::new();
            while rest.len() > 0
                invariant
                    tree == JsonView::Object(all),
                    tree == value_tree(value),
                    rest@.len() + reversed@.len() == all.len(),
                    value_entries(rest@) == all.take(rest@.len() as int),
                    forall|i: int|
                        0 <= i < reversed@.len() ==> (#[trigger] reversed@[i]).0@ == all[all.len()
                            - 1 - i].0 && reversed@[i].1@ == all[all.len() - 1 - i].1 && orderly(
                            reversed@[i].1@,
                        ),
                decreases rest.len(),
            {
                let ghost before = rest@;
                let ghost at = rest@.len() - 1;
                let (key, item) = rest.pop().unwrap();
                assert((key@, value_tree(item)) == value_entries(before)[at]);
                assert((key@, value_tree(item)) == all[at]);
                assert(decreases_to!(tree => tree->Object_0));
                assert(decreases_to!(all => all[at]));
                assert(decreases_to!(all[at] => all[at].1));
                reversed.push((key, json_of_value(item)));
                assert(value_entries(rest@) =~= all.take(at));
            }
            let mut list: Vec<(String, Json)> = Vec::new();
            while reversed.len() > 0
                invariant
                    reversed@.len() + list@.len() == all.len(),
                    forall|i: int|
                        0 <= i < reversed@.len() ==> (#[trigger] reversed@[i]).0@ == all[all.len()
                            - 1 - i].0 && reversed@[i].1@ == all[all.len() - 1 - i].1 && orderly(
                            reversed@[i].1@,
                        ),
                    forall|i: int|
                        0 <= i < list@.len() ==> (#[trigger] list@[i]).0@ == all[i].0
                            && list@[i].1@ == all[i].1 && orderly(list@[i].1@),
                decreases reversed.len(),
            {
                let item = reversed.pop().unwrap();
                list.push(item);
            }
            assert(entry_trees(list@) =~= all);
            Json::Object(list)
        },
    }
}

/// Builds the `serde_json::Value` of a JSON value.
fn value_of_json(json: &Json) -> (value: serde_json::Value)
    ensures
        value_tree(value) == canonical(json@),
    decreases json,
{
    broadcast use {array_tree, object_tree};
    match json {
        Json::Null => put_together(Level::Null),
        Json::Bool(b) => put_together(Level::Bool(*b)),
        Json::Number(n) => put_together(Level::Number(n.clone())),
        Json::Text(text) => put_together(Level::Text(text.clone())),
        Json::Array(items) => {
            let mut values: Vec<serde_json::Value> = Vec::new();
            let mut i: usize = 0;
            while i < items.len()
                invariant
                    i <= items.len(),
                    *json == Json::Array(*items),
                    values@.len() == i,
                    forall|j: int|
                        0 <= j < i ==> value_tree(#[trigger] values@[j]) == canonical(items@[j]@),
                decreases items.len() - i,
            {
                assert(decreases_to!(*json => json->Array_0));
                assert(decreases_to!(items@ => items@[i as int]));
                values.push(value_of_json(&items[i]));
                i = i + 1;
            }
            assert(value_trees(values@) =~= canonical(json@)->Array_0);
            put_together(Level::Array(values))
        },
        Json::Object(entries) => {
            let mut values: Vec<(String, serde_json::Value)> = Vec::new();
            let mut i: usize = 0;
            while i < entries.len()
                invariant
                    i <= entries.len(),
                    *json == Json::Object(*entries),
                    values@.len() == i,
                    forall|j: int|
                        0 <= j < i ==> (#[trigger] values@[j]).0@ == entries@[j].0@ && value_tree(
                            values@[j].1,
                        ) == canonical(entries@[j].1@),
                decreases entries.len() - i,
            {
                assert(decreases_to!(*json => json->Object_0));
                assert(decreases_to!(entries@ => entries@[i as int]));
                assert(decreases_to!(entries@[i as int] => entries@[i as int].1));
                values.push((entries[i].0.clone(), value_of_json(&entries[i].1)));
                i = i + 1;
            }
            assert(value_entries(values@) =~= canonical_entries(entry_trees(entries@)));
            put_together(Level::Object(values))
        },
    }
}

/// Reads a text as JSON.
pub fn parse_json(text: &str) -> (json: Option<Json>)
    ensures
        json is Some == json_of_text(text@) is Some,
        json matches Some(value) ==> value@ == json_of_text(text@)->0 && orderly(value@),
{
    match read_value(text) {
        Ok(value) => Some(json_of_value(value)),
        Err(_) => None,
    }
}

/// Reads a text as JSON, or says why it is none.
pub fn read_json(text: &str) -> (outcome: Result<Json, String>)
    ensures
        outcome is Ok == json_of_text(text@) is Some,
        outcome matches Ok(value) ==> value@ == json_of_text(text@)->0 && orderly(value@),
        outcome matches Err(fault) ==> fault@ == fault_of_text(text@),
{
    match read_value(text) {
        Ok(value) => Ok(json_of_value(value)),
        Err(error) => Err(print_error(&error)),
    }
}

/// Reads the JSON value that bytes begin with, however deep it nests.
pub fn parse_json_deeply_nested(bytes: &[u8]) -> (json: Option<Json>)
    ensures
        json is Some == json_of_bytes(bytes@) is Some,
        json matches Some(value) ==> value@ == json_of_bytes(bytes@)->0 && orderly(value@),
{
    match read_deep_value(bytes) {
        Ok(value) => Some(json_of_value(value)),
        Err(_) => None,
    }
}

/// Prints a JSON value in one line. Where no number of it is a fraction, no object of it begins
/// with the key that `serde_json` keeps for itself and it nests no more than 127 containers,
/// reading the text gives the value back.
pub fn to_text(json: &Json) -> (text: String)
    ensures
        text@ == json_text(canonical(json@)),
        plain(canonical(json@)) && depth(canonical(json@)) <= 127 ==> json_of_text(text@) == Some(
            canonical(json@),
        ),
{
    print_value(&value_of_json(json))
}

/// Prints a JSON value over several lines.
pub fn to_pretty_text(json: &Json) -> (text: String)
    ensures
        text@ == pretty_text(canonical(json@)),
{
    print_value_pretty(&value_of_json(json))
}

/// A value whose objects are ordered is canonical.
pub proof fn orderly_is_canonical(value: JsonView)
    requires
        orderly(value),
    ensures
        canonical(value) == value,
    decreases value,
{
    match value {
        JsonView::Array(items) => {
            assert forall|i: int| 0 <= i < items.len() implies canonical(#[trigger] items[i])
                == items[i] by {
                orderly_is_canonical(items[i]);
            }
            assert(canonical(value)->Array_0 =~= items);
        },
        JsonView::Object(entries) => {
            assert forall|i: int| 0 <= i < entries.len() implies canonical(
                (#[trigger] entries[i]).1,
            ) == entries[i].1 by {
                orderly_is_canonical(entries[i].1);
            }
            assert(canonical_entries(entries) =~= entries);
            table_of_ordered(entries);
        },
        _ => {},
    }
}

/// Putting an ordered value into an ordered object leaves it ordered.
pub proof fn with_keeps_order(object: JsonView, key: Seq<char>, value: JsonView)
    requires
        orderly(object),
        orderly(value),
    ensures
        orderly(object.with(key, value)),
{
    if let JsonView::Object(entries) = object {
        put_keeps_order(entries, key, value);
        put_keeps_values(entries, key, value);
    }
}

proof fn put_keeps_values(entries: Seq<(Seq<char>, JsonView)>, key: Seq<char>, value: JsonView)
    requires
        forall|i: int| 0 <= i < entries.len() ==> orderly((#[trigger] entries[i]).1),
        orderly(value),
    ensures
        forall|i: int|
            0 <= i < put(entries, key, value).len() ==> orderly(
                (#[trigger] put(entries, key, value)[i]).1,
            ),
    decreases entries.len(),
{
    if entries.len() > 0 && entries[0].0 != key && !text_before(key, entries[0].0) {
        let rest = entries.drop_first();
        assert forall|i: int| 0 <= i < rest.len() implies orderly((#[trigger] rest[i]).1) by {
            assert(rest[i] == entries[i + 1]);
        }
        put_keeps_values(rest, key, value);
        let result = put(entries, key, value);
        assert forall|i: int| 0 <= i < result.len() implies orderly((#[trigger] result[i]).1) by {
            if i > 0 {
                assert(result[i] == put(rest, key, value)[i - 1]);
            }
        }
    }
}

/// What is printed of a list are its items in order, and of an object, for each key, the value that
/// was given for it last, in the order of the keys.
pub proof fn canonical_keeps_what_is_given(
    items: Seq<JsonView>,
    entries: Seq<(Seq<char>, JsonView)>,
    key: Seq<char>,
)
    ensures
        canonical(JsonView::Array(items)) matches JsonView::Array(list) && list.len() == items.len()
            && forall|i: int|
            0 <= i < items.len() ==> #[trigger] list[i] == canonical(items[i]),
        canonical(JsonView::Object(entries)).field(key) == (match last_given(entries, key) {
            Some(value) => Some(canonical(value)),
            None => None,
        }),
        canonical(JsonView::Object(entries)) matches JsonView::Object(table) && in_order(table),
{
    table_of_entries(canonical_entries(entries), key);
    last_given_canonical(entries, key);
}

proof fn last_given_canonical(entries: Seq<(Seq<char>, JsonView)>, key: Seq<char>)
    ensures
        last_given(canonical_entries(entries), key) == (match last_given(entries, key) {
            Some(value) => Some(canonical(value)),
            None => None,
        }),
    decreases entries.len(),
{
    if entries.len() > 0 {
        assert(canonical_entries(entries).drop_last() =~= canonical_entries(entries.drop_last()));
        assert(canonical_entries(entries).last() == (entries.last().0, canonical(
            entries.last().1,
        )));
        last_given_canonical(entries.drop_last(), key);
    }
}

} // verus!
