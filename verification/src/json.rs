//! JSON values: the executable tree, its mathematical counterpart, and how to read and build them.
//!
//! An object is a table in the order of its keys, so that equal objects have equal tables.
use crate::decimal::decimal;
use crate::order::{look_up, look_up_after, place_of, put, put_after, text_before};
use crate::text::same_text;
use vstd::prelude::*;

verus! {

/// A number of the `serde_json` crate, carried through as it is.
#[verifier::external_type_specification]
#[verifier::external_body]
pub struct ExNumber(serde_json::Number);

/// The whole number that a `serde_json::Number` stands for, where it stands for one: what
/// `serde_json::Number::as_i128` gives.
pub uninterp spec fn whole_number(number: serde_json::Number) -> Option<i128>;

/// How a `serde_json::Number` is printed by its `Display`.
pub uninterp spec fn number_text(number: serde_json::Number) -> Seq<char>;

/// `serde_json::Number::as_i128` gives the integer that the number holds, and nothing for a
/// number read or made as a fraction. An integer of a `serde_json::Number` is never below the
/// least `i64` nor above the greatest `u64`, as the crate's `arbitrary_precision` feature is off.
pub assume_specification[ serde_json::Number::as_i128 ](number: &serde_json::Number) -> (
    integer: Option<i128>)
    ensures
        integer == whole_number(*number),
        integer matches Some(n) ==> i64::MIN <= n <= u64::MAX,
;

/// `serde_json::Number::from` on a `u64` makes the number that holds that integer.
#[verifier::external_body]
fn number_of_unsigned(value: u64) -> (number: serde_json::Number)
    ensures
        whole_number(number) == Some(value as i128),
{
    serde_json::Number::from(value)
}

/// `serde_json::Number::from` on an `i64` makes the number that holds that integer.
#[verifier::external_body]
fn number_of_signed(value: i64) -> (number: serde_json::Number)
    ensures
        whole_number(number) == Some(value as i128),
{
    serde_json::Number::from(value)
}

/// `serde_json::Number`'s `Clone` gives the same number.
pub assume_specification[ <serde_json::Number as Clone>::clone ](
    number: &serde_json::Number,
) -> (copy: serde_json::Number)
    ensures
        copy == *number,
;

/// `serde_json::Number`'s `Display` prints the number; an integer it prints in decimal.
#[verifier::external_body]
pub(crate) fn print_number(number: &serde_json::Number) -> (text: String)
    ensures
        text@ == number_text(*number),
        whole_number(*number) matches Some(n) ==> text@ == decimal(n as int),
{
    number.to_string()
}

/// A JSON value.
#[derive(Debug, PartialEq)]
pub enum Json {
    Null,
    Bool(bool),
    Number(serde_json::Number),
    Text(String),
    Array(Vec<Json>),
    Object(Vec<(String, Json)>),
}

/// What a JSON number is: an integer, or else the number itself.
#[verifier::ext_equal]
pub enum NumberView {
    Whole(int),
    Fraction(serde_json::Number),
}

/// The mathematical JSON value.
#[verifier::ext_equal]
pub enum JsonView {
    Null,
    Bool(bool),
    Number(NumberView),
    Text(Seq<char>),
    Array(Seq<JsonView>),
    Object(Seq<(Seq<char>, JsonView)>),
}

/// What a `serde_json::Number` is.
pub open spec fn number_view(number: serde_json::Number) -> NumberView {
    match whole_number(number) {
        Some(n) => NumberView::Whole(n as int),
        None => NumberView::Fraction(number),
    }
}

/// The JSON number for a whole number.
pub open spec fn whole(value: int) -> JsonView {
    JsonView::Number(NumberView::Whole(value))
}

/// The JSON object without entries.
pub open spec fn no_entries() -> JsonView {
    JsonView::Object(seq![])
}

impl JsonView {
    /// The object with `value` under `key`; what is no object stays as it is.
    pub open spec fn with(self, key: Seq<char>, value: JsonView) -> JsonView {
        match self {
            JsonView::Object(entries) => JsonView::Object(put(entries, key, value)),
            _ => self,
        }
    }

    /// The value under `key`, where this is an object that has the key.
    pub open spec fn field(self, key: Seq<char>) -> Option<JsonView> {
        match self {
            JsonView::Object(entries) => look_up(entries, key),
            _ => None,
        }
    }

    /// The whole number that this is, where it is one from 0 to the greatest `u64`.
    pub open spec fn unsigned(self) -> Option<int> {
        match self {
            JsonView::Number(NumberView::Whole(n)) if 0 <= n <= u64::MAX => Some(n),
            _ => None,
        }
    }

    /// The whole number that this is, where it is one that an `i64` holds.
    pub open spec fn signed(self) -> Option<int> {
        match self {
            JsonView::Number(NumberView::Whole(n)) if i64::MIN <= n <= i64::MAX => Some(n),
            _ => None,
        }
    }

    /// The text that this is, where it is one.
    pub open spec fn string(self) -> Option<Seq<char>> {
        match self {
            JsonView::Text(text) => Some(text),
            _ => None,
        }
    }

    /// The truth value that this is, where it is one.
    pub open spec fn truth(self) -> Option<bool> {
        match self {
            JsonView::Bool(b) => Some(b),
            _ => None,
        }
    }

    /// The items of this, where it is an array.
    pub open spec fn items(self) -> Option<Seq<JsonView>> {
        match self {
            JsonView::Array(items) => Some(items),
            _ => None,
        }
    }

    /// The value under `key`, or null where there is none.
    pub open spec fn field_or_null(self, key: Seq<char>) -> JsonView {
        match self.field(key) {
            Some(value) => value,
            None => JsonView::Null,
        }
    }

    /// The whole number under `key`, where there is one from 0 to the greatest `u64`.
    pub open spec fn unsigned_field(self, key: Seq<char>) -> Option<int> {
        match self.field(key) {
            Some(value) => value.unsigned(),
            None => None,
        }
    }

    /// The text under `key`, where there is one.
    pub open spec fn string_field(self, key: Seq<char>) -> Option<Seq<char>> {
        match self.field(key) {
            Some(value) => value.string(),
            None => None,
        }
    }

    /// The truth value under `key`, where there is one.
    pub open spec fn truth_field(self, key: Seq<char>) -> Option<bool> {
        match self.field(key) {
            Some(value) => value.truth(),
            None => None,
        }
    }
}

impl Json {
    /// The mathematical value.
    pub open spec fn tree(self) -> JsonView
        decreases self,
    {
        match self {
            Json::Null => JsonView::Null,
            Json::Bool(b) => JsonView::Bool(b),
            Json::Number(n) => JsonView::Number(number_view(n)),
            Json::Text(text) => JsonView::Text(text@),
            Json::Array(items) => JsonView::Array(
                Seq::new(
                    items@.len(),
                    |i: int|
                        if 0 <= i < items@.len() {
                            items@[i].tree()
                        } else {
                            JsonView::Null
                        },
                ),
            ),
            Json::Object(entries) => JsonView::Object(
                Seq::new(
                    entries@.len(),
                    |i: int|
                        if 0 <= i < entries@.len() {
                            (entries@[i].0@, entries@[i].1.tree())
                        } else {
                            (seq![], JsonView::Null)
                        },
                ),
            ),
        }
    }
}

impl View for Json {
    type V = JsonView;

    open spec fn view(&self) -> JsonView {
        self.tree()
    }
}

/// The values of a sequence of JSON values.
pub open spec fn trees(items: Seq<Json>) -> Seq<JsonView> {
    Seq::new(items.len(), |i: int| items[i]@)
}

/// The keys and values of a sequence of entries.
pub open spec fn entry_trees(entries: Seq<(String, Json)>) -> Seq<(Seq<char>, JsonView)> {
    Seq::new(entries.len(), |i: int| (entries[i].0@, entries[i].1@))
}

/// The value of an array, over the values of its items.
pub broadcast proof fn array_tree(items: Vec<Json>)
    ensures
        #[trigger] Json::Array(items).tree() == JsonView::Array(trees(items@)),
{
    assert(Json::Array(items).tree()->Array_0 =~= trees(items@));
}

/// The value of an object, over the keys and values of its entries.
pub broadcast proof fn object_tree(entries: Vec<(String, Json)>)
    ensures
        #[trigger] Json::Object(entries).tree() == JsonView::Object(entry_trees(entries@)),
{
    assert(Json::Object(entries).tree()->Object_0 =~= entry_trees(entries@));
}

/// Puts `value` under `key` into a table of entries.
pub fn put_entry(entries: &mut Vec<(String, Json)>, key: String, value: Json)
    ensures
        entry_trees(final(entries)@) == put(entry_trees(old(entries)@), key@, value@),
{
    let ghost table = entry_trees(entries@);
    let i: usize = place_of(entries, key.as_str());
    proof {
        assert forall|j: int| 0 <= j < i implies (#[trigger] table[j]).0 != key@ && !text_before(
            key@,
            table[j].0,
        ) by {
            assert(table[j].0 == entries@[j].0@);
        }
        put_after(table, key@, value@, i as int);
        if i < entries.len() {
            assert(table.skip(i as int)[0] == table[i as int]);
        }
    }
    let ghost new_entry = (key@, value@);
    let ghost tail = put(table.skip(i as int), key@, value@);
    if i < entries.len() && same_text(entries[i].0.as_str(), key.as_str()) {
        entries.set(i, (key, value));
        assert(tail =~= table.skip(i as int).update(0, new_entry));
    } else {
        entries.insert(i, (key, value));
        assert(tail =~= seq![new_entry] + table.skip(i as int));
    }
    assert(entry_trees(entries@) =~= table.take(i as int) + tail);
}

impl Json {
    /// The text value.
    pub fn text(text: &str) -> (json: Json)
        ensures
            json@ == JsonView::Text(text@),
    {
        Json::Text(text.to_owned())
    }

    /// The number for an unsigned integer.
    pub fn unsigned(value: u64) -> (json: Json)
        ensures
            json@ == whole(value as int),
    {
        Json::Number(number_of_unsigned(value))
    }

    /// The number for a signed integer.
    pub fn signed(value: i64) -> (json: Json)
        ensures
            json@ == whole(value as int),
    {
        Json::Number(number_of_signed(value))
    }

    /// The object without entries.
    pub fn empty() -> (json: Json)
        ensures
            json@ == no_entries(),
    {
        broadcast use object_tree;
        let entries: Vec<(String, Json)> = Vec::new();
        assert(entry_trees(entries@) =~= seq![]);
        Json::Object(entries)
    }

    /// The array of the given items.
    pub fn array(items: Vec<Json>) -> (json: Json)
        ensures
            json@ == JsonView::Array(trees(items@)),
    {
        broadcast use array_tree;
        Json::Array(items)
    }

    /// The object with `value` under `key`; what is no object stays as it is.
    pub fn with(self, key: &str, value: Json) -> (json: Json)
        ensures
            json@ == self@.with(key@, value@),
    {
        broadcast use object_tree;
        match self {
            Json::Object(entries) => {
                let mut entries = entries;
                put_entry(&mut entries, key.to_owned(), value);
                Json::Object(entries)
            },
            other => other,
        }
    }

    /// The value under `key`, where this is an object that has the key.
    pub fn get(&self, key: &str) -> (found: Option<&Json>)
        ensures
            found is Some == self@.field(key@) is Some,
            found matches Some(value) ==> value@ == self@.field(key@)->0,
    {
        broadcast use object_tree;
        match self {
            Json::Object(entries) => {
                let ghost table = entry_trees(entries@);
                let mut i: usize = 0;
                while i < entries.len()
                    invariant
                        i <= entries.len(),
                        table == entry_trees(entries@),
                        forall|j: int| 0 <= j < i ==> (#[trigger] table[j]).0 != key@,
                        self@ == JsonView::Object(table),
                    decreases entries.len() - i,
                {
                    if same_text(entries[i].0.as_str(), key) {
                        proof {
                            look_up_after(table, key@, i as int);
                            assert(table.skip(i as int)[0] == table[i as int]);
                        }
                        return Some(&entries[i].1);
                    }
                    i = i + 1;
                }
                proof {
                    look_up_after(table, key@, i as int);
                }
                None
            },
            _ => None,
        }
    }

    /// The integer that this is, where it is one that a `u64` holds.
    pub fn as_u64(&self) -> (value: Option<u64>)
        ensures
            value is Some == self@.unsigned() is Some,
            value matches Some(n) ==> self@.unsigned() == Some(n as int),
    {
        match self {
            Json::Number(number) => match number.as_i128() {
                Some(n) => if 0 <= n && n <= 0xffff_ffff_ffff_ffffi128 {
                    Some(n as u64)
                } else {
                    None
                },
                None => None,
            },
            _ => None,
        }
    }

    /// The integer that this is, where it is one that an `i64` holds.
    pub fn as_i64(&self) -> (value: Option<i64>)
        ensures
            value is Some == self@.signed() is Some,
            value matches Some(n) ==> self@.signed() == Some(n as int),
    {
        match self {
            Json::Number(number) => match number.as_i128() {
                Some(n) => if -0x8000_0000_0000_0000i128 <= n && n <= 0x7fff_ffff_ffff_ffffi128 {
                    Some(n as i64)
                } else {
                    None
                },
                None => None,
            },
            _ => None,
        }
    }

    /// The text that this is, where it is one.
    pub fn as_str(&self) -> (text: Option<&str>)
        ensures
            text is Some == self@.string() is Some,
            text matches Some(t) ==> self@.string() == Some(t@),
    {
        match self {
            Json::Text(text) => Some(text.as_str()),
            _ => None,
        }
    }

    /// The truth value that this is, where it is one.
    pub fn as_bool(&self) -> (value: Option<bool>)
        ensures
            value == self@.truth(),
    {
        match self {
            Json::Bool(b) => Some(*b),
            _ => None,
        }
    }

    /// The items of this, where it is an array.
    pub fn as_array(&self) -> (items: Option<&Vec<Json>>)
        ensures
            items is Some == self@.items() is Some,
            items matches Some(v) ==> self@.items() == Some(trees(v@)),
    {
        broadcast use array_tree;
        match self {
            Json::Array(items) => Some(items),
            _ => None,
        }
    }

    /// Whether this is null.
    pub fn is_null(&self) -> (null: bool)
        ensures
            null == (self@ == JsonView::Null),
    {
        match self {
            Json::Null => true,
            _ => false,
        }
    }

    /// The integer under `key`, where there is one that a `u64` holds.
    pub fn u64_field(&self, key: &str) -> (value: Option<u64>)
        ensures
            value is Some == self@.unsigned_field(key@) is Some,
            value matches Some(n) ==> self@.unsigned_field(key@) == Some(n as int),
    {
        match self.get(key) {
            Some(value) => value.as_u64(),
            None => None,
        }
    }

    /// The text under `key`, where there is one.
    pub fn str_field(&self, key: &str) -> (text: Option<&str>)
        ensures
            text is Some == self@.string_field(key@) is Some,
            text matches Some(t) ==> self@.string_field(key@) == Some(t@),
    {
        match self.get(key) {
            Some(value) => value.as_str(),
            None => None,
        }
    }

    /// The truth value under `key`, where there is one.
    pub fn bool_field(&self, key: &str) -> (value: Option<bool>)
        ensures
            value == self@.truth_field(key@),
    {
        match self.get(key) {
            Some(value) => value.as_bool(),
            None => None,
        }
    }

    /// An equal value of its own.
    pub fn copy(&self) -> (json: Json)
        ensures
            json@ == self@,
        decreases self,
    {
        broadcast use {array_tree, object_tree};
        match self {
            Json::Null => Json::Null,
            Json::Bool(b) => Json::Bool(*b),
            Json::Number(number) => Json::Number(number.clone()),
            Json::Text(text) => Json::Text(text.clone()),
            Json::Array(items) => {
                let mut copies: Vec<Json> = Vec::new();
                let mut i: usize = 0;
                while i < items.len()
                    invariant
                        i <= items.len(),
                        *self == Json::Array(*items),
                        trees(copies@) == trees(items@).take(i as int),
                    decreases items.len() - i,
                {
                    let ghost before = trees(copies@);
                    assert(decreases_to!(*self => self->Array_0));
                    assert(decreases_to!(items@ => items@[i as int]));
                    let item = items[i].copy();
                    copies.push(item);
                    assert(trees(copies@) =~= before.push(item@));
                    i = i + 1;
                    assert(trees(copies@) =~= trees(items@).take(i as int));
                }
                assert(trees(items@).take(i as int) =~= trees(items@));
                Json::Array(copies)
            },
            Json::Object(entries) => {
                let mut copies: Vec<(String, Json)> = Vec::new();
                let mut i: usize = 0;
                while i < entries.len()
                    invariant
                        i <= entries.len(),
                        *self == Json::Object(*entries),
                        entry_trees(copies@) == entry_trees(entries@).take(i as int),
                    decreases entries.len() - i,
                {
                    let ghost before = entry_trees(copies@);
                    assert(decreases_to!(*self => self->Object_0));
                    assert(decreases_to!(entries@ => entries@[i as int]));
                    assert(decreases_to!(entries@[i as int] => entries@[i as int].1));
                    let value = entries[i].1.copy();
                    copies.push((entries[i].0.clone(), value));
                    assert(entry_trees(copies@) =~= before.push((entries@[i as int].0@, value@)));
                    i = i + 1;
                    assert(entry_trees(copies@) =~= entry_trees(entries@).take(i as int));
                }
                assert(entry_trees(entries@).take(i as int) =~= entry_trees(entries@));
                Json::Object(copies)
            },
        }
    }

    /// The value under `key` as one of its own, or null where there is none.
    pub fn field_or_null(&self, key: &str) -> (json: Json)
        ensures
            json@ == self@.field_or_null(key@),
    {
        match self.get(key) {
            Some(value) => value.copy(),
            None => Json::Null,
        }
    }
}

/// The value under a key is a smaller value than the object.
pub proof fn field_is_smaller(object: JsonView, key: Seq<char>)
    requires
        object.field(key) is Some,
    ensures
        decreases_to!(object => object.field(key)->0),
{
    let entries = object->Object_0;
    let at = crate::order::key_of_look_up(entries, key);
    assert(decreases_to!(object => object->Object_0));
    assert(decreases_to!(entries => entries[at]));
    assert(decreases_to!(entries[at] => entries[at].1));
}

/// The items of an array under a key are smaller than the object.
pub proof fn field_items_are_smaller(object: JsonView, key: Seq<char>)
    requires
        object.field(key) matches Some(JsonView::Array(items)),
    ensures
        decreases_to!(object => object.field(key)->0->Array_0),
{
    field_is_smaller(object, key);
    let array = object.field(key)->0;
    assert(decreases_to!(array => array->Array_0));
}

/// A value put under a key is what the key gives; every other key gives what it gave before.
pub proof fn with_then_field(object: JsonView, key: Seq<char>, value: JsonView, asked: Seq<char>)
    requires
        object is Object,
    ensures
        asked == key ==> object.with(key, value).field(asked) == Some(value),
        asked != key ==> object.with(key, value).field(asked) == object.field(asked),
{
    crate::order::put_then_look_up(object->Object_0, key, value, asked);
}

/// A value put under a key is what the key gives; every other key gives what it gave before.
pub broadcast proof fn with_fields(
    object: JsonView,
    key: Seq<char>,
    value: JsonView,
    asked: Seq<char>,
)
    requires
        object is Object,
    ensures
        #[trigger] object.with(key, value).field(asked) == (if asked == key {
            Some(value)
        } else {
            object.field(asked)
        }),
{
    with_then_field(object, key, value, asked);
}

/// The object without entries has nothing under any key.
pub broadcast proof fn no_fields(asked: Seq<char>)
    ensures
        #[trigger] no_entries().field(asked) is None,
{
}

/// A value reads as what it is and as nothing else: a whole number where the range holds it, a
/// text, a truth value, an array.
pub proof fn values_read_as_themselves(
    number: int,
    text: Seq<char>,
    truth: bool,
    items: Seq<JsonView>,
)
    ensures
        whole(number).unsigned() is Some <==> 0 <= number < 0x1_0000_0000_0000_0000,
        whole(number).unsigned() matches Some(n) ==> n == number,
        whole(number).signed() is Some <==> -0x8000_0000_0000_0000 <= number
            < 0x8000_0000_0000_0000,
        whole(number).signed() matches Some(n) ==> n == number,
        whole(number).string() is None && whole(number).truth() is None,
        JsonView::Text(text).string() == Some(text),
        JsonView::Text(text).unsigned() is None && JsonView::Text(text).truth() is None,
        JsonView::Bool(truth).truth() == Some(truth),
        JsonView::Bool(truth).string() is None && JsonView::Bool(truth).unsigned() is None,
        JsonView::Array(items).items() == Some(items),
        JsonView::Array(items).string() is None,
        JsonView::Null.string() is None && JsonView::Null.unsigned() is None,
{
}

/// What is read under a key is what the value under it reads as; without the key there is nothing,
/// or null where null stands for nothing.
pub proof fn fields_read_as_their_values(object: JsonView, key: Seq<char>, value: JsonView)
    requires
        object is Object,
    ensures
        object.with(key, value).unsigned_field(key) == value.unsigned(),
        object.with(key, value).string_field(key) == value.string(),
        object.with(key, value).truth_field(key) == value.truth(),
        object.with(key, value).field_or_null(key) == value,
        object.field(key) is None ==> object.string_field(key) is None && object.unsigned_field(
            key,
        ) is None && object.truth_field(key) is None && object.field_or_null(key) is Null,
{
    with_then_field(object, key, value, key);
}

} // verus!
