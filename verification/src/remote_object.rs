//! The `RemoteObject` that stands for a JSON value on a debugger's side.
//!
//! A primitive is sent by value with a description. A container is sent with an inline preview of
//! its first properties.
use crate::decimal::{decimal, decimal_reads_back, decimal_value, write_unsigned};
use crate::json::{
    array_tree, entry_trees, no_entries, no_fields, number_text, object_tree, print_number, trees,
    with_fields, Json, JsonView, NumberView,
};
use crate::text::joined3;
use vstd::prelude::*;

verus! {

/// How many properties a preview lists at most.
pub const MAX_PROPERTIES: usize = 10;

/// How a number is printed.
pub open spec fn printed(number: NumberView) -> Seq<char> {
    match number {
        NumberView::Whole(n) => decimal(n),
        NumberView::Fraction(n) => number_text(n),
    }
}

/// How a truth value is printed.
pub open spec fn printed_truth(b: bool) -> Seq<char> {
    if b {
        "true"@
    } else {
        "false"@
    }
}

/// The short description of an array with `len` items.
pub open spec fn array_label(len: int) -> Seq<char> {
    "Array("@ + decimal(len) + ")"@
}

/// The type that a preview gives for a value.
pub open spec fn kind_of(value: JsonView) -> Seq<char> {
    match value {
        JsonView::Bool(_) => "boolean"@,
        JsonView::Number(_) => "number"@,
        JsonView::Text(_) => "string"@,
        _ => "object"@,
    }
}

/// The text that a preview shows for a value; a container is shown by a short description.
pub open spec fn shown(value: JsonView) -> Seq<char> {
    match value {
        JsonView::Null => "null"@,
        JsonView::Bool(b) => printed_truth(b),
        JsonView::Number(n) => printed(n),
        JsonView::Text(text) => text,
        JsonView::Array(items) => array_label(items.len() as int),
        JsonView::Object(_) => "Object"@,
    }
}

/// One property of a preview.
pub open spec fn property_view(name: Seq<char>, value: JsonView) -> JsonView {
    no_entries().with("name"@, JsonView::Text(name)).with(
        "type"@,
        JsonView::Text(kind_of(value)),
    ).with("value"@, JsonView::Text(shown(value)))
}

/// How many of `len` properties a preview lists.
pub open spec fn listed(len: nat) -> nat {
    if len > MAX_PROPERTIES {
        MAX_PROPERTIES as nat
    } else {
        len
    }
}

/// The preview of a value: the first properties of a container, none of anything else.
pub open spec fn preview_view(value: JsonView) -> JsonView {
    match value {
        JsonView::Array(items) => no_entries().with("type"@, JsonView::Text("object"@)).with(
            "subtype"@,
            JsonView::Text("array"@),
        ).with("description"@, JsonView::Text(array_label(items.len() as int))).with(
            "overflow"@,
            JsonView::Bool(items.len() > MAX_PROPERTIES),
        ).with(
            "properties"@,
            JsonView::Array(
                Seq::new(listed(items.len()), |i: int| property_view(decimal(i), items[i])),
            ),
        ),
        JsonView::Object(entries) => no_entries().with("type"@, JsonView::Text("object"@)).with(
            "description"@,
            JsonView::Text("Object"@),
        ).with("overflow"@, JsonView::Bool(entries.len() > MAX_PROPERTIES)).with(
            "properties"@,
            JsonView::Array(
                Seq::new(
                    listed(entries.len()),
                    |i: int| property_view(entries[i].0, entries[i].1),
                ),
            ),
        ),
        _ => no_entries().with("type"@, JsonView::Text("object"@)).with(
            "description"@,
            JsonView::Text("Object"@),
        ).with("overflow"@, JsonView::Bool(false)).with("properties"@, JsonView::Array(seq![])),
    }
}

/// The `RemoteObject` of a value.
pub open spec fn remote_view(value: JsonView) -> JsonView {
    match value {
        JsonView::Null => no_entries().with("type"@, JsonView::Text("object"@)).with(
            "subtype"@,
            JsonView::Text("null"@),
        ).with("value"@, JsonView::Null),
        JsonView::Array(items) => no_entries().with("type"@, JsonView::Text("object"@)).with(
            "subtype"@,
            JsonView::Text("array"@),
        ).with("className"@, JsonView::Text("Array"@)).with(
            "description"@,
            JsonView::Text(array_label(items.len() as int)),
        ).with("preview"@, preview_view(value)),
        JsonView::Object(_) => no_entries().with("type"@, JsonView::Text("object"@)).with(
            "className"@,
            JsonView::Text("Object"@),
        ).with("description"@, JsonView::Text("Object"@)).with("preview"@, preview_view(value)),
        _ => no_entries().with("type"@, JsonView::Text(kind_of(value))).with("value"@, value).with(
            "description"@,
            JsonView::Text(shown(value)),
        ),
    }
}

fn label_array(len: usize) -> (text: String)
    ensures
        text@ == array_label(len as int),
{
    joined3("Array(", write_unsigned(len as u64).as_str(), ")")
}

fn show(value: &Json) -> (text: String)
    ensures
        text@ == shown(value@),
{
    broadcast use {array_tree, object_tree};
    match value {
        Json::Null => "null".to_owned(),
        Json::Bool(b) => if *b {
            "true".to_owned()
        } else {
            "false".to_owned()
        },
        Json::Number(n) => print_number(n),
        Json::Text(text) => text.clone(),
        Json::Array(items) => label_array(items.len()),
        Json::Object(_) => "Object".to_owned(),
    }
}

fn kind(value: &Json) -> (text: Json)
    ensures
        text@ == JsonView::Text(kind_of(value@)),
{
    match value {
        Json::Bool(_) => Json::text("boolean"),
        Json::Number(_) => Json::text("number"),
        Json::Text(_) => Json::text("string"),
        _ => Json::text("object"),
    }
}

/// One property of a preview: its value is always shown as a text.
pub fn preview_property(name: &str, value: &Json) -> (property: Json)
    ensures
        property@ == property_view(name@, value@),
{
    Json::empty().with("name", Json::text(name)).with("type", kind(value)).with(
        "value",
        Json::Text(show(value)),
    )
}

/// The preview of a container lists its first properties; a nested container is shown by a short
/// description.
pub fn preview(value: &Json) -> (shape: Json)
    ensures
        shape@ == preview_view(value@),
{
    broadcast use {array_tree, object_tree};
    match value {
        Json::Array(items) => {
            let mut properties: Vec<Json> = Vec::new();
            let mut i: usize = 0;
            let ghost goal = Seq::new(
                listed(items@.len()),
                |i: int| property_view(decimal(i), trees(items@)[i]),
            );
            while i < items.len() && i < MAX_PROPERTIES
                invariant
                    i <= items.len(),
                    i <= MAX_PROPERTIES,
                    goal == Seq::new(
                        listed(items@.len()),
                        |i: int| property_view(decimal(i), trees(items@)[i]),
                    ),
                    properties@.len() == i,
                    forall|j: int| 0 <= j < i ==> (#[trigger] properties@[j])@ == goal[j],
                decreases items.len() - i,
            {
                let name = write_unsigned(i as u64);
                properties.push(preview_property(name.as_str(), &items[i]));
                i = i + 1;
            }
            assert(trees(properties@) =~= goal);
            Json::empty().with("type", Json::text("object")).with(
                "subtype",
                Json::text("array"),
            ).with("description", Json::Text(label_array(items.len()))).with(
                "overflow",
                Json::Bool(items.len() > MAX_PROPERTIES),
            ).with("properties", Json::array(properties))
        },
        Json::Object(entries) => {
            let mut properties: Vec<Json> = Vec::new();
            let mut i: usize = 0;
            let ghost goal = Seq::new(
                listed(entries@.len()),
                |i: int| property_view(entry_trees(entries@)[i].0, entry_trees(entries@)[i].1),
            );
            while i < entries.len() && i < MAX_PROPERTIES
                invariant
                    i <= entries.len(),
                    i <= MAX_PROPERTIES,
                    goal == Seq::new(
                        listed(entries@.len()),
                        |i: int|
                            property_view(entry_trees(entries@)[i].0, entry_trees(entries@)[i].1),
                    ),
                    properties@.len() == i,
                    forall|j: int| 0 <= j < i ==> (#[trigger] properties@[j])@ == goal[j],
                decreases entries.len() - i,
            {
                properties.push(preview_property(entries[i].0.as_str(), &entries[i].1));
                i = i + 1;
            }
            assert(trees(properties@) =~= goal);
            Json::empty().with("type", Json::text("object")).with(
                "description",
                Json::text("Object"),
            ).with("overflow", Json::Bool(entries.len() > MAX_PROPERTIES)).with(
                "properties",
                Json::array(properties),
            )
        },
        _ => {
            let properties: Vec<Json> = Vec::new();
            assert(trees(properties@) =~= seq![]);
            Json::empty().with("type", Json::text("object")).with(
                "description",
                Json::text("Object"),
            ).with("overflow", Json::Bool(false)).with("properties", Json::array(properties))
        },
    }
}

/// The `RemoteObject` of a value.
pub fn remote_object(value: &Json) -> (object: Json)
    ensures
        object@ == remote_view(value@),
{
    broadcast use {array_tree, object_tree};
    match value {
        Json::Null => Json::empty().with("type", Json::text("object")).with(
            "subtype",
            Json::text("null"),
        ).with("value", Json::Null),
        Json::Array(items) => Json::empty().with("type", Json::text("object")).with(
            "subtype",
            Json::text("array"),
        ).with("className", Json::text("Array")).with(
            "description",
            Json::Text(label_array(items.len())),
        ).with("preview", preview(value)),
        Json::Object(_) => Json::empty().with("type", Json::text("object")).with(
            "className",
            Json::text("Object"),
        ).with("description", Json::text("Object")).with("preview", preview(value)),
        _ => Json::empty().with("type", kind(value)).with("value", value.copy()).with(
            "description",
            Json::Text(show(value)),
        ),
    }
}

/// The truth value that a text in JSON stands for.
pub open spec fn truth_in(text: Seq<char>) -> Option<bool> {
    if text == seq!['t', 'r', 'u', 'e'] {
        Some(true)
    } else if text == seq!['f', 'a', 'l', 's', 'e'] {
        Some(false)
    } else {
        None
    }
}

/// Whether a value that is not a container is shown by a text: read as JSON, the text gives the
/// value back. A text is shown as it is, and a fraction as it is printed.
pub open spec fn shown_by(value: JsonView, text: Seq<char>) -> bool {
    match value {
        JsonView::Null => text == seq!['n', 'u', 'l', 'l'],
        JsonView::Bool(b) => truth_in(text) == Some(b),
        JsonView::Number(NumberView::Whole(n)) => decimal_value(text) == n && text.len() > 0 && (
        text[0] == '-') == (n < 0),
        JsonView::Number(NumberView::Fraction(n)) => text == number_text(n),
        JsonView::Text(own) => text == own,
        _ => false,
    }
}

/// What a value that is not a container is shown as reads as that value, in a preview and in the
/// description of its own remote object, which also carries the value itself. An array is shown by
/// its length.
pub proof fn shown_values_read_back(name: Seq<char>, value: JsonView)
    ensures
        !(value is Array) && !(value is Object) ==> shown_by(value, shown(value)),
        value matches JsonView::Array(items) ==> shown(value).len() > 7 && shown(value).take(6)
            == seq!['A', 'r', 'r', 'a', 'y', '('] && shown(value).last() == ')' && decimal_value(
            shown(value).subrange(6, shown(value).len() - 1),
        ) == items.len(),
        value is Object ==> shown(value) == seq!['O', 'b', 'j', 'e', 'c', 't'],
        property_view(name, value).string_field("name"@) == Some(name),
        property_view(name, value).string_field("value"@) == Some(shown(value)),
        value is Bool || value is Number || value is Text ==> remote_view(value).string_field(
            "description"@,
        ) == Some(shown(value)),
        !(value is Array) && !(value is Object) ==> remote_view(value).field("value"@) == Some(
            value,
        ),
        value is Array || value is Object ==> remote_view(value).field("value"@) is None
            && remote_view(value).string_field("description"@) == Some(shown(value))
            && remote_view(value).field("preview"@) == Some(preview_view(value)),
{
    broadcast use {with_fields, no_fields};
    remote_names();
    reveal_strlit("true");
    reveal_strlit("false");
    reveal_strlit("null");
    reveal_strlit("Object");
    reveal_strlit("Array(");
    reveal_strlit(")");
    assert("true"@ =~= seq!['t', 'r', 'u', 'e']);
    assert("false"@ =~= seq!['f', 'a', 'l', 's', 'e']);
    assert("null"@ =~= seq!['n', 'u', 'l', 'l']);
    assert("Object"@ =~= seq!['O', 'b', 'j', 'e', 'c', 't']);
    assert(seq!['t', 'r', 'u', 'e'].len() != seq!['f', 'a', 'l', 's', 'e'].len());
    match value {
        JsonView::Number(NumberView::Whole(n)) => {
            decimal_reads_back(n);
        },
        JsonView::Array(items) => {
            let len = items.len() as int;
            decimal_reads_back(len);
            assert(shown(value).take(6) =~= seq!['A', 'r', 'r', 'a', 'y', '(']);
            assert(shown(value).subrange(6, shown(value).len() - 1) =~= decimal(len));
        },
        _ => {},
    }
}

/// The type of a value is told by what it is, in a preview and in its remote object; only null and
/// arrays have a subtype.
pub proof fn types_tell_values_apart(name: Seq<char>, value: JsonView)
    ensures
        remote_view(value).field("type"@) == property_view(name, value).field("type"@),
        value is Bool <==> remote_view(value).string_field("type"@) == Some("boolean"@),
        value is Number <==> remote_view(value).string_field("type"@) == Some("number"@),
        value is Text <==> remote_view(value).string_field("type"@) == Some("string"@),
        value is Null || value is Array || value is Object <==> remote_view(value).string_field(
            "type"@,
        ) == Some("object"@),
        value is Null <==> remote_view(value).string_field("subtype"@) == Some("null"@),
        value is Array <==> remote_view(value).string_field("subtype"@) == Some("array"@),
        !(value is Null) && !(value is Array) ==> remote_view(value).field("subtype"@) is None,
        value is Array <==> remote_view(value).string_field("className"@) == Some("Array"@),
        value is Object <==> remote_view(value).string_field("className"@) == Some("Object"@),
{
    broadcast use {with_fields, no_fields};
    remote_names();
}

/// Whether a property of a preview tells of a value under a name.
pub open spec fn property_tells(property: JsonView, name: Seq<char>, value: JsonView) -> bool {
    &&& property.string_field("name"@) == Some(name)
    &&& property.string_field("value"@) == Some(shown(value))
    &&& property.field("type"@) == remote_view(value).field("type"@)
}

/// A preview lists the first ten properties of a container in their order, and says whether there
/// are more: the items of an array under their indexes, the entries of an object under their keys.
pub proof fn preview_lists_in_order(value: JsonView)
    ensures
        value matches JsonView::Array(items) ==> {
            &&& preview_view(value).truth_field("overflow"@) == Some(items.len() > 10)
            &&& preview_view(value).field("properties"@) matches Some(JsonView::Array(list))
                && list.len() == (if items.len() > 10 {
                10
            } else {
                items.len()
            }) && forall|i: int|
                0 <= i < list.len() ==> property_tells(#[trigger] list[i], decimal(i), items[i])
        },
        value matches JsonView::Object(entries) ==> {
            &&& preview_view(value).truth_field("overflow"@) == Some(entries.len() > 10)
            &&& preview_view(value).field("properties"@) matches Some(JsonView::Array(list))
                && list.len() == (if entries.len() > 10 {
                10
            } else {
                entries.len()
            }) && forall|i: int|
                0 <= i < list.len() ==> property_tells(
                    #[trigger] list[i],
                    entries[i].0,
                    entries[i].1,
                )
        },
        value is Array || value is Object ==> preview_view(value).field("type"@) == Some(
            JsonView::Text("object"@),
        ) && preview_view(value).string_field("description"@) == Some(shown(value))
            && preview_view(value).field("subtype"@) == remote_view(value).field("subtype"@),
{
    broadcast use {with_fields, no_fields};
    remote_names();
    match value {
        JsonView::Array(items) => {
            let list = preview_view(value).field("properties"@)->0->Array_0;
            assert forall|i: int| 0 <= i < list.len() implies property_tells(
                #[trigger] list[i],
                decimal(i),
                items[i],
            ) by {
                shown_values_read_back(decimal(i), items[i]);
                types_tell_values_apart(decimal(i), items[i]);
            }
        },
        JsonView::Object(entries) => {
            let list = preview_view(value).field("properties"@)->0->Array_0;
            assert forall|i: int| 0 <= i < list.len() implies property_tells(
                #[trigger] list[i],
                entries[i].0,
                entries[i].1,
            ) by {
                shown_values_read_back(entries[i].0, entries[i].1);
                types_tell_values_apart(entries[i].0, entries[i].1);
            }
        },
        _ => {},
    }
}

proof fn remote_names()
    ensures
        "name"@ != "type"@,
        "name"@ != "value"@,
        "name"@ != "description"@,
        "name"@ != "subtype"@,
        "name"@ != "className"@,
        "name"@ != "preview"@,
        "name"@ != "overflow"@,
        "name"@ != "properties"@,
        "type"@ != "value"@,
        "type"@ != "description"@,
        "type"@ != "subtype"@,
        "type"@ != "className"@,
        "type"@ != "preview"@,
        "type"@ != "overflow"@,
        "type"@ != "properties"@,
        "value"@ != "description"@,
        "value"@ != "subtype"@,
        "value"@ != "className"@,
        "value"@ != "preview"@,
        "value"@ != "overflow"@,
        "value"@ != "properties"@,
        "description"@ != "subtype"@,
        "description"@ != "className"@,
        "description"@ != "preview"@,
        "description"@ != "overflow"@,
        "description"@ != "properties"@,
        "subtype"@ != "className"@,
        "subtype"@ != "preview"@,
        "subtype"@ != "overflow"@,
        "subtype"@ != "properties"@,
        "className"@ != "preview"@,
        "className"@ != "overflow"@,
        "className"@ != "properties"@,
        "preview"@ != "overflow"@,
        "preview"@ != "properties"@,
        "overflow"@ != "properties"@,
        "boolean"@ != "number"@,
        "boolean"@ != "string"@,
        "boolean"@ != "object"@,
        "number"@ != "string"@,
        "number"@ != "object"@,
        "string"@ != "object"@,
        "Array"@ != "Object"@,
        "null"@ != "array"@,
{
    reveal_strlit("name");
    reveal_strlit("type");
    reveal_strlit("value");
    reveal_strlit("description");
    reveal_strlit("subtype");
    reveal_strlit("className");
    reveal_strlit("preview");
    reveal_strlit("overflow");
    reveal_strlit("properties");
    reveal_strlit("boolean");
    reveal_strlit("number");
    reveal_strlit("string");
    reveal_strlit("object");
    reveal_strlit("Array");
    reveal_strlit("Object");
    reveal_strlit("null");
    reveal_strlit("array");
    assert("name"@.len() == 4);
    assert("type"@.len() == 4);
    assert("value"@.len() == 5);
    assert("description"@.len() == 11);
    assert("subtype"@.len() == 7);
    assert("className"@.len() == 9);
    assert("preview"@.len() == 7);
    assert("overflow"@.len() == 8);
    assert("properties"@.len() == 10);
    assert("boolean"@.len() == 7);
    assert("number"@.len() == 6);
    assert("string"@.len() == 6);
    assert("object"@.len() == 6);
    assert("Array"@.len() == 5);
    assert("Object"@.len() == 6);
    assert("null"@.len() == 4);
    assert("array"@.len() == 5);
    assert("name"@[0] == 'n');
    assert("type"@[0] == 't');
    assert("name"@[1] == 'a');
    assert("null"@[1] == 'u');
    assert("null"@[0] == 'n');
    assert("value"@[0] == 'v');
    assert("Array"@[0] == 'A');
    assert("array"@[0] == 'a');
    assert("subtype"@[0] == 's');
    assert("preview"@[0] == 'p');
    assert("boolean"@[0] == 'b');
    assert("number"@[0] == 'n');
    assert("string"@[0] == 's');
    assert("object"@[0] == 'o');
    assert("Object"@[0] == 'O');
}

} // verus!
