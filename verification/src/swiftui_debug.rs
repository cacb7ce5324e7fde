//! The SwiftUI views below a hosting view, from what SwiftUI's private recorder says of them.
//!
//! The recorder's payload is JSON: a list of nodes, each with properties and children. A node
//! becomes a view under its type name, with its modifiers and what it was made from beside it;
//! views that are mere plumbing are left out.
use crate::decimal::{
    decimal, decimal_reads_back, decimal_value, write_signed, write_unsigned,
};
use crate::domain_dom::{size, total};
use crate::json::{field_items_are_smaller, print_number, trees, whole, Json, JsonView};
use crate::json_text::{canonical, json_of_bytes, json_text, parse_json_deeply_nested, to_text};
use crate::remote_object::{printed, printed_truth, shown_by};
use crate::swiftui_types::{cap_display_length, capped, peeled, unwrap_modified_content};
use crate::text::{
    begins_with, chars_of, contains_text, find_char, has_prefix, holds_text, index_of, join,
    join_texts, joined, joined3, push_text, same_text, slice_text, texts, trim,
};
use crate::view_tree::{
    children_tree, node_trees, opaque_view, push_row, row_texts, whole_frame_view, Frame,
    NodeView, Opacity, ViewNode,
};
use vstd::prelude::*;

verus! {

/// Whether a class name is that of a view that hosts SwiftUI content.
pub open spec fn hosts_swiftui(class_name: Seq<char>) -> bool {
    ||| holds_text(class_name, "HostingView"@)
    ||| holds_text(class_name, "HostingScrollView"@)
    ||| holds_text(class_name, "PlatformViewHost"@)
    ||| holds_text(class_name, "PlatformGroupContainer"@)
}

/// Whether a class name is that of a view that hosts SwiftUI content.
pub fn is_hosting_view_class(class_name: &str) -> (yes: bool)
    ensures
        yes == hosts_swiftui(class_name@),
{
    contains_text(class_name, "HostingView") || contains_text(class_name, "HostingScrollView")
        || contains_text(class_name, "PlatformViewHost") || contains_text(
        class_name,
        "PlatformGroupContainer",
    )
}

/// The one major version of the system that the payload was checked on.
pub const VERIFIED_MAJOR_OS_VERSION: i64 = 26;

/// Whether the payload was checked on a major version of the system.
pub fn is_verified_os_version(major: i64) -> (yes: bool)
    ensures
        yes == (major == VERIFIED_MAJOR_OS_VERSION),
{
    major == VERIFIED_MAJOR_OS_VERSION
}

/// A version number.
pub open spec fn version_text(major: int, minor: int, patch: int) -> Seq<char> {
    decimal(major) + "."@ + decimal(minor) + "."@ + decimal(patch)
}

/// What is said, once, of a system that the payload was not checked on.
pub open spec fn unsupported_text(major: int, minor: int, patch: int) -> Seq<char> {
    "unsupported OS "@ + version_text(major, minor, patch)
        + ", skipping SwiftUI debug capture — has this been verified with the Phase-0 spike test? see swiftui_debug.rs"@
}

/// What to say of a system that the payload was not checked on: nothing after the first time.
pub fn warn_unsupported_os_once(warned: &mut bool, major: i64, minor: i64, patch: i64) -> (warning:
    Option<String>)
    ensures
        *final(warned),
        warning is None <==> *old(warned),
        warning matches Some(text) ==> text@ == unsupported_text(
            major as int,
            minor as int,
            patch as int,
        ),
{
    if *warned {
        return None;
    }
    *warned = true;
    let mut version = joined3(write_signed(major).as_str(), ".", write_signed(minor).as_str());
    version.append(".");
    version.append(write_signed(patch).as_str());
    Some(
        joined3(
            "unsupported OS ",
            version.as_str(),
            ", skipping SwiftUI debug capture — has this been verified with the Phase-0 spike test? see swiftui_debug.rs",
        ),
    )
}

/// Whether to ask a view for its payload.
#[derive(Clone, Copy, Debug, PartialEq, Eq, Structural)]
pub enum HostingGate {
    /// No: nothing is recorded, or the view hosts no SwiftUI content.
    Pass,
    /// No: the payload was not checked on this system.
    Unsupported,
    /// Yes.
    Capture,
}

/// Decides whether to ask a view for its payload. Nothing private is asked of a system that the
/// payload was not checked on.
pub fn hosting_gate(recording: bool, class_name: &str, major: i64) -> (gate: HostingGate)
    ensures
        gate == (if !recording || !hosts_swiftui(class_name@) {
            HostingGate::Pass
        } else if major != VERIFIED_MAJOR_OS_VERSION {
            HostingGate::Unsupported
        } else {
            HostingGate::Capture
        }),
{
    if !recording || !is_hosting_view_class(class_name) {
        HostingGate::Pass
    } else if !is_verified_os_version(major) {
        HostingGate::Unsupported
    } else {
        HostingGate::Capture
    }
}

/// A character that can stand in a file's name, in the place of one that cannot.
pub open spec fn file_char(c: char) -> char {
    if ('a' <= c <= 'z') || ('A' <= c <= 'Z') || ('0' <= c <= '9') {
        c
    } else {
        '_'
    }
}

/// The name of the file that a class's payload is kept in.
pub fn payload_file_name(class_name: &str) -> (name: String)
    ensures
        name@ == Seq::new(class_name@.len(), |i: int| file_char(class_name@[i])) + ".json"@,
{
    let chars = chars_of(class_name);
    let mut name = String::new();
    let ghost goal = Seq::new(class_name@.len(), |i: int| file_char(class_name@[i]));
    let mut i: usize = 0;
    while i < chars.len()
        invariant
            i <= chars.len(),
            chars@ == class_name@,
            goal == Seq::new(class_name@.len(), |i: int| file_char(class_name@[i])),
            name@ == goal.take(i as int),
        decreases chars.len() - i,
    {
        let c = chars[i];
        let kept = if ('a' <= c && c <= 'z') || ('A' <= c && c <= 'Z') || ('0' <= c && c <= '9') {
            c
        } else {
            '_'
        };
        name.push(kept);
        assert(goal.take(i as int).push(goal[i as int]) =~= goal.take(i + 1));
        i = i + 1;
    }
    assert(goal.take(i as int) =~= goal);
    name.append(".json");
    name
}

/// How deep nested attributes are followed.
pub const FLATTEN_DEPTH_LIMIT: usize = 8;

/// How many rows a view has at most, a note about what was left out aside.
pub const FLATTEN_ROW_CAP: usize = 50;

/// How many characters a row's title and value have at most, an ellipsis aside.
pub const FLATTEN_ROW_TEXT_CHAR_LIMIT: usize = 150;

/// How many characters a class name has at most, an ellipsis aside.
pub const MAX_CLASS_NAME_CHARS: usize = 200;

/// What an attribute is called: by its short type name, or its full one, or its value.
pub open spec fn attr_text(attribute: JsonView) -> Option<Seq<char>> {
    match attribute.string_field("readableType"@) {
        Some(text) => Some(text),
        None => match attribute.string_field("type"@) {
            Some(text) => Some(text),
            None => attribute.string_field("value"@),
        },
    }
}

/// How a value is written in a row.
pub open spec fn value_text(value: JsonView) -> Seq<char> {
    match value {
        JsonView::Text(text) => text,
        JsonView::Null => "null"@,
        JsonView::Bool(b) => printed_truth(b),
        JsonView::Number(n) => printed(n),
        _ => json_text(canonical(value)),
    }
}

/// The value of an attribute; null is none.
pub open spec fn attr_value(attribute: JsonView) -> Option<JsonView> {
    match attribute.field("value"@) {
        Some(JsonView::Null) => None,
        other => other,
    }
}

/// The attributes nested in an attribute; an empty list is none.
pub open spec fn attr_parts(attribute: JsonView) -> Option<Seq<JsonView>> {
    match attribute.field("subattributes"@) {
        Some(JsonView::Array(items)) => if items.len() > 0 {
            Some(items)
        } else {
            None
        },
        _ => None,
    }
}

/// Rows of titles and values, and how many attributes were left out.
#[verifier::ext_equal]
pub struct Flat {
    pub rows: Seq<(Seq<char>, Seq<char>)>,
    pub skipped: int,
}

/// One more, up to the greatest `u64`.
pub open spec fn count_up(count: int) -> int {
    if count >= u64::MAX {
        u64::MAX as int
    } else {
        count + 1
    }
}

/// The title of an attribute's row.
pub open spec fn row_title(attribute: JsonView, hint: Option<Seq<char>>) -> Seq<char> {
    capped(
        match hint {
            Some(name) => name,
            None => match attr_text(attribute) {
                Some(text) => text,
                None => "?"@,
            },
        },
        FLATTEN_ROW_TEXT_CHAR_LIMIT as int,
    )
}

/// A row behind the others.
pub open spec fn with_row(flat: Flat, title: Seq<char>, value: Seq<char>) -> Flat {
    Flat {
        rows: flat.rows.push((title, capped(value, FLATTEN_ROW_TEXT_CHAR_LIMIT as int))),
        ..flat
    }
}

/// The rows with those of one attribute: a row with its value; without a value, the rows of the
/// attributes nested in it; without those, a row with its type. An attribute that is nested too
/// deep, or comes when there are rows enough, is left out and counted.
pub open spec fn flat_attribute(
    attribute: JsonView,
    hint: Option<Seq<char>>,
    depth: int,
    limit: int,
    cap: int,
    flat: Flat,
) -> Flat
    decreases attribute, 0nat,
    when true
    via flat_attribute_shrinks
{
    if depth > limit || flat.rows.len() >= cap {
        Flat { skipped: count_up(flat.skipped), ..flat }
    } else {
        match attr_value(attribute) {
            Some(value) => with_row(flat, row_title(attribute, hint), value_text(value)),
            None => match attr_parts(attribute) {
                Some(parts) => flat_list(parts, depth + 1, limit, cap, flat),
                None => match attr_text(attribute) {
                    Some(text) => with_row(flat, row_title(attribute, hint), text),
                    None => flat,
                },
            },
        }
    }
}

/// The rows with those of a list of nested attributes.
pub open spec fn flat_list(
    list: Seq<JsonView>,
    depth: int,
    limit: int,
    cap: int,
    flat: Flat,
) -> Flat
    decreases list, list.len(),
{
    if list.len() == 0 {
        flat
    } else {
        let front = flat_list(list.subrange(0, list.len() - 1), depth, limit, cap, flat);
        let last = list[list.len() - 1];
        flat_attribute(last, last.string_field("name"@), depth, limit, cap, front)
    }
}

#[via_fn]
proof fn flat_attribute_shrinks(
    attribute: JsonView,
    hint: Option<Seq<char>>,
    depth: int,
    limit: int,
    cap: int,
    flat: Flat,
) {
    if attr_parts(attribute) is Some {
        field_items_are_smaller(attribute, "subattributes"@);
    }
}

/// The rows of a node's properties, without the note.
pub open spec fn flat_properties(properties: Seq<JsonView>, limit: int, cap: int) -> Flat
    decreases properties.len(),
{
    if properties.len() == 0 {
        Flat { rows: seq![], skipped: 0 }
    } else {
        let front = flat_properties(properties.drop_last(), limit, cap);
        match properties.last().field("attribute"@) {
            Some(attribute) => flat_attribute(attribute, None, 0, limit, cap, front),
            None => front,
        }
    }
}

/// The rows of a node's properties, with a note where anything was left out.
pub open spec fn style_of(properties: Seq<JsonView>, limit: int, cap: int) -> Seq<
    (Seq<char>, Seq<char>),
> {
    let flat = flat_properties(properties, limit, cap);
    if flat.skipped > 0 {
        flat.rows.push(("…"@, decimal(flat.skipped) + " more (truncated)"@))
    } else {
        flat.rows
    }
}

/// However an attribute is nested, no more than `cap` rows come of it.
pub proof fn flat_attribute_is_bounded(
    attribute: JsonView,
    hint: Option<Seq<char>>,
    depth: int,
    limit: int,
    cap: int,
    flat: Flat,
)
    requires
        flat.rows.len() <= cap,
        0 <= flat.skipped <= u64::MAX,
    ensures
        flat_attribute(attribute, hint, depth, limit, cap, flat).rows.len() <= cap,
        flat.skipped <= flat_attribute(attribute, hint, depth, limit, cap, flat).skipped
            <= u64::MAX,
        flat.rows.is_prefix_of(flat_attribute(attribute, hint, depth, limit, cap, flat).rows),
    decreases attribute, 0nat,
{
    if depth > limit || flat.rows.len() >= cap {
    } else if attr_value(attribute) is None && attr_parts(attribute) is Some {
        field_items_are_smaller(attribute, "subattributes"@);
        flat_list_is_bounded(attr_parts(attribute)->0, depth + 1, limit, cap, flat);
    }
}

proof fn flat_list_is_bounded(list: Seq<JsonView>, depth: int, limit: int, cap: int, flat: Flat)
    requires
        flat.rows.len() <= cap,
        0 <= flat.skipped <= u64::MAX,
    ensures
        flat_list(list, depth, limit, cap, flat).rows.len() <= cap,
        flat.skipped <= flat_list(list, depth, limit, cap, flat).skipped <= u64::MAX,
        flat.rows.is_prefix_of(flat_list(list, depth, limit, cap, flat).rows),
    decreases list, list.len(),
{
    if list.len() > 0 {
        flat_list_is_bounded(list.subrange(0, list.len() - 1), depth, limit, cap, flat);
        let front = flat_list(list.subrange(0, list.len() - 1), depth, limit, cap, flat);
        let last = list[list.len() - 1];
        flat_attribute_is_bounded(last, last.string_field("name"@), depth, limit, cap, front);
    }
}

/// A node has no more than `cap` rows and a note, and the note is there exactly where anything was
/// left out.
pub proof fn style_is_bounded(properties: Seq<JsonView>, limit: int, cap: int)
    requires
        0 <= cap,
    ensures
        style_of(properties, limit, cap).len() == flat_properties(properties, limit, cap).rows.len()
            + if flat_properties(properties, limit, cap).skipped > 0 {
            1int
        } else {
            0
        },
        flat_properties(properties, limit, cap).rows.len() <= cap,
        0 <= flat_properties(properties, limit, cap).skipped <= u64::MAX,
    decreases properties.len(),
{
    if properties.len() > 0 {
        style_is_bounded(properties.drop_last(), limit, cap);
        if let Some(attribute) = properties.last().field("attribute"@) {
            flat_attribute_is_bounded(
                attribute,
                None,
                0,
                limit,
                cap,
                flat_properties(properties.drop_last(), limit, cap),
            );
        }
    }
}

/// Whether rows that were added under a smaller cap are the first of those under a larger one.
pub open spec fn cut_at(cap: int, small: Flat, large: Flat) -> bool {
    small.rows == large.rows.take(
        if large.rows.len() < cap {
            large.rows.len() as int
        } else {
            cap
        },
    )
}

proof fn attribute_is_cut(
    attribute: JsonView,
    hint: Option<Seq<char>>,
    depth: int,
    limit: int,
    caps: (int, int),
    small: Flat,
    large: Flat,
)
    requires
        0 <= caps.0 <= caps.1,
        cut_at(caps.0, small, large),
        large.rows.len() <= caps.1,
        0 <= large.skipped <= u64::MAX,
    ensures
        cut_at(
            caps.0,
            flat_attribute(attribute, hint, depth, limit, caps.0, small),
            flat_attribute(attribute, hint, depth, limit, caps.1, large),
        ),
    decreases attribute, 0nat,
{
    let after = flat_attribute(attribute, hint, depth, limit, caps.1, large);
    flat_attribute_is_bounded(attribute, hint, depth, limit, caps.1, large);
    if depth > limit {
    } else if small.rows.len() >= caps.0 {
        assert(after.rows.take(caps.0) =~= large.rows.take(caps.0));
    } else {
        assert(small.rows =~= large.rows);
        match attr_value(attribute) {
            Some(value) => {
                assert(after.rows.take(after.rows.len() as int) =~= after.rows);
            },
            None => match attr_parts(attribute) {
                Some(parts) => {
                    field_items_are_smaller(attribute, "subattributes"@);
                    list_is_cut(parts, depth + 1, limit, caps, small, large);
                },
                None => {
                    assert(after.rows.take(after.rows.len() as int) =~= after.rows);
                },
            },
        }
    }
}

proof fn list_is_cut(
    list: Seq<JsonView>,
    depth: int,
    limit: int,
    caps: (int, int),
    small: Flat,
    large: Flat,
)
    requires
        0 <= caps.0 <= caps.1,
        cut_at(caps.0, small, large),
        large.rows.len() <= caps.1,
        0 <= large.skipped <= u64::MAX,
    ensures
        cut_at(
            caps.0,
            flat_list(list, depth, limit, caps.0, small),
            flat_list(list, depth, limit, caps.1, large),
        ),
    decreases list, list.len(),
{
    if list.len() > 0 {
        let front = list.subrange(0, list.len() - 1);
        let last = list[list.len() - 1];
        list_is_cut(front, depth, limit, caps, small, large);
        flat_list_is_bounded(front, depth, limit, caps.1, large);
        attribute_is_cut(
            last,
            last.string_field("name"@),
            depth,
            limit,
            caps,
            flat_list(front, depth, limit, caps.0, small),
            flat_list(front, depth, limit, caps.1, large),
        );
    }
}

/// A smaller cap only cuts the last rows off: the rows are the first of those under a larger cap,
/// and a node's style begins with its rows, whatever the cap.
pub proof fn smaller_cap_cuts_the_tail(
    properties: Seq<JsonView>,
    limit: int,
    small: int,
    large: int,
)
    requires
        0 <= small <= large,
    ensures
        cut_at(
            small,
            flat_properties(properties, limit, small),
            flat_properties(properties, limit, large),
        ),
        flat_properties(properties, limit, small).rows.is_prefix_of(
            style_of(properties, limit, small),
        ),
    decreases properties.len(),
{
    if properties.len() > 0 {
        let front = properties.drop_last();
        smaller_cap_cuts_the_tail(front, limit, small, large);
        style_is_bounded(front, limit, large);
        if let Some(attribute) = properties.last().field("attribute"@) {
            attribute_is_cut(
                attribute,
                None,
                0,
                limit,
                (small, large),
                flat_properties(front, limit, small),
                flat_properties(front, limit, large),
            );
        }
    } else {
        let none = Seq::<(Seq<char>, Seq<char>)>::empty();
        assert(none.take(0) =~= none);
    }
}

/// What an attribute is called.
pub fn attribute_text(attribute: &Json) -> (text: Option<String>)
    ensures
        text is Some == attr_text(attribute@) is Some,
        text matches Some(t) ==> attr_text(attribute@) == Some(t@),
{
    match attribute.str_field("readableType") {
        Some(text) => Some(text.to_owned()),
        None => match attribute.str_field("type") {
            Some(text) => Some(text.to_owned()),
            None => match attribute.str_field("value") {
                Some(text) => Some(text.to_owned()),
                None => None,
            },
        },
    }
}

/// How a value is written in a row.
pub fn stringify_attribute_value(value: &Json) -> (text: String)
    ensures
        text@ == value_text(value@),
{
    match value {
        Json::Text(text) => text.clone(),
        Json::Null => "null".to_owned(),
        Json::Bool(b) => if *b {
            "true".to_owned()
        } else {
            "false".to_owned()
        },
        Json::Number(n) => print_number(n),
        other => to_text(other),
    }
}

/// Rows and a count as they stand.
pub open spec fn flat_view(rows: Seq<(String, String)>, skipped: u64) -> Flat {
    Flat { rows: row_texts(rows), skipped: skipped as int }
}

/// A name that may be missing.
pub open spec fn hint_view(hint: Option<&str>) -> Option<Seq<char>> {
    match hint {
        Some(name) => Some(name@),
        None => None,
    }
}

/// How many levels an attribute may still nest: none at all where it is nested too deep itself.
spec fn levels_left(depth: int, limit: int) -> Option<int> {
    if depth > limit {
        None
    } else {
        Some(limit - depth)
    }
}

/// A number of levels that may be missing.
spec fn levels_view(levels: Option<usize>) -> Option<int> {
    match levels {
        Some(n) => Some(n as int),
        None => None,
    }
}

/// Adds the rows of one attribute at `depth`, which may still nest `levels`.
fn flatten_within(
    attribute: &Json,
    name_hint: Option<&str>,
    levels: Option<usize>,
    row_cap: usize,
    rows: &mut Vec<(String, String)>,
    skipped: &mut u64,
    Ghost(depth): Ghost<int>,
    Ghost(limit): Ghost<int>,
)
    requires
        levels_view(levels) == levels_left(depth, limit),
    ensures
        flat_view(final(rows)@, *final(skipped)) == flat_attribute(
            attribute@,
            hint_view(name_hint),
            depth,
            limit,
            row_cap as int,
            flat_view(old(rows)@, *old(skipped)),
        ),
    decreases attribute@,
{
    if levels.is_none() || rows.len() >= row_cap {
        if *skipped < u64::MAX {
            *skipped = *skipped + 1;
        }
        return;
    }
    let left: usize = levels.unwrap();
    let text = attribute_text(attribute);
    let name = match name_hint {
        Some(hint) => hint.to_owned(),
        None => match &text {
            Some(t) => t.clone(),
            None => "?".to_owned(),
        },
    };
    let title = cap_display_length(name.as_str(), FLATTEN_ROW_TEXT_CHAR_LIMIT);
    if let Some(value) = attribute.get("value") {
        if !value.is_null() {
            let shown = stringify_attribute_value(value);
            push_row(
                rows,
                title,
                cap_display_length(shown.as_str(), FLATTEN_ROW_TEXT_CHAR_LIMIT),
            );
            return;
        }
    }
    if let Some(field) = attribute.get("subattributes") {
        if let Some(parts) = field.as_array() {
            if parts.len() > 0 {
                let below: Option<usize> = if left == 0 {
                    None
                } else {
                    Some(left - 1)
                };
                let ghost list = trees(parts@);
                let ghost start = flat_view(rows@, *skipped);
                assert(list.subrange(0, 0).len() == 0);
                proof {
                    field_items_are_smaller(attribute@, "subattributes"@);
                }
                let mut i: usize = 0;
                while i < parts.len()
                    invariant
                        i <= parts.len(),
                        list == trees(parts@),
                        levels_view(below) == levels_left(depth + 1, limit),
                        decreases_to!(attribute@ => list),
                        flat_view(rows@, *skipped) == flat_list(
                            list.subrange(0, i as int),
                            depth + 1,
                            limit,
                            row_cap as int,
                            start,
                        ),
                    decreases parts.len() - i,
                {
                    let ghost here = list.subrange(0, i + 1);
                    assert(here.subrange(0, here.len() - 1) =~= list.subrange(0, i as int));
                    assert(here[here.len() - 1] == parts@[i as int]@);
                    assert(decreases_to!(list => list[i as int]));
                    let name = parts[i].str_field("name");
                    flatten_within(
                        &parts[i],
                        name,
                        below,
                        row_cap,
                        rows,
                        skipped,
                        Ghost(depth + 1),
                        Ghost(limit),
                    );
                    i = i + 1;
                }
                assert(list.subrange(0, i as int) =~= list);
                return;
            }
        }
    }
    if let Some(t) = text {
        push_row(rows, title, cap_display_length(t.as_str(), FLATTEN_ROW_TEXT_CHAR_LIMIT));
    }
}

/// Adds the rows of one attribute.
pub fn flatten_attribute(
    attribute: &Json,
    name_hint: Option<&str>,
    depth: usize,
    depth_limit: usize,
    row_cap: usize,
    rows: &mut Vec<(String, String)>,
    skipped: &mut u64,
)
    ensures
        flat_view(final(rows)@, *final(skipped)) == flat_attribute(
            attribute@,
            hint_view(name_hint),
            depth as int,
            depth_limit as int,
            row_cap as int,
            flat_view(old(rows)@, *old(skipped)),
        ),
{
    let levels: Option<usize> = if depth > depth_limit {
        None
    } else {
        Some(depth_limit - depth)
    };
    flatten_within(
        attribute,
        name_hint,
        levels,
        row_cap,
        rows,
        skipped,
        Ghost(depth as int),
        Ghost(depth_limit as int),
    );
}

/// The rows of a node's properties: what its attributes and those nested in them say. Where
/// anything was left out, a note says how much.
pub fn flatten_node_properties(
    properties: &Vec<Json>,
    depth_limit: usize,
    row_cap: usize,
) -> (rows: Vec<(String, String)>)
    ensures
        row_texts(rows@) == style_of(trees(properties@), depth_limit as int, row_cap as int),
{
    let ghost all = trees(properties@);
    let mut rows: Vec<(String, String)> = Vec::new();
    let mut skipped: u64 = 0;
    assert(row_texts(rows@) =~= seq![]);
    let mut i: usize = 0;
    while i < properties.len()
        invariant
            i <= properties.len(),
            all == trees(properties@),
            flat_view(rows@, skipped) == flat_properties(
                all.take(i as int),
                depth_limit as int,
                row_cap as int,
            ),
        decreases properties.len() - i,
    {
        assert(all.take(i + 1).drop_last() =~= all.take(i as int));
        assert(all.take(i + 1).last() == properties@[i as int]@);
        if let Some(attribute) = properties[i].get("attribute") {
            flatten_attribute(
                attribute,
                None,
                0,
                depth_limit,
                row_cap,
                &mut rows,
                &mut skipped,
            );
        }
        i = i + 1;
    }
    assert(all.take(i as int) =~= all);
    if skipped > 0 {
        let note = joined(write_unsigned(skipped).as_str(), " more (truncated)");
        push_row(&mut rows, "…".to_owned(), note);
    }
    rows
}

/// What becomes of a view.
#[derive(Clone, Copy, Debug, PartialEq, Eq, Structural)]
pub enum FilterDecision {
    /// It stays.
    Keep,
    /// Its children take its place.
    ElideHoist,
    /// It stays without its children.
    ElideSubviews,
}

/// The part of a type name before its arguments.
pub open spec fn bare_name(class_name: Seq<char>) -> Seq<char> {
    class_name.take(index_of(class_name, '<'))
}

/// Whether a type name is that of a view whose children are never content.
pub open spec fn is_primitive(name: Seq<char>) -> bool {
    name == "Color"@ || name == "Spacer"@ || name == "Divider"@ || name == "EmptyView"@
}

/// Whether a type name is that of a view that is never content itself.
pub open spec fn is_wrapper(class_name: Seq<char>) -> bool {
    ||| begins_with(class_name, "_VariadicView.Tree<"@)
    ||| begins_with(class_name, "_VariadicView_Children"@)
    ||| begins_with(class_name, "TupleView<"@)
    ||| begins_with(class_name, "_ConditionalContent<"@)
    ||| begins_with(class_name, "_UnaryViewAdaptor<"@)
    ||| begins_with(class_name, "LazyView<"@)
    ||| begins_with(class_name, "PlaceholderContentView<"@)
    ||| begins_with(class_name, "AnyView"@)
}

/// What becomes of a view. A primitive loses its children. A wrapper gives way to its child, where
/// it has exactly one and no modifiers that would be lost. Every other view stays.
pub open spec fn decision(view: NodeView) -> FilterDecision {
    if is_primitive(bare_name(view.class_name)) && view.children.len() > 0 {
        FilterDecision::ElideSubviews
    } else if view.modifiers.len() == 0 && view.children.len() == 1 && is_wrapper(
        view.class_name,
    ) {
        FilterDecision::ElideHoist
    } else {
        FilterDecision::Keep
    }
}

/// What stands in the place of a view.
pub open spec fn replacement(view: NodeView) -> Seq<NodeView> {
    match decision(view) {
        FilterDecision::Keep => seq![view],
        FilterDecision::ElideHoist => view.children,
        FilterDecision::ElideSubviews => seq![NodeView { children: seq![], ..view }],
    }
}

/// A list of views without the plumbing.
pub open spec fn without_plumbing(list: Seq<NodeView>) -> Seq<NodeView>
    decreases list.len(),
{
    if list.len() == 0 {
        seq![]
    } else {
        replacement(list[0]) + without_plumbing(list.drop_first())
    }
}

/// A list of views without the plumbing, or as it is where nothing is to be left out.
pub open spec fn filtered(list: Seq<NodeView>, disabled: bool) -> Seq<NodeView> {
    if disabled {
        list
    } else {
        without_plumbing(list)
    }
}

/// Leaving out plumbing neither adds nor loses a place: every view stays or is replaced by exactly
/// one other.
pub proof fn filter_keeps_the_count(list: Seq<NodeView>)
    ensures
        without_plumbing(list).len() == list.len(),
    decreases list.len(),
{
    if list.len() > 0 {
        filter_keeps_the_count(list.drop_first());
    }
}

/// A view with modifiers is never lost: it stays, with its modifiers and what it was made from.
pub proof fn modifiers_are_never_lost(view: NodeView)
    requires
        view.modifiers.len() > 0,
    ensures
        replacement(view).len() == 1,
        replacement(view)[0].class_name == view.class_name,
        replacement(view)[0].modifiers == view.modifiers,
        replacement(view)[0].style_rows == view.style_rows,
{
}

fn is_primitive_name(name: &str) -> (yes: bool)
    ensures
        yes == is_primitive(name@),
{
    same_text(name, "Color") || same_text(name, "Spacer") || same_text(name, "Divider")
        || same_text(name, "EmptyView")
}

fn is_wrapper_name(class_name: &str) -> (yes: bool)
    ensures
        yes == is_wrapper(class_name@),
{
    has_prefix(class_name, "_VariadicView.Tree<") || has_prefix(
        class_name,
        "_VariadicView_Children",
    ) || has_prefix(class_name, "TupleView<") || has_prefix(class_name, "_ConditionalContent<")
        || has_prefix(class_name, "_UnaryViewAdaptor<") || has_prefix(class_name, "LazyView<")
        || has_prefix(class_name, "PlaceholderContentView<") || has_prefix(class_name, "AnyView")
}

/// Decides what becomes of a view.
pub fn classify(node: &ViewNode) -> (result: FilterDecision)
    ensures
        result == decision(node@),
{
    broadcast use children_tree;
    let chars = chars_of(node.class_name.as_str());
    let end = find_char(&chars, '<');
    let bare = slice_text(&chars, 0, end);
    assert(bare@ =~= bare_name(node@.class_name));
    assert(texts(node.modifiers@).len() == node.modifiers@.len());
    assert(node_trees(node.children@).len() == node.children@.len());
    if is_primitive_name(bare.as_str()) && node.children.len() > 0 {
        return FilterDecision::ElideSubviews;
    }
    if node.modifiers.len() == 0 && node.children.len() == 1 && is_wrapper_name(
        node.class_name.as_str(),
    ) {
        return FilterDecision::ElideHoist;
    }
    FilterDecision::Keep
}

/// How many nodes were decoded, and what became of the views.
#[derive(Clone, Copy, Debug, PartialEq, Eq, Structural)]
pub struct FilterCounters {
    pub decoded: u64,
    pub kept: u64,
    pub hoisted: u64,
    pub elided_subviews: u64,
}

/// How many nodes are decoded, and what becomes of the views.
#[verifier::ext_equal]
pub struct Tally {
    pub decoded: int,
    pub kept: int,
    pub hoisted: int,
    pub elided_subviews: int,
}

/// Nothing counted.
pub open spec fn no_tally() -> Tally {
    Tally { decoded: 0, kept: 0, hoisted: 0, elided_subviews: 0 }
}

/// Two counts together.
pub open spec fn both(a: Tally, b: Tally) -> Tally {
    Tally {
        decoded: a.decoded + b.decoded,
        kept: a.kept + b.kept,
        hoisted: a.hoisted + b.hoisted,
        elided_subviews: a.elided_subviews + b.elided_subviews,
    }
}

/// A number, or the greatest `u64` where it is greater.
pub open spec fn within(count: int) -> int {
    if count > u64::MAX {
        u64::MAX as int
    } else {
        count
    }
}

/// Counts as counters hold them.
pub open spec fn held(tally: Tally) -> Tally {
    Tally {
        decoded: within(tally.decoded),
        kept: within(tally.kept),
        hoisted: within(tally.hoisted),
        elided_subviews: within(tally.elided_subviews),
    }
}

impl View for FilterCounters {
    type V = Tally;

    open spec fn view(&self) -> Tally {
        Tally {
            decoded: self.decoded as int,
            kept: self.kept as int,
            hoisted: self.hoisted as int,
            elided_subviews: self.elided_subviews as int,
        }
    }
}

/// One view, by what becomes of it.
pub open spec fn decision_tally(view: NodeView) -> Tally {
    match decision(view) {
        FilterDecision::Keep => Tally { kept: 1, ..no_tally() },
        FilterDecision::ElideHoist => Tally { hoisted: 1, ..no_tally() },
        FilterDecision::ElideSubviews => Tally { elided_subviews: 1, ..no_tally() },
    }
}

/// The views of a list, by what becomes of them.
pub open spec fn filter_tally(list: Seq<NodeView>, disabled: bool) -> Tally
    decreases list.len(),
{
    if disabled || list.len() == 0 {
        no_tally()
    } else {
        both(decision_tally(list[0]), filter_tally(list.drop_first(), disabled))
    }
}

fn one_more(count: u64) -> (more: u64)
    ensures
        more == within(count + 1),
{
    if count < u64::MAX {
        count + 1
    } else {
        count
    }
}

/// Starts counting over.
pub fn reset_filter_counters(counters: &mut FilterCounters)
    ensures
        final(counters)@ == no_tally(),
{
    *counters = FilterCounters { decoded: 0, kept: 0, hoisted: 0, elided_subviews: 0 };
}

/// Counts a decoded node.
pub fn count_decoded_node(counters: &mut FilterCounters)
    ensures
        final(counters)@ == held(both(old(counters)@, Tally { decoded: 1, ..no_tally() })),
{
    counters.decoded = one_more(counters.decoded);
}

fn count_decision(counters: &mut FilterCounters, view: &ViewNode) -> (result: FilterDecision)
    ensures
        result == decision(view@),
        final(counters)@ == held(both(old(counters)@, decision_tally(view@))),
{
    let result = classify(view);
    match result {
        FilterDecision::Keep => counters.kept = one_more(counters.kept),
        FilterDecision::ElideHoist => counters.hoisted = one_more(counters.hoisted),
        FilterDecision::ElideSubviews => counters.elided_subviews = one_more(
            counters.elided_subviews,
        ),
    }
    result
}

/// What to log of the counts: nothing where nothing was left out.
pub fn log_filter_summary(counters: &FilterCounters) -> (summary: Option<FilterCounters>)
    ensures
        summary == (if counters.hoisted == 0 && counters.elided_subviews == 0 {
            None
        } else {
            Some(*counters)
        }),
{
    if counters.hoisted == 0 && counters.elided_subviews == 0 {
        None
    } else {
        Some(*counters)
    }
}

/// Leaves the plumbing out of a list of views, and counts what became of each.
pub fn apply_view_filter_with(
    children: Vec<ViewNode>,
    disabled: bool,
    counters: &mut FilterCounters,
) -> (result: Vec<ViewNode>)
    ensures
        node_trees(result@) == filtered(node_trees(children@), disabled),
        final(counters)@ == held(
            both(old(counters)@, filter_tally(node_trees(children@), disabled)),
        ),
{
    broadcast use children_tree;
    if disabled {
        return children;
    }
    let ghost all = node_trees(children@);
    let ghost begun = counters@;
    let mut rest = children;
    let mut result: Vec<ViewNode> = Vec::new();
    assert(node_trees(result@) + without_plumbing(all) =~= without_plumbing(all));
    assert(held(both(begun, filter_tally(all, false))) == held(
        both(counters@, filter_tally(all, false)),
    ));
    while rest.len() > 0
        invariant
            node_trees(result@) + without_plumbing(node_trees(rest@)) == without_plumbing(all),
            held(both(begun, filter_tally(all, false))) == held(
                both(counters@, filter_tally(node_trees(rest@), false)),
            ),
        decreases rest.len(),
    {
        let ghost before = node_trees(rest@);
        let ghost done = node_trees(result@);
        let child = rest.remove(0);
        assert(before.drop_first() =~= node_trees(rest@));
        assert(before[0] == child@);
        proof {
            filter_tally_counts(node_trees(rest@), false);
        }
        match count_decision(counters, &child) {
            FilterDecision::Keep => {
                result.push(child);
                assert(node_trees(result@) =~= done + seq![child@]);
            },
            FilterDecision::ElideHoist => {
                let mut inner = child.children;
                assert(child@.children == node_trees(inner@));
                let ghost hoisted = node_trees(inner@);
                result.append(&mut inner);
                assert(node_trees(result@) =~= done + hoisted);
            },
            FilterDecision::ElideSubviews => {
                let mut kept = child;
                kept.children = Vec::new();
                assert(kept@.children =~= seq![]);
                assert(kept@ == NodeView { children: seq![], ..child@ });
                result.push(kept);
                assert(node_trees(result@) =~= done + seq![kept@]);
            },
        }
        assert(node_trees(result@) =~= done + replacement(child@));
        assert(done + (replacement(child@) + without_plumbing(node_trees(rest@))) =~= (done
            + replacement(child@)) + without_plumbing(node_trees(rest@)));
    }
    assert(node_trees(rest@) =~= seq![]);
    assert(node_trees(result@) + Seq::<NodeView>::empty() =~= node_trees(result@));
    result
}

proof fn filter_tally_counts(list: Seq<NodeView>, disabled: bool)
    ensures
        filter_tally(list, disabled).decoded == 0,
        filter_tally(list, disabled).kept >= 0,
        filter_tally(list, disabled).hoisted >= 0,
        filter_tally(list, disabled).elided_subviews >= 0,
    decreases list.len(),
{
    if list.len() > 0 {
        filter_tally_counts(list.drop_first(), disabled);
    }
}

/// What an attribute with no name stands for in a list of modifiers.
pub open spec fn modifier_text(attribute: JsonView) -> Seq<char> {
    match attr_text(attribute) {
        Some(text) => text,
        None => "<unknown modifier>"@,
    }
}

/// The type name and the modifiers among a node's properties: the last attribute flagged as a view
/// type that has a name, and every attribute flagged as a modifier.
pub open spec fn type_and_modifiers(properties: Seq<JsonView>) -> (
    Option<Seq<char>>,
    Seq<Seq<char>>,
)
    decreases properties.len(),
{
    if properties.len() == 0 {
        (None, seq![])
    } else {
        let (name, modifiers) = type_and_modifiers(properties.drop_last());
        match properties.last().field("attribute"@) {
            None => (name, modifiers),
            Some(attribute) => match attribute.field("flags"@) {
                None => (name, modifiers),
                Some(flags) => if flags.signed() == Some(VIEW_TYPE as int) {
                    match attr_text(attribute) {
                        Some(text) => (Some(text), modifiers),
                        None => (name, modifiers),
                    }
                } else if flags.signed() == Some(MODIFIER as int) {
                    (name, modifiers.push(modifier_text(attribute)))
                } else {
                    (name, modifiers)
                },
            },
        }
    }
}

/// The flag of a view's type.
pub const VIEW_TYPE: i64 = 1;

/// The flag of a modifier.
pub const MODIFIER: i64 = 2;

/// The class name and the modifiers of a node: its type without the modifiers nested in it, which
/// stand behind its own. A node without a type is named after its modifiers; without modifiers
/// either it is nothing.
pub open spec fn label(properties: Seq<JsonView>) -> Option<(Seq<char>, Seq<Seq<char>>)> {
    let (name, modifiers) = type_and_modifiers(properties);
    match name {
        Some(text) => {
            let (base, nested) = peeled(trim(text));
            Some((base, modifiers + nested))
        },
        None => if modifiers.len() > 0 {
            Some(("<modifier: "@ + join(modifiers, ", "@) + ">"@, seq![]))
        } else {
            None
        },
    }
}

/// The children that a node lists, where it lists any.
pub open spec fn listed_children(node: JsonView) -> Option<Seq<JsonView>> {
    match node.field("children"@) {
        Some(value) => value.items(),
        None => None,
    }
}

/// The properties that a node lists.
pub open spec fn listed_properties(node: JsonView) -> Option<Seq<JsonView>> {
    match node.field("properties"@) {
        Some(value) => value.items(),
        None => None,
    }
}

/// The view of a node, where it has one. Its children are those of the node's children that are
/// views, without the plumbing. Where it lies is not known.
pub open spec fn decoded(node: JsonView, disabled: bool) -> Option<NodeView>
    decreases node, 0nat,
    when true
    via decoded_shrinks
{
    match listed_properties(node) {
        None => None,
        Some(properties) => match label(properties) {
            None => None,
            Some((name, modifiers)) => Some(
                NodeView {
                    class_name: capped(name, MAX_CLASS_NAME_CHARS as int),
                    frame: whole_frame_view(0, 0, 0, 0),
                    is_hidden: false,
                    alpha: opaque_view(),
                    tag: 0,
                    accessibility_id: None,
                    modifiers,
                    style_rows: style_of(
                        properties,
                        FLATTEN_DEPTH_LIMIT as int,
                        FLATTEN_ROW_CAP as int,
                    ),
                    children: match listed_children(node) {
                        Some(list) => filtered(decoded_list(list, disabled), disabled),
                        None => seq![],
                    },
                },
            ),
        },
    }
}

/// The views of a list of nodes.
pub open spec fn decoded_list(list: Seq<JsonView>, disabled: bool) -> Seq<NodeView>
    decreases list, list.len(),
{
    if list.len() == 0 {
        seq![]
    } else {
        let front = decoded_list(list.subrange(0, list.len() - 1), disabled);
        match decoded(list[list.len() - 1], disabled) {
            Some(view) => front.push(view),
            None => front,
        }
    }
}

#[via_fn]
proof fn decoded_shrinks(node: JsonView, disabled: bool) {
    if listed_children(node) is Some {
        field_items_are_smaller(node, "children"@);
    }
}

/// What is counted while a node is decoded.
pub open spec fn decode_tally(node: JsonView, disabled: bool) -> Tally
    decreases node, 0nat,
    when true
    via decode_tally_shrinks
{
    if decoded(node, disabled) is None {
        no_tally()
    } else {
        both(
            match listed_children(node) {
                Some(list) => both(
                    list_tally(list, disabled),
                    filter_tally(decoded_list(list, disabled), disabled),
                ),
                None => no_tally(),
            },
            Tally { decoded: 1, ..no_tally() },
        )
    }
}

/// What is counted while a list of nodes is decoded.
pub open spec fn list_tally(list: Seq<JsonView>, disabled: bool) -> Tally
    decreases list, list.len(),
{
    if list.len() == 0 {
        no_tally()
    } else {
        both(
            list_tally(list.subrange(0, list.len() - 1), disabled),
            decode_tally(list[list.len() - 1], disabled),
        )
    }
}

#[via_fn]
proof fn decode_tally_shrinks(node: JsonView, disabled: bool) {
    if listed_children(node) is Some {
        field_items_are_smaller(node, "children"@);
    }
}

/// No count is negative.
pub open spec fn counts(tally: Tally) -> bool {
    tally.decoded >= 0 && tally.kept >= 0 && tally.hoisted >= 0 && tally.elided_subviews >= 0
}

proof fn decode_tally_counts(node: JsonView, disabled: bool)
    ensures
        counts(decode_tally(node, disabled)),
    decreases node, 0nat,
{
    if let Some(list) = listed_children(node) {
        field_items_are_smaller(node, "children"@);
        list_tally_counts(list, disabled);
        filter_tally_counts(decoded_list(list, disabled), disabled);
    }
}

proof fn list_tally_counts(list: Seq<JsonView>, disabled: bool)
    ensures
        counts(list_tally(list, disabled)),
    decreases list, list.len(),
{
    if list.len() > 0 {
        list_tally_counts(list.subrange(0, list.len() - 1), disabled);
        decode_tally_counts(list[list.len() - 1], disabled);
    }
}

/// Counting on from a held count is holding the counts together.
proof fn held_adds(a: Tally, b: Tally, c: Tally)
    requires
        counts(a),
        counts(b),
        counts(c),
    ensures
        held(both(held(both(a, b)), c)) == held(both(a, both(b, c))),
{
}

fn read_properties(properties: &Vec<Json>) -> (result: (Option<String>, Vec<String>))
    ensures
        type_and_modifiers(trees(properties@)) == (
            crate::view_tree::optional_text(result.0),
            texts(result.1@),
        ),
{
    let ghost all = trees(properties@);
    let mut name: Option<String> = None;
    let mut modifiers: Vec<String> = Vec::new();
    assert(texts(modifiers@) =~= seq![]);
    let mut i: usize = 0;
    while i < properties.len()
        invariant
            i <= properties.len(),
            all == trees(properties@),
            type_and_modifiers(all.take(i as int)) == (
                crate::view_tree::optional_text(name),
                texts(modifiers@),
            ),
        decreases properties.len() - i,
    {
        assert(all.take(i + 1).drop_last() =~= all.take(i as int));
        assert(all.take(i + 1).last() == properties@[i as int]@);
        if let Some(attribute) = properties[i].get("attribute") {
            if let Some(flags) = attribute.get("flags") {
                if let Some(flag) = flags.as_i64() {
                    let text = attribute_text(attribute);
                    if flag == VIEW_TYPE {
                        if text.is_some() {
                            name = text;
                        }
                    } else if flag == MODIFIER {
                        match text {
                            Some(t) => push_text(&mut modifiers, t),
                            None => push_text(&mut modifiers, "<unknown modifier>".to_owned()),
                        }
                    }
                }
            }
        }
        i = i + 1;
    }
    assert(all.take(i as int) =~= all);
    (name, modifiers)
}

fn make_label(properties: &Vec<Json>) -> (result: Option<(String, Vec<String>)>)
    ensures
        result is Some == label(trees(properties@)) is Some,
        result matches Some((name, modifiers)) ==> label(trees(properties@)) == Some(
            (name@, texts(modifiers@)),
        ),
{
    let (name, modifiers) = read_properties(properties);
    assert(texts(modifiers@).len() == modifiers@.len());
    match name {
        Some(text) => {
            let mut modifiers = modifiers;
            let (base, nested) = unwrap_modified_content(text.as_str());
            let mut nested = nested;
            let ghost own = texts(modifiers@);
            let ghost inner = texts(nested@);
            modifiers.append(&mut nested);
            assert(texts(modifiers@) =~= own + inner);
            Some((base, modifiers))
        },
        None => if modifiers.len() > 0 {
            let none: Vec<String> = Vec::new();
            assert(texts(none@) =~= seq![]);
            Some((joined3("<modifier: ", join_texts(&modifiers, ", ").as_str(), ">"), none))
        } else {
            None
        },
    }
}

/// Decodes a node, and the nodes below it.
pub fn decode_json_node(value: &Json, disabled: bool, counters: &mut FilterCounters) -> (view:
    Option<ViewNode>)
    ensures
        view is Some == decoded(value@, disabled) is Some,
        view matches Some(v) ==> decoded(value@, disabled) == Some(v@),
        final(counters)@ == held(both(old(counters)@, decode_tally(value@, disabled))),
    decreases value@, 0nat,
{
    broadcast use children_tree;
    let ghost begun = counters@;
    let properties = match value.get("properties") {
        Some(field) => match field.as_array() {
            Some(list) => list,
            None => return None,
        },
        None => return None,
    };
    let (name, modifiers) = match make_label(properties) {
        Some(label) => label,
        None => return None,
    };
    let style_rows = flatten_node_properties(properties, FLATTEN_DEPTH_LIMIT, FLATTEN_ROW_CAP);
    let mut raw_children: Vec<ViewNode> = Vec::new();
    assert(node_trees(raw_children@) =~= seq![]);
    let ghost mut below = no_tally();
    if let Some(field) = value.get("children") {
        if let Some(list) = field.as_array() {
            proof {
                field_items_are_smaller(value@, "children"@);
                below = list_tally(trees(list@), disabled);
                list_tally_counts(trees(list@), disabled);
            }
            raw_children = decode_list(list, disabled, counters);
        }
    }
    let ghost raw = node_trees(raw_children@);
    let children = apply_view_filter_with(raw_children, disabled, counters);
    proof {
        filter_tally_counts(raw, disabled);
        held_adds(begun, below, filter_tally(raw, disabled));
        held_adds(
            begun,
            both(below, filter_tally(raw, disabled)),
            Tally { decoded: 1, ..no_tally() },
        );
    }
    count_decoded_node(counters);
    let view = ViewNode {
        class_name: cap_display_length(name.as_str(), MAX_CLASS_NAME_CHARS),
        frame: Frame::of_whole(0, 0, 0, 0),
        is_hidden: false,
        alpha: Opacity::opaque(),
        tag: 0,
        accessibility_id: None,
        modifiers,
        style_rows,
        children,
    };
    assert(view@ == decoded(value@, disabled)->0);
    Some(view)
}

/// Decodes a list of nodes; those that are no views are passed over.
fn decode_list(list: &Vec<Json>, disabled: bool, counters: &mut FilterCounters) -> (views: Vec<
    ViewNode,
>)
    ensures
        node_trees(views@) == decoded_list(trees(list@), disabled),
        final(counters)@ == held(both(old(counters)@, list_tally(trees(list@), disabled))),
    decreases trees(list@), list@.len(),
{
    let ghost all = trees(list@);
    let ghost begun = counters@;
    let mut views: Vec<ViewNode> = Vec::new();
    assert(node_trees(views@) =~= seq![]);
    assert(all.subrange(0, 0).len() == 0);
    let mut i: usize = 0;
    while i < list.len()
        invariant
            i <= list.len(),
            all == trees(list@),
            counts(begun),
            node_trees(views@) == decoded_list(all.subrange(0, i as int), disabled),
            counters@ == held(both(begun, list_tally(all.subrange(0, i as int), disabled))),
        decreases list.len() - i,
    {
        let ghost here = all.subrange(0, i + 1);
        let ghost before = node_trees(views@);
        assert(here.subrange(0, here.len() - 1) =~= all.subrange(0, i as int));
        assert(here[here.len() - 1] == list@[i as int]@);
        assert(decreases_to!(all => all[i as int]));
        proof {
            list_tally_counts(all.subrange(0, i as int), disabled);
            decode_tally_counts(all[i as int], disabled);
            held_adds(
                begun,
                list_tally(all.subrange(0, i as int), disabled),
                decode_tally(all[i as int], disabled),
            );
        }
        if let Some(view) = decode_json_node(&list[i], disabled, counters) {
            views.push(view);
            assert(node_trees(views@) =~= before.push(view@));
        }
        i = i + 1;
    }
    assert(all.subrange(0, i as int) =~= all);
    views
}

/// The views of a payload: those of its nodes, where it is a list with any.
pub open spec fn payload_views(value: JsonView, disabled: bool) -> Option<Seq<NodeView>> {
    match value {
        JsonView::Array(list) => if decoded_list(list, disabled).len() > 0 {
            Some(decoded_list(list, disabled))
        } else {
            None
        },
        _ => None,
    }
}

/// Decodes a payload that was read as JSON. Counting starts over.
pub fn decode_json_nodes(value: &Json, disabled: bool, counters: &mut FilterCounters) -> (views:
    Option<Vec<ViewNode>>)
    ensures
        views is Some == payload_views(value@, disabled) is Some,
        views matches Some(list) ==> payload_views(value@, disabled) == Some(node_trees(list@)),
        final(counters)@ == (match value@ {
            JsonView::Array(list) => held(list_tally(list, disabled)),
            _ => no_tally(),
        }),
{
    reset_filter_counters(counters);
    let list = match value.as_array() {
        Some(list) => list,
        None => return None,
    };
    assert(both(no_tally(), list_tally(trees(list@), disabled)) == list_tally(
        trees(list@),
        disabled,
    ));
    let views = decode_list(list, disabled, counters);
    assert(node_trees(views@).len() == views@.len());
    if views.len() == 0 {
        None
    } else {
        Some(views)
    }
}

/// What the counters hold after a payload was decoded: what was counted in it, or what they held
/// before where it is no JSON or there is none.
pub open spec fn counted(payload: Option<Seq<u8>>, disabled: bool, before: Tally) -> Tally {
    match payload {
        Some(bytes) => match json_of_bytes(bytes) {
            Some(JsonView::Array(list)) => held(list_tally(list, disabled)),
            Some(_) => no_tally(),
            None => before,
        },
        None => before,
    }
}

/// Decodes a payload: JSON, or nothing.
pub fn decode_payload(bytes: &[u8], disabled: bool, counters: &mut FilterCounters) -> (views: Option<
    Vec<ViewNode>,
>)
    ensures
        views is Some == (json_of_bytes(bytes@) matches Some(value) && payload_views(
            value,
            disabled,
        ) is Some),
        views matches Some(list) ==> payload_views(json_of_bytes(bytes@)->0, disabled) == Some(
            node_trees(list@),
        ),
        final(counters)@ == counted(Some(bytes@), disabled, old(counters)@),
{
    match parse_json_deeply_nested(bytes) {
        Some(value) => decode_json_nodes(&value, disabled, counters),
        None => None,
    }
}

/// The views to put below a hosting view, from the payload that was captured: none where none was
/// captured or it could not be decoded.
pub open spec fn dumped(payload: Option<Seq<u8>>, disabled: bool) -> Seq<NodeView> {
    match payload {
        Some(bytes) => match json_of_bytes(bytes) {
            Some(value) => match payload_views(value, disabled) {
                Some(list) => list,
                None => seq![],
            },
            None => seq![],
        },
        None => seq![],
    }
}

/// The bytes of a payload, where one was captured.
pub open spec fn payload_bytes(payload: Option<Vec<u8>>) -> Option<Seq<u8>> {
    match payload {
        Some(bytes) => Some(bytes@),
        None => None,
    }
}

/// The views to put below a hosting view, from the payload that was captured: none where none was
/// captured or it could not be decoded, so that the hosting view is shown as it is.
pub fn dump_hosting_view(
    payload: &Option<Vec<u8>>,
    disabled: bool,
    counters: &mut FilterCounters,
) -> (views: Vec<ViewNode>)
    ensures
        node_trees(views@) == dumped(payload_bytes(*payload), disabled),
        final(counters)@ == counted(payload_bytes(*payload), disabled, old(counters)@),
{
    let nothing: Vec<ViewNode> = Vec::new();
    assert(node_trees(nothing@) =~= seq![]);
    match payload {
        Some(bytes) => match decode_payload(bytes.as_slice(), disabled, counters) {
            Some(views) => views,
            None => nothing,
        },
        None => nothing,
    }
}

/// Whether a view and every view below it has a short class name and a bounded number of rows.
pub open spec fn bounded(view: NodeView) -> bool
    decreases view, 0nat,
{
    &&& view.class_name.len() <= MAX_CLASS_NAME_CHARS + 1
    &&& view.style_rows.len() <= FLATTEN_ROW_CAP + 1
    &&& all_bounded(view.children)
}

/// Whether this holds of every view of a list.
pub open spec fn all_bounded(list: Seq<NodeView>) -> bool
    decreases list, list.len(),
{
    list.len() > 0 ==> all_bounded(list.subrange(0, list.len() - 1)) && bounded(
        list[list.len() - 1],
    )
}

/// Whether leaving out plumbing would change no view below a view.
pub open spec fn settled(view: NodeView) -> bool
    decreases view, 0nat,
{
    all_settled(view.children)
}

/// Whether leaving out plumbing would change no view of a list, nor any below them.
pub open spec fn all_settled(list: Seq<NodeView>) -> bool
    decreases list, list.len(),
{
    list.len() > 0 ==> {
        &&& all_settled(list.subrange(0, list.len() - 1))
        &&& decision(list[list.len() - 1]) == FilterDecision::Keep
        &&& settled(list[list.len() - 1])
    }
}

proof fn bounded_one_by_one(list: Seq<NodeView>)
    ensures
        all_bounded(list) == forall|i: int| 0 <= i < list.len() ==> bounded(#[trigger] list[i]),
    decreases list.len(),
{
    if list.len() > 0 {
        let front = list.subrange(0, list.len() - 1);
        bounded_one_by_one(front);
        assert(forall|i: int| 0 <= i < front.len() ==> front[i] == list[i]);
        if all_bounded(list) {
            assert forall|i: int| 0 <= i < list.len() implies bounded(#[trigger] list[i]) by {
                if i < front.len() {
                    assert(bounded(front[i]));
                }
            }
        }
        if forall|i: int| 0 <= i < list.len() ==> bounded(#[trigger] list[i]) {
            assert forall|i: int| 0 <= i < front.len() implies bounded(#[trigger] front[i]) by {
                assert(bounded(list[i]));
            }
            assert(bounded(list[list.len() - 1]));
        }
    }
}

/// Whether leaving out plumbing would change neither a view nor any below it.
spec fn stays(view: NodeView) -> bool {
    decision(view) == FilterDecision::Keep && settled(view)
}

proof fn settled_one_by_one(list: Seq<NodeView>)
    ensures
        all_settled(list) == forall|i: int| 0 <= i < list.len() ==> stays(#[trigger] list[i]),
    decreases list.len(),
{
    if list.len() > 0 {
        let front = list.subrange(0, list.len() - 1);
        settled_one_by_one(front);
        assert(forall|i: int| 0 <= i < front.len() ==> front[i] == list[i]);
        if all_settled(list) {
            assert forall|i: int| 0 <= i < list.len() implies stays(#[trigger] list[i]) by {
                if i < front.len() {
                    assert(stays(front[i]));
                }
            }
        }
        if forall|i: int| 0 <= i < list.len() ==> stays(#[trigger] list[i]) {
            assert forall|i: int| 0 <= i < front.len() implies stays(#[trigger] front[i]) by {
                assert(stays(list[i]));
            }
            assert(stays(list[list.len() - 1]));
        }
    }
}

proof fn filter_keeps_bounds(list: Seq<NodeView>, disabled: bool)
    requires
        forall|i: int| 0 <= i < list.len() ==> bounded(#[trigger] list[i]),
    ensures
        forall|i: int|
            0 <= i < filtered(list, disabled).len() ==> bounded(
                #[trigger] filtered(list, disabled)[i],
            ),
    decreases list.len(),
{
    if !disabled && list.len() > 0 {
        let rest = list.drop_first();
        assert forall|i: int| 0 <= i < rest.len() implies bounded(#[trigger] rest[i]) by {
            assert(rest[i] == list[i + 1]);
        }
        filter_keeps_bounds(rest, disabled);
        let first = replacement(list[0]);
        bounded_one_by_one(list[0].children);
        assert forall|i: int| 0 <= i < first.len() implies bounded(#[trigger] first[i]) by {
            assert(bounded(list[0]));
        }
        let all = filtered(list, disabled);
        assert forall|i: int| 0 <= i < all.len() implies bounded(#[trigger] all[i]) by {
            if i < first.len() {
                assert(all[i] == first[i]);
            } else {
                assert(all[i] == filtered(rest, disabled)[i - first.len()]);
            }
        }
    }
}

proof fn filter_settles(list: Seq<NodeView>)
    requires
        forall|i: int| 0 <= i < list.len() ==> settled(#[trigger] list[i]),
    ensures
        forall|i: int|
            0 <= i < without_plumbing(list).len() ==> stays(#[trigger] without_plumbing(list)[i]),
    decreases list.len(),
{
    if list.len() > 0 {
        let rest = list.drop_first();
        assert forall|i: int| 0 <= i < rest.len() implies settled(#[trigger] rest[i]) by {
            assert(rest[i] == list[i + 1]);
        }
        filter_settles(rest);
        let first = replacement(list[0]);
        settled_one_by_one(list[0].children);
        assert forall|i: int| 0 <= i < first.len() implies stays(#[trigger] first[i]) by {
            assert(settled(list[0]));
        }
        let all = without_plumbing(list);
        assert forall|i: int| 0 <= i < all.len() implies stays(#[trigger] all[i]) by {
            if i < first.len() {
                assert(all[i] == first[i]);
            } else {
                assert(all[i] == without_plumbing(rest)[i - first.len()]);
            }
        }
    }
}

/// Every view of a node keeps its class name short and has a bounded number of rows, whatever the
/// payload says.
pub proof fn decoded_view_is_bounded(node: JsonView, disabled: bool)
    ensures
        decoded(node, disabled) matches Some(view) ==> bounded(view),
    decreases node, 0nat,
{
    if let Some(view) = decoded(node, disabled) {
        let properties = listed_properties(node)->0;
        style_is_bounded(properties, FLATTEN_DEPTH_LIMIT as int, FLATTEN_ROW_CAP as int);
        if let Some(list) = listed_children(node) {
            field_items_are_smaller(node, "children"@);
            decoded_list_is_bounded(list, disabled);
            filter_keeps_bounds(decoded_list(list, disabled), disabled);
        }
        bounded_one_by_one(view.children);
    }
}

proof fn decoded_list_is_bounded(list: Seq<JsonView>, disabled: bool)
    ensures
        forall|i: int|
            0 <= i < decoded_list(list, disabled).len() ==> bounded(
                #[trigger] decoded_list(list, disabled)[i],
            ),
    decreases list, list.len(),
{
    if list.len() > 0 {
        let front = list.subrange(0, list.len() - 1);
        decoded_list_is_bounded(front, disabled);
        decoded_view_is_bounded(list[list.len() - 1], disabled);
        let all = decoded_list(list, disabled);
        assert forall|i: int| 0 <= i < all.len() implies bounded(#[trigger] all[i]) by {
            if i < decoded_list(front, disabled).len() {
                assert(all[i] == decoded_list(front, disabled)[i]);
            }
        }
    }
}

/// Below the view of a node there is no plumbing left.
pub proof fn decoded_view_is_settled(node: JsonView)
    ensures
        decoded(node, false) matches Some(view) ==> settled(view),
    decreases node, 0nat,
{
    if let Some(view) = decoded(node, false) {
        if let Some(list) = listed_children(node) {
            field_items_are_smaller(node, "children"@);
            decoded_list_is_settled(list);
            filter_settles(decoded_list(list, false));
        }
        settled_one_by_one(view.children);
    }
}

proof fn decoded_list_is_settled(list: Seq<JsonView>)
    ensures
        forall|i: int|
            0 <= i < decoded_list(list, false).len() ==> settled(
                #[trigger] decoded_list(list, false)[i],
            ),
    decreases list, list.len(),
{
    if list.len() > 0 {
        let front = list.subrange(0, list.len() - 1);
        decoded_list_is_settled(front);
        decoded_view_is_settled(list[list.len() - 1]);
        let all = decoded_list(list, false);
        assert forall|i: int| 0 <= i < all.len() implies settled(#[trigger] all[i]) by {
            if i < decoded_list(front, false).len() {
                assert(all[i] == decoded_list(front, false)[i]);
            }
        }
    }
}

/// What an attribute is called: by its short type name where it has one, else by its full one, else
/// by its value where that is a text. A modifier that is called nothing is still listed.
pub proof fn short_names_come_first(attribute: JsonView)
    ensures
        attribute.string_field("readableType"@) matches Some(text) ==> attr_text(attribute) == Some(
            text,
        ),
        attribute.string_field("readableType"@) is None ==> (attribute.string_field(
            "type"@,
        ) matches Some(text) ==> attr_text(attribute) == Some(text)),
        attribute.string_field("readableType"@) is None && attribute.string_field("type"@) is None
            ==> attr_text(attribute) == attribute.string_field("value"@),
        attr_text(attribute) matches Some(text) ==> modifier_text(attribute) == text,
        attr_text(attribute) is None ==> modifier_text(attribute) == "<unknown modifier>"@,
{
}

/// The attributes of a node's properties that bear a flag, in their order.
pub open spec fn flagged(properties: Seq<JsonView>, flag: int) -> Seq<JsonView>
    decreases properties.len(),
{
    if properties.len() == 0 {
        seq![]
    } else {
        let front = flagged(properties.drop_last(), flag);
        match properties.last().field("attribute"@) {
            Some(attribute) => if attribute.field("flags"@) == Some(whole(flag)) {
                front.push(attribute)
            } else {
                front
            },
            None => front,
        }
    }
}

/// What the last attribute of a list is called that is called anything.
pub open spec fn last_name(list: Seq<JsonView>) -> Option<Seq<char>>
    decreases list.len(),
{
    if list.len() == 0 {
        None
    } else if attr_text(list.last()) is Some {
        attr_text(list.last())
    } else {
        last_name(list.drop_last())
    }
}

proof fn flags_part_properties(properties: Seq<JsonView>)
    ensures
        type_and_modifiers(properties).0 == last_name(flagged(properties, 1)),
        type_and_modifiers(properties).1.len() == flagged(properties, 2).len(),
        forall|i: int|
            0 <= i < flagged(properties, 2).len() ==> #[trigger] type_and_modifiers(properties).1[i]
                == modifier_text(flagged(properties, 2)[i]),
    decreases properties.len(),
{
    if properties.len() > 0 {
        let front = properties.drop_last();
        flags_part_properties(front);
        if let Some(attribute) = properties.last().field("attribute"@) {
            if attribute.field("flags"@) == Some(whole(1)) {
                let list = flagged(front, 1).push(attribute);
                assert(list.drop_last() =~= flagged(front, 1));
            }
        }
    }
}

/// A node is shown under its type, without the modifiers that the type nests. Its modifiers are
/// every attribute flagged as one, in their order, and behind them those that the type nests; none
/// is lost. Without a type it is shown under its modifiers, and without those it is not shown.
pub proof fn modifiers_stand_in_turn(node: JsonView, disabled: bool)
    ensures
        node.field("properties"@) matches Some(JsonView::Array(properties)) ==> {
            let own = flagged(properties, 2);
            match last_name(flagged(properties, 1)) {
                Some(name) => {
                    let (base, nested) = peeled(trim(name));
                    decoded(node, disabled) matches Some(view) && view.class_name == capped(
                        base,
                        200,
                    ) && view.modifiers.len() == own.len() + nested.len() && (forall|i: int|
                        0 <= i < own.len() ==> #[trigger] view.modifiers[i] == modifier_text(
                            own[i],
                        )) && (forall|j: int|
                        0 <= j < nested.len() ==> #[trigger] view.modifiers[own.len() + j]
                            == nested[j])
                },
                None => if own.len() > 0 {
                    decoded(node, disabled) matches Some(view) && view.modifiers.len() == 0
                        && view.class_name == capped(
                        "<modifier: "@ + join(
                            Seq::new(own.len(), |i: int| modifier_text(own[i])),
                            ", "@,
                        ) + ">"@,
                        200,
                    )
                } else {
                    decoded(node, disabled) is None
                },
            }
        },
        !(node.field("properties"@) matches Some(JsonView::Array(_))) ==> decoded(
            node,
            disabled,
        ) is None,
{
    if let Some(JsonView::Array(properties)) = node.field("properties"@) {
        flags_part_properties(properties);
        let (name, modifiers) = type_and_modifiers(properties);
        let own = flagged(properties, 2);
        assert(modifiers =~= Seq::new(own.len(), |i: int| modifier_text(own[i])));
    }
}

/// A decoded view is an ordinary visible one of unknown place, whose rows are those of its
/// properties, and whose children are the views of the node's children in their order, without
/// the plumbing unless it is asked for.
pub proof fn decoded_view_is_ordinary(node: JsonView, disabled: bool)
    ensures
        decoded(node, disabled) matches Some(view) ==> {
            &&& !view.is_hidden
            &&& view.alpha == opaque_view()
            &&& view.frame == whole_frame_view(0, 0, 0, 0)
            &&& view.tag == 0
            &&& view.accessibility_id is None
            &&& node.field("properties"@) matches Some(JsonView::Array(properties))
                && view.style_rows == style_of(properties, 8, 50)
            &&& match node.field("children"@) {
                Some(JsonView::Array(list)) => if disabled {
                    view.children == decoded_list(list, true)
                } else {
                    view.children == without_plumbing(decoded_list(list, false))
                },
                _ => view.children.len() == 0,
            }
        },
{
}

/// The views of a list of nodes come in the order of the nodes: those of two lists one behind the
/// other are those of the first and then those of the second, and a single node gives its view.
pub proof fn decoding_goes_in_turn(a: Seq<JsonView>, b: Seq<JsonView>, disabled: bool)
    ensures
        decoded_list(a + b, disabled) == decoded_list(a, disabled) + decoded_list(b, disabled),
        a.len() == 1 ==> decoded_list(a, disabled) == (match decoded(a[0], disabled) {
            Some(view) => seq![view],
            None => seq![],
        }),
    decreases b.len(),
{
    if a.len() == 1 {
        assert(decoded_list(a.subrange(0, 0), disabled) =~= seq![]);
        assert(decoded_list(a, disabled) =~= (match decoded(a[0], disabled) {
            Some(view) => seq![view],
            None => seq![],
        }));
    }
    if b.len() > 0 {
        let front = b.subrange(0, b.len() - 1);
        decoding_goes_in_turn(a, front, disabled);
        assert((a + b).subrange(0, (a + b).len() - 1) =~= a + front);
        assert((a + b)[(a + b).len() - 1] == b[b.len() - 1]);
        assert(decoded_list(a + b, disabled) =~= decoded_list(a, disabled) + decoded_list(
            b,
            disabled,
        ));
    } else {
        assert(a + b =~= a);
        assert(decoded_list(a + b, disabled) =~= decoded_list(a, disabled) + decoded_list(
            b,
            disabled,
        ));
    }
}

/// Plumbing is left out view by view: of two lists one behind the other, that of the first comes
/// before that of the second.
pub proof fn filtering_goes_in_turn(a: Seq<NodeView>, b: Seq<NodeView>)
    ensures
        without_plumbing(a + b) == without_plumbing(a) + without_plumbing(b),
        a.len() == 1 ==> without_plumbing(a) == replacement(a[0]),
    decreases a.len(),
{
    if a.len() > 0 {
        filtering_goes_in_turn(a.drop_first(), b);
        assert((a + b).drop_first() =~= a.drop_first() + b);
        assert((a + b)[0] == a[0]);
        assert(without_plumbing(a + b) =~= without_plumbing(a) + without_plumbing(b));
        if a.len() == 1 {
            assert(without_plumbing(a.drop_first()) =~= seq![]);
            assert(without_plumbing(a) =~= replacement(a[0]));
        }
    } else {
        assert(a + b =~= b);
        assert(without_plumbing(a + b) =~= without_plumbing(a) + without_plumbing(b));
    }
}

/// Only plumbing is touched. A view goes exactly where it is a known wrapper with one child and no
/// modifiers, and its child takes its place; a view loses its children exactly where it is a known
/// primitive; every other view stays as it is.
pub proof fn only_plumbing_is_touched(view: NodeView)
    ensures
        ({
            let primitives = seq!["Color"@, "Spacer"@, "Divider"@, "EmptyView"@];
            let wrappers = seq![
                "_VariadicView.Tree<"@,
                "_VariadicView_Children"@,
                "TupleView<"@,
                "_ConditionalContent<"@,
                "_UnaryViewAdaptor<"@,
                "LazyView<"@,
                "PlaceholderContentView<"@,
                "AnyView"@,
            ];
            let bare = view.class_name.take(index_of(view.class_name, '<'));
            let primitive = primitives.contains(bare) && view.children.len() > 0;
            let wrapper = view.modifiers.len() == 0 && view.children.len() == 1 && exists|i: int|
                0 <= i < wrappers.len() && begins_with(view.class_name, #[trigger] wrappers[i]);
            &&& primitive ==> replacement(view) == seq![NodeView { children: seq![], ..view }]
            &&& !primitive && wrapper ==> replacement(view) == seq![view.children[0]]
            &&& !primitive && !wrapper ==> replacement(view) == seq![view]
        }),
{
    let primitives = seq!["Color"@, "Spacer"@, "Divider"@, "EmptyView"@];
    let wrappers = seq![
        "_VariadicView.Tree<"@,
        "_VariadicView_Children"@,
        "TupleView<"@,
        "_ConditionalContent<"@,
        "_UnaryViewAdaptor<"@,
        "LazyView<"@,
        "PlaceholderContentView<"@,
        "AnyView"@,
    ];
    let bare = bare_name(view.class_name);
    assert(is_primitive(bare) == primitives.contains(bare)) by {
        assert(primitives[0] == "Color"@ && primitives[1] == "Spacer"@);
        assert(primitives[2] == "Divider"@ && primitives[3] == "EmptyView"@);
    }
    assert(is_wrapper(view.class_name) == exists|i: int|
        0 <= i < wrappers.len() && begins_with(view.class_name, #[trigger] wrappers[i])) by {
        assert(wrappers[0] == "_VariadicView.Tree<"@ && wrappers[1] == "_VariadicView_Children"@);
        assert(wrappers[2] == "TupleView<"@ && wrappers[3] == "_ConditionalContent<"@);
        assert(wrappers[4] == "_UnaryViewAdaptor<"@ && wrappers[5] == "LazyView<"@);
        assert(wrappers[6] == "PlaceholderContentView<"@ && wrappers[7] == "AnyView"@);
    }
    if view.children.len() == 1 {
        assert(view.children =~= seq![view.children[0]]);
    }
}

/// A view is asked for its SwiftUI content exactly where its class name holds one of the names of
/// hosting views.
pub proof fn hosting_views_are_known_by_name(class_name: Seq<char>)
    ensures
        ({
            let names = seq![
                "HostingView"@,
                "HostingScrollView"@,
                "PlatformViewHost"@,
                "PlatformGroupContainer"@,
            ];
            hosts_swiftui(class_name) <==> exists|i: int|
                0 <= i < names.len() && holds_text(class_name, #[trigger] names[i])
        }),
{
    let names = seq![
        "HostingView"@,
        "HostingScrollView"@,
        "PlatformViewHost"@,
        "PlatformGroupContainer"@,
    ];
    assert(names[0] == "HostingView"@ && names[1] == "HostingScrollView"@);
    assert(names[2] == "PlatformViewHost"@ && names[3] == "PlatformGroupContainer"@);
}

/// How a value is written in a row: so that it reads as that value, a text as it is, and a
/// container as compact JSON.
pub proof fn row_values_read_back(value: JsonView)
    ensures
        !(value is Array) && !(value is Object) ==> shown_by(value, value_text(value)),
        value is Array || value is Object ==> value_text(value) == json_text(canonical(value)),
{
    crate::remote_object::shown_values_read_back(seq![], value);
    reveal_strlit("null");
    assert("null"@ =~= seq!['n', 'u', 'l', 'l']);
}

/// The title that an attribute gives a row.
pub open spec fn titled(attribute: JsonView, name: Option<Seq<char>>) -> Seq<char> {
    match name {
        Some(text) => text,
        None => match attr_text(attribute) {
            Some(text) => text,
            None => "?"@,
        },
    }
}

/// An attribute that is neither too deep nor too late is a row with its title and its value; where
/// it has no value, the attributes nested in it stand in its place, one level deeper and each
/// under its own name; where there are none of those either, it is a row with its type. An
/// attribute that is too deep or too late is only counted.
pub proof fn attributes_become_rows(
    attribute: JsonView,
    name: Option<Seq<char>>,
    depth: int,
    limit: int,
    cap: int,
    flat: Flat,
)
    requires
        0 <= flat.skipped < u64::MAX,
    ensures
        ({
            let after = flat_attribute(attribute, name, depth, limit, cap, flat);
            let value = attribute.field("value"@);
            let has_value = value is Some && value != Some(JsonView::Null);
            let parts = attribute.field("subattributes"@);
            let has_parts = parts matches Some(JsonView::Array(list)) && list.len() > 0;
            let title = capped(titled(attribute, name), 150);
            if depth > limit || flat.rows.len() >= cap {
                after.rows == flat.rows && after.skipped == flat.skipped + 1
            } else if has_value {
                after.rows == flat.rows.push((title, capped(value_text(value->0), 150)))
                    && after.skipped == flat.skipped
            } else if has_parts {
                after == flat_list(parts->0->Array_0, depth + 1, limit, cap, flat)
            } else if attr_text(attribute) is Some {
                after.rows == flat.rows.push((title, capped(attr_text(attribute)->0, 150)))
                    && after.skipped == flat.skipped
            } else {
                after == flat
            }
        }),
{
}

/// Nested attributes become rows one after the other, each under its own name.
pub proof fn nested_attributes_go_in_turn(
    a: Seq<JsonView>,
    b: Seq<JsonView>,
    depth: int,
    limit: int,
    cap: int,
    flat: Flat,
)
    ensures
        flat_list(a + b, depth, limit, cap, flat) == flat_list(
            b,
            depth,
            limit,
            cap,
            flat_list(a, depth, limit, cap, flat),
        ),
        a.len() == 1 ==> flat_list(a, depth, limit, cap, flat) == flat_attribute(
            a[0],
            a[0].string_field("name"@),
            depth,
            limit,
            cap,
            flat,
        ),
    decreases b.len(),
{
    if a.len() == 1 {
        assert(flat_list(a.subrange(0, 0), depth, limit, cap, flat) == flat);
    }
    if b.len() > 0 {
        let front = b.subrange(0, b.len() - 1);
        nested_attributes_go_in_turn(a, front, depth, limit, cap, flat);
        assert((a + b).subrange(0, (a + b).len() - 1) =~= a + front);
    } else {
        assert(a + b =~= a);
    }
}

/// The properties of a node become rows one after the other, from no rows on.
pub proof fn properties_go_in_turn(properties: Seq<JsonView>, next: JsonView, limit: int, cap: int)
    ensures
        flat_properties(seq![], limit, cap).rows.len() == 0,
        flat_properties(seq![], limit, cap).skipped == 0,
        flat_properties(properties.push(next), limit, cap) == (match next.field("attribute"@) {
            Some(attribute) => flat_attribute(
                attribute,
                None,
                0,
                limit,
                cap,
                flat_properties(properties, limit, cap),
            ),
            None => flat_properties(properties, limit, cap),
        }),
        flat_properties(properties, limit, cap).skipped > 0 ==> style_of(
            properties,
            limit,
            cap,
        ).last().0 == seq!['…'] && style_of(properties, limit, cap).last().1 == decimal(
            flat_properties(properties, limit, cap).skipped,
        ) + " more (truncated)"@,
{
    assert(properties.push(next).drop_last() =~= properties);
    reveal_strlit("…");
    assert("…"@ =~= seq!['…']);
}

/// Every view that is looked at is counted once, as kept, replaced or emptied.
pub proof fn every_view_is_counted(list: Seq<NodeView>)
    ensures
        filter_tally(list, false).kept + filter_tally(list, false).hoisted + filter_tally(
            list,
            false,
        ).elided_subviews == list.len(),
        filter_tally(list, true) == no_tally(),
    decreases list.len(),
{
    if list.len() > 0 {
        every_view_is_counted(list.drop_first());
    }
}

/// A view is counted by what becomes of it: as kept where it stays, as replaced where its child
/// takes its place, and as emptied where it loses its children.
pub proof fn views_are_counted_by_fate(view: NodeView)
    ensures
        filter_tally(seq![view], false).decoded == 0,
        filter_tally(seq![view], false).kept == 1 ==> replacement(view) == seq![view],
        filter_tally(seq![view], false).hoisted == 1 ==> replacement(view) == view.children,
        filter_tally(seq![view], false).elided_subviews == 1 ==> replacement(view) == seq![
            NodeView { children: seq![], ..view },
        ],
{
    let one = seq![view];
    assert(one[0] == view);
    assert(filter_tally(one.drop_first(), false) == no_tally());
}

/// Where nothing is left out, as many nodes are counted as there are views.
pub proof fn decoded_nodes_are_counted(node: JsonView)
    ensures
        decode_tally(node, true).decoded == (match decoded(node, true) {
            Some(view) => size(view) as int,
            None => 0,
        }),
    decreases node, 0nat,
{
    if decoded(node, true) is Some {
        if let Some(list) = listed_children(node) {
            field_items_are_smaller(node, "children"@);
            decoded_lists_are_counted(list);
            filter_tally_counts(decoded_list(list, true), true);
        } else {
            assert(total(Seq::<NodeView>::empty()) == 0);
        }
    }
}

proof fn decoded_lists_are_counted(list: Seq<JsonView>)
    ensures
        list_tally(list, true).decoded == total(decoded_list(list, true)),
    decreases list, list.len(),
{
    if list.len() > 0 {
        let front = list.subrange(0, list.len() - 1);
        decoded_lists_are_counted(front);
        decoded_nodes_are_counted(list[list.len() - 1]);
        if let Some(view) = decoded(list[list.len() - 1], true) {
            let all = decoded_list(list, true);
            assert(all.subrange(0, all.len() - 1) =~= decoded_list(front, true));
        }
    }
}

/// The views of a payload are those of its nodes, where it is a list with any; anything else gives
/// none, and so does what is no JSON.
pub proof fn payloads_are_lists_of_nodes(bytes: Seq<u8>, disabled: bool)
    ensures
        dumped(None, disabled).len() == 0,
        json_of_bytes(bytes) is None ==> dumped(Some(bytes), disabled).len() == 0,
        json_of_bytes(bytes) matches Some(JsonView::Array(list)) ==> dumped(Some(bytes), disabled)
            == decoded_list(list, disabled),
        json_of_bytes(bytes) matches Some(value) ==> !(value is Array) ==> dumped(
            Some(bytes),
            disabled,
        ).len() == 0,
{
    if let Some(JsonView::Array(list)) = json_of_bytes(bytes) {
        if decoded_list(list, disabled).len() == 0 {
            assert(decoded_list(list, disabled) =~= seq![]);
        }
    }
}

/// A character stands in a file's name as it is exactly where it is a letter or a digit of ASCII;
/// an underscore stands in the place of any other.
pub proof fn file_names_are_plain(c: char)
    ensures
        file_char(c) == c <==> (c == '_' || 0x30 <= c as int <= 0x39 || 0x41 <= c as int <= 0x5a
            || 0x61 <= c as int <= 0x7a),
        file_char(c) != c ==> file_char(c) == '_',
{
}

/// Where attributes were left out, one more row tells how many; else the rows are all there are.
pub proof fn left_out_attributes_are_counted(properties: Seq<JsonView>, limit: int, cap: int)
    requires
        0 <= cap,
    ensures
        ({
            let flat = flat_properties(properties, limit, cap);
            let rows = style_of(properties, limit, cap);
            &&& flat.skipped == 0 ==> rows == flat.rows
            &&& flat.skipped > 0 ==> {
                &&& rows.drop_last() == flat.rows
                &&& rows.last().0 == seq!['…']
                &&& rows.last().1.len() > 17
                &&& decimal_value(rows.last().1.take(rows.last().1.len() - 17)) == flat.skipped
            }
        }),
{
    style_is_bounded(properties, limit, cap);
    let flat = flat_properties(properties, limit, cap);
    if flat.skipped > 0 {
        let rows = style_of(properties, limit, cap);
        reveal_strlit("…");
        reveal_strlit(" more (truncated)");
        assert("…"@ =~= seq!['…']);
        assert(" more (truncated)"@.len() == 17);
        decimal_reads_back(flat.skipped);
        assert(rows.last().1.take(rows.last().1.len() - 17) =~= decimal(flat.skipped));
        assert(rows.drop_last() =~= flat.rows);
    }
}

/// A view is asked for its payload exactly where capturing is on, the view hosts SwiftUI content
/// and the system is the one that the payload was checked on; only where just the system is another
/// is that a reason to warn.
pub proof fn payloads_are_asked_for_with_care(
    recording: bool,
    class_name: &str,
    major: i64,
    gate: HostingGate,
)
    requires
        call_ensures(hosting_gate, (recording, class_name, major), gate),
    ensures
        gate == HostingGate::Capture <==> recording && hosts_swiftui(class_name@) && major == 26,
        gate == HostingGate::Unsupported <==> recording && hosts_swiftui(class_name@) && major
            != 26,
{
}

} // verus!
