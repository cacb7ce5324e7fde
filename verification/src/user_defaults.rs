//! User defaults: property-list values as JSON and back.
//!
//! The store itself is somebody else's. What it holds comes in as `Plist` values, and what is to be
//! put into it goes out as `NewObject` values.
use crate::base64_text::{base64_of, encode_base64};
use crate::json::{
    array_tree, entry_trees, number_view, object_tree, put_entry, trees, whole, whole_number, Json,
    JsonView, NumberView,
};
use crate::order::{
    in_order, keyed, last_given, sort_by_name, sorted_by_name, table_of, table_of_entries,
    table_of_ordered,
};
use vstd::prelude::*;

verus! {

/// The type codes of numbers that are truth values.
pub const CHAR_CODE: u8 = 99;

/// The type codes of numbers that are truth values.
pub const BOOL_CODE: u8 = 66;

/// The magnitude below which a whole number is read as an integer.
pub const INTEGER_LIMIT: i64 = 1_000_000_000_000_000;

/// What a number of the store says of itself.
#[derive(Debug)]
pub struct NumberObject {
    /// The first character of its type code.
    pub type_code: u8,
    /// Its truth value.
    pub truth: bool,
    /// Its value, where that is a whole number below the limit for integers.
    pub integer: Option<i64>,
    /// Its value as JSON, where that is finite.
    pub fraction: Option<serde_json::Number>,
}

/// A value of the store.
#[derive(Debug)]
pub enum Plist {
    /// No value.
    Nothing,
    Text(String),
    Number(NumberObject),
    Array(Vec<Plist>),
    Dictionary(Vec<(String, Plist)>),
    Data(Vec<u8>),
    /// A value of another kind, by how it describes itself.
    Other(Option<String>),
}

/// What a value of the store is.
#[verifier::ext_equal]
pub enum PlistView {
    Nothing,
    Text(Seq<char>),
    Number {
        type_code: u8,
        truth: bool,
        integer: Option<int>,
        fraction: Option<serde_json::Number>,
    },
    Array(Seq<PlistView>),
    Dictionary(Seq<(Seq<char>, PlistView)>),
    Data(Seq<u8>),
    Other(Option<Seq<char>>),
}

impl Plist {
    /// The mathematical value.
    pub open spec fn tree(self) -> PlistView
        decreases self,
    {
        match self {
            Plist::Nothing => PlistView::Nothing,
            Plist::Text(text) => PlistView::Text(text@),
            Plist::Number(n) => PlistView::Number {
                type_code: n.type_code,
                truth: n.truth,
                integer: match n.integer {
                    Some(i) => Some(i as int),
                    None => None,
                },
                fraction: n.fraction,
            },
            Plist::Array(items) => PlistView::Array(
                Seq::new(
                    items@.len(),
                    |i: int|
                        if 0 <= i < items@.len() {
                            items@[i].tree()
                        } else {
                            PlistView::Nothing
                        },
                ),
            ),
            Plist::Dictionary(entries) => PlistView::Dictionary(
                Seq::new(
                    entries@.len(),
                    |i: int|
                        if 0 <= i < entries@.len() {
                            (entries@[i].0@, entries@[i].1.tree())
                        } else {
                            (seq![], PlistView::Nothing)
                        },
                ),
            ),
            Plist::Data(bytes) => PlistView::Data(bytes@),
            Plist::Other(description) => PlistView::Other(
                match description {
                    Some(text) => Some(text@),
                    None => None,
                },
            ),
        }
    }
}

/// How a number of the store reads: a truth value, an integer or a fraction.
pub open spec fn number_reads(
    type_code: u8,
    truth: bool,
    integer: Option<int>,
    fraction: Option<serde_json::Number>,
) -> JsonView {
    if type_code == CHAR_CODE || type_code == BOOL_CODE {
        JsonView::Bool(truth)
    } else {
        match integer {
            Some(n) => whole(n),
            None => match fraction {
                Some(n) => JsonView::Number(number_view(n)),
                None => JsonView::Null,
            },
        }
    }
}

/// How a value of the store reads.
pub open spec fn reads(object: PlistView) -> JsonView
    decreases object,
{
    match object {
        PlistView::Nothing => JsonView::Null,
        PlistView::Text(text) => JsonView::Text(text),
        PlistView::Number { type_code, truth, integer, fraction } => number_reads(
            type_code,
            truth,
            integer,
            fraction,
        ),
        PlistView::Array(items) => JsonView::Array(
            Seq::new(
                items.len(),
                |i: int|
                    if 0 <= i < items.len() {
                        reads(items[i])
                    } else {
                        JsonView::Null
                    },
            ),
        ),
        PlistView::Dictionary(entries) => JsonView::Object(table_of(entries_read(entries))),
        PlistView::Data(bytes) => JsonView::Text(base64_of(bytes)),
        PlistView::Other(Some(text)) => JsonView::Text(text),
        PlistView::Other(None) => JsonView::Null,
    }
}

/// How the entries of a dictionary read.
pub open spec fn entries_read(entries: Seq<(Seq<char>, PlistView)>) -> Seq<(Seq<char>, JsonView)>
    decreases entries,
{
    Seq::new(
        entries.len(),
        |i: int|
            if 0 <= i < entries.len() {
                (entries[i].0, reads(entries[i].1))
            } else {
                (seq![], JsonView::Null)
            },
    )
}

/// Reads a value of the store as JSON. Of entries with the same key the last counts; bytes are
/// written in base64.
pub fn object_to_json(object: &Plist) -> (json: Json)
    ensures
        json@ == reads(object.tree()),
    decreases object,
{
    broadcast use {array_tree, object_tree};
    match object {
        Plist::Nothing => Json::Null,
        Plist::Text(text) => Json::Text(text.clone()),
        Plist::Number(n) => {
            if n.type_code == CHAR_CODE || n.type_code == BOOL_CODE {
                return Json::Bool(n.truth);
            }
            match n.integer {
                Some(i) => Json::signed(i),
                None => match &n.fraction {
                    Some(number) => Json::Number(number.clone()),
                    None => Json::Null,
                },
            }
        },
        Plist::Array(items) => {
            let mut list: Vec<Json> = Vec::new();
            let mut i: usize = 0;
            while i < items.len()
                invariant
                    i <= items.len(),
                    *object == Plist::Array(*items),
                    list@.len() == i,
                    forall|j: int|
                        0 <= j < i ==> (#[trigger] list@[j])@ == reads(items@[j].tree()),
                decreases items.len() - i,
            {
                assert(decreases_to!(*object => object->Array_0));
                assert(decreases_to!(items@ => items@[i as int]));
                list.push(object_to_json(&items[i]));
                i = i + 1;
            }
            assert(trees(list@) =~= reads(object.tree())->Array_0);
            Json::Array(list)
        },
        Plist::Dictionary(entries) => {
            let ghost all = entries_read(object.tree()->Dictionary_0);
            let mut table: Vec<(String, Json)> = Vec::new();
            assert(entry_trees(table@) =~= table_of(all.take(0)));
            let mut i: usize = 0;
            while i < entries.len()
                invariant
                    i <= entries.len(),
                    *object == Plist::Dictionary(*entries),
                    all == entries_read(object.tree()->Dictionary_0),
                    all.len() == entries@.len(),
                    entry_trees(table@) == table_of(all.take(i as int)),
                decreases entries.len() - i,
            {
                assert(decreases_to!(*object => object->Dictionary_0));
                assert(decreases_to!(entries@ => entries@[i as int]));
                assert(decreases_to!(entries@[i as int] => entries@[i as int].1));
                let value = object_to_json(&entries[i].1);
                assert(all.take(i + 1).drop_last() =~= all.take(i as int));
                assert(all[i as int] == (entries@[i as int].0@, value@));
                put_entry(&mut table, entries[i].0.clone(), value);
                i = i + 1;
            }
            assert(all.take(i as int) =~= all);
            Json::Object(table)
        },
        Plist::Data(bytes) => Json::Text(encode_base64(bytes.as_slice())),
        Plist::Other(description) => match description {
            Some(text) => Json::Text(text.clone()),
            None => Json::Null,
        },
    }
}

/// An object to put into the store.
#[derive(Debug)]
pub enum NewObject {
    Flag(bool),
    Integer(i64),
    Double(serde_json::Number),
    Text(String),
    Array(Vec<NewObject>),
    Dictionary(Vec<(String, NewObject)>),
}

/// What an object to put into the store is.
#[verifier::ext_equal]
pub enum NewView {
    Flag(bool),
    Integer(int),
    Double(NumberView),
    Text(Seq<char>),
    Array(Seq<NewView>),
    Dictionary(Seq<(Seq<char>, NewView)>),
}

impl NewObject {
    /// The mathematical value.
    pub open spec fn tree(self) -> NewView
        decreases self,
    {
        match self {
            NewObject::Flag(b) => NewView::Flag(b),
            NewObject::Integer(n) => NewView::Integer(n as int),
            NewObject::Double(n) => NewView::Double(number_view(n)),
            NewObject::Text(text) => NewView::Text(text@),
            NewObject::Array(items) => NewView::Array(
                Seq::new(
                    items@.len(),
                    |i: int|
                        if 0 <= i < items@.len() {
                            items@[i].tree()
                        } else {
                            NewView::Flag(false)
                        },
                ),
            ),
            NewObject::Dictionary(entries) => NewView::Dictionary(
                Seq::new(
                    entries@.len(),
                    |i: int|
                        if 0 <= i < entries@.len() {
                            (entries@[i].0@, entries@[i].1.tree())
                        } else {
                            (seq![], NewView::Flag(false))
                        },
                ),
            ),
        }
    }
}

/// The objects of a sequence.
pub open spec fn new_trees(items: Seq<NewObject>) -> Seq<NewView> {
    Seq::new(items.len(), |i: int| items[i].tree())
}

/// The keys and objects of a sequence of entries.
pub open spec fn new_entries(entries: Seq<(String, NewObject)>) -> Seq<(Seq<char>, NewView)> {
    Seq::new(entries.len(), |i: int| (entries[i].0@, entries[i].1.tree()))
}

/// The object that a JSON value is put into the store as. Null is none, and is left out of arrays
/// and objects.
pub open spec fn written(value: JsonView) -> Option<NewView>
    decreases value, 0nat,
{
    match value {
        JsonView::Null => None,
        JsonView::Bool(b) => Some(NewView::Flag(b)),
        JsonView::Number(n) => match value.signed() {
            Some(i) => Some(NewView::Integer(i)),
            None => Some(NewView::Double(n)),
        },
        JsonView::Text(text) => Some(NewView::Text(text)),
        JsonView::Array(items) => Some(NewView::Array(written_items(items))),
        JsonView::Object(entries) => Some(NewView::Dictionary(written_entries(entries))),
    }
}

/// The objects of a list of values, without the nulls.
pub open spec fn written_items(items: Seq<JsonView>) -> Seq<NewView>
    decreases items, items.len(),
{
    if items.len() == 0 {
        seq![]
    } else {
        let front = written_items(items.subrange(0, items.len() - 1));
        match written(items[items.len() - 1]) {
            Some(object) => front.push(object),
            None => front,
        }
    }
}

/// The objects of a list of entries, without the nulls.
pub open spec fn written_entries(entries: Seq<(Seq<char>, JsonView)>) -> Seq<(Seq<char>, NewView)>
    decreases entries, entries.len(),
{
    if entries.len() == 0 {
        seq![]
    } else {
        let front = written_entries(entries.subrange(0, entries.len() - 1));
        let last = entries[entries.len() - 1];
        match written(last.1) {
            Some(object) => front.push((last.0, object)),
            None => front,
        }
    }
}

/// The object that a JSON value is put into the store as.
pub fn json_to_object(value: &Json) -> (object: Option<NewObject>)
    ensures
        object is Some == written(value@) is Some,
        object matches Some(o) ==> written(value@) == Some(o.tree()),
    decreases value,
{
    broadcast use {array_tree, object_tree};
    match value {
        Json::Null => None,
        Json::Bool(b) => Some(NewObject::Flag(*b)),
        Json::Number(n) => match value.as_i64() {
            Some(i) => Some(NewObject::Integer(i)),
            None => Some(NewObject::Double(n.clone())),
        },
        Json::Text(text) => Some(NewObject::Text(text.clone())),
        Json::Array(items) => {
            let ghost all = trees(items@);
            let mut list: Vec<NewObject> = Vec::new();
            assert(new_trees(list@) =~= seq![]);
            assert(all.subrange(0, 0).len() == 0);
            let mut i: usize = 0;
            while i < items.len()
                invariant
                    i <= items.len(),
                    *value == Json::Array(*items),
                    all == trees(items@),
                    new_trees(list@) == written_items(all.subrange(0, i as int)),
                decreases items.len() - i,
            {
                let ghost here = all.subrange(0, i + 1);
                let ghost before = new_trees(list@);
                assert(here.subrange(0, here.len() - 1) =~= all.subrange(0, i as int));
                assert(here[here.len() - 1] == items@[i as int]@);
                assert(decreases_to!(*value => value->Array_0));
                assert(decreases_to!(items@ => items@[i as int]));
                if let Some(object) = json_to_object(&items[i]) {
                    list.push(object);
                    assert(new_trees(list@) =~= before.push(object.tree()));
                }
                i = i + 1;
            }
            assert(all.subrange(0, i as int) =~= all);
            let object = NewObject::Array(list);
            assert(object.tree()->Array_0 =~= new_trees(list@));
            Some(object)
        },
        Json::Object(entries) => {
            let ghost all = entry_trees(entries@);
            let mut list: Vec<(String, NewObject)> = Vec::new();
            assert(new_entries(list@) =~= seq![]);
            assert(all.subrange(0, 0).len() == 0);
            let mut i: usize = 0;
            while i < entries.len()
                invariant
                    i <= entries.len(),
                    *value == Json::Object(*entries),
                    all == entry_trees(entries@),
                    new_entries(list@) == written_entries(all.subrange(0, i as int)),
                decreases entries.len() - i,
            {
                let ghost here = all.subrange(0, i + 1);
                let ghost before = new_entries(list@);
                assert(here.subrange(0, here.len() - 1) =~= all.subrange(0, i as int));
                assert(here[here.len() - 1] == (entries@[i as int].0@, entries@[i as int].1@));
                assert(decreases_to!(*value => value->Object_0));
                assert(decreases_to!(entries@ => entries@[i as int]));
                assert(decreases_to!(entries@[i as int] => entries@[i as int].1));
                if let Some(object) = json_to_object(&entries[i].1) {
                    list.push((entries[i].0.clone(), object));
                    assert(new_entries(list@) =~= before.push(
                        (entries@[i as int].0@, object.tree()),
                    ));
                }
                i = i + 1;
            }
            assert(all.subrange(0, i as int) =~= all);
            let object = NewObject::Dictionary(list);
            assert(object.tree()->Dictionary_0 =~= new_entries(list@));
            Some(object)
        },
    }
}

/// What a store that keeps what it is given holds afterwards: a truth value under the type code of
/// truth values, an integer below the limit under that of long integers, and a fraction under that
/// of doubles. `integer_in` tells the integer that a double stands for, where it is a whole number
/// below the limit.
pub open spec fn kept(
    object: NewView,
    integer_in: spec_fn(serde_json::Number) -> Option<int>,
) -> PlistView
    decreases object,
{
    match object {
        NewView::Flag(b) => PlistView::Number {
            type_code: CHAR_CODE,
            truth: b,
            integer: Some(
                if b {
                    1
                } else {
                    0
                },
            ),
            fraction: None,
        },
        NewView::Integer(n) => PlistView::Number {
            type_code: LONG_CODE,
            truth: n != 0,
            integer: if -INTEGER_LIMIT < n < INTEGER_LIMIT {
                Some(n)
            } else {
                None
            },
            fraction: None,
        },
        NewView::Double(n) => PlistView::Number {
            type_code: DOUBLE_CODE,
            truth: true,
            integer: match n {
                NumberView::Fraction(number) => integer_in(number),
                NumberView::Whole(_) => None,
            },
            fraction: match n {
                NumberView::Fraction(number) => Some(number),
                NumberView::Whole(_) => None,
            },
        },
        NewView::Text(text) => PlistView::Text(text),
        NewView::Array(items) => PlistView::Array(
            Seq::new(
                items.len(),
                |i: int|
                    if 0 <= i < items.len() {
                        kept(items[i], integer_in)
                    } else {
                        PlistView::Nothing
                    },
            ),
        ),
        NewView::Dictionary(entries) => PlistView::Dictionary(
            Seq::new(
                entries.len(),
                |i: int|
                    if 0 <= i < entries.len() {
                        (entries[i].0, kept(entries[i].1, integer_in))
                    } else {
                        (seq![], PlistView::Nothing)
                    },
            ),
        ),
    }
}

/// The type code of long integers.
pub const LONG_CODE: u8 = 113;

/// The type code of doubles.
pub const DOUBLE_CODE: u8 = 100;

/// Whether a value is kept as it is: one without nulls, with integers below the limit, with
/// fractions that stand for no integer and with ordered objects.
pub open spec fn keepable(
    value: JsonView,
    integer_in: spec_fn(serde_json::Number) -> Option<int>,
) -> bool
    decreases value,
{
    match value {
        JsonView::Null => false,
        JsonView::Number(NumberView::Whole(n)) => -INTEGER_LIMIT < n < INTEGER_LIMIT,
        JsonView::Number(NumberView::Fraction(n)) => whole_number(n) is None && integer_in(n)
            is None,
        JsonView::Array(items) => forall|i: int|
            0 <= i < items.len() ==> keepable(#[trigger] items[i], integer_in),
        JsonView::Object(entries) => in_order(entries) && forall|i: int|
            0 <= i < entries.len() ==> keepable((#[trigger] entries[i]).1, integer_in),
        _ => true,
    }
}

/// A value that was written reads as the same value, from a store that keeps what it is given.
pub proof fn write_then_read(
    value: JsonView,
    integer_in: spec_fn(serde_json::Number) -> Option<int>,
)
    requires
        keepable(value, integer_in),
    ensures
        written(value) is Some,
        reads(kept(written(value)->0, integer_in)) == value,
    decreases value, 0nat,
{
    match value {
        JsonView::Array(items) => {
            write_then_read_items(items, integer_in);
            let objects = written_items(items);
            let held = kept(NewView::Array(objects), integer_in);
            assert(reads(held)->Array_0 =~= items) by {
                assert forall|i: int| 0 <= i < items.len() implies reads(held)->Array_0[i]
                    == items[i] by {
                    assert(reads(kept(objects[i], integer_in)) == items[i]);
                }
            }
        },
        JsonView::Object(entries) => {
            write_then_read_entries(entries, integer_in);
            let objects = written_entries(entries);
            let held = kept(NewView::Dictionary(objects), integer_in);
            let kept_entries = held->Dictionary_0;
            assert(entries_read(kept_entries) =~= entries) by {
                assert forall|i: int| 0 <= i < entries.len() implies entries_read(
                    kept_entries,
                )[i] == entries[i] by {
                    assert(objects[i].0 == entries[i].0);
                    assert(reads(kept(objects[i].1, integer_in)) == entries[i].1);
                }
            }
            table_of_ordered(entries);
        },
        _ => {},
    }
}

proof fn write_then_read_items(
    items: Seq<JsonView>,
    integer_in: spec_fn(serde_json::Number) -> Option<int>,
)
    requires
        forall|i: int| 0 <= i < items.len() ==> keepable(#[trigger] items[i], integer_in),
    ensures
        written_items(items).len() == items.len(),
        forall|i: int|
            0 <= i < items.len() ==> reads(kept(#[trigger] written_items(items)[i], integer_in)) == items[i],
    decreases items, items.len(),
{
    if items.len() > 0 {
        let front = items.subrange(0, items.len() - 1);
        assert forall|i: int| 0 <= i < front.len() implies keepable(#[trigger] front[i], integer_in) by {
            assert(front[i] == items[i]);
        }
        write_then_read_items(front, integer_in);
        write_then_read(items[items.len() - 1], integer_in);
        let all = written_items(items);
        assert forall|i: int| 0 <= i < items.len() implies reads(kept(#[trigger] all[i], integer_in))
            == items[i] by {
            if i < front.len() {
                assert(all[i] == written_items(front)[i]);
                assert(front[i] == items[i]);
            }
        }
    }
}

proof fn write_then_read_entries(
    entries: Seq<(Seq<char>, JsonView)>,
    integer_in: spec_fn(serde_json::Number) -> Option<int>,
)
    requires
        forall|i: int| 0 <= i < entries.len() ==> keepable((#[trigger] entries[i]).1, integer_in),
    ensures
        written_entries(entries).len() == entries.len(),
        forall|i: int|
            0 <= i < entries.len() ==> (#[trigger] written_entries(entries)[i]).0 == entries[i].0
                && reads(kept(written_entries(entries)[i].1, integer_in)) == entries[i].1,
    decreases entries, entries.len(),
{
    if entries.len() > 0 {
        let front = entries.subrange(0, entries.len() - 1);
        let last = entries[entries.len() - 1];
        assert forall|i: int| 0 <= i < front.len() implies keepable((#[trigger] front[i]).1, integer_in) by {
            assert(front[i] == entries[i]);
        }
        write_then_read_entries(front, integer_in);
        assert(decreases_to!(entries => entries[entries.len() - 1]));
        assert(decreases_to!(last => last.1));
        write_then_read(last.1, integer_in);
        let all = written_entries(entries);
        assert forall|i: int| 0 <= i < entries.len() implies (#[trigger] all[i]).0 == entries[i].0
            && reads(kept(all[i].1, integer_in)) == entries[i].1 by {
            if i < front.len() {
                assert(all[i] == written_entries(front)[i]);
                assert(front[i] == entries[i]);
            }
        }
    }
}

/// The entries of the store, as they read.
pub open spec fn store_reads(entries: Seq<(String, Plist)>) -> Seq<(Seq<char>, JsonView)> {
    Seq::new(entries.len(), |i: int| (entries[i].0@, reads(entries[i].1.tree())))
}

/// The entries of the store as JSON, in the order of their keys.
pub fn list_user_defaults(entries: &Vec<(String, Plist)>) -> (list: Vec<(String, Json)>)
    ensures
        entry_trees(list@) == sorted_by_name(store_reads(entries@)),
{
    let ghost goal = store_reads(entries@);
    let mut list: Vec<(String, Json)> = Vec::new();
    let mut i: usize = 0;
    while i < entries.len()
        invariant
            i <= entries.len(),
            list@.len() == i,
            goal == store_reads(entries@),
            forall|j: int|
                0 <= j < i ==> ((#[trigger] list@[j]).0@, list@[j].1@) == goal[j],
        decreases entries.len() - i,
    {
        list.push((entries[i].0.clone(), object_to_json(&entries[i].1)));
        i = i + 1;
    }
    assert(entry_trees(list@) =~= goal);
    let ghost before = keyed(list@);
    let sorted = sort_by_name(list);
    proof {
        sorting_keeps_trees(before);
        assert(json_values(before) =~= goal);
        assert(entry_trees(sorted@) =~= json_values(keyed(sorted@)));
    }
    sorted
}

/// A table of JSON values, by their trees.
pub open spec fn json_values(table: Seq<(Seq<char>, Json)>) -> Seq<(Seq<char>, JsonView)> {
    Seq::new(table.len(), |i: int| (table[i].0, table[i].1@))
}

proof fn sorted_in_keeps_trees(list: Seq<(Seq<char>, Json)>, entry: (Seq<char>, Json))
    ensures
        json_values(crate::order::sorted_in(list, entry)) == crate::order::sorted_in(
            json_values(list),
            (entry.0, entry.1@),
        ),
    decreases list.len(),
{
    if list.len() == 0 || !crate::order::text_before(entry.0, list.last().0) {
        assert(json_values(list.push(entry)) =~= json_values(list).push((entry.0, entry.1@)));
    } else {
        let front = list.drop_last();
        sorted_in_keeps_trees(front, entry);
        assert(json_values(front) =~= json_values(list).drop_last());
        let inner = crate::order::sorted_in(front, entry);
        assert(json_values(inner.push(list.last())) =~= json_values(inner).push(
            (list.last().0, list.last().1@),
        ));
    }
}

proof fn sorting_keeps_trees(list: Seq<(Seq<char>, Json)>)
    ensures
        json_values(sorted_by_name(list)) == sorted_by_name(json_values(list)),
    decreases list.len(),
{
    if list.len() > 0 {
        sorting_keeps_trees(list.drop_last());
        assert(json_values(list.drop_last()) =~= json_values(list).drop_last());
        sorted_in_keeps_trees(sorted_by_name(list.drop_last()), list.last());
    } else {
        assert(json_values(list) =~= seq![]);
        assert(json_values(sorted_by_name(list)) =~= seq![]);
    }
}

/// The value under a key, from what the store holds there.
pub fn get_user_default(held: &Plist) -> (value: Option<Json>)
    ensures
        held.tree() is Nothing ==> value is None,
        !(held.tree() is Nothing) ==> (value matches Some(json) && json@ == reads(held.tree())),
{
    match held {
        Plist::Nothing => None,
        other => Some(object_to_json(other)),
    }
}

/// The object to put into the store for a value. Null is refused: a key is removed by deleting it.
pub fn set_user_default(value: &Json) -> (object: Result<NewObject, String>)
    ensures
        value@ == JsonView::Null ==> (object matches Err(message) && message@
            == "cannot set null — use delete to remove a key"@),
        value@ != JsonView::Null ==> (object matches Ok(o) && written(value@) == Some(o.tree())),
{
    match json_to_object(value) {
        Some(object) => Ok(object),
        None => Err("cannot set null — use delete to remove a key".to_owned()),
    }
}

/// A number of the store reads as a truth value where its type code is that of characters or of
/// truth values, else as its integer, else as its fraction, else as null.
pub proof fn numbers_read_by_their_kind(
    type_code: u8,
    truth: bool,
    integer: int,
    fraction: serde_json::Number,
)
    ensures
        type_code as char == 'c' || type_code as char == 'B' ==> number_reads(
            type_code,
            truth,
            Some(integer),
            Some(fraction),
        ).truth() == Some(truth),
        type_code as char != 'c' && type_code as char != 'B' ==> {
            &&& number_reads(type_code, truth, Some(integer), Some(fraction)) == whole(integer)
            &&& number_reads(type_code, truth, None, Some(fraction)) == JsonView::Number(
                number_view(fraction),
            )
            &&& number_reads(type_code, truth, None, None) is Null
        },
{
}

/// A list reads item by item in order, a dictionary gives under each key what the last entry with
/// the key reads as, bytes read in base64, and what is none of these as its description.
pub proof fn containers_read_by_their_parts(
    items: Seq<PlistView>,
    entries: Seq<(Seq<char>, PlistView)>,
    key: Seq<char>,
    bytes: Seq<u8>,
    description: Seq<char>,
)
    ensures
        reads(PlistView::Array(items)) matches JsonView::Array(list) && list.len() == items.len()
            && forall|i: int|
            0 <= i < items.len() ==> #[trigger] list[i] == reads(items[i]),
        reads(PlistView::Dictionary(entries)).field(key) == (match last_given(entries, key) {
            Some(value) => Some(reads(value)),
            None => None,
        }),
        reads(PlistView::Data(bytes)).string() == Some(base64_of(bytes)),
        reads(PlistView::Other(Some(description))).string() == Some(description),
        reads(PlistView::Other(None)) is Null,
        reads(PlistView::Nothing) is Null,
        reads(PlistView::Text(description)).string() == Some(description),
{
    table_of_entries(entries_read(entries), key);
    last_given_reads(entries, key);
}

proof fn last_given_reads(entries: Seq<(Seq<char>, PlistView)>, key: Seq<char>)
    ensures
        last_given(entries_read(entries), key) == (match last_given(entries, key) {
            Some(value) => Some(reads(value)),
            None => None,
        }),
    decreases entries.len(),
{
    if entries.len() > 0 {
        assert(entries_read(entries).drop_last() =~= entries_read(entries.drop_last()));
        assert(entries_read(entries).last() == (entries.last().0, reads(entries.last().1)));
        last_given_reads(entries.drop_last(), key);
    }
}

/// A truth value, a text and a whole number that an `i64` holds go into the store as what they are,
/// every other number as a fraction, and null not at all.
pub proof fn values_are_written_by_kind(flag: bool, number: int, text: Seq<char>)
    ensures
        written(JsonView::Null) is None,
        written(JsonView::Bool(flag)) == Some(NewView::Flag(flag)),
        written(JsonView::Text(text)) == Some(NewView::Text(text)),
        -0x8000_0000_0000_0000 <= number < 0x8000_0000_0000_0000 ==> written(whole(number)) == Some(
            NewView::Integer(number),
        ),
        number >= 0x8000_0000_0000_0000 ==> written(whole(number)) is Some && written(
            whole(number),
        )->0 is Double,
{
}

/// The items of a list and the entries of an object are written in turn, the nulls among them left
/// out.
pub proof fn parts_are_written_in_turn(
    front: Seq<JsonView>,
    back: Seq<JsonView>,
    front_entries: Seq<(Seq<char>, JsonView)>,
    back_entries: Seq<(Seq<char>, JsonView)>,
)
    ensures
        written_items(front + back) == written_items(front) + written_items(back),
        written_entries(front_entries + back_entries) == written_entries(front_entries)
            + written_entries(back_entries),
    decreases back.len() + back_entries.len(),
{
    if back.len() > 0 {
        let less = back.subrange(0, back.len() - 1);
        let none = Seq::<(Seq<char>, JsonView)>::empty();
        let all = front + back;
        parts_are_written_in_turn(front, less, none, none);
        assert(all.subrange(0, all.len() - 1) =~= front + less);
    } else {
        assert(front + back =~= front);
    }
    if back_entries.len() > 0 {
        let less = back_entries.subrange(0, back_entries.len() - 1);
        let none = Seq::<JsonView>::empty();
        let all = front_entries + back_entries;
        parts_are_written_in_turn(none, none, front_entries, less);
        assert(all.subrange(0, all.len() - 1) =~= front_entries + less);
    } else {
        assert(front_entries + back_entries =~= front_entries);
    }
}

/// One item or entry is written where it is not null, under its key.
pub proof fn parts_are_written_unless_null(key: Seq<char>, value: JsonView)
    ensures
        value is Null <==> written_items(seq![value]).len() == 0,
        written(value) matches Some(object) ==> written_items(seq![value]) == seq![object]
            && written_entries(seq![(key, value)]) == seq![(key, object)],
        value is Null ==> written_entries(seq![(key, value)]).len() == 0,
{
    reveal_with_fuel(written_items, 2);
    reveal_with_fuel(written_entries, 2);
    assert(seq![value].subrange(0, 0) =~= seq![]);
    assert(seq![(key, value)].subrange(0, 0) =~= seq![]);
}

} // verus!
