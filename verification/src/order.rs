//! The order of texts by character, and tables of entries kept in that order.
use crate::text::{chars_of, same_text};
use vstd::prelude::*;

verus! {

/// Whether `a` comes before `b`: the first characters that differ decide, and a text comes after
/// each of its proper prefixes.
pub open spec fn text_before(a: Seq<char>, b: Seq<char>) -> bool
    decreases a.len(),
{
    if b.len() == 0 {
        false
    } else if a.len() == 0 {
        true
    } else if a[0] != b[0] {
        (a[0] as int) < (b[0] as int)
    } else {
        text_before(a.drop_first(), b.drop_first())
    }
}

/// No text comes before itself.
pub proof fn text_before_irreflexive(a: Seq<char>)
    ensures
        !text_before(a, a),
    decreases a.len(),
{
    if a.len() > 0 {
        text_before_irreflexive(a.drop_first());
    }
}

/// Of two different texts one comes before the other.
pub proof fn text_before_total(a: Seq<char>, b: Seq<char>)
    ensures
        text_before(a, b) || a == b || text_before(b, a),
    decreases a.len(),
{
    if a.len() > 0 && b.len() > 0 && a[0] == b[0] {
        text_before_total(a.drop_first(), b.drop_first());
        if a.drop_first() == b.drop_first() {
            assert(a =~= seq![a[0]] + a.drop_first());
            assert(b =~= seq![b[0]] + b.drop_first());
        }
    } else if a.len() == 0 && b.len() == 0 {
        assert(a =~= b);
    }
}

/// A text before a second one, which is before a third, is before the third.
pub proof fn text_before_transitive(a: Seq<char>, b: Seq<char>, c: Seq<char>)
    requires
        text_before(a, b),
        text_before(b, c),
    ensures
        text_before(a, c),
    decreases a.len(),
{
    if a.len() > 0 && b.len() > 0 && c.len() > 0 && a[0] == b[0] && b[0] == c[0] {
        text_before_transitive(a.drop_first(), b.drop_first(), c.drop_first());
    }
}

/// Of two texts at most one comes before the other.
pub proof fn text_before_asymmetric(a: Seq<char>, b: Seq<char>)
    requires
        text_before(a, b),
    ensures
        !text_before(b, a),
        a != b,
{
    text_before_irreflexive(a);
    if text_before(b, a) {
        text_before_transitive(a, b, a);
    }
}

fn chars_before(a: &Vec<char>, b: &Vec<char>) -> (before: bool)
    ensures
        before == text_before(a@, b@),
{
    let mut i: usize = 0;
    assert(a@.skip(0) =~= a@);
    assert(b@.skip(0) =~= b@);
    while i < a.len() && i < b.len()
        invariant
            i <= a.len(),
            i <= b.len(),
            text_before(a@, b@) == text_before(a@.skip(i as int), b@.skip(i as int)),
        decreases a.len() - i,
    {
        assert(a@.skip(i as int).drop_first() =~= a@.skip(i + 1));
        assert(b@.skip(i as int).drop_first() =~= b@.skip(i + 1));
        if a[i] != b[i] {
            return a[i] < b[i];
        }
        i = i + 1;
    }
    i < b.len()
}

/// Whether `a` comes before `b`.
pub fn is_before(a: &str, b: &str) -> (before: bool)
    ensures
        before == text_before(a@, b@),
{
    chars_before(&chars_of(a), &chars_of(b))
}

/// The table with `value` under `key`: in the place of an entry with that key, or else where the
/// order of keys puts it.
pub open spec fn put<V>(
    table: Seq<(Seq<char>, V)>,
    key: Seq<char>,
    value: V,
) -> Seq<(Seq<char>, V)>
    decreases table.len(),
{
    if table.len() == 0 {
        seq![(key, value)]
    } else if table[0].0 == key {
        table.update(0, (key, value))
    } else if text_before(key, table[0].0) {
        seq![(key, value)] + table
    } else {
        seq![table[0]] + put(table.drop_first(), key, value)
    }
}

/// The table of the given entries, put one after the other into an empty one.
pub open spec fn table_of<V>(entries: Seq<(Seq<char>, V)>) -> Seq<(Seq<char>, V)>
    decreases entries.len(),
{
    if entries.len() == 0 {
        seq![]
    } else {
        put(table_of(entries.drop_last()), entries.last().0, entries.last().1)
    }
}

/// The value of the first entry with the given key.
pub open spec fn look_up<V>(table: Seq<(Seq<char>, V)>, key: Seq<char>) -> Option<V>
    decreases table.len(),
{
    if table.len() == 0 {
        None
    } else if table[0].0 == key {
        Some(table[0].1)
    } else {
        look_up(table.drop_first(), key)
    }
}

/// The value of the last entry with the given key.
pub open spec fn last_given<V>(entries: Seq<(Seq<char>, V)>, key: Seq<char>) -> Option<V>
    decreases entries.len(),
{
    if entries.len() == 0 {
        None
    } else if entries.last().0 == key {
        Some(entries.last().1)
    } else {
        last_given(entries.drop_last(), key)
    }
}

/// Whether the keys of a table ascend, so that no key stands twice.
pub open spec fn in_order<V>(table: Seq<(Seq<char>, V)>) -> bool {
    forall|i: int, j: int|
        0 <= i < j < table.len() ==> #[trigger] text_before(table[i].0, table[j].0)
}

/// Putting a value into an ordered table leaves it ordered, and every key is either the new one
/// or one that was there.
pub proof fn put_keeps_order<V>(table: Seq<(Seq<char>, V)>, key: Seq<char>, value: V)
    requires
        in_order(table),
    ensures
        in_order(put(table, key, value)),
        forall|i: int|
            0 <= i < put(table, key, value).len() ==> (#[trigger] put(table, key, value)[i]).0 == key
                || exists|j: int| 0 <= j < table.len() && table[j].0 == put(table, key, value)[i].0,
    decreases table.len(),
{
    let result = put(table, key, value);
    if table.len() == 0 {
    } else if table[0].0 == key {
        assert forall|i: int, j: int| 0 <= i < j < result.len() implies #[trigger] text_before(
            result[i].0,
            result[j].0,
        ) by {
            assert(result[i].0 == table[i].0);
            assert(result[j].0 == table[j].0);
        }
    } else if text_before(key, table[0].0) {
        assert forall|i: int, j: int| 0 <= i < j < result.len() implies #[trigger] text_before(
            result[i].0,
            result[j].0,
        ) by {
            assert(result[j] == table[j - 1]);
            if i == 0 {
                if j > 1 {
                    assert(text_before(table[0].0, table[j - 1].0));
                    text_before_transitive(key, table[0].0, table[j - 1].0);
                }
            } else {
                assert(result[i] == table[i - 1]);
                assert(text_before(table[i - 1].0, table[j - 1].0));
            }
        }
        assert forall|i: int| 0 <= i < result.len() implies (#[trigger] result[i]).0 == key
            || exists|j: int| 0 <= j < table.len() && table[j].0 == result[i].0 by {
            if i > 0 {
                assert(result[i] == table[i - 1]);
            }
        }
    } else {
        let rest = table.drop_first();
        assert forall|i: int, j: int| 0 <= i < j < rest.len() implies #[trigger] text_before(
            rest[i].0,
            rest[j].0,
        ) by {
            assert(text_before(table[i + 1].0, table[j + 1].0));
        }
        put_keeps_order(rest, key, value);
        let tail = put(rest, key, value);
        text_before_total(key, table[0].0);
        assert forall|i: int, j: int| 0 <= i < j < result.len() implies #[trigger] text_before(
            result[i].0,
            result[j].0,
        ) by {
            assert(result[j] == tail[j - 1]);
            if i == 0 {
                if tail[j - 1].0 != key {
                    let k = choose|k: int| 0 <= k < rest.len() && rest[k].0 == tail[j - 1].0;
                    assert(text_before(table[0].0, table[k + 1].0));
                }
            } else {
                assert(result[i] == tail[i - 1]);
                assert(text_before(tail[i - 1].0, tail[j - 1].0));
            }
        }
        assert forall|i: int| 0 <= i < result.len() implies (#[trigger] result[i]).0 == key
            || exists|j: int| 0 <= j < table.len() && table[j].0 == result[i].0 by {
            if i > 0 {
                assert(result[i] == tail[i - 1]);
                if tail[i - 1].0 != key {
                    let k = choose|k: int| 0 <= k < rest.len() && rest[k].0 == tail[i - 1].0;
                    assert(table[k + 1].0 == result[i].0);
                }
            } else {
                assert(table[0].0 == result[0].0);
            }
        }
    }
}

/// After a put, the key gives the new value and every other key gives what it gave before.
pub proof fn put_then_look_up<V>(
    table: Seq<(Seq<char>, V)>,
    key: Seq<char>,
    value: V,
    asked: Seq<char>,
)
    ensures
        asked == key ==> look_up(put(table, key, value), asked) == Some(value),
        asked != key ==> look_up(put(table, key, value), asked) == look_up(table, asked),
    decreases table.len(),
{
    let result = put(table, key, value);
    assert(result.len() > 0);
    if asked != result[0].0 {
        assert(look_up(result, asked) == look_up(result.drop_first(), asked));
    }
    if table.len() == 0 {
        assert(result.drop_first() =~= seq![]);
        assert(look_up(result.drop_first(), asked) is None);
    } else if table[0].0 == key {
        assert(result.drop_first() =~= table.drop_first());
    } else if text_before(key, table[0].0) {
        assert(result.drop_first() =~= table);
    } else {
        assert(result.drop_first() =~= put(table.drop_first(), key, value));
        put_then_look_up(table.drop_first(), key, value, asked);
    }
}

/// A table made of entries is ordered, and each key gives the value that was given last.
pub proof fn table_of_entries<V>(entries: Seq<(Seq<char>, V)>, asked: Seq<char>)
    ensures
        in_order(table_of(entries)),
        look_up(table_of(entries), asked) == last_given(entries, asked),
    decreases entries.len(),
{
    if entries.len() > 0 {
        let before = entries.drop_last();
        table_of_entries(before, asked);
        put_keeps_order(table_of(before), entries.last().0, entries.last().1);
        put_then_look_up(table_of(before), entries.last().0, entries.last().1, asked);
    }
}

/// Where the keys before an index neither are `key` nor come after it, a put leaves what stands
/// before the index as it is.
pub proof fn put_after<V>(table: Seq<(Seq<char>, V)>, key: Seq<char>, value: V, at: int)
    requires
        0 <= at <= table.len(),
        forall|j: int|
            0 <= j < at ==> (#[trigger] table[j]).0 != key && !text_before(key, table[j].0),
    ensures
        put(table, key, value) == table.take(at) + put(table.skip(at), key, value),
    decreases at,
{
    if at == 0 {
        assert(table.skip(0) =~= table);
        assert(table.take(0) + put(table, key, value) =~= put(table, key, value));
    } else {
        let rest = table.drop_first();
        assert forall|j: int| 0 <= j < at - 1 implies (#[trigger] rest[j]).0 != key && !text_before(
            key,
            rest[j].0,
        ) by {
            assert(rest[j] == table[j + 1]);
        }
        put_after(rest, key, value, at - 1);
        assert(table[0].0 != key);
        assert(rest.skip(at - 1) =~= table.skip(at));
        assert(seq![table[0]] + (rest.take(at - 1) + put(table.skip(at), key, value))
            =~= table.take(at) + put(table.skip(at), key, value));
    }
}

/// Where the keys before an index are not `key`, a search goes on from the index.
pub proof fn look_up_after<V>(table: Seq<(Seq<char>, V)>, key: Seq<char>, at: int)
    requires
        0 <= at <= table.len(),
        forall|j: int| 0 <= j < at ==> (#[trigger] table[j]).0 != key,
    ensures
        look_up(table, key) == look_up(table.skip(at), key),
    decreases at,
{
    if at == 0 {
        assert(table.skip(0) =~= table);
    } else {
        let rest = table.drop_first();
        assert forall|j: int| 0 <= j < at - 1 implies (#[trigger] rest[j]).0 != key by {
            assert(rest[j] == table[j + 1]);
        }
        look_up_after(rest, key, at - 1);
        assert(table[0].0 != key);
        assert(rest.skip(at - 1) =~= table.skip(at));
    }
}

/// A table whose keys ascend is the table of its own entries.
pub proof fn table_of_ordered<V>(table: Seq<(Seq<char>, V)>)
    requires
        in_order(table),
    ensures
        table_of(table) == table,
    decreases table.len(),
{
    if table.len() > 0 {
        let before = table.drop_last();
        let (key, value) = table.last();
        assert forall|i: int, j: int| 0 <= i < j < before.len() implies #[trigger] text_before(
            before[i].0,
            before[j].0,
        ) by {
            assert(text_before(table[i].0, table[j].0));
        }
        table_of_ordered(before);
        assert forall|j: int| 0 <= j < before.len() implies (#[trigger] before[j]).0 != key
            && !text_before(key, before[j].0) by {
            assert(text_before(table[j].0, table[table.len() - 1].0));
            text_before_asymmetric(before[j].0, key);
        }
        put_after(before, key, value, before.len() as int);
        assert(before.skip(before.len() as int) =~= seq![]);
        assert(before.take(before.len() as int) + seq![(key, value)] =~= table);
    } else {
        assert(table =~= seq![]);
    }
}

/// Two ordered tables that give the same value for every key are the same table.
pub proof fn same_look_up_same_table<V>(a: Seq<(Seq<char>, V)>, b: Seq<(Seq<char>, V)>)
    requires
        in_order(a),
        in_order(b),
        forall|key: Seq<char>| #[trigger] look_up(a, key) == look_up(b, key),
    ensures
        a == b,
    decreases a.len(),
{
    if a.len() == 0 {
        if b.len() > 0 {
            assert(look_up(b, b[0].0) is Some);
            assert(look_up(a, b[0].0) is None);
        }
        assert(a =~= b);
    } else {
        assert(look_up(a, a[0].0) == Some(a[0].1));
        assert(look_up(b, a[0].0) is Some);
        assert(b.len() > 0);
        assert(look_up(b, b[0].0) == Some(b[0].1));
        assert(look_up(a, b[0].0) is Some);
        first_key_is_least(a, b[0].0);
        first_key_is_least(b, a[0].0);
        text_before_total(a[0].0, b[0].0);
        if a[0].0 != b[0].0 {
            text_before_asymmetric(a[0].0, b[0].0);
        }
        let x = a.drop_first();
        let y = b.drop_first();
        rest_in_order(a);
        rest_in_order(b);
        assert forall|key: Seq<char>| #[trigger] look_up(x, key) == look_up(y, key) by {
            assert(look_up(a, key) == look_up(b, key));
            if key == a[0].0 {
                if look_up(x, key) is Some {
                    key_of_look_up(x, key);
                }
                if look_up(y, key) is Some {
                    key_of_look_up(y, key);
                }
            }
        }
        same_look_up_same_table(x, y);
        assert(a =~= seq![a[0]] + x);
        assert(b =~= seq![b[0]] + y);
    }
}

/// What stands behind the first entry of an ordered table is ordered, and none of it has the
/// first key.
pub proof fn rest_in_order<V>(table: Seq<(Seq<char>, V)>)
    requires
        in_order(table),
        table.len() > 0,
    ensures
        in_order(table.drop_first()),
        forall|i: int|
            0 <= i < table.drop_first().len() ==> (#[trigger] table.drop_first()[i]).0
                != table[0].0,
{
    let rest = table.drop_first();
    assert forall|i: int, j: int| 0 <= i < j < rest.len() implies #[trigger] text_before(
        rest[i].0,
        rest[j].0,
    ) by {
        assert(text_before(table[i + 1].0, table[j + 1].0));
    }
    assert forall|i: int| 0 <= i < rest.len() implies (#[trigger] rest[i]).0 != table[0].0 by {
        assert(text_before(table[0].0, table[i + 1].0));
        text_before_asymmetric(table[0].0, table[i + 1].0);
    }
}

/// A key that a table gives a value for stands in it with that value.
pub proof fn key_of_look_up<V>(table: Seq<(Seq<char>, V)>, key: Seq<char>) -> (at: int)
    requires
        look_up(table, key) is Some,
    ensures
        0 <= at < table.len(),
        table[at] == (key, look_up(table, key)->0),
    decreases table.len(),
{
    if table[0].0 == key {
        0
    } else {
        let at = key_of_look_up(table.drop_first(), key);
        assert(table.drop_first()[at] == table[at + 1]);
        at + 1
    }
}

/// No key of an ordered table comes before the first.
proof fn first_key_is_least<V>(table: Seq<(Seq<char>, V)>, key: Seq<char>)
    requires
        in_order(table),
        look_up(table, key) is Some,
    ensures
        table.len() > 0,
        key == table[0].0 || text_before(table[0].0, key),
{
    let at = key_of_look_up(table, key);
    if at > 0 {
        assert(text_before(table[0].0, table[at].0));
    }
}

/// The keys of a table as texts, with their values.
pub open spec fn keyed<V>(table: Seq<(String, V)>) -> Seq<(Seq<char>, V)> {
    Seq::new(table.len(), |i: int| (table[i].0@, table[i].1))
}

/// Where `key` belongs: the first index whose key is it or comes after it.
pub fn place_of<V>(table: &Vec<(String, V)>, key: &str) -> (at: usize)
    ensures
        at <= table@.len(),
        forall|j: int|
            0 <= j < at ==> (#[trigger] table@[j]).0@ != key@ && !text_before(key@, table@[j].0@),
        at < table@.len() ==> table@[at as int].0@ == key@ || text_before(
            key@,
            table@[at as int].0@,
        ),
{
    let mut i: usize = 0;
    while i < table.len() && !same_text(table[i].0.as_str(), key) && !is_before(
        key,
        table[i].0.as_str(),
    )
        invariant
            i <= table.len(),
            forall|j: int|
                0 <= j < i ==> (#[trigger] table@[j]).0@ != key@ && !text_before(
                    key@,
                    table@[j].0@,
                ),
        decreases table.len() - i,
    {
        i = i + 1;
    }
    i
}

/// Puts `value` under `key` into a table.
pub fn put_item<V>(table: &mut Vec<(String, V)>, key: String, value: V)
    ensures
        keyed(final(table)@) == put(keyed(old(table)@), key@, value),
{
    let ghost before = keyed(table@);
    let i: usize = place_of(table, key.as_str());
    proof {
        assert forall|j: int| 0 <= j < i implies (#[trigger] before[j]).0 != key@ && !text_before(
            key@,
            before[j].0,
        ) by {
            assert(before[j].0 == table@[j].0@);
        }
        put_after(before, key@, value, i as int);
        if i < table.len() {
            assert(before.skip(i as int)[0] == before[i as int]);
        }
    }
    let ghost new_entry = (key@, value);
    let ghost tail = put(before.skip(i as int), key@, value);
    if i < table.len() && same_text(table[i].0.as_str(), key.as_str()) {
        table.set(i, (key, value));
        assert(tail =~= before.skip(i as int).update(0, new_entry));
    } else {
        table.insert(i, (key, value));
        assert(tail =~= seq![new_entry] + before.skip(i as int));
    }
    assert(keyed(table@) =~= before.take(i as int) + tail);
}

/// The list with one more entry: behind those whose name does not come after its own, before those
/// whose name does.
pub open spec fn sorted_in<V>(list: Seq<(Seq<char>, V)>, entry: (Seq<char>, V)) -> Seq<
    (Seq<char>, V),
>
    decreases list.len(),
{
    if list.len() == 0 || !text_before(entry.0, list.last().0) {
        list.push(entry)
    } else {
        sorted_in(list.drop_last(), entry).push(list.last())
    }
}

/// The list in the order of its names; entries of one name keep their order.
pub open spec fn sorted_by_name<V>(list: Seq<(Seq<char>, V)>) -> Seq<(Seq<char>, V)>
    decreases list.len(),
{
    if list.len() == 0 {
        seq![]
    } else {
        sorted_in(sorted_by_name(list.drop_last()), list.last())
    }
}

/// Whether no name of a list comes before one that stands before it.
pub open spec fn never_descends<V>(list: Seq<(Seq<char>, V)>) -> bool {
    forall|i: int, j: int|
        0 <= i < j < list.len() ==> !#[trigger] text_before(list[j].0, list[i].0)
}

proof fn sorted_in_never_descends<V>(list: Seq<(Seq<char>, V)>, entry: (Seq<char>, V))
    requires
        never_descends(list),
    ensures
        never_descends(sorted_in(list, entry)),
        sorted_in(list, entry).to_multiset() == list.to_multiset().insert(entry),
        sorted_in(list, entry).len() == list.len() + 1,
    decreases list.len(),
{
    broadcast use vstd::seq_lib::group_to_multiset_ensures;

    if list.len() == 0 || !text_before(entry.0, list.last().0) {
        let result = list.push(entry);
        assert forall|i: int, j: int| 0 <= i < j < result.len() implies !#[trigger] text_before(
            result[j].0,
            result[i].0,
        ) by {
            if j < list.len() {
                assert(!text_before(list[j].0, list[i].0));
            } else {
                if text_before(entry.0, list[i].0) {
                    if i < list.len() - 1 {
                        assert(!text_before(list[list.len() - 1].0, list[i].0));
                        text_before_total(list.last().0, list[i].0);
                        if list[i].0 != list.last().0 {
                            text_before_transitive(entry.0, list[i].0, list.last().0);
                        }
                    }
                }
            }
        }
    } else {
        let front = list.drop_last();
        let last = list.last();
        assert forall|i: int, j: int| 0 <= i < j < front.len() implies !#[trigger] text_before(
            front[j].0,
            front[i].0,
        ) by {
            assert(!text_before(list[j].0, list[i].0));
        }
        sorted_in_never_descends(front, entry);
        let inner = sorted_in(front, entry);
        let result = inner.push(last);
        assert(list =~= front.push(last));
        assert(result.to_multiset() =~= list.to_multiset().insert(entry));
        assert forall|i: int, j: int| 0 <= i < j < result.len() implies !#[trigger] text_before(
            result[j].0,
            result[i].0,
        ) by {
            if j < inner.len() {
                assert(!text_before(inner[j].0, inner[i].0));
            } else {
                let x = inner[i];
                assert(inner.contains(x));
                assert(inner.to_multiset().count(x) > 0);
                if x == entry {
                    text_before_asymmetric(entry.0, last.0);
                } else {
                    assert(front.to_multiset().count(x) > 0);
                    assert(front.contains(x));
                    let k = choose|k: int| 0 <= k < front.len() && front[k] == x;
                    assert(!text_before(list[list.len() - 1].0, list[k].0));
                }
            }
        }
    }
}

/// Sorting gives the same entries, and no name comes before one that stands before it.
pub proof fn sorted_by_name_never_descends<V>(list: Seq<(Seq<char>, V)>)
    ensures
        never_descends(sorted_by_name(list)),
        sorted_by_name(list).to_multiset() == list.to_multiset(),
        sorted_by_name(list).len() == list.len(),
    decreases list.len(),
{
    broadcast use vstd::seq_lib::group_to_multiset_ensures;

    if list.len() > 0 {
        sorted_by_name_never_descends(list.drop_last());
        sorted_in_never_descends(sorted_by_name(list.drop_last()), list.last());
        assert(list =~= list.drop_last().push(list.last()));
    } else {
        assert(list =~= seq![]);
    }
}

proof fn sorted_in_at<V>(list: Seq<(Seq<char>, V)>, entry: (Seq<char>, V), at: int)
    requires
        0 <= at <= list.len(),
        at > 0 ==> !text_before(entry.0, list[at - 1].0),
        forall|j: int| at <= j < list.len() ==> text_before(entry.0, (#[trigger] list[j]).0),
    ensures
        sorted_in(list, entry) == list.insert(at, entry),
    decreases list.len(),
{
    if at == list.len() {
        assert(list.insert(at, entry) =~= list.push(entry));
    } else {
        let front = list.drop_last();
        assert(list[list.len() - 1] == list.last());
        assert forall|j: int| at <= j < front.len() implies text_before(
            entry.0,
            (#[trigger] front[j]).0,
        ) by {
            assert(front[j] == list[j]);
        }
        sorted_in_at(front, entry, at);
        assert(front.insert(at, entry).push(list.last()) =~= list.insert(at, entry));
    }
}

/// Puts an entry into a sorted list.
pub fn insert_sorted<V>(list: &mut Vec<(String, V)>, name: String, value: V)
    ensures
        keyed(final(list)@) == sorted_in(keyed(old(list)@), (name@, value)),
{
    let ghost before = keyed(list@);
    let mut at: usize = list.len();
    while at > 0 && is_before(name.as_str(), list[at - 1].0.as_str())
        invariant
            at <= list.len(),
            before == keyed(list@),
            forall|j: int|
                at <= j < before.len() ==> text_before(name@, (#[trigger] before[j]).0),
        decreases at,
    {
        assert(before[at - 1].0 == list@[at - 1].0@);
        at = at - 1;
    }
    proof {
        if at > 0 {
            assert(before[at - 1].0 == list@[at - 1].0@);
        }
        sorted_in_at(before, (name@, value), at as int);
    }
    list.insert(at, (name, value));
    assert(keyed(list@) =~= before.insert(at as int, (name@, value)));
}

/// The list in the order of its names; entries of one name keep their order.
pub fn sort_by_name<V>(list: Vec<(String, V)>) -> (sorted: Vec<(String, V)>)
    ensures
        keyed(sorted@) == sorted_by_name(keyed(list@)),
{
    let ghost all = keyed(list@);
    let mut rest = list;
    let mut sorted: Vec<(String, V)> = Vec::new();
    assert(keyed(sorted@) =~= sorted_by_name(all.take(0)));
    let ghost mut done: int = 0;
    while rest.len() > 0
        invariant
            0 <= done,
            done + rest@.len() == all.len(),
            keyed(rest@) == all.skip(done),
            keyed(sorted@) == sorted_by_name(all.take(done)),
        decreases rest.len(),
    {
        let ghost before = keyed(rest@);
        let (name, value) = rest.remove(0);
        proof {
            assert(before[0] == (name@, value));
            assert(all[done] == (name@, value));
            assert(all.take(done + 1).drop_last() =~= all.take(done));
            assert(keyed(rest@) =~= before.drop_first());
            assert(before.drop_first() =~= all.skip(done + 1));
            done = done + 1;
        }
        insert_sorted(&mut sorted, name, value);
    }
    assert(all.take(done) =~= all);
    sorted
}

/// The first characters that differ decide which of two texts comes first, by their code points,
/// and a text comes before every longer one that begins with it.
pub proof fn first_difference_decides(common: Seq<char>, a: Seq<char>, b: Seq<char>)
    ensures
        a.len() == 0 && b.len() > 0 ==> text_before(common + a, common + b) && !text_before(
            common + b,
            common + a,
        ),
        a.len() > 0 && b.len() > 0 && a[0] != b[0] ==> (text_before(common + a, common + b) <==> (
        a[0] as int) < (b[0] as int)),
    decreases common.len(),
{
    if common.len() == 0 {
        assert(common + a =~= a);
        assert(common + b =~= b);
    } else {
        first_difference_decides(common.drop_first(), a, b);
        assert((common + a).drop_first() =~= common.drop_first() + a);
        assert((common + b).drop_first() =~= common.drop_first() + b);
    }
}

/// The values of the entries with a name, in turn.
pub open spec fn of_name<V>(list: Seq<(Seq<char>, V)>, name: Seq<char>) -> Seq<V>
    decreases list.len(),
{
    if list.len() == 0 {
        seq![]
    } else if list.last().0 == name {
        of_name(list.drop_last(), name).push(list.last().1)
    } else {
        of_name(list.drop_last(), name)
    }
}

proof fn sorted_in_keeps_turns<V>(
    list: Seq<(Seq<char>, V)>,
    entry: (Seq<char>, V),
    name: Seq<char>,
)
    ensures
        of_name(sorted_in(list, entry), name) == (if entry.0 == name {
            of_name(list, name).push(entry.1)
        } else {
            of_name(list, name)
        }),
    decreases list.len(),
{
    if list.len() == 0 || !text_before(entry.0, list.last().0) {
        assert(list.push(entry).drop_last() =~= list);
    } else {
        text_before_irreflexive(entry.0);
        let front = sorted_in(list.drop_last(), entry);
        sorted_in_keeps_turns(list.drop_last(), entry, name);
        assert(front.push(list.last()).drop_last() =~= front);
    }
}

/// Entries of one name keep their order when they are sorted.
pub proof fn sorting_keeps_turns<V>(list: Seq<(Seq<char>, V)>, name: Seq<char>)
    ensures
        of_name(sorted_by_name(list), name) == of_name(list, name),
    decreases list.len(),
{
    if list.len() > 0 {
        sorting_keeps_turns(list.drop_last(), name);
        sorted_in_keeps_turns(sorted_by_name(list.drop_last()), list.last(), name);
    }
}

} // verus!
