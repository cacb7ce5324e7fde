//! Concurrent tables of the `dashmap` crate.
use crate::text::texts;
use vstd::prelude::*;

verus! {

/// A table of the `dashmap` crate.
#[verifier::external_type_specification]
#[verifier::external_body]
#[verifier::reject_recursive_types(K)]
#[verifier::reject_recursive_types(V)]
#[verifier::reject_recursive_types(S)]
pub struct ExDashMap<K, V, S>(dashmap::DashMap<K, V, S>);

/// What a table of names and numbers holds.
pub uninterp spec fn slots(table: dashmap::DashMap<String, usize>) -> Map<Seq<char>, usize>;

/// `dashmap::DashMap::new` makes an empty table.
#[verifier::external_body]
pub(crate) fn new_slots() -> (table: dashmap::DashMap<String, usize>)
    ensures
        slots(table).dom() == Set::<Seq<char>>::empty(),
{
    dashmap::DashMap::new()
}

/// `dashmap::DashMap::insert` puts a value under a key, in the place of the one that was there.
#[verifier::external_body]
pub(crate) fn insert_slot(table: &mut dashmap::DashMap<String, usize>, name: String, slot: usize)
    ensures
        slots(*final(table)) == slots(*old(table)).insert(name@, slot),
{
    table.insert(name, slot);
}

/// `dashmap::DashMap::get` gives the value under a key, where there is one.
#[verifier::external_body]
pub(crate) fn get_slot(table: &dashmap::DashMap<String, usize>, name: &str) -> (slot: Option<
    usize,
>)
    ensures
        slot == (if slots(*table).contains_key(name@) {
            Some(slots(*table)[name@])
        } else {
            None
        }),
{
    table.get(name).map(|entry| *entry.value())
}

/// `dashmap::DashMap::iter` walks the entries of the table, each once, in an order that nothing
/// fixes.
#[verifier::external_body]
pub(crate) fn slot_names(table: &dashmap::DashMap<String, usize>) -> (names: Vec<String>)
    ensures
        texts(names@).no_duplicates(),
        texts(names@).to_set() == slots(*table).dom(),
{
    table.iter().map(|entry| entry.key().clone()).collect()
}

} // verus!
