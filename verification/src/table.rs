//! Tables: items under keys, in the order in which the keys came.

use crate::value::{EntryModel, Item};
use vstd::prelude::*;

verus! {

/// Items under keys. No key occurs twice, and the entries keep the order in
/// which their keys were first inserted.
///
/// The entries are held in an `indexmap::IndexMap`. The verifier does not
/// look into the map: to it, a table is what [`table_entries`] names, and
/// the functions below that call the map say what each call does to that.
#[verifier::external_body]
#[derive(Debug)]
pub struct Table {
    map: indexmap::IndexMap<String, Item>,
}

impl Clone for Table {
    /// `IndexMap::clone` makes a map of clones of the keys and of the
    /// items.
    #[verifier::external_body]
    fn clone(&self) -> (copy: Table) {
        Table { map: self.map.clone() }
    }
}

impl PartialEq for Table {
    /// `IndexMap::eq` tells whether both maps hold the same keys with equal
    /// items, whatever the order of the entries.
    #[verifier::external_body]
    fn eq(&self, other: &Table) -> (equal: bool) {
        self.map == other.map
    }
}

impl Default for Table {
    fn default() -> (table: Table)
        ensures
            table@ == Seq::<EntryModel>::empty(),
    {
        Table::new()
    }
}

/// The entries that the map of a table holds, in its order of iteration.
pub uninterp spec fn table_entries(table: Table) -> Seq<EntryModel>;

impl View for Table {
    type V = Seq<EntryModel>;

    open spec fn view(&self) -> Seq<EntryModel> {
        table_entries(*self)
    }
}

/// Is `key` the key of one of the entries?
pub open spec fn has_key(entries: Seq<EntryModel>, key: Seq<char>) -> bool {
    exists|i: int| 0 <= i < entries.len() && (#[trigger] entries[i]).key == key
}

/// The place of an entry of key `key`, where there is one.
pub open spec fn position(entries: Seq<EntryModel>, key: Seq<char>) -> int {
    choose|i: int| 0 <= i < entries.len() && (#[trigger] entries[i]).key == key
}

/// Is the entry at `index` the only one of key `key`?
pub open spec fn only_at(entries: Seq<EntryModel>, key: Seq<char>, index: int) -> bool {
    &&& 0 <= index < entries.len()
    &&& entries[index].key == key
    &&& forall|j: int| 0 <= j < entries.len() && j != index ==> (#[trigger] entries[j]).key != key
}

/// Does no key occur twice?
pub open spec fn distinct_keys(entries: Seq<EntryModel>) -> bool {
    forall|i: int, j: int|
        0 <= i < j < entries.len() ==> (#[trigger] entries[i]).key != (#[trigger] entries[j]).key
}

/// The entries after `item` was put under `key`: in the place of the entry
/// of that key where there is one, behind all entries otherwise.
pub open spec fn put(entries: Seq<EntryModel>, key: Seq<char>, item: crate::value::ItemModel) -> Seq<
    EntryModel,
> {
    if has_key(entries, key) {
        entries.update(position(entries, key), EntryModel { key, item })
    } else {
        entries.push(EntryModel { key, item })
    }
}

/// `IndexMap::new` makes a map without entries.
#[verifier::external_body]
fn map_new() -> (table: Table)
    ensures
        table_entries(table) == Seq::<EntryModel>::empty(),
{
    Table { map: indexmap::IndexMap::new() }
}

/// `IndexMap::len` counts the entries.
#[verifier::external_body]
fn map_len(table: &Table) -> (n: usize)
    ensures
        n == table_entries(*table).len(),
{
    table.map.len()
}

/// `IndexMap::get` hands out the value under `key`. An `IndexMap` holds one
/// entry for a key at most, so the entry found is the only one of that key;
/// `None` says that no entry has the key.
#[verifier::external_body]
fn map_get<'a>(table: &'a Table, key: &str) -> (found: Option<&'a Item>)
    ensures
        match found {
            Some(item) => exists|i: int|
                only_at(table_entries(*table), key@, i) && (#[trigger] table_entries(
                    *table,
                )[i]).item == item@,
            None => !has_key(table_entries(*table), key@),
        },
{
    table.map.get(key)
}

/// `IndexMap::get_mut` hands out the value under `key` for change. The entry
/// keeps its place and its key; what the caller leaves in the value is what
/// the map then holds there. `None` says that no entry has the key, and
/// leaves the map as it was.
#[verifier::external_body]
fn map_get_mut<'a>(table: &'a mut Table, key: &str) -> (found: Option<&'a mut Item>)
    ensures
        match found {
            Some(item) => exists|i: int|
                only_at(table_entries(*old(table)), key@, i) && (#[trigger] table_entries(
                    *old(table),
                )[i]).item == item@ && table_entries(*final(table)) == table_entries(
                    *old(table),
                ).update(i, EntryModel { key: key@, item: final(item)@ }),
            None => !has_key(table_entries(*old(table)), key@) && table_entries(*final(table))
                == table_entries(*old(table)),
        },
{
    table.map.get_mut(key)
}

/// `IndexMap::insert` puts `item` under `key`. Where the map holds the key,
/// the entry keeps its place, takes the new value, and the old value is
/// handed back; where it does not, the entry goes behind all others, and
/// `None` is handed back.
#[verifier::external_body]
fn map_insert(table: &mut Table, key: String, item: Item) -> (previous: Option<Item>)
    ensures
        match previous {
            Some(old_item) => exists|i: int|
                only_at(table_entries(*old(table)), key@, i) && (#[trigger] table_entries(
                    *old(table),
                )[i]).item == old_item@ && table_entries(*final(table)) == table_entries(
                    *old(table),
                ).update(i, EntryModel { key: key@, item: item@ }),
            None => !has_key(table_entries(*old(table)), key@) && table_entries(*final(table))
                == table_entries(*old(table)).push(EntryModel { key: key@, item: item@ }),
        },
{
    table.map.insert(key, item)
}

/// `IndexMap::get_index` hands out the key and the value of the entry at
/// `index` in the order of iteration, and `None` where `index` is not below
/// the number of entries.
#[verifier::external_body]
fn map_get_index<'a>(table: &'a Table, index: usize) -> (found: Option<(&'a String, &'a Item)>)
    ensures
        match found {
            Some((key, item)) => index < table_entries(*table).len() && key@ == table_entries(
                *table,
            )[index as int].key && item@ == table_entries(*table)[index as int].item,
            None => index >= table_entries(*table).len(),
        },
{
    table.map.get_index(index)
}

/// `IndexMap::into_iter` hands the entries out by value, in the order of
/// iteration; they are collected as they come.
#[verifier::external_body]
fn map_into_entries(table: Table) -> (entries: Vec<(String, Item)>)
    ensures
        entries@.len() == table_entries(table).len(),
        forall|i: int|
            0 <= i < entries@.len() ==> (#[trigger] entries@[i]).0@ == table_entries(table)[i].key
                && entries@[i].1@ == table_entries(table)[i].item,
{
    table.map.into_iter().collect()
}

impl Table {
    /// The table without entries.
    pub fn new() -> (table: Table)
        ensures
            table@ == Seq::<EntryModel>::empty(),
    {
        map_new()
    }

    /// How many entries the table holds.
    pub fn len(&self) -> (n: usize)
        ensures
            n == self@.len(),
    {
        map_len(self)
    }

    /// Holds the table no entry?
    pub fn is_empty(&self) -> (empty: bool)
        ensures
            empty == (self@.len() == 0),
    {
        map_len(self) == 0
    }

    /// Is there an entry under `key`?
    pub fn contains_key(&self, key: &str) -> (found: bool)
        ensures
            found == has_key(self@, key@),
    {
        map_get(self, key).is_some()
    }

    /// The item under `key`, if there is one.
    pub fn get(&self, key: &str) -> (found: Option<&Item>)
        ensures
            found is Some == has_key(self@, key@),
            found matches Some(item) ==> only_at(self@, key@, position(self@, key@)) && item@
                == self@[position(self@, key@)].item,
    {
        map_get(self, key)
    }

    /// The item under `key`, for change, if there is one. The entry keeps
    /// its place and its key.
    pub fn get_mut(&mut self, key: &str) -> (found: Option<&mut Item>)
        ensures
            found is Some == has_key(old(self)@, key@),
            found matches Some(item) ==> only_at(old(self)@, key@, position(old(self)@, key@))
                && item@ == old(self)@[position(old(self)@, key@)].item && final(self)@ == old(
                self,
            )@.update(position(old(self)@, key@), EntryModel { key: key@, item: final(item)@ }),
            found is None ==> final(self)@ == old(self)@,
    {
        map_get_mut(self, key)
    }

    /// Puts `item` under `key`: in the place of the entry of that key where
    /// there is one, whose item is handed back, and behind all entries
    /// otherwise.
    pub fn insert(&mut self, key: String, item: Item) -> (previous: Option<Item>)
        ensures
            final(self)@ == put(old(self)@, key@, item@),
            previous is Some == has_key(old(self)@, key@),
            previous matches Some(old_item) ==> old_item@ == old(self)@[position(
                old(self)@,
                key@,
            )].item,
    {
        map_insert(self, key, item)
    }

    /// The key and the item of the entry at `index`, if there is one.
    pub fn get_index(&self, index: usize) -> (found: Option<(&String, &Item)>)
        ensures
            match found {
                Some((key, item)) => index < self@.len() && key@ == self@[index as int].key
                    && item@ == self@[index as int].item,
                None => index >= self@.len(),
            },
    {
        map_get_index(self, index)
    }

    /// Gives up the table for its entries, in order.
    pub fn into_entries(self) -> (entries: Vec<(String, Item)>)
        ensures
            entries@.len() == self@.len(),
            forall|i: int|
                0 <= i < entries@.len() ==> (#[trigger] entries@[i]).0@ == self@[i].key
                    && entries@[i].1@ == self@[i].item,
    {
        map_into_entries(self)
    }
}

} // verus!
